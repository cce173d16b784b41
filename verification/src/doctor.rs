//! The human report of an environment diagnosis: each check's marker, label,
//! project and message, with a remediation line where one applies.

use vstd::prelude::*;
use crate::commands::{marker_parts, style_marker, CheckStatus};
use crate::messages::{count_value, plain, ArgView, Message, MessageView};
use crate::workflow_errors::count_arg;
use crate::report::{join_lines, joined};
use crate::status::push_line;
use crate::text::{push_str, views};

verus! {

/// One diagnostic check, with its stable identity and findings.
pub struct Check {
    /// Dotted identifier, such as `platform.version`.
    pub id: String,
    pub status: CheckStatus,
    /// The workspace member checked, if any.
    pub project: Option<String>,
    /// The stable code of the finding.
    pub code: String,
    pub expected: Option<String>,
    pub actual: Option<String>,
    pub source: Option<String>,
    /// Commands that the finding affects.
    pub commands: Vec<String>,
    /// The stable name of a remediation, if one applies.
    pub remediation: Option<String>,
}

pub open spec fn dash_or(value: Option<String>) -> Seq<char> {
    match value {
        Some(v) => v@,
        None => "—"@,
    }
}

/// The texts joined by a comma and a space.
pub open spec fn comma_joined(items: Seq<String>) -> Seq<char>
    decreases items.len(),
{
    if items.len() == 0 {
        Seq::empty()
    } else if items.len() == 1 {
        items[0]@
    } else {
        comma_joined(items.drop_last()) + ", "@ + items.last()@
    }
}

pub(crate) fn join_with_commas(items: &Vec<String>) -> (text: String)
    ensures
        text@ == comma_joined(items@),
{
    let mut text = String::new();
    let mut i: usize = 0;
    while i < items.len()
        invariant
            i <= items@.len(),
            text@ == comma_joined(items@.subrange(0, i as int)),
        decreases items.len() - i,
    {
        if i > 0 {
            push_str(&mut text, ", ");
        }
        push_str(&mut text, items[i].as_str());
        assert(items@.subrange(0, i + 1).drop_last() =~= items@.subrange(0, i as int));
        i = i + 1;
    }
    assert(items@.subrange(0, items@.len() as int) =~= items@);
    text
}

fn text_or_dash(value: &Option<String>) -> (text: &str)
    ensures
        text@ == dash_or(*value),
{
    match value {
        Some(v) => v.as_str(),
        None => "—",
    }
}

/// The explanation of a finding: translated by its code, with what was
/// expected and found, where it was found, and the commands it affects.
pub open spec fn check_message_spec(check: Check) -> MessageView {
    plain("doctor-code-"@ + check.code@).with("expected"@, ArgView::Text(dash_or(check.expected))).with(
        "actual"@,
        ArgView::Text(dash_or(check.actual)),
    ).with("source"@, ArgView::Text(dash_or(check.source))).with(
        "commands"@,
        ArgView::Text(comma_joined(check.commands@)),
    )
}

/// The message that explains a check's finding.
pub fn check_message(check: &Check) -> (m: Message)
    ensures
        m@ == check_message_spec(*check),
{
    let mut key = String::new();
    push_str(&mut key, "doctor-code-");
    push_str(&mut key, check.code.as_str());
    let commands = join_with_commas(&check.commands);
    Message::new(key.as_str()).text("expected", text_or_dash(&check.expected)).text(
        "actual",
        text_or_dash(&check.actual),
    ).text("source", text_or_dash(&check.source)).text("commands", commands.as_str())
}

/// `id` with every `.` replaced by `-`.
pub open spec fn dashed(id: Seq<char>) -> Seq<char> {
    id.map_values(|c: char| if c == '.' { '-' } else { c })
}

/// The translation key of a check's label: `doctor-check-` and its
/// identifier with dots turned into dashes.
pub fn check_label_key(id: &str) -> (key: String)
    ensures
        key@ == "doctor-check-"@ + dashed(id@),
{
    let mut key = String::new();
    push_str(&mut key, "doctor-check-");
    let ghost start = key@;
    let n = id.unicode_len();
    let mut i: usize = 0;
    while i < n
        invariant
            n == id@.len(),
            i <= n,
            key@ == start + dashed(id@.subrange(0, i as int)),
        decreases n - i,
    {
        let c = id.get_char(i);
        key.push(if c == '.' { '-' } else { c });
        assert(dashed(id@.subrange(0, i + 1)) =~= dashed(id@.subrange(0, i as int)).push(if c == '.' { '-' } else { c }));
        i = i + 1;
    }
    assert(id@.subrange(0, n as int) =~= id@);
    key
}

/// The translation key of a remediation.
pub fn fix_key(remediation: &str) -> (key: String)
    ensures
        key@ == "doctor-fix-"@ + remediation@,
{
    let mut key = String::new();
    push_str(&mut key, "doctor-fix-");
    push_str(&mut key, remediation);
    key
}

/// A check as the report shows it: its status, translated label and message,
/// and the translated remediation if one applies.
pub struct CheckLine {
    pub status: CheckStatus,
    pub label: String,
    pub project: Option<String>,
    pub message: String,
    pub fix: Option<String>,
}

pub open spec fn marker_text(status: CheckStatus, styled: bool) -> Seq<char> {
    if styled {
        "\x1b["@ + marker_parts(status).1 + "m"@ + marker_parts(status).0 + "\x1b[0m"@
    } else {
        marker_parts(status).0
    }
}

/// The lines of one check: marker, label, project in brackets and message,
/// then the remediation under its translated heading.
pub open spec fn check_lines_spec(c: CheckLine, fix_label: Seq<char>, styled: bool) -> Seq<Seq<char>> {
    let owner = match c.project {
        Some(p) => " ["@ + p@ + "]"@,
        None => Seq::empty(),
    };
    seq![marker_text(c.status, styled) + " "@ + c.label@ + owner + ": "@ + c.message@] + match c.fix {
        Some(f) => seq!["  "@ + fix_label + ": "@ + f@],
        None => Seq::empty(),
    }
}

fn push_check(lines: &mut Vec<String>, c: &CheckLine, fix_label: &str, styled: bool)
    ensures
        views(final(lines)@) == views(old(lines)@) + check_lines_spec(*c, fix_label@, styled),
{
    let ghost start = views(lines@);
    let mut line = style_marker(c.status, styled);
    push_str(&mut line, " ");
    push_str(&mut line, c.label.as_str());
    match &c.project {
        Some(p) => {
            push_str(&mut line, " [");
            push_str(&mut line, p.as_str());
            push_str(&mut line, "]");
        },
        None => {},
    }
    push_str(&mut line, ": ");
    push_str(&mut line, c.message.as_str());
    let ghost owner = match &c.project {
        Some(p) => " ["@ + p@ + "]"@,
        None => Seq::<char>::empty(),
    };
    let ghost first = marker_text(c.status, styled) + " "@ + c.label@ + owner + ": "@ + c.message@;
    assert(line@ =~= first);
    push_line(lines, line);
    match &c.fix {
        Some(f) => {
            let mut fix = String::new();
            push_str(&mut fix, "  ");
            push_str(&mut fix, fix_label);
            push_str(&mut fix, ": ");
            push_str(&mut fix, f.as_str());
            let ghost second = "  "@ + fix_label@ + ": "@ + f@;
            assert(fix@ =~= second);
            push_line(lines, fix);
            assert(views(lines@) =~= start + seq![first] + seq![second]);
        },
        None => {
            assert(views(lines@) =~= start + seq![first]);
        },
    }
    assert(views(lines@) =~= start + check_lines_spec(*c, fix_label@, styled));
}

pub open spec fn all_check_lines(checks: Seq<CheckLine>, fix_label: Seq<char>, styled: bool) -> Seq<Seq<char>>
    decreases checks.len(),
{
    if checks.len() == 0 {
        Seq::empty()
    } else {
        all_check_lines(checks.drop_last(), fix_label, styled) + check_lines_spec(checks.last(), fix_label, styled)
    }
}

/// The diagnosis: the title, every check in order, a blank line and the summary.
pub open spec fn doctor_report_spec(title: Seq<char>, checks: Seq<CheckLine>, fix_label: Seq<char>, summary: Seq<char>, styled: bool) -> Seq<char> {
    joined(seq![title] + all_check_lines(checks, fix_label, styled) + seq![Seq::empty(), summary], "\n"@)
}

/// Renders the diagnosis from its translated texts.
pub fn render_doctor(title: &str, checks: &Vec<CheckLine>, fix_label: &str, summary: &str, styled: bool) -> (text: String)
    ensures
        text@ == doctor_report_spec(title@, checks@, fix_label@, summary@, styled),
{
    let mut lines: Vec<String> = Vec::new();
    push_line(&mut lines, title.to_owned());
    let ghost head = views(lines@);
    let mut i: usize = 0;
    while i < checks.len()
        invariant
            i <= checks@.len(),
            views(lines@) == head + all_check_lines(checks@.subrange(0, i as int), fix_label@, styled),
        decreases checks.len() - i,
    {
        push_check(&mut lines, &checks[i], fix_label, styled);
        assert(checks@.subrange(0, i + 1).drop_last() =~= checks@.subrange(0, i as int));
        i = i + 1;
    }
    assert(checks@.subrange(0, checks@.len() as int) =~= checks@);
    let ghost body = views(lines@);
    push_line(&mut lines, String::new());
    push_line(&mut lines, summary.to_owned());
    assert(views(lines@) =~= seq![title@] + all_check_lines(checks@, fix_label@, styled) + seq![Seq::empty(), summary@]);
    join_lines(&lines, "\n")
}

/// Text with its terminal colour sequences removed: an escape character and
/// everything up to and including the next `m` are dropped.
pub open spec fn without_colors(s: Seq<char>) -> Seq<char>
    decreases s.len(),
{
    if s.len() == 0 {
        Seq::empty()
    } else if s[0] == '\u{1b}' {
        color_sequence_rest(s.drop_first())
    } else {
        seq![s[0]] + without_colors(s.drop_first())
    }
}

/// What remains of text that starts inside a colour sequence.
pub open spec fn color_sequence_rest(s: Seq<char>) -> Seq<char>
    decreases s.len(),
{
    if s.len() == 0 {
        Seq::empty()
    } else if s[0] == 'm' {
        without_colors(s.drop_first())
    } else {
        color_sequence_rest(s.drop_first())
    }
}

/// Text that holds no escape character.
pub open spec fn escape_free(s: Seq<char>) -> bool {
    !s.contains('\u{1b}')
}

/// Removing the colours of `a` followed by any text gives `p` followed by
/// that text without its colours.
spec fn strips_to(a: Seq<char>, p: Seq<char>) -> bool {
    forall|x: Seq<char>| #[trigger] without_colors(a + x) == p + without_colors(x)
}

spec fn lines_strip_to(ls: Seq<Seq<char>>, lp: Seq<Seq<char>>) -> bool {
    &&& ls.len() == lp.len()
    &&& forall|i: int| 0 <= i < ls.len() ==> strips_to(#[trigger] ls[i], lp[i])
}

proof fn lemma_plain_prefix(a: Seq<char>, x: Seq<char>)
    requires
        escape_free(a),
    ensures
        without_colors(a + x) == a + without_colors(x),
    decreases a.len(),
{
    if a.len() == 0 {
        assert(a + x =~= x);
        assert(a + without_colors(x) =~= without_colors(x));
    } else {
        assert(a.contains(a[0]));
        assert((a + x)[0] == a[0]);
        assert((a + x).drop_first() =~= a.drop_first() + x);
        assert(escape_free(a.drop_first())) by {
            if a.drop_first().contains('\u{1b}') {
                let i = choose|i: int| 0 <= i < a.drop_first().len() && a.drop_first()[i] == '\u{1b}';
                assert(a[i + 1] == '\u{1b}');
            }
        }
        lemma_plain_prefix(a.drop_first(), x);
        assert(a =~= seq![a[0]] + a.drop_first());
    }
}

proof fn lemma_sequence_end(code: Seq<char>, x: Seq<char>)
    requires
        !code.contains('m'),
    ensures
        color_sequence_rest(code + seq!['m'] + x) == without_colors(x),
    decreases code.len(),
{
    let s = code + seq!['m'] + x;
    if code.len() == 0 {
        assert(s[0] == 'm');
        assert(s.drop_first() =~= x);
    } else {
        assert(code.contains(code[0]));
        assert(s[0] == code[0]);
        assert(s.drop_first() =~= code.drop_first() + seq!['m'] + x);
        assert(!code.drop_first().contains('m')) by {
            if code.drop_first().contains('m') {
                let i = choose|i: int| 0 <= i < code.drop_first().len() && code.drop_first()[i] == 'm';
                assert(code[i + 1] == 'm');
            }
        }
        lemma_sequence_end(code.drop_first(), x);
    }
}

proof fn lemma_strips_plain(a: Seq<char>)
    requires
        escape_free(a),
    ensures
        strips_to(a, a),
{
    assert forall|x: Seq<char>| #[trigger] without_colors(a + x) == a + without_colors(x) by {
        lemma_plain_prefix(a, x);
    }
}

proof fn lemma_strips_sequence(code: Seq<char>)
    requires
        !code.contains('m'),
    ensures
        strips_to(seq!['\u{1b}'] + code + seq!['m'], Seq::empty()),
{
    let e = seq!['\u{1b}'] + code + seq!['m'];
    assert forall|x: Seq<char>| #[trigger] without_colors(e + x) == Seq::<char>::empty() + without_colors(x) by {
        let s = e + x;
        assert(s[0] == '\u{1b}');
        assert(s.drop_first() =~= code + seq!['m'] + x);
        lemma_sequence_end(code, x);
        assert(Seq::<char>::empty() + without_colors(x) =~= without_colors(x));
    }
}

proof fn lemma_strips_concat(a: Seq<char>, p: Seq<char>, b: Seq<char>, q: Seq<char>)
    requires
        strips_to(a, p),
        strips_to(b, q),
    ensures
        strips_to(a + b, p + q),
{
    assert forall|x: Seq<char>| #[trigger] without_colors((a + b) + x) == (p + q) + without_colors(x) by {
        assert((a + b) + x =~= a + (b + x));
        assert(without_colors(a + (b + x)) == p + without_colors(b + x));
        assert(without_colors(b + x) == q + without_colors(x));
        assert(p + (q + without_colors(x)) =~= (p + q) + without_colors(x));
    }
}

proof fn lemma_strips_whole(a: Seq<char>, p: Seq<char>)
    requires
        strips_to(a, p),
    ensures
        without_colors(a) == p,
{
    assert(a + Seq::<char>::empty() =~= a);
    assert(without_colors(a + Seq::<char>::empty()) == p + without_colors(Seq::<char>::empty()));
    assert(p + Seq::<char>::empty() =~= p);
}

/// Nothing that colours are removed from holds an escape character.
proof fn lemma_without_colors_escape_free(s: Seq<char>)
    ensures
        escape_free(without_colors(s)),
        escape_free(color_sequence_rest(s)),
    decreases s.len(),
{
    if s.len() > 0 {
        lemma_without_colors_escape_free(s.drop_first());
        if s[0] != '\u{1b}' {
            let r = seq![s[0]] + without_colors(s.drop_first());
            if r.contains('\u{1b}') {
                let i = choose|i: int| 0 <= i < r.len() && r[i] == '\u{1b}';
                if i > 0 {
                    assert(without_colors(s.drop_first())[i - 1] == '\u{1b}');
                }
            }
        }
    }
}

proof fn lemma_marker_strips(status: CheckStatus)
    ensures
        strips_to(marker_text(status, true), marker_text(status, false)),
{
    reveal_strlit("\x1b[");
    reveal_strlit("m");
    reveal_strlit("\x1b[0m");
    reveal_strlit("1;32");
    reveal_strlit("1;33");
    reveal_strlit("1;31");
    reveal_strlit("2;90");
    reveal_strlit("✓");
    reveal_strlit("!");
    reveal_strlit("✗");
    reveal_strlit("–");
    let (mark, color) = marker_parts(status);
    let code = seq!['['] + color;
    assert(!code.contains('m')) by {
        if code.contains('m') {
            let i = choose|i: int| 0 <= i < code.len() && code[i] == 'm';
            assert(code[i] == 'm');
        }
    }
    let reset = seq!['[', '0'];
    assert(!reset.contains('m')) by {
        if reset.contains('m') {
            let i = choose|i: int| 0 <= i < reset.len() && reset[i] == 'm';
            assert(reset[i] == 'm');
        }
    }
    assert(escape_free(mark)) by {
        if mark.contains('\u{1b}') {
            let i = choose|i: int| 0 <= i < mark.len() && mark[i] == '\u{1b}';
            assert(mark[i] == '\u{1b}');
        }
    }
    let open = seq!['\u{1b}'] + code + seq!['m'];
    let close = seq!['\u{1b}'] + reset + seq!['m'];
    lemma_strips_sequence(code);
    lemma_strips_sequence(reset);
    lemma_strips_plain(mark);
    lemma_strips_concat(open, Seq::empty(), mark, mark);
    lemma_strips_concat(open + mark, Seq::<char>::empty() + mark, close, Seq::empty());
    assert(open + mark + close =~= marker_text(status, true));
    assert(Seq::<char>::empty() + mark + Seq::<char>::empty() =~= marker_text(status, false));
}

proof fn lemma_literal_strips(s: Seq<char>)
    requires
        forall|i: int| 0 <= i < s.len() ==> s[i] != '\u{1b}',
    ensures
        strips_to(s, s),
{
    lemma_strips_plain(s);
}

/// The texts of a check as the report shows them hold no escape character.
pub open spec fn check_line_escape_free(c: CheckLine) -> bool {
    &&& escape_free(c.label@)
    &&& escape_free(c.message@)
    &&& (c.project matches Some(p) ==> escape_free(p@))
    &&& (c.fix matches Some(f) ==> escape_free(f@))
}

proof fn lemma_check_lines_strip(c: CheckLine, fix_label: Seq<char>)
    requires
        check_line_escape_free(c),
        escape_free(fix_label),
    ensures
        lines_strip_to(check_lines_spec(c, fix_label, true), check_lines_spec(c, fix_label, false)),
{
    reveal_strlit(" ");
    reveal_strlit(" [");
    reveal_strlit("]");
    reveal_strlit(": ");
    reveal_strlit("  ");
    lemma_literal_strips(" "@);
    lemma_literal_strips(" ["@);
    lemma_literal_strips("]"@);
    lemma_literal_strips(": "@);
    lemma_literal_strips("  "@);
    lemma_strips_plain(c.label@);
    lemma_strips_plain(c.message@);
    lemma_strips_plain(fix_label);
    let owner = match c.project {
        Some(p) => " ["@ + p@ + "]"@,
        None => Seq::empty(),
    };
    match c.project {
        Some(p) => {
            lemma_strips_plain(p@);
            lemma_strips_concat(" ["@, " ["@, p@, p@);
            lemma_strips_concat(" ["@ + p@, " ["@ + p@, "]"@, "]"@);
        },
        None => {
            lemma_strips_plain(Seq::empty());
        },
    }
    lemma_marker_strips(c.status);
    let ms = marker_text(c.status, true);
    let mp = marker_text(c.status, false);
    lemma_strips_concat(ms, mp, " "@, " "@);
    lemma_strips_concat(ms + " "@, mp + " "@, c.label@, c.label@);
    lemma_strips_concat(ms + " "@ + c.label@, mp + " "@ + c.label@, owner, owner);
    lemma_strips_concat(ms + " "@ + c.label@ + owner, mp + " "@ + c.label@ + owner, ": "@, ": "@);
    lemma_strips_concat(
        ms + " "@ + c.label@ + owner + ": "@,
        mp + " "@ + c.label@ + owner + ": "@,
        c.message@,
        c.message@,
    );
    let ls = check_lines_spec(c, fix_label, true);
    let lp = check_lines_spec(c, fix_label, false);
    match c.fix {
        Some(f) => {
            lemma_strips_plain(f@);
            lemma_strips_concat("  "@, "  "@, fix_label, fix_label);
            lemma_strips_concat("  "@ + fix_label, "  "@ + fix_label, ": "@, ": "@);
            lemma_strips_concat("  "@ + fix_label + ": "@, "  "@ + fix_label + ": "@, f@, f@);
            assert(ls[1] == lp[1]);
        },
        None => {},
    }
    assert(strips_to(ls[0], lp[0]));
}

proof fn lemma_lines_concat(ls1: Seq<Seq<char>>, lp1: Seq<Seq<char>>, ls2: Seq<Seq<char>>, lp2: Seq<Seq<char>>)
    requires
        lines_strip_to(ls1, lp1),
        lines_strip_to(ls2, lp2),
    ensures
        lines_strip_to(ls1 + ls2, lp1 + lp2),
{
    assert forall|i: int| 0 <= i < (ls1 + ls2).len() implies strips_to(#[trigger] (ls1 + ls2)[i], (lp1 + lp2)[i]) by {
        if i < ls1.len() {
            assert(strips_to(ls1[i], lp1[i]));
        } else {
            assert(strips_to(ls2[i - ls1.len()], lp2[i - ls1.len()]));
        }
    }
}

proof fn lemma_all_check_lines_strip(checks: Seq<CheckLine>, fix_label: Seq<char>)
    requires
        forall|i: int| 0 <= i < checks.len() ==> check_line_escape_free(#[trigger] checks[i]),
        escape_free(fix_label),
    ensures
        lines_strip_to(all_check_lines(checks, fix_label, true), all_check_lines(checks, fix_label, false)),
    decreases checks.len(),
{
    if checks.len() > 0 {
        assert(check_line_escape_free(checks[checks.len() - 1]));
        lemma_all_check_lines_strip(checks.drop_last(), fix_label);
        lemma_check_lines_strip(checks.last(), fix_label);
        lemma_lines_concat(
            all_check_lines(checks.drop_last(), fix_label, true),
            all_check_lines(checks.drop_last(), fix_label, false),
            check_lines_spec(checks.last(), fix_label, true),
            check_lines_spec(checks.last(), fix_label, false),
        );
    }
}

proof fn lemma_joined_strips(ls: Seq<Seq<char>>, lp: Seq<Seq<char>>, sep: Seq<char>)
    requires
        lines_strip_to(ls, lp),
        strips_to(sep, sep),
    ensures
        strips_to(joined(ls, sep), joined(lp, sep)),
    decreases ls.len(),
{
    if ls.len() == 0 {
        lemma_strips_plain(Seq::empty());
    } else if ls.len() == 1 {
        assert(strips_to(ls[0], lp[0]));
    } else {
        assert(lines_strip_to(ls.drop_last(), lp.drop_last())) by {
            assert forall|i: int| 0 <= i < ls.drop_last().len() implies strips_to(#[trigger] ls.drop_last()[i], lp.drop_last()[i]) by {
                assert(strips_to(ls[i], lp[i]));
            }
        }
        lemma_joined_strips(ls.drop_last(), lp.drop_last(), sep);
        assert(strips_to(ls[ls.len() - 1], lp[lp.len() - 1]));
        lemma_strips_concat(joined(ls.drop_last(), sep), joined(lp.drop_last(), sep), sep, sep);
        lemma_strips_concat(joined(ls.drop_last(), sep) + sep, joined(lp.drop_last(), sep) + sep, ls.last(), lp.last());
    }
}

/// Colour only decorates the diagnosis: where the translated texts hold no
/// escape character, removing the colour sequences from the styled report
/// gives the plain report, and the plain report holds no escape character.
pub proof fn lemma_colors_only_decorate(title: Seq<char>, checks: Seq<CheckLine>, fix_label: Seq<char>, summary: Seq<char>)
    requires
        escape_free(title),
        escape_free(fix_label),
        escape_free(summary),
        forall|i: int| 0 <= i < checks.len() ==> check_line_escape_free(#[trigger] checks[i]),
    ensures
        without_colors(doctor_report_spec(title, checks, fix_label, summary, true)) == doctor_report_spec(
            title,
            checks,
            fix_label,
            summary,
            false,
        ),
        escape_free(doctor_report_spec(title, checks, fix_label, summary, false)),
{
    reveal_strlit("\n");
    lemma_literal_strips("\n"@);
    lemma_strips_plain(title);
    lemma_strips_plain(summary);
    lemma_strips_plain(Seq::empty());
    let head_s = seq![title];
    assert(lines_strip_to(head_s, head_s)) by {
        assert(strips_to(head_s[0], head_s[0]));
    }
    let tail = seq![Seq::<char>::empty(), summary];
    assert(lines_strip_to(tail, tail)) by {
        assert(strips_to(tail[0], tail[0]));
        assert(strips_to(tail[1], tail[1]));
    }
    lemma_all_check_lines_strip(checks, fix_label);
    let body_s = all_check_lines(checks, fix_label, true);
    let body_p = all_check_lines(checks, fix_label, false);
    lemma_lines_concat(head_s, head_s, body_s, body_p);
    lemma_lines_concat(head_s + body_s, head_s + body_p, tail, tail);
    lemma_joined_strips(head_s + body_s + tail, head_s + body_p + tail, "\n"@);
    let styled = doctor_report_spec(title, checks, fix_label, summary, true);
    let plain_text = doctor_report_spec(title, checks, fix_label, summary, false);
    lemma_strips_whole(styled, plain_text);
    lemma_without_colors_escape_free(styled);
}

/// How many of the statuses are `status`.
pub open spec fn status_count(statuses: Seq<CheckStatus>, status: CheckStatus) -> nat
    decreases statuses.len(),
{
    if statuses.len() == 0 {
        0
    } else {
        status_count(statuses.drop_last(), status) + if statuses.last() == status {
            1nat
        } else {
            0nat
        }
    }
}

/// The number of checks of each outcome.
#[derive(Clone, Copy, Debug, PartialEq, Eq, Structural)]
pub struct Summary {
    pub passed: usize,
    pub warnings: usize,
    pub failed: usize,
    pub skipped: usize,
}

/// Counts the checks of each outcome.
pub fn summarize(statuses: &Vec<CheckStatus>) -> (summary: Summary)
    ensures
        summary.passed == status_count(statuses@, CheckStatus::Pass),
        summary.warnings == status_count(statuses@, CheckStatus::Warning),
        summary.failed == status_count(statuses@, CheckStatus::Fail),
        summary.skipped == status_count(statuses@, CheckStatus::Skipped),
{
    let mut summary = Summary { passed: 0, warnings: 0, failed: 0, skipped: 0 };
    let mut i: usize = 0;
    while i < statuses.len()
        invariant
            i <= statuses@.len(),
            summary.passed == status_count(statuses@.subrange(0, i as int), CheckStatus::Pass),
            summary.warnings == status_count(statuses@.subrange(0, i as int), CheckStatus::Warning),
            summary.failed == status_count(statuses@.subrange(0, i as int), CheckStatus::Fail),
            summary.skipped == status_count(statuses@.subrange(0, i as int), CheckStatus::Skipped),
            summary.passed + summary.warnings + summary.failed + summary.skipped == i,
        decreases statuses.len() - i,
    {
        assert(statuses@.subrange(0, i + 1).drop_last() =~= statuses@.subrange(0, i as int));
        match statuses[i] {
            CheckStatus::Pass => summary.passed = summary.passed + 1,
            CheckStatus::Warning => summary.warnings = summary.warnings + 1,
            CheckStatus::Fail => summary.failed = summary.failed + 1,
            CheckStatus::Skipped => summary.skipped = summary.skipped + 1,
        }
        i = i + 1;
    }
    assert(statuses@.subrange(0, statuses@.len() as int) =~= statuses@);
    summary
}

/// Every check has exactly one outcome, so the counts of a summary add up
/// to the number of checks.
pub proof fn lemma_summary_counts_every_check(statuses: Seq<CheckStatus>)
    ensures
        status_count(statuses, CheckStatus::Pass) + status_count(statuses, CheckStatus::Warning) + status_count(
            statuses,
            CheckStatus::Fail,
        ) + status_count(statuses, CheckStatus::Skipped) == statuses.len(),
    decreases statuses.len(),
{
    if statuses.len() > 0 {
        lemma_summary_counts_every_check(statuses.drop_last());
    }
}

/// The summary line of a diagnosis.
pub fn summary_message(summary: Summary) -> (m: Message)
    ensures
        m@ == plain("doctor-summary"@).with("passed"@, count_arg(summary.passed)).with(
            "warnings"@,
            count_arg(summary.warnings),
        ).with("failed"@, count_arg(summary.failed)).with("skipped"@, count_arg(summary.skipped)),
{
    Message::new("doctor-summary").number("passed", count_value(summary.passed)).number(
        "warnings",
        count_value(summary.warnings),
    ).number("failed", count_value(summary.failed)).number("skipped", count_value(summary.skipped))
}

/// A diagnosis fails exactly when one of its checks failed; warnings do not fail it.
pub fn has_failures(statuses: &Vec<CheckStatus>) -> (r: bool)
    ensures
        r == exists|i: int| 0 <= i < statuses@.len() && statuses@[i] == CheckStatus::Fail,
{
    let mut i: usize = 0;
    while i < statuses.len()
        invariant
            i <= statuses@.len(),
            forall|j: int| 0 <= j < i ==> statuses@[j] != CheckStatus::Fail,
        decreases statuses.len() - i,
    {
        if statuses[i] == CheckStatus::Fail {
            return true;
        }
        i = i + 1;
    }
    false
}

/// The status of a diagnosis in its machine document.
pub fn document_status(failed: bool) -> (status: &'static str)
    ensures
        status@ == if failed {
            "error"@
        } else {
            "ok"@
        },
{
    if failed {
        "error"
    } else {
        "ok"
    }
}

fn texts(items: &[&str]) -> (v: Vec<String>)
    ensures
        v@.len() == items@.len(),
        forall|i: int| 0 <= i < items@.len() ==> #[trigger] v@[i]@ == items@[i]@,
{
    let mut v: Vec<String> = Vec::new();
    let mut i: usize = 0;
    while i < items.len()
        invariant
            i <= items@.len(),
            v@.len() == i,
            forall|j: int| 0 <= j < i ==> #[trigger] v@[j]@ == items@[j]@,
        decreases items.len() - i,
    {
        v.push(items[i].to_owned());
        i = i + 1;
    }
    v
}

/// A check of the whole machine or project, with neither member nor
/// expectation, finding or source.
pub open spec fn plain_check(check: Check, id: Seq<char>, status: CheckStatus, code: Seq<char>, commands: Seq<Seq<char>>) -> bool {
    &&& check.id@ == id
    &&& check.status == status
    &&& check.project is None
    &&& check.code@ == code
    &&& check.expected is None
    &&& check.actual is None
    &&& check.source is None
    &&& check.commands@.len() == commands.len()
    &&& forall|i: int| 0 <= i < commands.len() ==> #[trigger] check.commands@[i]@ == commands[i]
}

fn new_check(id: &str, status: CheckStatus, code: &str, commands: &[&str], remediation: Option<&str>) -> (check: Check)
    ensures
        plain_check(check, id@, status, code@, commands@.map_values(|c: &str| c@)),
        remediation matches Some(r) ==> (check.remediation matches Some(f) && f@ == r@),
        remediation is None ==> check.remediation is None,
{
    Check {
        id: id.to_owned(),
        status,
        project: None,
        code: code.to_owned(),
        expected: None,
        actual: None,
        source: None,
        commands: texts(commands),
        remediation: match remediation {
            Some(r) => Some(r.to_owned()),
            None => None,
        },
    }
}

/// The check of the machine-wide runner settings: it passes when they are
/// valid and otherwise fails with a remediation; platform, build and patch
/// depend on it.
pub fn machine_config_check(valid: bool) -> (check: Check)
    ensures
        plain_check(
            check,
            "machine.config"@,
            if valid {
                CheckStatus::Pass
            } else {
                CheckStatus::Fail
            },
            if valid {
                "valid"@
            } else {
                "invalid"@
            },
            seq!["platform"@, "build"@, "patch"@],
        ),
        valid ==> check.remediation is None,
        !valid ==> (check.remediation matches Some(r) && r@ == "correct-machine-config"@),
{
    let commands: [&str; 3] = ["platform", "build", "patch"];
    if valid {
        new_check("machine.config", CheckStatus::Pass, "valid", &commands, None)
    } else {
        new_check("machine.config", CheckStatus::Fail, "invalid", &commands, Some("correct-machine-config"))
    }
}

/// The failed check of a project configuration that could not be read;
/// status, diff, save and build depend on it.
pub fn project_config_failure() -> (check: Check)
    ensures
        plain_check(check, "project.config"@, CheckStatus::Fail, "invalid"@, seq!["status"@, "diff"@, "save"@, "build"@]),
        check.remediation matches Some(r) && r@ == "correct-project-config"@,
{
    let commands: [&str; 4] = ["status", "diff", "save", "build"];
    new_check("project.config", CheckStatus::Fail, "invalid", &commands, Some("correct-project-config"))
}

/// The failed check of a project selection that does not fit the context.
pub fn selection_failure() -> (check: Check)
    ensures
        plain_check(check, "project.selection"@, CheckStatus::Fail, "invalid"@, seq!["doctor"@]),
        check.remediation matches Some(r) && r@ == "correct-project-selection"@,
{
    let commands: [&str; 1] = ["doctor"];
    new_check("project.selection", CheckStatus::Fail, "invalid", &commands, Some("correct-project-selection"))
}

} // verus!
