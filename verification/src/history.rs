//! Presentation of commit history: compact identifiers, lossless text
//! encodings and safe e-mail links.

use vstd::prelude::*;
use vstd::string::*;
use vstd::utf8::*;
use crate::build_output::{controls_escaped, display_path};
use crate::encoding::{hex_char, hex_digit, percent_encode_bytes, percent_encoded, percent_label, utf8_label};
use crate::rpc::{all_decimal, decimal_value, lemma_decimal_value_grows};
use crate::report::{join_lines, joined};
use crate::status::{field_lines, fields_view, or_dash, push_fields, push_line, value_or_dash};
use crate::text::{byte_str_text, decimal_text, lossy_text, lossy_utf8, push_decimal, push_str, views};

verus! {

/// Bytes that stay literal in a `mailto:` address.
pub open spec fn mailto_safe(b: u8) -> bool {
    (48 <= b <= 57) || (65 <= b <= 90) || (97 <= b <= 122) || b == 45 || b == 46 || b == 95 || b
        == 126 || b == 64
}

pub open spec fn mailto_encoded(bytes: Seq<u8>) -> Seq<char>
    decreases bytes.len(),
{
    if bytes.len() == 0 {
        Seq::empty()
    } else {
        let b = bytes.last();
        mailto_encoded(bytes.drop_last()) + if mailto_safe(b) {
            seq![b as char]
        } else {
            seq!['%', hex_digit((b / 16) as int), hex_digit((b % 16) as int)]
        }
    }
}

/// Percent-encodes arbitrary Git bytes into a safe `mailto:` address.
pub fn mailto_address(email: &[u8]) -> (address: String)
    ensures
        address@ == mailto_encoded(email@),
{
    let mut address = String::new();
    let mut i: usize = 0;
    while i < email.len()
        invariant
            i <= email@.len(),
            address@ == mailto_encoded(email@.subrange(0, i as int)),
        decreases email.len() - i,
    {
        let b = email[i];
        if (48 <= b && b <= 57) || (65 <= b && b <= 90) || (97 <= b && b <= 122) || b == 45 || b
            == 46 || b == 95 || b == 126 || b == 64 {
            address.push(b as char);
        } else {
            address.push('%');
            address.push(hex_char(b / 16));
            address.push(hex_char(b % 16));
        }
        proof {
            assert(email@.subrange(0, i + 1).drop_last() =~= email@.subrange(0, i as int));
            assert(address@ =~= mailto_encoded(email@.subrange(0, i + 1)));
        }
        i = i + 1;
    }
    assert(email@.subrange(0, email@.len() as int) =~= email@);
    address
}

/// An e-mail address as shown: readable text with control characters escaped.
pub fn display_email(email: &[u8]) -> (label: String)
    ensures
        label@ == controls_escaped(lossy_text(email@)),
        valid_utf8(email@) ==> label@ == controls_escaped(decode_utf8(email@)),
{
    let text = lossy_utf8(email);
    display_path(text.as_str())
}

pub open spec fn email_link(email: Seq<u8>, hyperlink: bool) -> Seq<char> {
    let label = controls_escaped(lossy_text(email));
    if hyperlink {
        "\x1b]8;;mailto:"@ + mailto_encoded(email) + "\x1b\\"@ + label + "\x1b]8;;\x1b\\"@
    } else {
        label
    }
}

/// An e-mail address, wrapped in a terminal `mailto:` link when links are wanted.
pub fn render_email(email: &[u8], hyperlink: bool) -> (r: String)
    ensures
        r@ == email_link(email@, hyperlink),
{
    let label = display_email(email);
    if !hyperlink {
        return label;
    }
    let target = mailto_address(email);
    let mut r = String::new();
    push_str(&mut r, "\x1b]8;;mailto:");
    push_str(&mut r, target.as_str());
    push_str(&mut r, "\x1b\\");
    push_str(&mut r, label.as_str());
    push_str(&mut r, "\x1b]8;;\x1b\\");
    r
}

/// The text of the first twelve bytes of an identifier when they end on a
/// character boundary, and otherwise the whole identifier.
pub open spec fn short_id_text(id: Seq<char>) -> Seq<char> {
    if is_char_boundary(encode_utf8(id), 12) {
        decode_utf8(encode_utf8(id).subrange(0, 12))
    } else {
        id
    }
}

/// The conventional twelve-byte prefix of an object identifier, or the whole
/// identifier when it has no such prefix.
pub fn short_id(id: &str) -> (short: &str)
    ensures
        is_char_boundary(id.spec_bytes(), 12) ==> short.spec_bytes() == id.spec_bytes().subrange(0, 12),
        !is_char_boundary(id.spec_bytes(), 12) ==> short@ == id@,
        short@ == short_id_text(id@),
{
    if id.is_char_boundary(12) {
        let parts = id.split_at(12);
        let head: &str = parts.0;
        assert(head.spec_bytes() =~= id.spec_bytes().subrange(0, 12));
        proof {
            encode_utf8_decode_utf8(head@);
        }
        head
    } else {
        id
    }
}

/// Keeps valid UTF-8 exact and percent-encodes other Git bytes without loss;
/// the second component names the encoding used.
pub fn encoded_text(value: &[u8]) -> (r: (String, &'static str))
    ensures
        valid_utf8(value@) ==> r.0@ == decode_utf8(value@) && r.1@ == utf8_label(),
        !valid_utf8(value@) ==> r.0@ == percent_encoded(value@) && r.1@ == percent_label(),
{
    match byte_str_text(value) {
        Some(text) => {
            proof {
                reveal_strlit("utf-8");
            }
            (text.to_owned(), "utf-8")
        },
        None => {
            proof {
                reveal_strlit("percent");
            }
            (percent_encode_bytes(value), "percent")
        },
    }
}

/// The strftime format whose fields the human date is assembled from.
pub const HUMAN_DATE_FORMAT: &'static str = "%d|%m|%Y|%H:%M:%S|%:z";

/// The strict ISO 8601 format of machine output (gix's `ISO8601_STRICT`).
pub const ISO_DATE_FORMAT: &'static str = "%Y-%m-%dT%H:%M:%S%:z";

/// What gix's `Time::format_or_unix` gives for the time `seconds` after the
/// epoch at the UTC offset `offset` (in seconds), in the strftime `format`.
pub uninterp spec fn formatted_time(seconds: i64, offset: i32, format: Seq<char>) -> Seq<char>;

/// Formats a Git time with `gix::date::Time::format_or_unix` and a custom
/// format. Its result is a function of the arguments alone: gix converts to a
/// fixed-offset zone with jiff and formats it, and gives the seconds in decimal
/// when the conversion fails; none of that is stated beyond the name. Only the
/// two formats of this module are admitted, as jiff's formatter fails, and
/// `to_string` then panics, on a malformed directive.
#[verifier::external_body]
fn format_time(seconds: i64, offset: i32, format: &'static str) -> (text: String)
    requires
        format@ == HUMAN_DATE_FORMAT@ || format@ == ISO_DATE_FORMAT@,
    ensures
        text@ == formatted_time(seconds, offset, format@),
{
    gix::date::Time { seconds, offset }.format_or_unix(gix::date::time::CustomFormat::new(format))
}

/// The authoring time of a commit as machine output prints it.
pub fn iso_date(seconds: i64, offset: i32) -> (text: String)
    ensures
        text@ == formatted_time(seconds, offset, ISO_DATE_FORMAT@),
{
    format_time(seconds, offset, ISO_DATE_FORMAT)
}

/// The pieces of `s` between the separators `c`, as `str::split` gives them.
pub open spec fn split_on(s: Seq<char>, c: char) -> Seq<Seq<char>>
    decreases s.len(),
{
    if s.len() == 0 {
        seq![Seq::empty()]
    } else {
        let rest = split_on(s.drop_last(), c);
        if s.last() == c {
            rest.push(Seq::empty())
        } else {
            rest.update(rest.len() - 1, rest.last().push(s.last()))
        }
    }
}

proof fn lemma_split_on_nonempty(s: Seq<char>, c: char)
    ensures
        split_on(s, c).len() >= 1,
    decreases s.len(),
{
    if s.len() > 0 {
        lemma_split_on_nonempty(s.drop_last(), c);
    }
}

/// The digits of an unsigned number as `str::parse` reads them: an optional
/// leading `+` is dropped.
pub open spec fn unsigned_digits(s: Seq<char>) -> Seq<char> {
    if s.len() > 0 && s[0] == '+' {
        s.drop_first()
    } else {
        s
    }
}

/// `s` parsed as a `u8`, as `str::parse::<u8>` does.
pub open spec fn parse_u8_spec(s: Seq<char>) -> Option<u8> {
    let d = unsigned_digits(s);
    if all_decimal(d) && decimal_value(d) <= 255 {
        Some(decimal_value(d) as u8)
    } else {
        None
    }
}

/// Parses a `u8`: an optional `+`, then at least one decimal digit, of value at most 255.
pub fn parse_u8(s: &str) -> (r: Option<u8>)
    ensures
        r == parse_u8_spec(s@),
{
    let n = s.unicode_len();
    let start: usize = if n > 0 && s.get_char(0) == '+' { 1 } else { 0 };
    let ghost d = unsigned_digits(s@);
    assert(d =~= s@.subrange(start as int, n as int));
    if start == n {
        return None;
    }
    let mut total: u32 = 0;
    let mut k: usize = start;
    while k < n
        invariant
            n == s@.len(),
            start <= k <= n,
            start < n,
            d == unsigned_digits(s@),
            d == s@.subrange(start as int, n as int),
            forall|j: int| 0 <= j < k - start ==> '0' <= #[trigger] d[j] <= '9',
            total == decimal_value(d.subrange(0, k - start)),
            total <= 255,
        decreases n - k,
    {
        let c = s.get_char(k);
        assert(c == d[k - start]);
        if !('0' <= c && c <= '9') {
            return None;
        }
        assert(d.subrange(0, k - start + 1).drop_last() =~= d.subrange(0, k - start));
        total = total * 10 + (c as u32 - 48);
        if total > 255 {
            proof {
                if all_decimal(d) {
                    lemma_decimal_value_grows(d, k - start + 1);
                }
            }
            return None;
        }
        k = k + 1;
    }
    assert(d.subrange(0, n - start) =~= d);
    Some(total as u8)
}

/// The fields of a long human date, before translation.
pub struct HumanDate {
    /// The day of the month without a leading zero.
    pub day: String,
    /// The month, from 1 to 12; its name is translated.
    pub month: u8,
    pub year: String,
    pub clock: String,
    pub offset: String,
}

/// A date as shown to people: its fields, or the formatted text as it came
/// when that text does not have the expected fields.
pub enum DateText {
    Fields(HumanDate),
    Verbatim(String),
}

/// The fields of `value`, `day|month|year|clock|offset`, when it has exactly
/// five of them, the day is a `u8` and the month a number from 1 to 12.
pub open spec fn date_fields(value: Seq<char>) -> Option<(u8, u8, Seq<char>, Seq<char>, Seq<char>)> {
    let parts = split_on(value, '|');
    if parts.len() != 5 {
        None
    } else {
        match (parse_u8_spec(parts[0]), parse_u8_spec(parts[1])) {
            (Some(day), Some(month)) => if 1 <= month <= 12 {
                Some((day, month, parts[2], parts[3], parts[4]))
            } else {
                None
            },
            _ => None,
        }
    }
}

pub open spec fn date_text_spec(value: Seq<char>, text: DateText) -> bool {
    match date_fields(value) {
        Some((day, month, year, clock, offset)) => text matches DateText::Fields(f) && f.day@ == decimal_text(
            day as nat,
        ) && f.month == month && f.year@ == year && f.clock@ == clock && f.offset@ == offset,
        None => text matches DateText::Verbatim(v) && v@ == value,
    }
}

/// The pieces of `value` between the occurrences of `sep`.
pub(crate) fn split_text(value: &str, sep: char) -> (parts: Vec<String>)
    ensures
        parts@.map_values(|p: String| p@) == split_on(value@, sep),
{
    let n = value.unicode_len();
    let mut parts: Vec<String> = Vec::new();
    let mut current = String::new();
    let mut i: usize = 0;
    while i < n
        invariant
            n == value@.len(),
            i <= n,
            parts@.map_values(|p: String| p@).push(current@) == split_on(value@.subrange(0, i as int), sep),
        decreases n - i,
    {
        let c = value.get_char(i);
        let ghost before = parts@.map_values(|p: String| p@).push(current@);
        proof {
            assert(value@.subrange(0, i + 1).drop_last() =~= value@.subrange(0, i as int));
            assert(value@.subrange(0, i + 1).last() == c);
        }
        if c == sep {
            let mut done = String::new();
            std::mem::swap(&mut done, &mut current);
            parts.push(done);
            assert(parts@.map_values(|p: String| p@).push(current@) =~= before.push(Seq::empty()));
        } else {
            current.push(c);
            assert(parts@.map_values(|p: String| p@).push(current@) =~= before.update(
                before.len() - 1,
                before.last().push(c),
            ));
        }
        i = i + 1;
    }
    assert(value@.subrange(0, n as int) =~= value@);
    parts.push(current);
    parts
}

/// Splits a formatted date into the fields of a long human date, or keeps it
/// verbatim when its fields are not as expected.
pub fn human_date_fields(value: String) -> (r: DateText)
    ensures
        date_text_spec(value@, r),
{
    let parts = split_text(value.as_str(), '|');
    let ghost views = parts@.map_values(|p: String| p@);
    if parts.len() != 5 {
        return DateText::Verbatim(value);
    }
    assert(views[0] == parts@[0]@ && views[1] == parts@[1]@);
    let day = match parse_u8(parts[0].as_str()) {
        Some(d) => d,
        None => return DateText::Verbatim(value),
    };
    let month = match parse_u8(parts[1].as_str()) {
        Some(m) => m,
        None => return DateText::Verbatim(value),
    };
    if !(1 <= month && month <= 12) {
        return DateText::Verbatim(value);
    }
    let mut day_text = String::new();
    push_decimal(&mut day_text, day as u64);
    assert(views[2] == parts@[2]@ && views[3] == parts@[3]@ && views[4] == parts@[4]@);
    DateText::Fields(
        HumanDate {
            day: day_text,
            month,
            year: parts[2].clone(),
            clock: parts[3].clone(),
            offset: parts[4].clone(),
        },
    )
}

/// A commit time as a long human date: gix formats it in
/// [`HUMAN_DATE_FORMAT`], and [`human_date_fields`] takes the fields apart.
pub fn human_date(seconds: i64, offset: i32) -> (r: DateText)
    ensures
        date_text_spec(formatted_time(seconds, offset, HUMAN_DATE_FORMAT@), r),
{
    human_date_fields(format_time(seconds, offset, HUMAN_DATE_FORMAT))
}

/// The translation key of the name of a month.
pub fn month_key(month: u8) -> (key: String)
    ensures
        key@ == "history-month-"@ + decimal_text(month as nat),
{
    let mut key = String::new();
    push_str(&mut key, "history-month-");
    push_decimal(&mut key, month as u64);
    key
}

/// A commit as the history shows it.
pub struct HistoryEntry {
    /// The full hexadecimal object identifier.
    pub id: String,
    pub author_name: Vec<u8>,
    pub author_email: Vec<u8>,
    pub subject: Vec<u8>,
    /// The authoring date as shown, already translated.
    pub date: String,
    pub task: Option<String>,
}

/// The translated texts of the history.
pub struct HistoryLabels {
    pub author: String,
    pub date: String,
    pub task: String,
    /// Shown when there is no commit.
    pub empty: String,
}

pub open spec fn history_labels_fit(l: HistoryLabels) -> bool {
    l.author@.len() + 2 <= usize::MAX && l.date@.len() + 2 <= usize::MAX && l.task@.len() + 2 <= usize::MAX
}

/// One commit: the short identifier (bold cyan on a terminal) and the
/// subject, then the author, date and task aligned under it.
pub open spec fn entry_text(e: HistoryEntry, l: HistoryLabels, styled: bool, hyperlinks: bool) -> Seq<char> {
    let short = short_id_text(e.id@);
    let id = if styled {
        "\x1b[1;36m"@ + short + "\x1b[0m"@
    } else {
        short
    };
    let author = lossy_text(e.author_name@) + " <"@ + email_link(e.author_email@, hyperlinks) + ">"@;
    let fields = seq![(l.author@, author), (l.date@, e.date@), (l.task@, or_dash(e.task))];
    joined(seq![id + "  "@ + lossy_text(e.subject@)] + field_lines(fields, "  "@, false), "\n"@)
}

/// Renders one commit of the history.
pub fn render_entry(entry: &HistoryEntry, labels: &HistoryLabels, styled: bool, hyperlinks: bool) -> (text: String)
    requires
        history_labels_fit(*labels),
    ensures
        text@ == entry_text(*entry, *labels, styled, hyperlinks),
{
    let short = short_id(entry.id.as_str());
    let mut head = String::new();
    if styled {
        push_str(&mut head, "\x1b[1;36m");
        push_str(&mut head, short);
        push_str(&mut head, "\x1b[0m");
    } else {
        push_str(&mut head, short);
    }
    push_str(&mut head, "  ");
    let subject = lossy_utf8(entry.subject.as_slice());
    push_str(&mut head, subject.as_str());
    let name = lossy_utf8(entry.author_name.as_slice());
    let email = render_email(entry.author_email.as_slice(), hyperlinks);
    let mut author = String::new();
    push_str(&mut author, name.as_str());
    push_str(&mut author, " <");
    push_str(&mut author, email.as_str());
    push_str(&mut author, ">");
    let mut fields: Vec<(String, String)> = Vec::new();
    fields.push((labels.author.clone(), author));
    fields.push((labels.date.clone(), entry.date.clone()));
    fields.push((labels.task.clone(), value_or_dash(&entry.task).to_owned()));
    let ghost fields_spec = seq![
        (labels.author@, lossy_text(entry.author_name@) + " <"@ + email_link(entry.author_email@, hyperlinks) + ">"@),
        (labels.date@, entry.date@),
        (labels.task@, or_dash(entry.task)),
    ];
    assert(fields_view(fields@) =~= fields_spec);
    let mut lines: Vec<String> = Vec::new();
    let ghost head_text = head@;
    push_line(&mut lines, head);
    push_fields(&mut lines, fields, "  ", false);
    assert(views(lines@) =~= seq![head_text] + field_lines(fields_spec, "  "@, false));
    join_lines(&lines, "\n")
}

/// The history: every commit, newest first, separated by blank lines, or
/// the empty-history text.
pub open spec fn history_text(entries: Seq<HistoryEntry>, l: HistoryLabels, styled: bool, hyperlinks: bool) -> Seq<char> {
    if entries.len() == 0 {
        l.empty@
    } else {
        joined(entries.map_values(|e: HistoryEntry| entry_text(e, l, styled, hyperlinks)), "\n\n"@)
    }
}

/// Renders the history of commits.
pub fn render_history(entries: &Vec<HistoryEntry>, labels: &HistoryLabels, styled: bool, hyperlinks: bool) -> (text: String)
    requires
        history_labels_fit(*labels),
    ensures
        text@ == history_text(entries@, *labels, styled, hyperlinks),
{
    if entries.len() == 0 {
        return labels.empty.clone();
    }
    let mut blocks: Vec<String> = Vec::new();
    let mut i: usize = 0;
    while i < entries.len()
        invariant
            i <= entries@.len(),
            history_labels_fit(*labels),
            views(blocks@) == entries@.subrange(0, i as int).map_values(
                |e: HistoryEntry| entry_text(e, *labels, styled, hyperlinks),
            ),
        decreases entries.len() - i,
    {
        let block = render_entry(&entries[i], labels, styled, hyperlinks);
        let ghost before = views(blocks@);
        push_line(&mut blocks, block);
        assert(entries@.subrange(0, i + 1) =~= entries@.subrange(0, i as int).push(entries@[i as int]));
        assert(views(blocks@) =~= entries@.subrange(0, i + 1).map_values(
            |e: HistoryEntry| entry_text(e, *labels, styled, hyperlinks),
        ));
        i = i + 1;
    }
    assert(entries@.subrange(0, entries@.len() as int) =~= entries@);
    join_lines(&blocks, "\n\n")
}


/// The history runs newest first, in the order of the entries: without a
/// commit it is the empty-history text, a single commit's history is that commit's block, and an older commit given after
/// the others adds its block at the end, after a blank line.
pub proof fn lemma_history_newest_first(
    entries: Seq<HistoryEntry>,
    older: HistoryEntry,
    l: HistoryLabels,
    styled: bool,
    hyperlinks: bool,
)
    ensures
        history_text(Seq::empty(), l, styled, hyperlinks) == l.empty@,
        history_text(seq![older], l, styled, hyperlinks) == entry_text(older, l, styled, hyperlinks),
        entries.len() > 0 ==> history_text(entries.push(older), l, styled, hyperlinks) == history_text(
            entries,
            l,
            styled,
            hyperlinks,
        ) + "\n\n"@ + entry_text(older, l, styled, hyperlinks),
{
    let f = |e: HistoryEntry| entry_text(e, l, styled, hyperlinks);
    let single = seq![older].map_values(f);
    assert(single.len() == 1);
    assert(single[0] == entry_text(older, l, styled, hyperlinks));
    if entries.len() > 0 {
        let blocks = entries.push(older).map_values(f);
        assert(blocks.len() >= 2);
        assert(blocks.drop_last() =~= entries.map_values(f));
        assert(blocks.last() == entry_text(older, l, styled, hyperlinks));
    }
}

} // verus!
