//! The human status report: aligned label/value fields, section headings and
//! readiness marks, and the translation keys of the states it reports.

use vstd::prelude::*;
use vstd::string::*;
use crate::rpc::str_eq;
use crate::report::{join_lines, joined};
use crate::text::{decimal_text, push_decimal, push_str, views};

verus! {

/// `n` spaces.
pub open spec fn spaces(n: nat) -> Seq<char> {
    Seq::new(n, |i: int| ' ')
}

/// The column width of labels: the longest label, its colon and one space.
pub open spec fn label_width(fields: Seq<(Seq<char>, Seq<char>)>) -> nat
    decreases fields.len(),
{
    if fields.len() == 0 {
        0
    } else {
        let rest = label_width(fields.drop_last());
        let own = fields.last().0.len() + 2;
        if own > rest {
            own
        } else {
            rest
        }
    }
}

/// One aligned field line; only the padded label is bold.
pub open spec fn field_line(label: Seq<char>, value: Seq<char>, indent: Seq<char>, width: nat, styled: bool) -> Seq<char> {
    let padded = label + seq![':'] + spaces((width - label.len() - 1) as nat);
    if styled {
        indent + "\x1b[1m"@ + padded + "\x1b[0m"@ + value
    } else {
        indent + padded + value
    }
}

pub open spec fn fields_view(fields: Seq<(String, String)>) -> Seq<(Seq<char>, Seq<char>)> {
    fields.map_values(|f: (String, String)| (f.0@, f.1@))
}

proof fn lemma_label_width(fields: Seq<(Seq<char>, Seq<char>)>)
    ensures
        forall|i: int| 0 <= i < fields.len() ==> #[trigger] fields[i].0.len() + 2 <= label_width(fields),
    decreases fields.len(),
{
    if fields.len() > 0 {
        lemma_label_width(fields.drop_last());
        assert forall|i: int| 0 <= i < fields.len() implies #[trigger] fields[i].0.len() + 2 <= label_width(fields) by {
            if i < fields.len() - 1 {
                assert(fields.drop_last()[i] == fields[i]);
            }
        }
    }
}

/// Aligns values after their labels; with styling, only the labels are bold.
pub fn render_fields(fields: &[(String, String)], indent: &str, styled: bool) -> (lines: Vec<String>)
    requires
        forall|i: int| 0 <= i < fields@.len() ==> #[trigger] fields@[i].0@.len() + 2 <= usize::MAX,
    ensures
        lines@.len() == fields@.len(),
        forall|i: int| 0 <= i < fields@.len() ==> #[trigger] lines@[i]@ == field_line(
            fields@[i].0@,
            fields@[i].1@,
            indent@,
            label_width(fields_view(fields@)),
            styled,
        ),
{
    let ghost view = fields_view(fields@);
    let mut width: usize = 0;
    let mut i: usize = 0;
    while i < fields.len()
        invariant
            i <= fields@.len(),
            view == fields_view(fields@),
            forall|k: int| 0 <= k < fields@.len() ==> #[trigger] fields@[k].0@.len() + 2 <= usize::MAX,
            width == label_width(view.subrange(0, i as int)),
        decreases fields.len() - i,
    {
        let own = fields[i].0.as_str().unicode_len() + 2;
        proof {
            assert(view.subrange(0, i + 1).drop_last() =~= view.subrange(0, i as int));
            assert(view[i as int].0 == fields@[i as int].0@);
        }
        if own > width {
            width = own;
        }
        i = i + 1;
    }
    assert(view.subrange(0, fields@.len() as int) =~= view);
    proof {
        lemma_label_width(view);
    }
    let mut lines: Vec<String> = Vec::new();
    let mut j: usize = 0;
    while j < fields.len()
        invariant
            j <= fields@.len(),
            view == fields_view(fields@),
            width == label_width(view),
            forall|k: int| 0 <= k < view.len() ==> #[trigger] view[k].0.len() + 2 <= label_width(view),
            lines@.len() == j,
            forall|k: int| 0 <= k < j ==> #[trigger] lines@[k]@ == field_line(
                fields@[k].0@,
                fields@[k].1@,
                indent@,
                width as nat,
                styled,
            ),
        decreases fields.len() - j,
    {
        let label = fields[j].0.as_str();
        let value = fields[j].1.as_str();
        assert(view[j as int].0 == label@);
        let pad = width - label.unicode_len() - 1;
        let mut line = String::new();
        push_str(&mut line, indent);
        if styled {
            push_str(&mut line, "\x1b[1m");
        }
        push_str(&mut line, label);
        line.push(':');
        let mut k: usize = 0;
        let ghost before = line@;
        while k < pad
            invariant
                k <= pad,
                line@ == before + spaces(k as nat),
            decreases pad - k,
        {
            line.push(' ');
            assert(spaces((k + 1) as nat) =~= spaces(k as nat).push(' '));
            k = k + 1;
        }
        if styled {
            push_str(&mut line, "\x1b[0m");
        }
        push_str(&mut line, value);
        proof {
            assert(line@ =~= field_line(label@, value@, indent@, width as nat, styled));
        }
        lines.push(line);
        j = j + 1;
    }
    lines
}

pub open spec fn subsection_line(title: Seq<char>, styled: bool) -> Seq<char> {
    if styled {
        "  \x1b[1m"@ + title + "\x1b[0m"@
    } else {
        "  "@ + title
    }
}

pub open spec fn section_line(title: Seq<char>, styled: bool) -> Seq<char> {
    if styled {
        "\x1b[1;36m"@ + title + "\x1b[0m"@
    } else {
        title
    }
}

pub open spec fn readiness_line(label: Seq<char>, ready: bool, styled: bool) -> Seq<char> {
    "  "@ + (if styled {
        "\x1b[1;"@ + (if ready { "32"@ } else { "31"@ }) + "m"@ + (if ready { "✓"@ } else { "✗"@ }) + "\x1b[0m"@
    } else {
        if ready { "✓"@ } else { "✗"@ }
    }) + " "@ + label
}

/// A subsection title, indented and bold on a terminal.
pub fn style_subsection(title: &str, styled: bool) -> (r: String)
    ensures
        r@ == subsection_line(title@, styled),
{
    let mut r = String::new();
    if styled {
        push_str(&mut r, "  \x1b[1m");
        push_str(&mut r, title);
        push_str(&mut r, "\x1b[0m");
    } else {
        push_str(&mut r, "  ");
        push_str(&mut r, title);
    }
    r
}

/// A section title, bold cyan on a terminal.
pub fn section(title: &str, styled: bool) -> (r: String)
    ensures
        r@ == section_line(title@, styled),
{
    if styled {
        let mut r = String::new();
        push_str(&mut r, "\x1b[1;36m");
        push_str(&mut r, title);
        push_str(&mut r, "\x1b[0m");
        r
    } else {
        title.to_owned()
    }
}

/// Whether saving or publishing is possible: a check mark or a cross, then the label.
pub fn readiness(label: &str, ready: bool, styled: bool) -> (r: String)
    ensures
        r@ == readiness_line(label@, ready, styled),
{
    let mut r = String::new();
    push_str(&mut r, "  ");
    if styled {
        push_str(&mut r, "\x1b[1;");
        push_str(&mut r, if ready { "32" } else { "31" });
        push_str(&mut r, "m");
        push_str(&mut r, if ready { "✓" } else { "✗" });
        push_str(&mut r, "\x1b[0m");
    } else {
        push_str(&mut r, if ready { "✓" } else { "✗" });
    }
    push_str(&mut r, " ");
    push_str(&mut r, label);
    r
}

/// The number of changed files in each state.
#[derive(Clone, Copy, Debug, PartialEq, Eq, Structural)]
pub struct ChangeSummary {
    pub files: usize,
    pub added: usize,
    pub modified: usize,
    pub deleted: usize,
    pub type_changed: usize,
    pub untracked: usize,
    pub intent_to_add: usize,
    pub conflicts: usize,
}

/// Translated labels of the change counts.
pub struct ChangeLabels {
    pub files: String,
    pub added: String,
    pub modified: String,
    pub deleted: String,
    pub type_changed: String,
    pub untracked: String,
    pub intent_to_add: String,
    pub conflicts: String,
}

/// A count field, present only when the count is not zero.
pub open spec fn counted(label: Seq<char>, n: usize) -> Seq<(Seq<char>, Seq<char>)> {
    if n > 0 {
        seq![(label, decimal_text(n as nat))]
    } else {
        Seq::empty()
    }
}

/// The reported change fields: the file count, then every state that occurs.
pub open spec fn change_fields(changes: ChangeSummary, labels: ChangeLabels) -> Seq<(Seq<char>, Seq<char>)> {
    seq![(labels.files@, decimal_text(changes.files as nat))] + counted(labels.added@, changes.added)
        + counted(labels.modified@, changes.modified) + counted(labels.deleted@, changes.deleted)
        + counted(labels.type_changed@, changes.type_changed) + counted(labels.untracked@, changes.untracked)
        + counted(labels.intent_to_add@, changes.intent_to_add) + counted(labels.conflicts@, changes.conflicts)
}

fn count_field(label: &String, n: usize) -> (field: (String, String))
    ensures
        field.0@ == label@,
        field.1@ == decimal_text(n as nat),
{
    let mut value = String::new();
    push_decimal(&mut value, n as u64);
    (label.clone(), value)
}

fn push_count(fields: &mut Vec<(String, String)>, label: &String, n: usize)
    ensures
        fields_view(final(fields)@) == fields_view(old(fields)@) + counted(label@, n),
{
    if n > 0 {
        let field = count_field(label, n);
        fields.push(field);
        assert(fields_view(fields@) =~= fields_view(old(fields)@) + counted(label@, n));
    } else {
        assert(fields_view(fields@) =~= fields_view(old(fields)@) + counted(label@, n));
    }
}

/// Appends the change counts as aligned fields; states that do not occur are left out.
pub fn append_changes(lines: &mut Vec<String>, changes: ChangeSummary, labels: &ChangeLabels, styled: bool)
    requires
        labels.files@.len() + 2 <= usize::MAX,
        labels.added@.len() + 2 <= usize::MAX,
        labels.modified@.len() + 2 <= usize::MAX,
        labels.deleted@.len() + 2 <= usize::MAX,
        labels.type_changed@.len() + 2 <= usize::MAX,
        labels.untracked@.len() + 2 <= usize::MAX,
        labels.intent_to_add@.len() + 2 <= usize::MAX,
        labels.conflicts@.len() + 2 <= usize::MAX,
    ensures
        ({
            let fields = change_fields(changes, *labels);
            &&& final(lines)@.len() == old(lines)@.len() + fields.len()
            &&& forall|i: int| 0 <= i < old(lines)@.len() ==> #[trigger] final(lines)@[i] == old(lines)@[i]
            &&& forall|i: int| 0 <= i < fields.len() ==> #[trigger] final(lines)@[old(lines)@.len() + i]@
                == field_line(fields[i].0, fields[i].1, "  "@, label_width(fields), styled)
        }),
{
    let mut fields: Vec<(String, String)> = Vec::new();
    fields.push(count_field(&labels.files, changes.files));
    assert(fields_view(fields@) =~= seq![(labels.files@, decimal_text(changes.files as nat))]);
    push_count(&mut fields, &labels.added, changes.added);
    push_count(&mut fields, &labels.modified, changes.modified);
    push_count(&mut fields, &labels.deleted, changes.deleted);
    push_count(&mut fields, &labels.type_changed, changes.type_changed);
    push_count(&mut fields, &labels.untracked, changes.untracked);
    push_count(&mut fields, &labels.intent_to_add, changes.intent_to_add);
    push_count(&mut fields, &labels.conflicts, changes.conflicts);
    assert(fields_view(fields@) == change_fields(changes, *labels));
    assert forall|i: int| 0 <= i < fields@.len() implies #[trigger] fields@[i].0@.len() + 2 <= usize::MAX by {
        assert(fields_view(fields@)[i].0 == fields@[i].0@);
    }
    let rendered = render_fields(fields.as_slice(), "  ", styled);
    let ghost start = lines@;
    let mut i: usize = 0;
    while i < rendered.len()
        invariant
            i <= rendered@.len(),
            lines@.len() == start.len() + i,
            forall|k: int| 0 <= k < start.len() ==> #[trigger] lines@[k] == start[k],
            forall|k: int| 0 <= k < i ==> #[trigger] lines@[start.len() + k] == rendered@[k],
        decreases rendered.len() - i,
    {
        lines.push(rendered[i].clone());
        i = i + 1;
    }
}

/// How the repository head is attached.
#[derive(Clone, Copy, Debug, PartialEq, Eq, Structural)]
pub enum HeadState {
    Attached,
    Detached,
    Unborn,
}

/// The stable name of a head state in JSON documents.
pub fn head_name(head: HeadState) -> (name: &'static str)
    ensures
        name@ == match head {
            HeadState::Attached => "attached"@,
            HeadState::Detached => "detached"@,
            HeadState::Unborn => "unborn"@,
        },
{
    match head {
        HeadState::Attached => "attached",
        HeadState::Detached => "detached",
        HeadState::Unborn => "unborn",
    }
}

/// The project types that have a translated name.
pub open spec fn known_project_type(project_type: Seq<char>) -> bool {
    project_type == "configuration"@ || project_type == "extension"@ || project_type == "processing"@
        || project_type == "report"@
}

/// The translation key of a project type.
pub fn project_type_key(project_type: &str) -> (key: &'static str)
    requires
        known_project_type(project_type@),
    ensures
        project_type@ == "configuration"@ ==> key@ == "new-type-configuration"@,
        project_type@ == "extension"@ ==> key@ == "new-type-extension"@,
        project_type@ == "processing"@ ==> key@ == "new-type-processing"@,
        project_type@ == "report"@ ==> key@ == "new-type-report"@,
{
    proof {
        reveal_strlit("configuration");
        reveal_strlit("extension");
        reveal_strlit("processing");
        reveal_strlit("report");
        assert("configuration"@.len() == 13 && "extension"@.len() == 9);
        assert("processing"@.len() == 10 && "report"@.len() == 6);
    }
    if str_eq(project_type, "configuration") {
        "new-type-configuration"
    } else if str_eq(project_type, "extension") {
        "new-type-extension"
    } else if str_eq(project_type, "processing") {
        "new-type-processing"
    } else {
        "new-type-report"
    }
}

/// The workflow presets that have a translated name.
pub open spec fn known_workflow(workflow: Seq<char>) -> bool {
    workflow == "trunk"@ || workflow == "git-flow"@ || workflow == "github-flow"@ || workflow == "custom"@
}

/// The translation key of a workflow preset.
pub fn workflow_key(workflow: &str) -> (key: &'static str)
    requires
        known_workflow(workflow@),
    ensures
        workflow@ == "trunk"@ ==> key@ == "new-workflow-trunk"@,
        workflow@ == "git-flow"@ ==> key@ == "new-workflow-git-flow"@,
        workflow@ == "github-flow"@ ==> key@ == "new-workflow-github-flow"@,
        workflow@ == "custom"@ ==> key@ == "new-workflow-custom"@,
{
    proof {
        reveal_strlit("trunk");
        reveal_strlit("git-flow");
        reveal_strlit("github-flow");
        reveal_strlit("custom");
        assert("trunk"@.len() == 5 && "git-flow"@.len() == 8);
        assert("github-flow"@.len() == 11 && "custom"@.len() == 6);
    }
    if str_eq(workflow, "trunk") {
        "new-workflow-trunk"
    } else if str_eq(workflow, "git-flow") {
        "new-workflow-git-flow"
    } else if str_eq(workflow, "github-flow") {
        "new-workflow-github-flow"
    } else {
        "new-workflow-custom"
    }
}

/// The lines of aligned fields.
pub open spec fn field_lines(fields: Seq<(Seq<char>, Seq<char>)>, indent: Seq<char>, styled: bool) -> Seq<Seq<char>> {
    fields.map_values(|f: (Seq<char>, Seq<char>)| field_line(f.0, f.1, indent, label_width(fields), styled))
}

/// Every label, its colon and a space can be counted in a `usize`.
pub open spec fn labels_fit(fields: Seq<(Seq<char>, Seq<char>)>) -> bool {
    forall|i: int| 0 <= i < fields.len() ==> #[trigger] fields[i].0.len() + 2 <= usize::MAX
}

pub(crate) fn push_fields(lines: &mut Vec<String>, fields: Vec<(String, String)>, indent: &str, styled: bool)
    requires
        labels_fit(fields_view(fields@)),
    ensures
        views(final(lines)@) == views(old(lines)@) + field_lines(fields_view(fields@), indent@, styled),
{
    let ghost view = fields_view(fields@);
    assert forall|i: int| 0 <= i < fields@.len() implies #[trigger] fields@[i].0@.len() + 2 <= usize::MAX by {
        assert(view[i].0 == fields@[i].0@);
    }
    let mut rendered = render_fields(fields.as_slice(), indent, styled);
    let ghost start = views(lines@);
    let ghost added = views(rendered@);
    assert(added =~= field_lines(view, indent@, styled)) by {
        assert forall|i: int| 0 <= i < added.len() implies added[i] == field_lines(view, indent@, styled)[i] by {
            assert(view[i] == (fields@[i].0@, fields@[i].1@));
        }
    }
    lines.append(&mut rendered);
    assert(views(lines@) =~= start + added);
}

pub(crate) fn push_line(lines: &mut Vec<String>, line: String)
    ensures
        views(final(lines)@) == views(old(lines)@).push(line@),
{
    lines.push(line);
    assert(views(lines@) =~= views(old(lines)@).push(lines@.last()@));
}

fn text_field(label: &String, value: &str) -> (field: (String, String))
    ensures
        field.0@ == label@,
        field.1@ == value@,
{
    (label.clone(), value.to_owned())
}

fn number_field(label: &String, n: usize) -> (field: (String, String))
    ensures
        field.0@ == label@,
        field.1@ == decimal_text(n as nat),
{
    let mut value = String::new();
    push_decimal(&mut value, n as u64);
    (label.clone(), value)
}

/// A value that may be absent: an em dash stands in for it.
pub open spec fn or_dash(value: Option<String>) -> Seq<char> {
    match value {
        Some(v) => v@,
        None => "—"@,
    }
}

pub(crate) fn value_or_dash(value: &Option<String>) -> (text: &str)
    ensures
        text@ == or_dash(*value),
{
    match value {
        Some(v) => v.as_str(),
        None => "—",
    }
}

/// Commits ahead of and behind the upstream branch.
#[derive(Clone, Copy, Debug, PartialEq, Eq, Structural)]
pub struct Synchronization {
    pub ahead: usize,
    pub behind: usize,
}

/// Whether the lock service answered, and how many objects are locked.
#[derive(Clone, Copy, Debug, PartialEq, Eq, Structural)]
pub struct LockSummary {
    pub available: bool,
    pub count: Option<usize>,
}

/// Whether saving and publishing are possible now.
#[derive(Clone, Copy, Debug, PartialEq, Eq, Structural)]
pub struct Readiness {
    pub save: bool,
    pub publish: bool,
}

/// The translated labels of the status report.
pub struct StatusLabels {
    pub project: String,
    pub project_type: String,
    pub workspace: String,
    pub workflow: String,
    pub task: String,
    pub branch: String,
    pub base: String,
    pub changes: String,
    pub workspace_files: String,
    pub synchronization: String,
    pub ahead: String,
    pub behind: String,
    pub locks: String,
    pub objects: String,
    pub availability: String,
    pub unavailable: String,
    pub readiness: String,
    pub ready_save: String,
    pub ready_publish: String,
    pub counts: ChangeLabels,
}

/// No label is too long to be counted with its colon and a space.
pub open spec fn status_labels_fit(l: StatusLabels) -> bool {
    &&& l.project@.len() + 2 <= usize::MAX
    &&& l.project_type@.len() + 2 <= usize::MAX
    &&& l.workspace@.len() + 2 <= usize::MAX
    &&& l.workflow@.len() + 2 <= usize::MAX
    &&& l.task@.len() + 2 <= usize::MAX
    &&& l.branch@.len() + 2 <= usize::MAX
    &&& l.base@.len() + 2 <= usize::MAX
    &&& l.ahead@.len() + 2 <= usize::MAX
    &&& l.behind@.len() + 2 <= usize::MAX
    &&& l.objects@.len() + 2 <= usize::MAX
    &&& l.availability@.len() + 2 <= usize::MAX
    &&& l.counts.files@.len() + 2 <= usize::MAX
    &&& l.counts.added@.len() + 2 <= usize::MAX
    &&& l.counts.modified@.len() + 2 <= usize::MAX
    &&& l.counts.deleted@.len() + 2 <= usize::MAX
    &&& l.counts.type_changed@.len() + 2 <= usize::MAX
    &&& l.counts.untracked@.len() + 2 <= usize::MAX
    &&& l.counts.intent_to_add@.len() + 2 <= usize::MAX
    &&& l.counts.conflicts@.len() + 2 <= usize::MAX
}

/// The status of one project, with its type and workflow already translated.
pub struct ProjectStatusReport {
    pub name: String,
    pub project_type: String,
    pub workflow: String,
    pub task: Option<String>,
    pub branch: Option<String>,
    pub base_branch: String,
    pub changes: ChangeSummary,
    pub synchronization: Option<Synchronization>,
    pub locks: LockSummary,
    pub readiness: Readiness,
}

/// One member of a workspace: its translated heading and its change counts.
pub struct MemberChanges {
    pub heading: String,
    pub changes: ChangeSummary,
}

/// The status of a workspace, with its workflow already translated.
pub struct WorkspaceStatusReport {
    pub name: String,
    pub workflow: String,
    pub task: Option<String>,
    pub branch: Option<String>,
    pub base_branch: String,
    pub members: Vec<MemberChanges>,
    pub workspace_changes: Option<ChangeSummary>,
    pub synchronization: Option<Synchronization>,
    pub readiness: Readiness,
}

pub open spec fn change_lines(changes: ChangeSummary, l: StatusLabels, styled: bool) -> Seq<Seq<char>> {
    field_lines(change_fields(changes, l.counts), "  "@, styled)
}

/// The report of a service that did not answer, in yellow on a terminal.
pub open spec fn unavailable_lines(l: StatusLabels, styled: bool) -> Seq<Seq<char>> {
    field_lines(
        seq![(l.availability@, if styled { "\x1b[1;33m"@ + l.unavailable@ + "\x1b[0m"@ } else { l.unavailable@ })],
        "  "@,
        styled,
    )
}

pub open spec fn synchronization_lines(sync: Option<Synchronization>, l: StatusLabels, styled: bool) -> Seq<Seq<char>> {
    match sync {
        Some(x) => field_lines(
            seq![(l.ahead@, decimal_text(x.ahead as nat)), (l.behind@, decimal_text(x.behind as nat))],
            "  "@,
            styled,
        ),
        None => unavailable_lines(l, styled),
    }
}

pub open spec fn readiness_lines(r: Readiness, l: StatusLabels, styled: bool) -> Seq<Seq<char>> {
    seq![
        Seq::empty(),
        section_line(l.readiness@, styled),
        readiness_line(l.ready_save@, r.save, styled),
        readiness_line(l.ready_publish@, r.publish, styled),
    ]
}

/// The status of a project: its identity fields, then the changes,
/// synchronization, locks and readiness sections.
pub open spec fn project_status_spec(s: ProjectStatusReport, l: StatusLabels, styled: bool) -> Seq<char> {
    let head = seq![
        (l.project@, s.name@),
        (l.project_type@, s.project_type@),
        (l.workflow@, s.workflow@),
        (l.task@, or_dash(s.task)),
        (l.branch@, or_dash(s.branch)),
        (l.base@, s.base_branch@),
    ];
    let locks = if s.locks.available {
        field_lines(
            seq![(l.objects@, decimal_text(match s.locks.count { Some(n) => n as nat, None => 0 }))],
            "  "@,
            styled,
        )
    } else {
        unavailable_lines(l, styled)
    };
    joined(
        field_lines(head, Seq::empty(), styled) + seq![Seq::empty(), section_line(l.changes@, styled)]
            + change_lines(s.changes, l, styled) + seq![Seq::empty(), section_line(l.synchronization@, styled)]
            + synchronization_lines(s.synchronization, l, styled) + seq![Seq::empty(), section_line(l.locks@, styled)]
            + locks + readiness_lines(s.readiness, l, styled),
        "\n"@,
    )
}

/// The change sections of the first members: each a blank line, the member's
/// heading and its change counts.
pub open spec fn member_lines(members: Seq<MemberChanges>, l: StatusLabels, styled: bool) -> Seq<Seq<char>>
    decreases members.len(),
{
    if members.len() == 0 {
        Seq::empty()
    } else {
        let m = members.last();
        member_lines(members.drop_last(), l, styled) + seq![Seq::empty(), subsection_line(m.heading@, styled)]
            + change_lines(m.changes, l, styled)
    }
}

/// The status of a workspace: its identity fields, the changes of each
/// member and of the files outside them, synchronization, locks (never
/// available for a workspace) and readiness.
pub open spec fn workspace_status_spec(s: WorkspaceStatusReport, l: StatusLabels, styled: bool) -> Seq<char> {
    let head = seq![
        (l.workspace@, s.name@),
        (l.workflow@, s.workflow@),
        (l.task@, or_dash(s.task)),
        (l.branch@, or_dash(s.branch)),
        (l.base@, s.base_branch@),
    ];
    let outside = match s.workspace_changes {
        Some(c) => seq![Seq::empty(), subsection_line(l.workspace_files@, styled)] + change_lines(c, l, styled),
        None => Seq::empty(),
    };
    joined(
        field_lines(head, Seq::empty(), styled) + seq![Seq::empty(), section_line(l.changes@, styled)]
            + member_lines(s.members@, l, styled) + outside + seq![Seq::empty(), section_line(l.synchronization@, styled)]
            + synchronization_lines(s.synchronization, l, styled) + seq![Seq::empty(), section_line(l.locks@, styled)]
            + unavailable_lines(l, styled) + readiness_lines(s.readiness, l, styled),
        "\n"@,
    )
}

fn push_changes(lines: &mut Vec<String>, changes: ChangeSummary, l: &StatusLabels, styled: bool)
    requires
        status_labels_fit(*l),
    ensures
        views(final(lines)@) == views(old(lines)@) + change_lines(changes, *l, styled),
{
    let labels = &l.counts;
    let mut fields: Vec<(String, String)> = Vec::new();
    fields.push(count_field(&labels.files, changes.files));
    assert(fields_view(fields@) =~= seq![(labels.files@, decimal_text(changes.files as nat))]);
    push_count(&mut fields, &labels.added, changes.added);
    push_count(&mut fields, &labels.modified, changes.modified);
    push_count(&mut fields, &labels.deleted, changes.deleted);
    push_count(&mut fields, &labels.type_changed, changes.type_changed);
    push_count(&mut fields, &labels.untracked, changes.untracked);
    push_count(&mut fields, &labels.intent_to_add, changes.intent_to_add);
    push_count(&mut fields, &labels.conflicts, changes.conflicts);
    assert(fields_view(fields@) == change_fields(changes, *labels));
    push_fields(lines, fields, "  ", styled);
}

fn push_unavailable(lines: &mut Vec<String>, l: &StatusLabels, styled: bool)
    requires
        status_labels_fit(*l),
    ensures
        views(final(lines)@) == views(old(lines)@) + unavailable_lines(*l, styled),
{
    let value = if styled {
        let mut v = String::new();
        push_str(&mut v, "\x1b[1;33m");
        push_str(&mut v, l.unavailable.as_str());
        push_str(&mut v, "\x1b[0m");
        v
    } else {
        l.unavailable.clone()
    };
    let mut fields: Vec<(String, String)> = Vec::new();
    fields.push((l.availability.clone(), value));
    assert(fields_view(fields@) =~= seq![(l.availability@, if styled { "\x1b[1;33m"@ + l.unavailable@ + "\x1b[0m"@ } else { l.unavailable@ })]);
    push_fields(lines, fields, "  ", styled);
}

fn push_synchronization(lines: &mut Vec<String>, sync: Option<Synchronization>, l: &StatusLabels, styled: bool)
    requires
        status_labels_fit(*l),
    ensures
        views(final(lines)@) == views(old(lines)@) + synchronization_lines(sync, *l, styled),
{
    match sync {
        Some(x) => {
            let mut fields: Vec<(String, String)> = Vec::new();
            fields.push(number_field(&l.ahead, x.ahead));
            fields.push(number_field(&l.behind, x.behind));
            assert(fields_view(fields@) =~= seq![(l.ahead@, decimal_text(x.ahead as nat)), (l.behind@, decimal_text(x.behind as nat))]);
            push_fields(lines, fields, "  ", styled);
        },
        None => push_unavailable(lines, l, styled),
    }
}

fn push_readiness(lines: &mut Vec<String>, r: Readiness, l: &StatusLabels, styled: bool)
    ensures
        views(final(lines)@) == views(old(lines)@) + readiness_lines(r, *l, styled),
{
    let ghost start = views(lines@);
    push_line(lines, String::new());
    push_line(lines, section(l.readiness.as_str(), styled));
    push_line(lines, readiness(l.ready_save.as_str(), r.save, styled));
    push_line(lines, readiness(l.ready_publish.as_str(), r.publish, styled));
    assert(views(lines@) =~= start + readiness_lines(r, *l, styled));
}

fn push_section(lines: &mut Vec<String>, title: &String, styled: bool)
    ensures
        views(final(lines)@) == views(old(lines)@) + seq![Seq::empty(), section_line(title@, styled)],
{
    let ghost start = views(lines@);
    push_line(lines, String::new());
    push_line(lines, section(title.as_str(), styled));
    assert(views(lines@) =~= start + seq![Seq::empty(), section_line(title@, styled)]);
}

fn push_subsection(lines: &mut Vec<String>, title: &String, styled: bool)
    ensures
        views(final(lines)@) == views(old(lines)@) + seq![Seq::empty(), subsection_line(title@, styled)],
{
    let ghost start = views(lines@);
    push_line(lines, String::new());
    push_line(lines, style_subsection(title.as_str(), styled));
    assert(views(lines@) =~= start + seq![Seq::empty(), subsection_line(title@, styled)]);
}

/// The human status report of one project.
pub fn render_project_status(s: &ProjectStatusReport, l: &StatusLabels, styled: bool) -> (text: String)
    requires
        status_labels_fit(*l),
    ensures
        text@ == project_status_spec(*s, *l, styled),
{
    let mut head: Vec<(String, String)> = Vec::new();
    head.push(text_field(&l.project, s.name.as_str()));
    head.push(text_field(&l.project_type, s.project_type.as_str()));
    head.push(text_field(&l.workflow, s.workflow.as_str()));
    head.push(text_field(&l.task, value_or_dash(&s.task)));
    head.push(text_field(&l.branch, value_or_dash(&s.branch)));
    head.push(text_field(&l.base, s.base_branch.as_str()));
    let ghost head_view = seq![
        (l.project@, s.name@),
        (l.project_type@, s.project_type@),
        (l.workflow@, s.workflow@),
        (l.task@, or_dash(s.task)),
        (l.branch@, or_dash(s.branch)),
        (l.base@, s.base_branch@),
    ];
    assert(fields_view(head@) =~= head_view);
    let mut lines: Vec<String> = Vec::new();
    push_fields(&mut lines, head, "", styled);
    proof {
        reveal_strlit("");
    }
    let ghost a = views(lines@);
    push_section(&mut lines, &l.changes, styled);
    push_changes(&mut lines, s.changes, l, styled);
    push_section(&mut lines, &l.synchronization, styled);
    push_synchronization(&mut lines, s.synchronization, l, styled);
    push_section(&mut lines, &l.locks, styled);
    let ghost before_locks = views(lines@);
    if s.locks.available {
        let count = match s.locks.count {
            Some(n) => n,
            None => 0,
        };
        let mut fields: Vec<(String, String)> = Vec::new();
        fields.push(number_field(&l.objects, count));
        assert(fields_view(fields@) =~= seq![(l.objects@, decimal_text(count as nat))]);
        push_fields(&mut lines, fields, "  ", styled);
    } else {
        push_unavailable(&mut lines, l, styled);
    }
    push_readiness(&mut lines, s.readiness, l, styled);
    proof {
        assert(""@ =~= Seq::<char>::empty());
    }
    join_lines(&lines, "\n")
}

/// The human status report of a workspace.
pub fn render_workspace_status(s: &WorkspaceStatusReport, l: &StatusLabels, styled: bool) -> (text: String)
    requires
        status_labels_fit(*l),
    ensures
        text@ == workspace_status_spec(*s, *l, styled),
{
    let mut head: Vec<(String, String)> = Vec::new();
    head.push(text_field(&l.workspace, s.name.as_str()));
    head.push(text_field(&l.workflow, s.workflow.as_str()));
    head.push(text_field(&l.task, value_or_dash(&s.task)));
    head.push(text_field(&l.branch, value_or_dash(&s.branch)));
    head.push(text_field(&l.base, s.base_branch.as_str()));
    let ghost head_view = seq![
        (l.workspace@, s.name@),
        (l.workflow@, s.workflow@),
        (l.task@, or_dash(s.task)),
        (l.branch@, or_dash(s.branch)),
        (l.base@, s.base_branch@),
    ];
    assert(fields_view(head@) =~= head_view);
    let mut lines: Vec<String> = Vec::new();
    push_fields(&mut lines, head, "", styled);
    proof {
        reveal_strlit("");
        assert(""@ =~= Seq::<char>::empty());
    }
    push_section(&mut lines, &l.changes, styled);
    let ghost before_members = views(lines@);
    let mut i: usize = 0;
    while i < s.members.len()
        invariant
            i <= s.members@.len(),
            status_labels_fit(*l),
            views(lines@) == before_members + member_lines(s.members@.subrange(0, i as int), *l, styled),
        decreases s.members.len() - i,
    {
        push_subsection(&mut lines, &s.members[i].heading, styled);
        push_changes(&mut lines, s.members[i].changes, l, styled);
        proof {
            assert(s.members@.subrange(0, i + 1).drop_last() =~= s.members@.subrange(0, i as int));
        }
        i = i + 1;
    }
    assert(s.members@.subrange(0, s.members@.len() as int) =~= s.members@);
    let ghost after_members = views(lines@);
    let ghost outside = match s.workspace_changes {
        Some(c) => seq![Seq::empty(), subsection_line(l.workspace_files@, styled)] + change_lines(c, *l, styled),
        None => Seq::<Seq<char>>::empty(),
    };
    match s.workspace_changes {
        Some(c) => {
            push_subsection(&mut lines, &l.workspace_files, styled);
            push_changes(&mut lines, c, l, styled);
            assert(views(lines@) =~= after_members + outside);
        },
        None => {
            assert(views(lines@) =~= after_members + outside);
        },
    }
    let ghost after_outside = views(lines@);
    push_section(&mut lines, &l.synchronization, styled);
    push_synchronization(&mut lines, s.synchronization, l, styled);
    push_section(&mut lines, &l.locks, styled);
    push_unavailable(&mut lines, l, styled);
    push_readiness(&mut lines, s.readiness, l, styled);
    assert(views(lines@) =~= after_outside + seq![Seq::empty(), section_line(l.synchronization@, styled)]
        + synchronization_lines(s.synchronization, *l, styled) + seq![Seq::empty(), section_line(l.locks@, styled)]
        + unavailable_lines(*l, styled) + readiness_lines(s.readiness, *l, styled));
    join_lines(&lines, "\n")
}

/// Values line up: without styling, every field line puts its value right
/// after the label column, whose width is the same for all fields.
pub proof fn lemma_fields_aligned(label: Seq<char>, value: Seq<char>, indent: Seq<char>, width: nat)
    requires
        label.len() + 2 <= width,
    ensures
        field_line(label, value, indent, width, false).len() == indent.len() + width + value.len(),
        field_line(label, value, indent, width, false).subrange(
            (indent.len() + width) as int,
            (indent.len() + width + value.len()) as int,
        ) == value,
        field_line(label, value, indent, width, false).subrange(
            indent.len() as int,
            (indent.len() + label.len()) as int,
        ) == label,
{
    let line = field_line(label, value, indent, width, false);
    assert(line.subrange((indent.len() + width) as int, (indent.len() + width + value.len()) as int) =~= value);
    assert(line.subrange(indent.len() as int, (indent.len() + label.len()) as int) =~= label);
}


/// One line for a state that occurs, none for one that does not.
pub open spec fn occurs(n: usize) -> int {
    if n > 0 {
        1
    } else {
        0
    }
}

/// Each count stands beside its own state's label: the file count comes
/// first, then each state that occurs, in the order added, modified,
/// deleted, type changed, untracked, intent to add and conflicts, with the
/// decimal count of that very state; states that do not occur add no field.
pub proof fn lemma_change_counts_beside_their_labels(c: ChangeSummary, l: ChangeLabels)
    ensures
        ({
            let f = change_fields(c, l);
            let a = occurs(c.added);
            let m = occurs(c.modified);
            let d = occurs(c.deleted);
            let t = occurs(c.type_changed);
            let u = occurs(c.untracked);
            let i = occurs(c.intent_to_add);
            let k = occurs(c.conflicts);
            &&& f.len() == 1 + a + m + d + t + u + i + k
            &&& f[0] == (l.files@, decimal_text(c.files as nat))
            &&& c.added > 0 ==> f[1] == (l.added@, decimal_text(c.added as nat))
            &&& c.modified > 0 ==> f[1 + a] == (l.modified@, decimal_text(c.modified as nat))
            &&& c.deleted > 0 ==> f[1 + a + m] == (l.deleted@, decimal_text(c.deleted as nat))
            &&& c.type_changed > 0 ==> f[1 + a + m + d] == (l.type_changed@, decimal_text(
                c.type_changed as nat,
            ))
            &&& c.untracked > 0 ==> f[1 + a + m + d + t] == (l.untracked@, decimal_text(c.untracked as nat))
            &&& c.intent_to_add > 0 ==> f[1 + a + m + d + t + u] == (l.intent_to_add@, decimal_text(
                c.intent_to_add as nat,
            ))
            &&& c.conflicts > 0 ==> f[1 + a + m + d + t + u + i] == (l.conflicts@, decimal_text(
                c.conflicts as nat,
            ))
        }),
{
    let p0 = seq![(l.files@, decimal_text(c.files as nat))];
    let p1 = p0 + counted(l.added@, c.added);
    let p2 = p1 + counted(l.modified@, c.modified);
    let p3 = p2 + counted(l.deleted@, c.deleted);
    let p4 = p3 + counted(l.type_changed@, c.type_changed);
    let p5 = p4 + counted(l.untracked@, c.untracked);
    let p6 = p5 + counted(l.intent_to_add@, c.intent_to_add);
    let p7 = p6 + counted(l.conflicts@, c.conflicts);
    assert(p7 == change_fields(c, l));
    assert(p1.len() == 1 + occurs(c.added));
    assert(p2.len() == p1.len() + occurs(c.modified));
    assert(p3.len() == p2.len() + occurs(c.deleted));
    assert(p4.len() == p3.len() + occurs(c.type_changed));
    assert(p5.len() == p4.len() + occurs(c.untracked));
    assert(p6.len() == p5.len() + occurs(c.intent_to_add));
    assert(p7.len() == p6.len() + occurs(c.conflicts));
    assert(p7[0] == p0[0]);
    if c.added > 0 {
        assert(p1[1] == (l.added@, decimal_text(c.added as nat)));
    }
    if c.modified > 0 {
        assert(p2[p1.len() as int] == (l.modified@, decimal_text(c.modified as nat)));
    }
    if c.deleted > 0 {
        assert(p3[p2.len() as int] == (l.deleted@, decimal_text(c.deleted as nat)));
    }
    if c.type_changed > 0 {
        assert(p4[p3.len() as int] == (l.type_changed@, decimal_text(c.type_changed as nat)));
    }
    if c.untracked > 0 {
        assert(p5[p4.len() as int] == (l.untracked@, decimal_text(c.untracked as nat)));
    }
    if c.intent_to_add > 0 {
        assert(p6[p5.len() as int] == (l.intent_to_add@, decimal_text(c.intent_to_add as nat)));
    }
    if c.conflicts > 0 {
        assert(p7[p6.len() as int] == (l.conflicts@, decimal_text(c.conflicts as nat)));
    }
}

} // verus!
