//! The human change report: targets grouped by metadata kind, then by state,
//! with other files last, and the sections of a workspace report.

use vstd::prelude::*;
use vstd::string::*;
use vstd::utf8::*;
use crate::changes::{display_path, display_path_spec};
use crate::diff::{
    append_state_groups, entries_view, group_lines, sorted_entries, style_header,
    style_header_spec, style_metadata_group, style_metadata_group_spec, Change, Entry, HumanState,
    StateLabels,
};
use crate::text::{bytes_less, push_str, slice_less};

verus! {

/// What a changed entry denotes: a logical metadata object, shown under its
/// translated kind, or a plain file.
pub enum DisplayTarget {
    Metadata { group: String, path: String },
    File(Vec<u8>),
}

/// One changed entry of a working tree comparison.
pub struct DisplayChange {
    pub target: DisplayTarget,
    pub index: Option<Change>,
    pub worktree: Option<Change>,
}

/// An entry as the report reads it: its group, if any, its text and its state.
pub type TargetView = (Option<Seq<char>>, Seq<char>, HumanState);

pub open spec fn target_view(target: DisplayTarget, state: HumanState) -> TargetView {
    match target {
        DisplayTarget::Metadata { group, path } => (Some(group@), path@, state),
        DisplayTarget::File(bytes) => (None, display_path_spec(bytes@), state),
    }
}

pub open spec fn targets_view(v: Seq<(DisplayTarget, HumanState)>) -> Seq<TargetView> {
    v.map_values(|e: (DisplayTarget, HumanState)| target_view(e.0, e.1))
}

/// Lines joined by a separator.
pub open spec fn joined(lines: Seq<Seq<char>>, sep: Seq<char>) -> Seq<char>
    decreases lines.len(),
{
    if lines.len() == 0 {
        Seq::empty()
    } else if lines.len() == 1 {
        lines[0]
    } else {
        joined(lines.drop_last(), sep) + sep + lines.last()
    }
}

/// `x` added to the sorted labels unless it is there already.
pub open spec fn insert_label(sorted: Seq<Seq<char>>, x: Seq<char>) -> Seq<Seq<char>> {
    if sorted.contains(x) {
        sorted
    } else {
        sorted.insert(label_position(sorted, x), x)
    }
}

/// Where `x` goes among sorted labels: before the first label it precedes.
pub open spec fn label_position(sorted: Seq<Seq<char>>, x: Seq<char>) -> int
    decreases sorted.len(),
{
    if sorted.len() == 0 || bytes_less(encode_utf8(x), encode_utf8(sorted[0])) {
        0
    } else {
        1 + label_position(sorted.drop_first(), x)
    }
}

/// The distinct metadata groups of the entries, in byte order.
pub open spec fn group_labels(v: Seq<TargetView>) -> Seq<Seq<char>>
    decreases v.len(),
{
    if v.len() == 0 {
        Seq::empty()
    } else {
        let rest = group_labels(v.drop_last());
        match v.last().0 {
            Some(g) => insert_label(rest, g),
            None => rest,
        }
    }
}

/// The entries of one group, in their order.
pub open spec fn members(v: Seq<TargetView>, group: Option<Seq<char>>) -> Seq<Entry>
    decreases v.len(),
{
    if v.len() == 0 {
        Seq::empty()
    } else {
        let rest = members(v.drop_last(), group);
        if v.last().0 == group {
            rest.push((v.last().1, v.last().2))
        } else {
            rest
        }
    }
}

/// The lines of the metadata groups named in `groups`, each under its heading.
pub open spec fn group_sections(v: Seq<TargetView>, groups: Seq<Seq<char>>, labels: StateLabels, styled: bool) -> Seq<Seq<char>>
    decreases groups.len(),
{
    if groups.len() == 0 {
        Seq::empty()
    } else {
        let g = groups.last();
        group_sections(v, groups.drop_last(), labels, styled) + seq![
            Seq::<char>::empty(),
            style_metadata_group_spec(g + seq![':'], styled),
        ] + group_lines(sorted_entries(members(v, Some(g))), labels, styled)
    }
}

/// All lines of a grouped report: the heading, the metadata groups in byte
/// order, then the other files.
pub open spec fn grouped_lines(header: Seq<char>, v: Seq<TargetView>, other: Seq<char>, labels: StateLabels, styled: bool) -> Seq<Seq<char>> {
    let files = members(v, None);
    seq![style_header_spec(header, styled)] + group_sections(v, group_labels(v), labels, styled) + if files.len() == 0 {
        Seq::<Seq<char>>::empty()
    } else {
        seq![Seq::<char>::empty(), style_metadata_group_spec(other + seq![':'], styled)] + group_lines(
            sorted_entries(files),
            labels,
            styled,
        )
    }
}

proof fn lemma_label_position(sorted: Seq<Seq<char>>, x: Seq<char>)
    ensures
        0 <= label_position(sorted, x) <= sorted.len(),
        label_position(sorted, x) < sorted.len() ==> bytes_less(encode_utf8(x), encode_utf8(sorted[label_position(sorted, x)])),
        forall|j: int| 0 <= j < label_position(sorted, x) ==> !bytes_less(encode_utf8(x), encode_utf8(#[trigger] sorted[j])),
    decreases sorted.len(),
{
    if sorted.len() > 0 && !bytes_less(encode_utf8(x), encode_utf8(sorted[0])) {
        lemma_label_position(sorted.drop_first(), x);
        assert forall|j: int| 0 <= j < label_position(sorted, x) implies !bytes_less(encode_utf8(x), encode_utf8(#[trigger] sorted[j])) by {
            if j > 0 {
                assert(sorted.drop_first()[j - 1] == sorted[j]);
            }
        }
    }
}

fn add_label(groups: &mut Vec<String>, x: &String)
    ensures
        final(groups)@.map_values(|g: String| g@) == insert_label(old(groups)@.map_values(|g: String| g@), x@),
{
    let ghost before = groups@.map_values(|g: String| g@);
    let mut i: usize = 0;
    while i < groups.len()
        invariant
            i <= groups@.len(),
            before == groups@.map_values(|g: String| g@),
            *groups == *old(groups),
            forall|j: int| 0 <= j < i ==> before[j] != x@,
        decreases groups.len() - i,
    {
        if groups[i] == *x {
            assert(before[i as int] == x@);
            return;
        }
        i = i + 1;
    }
    assert(!before.contains(x@));
    proof {
        lemma_label_position(before, x@);
    }
    let mut p: usize = 0;
    while p < groups.len() && !slice_less(x.as_str().as_bytes(), groups[p].as_str().as_bytes())
        invariant
            p <= groups@.len(),
            before == groups@.map_values(|g: String| g@),
            forall|j: int| 0 <= j < p ==> !bytes_less(encode_utf8(x@), encode_utf8(#[trigger] before[j])),
        decreases groups.len() - p,
    {
        assert(groups@[p as int]@ == before[p as int]);
        p = p + 1;
    }
    assert(p == label_position(before, x@)) by {
        let q = label_position(before, x@);
        if p < q {
            assert(groups@[p as int]@ == before[p as int]);
            assert(!bytes_less(encode_utf8(x@), encode_utf8(before[p as int])));
        } else if q < p {
            assert(bytes_less(encode_utf8(x@), encode_utf8(before[q])));
        }
    }
    groups.insert(p, x.clone());
    assert(groups@.map_values(|g: String| g@) =~= before.insert(p as int, x@));
}

/// The entries of `group`, with their text.
fn collect_members(changes: &Vec<(DisplayTarget, HumanState)>, group: Option<&String>) -> (r: Vec<(String, HumanState)>)
    ensures
        entries_view(r@) == members(
            targets_view(changes@),
            match group {
                Some(g) => Some(g@),
                None => None,
            },
        ),
{
    let ghost v = targets_view(changes@);
    let ghost wanted = match group {
        Some(g) => Some(g@),
        None => None::<Seq<char>>,
    };
    let mut r: Vec<(String, HumanState)> = Vec::new();
    let mut i: usize = 0;
    while i < changes.len()
        invariant
            i <= changes@.len(),
            v == targets_view(changes@),
            wanted == match group {
                Some(g) => Some(g@),
                None => None::<Seq<char>>,
            },
            entries_view(r@) == members(v.subrange(0, i as int), wanted),
        decreases changes.len() - i,
    {
        let ghost prefix = v.subrange(0, i + 1);
        assert(prefix.drop_last() =~= v.subrange(0, i as int));
        assert(prefix.last() == target_view(changes@[i as int].0, changes@[i as int].1));
        let state = changes[i].1;
        match &changes[i].0 {
            DisplayTarget::Metadata { group: g, path } => {
                let hit = match group {
                    Some(wanted_group) => *g == *wanted_group,
                    None => false,
                };
                if hit {
                    let ghost prev = entries_view(r@);
                    r.push((path.clone(), state));
                    assert(entries_view(r@) =~= prev.push((path@, state)));
                }
            },
            DisplayTarget::File(bytes) => {
                if group.is_none() {
                    let ghost prev = entries_view(r@);
                    r.push((display_path(bytes.as_slice()), state));
                    assert(entries_view(r@) =~= prev.push((display_path_spec(bytes@), state)));
                }
            },
        }
        i = i + 1;
    }
    assert(v.subrange(0, changes@.len() as int) =~= v);
    r
}

/// Joins lines with line feeds.
pub fn join_lines(lines: &Vec<String>, separator: &str) -> (text: String)
    ensures
        text@ == joined(lines@.map_values(|l: String| l@), separator@),
{
    let ghost all = lines@.map_values(|l: String| l@);
    let mut text = String::new();
    let mut i: usize = 0;
    while i < lines.len()
        invariant
            i <= lines@.len(),
            all == lines@.map_values(|l: String| l@),
            text@ == joined(all.subrange(0, i as int), separator@),
        decreases lines.len() - i,
    {
        if i > 0 {
            push_str(&mut text, separator);
        }
        push_str(&mut text, lines[i].as_str());
        proof {
            let prefix = all.subrange(0, i + 1);
            assert(prefix.drop_last() =~= all.subrange(0, i as int));
            if i == 0 {
                assert(joined(prefix, separator@) == prefix[0]);
            }
        }
        i = i + 1;
    }
    assert(all.subrange(0, lines@.len() as int) =~= all);
    text
}

/// Groups changed targets first by metadata kind, in byte order of the
/// translated kinds, and then by state; plain files come last under their
/// own heading.
pub fn render_grouped(
    header: &str,
    changes: &Vec<(DisplayTarget, HumanState)>,
    other_files: &str,
    labels: &StateLabels,
    styled: bool,
) -> (report: String)
    ensures
        report@ == joined(grouped_lines(header@, targets_view(changes@), other_files@, *labels, styled), "\n"@),
{
    let ghost v = targets_view(changes@);
    let mut lines: Vec<String> = Vec::new();
    lines.push(style_header(header, styled));
    let mut groups: Vec<String> = Vec::new();
    let mut i: usize = 0;
    while i < changes.len()
        invariant
            i <= changes@.len(),
            v == targets_view(changes@),
            groups@.map_values(|g: String| g@) == group_labels(v.subrange(0, i as int)),
        decreases changes.len() - i,
    {
        let ghost prefix = v.subrange(0, i + 1);
        assert(prefix.drop_last() =~= v.subrange(0, i as int));
        assert(prefix.last() == target_view(changes@[i as int].0, changes@[i as int].1));
        match &changes[i].0 {
            DisplayTarget::Metadata { group, .. } => {
                add_label(&mut groups, group);
            },
            DisplayTarget::File(_) => {},
        }
        i = i + 1;
    }
    assert(v.subrange(0, changes@.len() as int) =~= v);
    let ghost all_groups = groups@.map_values(|g: String| g@);
    let ghost start = lines@.map_values(|l: String| l@);
    let mut k: usize = 0;
    while k < groups.len()
        invariant
            k <= groups@.len(),
            v == targets_view(changes@),
            all_groups == groups@.map_values(|g: String| g@),
            all_groups == group_labels(v),
            start == seq![style_header_spec(header@, styled)],
            lines@.map_values(|l: String| l@) == start + group_sections(v, all_groups.subrange(0, k as int), *labels, styled),
        decreases groups.len() - k,
    {
        let group = &groups[k];
        let mut heading = String::new();
        push_str(&mut heading, group.as_str());
        heading.push(':');
        let ghost before = lines@.map_values(|l: String| l@);
        assert(heading@ =~= group@ + seq![':']);
        lines.push(String::new());
        assert(lines@.map_values(|l: String| l@) =~= before.push(Seq::<char>::empty()));
        let styled_heading = style_metadata_group(heading.as_str(), styled);
        let ghost heading_view = styled_heading@;
        let ghost before2 = lines@.map_values(|l: String| l@);
        lines.push(styled_heading);
        assert(lines@.map_values(|l: String| l@) =~= before2.push(heading_view));
        let entries = collect_members(changes, Some(group));
        let ghost mid = lines@.map_values(|l: String| l@);
        append_state_groups(&mut lines, entries, labels, styled);
        proof {
            assert(all_groups[k as int] == group@);
            let prefix = all_groups.subrange(0, k + 1);
            assert(prefix.drop_last() =~= all_groups.subrange(0, k as int));
            assert(mid =~= before + seq![Seq::<char>::empty(), style_metadata_group_spec(group@ + seq![':'], styled)]);
            assert(lines@.map_values(|l: String| l@) =~= start + group_sections(v, prefix, *labels, styled));
        }
        k = k + 1;
    }
    assert(all_groups.subrange(0, groups@.len() as int) =~= all_groups);
    let files = collect_members(changes, None);
    let ghost body = lines@.map_values(|l: String| l@);
    assert(body == start + group_sections(v, group_labels(v), *labels, styled));
    if files.len() > 0 {
        let mut heading = String::new();
        push_str(&mut heading, other_files);
        heading.push(':');
        assert(heading@ =~= other_files@ + seq![':']);
        lines.push(String::new());
        assert(lines@.map_values(|l: String| l@) =~= body.push(Seq::<char>::empty()));
        let styled_heading = style_metadata_group(heading.as_str(), styled);
        let ghost heading_view = styled_heading@;
        let ghost before2 = lines@.map_values(|l: String| l@);
        lines.push(styled_heading);
        assert(lines@.map_values(|l: String| l@) =~= before2.push(heading_view));
        let ghost mid = lines@.map_values(|l: String| l@);
        assert(mid =~= body + seq![Seq::<char>::empty(), style_metadata_group_spec(other_files@ + seq![':'], styled)]);
        append_state_groups(&mut lines, files, labels, styled);
        proof {
            assert(lines@.map_values(|l: String| l@) =~= grouped_lines(header@, v, other_files@, *labels, styled));
        }
    } else {
        proof {
            assert(members(v, None).len() == 0);
            assert(lines@.map_values(|l: String| l@) =~= grouped_lines(header@, v, other_files@, *labels, styled));
        }
    }
    join_lines(&lines, "\n")
}

fn duplicate_target(target: &DisplayTarget) -> (r: DisplayTarget)
    ensures
        forall|state: HumanState| #[trigger] target_view(r, state) == target_view(*target, state),
{
    match target {
        DisplayTarget::Metadata { group, path } => DisplayTarget::Metadata { group: group.clone(), path: path.clone() },
        DisplayTarget::File(bytes) => DisplayTarget::File(bytes.clone()),
    }
}

pub open spec fn workspace_state(index: Option<Change>, worktree: Option<Change>) -> Option<HumanState> {
    match (index, worktree) {
        (Some(i), Some(w)) => Some(HumanState::IndexAndWorktree { index: i, worktree: w }),
        (Some(c), None) => Some(HumanState::Index(c)),
        (None, Some(c)) => Some(HumanState::Worktree(c)),
        (None, None) => None,
    }
}

/// The reported entries of a working tree comparison: those changed in the
/// index, in the working tree, or in both.
pub open spec fn workspace_targets(changes: Seq<DisplayChange>) -> Seq<TargetView>
    decreases changes.len(),
{
    if changes.len() == 0 {
        Seq::empty()
    } else {
        let rest = workspace_targets(changes.drop_last());
        let c = changes.last();
        match workspace_state(c.index, c.worktree) {
            Some(state) => rest.push(target_view(c.target, state)),
            None => rest,
        }
    }
}

/// The report of a working tree comparison: the clean message when nothing
/// changed, otherwise the grouped report under its heading.
pub fn render_human(
    changes: &Vec<DisplayChange>,
    clean: &str,
    header: &str,
    other_files: &str,
    labels: &StateLabels,
    styled: bool,
) -> (report: String)
    ensures
        changes@.len() == 0 ==> report@ == clean@,
        changes@.len() > 0 ==> report@ == joined(
            grouped_lines(header@, workspace_targets(changes@), other_files@, *labels, styled),
            "\n"@,
        ),
{
    if changes.len() == 0 {
        return clean.to_owned();
    }
    let mut entries: Vec<(DisplayTarget, HumanState)> = Vec::new();
    let mut i: usize = 0;
    while i < changes.len()
        invariant
            i <= changes@.len(),
            targets_view(entries@) == workspace_targets(changes@.subrange(0, i as int)),
        decreases changes.len() - i,
    {
        let change = &changes[i];
        let prefix = Ghost(changes@.subrange(0, i + 1));
        assert(prefix@.drop_last() =~= changes@.subrange(0, i as int));
        match HumanState::workspace(change.index, change.worktree) {
            Some(state) => {
                let ghost prev = targets_view(entries@);
                entries.push((duplicate_target(&change.target), state));
                assert(targets_view(entries@) =~= prev.push(target_view(change.target, state)));
            },
            None => {},
        }
        i = i + 1;
    }
    assert(changes@.subrange(0, changes@.len() as int) =~= changes@);
    render_grouped(header, &entries, other_files, labels, styled)
}

/// One changed entry of a comparison between two revisions.
pub struct RevisionDisplayChange {
    pub target: DisplayTarget,
    pub change: Change,
}

/// The translation key of the heading of a revision report: the branch form
/// when the comparison starts at a merge base.
pub fn revision_header_key(from_merge_base: bool) -> (key: &'static str)
    ensures
        key@ == if from_merge_base {
            "diff-revision-branch-files"@
        } else {
            "diff-revision-files"@
        },
{
    if from_merge_base {
        "diff-revision-branch-files"
    } else {
        "diff-revision-files"
    }
}

pub open spec fn revision_targets(changes: Seq<RevisionDisplayChange>) -> Seq<TargetView> {
    changes.map_values(|c: RevisionDisplayChange| target_view(c.target, HumanState::Revision(c.change)))
}

/// The report of a revision comparison: the clean message when nothing
/// changed, otherwise the grouped report under its heading.
pub fn render_revision_human(
    changes: &Vec<RevisionDisplayChange>,
    clean: &str,
    header: &str,
    other_files: &str,
    labels: &StateLabels,
    styled: bool,
) -> (report: String)
    ensures
        changes@.len() == 0 ==> report@ == clean@,
        changes@.len() > 0 ==> report@ == joined(
            grouped_lines(header@, revision_targets(changes@), other_files@, *labels, styled),
            "\n"@,
        ),
{
    if changes.len() == 0 {
        return clean.to_owned();
    }
    let mut entries: Vec<(DisplayTarget, HumanState)> = Vec::new();
    let mut i: usize = 0;
    while i < changes.len()
        invariant
            i <= changes@.len(),
            targets_view(entries@) == revision_targets(changes@.subrange(0, i as int)),
        decreases changes.len() - i,
    {
        let change = &changes[i];
        let ghost prev = targets_view(entries@);
        entries.push((duplicate_target(&change.target), HumanState::Revision(change.change)));
        assert(targets_view(entries@) =~= prev.push(target_view(change.target, HumanState::Revision(change.change))));
        assert(revision_targets(changes@.subrange(0, i + 1)) =~= revision_targets(changes@.subrange(0, i as int)).push(
            target_view(change.target, HumanState::Revision(change.change)),
        ));
        i = i + 1;
    }
    assert(changes@.subrange(0, changes@.len() as int) =~= changes@);
    render_grouped(header, &entries, other_files, labels, styled)
}

/// The sections of a workspace report, each a heading line and its body,
/// separated by blank lines.
pub fn join_sections(sections: &Vec<(String, String)>) -> (report: String)
    ensures
        report@ == joined(sections@.map_values(|s: (String, String)| s.0@ + "\n"@ + s.1@), "\n\n"@),
{
    let mut parts: Vec<String> = Vec::new();
    let mut i: usize = 0;
    while i < sections.len()
        invariant
            i <= sections@.len(),
            parts@.map_values(|l: String| l@) == sections@.subrange(0, i as int).map_values(
                |s: (String, String)| s.0@ + "\n"@ + s.1@,
            ),
        decreases sections.len() - i,
    {
        let mut part = String::new();
        push_str(&mut part, sections[i].0.as_str());
        push_str(&mut part, "\n");
        push_str(&mut part, sections[i].1.as_str());
        let ghost prev = parts@.map_values(|l: String| l@);
        let ghost text = part@;
        parts.push(part);
        assert(parts@.map_values(|l: String| l@) =~= prev.push(text));
        assert(sections@.subrange(0, i + 1).map_values(|s: (String, String)| s.0@ + "\n"@ + s.1@)
            =~= sections@.subrange(0, i as int).map_values(|s: (String, String)| s.0@ + "\n"@ + s.1@).push(text));
        i = i + 1;
    }
    assert(sections@.subrange(0, sections@.len() as int) =~= sections@);
    join_lines(&parts, "\n\n")
}

} // verus!
