//! Locale-independent parts of the change report: file states, their stable
//! machine names and raw codes, human markers and colors, and the grouping of
//! changed targets under state headings.

use vstd::prelude::*;
use vstd::string::*;
use vstd::utf8::*;
use crate::changes::{display_path, display_path_spec};
use crate::sorting::{
    insertion_position, insertion_sorted, lemma_insertion_position, lemma_insertion_sorted, lemma_run_length,
    run_length, sorted_by, strict_order,
};
use crate::text::{
    bytes_less, decimal_text, lemma_bytes_less_asymmetric, lemma_bytes_less_transitive, push_decimal, push_str,
    slice_less,
};

verus! {

/// The state of one file in a comparison stage.
#[derive(Clone, Copy, Debug, PartialEq, Eq, Structural)]
pub enum Change {
    Added,
    Modified,
    Deleted,
    TypeChanged,
    Untracked,
    IntentToAdd,
    Conflict,
}

pub open spec fn raw_code_spec(change: Option<Change>) -> char {
    match change {
        None => '.',
        Some(Change::Added) => 'A',
        Some(Change::Modified) => 'M',
        Some(Change::Deleted) => 'D',
        Some(Change::TypeChanged) => 'T',
        Some(Change::Untracked) => '?',
        Some(Change::IntentToAdd) => 'I',
        Some(Change::Conflict) => 'U',
    }
}

/// The stable raw column code of a state; `.` marks an unchanged stage.
pub fn raw_code(change: Option<Change>) -> (code: char)
    ensures
        code == raw_code_spec(change),
{
    match change {
        None => '.',
        Some(Change::Added) => 'A',
        Some(Change::Modified) => 'M',
        Some(Change::Deleted) => 'D',
        Some(Change::TypeChanged) => 'T',
        Some(Change::Untracked) => '?',
        Some(Change::IntentToAdd) => 'I',
        Some(Change::Conflict) => 'U',
    }
}

pub open spec fn change_name_spec(change: Change) -> Seq<char> {
    match change {
        Change::Added => "added"@,
        Change::Modified => "modified"@,
        Change::Deleted => "deleted"@,
        Change::TypeChanged => "type_changed"@,
        Change::Untracked => "untracked"@,
        Change::IntentToAdd => "intent_to_add"@,
        Change::Conflict => "conflict"@,
    }
}

/// The stable machine name of a state in JSON documents.
pub fn change_name(change: Change) -> (name: &'static str)
    ensures
        name@ == change_name_spec(change),
{
    match change {
        Change::Added => "added",
        Change::Modified => "modified",
        Change::Deleted => "deleted",
        Change::TypeChanged => "type_changed",
        Change::Untracked => "untracked",
        Change::IntentToAdd => "intent_to_add",
        Change::Conflict => "conflict",
    }
}

pub open spec fn change_rank_spec(change: Change) -> u8 {
    match change {
        Change::Modified => 0,
        Change::Added => 1,
        Change::Deleted => 2,
        Change::TypeChanged => 3,
        Change::Conflict => 4,
        Change::Untracked => 5,
        Change::IntentToAdd => 6,
    }
}

/// The position of a state group, independent of translated labels.
pub fn change_rank(change: Change) -> (rank: u8)
    ensures
        rank == change_rank_spec(change),
{
    match change {
        Change::Modified => 0,
        Change::Added => 1,
        Change::Deleted => 2,
        Change::TypeChanged => 3,
        Change::Conflict => 4,
        Change::Untracked => 5,
        Change::IntentToAdd => 6,
    }
}

pub open spec fn change_marker_spec(change: Change) -> char {
    match change {
        Change::Modified => '✎',
        Change::Added => '+',
        Change::Deleted => '−',
        Change::TypeChanged => '↔',
        Change::Conflict => '!',
        Change::Untracked => '?',
        Change::IntentToAdd => '◌',
    }
}

/// The compact human marker of a state, distinct from its raw code.
pub fn change_marker(change: Change) -> (marker: char)
    ensures
        marker == change_marker_spec(change),
{
    match change {
        Change::Modified => '✎',
        Change::Added => '+',
        Change::Deleted => '−',
        Change::TypeChanged => '↔',
        Change::Conflict => '!',
        Change::Untracked => '?',
        Change::IntentToAdd => '◌',
    }
}

pub open spec fn change_color_spec(change: Change) -> u8 {
    match change {
        Change::Modified => 33,
        Change::Added | Change::IntentToAdd => 32,
        Change::Deleted => 31,
        Change::TypeChanged => 35,
        Change::Conflict => 91,
        Change::Untracked => 36,
    }
}

/// The terminal color of a state.
pub fn change_color(change: Change) -> (color: u8)
    ensures
        color == change_color_spec(change),
{
    match change {
        Change::Modified => 33,
        Change::Added | Change::IntentToAdd => 32,
        Change::Deleted => 31,
        Change::TypeChanged => 35,
        Change::Conflict => 91,
        Change::Untracked => 36,
    }
}

pub open spec fn change_group_key_spec(change: Change) -> Seq<char> {
    match change {
        Change::Added => "diff-group-added"@,
        Change::Modified => "diff-group-modified"@,
        Change::Deleted => "diff-group-deleted"@,
        Change::TypeChanged => "diff-group-type-changed"@,
        Change::Untracked => "diff-group-untracked"@,
        Change::IntentToAdd => "diff-group-intent-to-add"@,
        Change::Conflict => "diff-group-conflict"@,
    }
}

/// The translation key of a state group title.
pub fn change_group_key(change: Change) -> (key: &'static str)
    ensures
        key@ == change_group_key_spec(change),
{
    match change {
        Change::Added => "diff-group-added",
        Change::Modified => "diff-group-modified",
        Change::Deleted => "diff-group-deleted",
        Change::TypeChanged => "diff-group-type-changed",
        Change::Untracked => "diff-group-untracked",
        Change::IntentToAdd => "diff-group-intent-to-add",
        Change::Conflict => "diff-group-conflict",
    }
}

/// The state of a changed target in a human report.
#[derive(Clone, Copy, Debug, PartialEq, Eq, Structural)]
pub enum HumanState {
    Index(Change),
    Worktree(Change),
    IndexAndWorktree { index: Change, worktree: Change },
    Revision(Change),
}

impl HumanState {
    /// Represents simultaneous index and worktree changes as one state.
    pub fn workspace(index: Option<Change>, worktree: Option<Change>) -> (state: Option<HumanState>)
        ensures
            state == match (index, worktree) {
                (Some(i), Some(w)) => Some(HumanState::IndexAndWorktree { index: i, worktree: w }),
                (Some(c), None) => Some(HumanState::Index(c)),
                (None, Some(c)) => Some(HumanState::Worktree(c)),
                (None, None) => None::<HumanState>,
            },
    {
        match (index, worktree) {
            (Some(index), Some(worktree)) => Some(HumanState::IndexAndWorktree { index, worktree }),
            (Some(change), None) => Some(HumanState::Index(change)),
            (None, Some(change)) => Some(HumanState::Worktree(change)),
            (None, None) => None,
        }
    }
}

pub open spec fn marker_change_spec(state: HumanState) -> Change {
    match state {
        HumanState::Revision(c) | HumanState::Index(c) | HumanState::Worktree(c) => c,
        HumanState::IndexAndWorktree { worktree, .. } => worktree,
    }
}

/// The state whose marker a target shows: the latest stage.
pub fn marker_change(state: HumanState) -> (change: Change)
    ensures
        change == marker_change_spec(state),
{
    match state {
        HumanState::Revision(c) | HumanState::Index(c) | HumanState::Worktree(c) => c,
        HumanState::IndexAndWorktree { worktree, .. } => worktree,
    }
}

pub open spec fn state_sort_key_spec(state: HumanState) -> (u8, char, char) {
    match state {
        HumanState::Index(c) => (change_rank_spec(c), raw_code_spec(Some(c)), raw_code_spec(None)),
        HumanState::Revision(c) | HumanState::Worktree(c) => (
            change_rank_spec(c),
            raw_code_spec(None),
            raw_code_spec(Some(c)),
        ),
        HumanState::IndexAndWorktree { index, worktree } => (
            change_rank_spec(marker_change_spec(state)),
            raw_code_spec(Some(index)),
            raw_code_spec(Some(worktree)),
        ),
    }
}

/// The order of state groups, the same in every locale.
pub fn state_sort_key(state: HumanState) -> (key: (u8, char, char))
    ensures
        key == state_sort_key_spec(state),
{
    match state {
        HumanState::Index(c) => (change_rank(c), raw_code(Some(c)), raw_code(None)),
        HumanState::Revision(c) | HumanState::Worktree(c) => (
            change_rank(c),
            raw_code(None),
            raw_code(Some(c)),
        ),
        HumanState::IndexAndWorktree { index, worktree } => (
            change_rank(marker_change(state)),
            raw_code(Some(index)),
            raw_code(Some(worktree)),
        ),
    }
}

pub open spec fn style_header_spec(header: Seq<char>, styled: bool) -> Seq<char> {
    if styled {
        "\x1b[1m"@ + header + "\x1b[0m"@
    } else {
        header
    }
}

/// The report heading, bold on a terminal.
pub fn style_header(header: &str, styled: bool) -> (r: String)
    ensures
        r@ == style_header_spec(header@, styled),
{
    if styled {
        let mut r = String::new();
        push_str(&mut r, "\x1b[1m");
        push_str(&mut r, header);
        push_str(&mut r, "\x1b[0m");
        r
    } else {
        header.to_owned()
    }
}

pub open spec fn style_metadata_group_spec(group: Seq<char>, styled: bool) -> Seq<char> {
    if styled {
        "\x1b[1;36m"@ + group + "\x1b[0m"@
    } else {
        group
    }
}

/// A metadata group heading, bold cyan on a terminal.
pub fn style_metadata_group(group: &str, styled: bool) -> (r: String)
    ensures
        r@ == style_metadata_group_spec(group@, styled),
{
    if styled {
        let mut r = String::new();
        push_str(&mut r, "\x1b[1;36m");
        push_str(&mut r, group);
        push_str(&mut r, "\x1b[0m");
        r
    } else {
        group.to_owned()
    }
}

pub open spec fn style_state_heading_spec(title: Seq<char>, count: nat, change: Change, styled: bool) -> Seq<char> {
    if styled {
        "  \x1b[1;"@ + decimal_text(change_color_spec(change) as nat) + "m"@ + title + "\x1b[0m \x1b[2m("@
            + decimal_text(count) + ")\x1b[0m:"@
    } else {
        "  "@ + title + " ("@ + decimal_text(count) + "):"@
    }
}

/// A state group heading with the number of targets it holds.
pub fn style_state_heading(title: &str, count: usize, change: Change, styled: bool) -> (r: String)
    ensures
        r@ == style_state_heading_spec(title@, count as nat, change, styled),
{
    let mut r = String::new();
    if styled {
        push_str(&mut r, "  \x1b[1;");
        push_decimal(&mut r, change_color(change) as u64);
        push_str(&mut r, "m");
        push_str(&mut r, title);
        push_str(&mut r, "\x1b[0m \x1b[2m(");
        push_decimal(&mut r, count as u64);
        push_str(&mut r, ")\x1b[0m:");
    } else {
        push_str(&mut r, "  ");
        push_str(&mut r, title);
        push_str(&mut r, " (");
        push_decimal(&mut r, count as u64);
        push_str(&mut r, "):");
    }
    r
}

pub open spec fn format_change_spec(target: Seq<char>, change: Change, styled: bool) -> Seq<char> {
    if styled {
        "    \x1b[1;"@ + decimal_text(change_color_spec(change) as nat) + "m"@ + seq![
            change_marker_spec(change),
        ] + "\x1b[0m "@ + target
    } else {
        "    "@ + seq![change_marker_spec(change)] + " "@ + target
    }
}

/// One target line with its state marker.
pub fn format_change(target: &str, change: Change, styled: bool) -> (r: String)
    ensures
        r@ == format_change_spec(target@, change, styled),
{
    let mut r = String::new();
    if styled {
        push_str(&mut r, "    \x1b[1;");
        push_decimal(&mut r, change_color(change) as u64);
        push_str(&mut r, "m");
        r.push(change_marker(change));
        push_str(&mut r, "\x1b[0m ");
        push_str(&mut r, target);
    } else {
        push_str(&mut r, "    ");
        r.push(change_marker(change));
        push_str(&mut r, " ");
        push_str(&mut r, target);
    }
    r
}

/// Translated labels that state group titles are made of.
pub struct StateLabels {
    pub added: String,
    pub modified: String,
    pub deleted: String,
    pub type_changed: String,
    pub untracked: String,
    pub intent_to_add: String,
    pub conflict: String,
    pub index: String,
    pub worktree: String,
    pub index_and_worktree: String,
}

impl StateLabels {
    /// The plural group title of a state.
    pub open spec fn group_spec(&self, change: Change) -> Seq<char> {
        match change {
            Change::Added => self.added@,
            Change::Modified => self.modified@,
            Change::Deleted => self.deleted@,
            Change::TypeChanged => self.type_changed@,
            Change::Untracked => self.untracked@,
            Change::IntentToAdd => self.intent_to_add@,
            Change::Conflict => self.conflict@,
        }
    }

    /// The plural group title of a state.
    pub fn group(&self, change: Change) -> (label: &str)
        ensures
            label@ == self.group_spec(change),
    {
        match change {
            Change::Added => self.added.as_str(),
            Change::Modified => self.modified.as_str(),
            Change::Deleted => self.deleted.as_str(),
            Change::TypeChanged => self.type_changed.as_str(),
            Change::Untracked => self.untracked.as_str(),
            Change::IntentToAdd => self.intent_to_add.as_str(),
            Change::Conflict => self.conflict.as_str(),
        }
    }
}

pub open spec fn state_title_spec(state: HumanState, labels: StateLabels) -> Seq<char> {
    match state {
        HumanState::Revision(c) => labels.group_spec(c),
        HumanState::Index(c) => labels.group_spec(c) + " — "@ + labels.index@,
        HumanState::Worktree(c) => labels.group_spec(c) + " — "@ + labels.worktree@,
        HumanState::IndexAndWorktree { index, worktree } => if index == worktree {
            labels.group_spec(index) + " — "@ + labels.index_and_worktree@
        } else {
            labels.group_spec(index) + " — "@ + labels.index@ + "; "@ + labels.group_spec(worktree)
                + " — "@ + labels.worktree@
        },
    }
}

/// Describes one state group without repeating it for every target.
pub fn human_state_title(state: HumanState, labels: &StateLabels) -> (title: String)
    ensures
        title@ == state_title_spec(state, *labels),
{
    let mut title = String::new();
    match state {
        HumanState::Revision(c) => {
            push_str(&mut title, labels.group(c));
        },
        HumanState::Index(c) => {
            push_str(&mut title, labels.group(c));
            push_str(&mut title, " — ");
            push_str(&mut title, labels.index.as_str());
        },
        HumanState::Worktree(c) => {
            push_str(&mut title, labels.group(c));
            push_str(&mut title, " — ");
            push_str(&mut title, labels.worktree.as_str());
        },
        HumanState::IndexAndWorktree { index, worktree } => {
            if index == worktree {
                push_str(&mut title, labels.group(index));
                push_str(&mut title, " — ");
                push_str(&mut title, labels.index_and_worktree.as_str());
            } else {
                push_str(&mut title, labels.group(index));
                push_str(&mut title, " — ");
                push_str(&mut title, labels.index.as_str());
                push_str(&mut title, "; ");
                push_str(&mut title, labels.group(worktree));
                push_str(&mut title, " — ");
                push_str(&mut title, labels.worktree.as_str());
            }
        },
    }
    title
}

/// A changed target, as text, with its state.
pub type Entry = (Seq<char>, HumanState);

pub open spec fn entries_view(v: Seq<(String, HumanState)>) -> Seq<Entry> {
    v.map_values(|e: (String, HumanState)| (e.0@, e.1))
}

pub open spec fn key_less(a: (u8, char, char), b: (u8, char, char)) -> bool {
    if a.0 != b.0 {
        a.0 < b.0
    } else if a.1 != b.1 {
        (a.1 as u32) < (b.1 as u32)
    } else {
        (a.2 as u32) < (b.2 as u32)
    }
}

/// Targets are ordered by state first and then byte-wise by their text.
pub open spec fn entry_less(a: Entry, b: Entry) -> bool {
    let ka = state_sort_key_spec(a.1);
    let kb = state_sort_key_spec(b.1);
    if ka != kb {
        key_less(ka, kb)
    } else {
        bytes_less(encode_utf8(a.0), encode_utf8(b.0))
    }
}

pub open spec fn entry_order() -> spec_fn(Entry, Entry) -> bool {
    |a: Entry, b: Entry| entry_less(a, b)
}

pub open spec fn entry_state() -> spec_fn(Entry) -> HumanState {
    |e: Entry| e.1
}

/// The entries in stable sorted order.
pub open spec fn sorted_entries(s: Seq<Entry>) -> Seq<Entry> {
    insertion_sorted(s, entry_order())
}

/// The lines of consecutive state groups: a heading, then one line per target.
pub open spec fn group_lines(s: Seq<Entry>, labels: StateLabels, styled: bool) -> Seq<Seq<char>>
    decreases s.len(),
{
    if s.len() == 0 {
        Seq::empty()
    } else {
        let state = s[0].1;
        let k = run_length(s, entry_state(), state);
        if 0 < k <= s.len() {
            let marker = marker_change_spec(state);
            seq![style_state_heading_spec(state_title_spec(state, labels), k, marker, styled)]
                + s.subrange(0, k as int).map_values(|e: Entry| format_change_spec(e.0, marker, styled))
                + group_lines(s.subrange(k as int, s.len() as int), labels, styled)
        } else {
            Seq::empty()
        }
    }
}

fn entry_precedes(a: &(String, HumanState), b: &(String, HumanState)) -> (r: bool)
    ensures
        r == entry_less((a.0@, a.1), (b.0@, b.1)),
{
    let ka = state_sort_key(a.1);
    let kb = state_sort_key(b.1);
    if ka.0 != kb.0 {
        ka.0 < kb.0
    } else if ka.1 != kb.1 {
        (ka.1 as u32) < (kb.1 as u32)
    } else if ka.2 != kb.2 {
        (ka.2 as u32) < (kb.2 as u32)
    } else {
        slice_less(a.0.as_str().as_bytes(), b.0.as_str().as_bytes())
    }
}

proof fn lemma_entry_order()
    ensures
        strict_order(entry_order()),
{
    assert forall|a: Entry, b: Entry| #[trigger] entry_order()(a, b) implies !entry_order()(b, a) by {
        lemma_bytes_less_asymmetric(encode_utf8(a.0), encode_utf8(b.0));
    }
    assert forall|a: Entry, b: Entry, c: Entry| #![trigger entry_order()(a, b), entry_order()(b, c)]
        entry_order()(a, b) && entry_order()(b, c) implies entry_order()(a, c) by {
        let ka = state_sort_key_spec(a.1);
        let kb = state_sort_key_spec(b.1);
        let kc = state_sort_key_spec(c.1);
        if ka == kb && kb == kc {
            lemma_bytes_less_transitive(encode_utf8(a.0), encode_utf8(b.0), encode_utf8(c.0));
        }
    }
}

/// The state groups list every target exactly once, and in order: targets
/// are sorted by state first and by text second, whatever order they came in.
pub proof fn lemma_state_groups_sorted_permutation(s: Seq<Entry>)
    ensures
        sorted_entries(s).to_multiset() == s.to_multiset(),
        sorted_by(sorted_entries(s), entry_order()),
{
    lemma_entry_order();
    lemma_insertion_sorted(s, entry_order());
}

/// Sorts targets by state, then by text, keeping equal entries in their order.
pub fn sort_state_entries(changes: &Vec<(String, HumanState)>) -> (sorted: Vec<(String, HumanState)>)
    ensures
        entries_view(sorted@) == sorted_entries(entries_view(changes@)),
{
    let mut sorted: Vec<(String, HumanState)> = Vec::new();
    let mut i: usize = 0;
    while i < changes.len()
        invariant
            i <= changes@.len(),
            entries_view(sorted@) == sorted_entries(entries_view(changes@).subrange(0, i as int)),
        decreases changes.len() - i,
    {
        let entry = (changes[i].0.clone(), changes[i].1);
        let ghost x: Entry = (entry.0@, entry.1);
        let ghost before = entries_view(sorted@);
        proof {
            lemma_insertion_position(before, x, entry_order());
        }
        let mut p: usize = 0;
        while p < sorted.len() && !entry_precedes(&entry, &sorted[p])
            invariant
                p <= sorted@.len(),
                before == entries_view(sorted@),
                x == (entry.0@, entry.1),
                forall|j: int| 0 <= j < p ==> !entry_less(x, #[trigger] before[j]),
            decreases sorted.len() - p,
        {
            p = p + 1;
        }
        assert(p == insertion_position(before, x, entry_order())) by {
            let q = insertion_position(before, x, entry_order());
            if p < q {
                assert(!entry_less(x, before[p as int]));
            } else if q < p {
                assert(entry_less(x, before[q]));
            }
        }
        sorted.insert(p, entry);
        proof {
            let prefix = entries_view(changes@).subrange(0, i + 1);
            assert(prefix.drop_last() =~= entries_view(changes@).subrange(0, i as int));
            assert(prefix.last() == x);
            assert(entries_view(sorted@) =~= before.insert(p as int, x));
        }
        i = i + 1;
    }
    proof {
        assert(entries_view(changes@).subrange(0, changes@.len() as int) =~= entries_view(changes@));
    }
    sorted
}

/// Appends the state groups of `changes` to `lines`: targets sorted by state
/// and text, each run of one state under a heading with its count.
pub fn append_state_groups(
    lines: &mut Vec<String>,
    changes: Vec<(String, HumanState)>,
    labels: &StateLabels,
    styled: bool,
)
    ensures
        final(lines)@.map_values(|l: String| l@) == old(lines)@.map_values(|l: String| l@)
            + group_lines(sorted_entries(entries_view(changes@)), *labels, styled),
{
    let sorted = sort_state_entries(&changes);
    let ghost all = entries_view(sorted@);
    let ghost start_lines = old(lines)@.map_values(|l: String| l@);
    let n = sorted.len();
    let mut start: usize = 0;
    assert(all.subrange(0, n as int) =~= all);
    while start < n
        invariant
            n == sorted@.len() == all.len(),
            all == entries_view(sorted@),
            start <= n,
            lines@.map_values(|l: String| l@) + group_lines(all.subrange(start as int, n as int), *labels, styled)
                == start_lines + group_lines(all, *labels, styled),
        decreases n - start,
    {
        let state = sorted[start].1;
        let ghost rest = all.subrange(start as int, n as int);
        proof {
            lemma_run_length(rest, entry_state(), state);
        }
        let mut end = start + 1;
        while end < n && sorted[end].1 == state
            invariant
                start < end <= n == sorted@.len() == all.len(),
                all == entries_view(sorted@),
                rest == all.subrange(start as int, n as int),
                forall|j: int| start <= j < end ==> #[trigger] all[j].1 == state,
            decreases n - end,
        {
            end = end + 1;
        }
        let ghost k = (end - start) as nat;
        assert(run_length(rest, entry_state(), state) == k) by {
            let r = run_length(rest, entry_state(), state);
            if r < k {
                assert(rest[r as int].1 != state);
                assert(rest[r as int] == all[start + r]);
                assert(all[start + r].1 == state);
            } else if r > k {
                assert(end < n);
                assert(rest[k as int].1 == state);
                assert(rest[k as int] == all[end as int]);
                assert(sorted@[end as int].1 != state);
            }
        }
        let marker = marker_change(state);
        let title = human_state_title(state, labels);
        let ghost before = lines@.map_values(|l: String| l@);
        lines.push(style_state_heading(title.as_str(), end - start, marker, styled));
        let mut j = start;
        while j < end
            invariant
                start <= j <= end <= n == sorted@.len() == all.len(),
                all == entries_view(sorted@),
                lines@.map_values(|l: String| l@) == before + seq![style_state_heading_spec(state_title_spec(state, *labels), k, marker, styled)]
                    + all.subrange(start as int, j as int).map_values(|e: Entry| format_change_spec(e.0, marker, styled)),
            decreases end - j,
        {
            let line = format_change(sorted[j].0.as_str(), marker, styled);
            let ghost prev = lines@.map_values(|l: String| l@);
            let ghost text = line@;
            lines.push(line);
            proof {
                assert(lines@.map_values(|l: String| l@) =~= prev.push(text));
                let seg = all.subrange(start as int, j as int);
                assert(all.subrange(start as int, j + 1) =~= seg.push(all[j as int]));
                assert(seg.push(all[j as int]).map_values(|e: Entry| format_change_spec(e.0, marker, styled))
                    =~= seg.map_values(|e: Entry| format_change_spec(e.0, marker, styled)).push(
                    format_change_spec(all[j as int].0, marker, styled)));
                assert(all[j as int].0 == sorted@[j as int].0@);
            }
            j = j + 1;
        }
        proof {
            assert(rest.subrange(0, k as int) =~= all.subrange(start as int, end as int));
            assert(rest.subrange(k as int, rest.len() as int) =~= all.subrange(end as int, n as int));
            assert(rest[0] == all[start as int]);
        }
        start = end;
    }
}

/// A changed file of a working tree comparison: its index and worktree states.
pub struct FileChange {
    pub path: Vec<u8>,
    pub index: Option<Change>,
    pub worktree: Option<Change>,
}

/// A changed file of a comparison between two revisions.
pub struct RevisionFileChange {
    pub path: Vec<u8>,
    pub change: Change,
}

pub open spec fn raw_line(path: Seq<u8>, index: Option<Change>, worktree: Option<Change>) -> Seq<char> {
    seq![raw_code_spec(index), raw_code_spec(worktree), '\t'] + display_path_spec(path) + seq!['\n']
}

/// The two-column raw report: both state codes, a tab and the path, one file per line.
pub open spec fn raw_report(files: Seq<FileChange>) -> Seq<char>
    decreases files.len(),
{
    if files.len() == 0 {
        Seq::empty()
    } else {
        raw_report(files.drop_last()) + raw_line(files.last().path@, files.last().index, files.last().worktree)
    }
}

pub open spec fn revision_raw_line(path: Seq<u8>, change: Change) -> Seq<char> {
    seq![raw_code_spec(Some(change)), '\t'] + display_path_spec(path) + seq!['\n']
}

/// The one-column raw report of a revision comparison.
pub open spec fn revision_raw_report(files: Seq<RevisionFileChange>) -> Seq<char>
    decreases files.len(),
{
    if files.len() == 0 {
        Seq::empty()
    } else {
        revision_raw_report(files.drop_last()) + revision_raw_line(files.last().path@, files.last().change)
    }
}

/// Renders the compact locale-independent two-column report.
pub fn render_raw(files: &[FileChange]) -> (output: String)
    ensures
        output@ == raw_report(files@),
{
    let mut output = String::new();
    let mut i: usize = 0;
    while i < files.len()
        invariant
            i <= files@.len(),
            output@ == raw_report(files@.subrange(0, i as int)),
        decreases files.len() - i,
    {
        let file = &files[i];
        output.push(raw_code(file.index));
        output.push(raw_code(file.worktree));
        output.push('\t');
        let shown = display_path(file.path.as_slice());
        push_str(&mut output, shown.as_str());
        output.push('\n');
        proof {
            assert(files@.subrange(0, i + 1).drop_last() =~= files@.subrange(0, i as int));
            assert(output@ =~= raw_report(files@.subrange(0, i + 1)));
        }
        i = i + 1;
    }
    assert(files@.subrange(0, files@.len() as int) =~= files@);
    output
}

/// Renders one state column per file of a revision comparison.
pub fn render_revision_raw(files: &[RevisionFileChange]) -> (output: String)
    ensures
        output@ == revision_raw_report(files@),
{
    let mut output = String::new();
    let mut i: usize = 0;
    while i < files.len()
        invariant
            i <= files@.len(),
            output@ == revision_raw_report(files@.subrange(0, i as int)),
        decreases files.len() - i,
    {
        let file = &files[i];
        output.push(raw_code(Some(file.change)));
        output.push('\t');
        let shown = display_path(file.path.as_slice());
        push_str(&mut output, shown.as_str());
        output.push('\n');
        proof {
            assert(files@.subrange(0, i + 1).drop_last() =~= files@.subrange(0, i as int));
            assert(output@ =~= revision_raw_report(files@.subrange(0, i + 1)));
        }
        i = i + 1;
    }
    assert(files@.subrange(0, files@.len() as int) =~= files@);
    output
}

/// A compact commit label: the first seven bytes of the identifier, or all
/// of a shorter one.
pub fn short_id(id: &str) -> (short: &str)
    requires
        is_char_boundary(id.spec_bytes(), 7) || id.spec_bytes().len() < 7,
    ensures
        is_char_boundary(id.spec_bytes(), 7) ==> short.spec_bytes() == id.spec_bytes().subrange(0, 7),
        !is_char_boundary(id.spec_bytes(), 7) ==> short@ == id@,
{
    if id.is_char_boundary(7) {
        let parts = id.split_at(7);
        let head: &str = parts.0;
        assert(head.spec_bytes() =~= id.spec_bytes().subrange(0, 7));
        head
    } else {
        id
    }
}

/// The rows of one workspace member in the raw report, each prefixed with
/// the member's name and a tab.
pub open spec fn prefixed_raw_report(name: Seq<char>, files: Seq<FileChange>) -> Seq<char>
    decreases files.len(),
{
    if files.len() == 0 {
        Seq::empty()
    } else {
        prefixed_raw_report(name, files.drop_last()) + name + seq!['\t'] + raw_line(
            files.last().path@,
            files.last().index,
            files.last().worktree,
        )
    }
}

/// The raw report of a workspace: each member's rows prefixed with its name,
/// then the rows of workspace-owned files prefixed with `-`.
pub open spec fn workspace_raw_report(projects: Seq<(String, Vec<FileChange>)>, workspace_files: Option<Seq<FileChange>>) -> Seq<char>
    decreases projects.len(),
{
    if projects.len() == 0 {
        match workspace_files {
            Some(files) => prefixed_raw_report(seq!['-'], files),
            None => Seq::empty(),
        }
    } else {
        let head = projects[0];
        prefixed_raw_report(head.0@, head.1@) + workspace_raw_report(projects.drop_first(), workspace_files)
    }
}

fn push_prefixed_raw(output: &mut String, name: &str, files: &[FileChange])
    ensures
        final(output)@ == old(output)@ + prefixed_raw_report(name@, files@),
{
    let mut i: usize = 0;
    while i < files.len()
        invariant
            i <= files@.len(),
            output@ == old(output)@ + prefixed_raw_report(name@, files@.subrange(0, i as int)),
        decreases files.len() - i,
    {
        let file = &files[i];
        push_str(output, name);
        output.push('\t');
        output.push(raw_code(file.index));
        output.push(raw_code(file.worktree));
        output.push('\t');
        let shown = display_path(file.path.as_slice());
        push_str(output, shown.as_str());
        output.push('\n');
        proof {
            assert(files@.subrange(0, i + 1).drop_last() =~= files@.subrange(0, i as int));
            assert(output@ =~= old(output)@ + prefixed_raw_report(name@, files@.subrange(0, i + 1)));
        }
        i = i + 1;
    }
    assert(files@.subrange(0, files@.len() as int) =~= files@);
}

/// Renders the raw report of a workspace: member rows carry the member name
/// as a first column, workspace-owned files carry `-`.
pub fn render_workspace_raw(projects: &Vec<(String, Vec<FileChange>)>, workspace_files: Option<&Vec<FileChange>>) -> (output: String)
    ensures
        output@ == workspace_raw_report(
            projects@,
            match workspace_files {
                Some(files) => Some(files@),
                None => None,
            },
        ),
{
    let mut output = String::new();
    let mut i: usize = 0;
    assert(projects@.subrange(0, projects@.len() as int) =~= projects@);
    assert(output@ =~= Seq::<char>::empty());
    while i < projects.len()
        invariant
            i <= projects@.len(),
            output@ + workspace_raw_report(projects@.subrange(i as int, projects@.len() as int), match workspace_files {
                Some(files) => Some(files@),
                None => None,
            }) == workspace_raw_report(projects@, match workspace_files {
                Some(files) => Some(files@),
                None => None,
            }),
        decreases projects.len() - i,
    {
        let ghost rest = projects@.subrange(i as int, projects@.len() as int);
        assert(rest.drop_first() =~= projects@.subrange(i + 1, projects@.len() as int));
        assert(rest[0] == projects@[i as int]);
        push_prefixed_raw(&mut output, projects[i].0.as_str(), projects[i].1.as_slice());
        i = i + 1;
    }
    match workspace_files {
        Some(files) => {
            proof {
                reveal_strlit("-");
                assert("-"@ =~= seq!['-']);
            }
            push_prefixed_raw(&mut output, "-", files.as_slice());
        },
        None => {},
    }
    output
}

} // verus!
