//! The human report of semantic changes: how events are ranked, grouped and
//! labelled, independently of the translations.

use vstd::prelude::*;
use vstd::string::*;
use crate::changes::{semantic_event_key, semantic_event_key_spec, SemanticEventKind};
use vstd::utf8::*;
use crate::diff::{
    change_rank, change_rank_spec, format_change, format_change_spec, style_state_heading, style_state_heading_spec,
    Change,
};
use crate::sorting::{
    insertion_position, insertion_sorted, lemma_insertion_position, lemma_insertion_sorted, lemma_run_length,
    run_length, sorted_by, strict_order,
};
use crate::text::{
    bytes_less, decimal_text, lemma_bytes_less_asymmetric, lemma_bytes_less_total, lemma_bytes_less_transitive,
    push_decimal, push_str, slice_less,
};
use crate::rpc::str_eq;

verus! {

/// The comparison edge on which a semantic change was seen.
#[derive(Clone, Copy, Debug, PartialEq, Eq, Structural)]
pub enum ChangeStage {
    Index,
    Worktree,
    Revision,
}

/// The stage of a change as reported to people: a change seen both in the
/// index and in the working tree is reported once.
#[derive(Clone, Copy, Debug, PartialEq, Eq, Structural)]
pub enum SemanticHumanStage {
    Index,
    Worktree,
    IndexAndWorktree,
    Revision,
}

impl SemanticHumanStage {
    /// The initial human stage of one comparison edge.
    pub fn from_stage(stage: ChangeStage) -> (r: SemanticHumanStage)
        ensures
            r == match stage {
                ChangeStage::Index => SemanticHumanStage::Index,
                ChangeStage::Worktree => SemanticHumanStage::Worktree,
                ChangeStage::Revision => SemanticHumanStage::Revision,
            },
    {
        match stage {
            ChangeStage::Index => SemanticHumanStage::Index,
            ChangeStage::Worktree => SemanticHumanStage::Worktree,
            ChangeStage::Revision => SemanticHumanStage::Revision,
        }
    }

    /// Merges the same change seen on the other workspace edge.
    pub fn merge(&mut self, stage: ChangeStage)
        ensures
            *final(self) == if (*old(self) == SemanticHumanStage::Index && stage == ChangeStage::Worktree) || (
            *old(self) == SemanticHumanStage::Worktree && stage == ChangeStage::Index) {
                SemanticHumanStage::IndexAndWorktree
            } else {
                *old(self)
            },
    {
        if (*self == SemanticHumanStage::Index && stage == ChangeStage::Worktree) || (*self
            == SemanticHumanStage::Worktree && stage == ChangeStage::Index) {
            *self = SemanticHumanStage::IndexAndWorktree;
        }
    }
}

pub open spec fn event_change(kind: SemanticEventKind) -> Change {
    match kind {
        SemanticEventKind::ObjectAdded | SemanticEventKind::MethodAdded | SemanticEventKind::FunctionAdded => Change::Added,
        SemanticEventKind::ObjectRemoved | SemanticEventKind::MethodRemoved | SemanticEventKind::FunctionRemoved => Change::Deleted,
        _ => Change::Modified,
    }
}

/// The file state whose marker and color a semantic change borrows.
pub fn semantic_event_change(kind: SemanticEventKind) -> (change: Change)
    ensures
        change == event_change(kind),
{
    match kind {
        SemanticEventKind::ObjectAdded | SemanticEventKind::MethodAdded | SemanticEventKind::FunctionAdded => Change::Added,
        SemanticEventKind::ObjectRemoved | SemanticEventKind::MethodRemoved | SemanticEventKind::FunctionRemoved => Change::Deleted,
        SemanticEventKind::ObjectChanged | SemanticEventKind::ModuleChanged | SemanticEventKind::MethodChanged
        | SemanticEventKind::FunctionChanged | SemanticEventKind::FormChanged
        | SemanticEventKind::MetadataAttributeChanged => Change::Modified,
    }
}

pub open spec fn group_kind(kind: SemanticEventKind) -> SemanticEventKind {
    match kind {
        SemanticEventKind::FunctionAdded => SemanticEventKind::MethodAdded,
        SemanticEventKind::FunctionRemoved => SemanticEventKind::MethodRemoved,
        SemanticEventKind::FunctionChanged => SemanticEventKind::MethodChanged,
        other => other,
    }
}

/// Procedures and functions share a group; the event kinds stay distinct.
pub fn semantic_event_group_kind(kind: SemanticEventKind) -> (r: SemanticEventKind)
    ensures
        r == group_kind(kind),
{
    match kind {
        SemanticEventKind::FunctionAdded => SemanticEventKind::MethodAdded,
        SemanticEventKind::FunctionRemoved => SemanticEventKind::MethodRemoved,
        SemanticEventKind::FunctionChanged => SemanticEventKind::MethodChanged,
        other => other,
    }
}

pub open spec fn group_key(kind: SemanticEventKind) -> Seq<char> {
    match kind {
        SemanticEventKind::MethodAdded => "diff-semantic-routine-added"@,
        SemanticEventKind::MethodRemoved => "diff-semantic-routine-removed"@,
        SemanticEventKind::MethodChanged => "diff-semantic-routine-changed"@,
        other => semantic_event_key_spec(other),
    }
}

/// The translation key of a group title; routines have labels of their own.
pub fn semantic_event_group_key(kind: SemanticEventKind) -> (key: &'static str)
    ensures
        key@ == group_key(kind),
{
    match kind {
        SemanticEventKind::MethodAdded => "diff-semantic-routine-added",
        SemanticEventKind::MethodRemoved => "diff-semantic-routine-removed",
        SemanticEventKind::MethodChanged => "diff-semantic-routine-changed",
        other => semantic_event_key(other),
    }
}

pub open spec fn kind_rank(kind: SemanticEventKind) -> u8 {
    match kind {
        SemanticEventKind::ObjectChanged | SemanticEventKind::ObjectAdded | SemanticEventKind::ObjectRemoved => 0,
        SemanticEventKind::MetadataAttributeChanged => 1,
        SemanticEventKind::ModuleChanged => 2,
        SemanticEventKind::FormChanged => 4,
        _ => 3,
    }
}

/// Objects first, then metadata attributes, modules, routines and forms.
pub fn semantic_event_kind_rank(kind: SemanticEventKind) -> (rank: u8)
    ensures
        rank == kind_rank(kind),
{
    match kind {
        SemanticEventKind::ObjectChanged | SemanticEventKind::ObjectAdded | SemanticEventKind::ObjectRemoved => 0,
        SemanticEventKind::MetadataAttributeChanged => 1,
        SemanticEventKind::ModuleChanged => 2,
        SemanticEventKind::MethodChanged | SemanticEventKind::MethodAdded | SemanticEventKind::MethodRemoved
        | SemanticEventKind::FunctionChanged | SemanticEventKind::FunctionAdded
        | SemanticEventKind::FunctionRemoved => 3,
        SemanticEventKind::FormChanged => 4,
    }
}

pub open spec fn stage_rank(stage: SemanticHumanStage) -> u8 {
    match stage {
        SemanticHumanStage::Index => 0,
        SemanticHumanStage::Worktree => 1,
        SemanticHumanStage::IndexAndWorktree => 2,
        SemanticHumanStage::Revision => 3,
    }
}

/// Index, then working tree, then both; revisions form a group of their own.
pub fn semantic_stage_rank(stage: SemanticHumanStage) -> (rank: u8)
    ensures
        rank == stage_rank(stage),
{
    match stage {
        SemanticHumanStage::Index => 0,
        SemanticHumanStage::Worktree => 1,
        SemanticHumanStage::IndexAndWorktree => 2,
        SemanticHumanStage::Revision => 3,
    }
}

pub open spec fn stage_key(stage: SemanticHumanStage) -> Seq<char> {
    match stage {
        SemanticHumanStage::Index => "diff-semantic-index"@,
        SemanticHumanStage::Worktree => "diff-semantic-worktree"@,
        SemanticHumanStage::IndexAndWorktree => "diff-semantic-index-and-worktree"@,
        SemanticHumanStage::Revision => "diff-semantic-revision"@,
    }
}

/// The translation key of the comparison edge in a group heading.
pub fn semantic_stage_key(stage: SemanticHumanStage) -> (key: &'static str)
    ensures
        key@ == stage_key(stage),
{
    match stage {
        SemanticHumanStage::Index => "diff-semantic-index",
        SemanticHumanStage::Worktree => "diff-semantic-worktree",
        SemanticHumanStage::IndexAndWorktree => "diff-semantic-index-and-worktree",
        SemanticHumanStage::Revision => "diff-semantic-revision",
    }
}

pub open spec fn declaration_rank(kind: SemanticEventKind) -> u8 {
    match kind {
        SemanticEventKind::FunctionAdded | SemanticEventKind::FunctionRemoved | SemanticEventKind::FunctionChanged => 1,
        _ => 0,
    }
}

/// Procedures before functions when their positions do not decide.
pub fn semantic_declaration_rank(kind: SemanticEventKind) -> (rank: u8)
    ensures
        rank == declaration_rank(kind),
{
    match kind {
        SemanticEventKind::FunctionAdded | SemanticEventKind::FunctionRemoved | SemanticEventKind::FunctionChanged => 1,
        _ => 0,
    }
}

/// A line and column in a module.
#[derive(Clone, Copy, Debug, PartialEq, Eq, Structural)]
pub struct SourceLocation {
    pub line: usize,
    pub column: usize,
}

pub open spec fn location_key(location: Option<SourceLocation>) -> (usize, usize) {
    match location {
        Some(l) => (l.line, l.column),
        None => (usize::MAX, usize::MAX),
    }
}

/// Routines in declaration order; changes without a position come last.
pub fn location_sort_key(location: Option<SourceLocation>) -> (key: (usize, usize))
    ensures
        key == location_key(location),
{
    match location {
        Some(l) => (l.line, l.column),
        None => (usize::MAX, usize::MAX),
    }
}

pub open spec fn event_sort_key(kind: SemanticEventKind, stage: SemanticHumanStage) -> (u8, u8, u8) {
    (change_rank_spec(event_change(kind)), kind_rank(group_kind(kind)), stage_rank(stage))
}

/// Modified, added and removed events in the order of ordinary file states.
pub fn semantic_event_sort_key(kind: SemanticEventKind, stage: SemanticHumanStage) -> (key: (u8, u8, u8))
    ensures
        key == event_sort_key(kind, stage),
{
    (
        change_rank(semantic_event_change(kind)),
        semantic_event_kind_rank(semantic_event_group_kind(kind)),
        semantic_stage_rank(stage),
    )
}

pub open spec fn routine_label(kind: SemanticEventKind, function: Seq<char>, procedure: Seq<char>) -> Seq<char> {
    if declaration_rank(kind) == 1 {
        function
    } else {
        procedure
    }
}

pub open spec fn event_target(
    object: Seq<char>,
    member: Option<Seq<char>>,
    kind: SemanticEventKind,
    location: Option<SourceLocation>,
    function: Seq<char>,
    procedure: Seq<char>,
) -> Seq<char> {
    match member {
        None => object,
        Some(m) => {
            let head = object + " — "@ + routine_label(kind, function, procedure) + "."@ + m;
            match location {
                None => head,
                Some(l) => head + " ("@ + decimal_text(l.line as nat) + ", "@ + decimal_text(l.column as nat) + ")"@,
            }
        },
    }
}

/// The target of a semantic change: the object, and for a routine its
/// translated declaration kind, its name and, when known, its position.
pub fn semantic_event_target(
    object: &str,
    member: Option<&str>,
    kind: SemanticEventKind,
    location: Option<SourceLocation>,
    function_label: &str,
    procedure_label: &str,
) -> (target: String)
    ensures
        target@ == event_target(
            object@,
            match member {
                Some(m) => Some(m@),
                None => None,
            },
            kind,
            location,
            function_label@,
            procedure_label@,
        ),
{
    match member {
        None => object.to_owned(),
        Some(m) => {
            let mut target = String::new();
            push_str(&mut target, object);
            push_str(&mut target, " — ");
            if semantic_declaration_rank(kind) == 1 {
                push_str(&mut target, function_label);
            } else {
                push_str(&mut target, procedure_label);
            }
            push_str(&mut target, ".");
            push_str(&mut target, m);
            match location {
                None => {},
                Some(l) => {
                    push_str(&mut target, " (");
                    push_decimal(&mut target, l.line as u64);
                    push_str(&mut target, ", ");
                    push_decimal(&mut target, l.column as u64);
                    push_str(&mut target, ")");
                },
            }
            target
        },
    }
}

/// One semantic change as reported to people.
pub struct SemanticHumanChange {
    pub object: String,
    pub target: String,
    pub location: Option<SourceLocation>,
    pub kind: SemanticEventKind,
    pub stage: SemanticHumanStage,
}

/// A semantic change as values: object, target, position, kind and stage.
pub type SemanticEntry = (Seq<char>, Seq<char>, Option<SourceLocation>, SemanticEventKind, SemanticHumanStage);

pub open spec fn semantic_entry(c: SemanticHumanChange) -> SemanticEntry {
    (c.object@, c.target@, c.location, c.kind, c.stage)
}

pub open spec fn semantic_entries(v: Seq<SemanticHumanChange>) -> Seq<SemanticEntry> {
    v.map_values(|c: SemanticHumanChange| semantic_entry(c))
}

pub open spec fn triple_less(a: (u8, u8, u8), b: (u8, u8, u8)) -> bool {
    if a.0 != b.0 {
        a.0 < b.0
    } else if a.1 != b.1 {
        a.1 < b.1
    } else {
        a.2 < b.2
    }
}

pub open spec fn pair_less(a: (usize, usize), b: (usize, usize)) -> bool {
    if a.0 != b.0 {
        a.0 < b.0
    } else {
        a.1 < b.1
    }
}

/// Changes are ordered by state, event group and stage, then byte-wise by
/// object, by position in the module, functions after procedures at one
/// position, and byte-wise by target.
pub open spec fn semantic_less(a: SemanticEntry, b: SemanticEntry) -> bool {
    let ka = event_sort_key(a.3, a.4);
    let kb = event_sort_key(b.3, b.4);
    let oa = encode_utf8(a.0);
    let ob = encode_utf8(b.0);
    let la = location_key(a.2);
    let lb = location_key(b.2);
    if ka != kb {
        triple_less(ka, kb)
    } else if oa != ob {
        bytes_less(oa, ob)
    } else if la != lb {
        pair_less(la, lb)
    } else if declaration_rank(a.3) != declaration_rank(b.3) {
        declaration_rank(a.3) < declaration_rank(b.3)
    } else {
        bytes_less(encode_utf8(a.1), encode_utf8(b.1))
    }
}

pub open spec fn semantic_order() -> spec_fn(SemanticEntry, SemanticEntry) -> bool {
    |a: SemanticEntry, b: SemanticEntry| semantic_less(a, b)
}

/// The heading a change is listed under: its event group and its stage.
pub open spec fn semantic_group() -> spec_fn(SemanticEntry) -> (SemanticEventKind, SemanticHumanStage) {
    |e: SemanticEntry| (group_kind(e.3), e.4)
}

/// The translated texts of the semantic subgroup headings.
pub struct SemanticLabels {
    pub object_added: String,
    pub object_removed: String,
    pub object_changed: String,
    pub module_changed: String,
    pub routine_added: String,
    pub routine_removed: String,
    pub routine_changed: String,
    pub form_changed: String,
    pub metadata_attribute_changed: String,
    pub index: String,
    pub worktree: String,
    pub index_and_worktree: String,
    pub revision: String,
}

impl SemanticLabels {
    pub open spec fn group_spec(&self, kind: SemanticEventKind) -> Seq<char> {
        match group_kind(kind) {
            SemanticEventKind::ObjectAdded => self.object_added@,
            SemanticEventKind::ObjectRemoved => self.object_removed@,
            SemanticEventKind::ObjectChanged => self.object_changed@,
            SemanticEventKind::ModuleChanged => self.module_changed@,
            SemanticEventKind::MethodAdded | SemanticEventKind::FunctionAdded => self.routine_added@,
            SemanticEventKind::MethodRemoved | SemanticEventKind::FunctionRemoved => self.routine_removed@,
            SemanticEventKind::MethodChanged | SemanticEventKind::FunctionChanged => self.routine_changed@,
            SemanticEventKind::FormChanged => self.form_changed@,
            SemanticEventKind::MetadataAttributeChanged => self.metadata_attribute_changed@,
        }
    }

    /// The label of the event group of `kind`: procedures and functions share
    /// the routine labels.
    pub fn group(&self, kind: SemanticEventKind) -> (label: &str)
        ensures
            label@ == self.group_spec(kind),
    {
        match semantic_event_group_kind(kind) {
            SemanticEventKind::ObjectAdded => self.object_added.as_str(),
            SemanticEventKind::ObjectRemoved => self.object_removed.as_str(),
            SemanticEventKind::ObjectChanged => self.object_changed.as_str(),
            SemanticEventKind::ModuleChanged => self.module_changed.as_str(),
            SemanticEventKind::MethodAdded | SemanticEventKind::FunctionAdded => self.routine_added.as_str(),
            SemanticEventKind::MethodRemoved | SemanticEventKind::FunctionRemoved => self.routine_removed.as_str(),
            SemanticEventKind::MethodChanged | SemanticEventKind::FunctionChanged => self.routine_changed.as_str(),
            SemanticEventKind::FormChanged => self.form_changed.as_str(),
            SemanticEventKind::MetadataAttributeChanged => self.metadata_attribute_changed.as_str(),
        }
    }

    pub open spec fn stage_spec(&self, stage: SemanticHumanStage) -> Seq<char> {
        match stage {
            SemanticHumanStage::Index => self.index@,
            SemanticHumanStage::Worktree => self.worktree@,
            SemanticHumanStage::IndexAndWorktree => self.index_and_worktree@,
            SemanticHumanStage::Revision => self.revision@,
        }
    }

    /// The label of a comparison edge.
    pub fn stage(&self, stage: SemanticHumanStage) -> (label: &str)
        ensures
            label@ == self.stage_spec(stage),
    {
        match stage {
            SemanticHumanStage::Index => self.index.as_str(),
            SemanticHumanStage::Worktree => self.worktree.as_str(),
            SemanticHumanStage::IndexAndWorktree => self.index_and_worktree.as_str(),
            SemanticHumanStage::Revision => self.revision.as_str(),
        }
    }
}

pub open spec fn semantic_title(group: (SemanticEventKind, SemanticHumanStage), labels: SemanticLabels) -> Seq<char> {
    labels.group_spec(group.0) + " — "@ + labels.stage_spec(group.1)
}

/// The lines of consecutive semantic subgroups: a heading with the event
/// group, the stage and the count, then one line per target.
pub open spec fn semantic_group_lines(s: Seq<SemanticEntry>, labels: SemanticLabels, styled: bool) -> Seq<Seq<char>>
    decreases s.len(),
{
    if s.len() == 0 {
        Seq::empty()
    } else {
        let group = semantic_group()(s[0]);
        let k = run_length(s, semantic_group(), group);
        if 0 < k <= s.len() {
            let change = event_change(group.0);
            seq![style_state_heading_spec(semantic_title(group, labels), k, change, styled)]
                + s.subrange(0, k as int).map_values(|e: SemanticEntry| format_change_spec(e.1, change, styled))
                + semantic_group_lines(s.subrange(k as int, s.len() as int), labels, styled)
        } else {
            Seq::empty()
        }
    }
}

proof fn lemma_semantic_order()
    ensures
        strict_order(semantic_order()),
{
    assert forall|a: SemanticEntry, b: SemanticEntry| #[trigger] semantic_order()(a, b) implies !semantic_order()(b, a) by {
        lemma_bytes_less_asymmetric(encode_utf8(a.0), encode_utf8(b.0));
        lemma_bytes_less_asymmetric(encode_utf8(a.1), encode_utf8(b.1));
    }
    assert forall|a: SemanticEntry, b: SemanticEntry, c: SemanticEntry|
        #![trigger semantic_order()(a, b), semantic_order()(b, c)]
        semantic_order()(a, b) && semantic_order()(b, c) implies semantic_order()(a, c) by {
        let (oa, ob, oc) = (encode_utf8(a.0), encode_utf8(b.0), encode_utf8(c.0));
        let (ta, tb, tc) = (encode_utf8(a.1), encode_utf8(b.1), encode_utf8(c.1));
        lemma_bytes_less_asymmetric(oa, ob);
        lemma_bytes_less_asymmetric(ta, tb);
        if bytes_less(oa, ob) && bytes_less(ob, oc) {
            lemma_bytes_less_transitive(oa, ob, oc);
        }
        if bytes_less(ta, tb) && bytes_less(tb, tc) {
            lemma_bytes_less_transitive(ta, tb, tc);
        }
    }
}

/// The semantic subgroups list every change exactly once, and in order:
/// by state, event group and stage, then object, position, declaration kind
/// and target, whatever order the changes came in.
pub proof fn lemma_semantic_groups_sorted_permutation(s: Seq<SemanticEntry>)
    ensures
        insertion_sorted(s, semantic_order()).to_multiset() == s.to_multiset(),
        sorted_by(insertion_sorted(s, semantic_order()), semantic_order()),
{
    lemma_semantic_order();
    lemma_insertion_sorted(s, semantic_order());
}

fn semantic_precedes(a: &SemanticHumanChange, b: &SemanticHumanChange) -> (r: bool)
    ensures
        r == semantic_less(semantic_entry(*a), semantic_entry(*b)),
{
    let ka = semantic_event_sort_key(a.kind, a.stage);
    let kb = semantic_event_sort_key(b.kind, b.stage);
    if ka.0 != kb.0 {
        return ka.0 < kb.0;
    }
    if ka.1 != kb.1 {
        return ka.1 < kb.1;
    }
    if ka.2 != kb.2 {
        return ka.2 < kb.2;
    }
    let oa = a.object.as_str().as_bytes();
    let ob = b.object.as_str().as_bytes();
    proof {
        lemma_bytes_less_asymmetric(oa@, ob@);
    }
    if slice_less(oa, ob) {
        return true;
    }
    if slice_less(ob, oa) {
        return false;
    }
    proof {
        lemma_bytes_less_total(oa@, ob@);
    }
    let la = location_sort_key(a.location);
    let lb = location_sort_key(b.location);
    if la.0 != lb.0 {
        return la.0 < lb.0;
    }
    if la.1 != lb.1 {
        return la.1 < lb.1;
    }
    let da = semantic_declaration_rank(a.kind);
    let db = semantic_declaration_rank(b.kind);
    if da != db {
        return da < db;
    }
    slice_less(a.target.as_str().as_bytes(), b.target.as_str().as_bytes())
}

fn duplicate_change(c: &SemanticHumanChange) -> (d: SemanticHumanChange)
    ensures
        semantic_entry(d) == semantic_entry(*c),
{
    SemanticHumanChange {
        object: c.object.clone(),
        target: c.target.clone(),
        location: c.location,
        kind: c.kind,
        stage: c.stage,
    }
}

/// Sorts semantic changes by [`semantic_less`], keeping equal changes in their order.
pub fn sort_semantic_changes(changes: &Vec<SemanticHumanChange>) -> (sorted: Vec<SemanticHumanChange>)
    ensures
        semantic_entries(sorted@) == insertion_sorted(semantic_entries(changes@), semantic_order()),
{
    let mut sorted: Vec<SemanticHumanChange> = Vec::new();
    let mut i: usize = 0;
    while i < changes.len()
        invariant
            i <= changes@.len(),
            semantic_entries(sorted@) == insertion_sorted(semantic_entries(changes@).subrange(0, i as int), semantic_order()),
        decreases changes.len() - i,
    {
        let change = duplicate_change(&changes[i]);
        let ghost x = semantic_entry(change);
        let ghost before = semantic_entries(sorted@);
        proof {
            lemma_insertion_position(before, x, semantic_order());
        }
        let mut p: usize = 0;
        while p < sorted.len() && !semantic_precedes(&change, &sorted[p])
            invariant
                p <= sorted@.len(),
                before == semantic_entries(sorted@),
                x == semantic_entry(change),
                forall|j: int| 0 <= j < p ==> !semantic_less(x, #[trigger] before[j]),
            decreases sorted.len() - p,
        {
            p = p + 1;
        }
        assert(p == insertion_position(before, x, semantic_order())) by {
            let q = insertion_position(before, x, semantic_order());
            if p < q {
                assert(!semantic_less(x, before[p as int]));
            } else if q < p {
                assert(semantic_less(x, before[q]));
            }
        }
        sorted.insert(p, change);
        proof {
            let prefix = semantic_entries(changes@).subrange(0, i + 1);
            assert(prefix.drop_last() =~= semantic_entries(changes@).subrange(0, i as int));
            assert(prefix.last() == x);
            assert(semantic_entries(sorted@) =~= before.insert(p as int, x));
        }
        i = i + 1;
    }
    proof {
        assert(semantic_entries(changes@).subrange(0, changes@.len() as int) =~= semantic_entries(changes@));
    }
    sorted
}

/// Appends the semantic subgroups of `changes` to `lines`, with the same
/// headings, counts, markers and colors as the file-level report.
pub fn append_semantic_event_groups(
    lines: &mut Vec<String>,
    changes: Vec<SemanticHumanChange>,
    labels: &SemanticLabels,
    styled: bool,
)
    ensures
        final(lines)@.map_values(|l: String| l@) == old(lines)@.map_values(|l: String| l@)
            + semantic_group_lines(insertion_sorted(semantic_entries(changes@), semantic_order()), *labels, styled),
{
    let sorted = sort_semantic_changes(&changes);
    let ghost all = semantic_entries(sorted@);
    let ghost start_lines = old(lines)@.map_values(|l: String| l@);
    let n = sorted.len();
    let mut start: usize = 0;
    assert(all.subrange(0, n as int) =~= all);
    while start < n
        invariant
            n == sorted@.len() == all.len(),
            all == semantic_entries(sorted@),
            start <= n,
            lines@.map_values(|l: String| l@) + semantic_group_lines(all.subrange(start as int, n as int), *labels, styled)
                == start_lines + semantic_group_lines(all, *labels, styled),
        decreases n - start,
    {
        let kind = semantic_event_group_kind(sorted[start].kind);
        let stage = sorted[start].stage;
        let ghost group = (kind, stage);
        let ghost rest = all.subrange(start as int, n as int);
        proof {
            lemma_run_length(rest, semantic_group(), group);
            assert(rest[0] == all[start as int]);
        }
        let mut end = start + 1;
        while end < n && semantic_event_group_kind(sorted[end].kind) == kind && sorted[end].stage == stage
            invariant
                start < end <= n == sorted@.len() == all.len(),
                all == semantic_entries(sorted@),
                group == (kind, stage),
                forall|j: int| start <= j < end ==> semantic_group()(#[trigger] all[j]) == group,
            decreases n - end,
        {
            end = end + 1;
        }
        let ghost k = (end - start) as nat;
        assert(run_length(rest, semantic_group(), group) == k) by {
            let r = run_length(rest, semantic_group(), group);
            if r < k {
                assert(rest[r as int] == all[start + r]);
                assert(semantic_group()(all[start + r]) == group);
            } else if r > k {
                assert(rest[k as int] == all[end as int]);
                assert(semantic_group()(rest[k as int]) == group);
            }
        }
        let change = semantic_event_change(kind);
        let mut title = String::new();
        push_str(&mut title, labels.group(kind));
        push_str(&mut title, " — ");
        push_str(&mut title, labels.stage(stage));
        proof {
            assert(group_kind(kind) == kind);
            assert(title@ == semantic_title(group, *labels));
        }
        let ghost before = lines@.map_values(|l: String| l@);
        lines.push(style_state_heading(title.as_str(), end - start, change, styled));
        let mut j = start;
        while j < end
            invariant
                start <= j <= end <= n == sorted@.len() == all.len(),
                all == semantic_entries(sorted@),
                lines@.map_values(|l: String| l@) == before + seq![style_state_heading_spec(semantic_title(group, *labels), k, change, styled)]
                    + all.subrange(start as int, j as int).map_values(|e: SemanticEntry| format_change_spec(e.1, change, styled)),
            decreases end - j,
        {
            let line = format_change(sorted[j].target.as_str(), change, styled);
            let ghost prev = lines@.map_values(|l: String| l@);
            let ghost text = line@;
            lines.push(line);
            proof {
                assert(lines@.map_values(|l: String| l@) =~= prev.push(text));
                let seg = all.subrange(start as int, j as int);
                assert(all.subrange(start as int, j + 1) =~= seg.push(all[j as int]));
                assert(seg.push(all[j as int]).map_values(|e: SemanticEntry| format_change_spec(e.1, change, styled))
                    =~= seg.map_values(|e: SemanticEntry| format_change_spec(e.1, change, styled)).push(
                    format_change_spec(all[j as int].1, change, styled)));
                assert(all[j as int].1 == sorted@[j as int].target@);
            }
            j = j + 1;
        }
        proof {
            assert(rest.subrange(0, k as int) =~= all.subrange(start as int, end as int));
            assert(rest.subrange(k as int, rest.len() as int) =~= all.subrange(end as int, n as int));
        }
        start = end;
    }
}

/// One semantic event as the report reads it: the metadata group of its
/// object, the object's shown name, the target, the kind, the position in
/// the module and the comparison edge it was seen on.
pub struct SemanticEventRow {
    pub group: String,
    pub object: String,
    pub target: String,
    pub kind: SemanticEventKind,
    pub location: Option<SourceLocation>,
    pub stage: ChangeStage,
}

/// What makes two events the same change: group, object, target, kind and position.
pub type EventKey = (Seq<char>, Seq<char>, Seq<char>, SemanticEventKind, Option<SourceLocation>);

pub open spec fn row_key(r: SemanticEventRow) -> EventKey {
    (r.group@, r.object@, r.target@, r.kind, r.location)
}

pub open spec fn merged_stage(current: SemanticHumanStage, stage: ChangeStage) -> SemanticHumanStage {
    if (current == SemanticHumanStage::Index && stage == ChangeStage::Worktree) || (current
        == SemanticHumanStage::Worktree && stage == ChangeStage::Index) {
        SemanticHumanStage::IndexAndWorktree
    } else {
        current
    }
}

pub open spec fn initial_stage(stage: ChangeStage) -> SemanticHumanStage {
    match stage {
        ChangeStage::Index => SemanticHumanStage::Index,
        ChangeStage::Worktree => SemanticHumanStage::Worktree,
        ChangeStage::Revision => SemanticHumanStage::Revision,
    }
}

/// The index of the change with key `k`, if there is one.
pub open spec fn key_position(changes: Seq<(EventKey, SemanticHumanStage)>, k: EventKey) -> Option<int> {
    if exists|i: int| 0 <= i < changes.len() && changes[i].0 == k {
        Some(choose|i: int| 0 <= i < changes.len() && changes[i].0 == k)
    } else {
        None
    }
}

/// The changes that the events amount to, in the order their keys first
/// appear: each event either is a new change, or is the same change as an
/// earlier one, whose stage then takes it in.
pub open spec fn aggregate_spec(rows: Seq<SemanticEventRow>) -> Seq<(EventKey, SemanticHumanStage)>
    decreases rows.len(),
{
    if rows.len() == 0 {
        Seq::empty()
    } else {
        let earlier = aggregate_spec(rows.drop_last());
        let row = rows.last();
        match key_position(earlier, row_key(row)) {
            Some(i) => earlier.update(i, (row_key(row), merged_stage(earlier[i].1, row.stage))),
            None => earlier.push((row_key(row), initial_stage(row.stage))),
        }
    }
}

pub open spec fn grouped_view(e: (String, SemanticHumanChange)) -> (EventKey, SemanticHumanStage) {
    ((e.0@, e.1.object@, e.1.target@, e.1.kind, e.1.location), e.1.stage)
}

pub open spec fn grouped_views(v: Seq<(String, SemanticHumanChange)>) -> Seq<(EventKey, SemanticHumanStage)> {
    v.map_values(|e: (String, SemanticHumanChange)| grouped_view(e))
}

/// Whether one of the changes has key `k`.
pub open spec fn has_key(changes: Seq<(EventKey, SemanticHumanStage)>, k: EventKey) -> bool {
    exists|i: int| 0 <= i < changes.len() && #[trigger] changes[i].0 == k
}

/// Whether one of the events has key `k`.
pub open spec fn some_row_has(rows: Seq<SemanticEventRow>, k: EventKey) -> bool {
    exists|r: int| 0 <= r < rows.len() && #[trigger] row_key(rows[r]) == k
}

pub open spec fn keys_distinct(changes: Seq<(EventKey, SemanticHumanStage)>) -> bool {
    forall|i: int, j: int| 0 <= i < j < changes.len() ==> changes[i].0 != changes[j].0
}

proof fn lemma_aggregate_distinct(rows: Seq<SemanticEventRow>)
    ensures
        keys_distinct(aggregate_spec(rows)),
        forall|k: EventKey| #[trigger] has_key(aggregate_spec(rows), k) <==> some_row_has(rows, k),
    decreases rows.len(),
{
    if rows.len() > 0 {
        let earlier_rows = rows.drop_last();
        lemma_aggregate_distinct(earlier_rows);
        let earlier = aggregate_spec(earlier_rows);
        let row = rows.last();
        let now = aggregate_spec(rows);
        assert forall|k: EventKey| #[trigger] has_key(now, k) <==> some_row_has(rows, k) by {
            if has_key(now, k) {
                let i = choose|i: int| 0 <= i < now.len() && now[i].0 == k;
                if k == row_key(row) {
                    assert(row_key(rows[rows.len() - 1]) == k);
                } else {
                    assert(i < earlier.len() && earlier[i].0 == k);
                    assert(has_key(earlier, k));
                    assert(some_row_has(earlier_rows, k));
                    let r = choose|r: int| 0 <= r < earlier_rows.len() && row_key(earlier_rows[r]) == k;
                    assert(rows[r] == earlier_rows[r]);
                    assert(row_key(rows[r]) == k);
                }
            }
            if some_row_has(rows, k) {
                let r = choose|r: int| 0 <= r < rows.len() && row_key(rows[r]) == k;
                if r == rows.len() - 1 {
                    match key_position(earlier, row_key(row)) {
                        Some(i) => {
                            assert(now[i].0 == k);
                        },
                        None => {
                            assert(now[now.len() - 1].0 == k);
                        },
                    }
                    assert(has_key(now, k));
                } else {
                    assert(earlier_rows[r] == rows[r]);
                    assert(row_key(earlier_rows[r]) == k);
                    assert(some_row_has(earlier_rows, k));
                    assert(has_key(earlier, k));
                    let i = choose|i: int| 0 <= i < earlier.len() && earlier[i].0 == k;
                    match key_position(earlier, row_key(row)) {
                        Some(p) => {
                            if p == i {
                                assert(now[i].0 == row_key(row));
                            } else {
                                assert(now[i] == earlier[i]);
                            }
                        },
                        None => {
                            assert(now[i] == earlier[i]);
                        },
                    }
                    assert(has_key(now, k));
                }
            }
        }
    }
}

fn same_location(a: Option<SourceLocation>, b: Option<SourceLocation>) -> (r: bool)
    ensures
        r == (a == b),
{
    match (a, b) {
        (Some(x), Some(y)) => x.line == y.line && x.column == y.column,
        (None, None) => true,
        _ => false,
    }
}

/// The index of the change that `row` is a further sighting of, if any.
fn find_change(changes: &Vec<(String, SemanticHumanChange)>, row: &SemanticEventRow) -> (r: Option<usize>)
    ensures
        match r {
            Some(j) => j < changes@.len() && grouped_view(changes@[j as int]).0 == row_key(*row),
            None => forall|m: int| 0 <= m < changes@.len() ==> grouped_view(changes@[m]).0 != row_key(*row),
        },
{
    let mut j: usize = 0;
    while j < changes.len()
        invariant
            j <= changes@.len(),
            forall|m: int| 0 <= m < j ==> grouped_view(changes@[m]).0 != row_key(*row),
        decreases changes.len() - j,
    {
        let entry = &changes[j];
        if str_eq(entry.0.as_str(), row.group.as_str()) && str_eq(entry.1.object.as_str(), row.object.as_str())
            && str_eq(entry.1.target.as_str(), row.target.as_str()) && entry.1.kind == row.kind && same_location(
            entry.1.location,
            row.location,
        ) {
            return Some(j);
        }
        j = j + 1;
    }
    None
}

/// The semantic changes of a report: events that are the same change are
/// counted once, and a change seen both in the index and in the working
/// tree is reported as seen in both. Each change comes with the metadata
/// group of its object.
pub fn aggregate_semantic_events(rows: &Vec<SemanticEventRow>) -> (changes: Vec<(String, SemanticHumanChange)>)
    ensures
        grouped_views(changes@) == aggregate_spec(rows@),
        keys_distinct(grouped_views(changes@)),
{
    let mut changes: Vec<(String, SemanticHumanChange)> = Vec::new();
    let mut i: usize = 0;
    while i < rows.len()
        invariant
            i <= rows@.len(),
            grouped_views(changes@) == aggregate_spec(rows@.subrange(0, i as int)),
        decreases rows.len() - i,
    {
        let row = &rows[i];
        proof {
            lemma_aggregate_distinct(rows@.subrange(0, i as int));
        }
        let ghost earlier = aggregate_spec(rows@.subrange(0, i as int));
        let ghost key = row_key(*row);
        let found = find_change(&changes, row);
        proof {
            assert(rows@.subrange(0, i + 1).drop_last() =~= rows@.subrange(0, i as int));
            assert(rows@.subrange(0, i + 1).last() == rows@[i as int]);
        }
        match found {
            Some(at) => {
                proof {
                    assert(earlier[at as int].0 == key);
                    assert(has_key(earlier, key));
                    let c = choose|c: int| 0 <= c < earlier.len() && earlier[c].0 == key;
                    assert(c == at) by {
                        if c < at {
                            assert(earlier[c].0 != earlier[at as int].0);
                        } else if at < c {
                            assert(earlier[at as int].0 != earlier[c].0);
                        }
                    }
                    assert(key_position(earlier, key) == Some(at as int));
                }
                let entry = &changes[at];
                let mut stage = entry.1.stage;
                stage.merge(row.stage);
                let updated = (
                    entry.0.clone(),
                    SemanticHumanChange {
                        object: entry.1.object.clone(),
                        target: entry.1.target.clone(),
                        location: entry.1.location,
                        kind: entry.1.kind,
                        stage,
                    },
                );
                changes.set(at, updated);
                proof {
                    assert(grouped_views(changes@) =~= earlier.update(at as int, (key, merged_stage(earlier[at as int].1, row.stage))));
                }
            },
            None => {
                proof {
                    assert(!has_key(earlier, key));
                    assert(key_position(earlier, key) is None);
                }
                let change = SemanticHumanChange {
                    object: row.object.clone(),
                    target: row.target.clone(),
                    location: row.location,
                    kind: row.kind,
                    stage: SemanticHumanStage::from_stage(row.stage),
                };
                changes.push((row.group.clone(), change));
                proof {
                    assert(grouped_views(changes@) =~= earlier.push((key, initial_stage(row.stage))));
                }
            },
        }
        i = i + 1;
    }
    assert(rows@.subrange(0, rows@.len() as int) =~= rows@);
    proof {
        lemma_aggregate_distinct(rows@);
    }
    changes
}

/// A report lists every change once: the changes that events amount to
/// have distinct keys, and a key is among them exactly when some event has it.
pub proof fn lemma_aggregate_counts_each_change_once(rows: Seq<SemanticEventRow>)
    ensures
        keys_distinct(aggregate_spec(rows)),
        forall|k: EventKey| #[trigger] has_key(aggregate_spec(rows), k) <==> some_row_has(rows, k),
{
    lemma_aggregate_distinct(rows);
}

} // verus!
