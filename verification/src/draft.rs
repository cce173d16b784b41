//! Drafts of commit messages for saved changes: a Conventional Commit title
//! and one line per semantic change or uncovered file, each line once, in
//! byte order.

use vstd::prelude::*;
use vstd::string::*;
use vstd::utf8::*;
use crate::changes::{first_separator, semantic_object_group};
use crate::commands::{draft_text, without_isolation_marks};
use crate::report::{join_lines, joined};
use crate::rpc::str_eq;
use crate::sorting::{
    insertion_position, insertion_unique, lemma_insertion_position, lemma_insertion_unique,
    lemma_strictly_sorted_unique, strict_order, strictly_sorted_by, total_order,
};
use crate::text::{
    bytes_eq, bytes_less, lemma_bytes_less_asymmetric, lemma_bytes_less_total, lemma_bytes_less_transitive,
    push_str, slice_less, views,
};

verus! {

/// A semantic change as a draft names it.
pub struct DraftEvent {
    /// The stable identity of the changed object.
    pub object: String,
    /// The object as people read it.
    pub object_label: String,
    /// The translated name of the kind of change.
    pub kind_label: String,
    /// The changed member, if any.
    pub member: Option<String>,
    /// The file in which the change was found.
    pub path: Vec<u8>,
    /// The translated subject that names this object alone.
    pub subject: String,
}

/// A changed file as a draft lists it.
pub struct DraftFile {
    pub path: Vec<u8>,
    /// The translated line that names the file.
    pub line: String,
}

/// The changes of one project of a workspace.
pub struct DraftProject {
    pub name: String,
    pub events: Vec<DraftEvent>,
    /// Files whose semantic analysis fell back to a file-level change.
    pub fallback_paths: Vec<Vec<u8>>,
    pub files: Vec<DraftFile>,
}

/// The translated subjects of a draft that does not name a single object.
pub struct DraftTexts {
    /// When no object changed.
    pub subject_files: String,
    /// When several objects changed.
    pub subject_objects: String,
}

/// Lines are ordered byte-wise by their UTF-8 encoding, as `String` orders them.
pub open spec fn text_less(a: Seq<char>, b: Seq<char>) -> bool {
    bytes_less(encode_utf8(a), encode_utf8(b))
}

pub open spec fn text_order() -> spec_fn(Seq<char>, Seq<char>) -> bool {
    |a: Seq<char>, b: Seq<char>| text_less(a, b)
}

/// The byte-wise order of text is a strict total order.
pub proof fn lemma_text_order()
    ensures
        strict_order(text_order()),
        total_order(text_order()),
{
    broadcast use encode_utf8_decode_utf8;

    assert forall|a: Seq<char>, b: Seq<char>| #[trigger] text_order()(a, b) implies !text_order()(b, a) by {
        lemma_bytes_less_asymmetric(encode_utf8(a), encode_utf8(b));
    }
    assert forall|a: Seq<char>, b: Seq<char>, c: Seq<char>| #![trigger text_order()(a, b), text_order()(b, c)]
        text_order()(a, b) && text_order()(b, c) implies text_order()(a, c) by {
        lemma_bytes_less_transitive(encode_utf8(a), encode_utf8(b), encode_utf8(c));
    }
    assert forall|a: Seq<char>, b: Seq<char>| a != b implies #[trigger] text_order()(a, b) || text_order()(b, a) by {
        assert(decode_utf8(encode_utf8(a)) == a);
        assert(decode_utf8(encode_utf8(b)) == b);
        lemma_bytes_less_total(encode_utf8(a), encode_utf8(b));
    }
}

/// The lines of `s` each once and in byte order, as a set of strings holds them.
pub open spec fn sorted_lines(s: Seq<Seq<char>>) -> Seq<Seq<char>> {
    insertion_unique(s, text_order())
}

/// The detail lines of a draft hold every line given, once each, strictly
/// in byte order.
pub proof fn lemma_sorted_lines(s: Seq<Seq<char>>)
    ensures
        sorted_lines(s).to_set() == s.to_set(),
        strictly_sorted_by(sorted_lines(s), text_order()),
{
    lemma_text_order();
    lemma_insertion_unique(s, text_order());
}

/// A draft does not depend on the order in which its lines come: the same
/// lines, in any order and with any repeats, give the same details.
pub proof fn lemma_sorted_lines_order_free(a: Seq<Seq<char>>, b: Seq<Seq<char>>)
    requires
        a.to_set() == b.to_set(),
    ensures
        sorted_lines(a) == sorted_lines(b),
{
    lemma_sorted_lines(a);
    lemma_sorted_lines(b);
    lemma_text_order();
    lemma_strictly_sorted_unique(sorted_lines(a), sorted_lines(b), text_order());
}

/// Adds a line to lines kept as an ordered set.
fn insert_line(lines: &mut Vec<String>, line: String)
    ensures
        views(final(lines)@) == if views(old(lines)@).contains(line@) {
            views(old(lines)@)
        } else {
            views(old(lines)@).insert(insertion_position(views(old(lines)@), line@, text_order()), line@)
        },
{
    let ghost before = views(lines@);
    let mut k: usize = 0;
    while k < lines.len()
        invariant
            k <= lines@.len(),
            before == views(lines@),
            forall|j: int| 0 <= j < k ==> #[trigger] before[j] != line@,
        decreases lines.len() - k,
    {
        if str_eq(lines[k].as_str(), line.as_str()) {
            assert(before[k as int] == line@);
            return;
        }
        k = k + 1;
    }
    assert(!before.contains(line@));
    proof {
        lemma_insertion_position(before, line@, text_order());
    }
    let mut p: usize = 0;
    while p < lines.len() && !slice_less(line.as_str().as_bytes(), lines[p].as_str().as_bytes())
        invariant
            p <= lines@.len(),
            before == views(lines@),
            forall|j: int| 0 <= j < p ==> !text_less(line@, #[trigger] before[j]),
        decreases lines.len() - p,
    {
        p = p + 1;
    }
    assert(p == insertion_position(before, line@, text_order())) by {
        let q = insertion_position(before, line@, text_order());
        if p < q {
            assert(!text_less(line@, before[p as int]));
        } else if q < p {
            assert(text_less(line@, before[q]));
        }
    }
    let ghost x = line@;
    lines.insert(p, line);
    assert(views(lines@) =~= before.insert(p as int, x));
}

/// The changed objects a draft may name: project, object identity and the
/// subject that names the object alone.
pub type DraftKey = (Seq<char>, Seq<char>, Seq<char>);

pub open spec fn key_views(keys: Seq<(&str, &str, &str)>) -> Seq<DraftKey> {
    keys.map_values(|k: (&str, &str, &str)| (k.0@, k.1@, k.2@))
}

/// The metadata group of an object identity: its text before the first `:` or `/`.
pub open spec fn group_of(id: Seq<char>) -> Seq<char> {
    id.subrange(0, first_separator(id))
}

/// Two changes name the same object of the same project.
pub open spec fn same_object(a: DraftKey, b: DraftKey) -> bool {
    a.0 == b.0 && a.1 == b.1
}

/// Exactly one object (of one project) changed.
pub open spec fn one_object(keys: Seq<DraftKey>) -> bool {
    keys.len() > 0 && forall|i: int| 0 <= i < keys.len() ==> same_object(#[trigger] keys[i], keys[0])
}

/// All changed objects belong to one metadata group.
pub open spec fn one_scope(keys: Seq<DraftKey>) -> bool {
    keys.len() > 0 && forall|i: int| 0 <= i < keys.len() ==> group_of(#[trigger] keys[i].1) == group_of(keys[0].1)
}

/// The title: `feat` when objects changed and `chore` otherwise, the group in
/// parentheses when all changed objects share one, and a subject that names
/// the object when exactly one changed.
pub open spec fn draft_title(keys: Seq<DraftKey>, texts: DraftTexts) -> Seq<char> {
    (if keys.len() == 0 {
        "chore"@
    } else {
        "feat"@
    }) + (if one_scope(keys) {
        "("@ + group_of(keys[0].1) + ")"@
    } else {
        Seq::empty()
    }) + ": "@ + if one_object(keys) {
        without_isolation_marks(keys[0].2)
    } else if keys.len() == 0 {
        texts.subject_files@
    } else {
        texts.subject_objects@
    }
}

fn title_of(keys: &Vec<(&str, &str, &str)>, texts: &DraftTexts) -> (title: String)
    ensures
        title@ == draft_title(key_views(keys@), *texts),
{
    let ghost k = key_views(keys@);
    let n = keys.len();
    let mut one = n > 0;
    let mut scoped = n > 0;
    if n > 0 {
        let first = keys[0];
        let first_group = semantic_object_group(first.1);
        let mut i: usize = 1;
        while i < n
            invariant
                n == keys@.len() == k.len(),
                k == key_views(keys@),
                1 <= i <= n,
                first == keys@[0],
                first_group@ == group_of(first.1@),
                one == forall|j: int| 0 <= j < i ==> same_object(#[trigger] k[j], k[0]),
                scoped == forall|j: int| 0 <= j < i ==> group_of(#[trigger] k[j].1) == group_of(k[0].1),
            decreases n - i,
        {
            let key = keys[i];
            assert(k[i as int] == (key.0@, key.1@, key.2@));
            assert(k[0] == (first.0@, first.1@, first.2@));
            let same = str_eq(key.0, first.0) && str_eq(key.1, first.1);
            if !same {
                one = false;
            }
            let same_group = str_eq(semantic_object_group(key.1), first_group);
            if !same_group {
                scoped = false;
            }
            proof {
                assert(one == forall|j: int| 0 <= j < i + 1 ==> same_object(#[trigger] k[j], k[0])) by {
                    if !same {
                        assert(!same_object(k[i as int], k[0]));
                    }
                }
                assert(scoped == forall|j: int| 0 <= j < i + 1 ==> group_of(#[trigger] k[j].1) == group_of(k[0].1)) by {
                    if !same_group {
                        assert(group_of(k[i as int].1) != group_of(k[0].1));
                    }
                }
            }
            i = i + 1;
        }
    }
    let mut title = String::new();
    push_str(&mut title, if n == 0 { "chore" } else { "feat" });
    if scoped {
        push_str(&mut title, "(");
        push_str(&mut title, semantic_object_group(keys[0].1));
        push_str(&mut title, ")");
    }
    push_str(&mut title, ": ");
    if one {
        let subject = draft_text(keys[0].2);
        push_str(&mut title, subject.as_str());
    } else if n == 0 {
        push_str(&mut title, texts.subject_files.as_str());
    } else {
        push_str(&mut title, texts.subject_objects.as_str());
    }
    title
}

/// The line of one semantic change: its kind, the object, the member if any
/// and, in a workspace, the project.
pub open spec fn event_line(e: DraftEvent, project: Option<Seq<char>>) -> Seq<char> {
    "- "@ + e.kind_label@ + ": "@ + e.object_label@ + (match e.member {
        Some(m) => " — "@ + m@,
        None => Seq::empty(),
    }) + (match project {
        Some(p) => " — "@ + p,
        None => Seq::empty(),
    }) + "."@
}

fn event_line_of(e: &DraftEvent, project: Option<&str>) -> (line: String)
    ensures
        line@ == event_line(
            *e,
            match project {
                Some(p) => Some(p@),
                None => None,
            },
        ),
{
    let mut line = String::new();
    push_str(&mut line, "- ");
    push_str(&mut line, e.kind_label.as_str());
    push_str(&mut line, ": ");
    push_str(&mut line, e.object_label.as_str());
    match &e.member {
        Some(m) => {
            push_str(&mut line, " — ");
            push_str(&mut line, m.as_str());
        },
        None => {},
    }
    match project {
        Some(p) => {
            push_str(&mut line, " — ");
            push_str(&mut line, p);
        },
        None => {},
    }
    push_str(&mut line, ".");
    line
}

pub open spec fn paths_view(paths: Seq<Vec<u8>>) -> Seq<Seq<u8>> {
    paths.map_values(|p: Vec<u8>| p@)
}

/// A file is covered by a semantic change found in it, unless the analysis
/// of that file fell back to a file-level change.
pub open spec fn covered(events: Seq<DraftEvent>, fallbacks: Seq<Seq<u8>>, path: Seq<u8>) -> bool {
    exists|i: int| 0 <= i < events.len() && #[trigger] events[i].path@ == path && !fallbacks.contains(events[i].path@)
}

fn contains_path(paths: &Vec<Vec<u8>>, path: &[u8]) -> (r: bool)
    ensures
        r == paths_view(paths@).contains(path@),
{
    let ghost v = paths_view(paths@);
    let mut i: usize = 0;
    while i < paths.len()
        invariant
            i <= paths@.len(),
            v == paths_view(paths@),
            forall|j: int| 0 <= j < i ==> #[trigger] v[j] != path@,
        decreases paths.len() - i,
    {
        if bytes_eq(paths[i].as_slice(), path) {
            assert(v[i as int] == path@);
            return true;
        }
        i = i + 1;
    }
    false
}

fn is_covered(events: &Vec<DraftEvent>, fallbacks: &Vec<Vec<u8>>, path: &[u8]) -> (r: bool)
    ensures
        r == covered(events@, paths_view(fallbacks@), path@),
{
    let mut i: usize = 0;
    while i < events.len()
        invariant
            i <= events@.len(),
            forall|j: int| 0 <= j < i ==> !(#[trigger] events@[j].path@ == path@ && !paths_view(fallbacks@).contains(events@[j].path@)),
        decreases events.len() - i,
    {
        if bytes_eq(events[i].path.as_slice(), path) && !contains_path(fallbacks, events[i].path.as_slice()) {
            return true;
        }
        i = i + 1;
    }
    false
}

pub open spec fn event_lines(events: Seq<DraftEvent>, project: Option<Seq<char>>) -> Seq<Seq<char>> {
    events.map_values(|e: DraftEvent| event_line(e, project))
}

/// The lines of the files that no semantic change covers.
pub open spec fn file_lines(files: Seq<DraftFile>, events: Seq<DraftEvent>, fallbacks: Seq<Seq<u8>>) -> Seq<Seq<char>>
    decreases files.len(),
{
    if files.len() == 0 {
        Seq::empty()
    } else {
        file_lines(files.drop_last(), events, fallbacks) + if covered(events, fallbacks, files.last().path@) {
            Seq::<Seq<char>>::empty()
        } else {
            seq![without_isolation_marks(files.last().line@)]
        }
    }
}

proof fn lemma_sorted_lines_push(s: Seq<Seq<char>>, x: Seq<char>)
    ensures
        sorted_lines(s.push(x)) == if sorted_lines(s).contains(x) {
            sorted_lines(s)
        } else {
            sorted_lines(s).insert(insertion_position(sorted_lines(s), x, text_order()), x)
        },
{
    assert(s.push(x).drop_last() =~= s);
}

/// Adds the lines of `events` to the ordered set `details`.
fn add_event_lines(details: &mut Vec<String>, events: &Vec<DraftEvent>, project: Option<&str>, Ghost(added): Ghost<Seq<Seq<char>>>)
    requires
        views(old(details)@) == sorted_lines(added),
    ensures
        views(final(details)@) == sorted_lines(added + event_lines(events@, match project {
            Some(p) => Some(p@),
            None => None,
        })),
{
    let ghost p = match project {
        Some(p) => Some(p@),
        None => None,
    };
    let mut i: usize = 0;
    while i < events.len()
        invariant
            i <= events@.len(),
            p == match project {
                Some(q) => Some(q@),
                None => None,
            },
            views(details@) == sorted_lines(added + event_lines(events@.subrange(0, i as int), p)),
        decreases events.len() - i,
    {
        let line = event_line_of(&events[i], project);
        let ghost before = added + event_lines(events@.subrange(0, i as int), p);
        proof {
            lemma_sorted_lines_push(before, line@);
            assert(added + event_lines(events@.subrange(0, i + 1), p) =~= before.push(line@));
        }
        insert_line(details, line);
        i = i + 1;
    }
    assert(events@.subrange(0, events@.len() as int) =~= events@);
}

/// Adds the lines of the files that no semantic change covers.
fn add_file_lines(
    details: &mut Vec<String>,
    files: &Vec<DraftFile>,
    events: &Vec<DraftEvent>,
    fallbacks: &Vec<Vec<u8>>,
    Ghost(added): Ghost<Seq<Seq<char>>>,
)
    requires
        views(old(details)@) == sorted_lines(added),
    ensures
        views(final(details)@) == sorted_lines(added + file_lines(files@, events@, paths_view(fallbacks@))),
{
    let ghost f = paths_view(fallbacks@);
    let mut i: usize = 0;
    while i < files.len()
        invariant
            i <= files@.len(),
            f == paths_view(fallbacks@),
            views(details@) == sorted_lines(added + file_lines(files@.subrange(0, i as int), events@, f)),
        decreases files.len() - i,
    {
        let ghost before = added + file_lines(files@.subrange(0, i as int), events@, f);
        proof {
            assert(files@.subrange(0, i + 1).drop_last() =~= files@.subrange(0, i as int));
        }
        if !is_covered(events, fallbacks, files[i].path.as_slice()) {
            let line = draft_text(files[i].line.as_str());
            proof {
                lemma_sorted_lines_push(before, line@);
                assert(added + file_lines(files@.subrange(0, i + 1), events@, f) =~= before.push(line@));
            }
            insert_line(details, line);
        } else {
            assert(added + file_lines(files@.subrange(0, i + 1), events@, f) =~= before);
        }
        i = i + 1;
    }
    assert(files@.subrange(0, files@.len() as int) =~= files@);
}

fn finish_draft(title: String, details: Vec<String>) -> (text: String)
    ensures
        text@ == joined(seq![title@, Seq::empty()] + views(details@), "\n"@),
{
    let mut details = details;
    let ghost tail = views(details@);
    let ghost t = title@;
    let mut lines: Vec<String> = Vec::new();
    lines.push(title);
    lines.push(String::new());
    let ghost head = views(lines@);
    assert(head =~= seq![t, Seq::empty()]);
    lines.append(&mut details);
    assert(views(lines@) =~= head + tail);
    join_lines(&lines, "\n")
}

pub open spec fn event_keys(events: Seq<DraftEvent>, project: Seq<char>) -> Seq<DraftKey> {
    events.map_values(|e: DraftEvent| (project, e.object@, e.subject@))
}

/// The draft of one project: the title, an empty line, then every distinct
/// change line and uncovered file line in byte order.
pub open spec fn draft_spec(events: Seq<DraftEvent>, fallbacks: Seq<Seq<u8>>, files: Seq<DraftFile>, texts: DraftTexts) -> Seq<char> {
    joined(
        seq![draft_title(event_keys(events, Seq::empty()), texts), Seq::empty()] + sorted_lines(
            event_lines(events, None) + file_lines(files, events, fallbacks),
        ),
        "\n"@,
    )
}

/// Drafts the commit message of one project from its semantic changes and
/// changed files.
pub fn render_draft(events: &Vec<DraftEvent>, fallback_paths: &Vec<Vec<u8>>, files: &Vec<DraftFile>, texts: &DraftTexts) -> (draft: String)
    ensures
        draft@ == draft_spec(events@, paths_view(fallback_paths@), files@, *texts),
{
    let mut keys: Vec<(&str, &str, &str)> = Vec::new();
    let mut i: usize = 0;
    while i < events.len()
        invariant
            i <= events@.len(),
            key_views(keys@) == event_keys(events@.subrange(0, i as int), Seq::empty()),
        decreases events.len() - i,
    {
        let ghost prev = keys@;
        let key: (&str, &str, &str) = ("", events[i].object.as_str(), events[i].subject.as_str());
        keys.push(key);
        proof {
            reveal_strlit("");
            assert(key.0@ =~= Seq::<char>::empty());
            assert(keys@ == prev.push(key));
            assert(key_views(keys@) =~= key_views(prev).push((key.0@, key.1@, key.2@)));
            assert(events@.subrange(0, i + 1) =~= events@.subrange(0, i as int).push(events@[i as int]));
            assert(event_keys(events@.subrange(0, i + 1), Seq::empty()) =~= event_keys(events@.subrange(0, i as int), Seq::empty()).push(
                (Seq::empty(), events@[i as int].object@, events@[i as int].subject@)));
        }
        i = i + 1;
    }
    assert(events@.subrange(0, events@.len() as int) =~= events@);
    let title = title_of(&keys, texts);
    let mut details: Vec<String> = Vec::new();
    assert(views(details@) =~= sorted_lines(Seq::empty()));
    add_event_lines(&mut details, events, None, Ghost(Seq::empty()));
    let ghost after_events = Seq::<Seq<char>>::empty() + event_lines(events@, None);
    add_file_lines(&mut details, files, events, fallback_paths, Ghost(after_events));
    assert(after_events + file_lines(files@, events@, paths_view(fallback_paths@)) =~= event_lines(events@, None)
        + file_lines(files@, events@, paths_view(fallback_paths@)));
    finish_draft(title, details)
}

/// The changed objects of all projects, project by project.
pub open spec fn workspace_keys(projects: Seq<DraftProject>) -> Seq<DraftKey>
    decreases projects.len(),
{
    if projects.len() == 0 {
        Seq::empty()
    } else {
        workspace_keys(projects.drop_last()) + event_keys(projects.last().events@, projects.last().name@)
    }
}

/// The change and file lines of all projects, each change line naming its project.
pub open spec fn project_lines(projects: Seq<DraftProject>) -> Seq<Seq<char>>
    decreases projects.len(),
{
    if projects.len() == 0 {
        Seq::empty()
    } else {
        let p = projects.last();
        project_lines(projects.drop_last()) + event_lines(p.events@, Some(p.name@)) + file_lines(
            p.files@,
            p.events@,
            paths_view(p.fallback_paths@),
        )
    }
}

/// The lines of the files outside every project.
pub open spec fn outside_lines(files: Option<Seq<DraftFile>>) -> Seq<Seq<char>> {
    match files {
        Some(f) => f.map_values(|d: DraftFile| without_isolation_marks(d.line@)),
        None => Seq::empty(),
    }
}

/// The draft of a workspace: an object is a project's object, change lines
/// name their project, and files outside every project are all listed.
pub open spec fn workspace_draft_spec(projects: Seq<DraftProject>, workspace_files: Option<Seq<DraftFile>>, texts: DraftTexts) -> Seq<char> {
    joined(
        seq![draft_title(workspace_keys(projects), texts), Seq::empty()] + sorted_lines(
            project_lines(projects) + outside_lines(workspace_files),
        ),
        "\n"@,
    )
}

/// Drafts the commit message of a workspace from the changes of its
/// projects and the files outside them.
pub fn render_workspace_draft(projects: &Vec<DraftProject>, workspace_files: Option<&Vec<DraftFile>>, texts: &DraftTexts) -> (draft: String)
    ensures
        draft@ == workspace_draft_spec(
            projects@,
            match workspace_files {
                Some(f) => Some(f@),
                None => None,
            },
            *texts,
        ),
{
    let mut keys: Vec<(&str, &str, &str)> = Vec::new();
    let mut i: usize = 0;
    while i < projects.len()
        invariant
            i <= projects@.len(),
            key_views(keys@) == workspace_keys(projects@.subrange(0, i as int)),
        decreases projects.len() - i,
    {
        let project = &projects[i];
        let ghost start = key_views(keys@);
        let mut j: usize = 0;
        while j < project.events.len()
            invariant
                j <= project.events@.len(),
                *project == projects@[i as int],
                key_views(keys@) == start + event_keys(project.events@.subrange(0, j as int), project.name@),
            decreases project.events.len() - j,
        {
            let ghost prev = keys@;
            let key: (&str, &str, &str) = (project.name.as_str(), project.events[j].object.as_str(), project.events[j].subject.as_str());
            keys.push(key);
            proof {
                let ev = project.events@;
                assert(keys@ == prev.push(key));
                assert(key_views(keys@) =~= key_views(prev).push((key.0@, key.1@, key.2@)));
                assert(ev.subrange(0, j + 1) =~= ev.subrange(0, j as int).push(ev[j as int]));
                assert(event_keys(ev.subrange(0, j + 1), project.name@) =~= event_keys(ev.subrange(0, j as int), project.name@).push(
                    (project.name@, ev[j as int].object@, ev[j as int].subject@)));
            }
            j = j + 1;
        }
        proof {
            assert(project.events@.subrange(0, project.events@.len() as int) =~= project.events@);
            assert(projects@.subrange(0, i + 1).drop_last() =~= projects@.subrange(0, i as int));
        }
        i = i + 1;
    }
    assert(projects@.subrange(0, projects@.len() as int) =~= projects@);
    let title = title_of(&keys, texts);
    let mut details: Vec<String> = Vec::new();
    assert(views(details@) =~= sorted_lines(Seq::empty()));
    let mut i: usize = 0;
    while i < projects.len()
        invariant
            i <= projects@.len(),
            views(details@) == sorted_lines(project_lines(projects@.subrange(0, i as int))),
        decreases projects.len() - i,
    {
        let project = &projects[i];
        let ghost before = project_lines(projects@.subrange(0, i as int));
        add_event_lines(&mut details, &project.events, Some(project.name.as_str()), Ghost(before));
        let ghost middle = before + event_lines(project.events@, Some(project.name@));
        add_file_lines(&mut details, &project.files, &project.events, &project.fallback_paths, Ghost(middle));
        proof {
            assert(projects@.subrange(0, i + 1).drop_last() =~= projects@.subrange(0, i as int));
            assert(projects@.subrange(0, i + 1).last() == *project);
        }
        i = i + 1;
    }
    assert(projects@.subrange(0, projects@.len() as int) =~= projects@);
    let ghost inside = project_lines(projects@);
    match workspace_files {
        Some(files) => {
            let mut k: usize = 0;
            while k < files.len()
                invariant
                    k <= files@.len(),
                    views(details@) == sorted_lines(inside + outside_lines(Some(files@.subrange(0, k as int)))),
                decreases files.len() - k,
            {
                let line = draft_text(files[k].line.as_str());
                let ghost before = inside + outside_lines(Some(files@.subrange(0, k as int)));
                proof {
                    lemma_sorted_lines_push(before, line@);
                    assert(files@.subrange(0, k + 1) =~= files@.subrange(0, k as int).push(files@[k as int]));
                    assert(inside + outside_lines(Some(files@.subrange(0, k + 1))) =~= before.push(line@));
                }
                insert_line(&mut details, line);
                k = k + 1;
            }
            assert(files@.subrange(0, files@.len() as int) =~= files@);
        },
        None => {
            assert(inside + outside_lines(None) =~= inside);
        },
    }
    finish_draft(title, details)
}

} // verus!
