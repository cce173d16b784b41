//! The decisions of the IDE request loop: what a notification leads to,
//! which requests commit their effects even when cancelled, how a batch keeps
//! its answer within the response limit, and when a file notification is in
//! sequence.

use vstd::prelude::*;
use crate::framing::MAX_RESPONSE;
use vstd::utf8::*;
use crate::rpc::{is_method, str_eq, Id, IdCandidate, MAX_SAFE_ID};

verus! {

/// The requests whose effects stand once they ran: lifecycle, refresh and index.
pub open spec fn commits(method: Seq<char>) -> bool {
    method == "initialize"@ || method == "workspace/open"@ || method == "workspace/close"@ || method
        == "shutdown"@ || method == "metadata/refresh"@ || method == "metadata/index"@
}

/// Whether a request commits its effects, so that a late cancellation does
/// not hide its result.
pub fn is_committed(method: &str) -> (r: bool)
    ensures
        r == commits(method@),
{
    str_eq(method, "initialize") || str_eq(method, "workspace/open") || str_eq(method, "workspace/close")
        || str_eq(method, "shutdown") || str_eq(method, "metadata/refresh") || str_eq(method, "metadata/index")
}

/// What answers a request that ran: its result, unless it was cancelled while
/// it ran and does not commit its effects.
pub enum Answer {
    Result,
    Cancelled,
}

/// A cancelled request that does not commit is answered as cancelled;
/// otherwise it is answered with its result.
pub fn answer_after_run(method: &str, cancelled: bool) -> (r: Answer)
    ensures
        r == (if !commits(method@) && cancelled {
            Answer::Cancelled
        } else {
            Answer::Result
        }),
{
    if !is_committed(method) && cancelled {
        Answer::Cancelled
    } else {
        Answer::Result
    }
}

/// The requests that must carry an identifier.
pub open spec fn needs_id(method: Seq<char>) -> bool {
    method == "metadata/root"@ || method == "metadata/children"@ || method == "metadata/get"@ || method
        == "metadata/properties"@ || method == "metadata/source"@ || method == "metadata/search"@
        || method == "metadata/reveal"@ || method == "metadata/refresh"@ || method == "metadata/index"@
        || method == "metadata/indexErrors"@ || method == "initialize"@ || method == "workspace/open"@
        || method == "workspace/close"@ || method == "project/info"@ || method == "shutdown"@
}

/// What a notification (a message without an identifier) leads to.
pub enum NotificationStep {
    /// `exit`: stop with this status once every answer is written; the
    /// status is 0 after `shutdown` and 1 otherwise.
    Exit(i32),
    /// `workspace/didChangeFiles` in an open session: apply the changes, and
    /// report `IDE_INVALID_FILE_NOTIFICATION` if they are refused.
    ApplyFileChanges,
    /// A diagnostic code to report.
    Report(&'static str),
    /// Nothing to do.
    Nothing,
}

/// The identifiers that `Id::parse` accepts.
pub open spec fn valid_id(candidate: IdCandidate) -> bool {
    match candidate {
        IdCandidate::Text(t) => 0 < t@.len() <= 64 && is_ascii_chars(t@),
        IdCandidate::Unsigned(n) => n <= MAX_SAFE_ID,
        IdCandidate::Other => false,
    }
}

pub open spec fn notification_spec(
    method: Seq<char>,
    params_is_object: bool,
    cancel_id_valid: bool,
    initialized: bool,
    closing: bool,
) -> NotificationStep {
    let open = initialized && !closing;
    if method == "exit"@ && params_is_object {
        NotificationStep::Exit(if closing { 0 } else { 1 })
    } else if method == "workspace/didChangeFiles"@ && open {
        NotificationStep::ApplyFileChanges
    } else if method == "$/cancelRequest"@ && open && !cancel_id_valid {
        NotificationStep::Report("IDE_INVALID_CANCEL_NOTIFICATION")
    } else if open && needs_id(method) {
        NotificationStep::Report("IDE_REQUEST_ID_REQUIRED")
    } else if method == "exit"@ {
        NotificationStep::Report("IDE_INVALID_EXIT_NOTIFICATION")
    } else {
        NotificationStep::Nothing
    }
}

/// Decides what a notification leads to, from its method, whether its
/// parameters are an object, the identifier a cancellation names, and the
/// session state. Cancellations themselves take effect when they are queued.
pub fn notification_step(
    method: &str,
    params_is_object: bool,
    cancel_id: &IdCandidate,
    initialized: bool,
    closing: bool,
) -> (r: NotificationStep)
    ensures
        r == notification_spec(method@, params_is_object, valid_id(*cancel_id), initialized, closing),
{
    let open = initialized && !closing;
    if str_eq(method, "exit") && params_is_object {
        NotificationStep::Exit(if closing { 0 } else { 1 })
    } else if str_eq(method, "workspace/didChangeFiles") && open {
        NotificationStep::ApplyFileChanges
    } else if str_eq(method, "$/cancelRequest") && open && Id::parse(cancel_id).is_none() {
        NotificationStep::Report("IDE_INVALID_CANCEL_NOTIFICATION")
    } else if open && (is_method(method) || str_eq(method, "initialize") || str_eq(method, "workspace/open")
        || str_eq(method, "workspace/close") || str_eq(method, "project/info") || str_eq(method, "shutdown")) {
        NotificationStep::Report("IDE_REQUEST_ID_REQUIRED")
    } else if str_eq(method, "exit") {
        NotificationStep::Report("IDE_INVALID_EXIT_NOTIFICATION")
    } else {
        NotificationStep::Nothing
    }
}

/// Room kept in a batch answer for the error answers of the remaining items.
pub const RESERVED_BYTES: usize = 8192;

/// The bytes of a batch answer so far: its brackets, and each answer with its comma.
pub struct BatchBudget {
    pub bytes: usize,
}

impl BatchBudget {
    /// An empty batch answer: its two brackets.
    pub fn new() -> (b: BatchBudget)
        ensures
            b.bytes == 2,
    {
        BatchBudget { bytes: 2 }
    }

    /// Whether an answer of `size` bytes still fits, leaving room for the
    /// error answers of the remaining items.
    pub fn fits(&self, size: usize) -> (r: bool)
        ensures
            r == (self.bytes + size + RESERVED_BYTES <= MAX_RESPONSE),
    {
        size <= MAX_RESPONSE && self.bytes <= MAX_RESPONSE - size && RESERVED_BYTES <= MAX_RESPONSE - size
            - self.bytes
    }

    /// Counts an answer of `size` bytes and its separator.
    pub fn add(&mut self, size: usize)
        requires
            old(self).bytes + size + 1 <= usize::MAX,
        ensures
            final(self).bytes == old(self).bytes + size + 1,
    {
        self.bytes = self.bytes + size + 1;
    }
}

/// A file notification is in sequence when its number follows the last one,
/// and it names at least one and at most 4096 paths.
pub open spec fn in_sequence(last: u64, sequence: u64, paths: usize) -> bool {
    last < u64::MAX && sequence == last + 1 && 0 < paths <= 4096
}

/// Checks the sequence number and size of a file notification. The number
/// becomes the last one seen whether or not the notification is accepted.
pub fn check_file_sequence(last: u64, sequence: u64, paths: usize) -> (r: (u64, bool))
    ensures
        r.0 == sequence,
        r.1 == in_sequence(last, sequence, paths),
{
    let expected = last.checked_add(1);
    let accepted = match expected {
        Some(e) => e == sequence && paths != 0 && paths <= 4096,
        None => false,
    };
    (sequence, accepted)
}

/// The scope of a file notification: its session and project.
pub open spec fn same_scope(a: (Seq<char>, Seq<char>), b: (Seq<char>, Seq<char>)) -> bool {
    a.0 == b.0 && a.1 == b.1
}

/// Whether a batch item is a file notification of a scope that a refresh in
/// the same batch has reset: such notifications are skipped.
pub fn skipped_after_reset(has_id: bool, method: &str, scope: (&str, &str), reset: &Vec<(String, String)>) -> (r: bool)
    ensures
        r == (!has_id && method@ == "workspace/didChangeFiles"@ && exists|i: int|
            0 <= i < reset@.len() && #[trigger] same_scope((reset@[i].0@, reset@[i].1@), (scope.0@, scope.1@))),
{
    if has_id || !str_eq(method, "workspace/didChangeFiles") {
        return false;
    }
    let mut i: usize = 0;
    while i < reset.len()
        invariant
            i <= reset@.len(),
            !has_id,
            method@ == "workspace/didChangeFiles"@,
            forall|j: int| 0 <= j < i ==> !#[trigger] same_scope((reset@[j].0@, reset@[j].1@), (scope.0@, scope.1@)),
        decreases reset.len() - i,
    {
        if str_eq(reset[i].0.as_str(), scope.0) && str_eq(reset[i].1.as_str(), scope.1) {
            assert(same_scope((reset@[i as int].0@, reset@[i as int].1@), (scope.0@, scope.1@)));
            return true;
        }
        i = i + 1;
    }
    false
}

/// Whether a metadata request may run on a project, given that its generation
/// number was read.
pub enum MetadataGate {
    /// The manifest changed: the project must be reopened.
    ReopenRequired,
    /// File events were lost or refused: the client must refresh from the root.
    ResyncRequired,
    /// The request runs; its generation is checked unless it is the refresh
    /// of the root that recovers from lost events.
    Proceed { check_generation: bool },
}

pub open spec fn metadata_gate_spec(reopen: bool, refresh: bool, method: Seq<char>, targets_root: bool, index_status: bool) -> MetadataGate {
    let root_refresh = method == "metadata/refresh"@ && targets_root;
    if reopen {
        MetadataGate::ReopenRequired
    } else if refresh && !root_refresh && !(method == "metadata/index"@ && index_status) {
        MetadataGate::ResyncRequired
    } else {
        MetadataGate::Proceed { check_generation: !(refresh && root_refresh) }
    }
}

/// Decides whether a metadata request runs: a project whose manifest changed
/// must be reopened; after lost file events only the root refresh and the
/// index status are answered until the refresh succeeds, and that refresh
/// skips the generation check.
pub fn metadata_gate(reopen: bool, refresh: bool, method: &str, targets_root: bool, index_status: bool) -> (r: MetadataGate)
    ensures
        r == metadata_gate_spec(reopen, refresh, method@, targets_root, index_status),
{
    let root_refresh = str_eq(method, "metadata/refresh") && targets_root;
    if reopen {
        MetadataGate::ReopenRequired
    } else if refresh && !root_refresh && !(str_eq(method, "metadata/index") && index_status) {
        MetadataGate::ResyncRequired
    } else {
        MetadataGate::Proceed { check_generation: !(refresh && root_refresh) }
    }
}

/// What the server keeps for the file notifications of one project: the
/// last sequence number seen, and whether the project must be refreshed or
/// reopened before it takes file changes again.
#[derive(Clone, Copy, Debug, PartialEq, Eq, Structural)]
pub struct FileState {
    pub last: u64,
    pub refresh: bool,
    pub reopen: bool,
}

/// A file notification of one project, as far as the server decides on it.
pub struct FileBatch {
    /// The client says that the workspace manifest changed.
    pub manifest_changed: bool,
    /// The sequence number, where the notification reads and holds one.
    pub sequence: Option<u64>,
    /// How many paths it names.
    pub paths: usize,
    /// Every path decodes to a native path.
    pub decoded: bool,
    /// Every path lies inside the project's sources.
    pub contained: bool,
    /// What applying the paths to the project gave: the number of objects
    /// affected, or a failure; `None` where they were not applied.
    pub update: Option<Result<usize, ()>>,
}

/// What the server does with a file notification.
#[derive(Clone, Copy, Debug, PartialEq, Eq, Structural)]
pub enum FileAction {
    /// Every open project must be reopened, and each says so in an event.
    ReopenAll,
    /// The notification is refused as invalid; the project must be
    /// refreshed, and an event says so.
    Reject,
    /// The paths could not be applied; the project must be refreshed, and
    /// an event says so.
    Fail,
    /// The paths changed nothing: nothing is published.
    Quiet,
    /// The paths changed objects: an event names them.
    Publish,
}

/// A notification that the server takes: its number follows the last one,
/// it names between one and 4096 paths, all decoded and inside the project,
/// and the project is neither waiting for a refresh nor for a reopening.
pub open spec fn file_batch_valid(s: FileState, b: FileBatch) -> bool {
    &&& b.sequence matches Some(q) && s.last < u64::MAX && q == s.last + 1
    &&& 0 < b.paths <= 4096
    &&& b.decoded
    &&& b.contained
    &&& !s.refresh
    &&& !s.reopen
}

/// One file notification for one project. A changed manifest reopens every
/// project. Otherwise the sequence number read becomes the last one seen;
/// an invalid notification is refused, one whose paths could not be
/// applied fails, and both leave the project to be refreshed; a valid one
/// is published where it changed objects and otherwise stays silent.
pub fn file_notification_step(s: FileState, b: &FileBatch) -> (r: (FileState, FileAction))
    ensures
        b.manifest_changed ==> r.1 == FileAction::ReopenAll && r.0 == (FileState { reopen: true, ..s }),
        !b.manifest_changed ==> r.0.last == (match b.sequence {
            Some(q) => q,
            None => s.last,
        }),
        !b.manifest_changed ==> (r.1 is Reject <==> !file_batch_valid(s, *b)),
        !b.manifest_changed && file_batch_valid(s, *b) ==> match b.update {
            Some(Ok(n)) => r.1 == (if n == 0 {
                FileAction::Quiet
            } else {
                FileAction::Publish
            }) && r.0.refresh == s.refresh && r.0.reopen == s.reopen,
            _ => r.1 == FileAction::Fail && r.0.refresh && r.0.reopen == s.reopen,
        },
        (r.1 is Reject || r.1 is Fail) ==> r.0.refresh && r.0.reopen == s.reopen,
{
    if b.manifest_changed {
        return (FileState { last: s.last, refresh: s.refresh, reopen: true }, FileAction::ReopenAll);
    }
    let last = match b.sequence {
        Some(q) => q,
        None => s.last,
    };
    let in_order = match b.sequence {
        Some(q) => s.last < u64::MAX && q == s.last + 1,
        None => false,
    };
    let valid = in_order && b.paths > 0 && b.paths <= 4096 && b.decoded && b.contained && !s.refresh && !s.reopen;
    if !valid {
        return (FileState { last, refresh: true, reopen: s.reopen }, FileAction::Reject);
    }
    match b.update {
        Some(Ok(n)) => {
            let action = if n == 0 {
                FileAction::Quiet
            } else {
                FileAction::Publish
            };
            (FileState { last, refresh: s.refresh, reopen: s.reopen }, action)
        },
        _ => (FileState { last, refresh: true, reopen: s.reopen }, FileAction::Fail),
    }
}

/// A queue overflow lost file notifications: every open project must be
/// refreshed; nothing else about them changes.
pub fn invalidate_all(states: &mut Vec<FileState>)
    ensures
        final(states)@.len() == old(states)@.len(),
        forall|i: int|
            0 <= i < final(states)@.len() ==> #[trigger] final(states)@[i] == (FileState { refresh: true, ..old(states)@[i] }),
{
    let mut i: usize = 0;
    while i < states.len()
        invariant
            i <= states@.len(),
            states@.len() == old(states)@.len(),
            forall|j: int| 0 <= j < i ==> #[trigger] states@[j] == (FileState { refresh: true, ..old(states)@[j] }),
            forall|j: int| i <= j < states@.len() ==> #[trigger] states@[j] == old(states)@[j],
        decreases states.len() - i,
    {
        let s = states[i];
        states.set(i, FileState { last: s.last, refresh: true, reopen: s.reopen });
        i = i + 1;
    }
}

/// A changed manifest: every open project must be reopened; nothing else
/// about them changes.
pub fn reopen_all(states: &mut Vec<FileState>)
    ensures
        final(states)@.len() == old(states)@.len(),
        forall|i: int|
            0 <= i < final(states)@.len() ==> #[trigger] final(states)@[i] == (FileState { reopen: true, ..old(states)@[i] }),
{
    let mut i: usize = 0;
    while i < states.len()
        invariant
            i <= states@.len(),
            states@.len() == old(states)@.len(),
            forall|j: int| 0 <= j < i ==> #[trigger] states@[j] == (FileState { reopen: true, ..old(states)@[j] }),
            forall|j: int| i <= j < states@.len() ==> #[trigger] states@[j] == old(states)@[j],
        decreases states.len() - i,
    {
        let s = states[i];
        states.set(i, FileState { last: s.last, refresh: s.refresh, reopen: true });
        i = i + 1;
    }
}

/// A complete response larger than the response limit is not published in
/// part: it is replaced by a `response_too_large` error that keeps the
/// request's identifier and names the limit in bytes. Returns that error's
/// kind and limit where the response must be replaced.
pub fn response_too_large(body_len: usize) -> (replacement: Option<(&'static str, usize)>)
    ensures
        body_len > MAX_RESPONSE ==> (replacement matches Some((kind, limit)) && kind@ == "response_too_large"@
            && limit == MAX_RESPONSE),
        body_len <= MAX_RESPONSE ==> replacement is None,
{
    if body_len > MAX_RESPONSE {
        Some(("response_too_large", MAX_RESPONSE))
    } else {
        None
    }
}

/// The metadata request methods.
#[derive(Clone, Copy, Debug, PartialEq, Eq, Structural)]
pub enum MetadataMethod {
    Root,
    Children,
    Get,
    Properties,
    Source,
    Search,
    Reveal,
    Refresh,
    Index,
    IndexErrors,
}

pub open spec fn metadata_method_spec(method: Seq<char>) -> Result<MetadataMethod, i32> {
    if method == "metadata/root"@ {
        Ok(MetadataMethod::Root)
    } else if method == "metadata/children"@ {
        Ok(MetadataMethod::Children)
    } else if method == "metadata/get"@ {
        Ok(MetadataMethod::Get)
    } else if method == "metadata/properties"@ {
        Ok(MetadataMethod::Properties)
    } else if method == "metadata/source"@ {
        Ok(MetadataMethod::Source)
    } else if method == "metadata/search"@ {
        Ok(MetadataMethod::Search)
    } else if method == "metadata/reveal"@ {
        Ok(MetadataMethod::Reveal)
    } else if method == "metadata/refresh"@ {
        Ok(MetadataMethod::Refresh)
    } else if method == "metadata/index"@ {
        Ok(MetadataMethod::Index)
    } else if method == "metadata/indexErrors"@ {
        Ok(MetadataMethod::IndexErrors)
    } else {
        Err(-32601i32)
    }
}

/// The metadata method a request names; any other method is not found,
/// which JSON-RPC answers with code -32601.
pub fn metadata_method(method: &str) -> (r: Result<MetadataMethod, i32>)
    ensures
        r == metadata_method_spec(method@),
        r is Err <==> !is_metadata_request(method@),
        r is Err ==> r == Err::<MetadataMethod, i32>(-32601i32),
{
    if str_eq(method, "metadata/root") {
        Ok(MetadataMethod::Root)
    } else if str_eq(method, "metadata/children") {
        Ok(MetadataMethod::Children)
    } else if str_eq(method, "metadata/get") {
        Ok(MetadataMethod::Get)
    } else if str_eq(method, "metadata/properties") {
        Ok(MetadataMethod::Properties)
    } else if str_eq(method, "metadata/source") {
        Ok(MetadataMethod::Source)
    } else if str_eq(method, "metadata/search") {
        Ok(MetadataMethod::Search)
    } else if str_eq(method, "metadata/reveal") {
        Ok(MetadataMethod::Reveal)
    } else if str_eq(method, "metadata/refresh") {
        Ok(MetadataMethod::Refresh)
    } else if str_eq(method, "metadata/index") {
        Ok(MetadataMethod::Index)
    } else if str_eq(method, "metadata/indexErrors") {
        Ok(MetadataMethod::IndexErrors)
    } else {
        Err(-32601)
    }
}

/// The metadata request methods by name.
pub open spec fn is_metadata_request(method: Seq<char>) -> bool {
    method == "metadata/root"@ || method == "metadata/children"@ || method == "metadata/get"@ || method
        == "metadata/properties"@ || method == "metadata/source"@ || method == "metadata/search"@
        || method == "metadata/reveal"@ || method == "metadata/refresh"@ || method == "metadata/index"@
        || method == "metadata/indexErrors"@
}

/// Whether children listings hide empty root sections: as asked, and by
/// default they do.
pub fn hide_empty_root_sections(requested: Option<bool>) -> (hide: bool)
    ensures
        hide == match requested {
            Some(h) => h,
            None => true,
        },
{
    match requested {
        Some(h) => h,
        None => true,
    }
}

/// The answer to a source request whose node has `sources` source
/// locations: a node without any is refused as `source_missing`, because
/// it is not a file; otherwise the sources are returned.
pub fn source_refusal(sources: usize) -> (refusal: Option<(&'static str, &'static str)>)
    ensures
        sources == 0 ==> (refusal matches Some((kind, reason)) && kind@ == "source_missing"@ && reason@
            == "not_file"@),
        sources > 0 ==> refusal is None,
{
    if sources == 0 {
        Some(("source_missing", "not_file"))
    } else {
        None
    }
}


/// The name of each metadata request method.
pub open spec fn metadata_method_name(m: MetadataMethod) -> Seq<char> {
    match m {
        MetadataMethod::Root => "metadata/root"@,
        MetadataMethod::Children => "metadata/children"@,
        MetadataMethod::Get => "metadata/get"@,
        MetadataMethod::Properties => "metadata/properties"@,
        MetadataMethod::Source => "metadata/source"@,
        MetadataMethod::Search => "metadata/search"@,
        MetadataMethod::Reveal => "metadata/reveal"@,
        MetadataMethod::Refresh => "metadata/refresh"@,
        MetadataMethod::Index => "metadata/index"@,
        MetadataMethod::IndexErrors => "metadata/indexErrors"@,
    }
}

/// Every metadata method name is served as the method of that name, and
/// a method that is served was named by its own name: `metadata/get`
/// returns the object, `metadata/properties` its properties, and so on;
/// any other name is not found (-32601).
pub proof fn lemma_metadata_methods_by_name(m: MetadataMethod, method: Seq<char>)
    ensures
        metadata_method_spec(metadata_method_name(m)) == Ok::<MetadataMethod, i32>(m),
        metadata_method_spec(method) == Ok::<MetadataMethod, i32>(m) ==> method == metadata_method_name(m),
        (forall|n: MetadataMethod| method != #[trigger] metadata_method_name(n)) ==> metadata_method_spec(method)
            == Err::<MetadataMethod, i32>(-32601i32),
{
    reveal_strlit("metadata/root");
    reveal_strlit("metadata/children");
    reveal_strlit("metadata/get");
    reveal_strlit("metadata/properties");
    reveal_strlit("metadata/source");
    reveal_strlit("metadata/search");
    reveal_strlit("metadata/reveal");
    reveal_strlit("metadata/refresh");
    reveal_strlit("metadata/index");
    reveal_strlit("metadata/indexErrors");
    let names = seq![
        "metadata/root"@,
        "metadata/children"@,
        "metadata/get"@,
        "metadata/properties"@,
        "metadata/source"@,
        "metadata/search"@,
        "metadata/reveal"@,
        "metadata/refresh"@,
        "metadata/index"@,
        "metadata/indexErrors"@,
    ];
    assert forall|a: int, b: int| 0 <= a < b < 10 implies #[trigger] names[a] != #[trigger] names[b] by {
        if names[a].len() == names[b].len() {
            assert(names[a][9] != names[b][9] || names[a][10] != names[b][10]);
        }
    }
    assert(names[0] != names[1] && names[0] != names[2] && names[0] != names[3] && names[0] != names[4]);
    assert(names[0] != names[5] && names[0] != names[6] && names[0] != names[7] && names[0] != names[8]);
    assert(names[0] != names[9] && names[1] != names[2] && names[1] != names[3] && names[1] != names[4]);
    assert(names[1] != names[5] && names[1] != names[6] && names[1] != names[7] && names[1] != names[8]);
    assert(names[1] != names[9] && names[2] != names[3] && names[2] != names[4] && names[2] != names[5]);
    assert(names[2] != names[6] && names[2] != names[7] && names[2] != names[8] && names[2] != names[9]);
    assert(names[3] != names[4] && names[3] != names[5] && names[3] != names[6] && names[3] != names[7]);
    assert(names[3] != names[8] && names[3] != names[9] && names[4] != names[5] && names[4] != names[6]);
    assert(names[4] != names[7] && names[4] != names[8] && names[4] != names[9] && names[5] != names[6]);
    assert(names[5] != names[7] && names[5] != names[8] && names[5] != names[9] && names[6] != names[7]);
    assert(names[6] != names[8] && names[6] != names[9] && names[7] != names[8] && names[7] != names[9]);
    assert(names[8] != names[9]);
    if forall|n: MetadataMethod| method != #[trigger] metadata_method_name(n) {
        assert(method != metadata_method_name(MetadataMethod::Root));
        assert(method != metadata_method_name(MetadataMethod::Children));
        assert(method != metadata_method_name(MetadataMethod::Get));
        assert(method != metadata_method_name(MetadataMethod::Properties));
        assert(method != metadata_method_name(MetadataMethod::Source));
        assert(method != metadata_method_name(MetadataMethod::Search));
        assert(method != metadata_method_name(MetadataMethod::Reveal));
        assert(method != metadata_method_name(MetadataMethod::Refresh));
        assert(method != metadata_method_name(MetadataMethod::Index));
        assert(method != metadata_method_name(MetadataMethod::IndexErrors));
    }
}

} // verus!
