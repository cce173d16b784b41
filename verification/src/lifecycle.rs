//! The lifecycle of the IDE server: which requests it takes in which state,
//! the API version handshake, the checks before a workspace opens, and the
//! session that an open workspace publishes.

use vstd::prelude::*;
use crate::rpc::{is_method, lemma_counter_reads_decimal, str_eq};
use crate::text::{decimal_text, push_decimal, push_str};
use vstd::arithmetic::div_mod::{
    lemma_add_mod_noop, lemma_fundamental_div_mod, lemma_mod_add_multiples_vanish, lemma_mod_multiples_vanish,
    lemma_small_mod,
};

verus! {

/// Where the server routes a request that it takes.
#[derive(Clone, Copy, Debug, PartialEq, Eq, Structural)]
pub enum Route {
    Initialize,
    Open,
    Info,
    Close,
    Shutdown,
    Metadata,
}

/// The lifecycle state named by a refusal.
#[derive(Clone, Copy, Debug, PartialEq, Eq, Structural)]
pub enum StateName {
    Uninitialized,
    Initialized,
    Closing,
}

/// Why the server refuses a request.
#[derive(Clone, Copy, Debug, PartialEq, Eq, Structural)]
pub enum Refusal {
    /// The request does not fit the server's state.
    InvalidState(StateName),
    InvalidParams,
    MethodNotFound,
    UnsupportedVersion,
    WorkspaceAlreadyOpen,
    /// A selection of named projects that is empty, names a project with no
    /// name, or names one twice.
    SelectionInvalid,
    GenerationExhausted,
    UnknownSession,
}

/// The JSON-RPC error code of a refusal: protocol errors keep their own
/// codes, and every refusal of the domain shares one.
pub fn refusal_code(refusal: Refusal) -> (code: i32)
    ensures
        code == match refusal {
            Refusal::InvalidParams => -32602i32,
            Refusal::MethodNotFound => -32601i32,
            _ => -32000i32,
        },
{
    match refusal {
        Refusal::InvalidParams => -32602,
        Refusal::MethodNotFound => -32601,
        _ => -32000,
    }
}

/// The kind of a domain refusal, as its error data names it.
pub fn refusal_kind(refusal: Refusal) -> (kind: Option<&'static str>)
    ensures
        match refusal {
            Refusal::InvalidState(_) => kind matches Some(k) && k@ == "invalid_state"@,
            Refusal::UnsupportedVersion => kind matches Some(k) && k@ == "unsupported_version"@,
            Refusal::WorkspaceAlreadyOpen => kind matches Some(k) && k@ == "workspace_already_open"@,
            Refusal::SelectionInvalid => kind matches Some(k) && k@ == "project_open_failed"@,
            Refusal::GenerationExhausted => kind matches Some(k) && k@ == "generation_exhausted"@,
            Refusal::UnknownSession => kind matches Some(k) && k@ == "unknown_session"@,
            Refusal::InvalidParams | Refusal::MethodNotFound => kind is None,
        },
{
    match refusal {
        Refusal::InvalidState(_) => Some("invalid_state"),
        Refusal::UnsupportedVersion => Some("unsupported_version"),
        Refusal::WorkspaceAlreadyOpen => Some("workspace_already_open"),
        Refusal::SelectionInvalid => Some("project_open_failed"),
        Refusal::GenerationExhausted => Some("generation_exhausted"),
        Refusal::UnknownSession => Some("unknown_session"),
        Refusal::InvalidParams | Refusal::MethodNotFound => None,
    }
}

/// The text of a lifecycle state in a refusal.
pub fn state_name(state: StateName) -> (name: &'static str)
    ensures
        name@ == match state {
            StateName::Uninitialized => "uninitialized"@,
            StateName::Initialized => "initialized"@,
            StateName::Closing => "closing"@,
        },
{
    match state {
        StateName::Uninitialized => "uninitialized",
        StateName::Initialized => "initialized",
        StateName::Closing => "closing",
    }
}

/// The parameters that a method may leave out, and then must not give as null.
pub open spec fn optional_names(method: Seq<char>) -> Seq<Seq<char>> {
    if method == "initialize"@ {
        seq!["locale"@]
    } else if method == "workspace/open"@ {
        seq!["diskCache"@]
    } else if method == "metadata/children"@ {
        seq!["hideEmptyRootSections"@]
    } else if method == "metadata/search"@ {
        seq!["limit"@, "synonymLanguage"@]
    } else if method == "metadata/refresh"@ {
        seq!["resetFileSequence"@]
    } else if method == "metadata/indexErrors"@ {
        seq!["offset"@, "limit"@]
    } else {
        Seq::empty()
    }
}

pub open spec fn is_metadata_method(method: Seq<char>) -> bool {
    method == "metadata/root"@ || method == "metadata/children"@ || method == "metadata/get"@ || method
        == "metadata/properties"@ || method == "metadata/source"@ || method == "metadata/search"@
        || method == "metadata/reveal"@ || method == "metadata/refresh"@ || method == "metadata/index"@
        || method == "metadata/indexErrors"@
}

/// Whether one of the parameters given as null may not be null.
pub open spec fn null_optional(method: Seq<char>, nulls: Seq<Seq<char>>) -> bool {
    exists|i: int, j: int|
        0 <= i < nulls.len() && 0 <= j < optional_names(method).len() && #[trigger] nulls[i]
            == #[trigger] optional_names(method)[j]
}

/// How a request is routed: nothing but `initialize` before the handshake
/// and nothing once the server closes; then the parameters must form an
/// object without a null where a parameter may be left out; then the method
/// decides.
pub open spec fn route_spec(
    initialized: bool,
    closing: bool,
    method: Seq<char>,
    is_object: bool,
    nulls: Seq<Seq<char>>,
) -> Result<Route, Refusal> {
    if closing {
        Err(Refusal::InvalidState(StateName::Closing))
    } else if !initialized && method != "initialize"@ {
        Err(Refusal::InvalidState(StateName::Uninitialized))
    } else if !is_object || null_optional(method, nulls) {
        Err(Refusal::InvalidParams)
    } else if method == "initialize"@ {
        Ok(Route::Initialize)
    } else if method == "workspace/open"@ {
        Ok(Route::Open)
    } else if method == "project/info"@ {
        Ok(Route::Info)
    } else if method == "workspace/close"@ {
        Ok(Route::Close)
    } else if method == "shutdown"@ {
        Ok(Route::Shutdown)
    } else if is_metadata_method(method) {
        Ok(Route::Metadata)
    } else {
        Err(Refusal::MethodNotFound)
    }
}

fn optional_list(method: &str) -> (names: Vec<&'static str>)
    ensures
        names@.map_values(|n: &'static str| n@) == optional_names(method@),
{
    let mut names: Vec<&'static str> = Vec::new();
    if str_eq(method, "initialize") {
        names.push("locale");
    } else if str_eq(method, "workspace/open") {
        names.push("diskCache");
    } else if str_eq(method, "metadata/children") {
        names.push("hideEmptyRootSections");
    } else if str_eq(method, "metadata/search") {
        names.push("limit");
        names.push("synonymLanguage");
    } else if str_eq(method, "metadata/refresh") {
        names.push("resetFileSequence");
    } else if str_eq(method, "metadata/indexErrors") {
        names.push("offset");
        names.push("limit");
    }
    assert(names@.map_values(|n: &'static str| n@) =~= optional_names(method@));
    names
}

fn has_null_optional(method: &str, nulls: &Vec<String>) -> (r: bool)
    ensures
        r == null_optional(method@, nulls@.map_values(|n: String| n@)),
{
    let names = optional_list(method);
    let ghost views = nulls@.map_values(|n: String| n@);
    let mut i: usize = 0;
    while i < nulls.len()
        invariant
            i <= nulls@.len(),
            views == nulls@.map_values(|n: String| n@),
            names@.map_values(|n: &'static str| n@) == optional_names(method@),
            forall|a: int, b: int|
                0 <= a < i && 0 <= b < optional_names(method@).len() ==> views[a] != optional_names(
                    method@,
                )[b],
        decreases nulls.len() - i,
    {
        let mut j: usize = 0;
        while j < names.len()
            invariant
                i < nulls@.len(),
                j <= names@.len(),
                views == nulls@.map_values(|n: String| n@),
                names@.map_values(|n: &'static str| n@) == optional_names(method@),
                forall|a: int, b: int|
                    0 <= a < i && 0 <= b < optional_names(method@).len() ==> views[a]
                        != optional_names(method@)[b],
                forall|b: int| 0 <= b < j ==> views[i as int] != optional_names(method@)[b],
            decreases names.len() - j,
        {
            if str_eq(nulls[i].as_str(), names[j]) {
                assert(views[i as int] == optional_names(method@)[j as int]);
                return true;
            }
            j = j + 1;
        }
        i = i + 1;
    }
    false
}

/// The lifecycle of the server: the handshake, closing, and the session of
/// the open workspace, known by the serial number it was published under.
pub struct Lifecycle {
    pub initialized: bool,
    pub closing: bool,
    pub session: Option<u64>,
    /// The serial number of the last session published.
    pub serial: u64,
}

/// The text of the session published under `serial`: `s` and the number.
pub open spec fn session_id_spec(serial: u64) -> Seq<char> {
    "s"@ + decimal_text(serial as nat)
}

/// The text of the project at `index` of a session: `p` and the index.
pub open spec fn project_id_spec(index: usize) -> Seq<char> {
    "p"@ + decimal_text(index as nat)
}

/// The identifier of the session published under `serial`.
pub fn session_id(serial: u64) -> (id: String)
    ensures
        id@ == session_id_spec(serial),
{
    let mut id = String::new();
    push_str(&mut id, "s");
    push_decimal(&mut id, serial);
    id
}

/// The identifier of the project at `index` of a session.
pub fn project_id(index: usize) -> (id: String)
    ensures
        id@ == project_id_spec(index),
{
    let mut id = String::new();
    push_str(&mut id, "p");
    push_decimal(&mut id, index as u64);
    id
}

/// The handshake that a client asks for.
pub struct InitRequest {
    pub locale: Option<String>,
    pub major: u32,
    pub minor: u32,
}

/// The handshake: refused when it already took place, when its parameters
/// do not read or name another locale than Russian or English, and when the
/// client asks for an API other than 1.0 or 1.1.
pub open spec fn initialize_spec(initialized: bool, request: Option<InitRequest>) -> Result<(), Refusal> {
    if initialized {
        Err(Refusal::InvalidState(StateName::Initialized))
    } else {
        match request {
            None => Err(Refusal::InvalidParams),
            Some(r) => if (r.locale matches Some(l) && l@ != "ru-RU"@ && l@ != "en-US"@) {
                Err(Refusal::InvalidParams)
            } else if r.major != 1 || r.minor > 1 {
                Err(Refusal::UnsupportedVersion)
            } else {
                Ok(())
            },
        }
    }
}

/// Which projects a workspace opens with.
pub enum Selection {
    /// The project that holds the start path.
    Current,
    All,
    Named { names: Vec<String> },
}

/// A selection of named projects must name at least one project, each with
/// a name, and none twice.
pub open spec fn names_valid(names: Seq<String>) -> bool {
    &&& names.len() > 0
    &&& forall|i: int| 0 <= i < names.len() ==> names[i]@.len() > 0
    &&& forall|i: int, j: int| 0 <= i < j < names.len() ==> names[i]@ != names[j]@
}

pub open spec fn selection_valid(selection: Selection) -> bool {
    match selection {
        Selection::Named { names } => names_valid(names@),
        _ => true,
    }
}

/// The checks before a workspace opens: no session is open, the parameters
/// read, the start path is absolute, and a selection by names is valid.
pub open spec fn open_check_spec(session_open: bool, start_absolute: Option<bool>, selection: Selection) -> Result<(), Refusal> {
    if session_open {
        Err(Refusal::WorkspaceAlreadyOpen)
    } else if !(start_absolute matches Some(true)) {
        Err(Refusal::InvalidParams)
    } else if !selection_valid(selection) {
        Err(Refusal::SelectionInvalid)
    } else {
        Ok(())
    }
}

fn names_are_valid(names: &Vec<String>) -> (r: bool)
    ensures
        r == names_valid(names@),
{
    if names.len() == 0 {
        return false;
    }
    let mut i: usize = 0;
    while i < names.len()
        invariant
            0 < names@.len(),
            i <= names@.len(),
            forall|a: int| 0 <= a < i ==> names@[a]@.len() > 0,
            forall|a: int, b: int| 0 <= a < b < i ==> names@[a]@ != names@[b]@,
        decreases names.len() - i,
    {
        if names[i].as_str().unicode_len() == 0 {
            return false;
        }
        let mut j: usize = 0;
        while j < i
            invariant
                i < names@.len(),
                j <= i,
                forall|a: int| 0 <= a < j ==> names@[a]@ != names@[i as int]@,
            decreases i - j,
        {
            if str_eq(names[j].as_str(), names[i].as_str()) {
                return false;
            }
            j = j + 1;
        }
        i = i + 1;
    }
    true
}

impl Lifecycle {
    /// A server before its handshake.
    pub fn new() -> (l: Lifecycle)
        ensures
            !l.initialized,
            !l.closing,
            l.session is None,
            l.serial == 0,
    {
        Lifecycle { initialized: false, closing: false, session: None, serial: 0 }
    }

    /// Routes a request with the given method; `nulls` are the names of
    /// its parameters whose value is null.
    pub fn route(&self, method: &str, is_object: bool, nulls: &Vec<String>) -> (r: Result<Route, Refusal>)
        ensures
            r == route_spec(self.initialized, self.closing, method@, is_object, nulls@.map_values(|n: String| n@)),
    {
        if self.closing {
            return Err(Refusal::InvalidState(StateName::Closing));
        }
        if !self.initialized && !str_eq(method, "initialize") {
            return Err(Refusal::InvalidState(StateName::Uninitialized));
        }
        if !is_object || has_null_optional(method, nulls) {
            return Err(Refusal::InvalidParams);
        }
        if str_eq(method, "initialize") {
            Ok(Route::Initialize)
        } else if str_eq(method, "workspace/open") {
            Ok(Route::Open)
        } else if str_eq(method, "project/info") {
            Ok(Route::Info)
        } else if str_eq(method, "workspace/close") {
            Ok(Route::Close)
        } else if str_eq(method, "shutdown") {
            Ok(Route::Shutdown)
        } else if is_method(method) {
            Ok(Route::Metadata)
        } else {
            Err(Refusal::MethodNotFound)
        }
    }

    /// Performs the handshake; `request` is `None` where its parameters do
    /// not read.
    pub fn initialize(&mut self, request: Option<InitRequest>) -> (r: Result<(), Refusal>)
        ensures
            r == initialize_spec(old(self).initialized, request),
            final(self).initialized == (old(self).initialized || r is Ok),
            final(self).closing == old(self).closing,
            final(self).session == old(self).session,
            final(self).serial == old(self).serial,
    {
        if self.initialized {
            return Err(Refusal::InvalidState(StateName::Initialized));
        }
        match request {
            None => Err(Refusal::InvalidParams),
            Some(r) => {
                let known = match &r.locale {
                    Some(l) => str_eq(l.as_str(), "ru-RU") || str_eq(l.as_str(), "en-US"),
                    None => true,
                };
                if !known {
                    Err(Refusal::InvalidParams)
                } else if r.major != 1 || r.minor > 1 {
                    Err(Refusal::UnsupportedVersion)
                } else {
                    self.initialized = true;
                    Ok(())
                }
            },
        }
    }

    /// Checks a request to open a workspace before it is opened;
    /// `start_absolute` is `None` where the parameters do not read.
    pub fn check_open(&self, start_absolute: Option<bool>, selection: &Selection) -> (r: Result<(), Refusal>)
        ensures
            r == open_check_spec(self.session is Some, start_absolute, *selection),
    {
        if self.session.is_some() {
            return Err(Refusal::WorkspaceAlreadyOpen);
        }
        match start_absolute {
            Some(true) => {},
            _ => {
                return Err(Refusal::InvalidParams);
            },
        }
        match selection {
            Selection::Named { names } => {
                if !names_are_valid(names) {
                    return Err(Refusal::SelectionInvalid);
                }
            },
            _ => {},
        }
        Ok(())
    }

    /// Publishes the session of a workspace that opened, under the next
    /// serial number; refused once the numbers are used up.
    pub fn publish(&mut self) -> (r: Result<u64, Refusal>)
        ensures
            old(self).serial == u64::MAX ==> r == Err::<u64, Refusal>(Refusal::GenerationExhausted) && *final(self)
                == *old(self),
            old(self).serial < u64::MAX ==> r == Ok::<u64, Refusal>((old(self).serial + 1) as u64) && final(self).serial
                == old(self).serial + 1 && final(self).session == Some((old(self).serial + 1) as u64)
                && final(self).initialized == old(self).initialized && final(self).closing == old(self).closing,
    {
        match self.serial.checked_add(1) {
            Some(next) => {
                self.serial = next;
                self.session = Some(next);
                Ok(next)
            },
            None => Err(Refusal::GenerationExhausted),
        }
    }

    /// Accepts a request that names the open session, and only such a request.
    pub fn check_session(&self, requested: &str) -> (r: Result<(), Refusal>)
        ensures
            r is Ok <==> (self.session matches Some(s) && session_id_spec(s) == requested@),
            r is Err ==> r == Err::<(), Refusal>(Refusal::UnknownSession),
    {
        match self.session {
            Some(s) => {
                let id = session_id(s);
                if str_eq(id.as_str(), requested) {
                    Ok(())
                } else {
                    Err(Refusal::UnknownSession)
                }
            },
            None => Err(Refusal::UnknownSession),
        }
    }

    /// Closes the open workspace.
    pub fn close(&mut self)
        ensures
            final(self).session is None,
            final(self).initialized == old(self).initialized,
            final(self).closing == old(self).closing,
            final(self).serial == old(self).serial,
    {
        self.session = None;
    }

    /// Shuts the server down: the session closes and no request is taken
    /// any more.
    pub fn shutdown(&mut self)
        ensures
            final(self).session is None,
            final(self).closing,
            final(self).initialized == old(self).initialized,
            final(self).serial == old(self).serial,
    {
        self.session = None;
        self.closing = true;
    }
}

/// Before the handshake the server takes nothing but the handshake, and
/// once it closes it takes nothing at all.
pub proof fn lemma_lifecycle_gates(
    initialized: bool,
    closing: bool,
    method: Seq<char>,
    is_object: bool,
    nulls: Seq<Seq<char>>,
)
    ensures
        closing ==> route_spec(initialized, closing, method, is_object, nulls) == Err::<Route, Refusal>(
            Refusal::InvalidState(StateName::Closing),
        ),
        route_spec(initialized, closing, method, is_object, nulls) is Ok && !initialized ==> route_spec(
            initialized,
            closing,
            method,
            is_object,
            nulls,
        ) == Ok::<Route, Refusal>(Route::Initialize),
{
}

/// The handshake succeeds once: a second one is refused whatever it asks.
pub proof fn lemma_handshake_once(request: Option<InitRequest>, again: Option<InitRequest>)
    ensures
        initialize_spec(false, request) is Ok ==> initialize_spec(true, again) == Err::<(), Refusal>(
            Refusal::InvalidState(StateName::Initialized),
        ),
{
}

/// Sessions published under different serial numbers have different
/// identifiers, so a request for an earlier session never reaches a later one.
pub proof fn lemma_session_ids_distinct(a: u64, b: u64)
    requires
        a != b,
    ensures
        session_id_spec(a) != session_id_spec(b),
{
    lemma_counter_reads_decimal(a);
    lemma_counter_reads_decimal(b);
    reveal_strlit("s");
    if session_id_spec(a) == session_id_spec(b) {
        assert(session_id_spec(a).drop_first() =~= decimal_text(a as nat));
        assert(session_id_spec(b).drop_first() =~= decimal_text(b as nat));
    }
}

/// The counter after one more turn: it wraps from the largest value to zero.
pub open spec fn next_turn(turn: usize) -> usize {
    if turn == usize::MAX {
        0
    } else {
        (turn + 1) as usize
    }
}

/// The project to index next, looking at most once at each project in turn
/// from `turn` on, and the counter after the projects looked at; `k`
/// projects were looked at already.
pub open spec fn index_turn_spec(turn: usize, indexing: Seq<bool>, k: nat) -> (Option<usize>, usize)
    decreases indexing.len() - k,
{
    if k >= indexing.len() {
        (None, turn)
    } else if indexing[turn as int % indexing.len() as int] {
        (Some((turn as int % indexing.len() as int) as usize), next_turn(turn))
    } else {
        index_turn_spec(next_turn(turn), indexing, k + 1)
    }
}

/// Chooses the project whose index is built next, so that no project keeps
/// the idle time for itself: `indexing` says which projects have an index
/// to build and may build it now; `turn` is the counter that rotates among
/// them. Returns the chosen project, if any, and the counter after it.
pub fn next_index_turn(turn: usize, indexing: &Vec<bool>) -> (r: (Option<usize>, usize))
    ensures
        r == index_turn_spec(turn, indexing@, 0),
{
    let n = indexing.len();
    let mut at = turn;
    let mut k: usize = 0;
    while k < n
        invariant
            n == indexing@.len(),
            k <= n,
            index_turn_spec(at, indexing@, k as nat) == index_turn_spec(turn, indexing@, 0),
        decreases n - k,
    {
        let index = at % n;
        let next = at.wrapping_add(1);
        assert(next == next_turn(at));
        if indexing[index] {
            return (Some(index), next);
        }
        at = next;
        k = k + 1;
    }
    (None, at)
}

proof fn lemma_turn_scan(turn: usize, indexing: Seq<bool>, k: nat)
    requires
        k <= indexing.len(),
        turn + indexing.len() <= usize::MAX,
    ensures
        ({
            let r = index_turn_spec((turn + k) as usize, indexing, k);
            &&& (r.0 is None <==> forall|i: int|
                k <= i < indexing.len() ==> !#[trigger] indexing[(turn + i) % (indexing.len() as int)])
            &&& (r.0 matches Some(j) ==> j < indexing.len() && indexing[j as int])
        }),
    decreases indexing.len() - k,
{
    if k < indexing.len() {
        lemma_turn_scan(turn, indexing, k + 1);
        assert(next_turn((turn + k) as usize) == (turn + k + 1) as usize);
    }
}

proof fn lemma_turns_cover(turn: usize, n: int, j: int) -> (i: int)
    requires
        0 <= j < n,
    ensures
        0 <= i < n,
        (turn + i) % n == j,
{
    lemma_fundamental_div_mod(turn as int, n);
    let q = turn as int / n;
    let r = turn as int % n;
    lemma_small_mod(j as nat, n as nat);
    if j >= r {
        lemma_mod_multiples_vanish(q, j, n);
        assert(turn + (j - r) == n * q + j);
        j - r
    } else {
        lemma_mod_multiples_vanish(q + 1, j, n);
        assert(n * (q + 1) == n * q + n) by (nonlinear_arith);
        assert(turn + (j + n - r) == n * (q + 1) + j);
        j + n - r
    }
}

/// One pass of indexing turns looks at every project once while its counter
/// does not wrap: it chooses a project only where that project has an index
/// to build, and it passes over the projects only when none has.
pub proof fn lemma_index_turn_fair(turn: usize, indexing: Seq<bool>)
    requires
        turn + indexing.len() <= usize::MAX,
    ensures
        index_turn_spec(turn, indexing, 0).0 is None <==> forall|j: int| 0 <= j < indexing.len() ==> !#[trigger] indexing[j],
        index_turn_spec(turn, indexing, 0).0 matches Some(j) ==> j < indexing.len() && indexing[j as int],
{
    let n = indexing.len() as int;
    lemma_turn_scan(turn, indexing, 0);
    assert((turn + 0) as usize == turn);
    if index_turn_spec(turn, indexing, 0).0 is None {
        assert forall|j: int| 0 <= j < n implies !#[trigger] indexing[j] by {
            let i = lemma_turns_cover(turn, n, j);
            assert(!indexing[(turn + i) % n]);
        }
    }
}

/// The counter `k` turns after `turn`, wrapping from the largest value to zero.
pub open spec fn turns_after(turn: usize, k: int) -> usize {
    ((turn + k) % (usize::MAX + 1)) as usize
}

proof fn lemma_turn_scan_any(turn: usize, indexing: Seq<bool>, k: nat)
    requires
        k <= indexing.len(),
    ensures
        ({
            let r = index_turn_spec(turn, indexing, k);
            &&& (r.0 matches Some(j) ==> j < indexing.len() && indexing[j as int])
            &&& (r.0 is None ==> r.1 == turns_after(turn, indexing.len() - k))
        }),
    decreases indexing.len() - k,
{
    let m = usize::MAX + 1;
    if k < indexing.len() {
        lemma_turn_scan_any(next_turn(turn), indexing, k + 1);
        let rest = indexing.len() - (k + 1);
        assert(next_turn(turn) as int == (turn + 1) % m) by {
            if turn < usize::MAX {
                lemma_small_mod((turn + 1) as nat, m as nat);
            } else {
                lemma_mod_add_multiples_vanish(0, m);
                lemma_small_mod(0, m as nat);
            }
        }
        lemma_add_mod_noop(turn + 1, rest, m);
        lemma_add_mod_noop(next_turn(turn) as int, rest, m);
        lemma_small_mod(next_turn(turn) as nat, m as nat);
        assert((next_turn(turn) + rest) % m == (turn + (rest + 1)) % m);
        assert(turns_after(next_turn(turn), rest) == turns_after(turn, indexing.len() - k));
        let j = turn as int % indexing.len() as int;
        lemma_fundamental_div_mod(turn as int, indexing.len() as int);
        assert(0 <= j < indexing.len());
        assert(j <= turn) by {
            if turn < indexing.len() {
                lemma_small_mod(turn as nat, indexing.len());
            } else {
                assert((turn as int / indexing.len() as int) >= 1) by (nonlinear_arith)
                    requires
                        turn >= indexing.len(),
                        indexing.len() > 0,
                        turn == indexing.len() * (turn as int / indexing.len() as int) + j,
                        j < indexing.len(),
                ;
                assert(indexing.len() * (turn as int / indexing.len() as int) >= indexing.len()) by (nonlinear_arith)
                    requires
                        (turn as int / indexing.len() as int) >= 1,
                        indexing.len() > 0,
                ;
            }
        }
        assert((j as usize) as int == j);
        if !indexing[j] {
            assert(index_turn_spec(turn, indexing, k) == index_turn_spec(next_turn(turn), indexing, k + 1));
        }
    } else {
        lemma_small_mod(turn as nat, m as nat);
    }
}

/// Whatever the counter, a pass of indexing turns chooses a project only
/// where that project has an index to build; a pass that chooses none
/// leaves the counter as many turns on as there are projects.
pub proof fn lemma_index_turn_sound(turn: usize, indexing: Seq<bool>)
    ensures
        index_turn_spec(turn, indexing, 0).0 matches Some(j) ==> j < indexing.len() && indexing[j as int],
        index_turn_spec(turn, indexing, 0).0 is None ==> index_turn_spec(turn, indexing, 0).1 == turns_after(
            turn,
            indexing.len() as int,
        ),
{
    lemma_turn_scan_any(turn, indexing, 0);
}

/// For a counter that wraps, two passes in a row never both pass over a
/// project that has an index to build: a pass during which the counter
/// wraps leaves it below the number of projects, so the next pass looks at
/// every project.
pub proof fn lemma_index_turn_fair_across_wrap(turn: usize, indexing: Seq<bool>)
    requires
        2 * indexing.len() <= usize::MAX + 1,
    ensures
        ({
            let first = index_turn_spec(turn, indexing, 0);
            let second = index_turn_spec(first.1, indexing, 0);
            first.0 is None && second.0 is None ==> forall|j: int| 0 <= j < indexing.len() ==> !#[trigger] indexing[j]
        }),
{
    let n = indexing.len() as int;
    let m = usize::MAX + 1;
    let first = index_turn_spec(turn, indexing, 0);
    if first.0 is None {
        lemma_index_turn_sound(turn, indexing);
        if turn + n <= usize::MAX {
            lemma_index_turn_fair(turn, indexing);
        } else {
            lemma_mod_add_multiples_vanish(turn + n - m, m);
            lemma_small_mod((turn + n - m) as nat, m as nat);
            assert(first.1 == turn + n - m);
            lemma_index_turn_fair(first.1, indexing);
        }
    }
}


/// Each lifecycle method is served by its own route: `initialize` before or
/// after the handshake, and, once the handshake is done and while the
/// server is not closing, `workspace/open`, `project/info`,
/// `workspace/close` and `shutdown`, whenever the parameters form an object
/// and no parameter that may be left out is given as null.
pub proof fn lemma_lifecycle_methods_route(initialized: bool, nulls: Seq<Seq<char>>)
    ensures
        !nulls.contains("locale"@) ==> route_spec(initialized, false, "initialize"@, true, nulls) == Ok::<
            Route,
            Refusal,
        >(Route::Initialize),
        !nulls.contains("diskCache"@) ==> route_spec(true, false, "workspace/open"@, true, nulls) == Ok::<
            Route,
            Refusal,
        >(Route::Open),
        route_spec(true, false, "project/info"@, true, nulls) == Ok::<Route, Refusal>(Route::Info),
        route_spec(true, false, "workspace/close"@, true, nulls) == Ok::<Route, Refusal>(Route::Close),
        route_spec(true, false, "shutdown"@, true, nulls) == Ok::<Route, Refusal>(Route::Shutdown),
{
    reveal_strlit("initialize");
    reveal_strlit("workspace/open");
    reveal_strlit("project/info");
    reveal_strlit("workspace/close");
    reveal_strlit("shutdown");
    reveal_strlit("locale");
    reveal_strlit("diskCache");
    reveal_strlit("metadata/children");
    reveal_strlit("metadata/search");
    reveal_strlit("metadata/refresh");
    reveal_strlit("metadata/indexErrors");
    assert(optional_names("initialize"@) == seq!["locale"@]);
    if !nulls.contains("locale"@) {
        assert(!null_optional("initialize"@, nulls)) by {
            if null_optional("initialize"@, nulls) {
                let (i, j) = choose|i: int, j: int|
                    0 <= i < nulls.len() && 0 <= j < optional_names("initialize"@).len() && #[trigger] nulls[i]
                        == #[trigger] optional_names("initialize"@)[j];
                assert(nulls[i] == "locale"@);
            }
        }
    }
    assert("workspace/open"@ != "initialize"@) by {
        assert("workspace/open"@.len() != "initialize"@.len());
    }
    assert(optional_names("workspace/open"@) == seq!["diskCache"@]);
    if !nulls.contains("diskCache"@) {
        assert(!null_optional("workspace/open"@, nulls)) by {
            if null_optional("workspace/open"@, nulls) {
                let (i, j) = choose|i: int, j: int|
                    0 <= i < nulls.len() && 0 <= j < optional_names("workspace/open"@).len() && #[trigger] nulls[i]
                        == #[trigger] optional_names("workspace/open"@)[j];
                assert(nulls[i] == "diskCache"@);
            }
        }
    }
    let others = seq!["project/info"@, "workspace/close"@, "shutdown"@];
    assert forall|k: int| 0 <= k < 3 implies optional_names(#[trigger] others[k]).len() == 0 && !null_optional(
        others[k],
        nulls,
    ) by {
        let m = others[k];
        assert(m.len() != "initialize"@.len() || m[0] != "initialize"@[0]);
        assert(m != "initialize"@);
        assert(m.len() != "workspace/open"@.len());
        assert(m != "metadata/children"@) by { assert(m.len() != "metadata/children"@.len()); }
        assert(m != "metadata/search"@) by { assert(m[0] != "metadata/search"@[0]); }
        assert(m != "metadata/refresh"@) by { assert(m[0] != "metadata/refresh"@[0]); }
        assert(m != "metadata/indexErrors"@) by { assert(m.len() != "metadata/indexErrors"@.len()); }
    }
    assert(others[0] == "project/info"@);
    assert(others[1] == "workspace/close"@);
    assert(others[2] == "shutdown"@);
    assert("project/info"@ != "workspace/open"@) by { assert("project/info"@.len() != "workspace/open"@.len()); }
    assert("workspace/close"@ != "workspace/open"@) by { assert("workspace/close"@.len() != "workspace/open"@.len()); }
    assert("workspace/close"@ != "project/info"@) by { assert("workspace/close"@.len() != "project/info"@.len()); }
    assert("shutdown"@ != "project/info"@) by { assert("shutdown"@.len() != "project/info"@.len()); }
    assert("shutdown"@ != "workspace/close"@) by { assert("shutdown"@.len() != "workspace/close"@.len()); }
}


/// Refusals come before the method: a closing server refuses everything,
/// a server before the handshake refuses all but `initialize`, and
/// parameters that are not an object are invalid; a method that is neither
/// a lifecycle nor a metadata method is not found.
pub proof fn lemma_lifecycle_refusals(initialized: bool, method: Seq<char>, is_object: bool, nulls: Seq<Seq<char>>)
    ensures
        route_spec(initialized, true, method, is_object, nulls) == Err::<Route, Refusal>(
            Refusal::InvalidState(StateName::Closing),
        ),
        method != "initialize"@ ==> route_spec(false, false, method, is_object, nulls) == Err::<Route, Refusal>(
            Refusal::InvalidState(StateName::Uninitialized),
        ),
        (initialized || method == "initialize"@) ==> route_spec(initialized, false, method, false, nulls) == Err::<
            Route,
            Refusal,
        >(Refusal::InvalidParams),
        (method != "initialize"@ && method != "workspace/open"@ && method != "project/info"@ && method
            != "workspace/close"@ && method != "shutdown"@ && !is_metadata_method(method) && !null_optional(
            method,
            nulls,
        )) ==> route_spec(true, false, method, true, nulls) == Err::<Route, Refusal>(Refusal::MethodNotFound),
        is_metadata_method(method) && !null_optional(method, nulls) ==> route_spec(true, false, method, true, nulls)
            == Ok::<Route, Refusal>(Route::Metadata),
{
    reveal_strlit("initialize");
    reveal_strlit("workspace/open");
    reveal_strlit("project/info");
    reveal_strlit("workspace/close");
    reveal_strlit("shutdown");
    reveal_strlit("metadata/root");
    reveal_strlit("metadata/children");
    reveal_strlit("metadata/get");
    reveal_strlit("metadata/properties");
    reveal_strlit("metadata/source");
    reveal_strlit("metadata/search");
    reveal_strlit("metadata/reveal");
    reveal_strlit("metadata/refresh");
    reveal_strlit("metadata/index");
    reveal_strlit("metadata/indexErrors");
    if is_metadata_method(method) {
        assert(method[0] == 'm');
        assert(method != "initialize"@ && method != "workspace/open"@ && method != "project/info"@);
        assert(method != "workspace/close"@ && method != "shutdown"@);
    }
}

} // verus!
