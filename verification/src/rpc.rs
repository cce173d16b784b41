//! JSON-RPC rules that do not depend on a JSON representation: error codes,
//! correlation identifiers, counters, limits and the nesting bound.

use vstd::prelude::*;
use vstd::string::*;
use vstd::utf8::*;
use crate::text::{contains_text, decimal_text, find_text};

verus! {

/// JSON-RPC code for a document that is not JSON.
pub const PARSE_ERROR: i32 = -32700;

/// JSON-RPC code for a malformed request envelope.
pub const INVALID_REQUEST: i32 = -32600;

/// JSON-RPC code for an unknown method.
pub const METHOD_NOT_FOUND: i32 = -32601;

/// JSON-RPC code for parameters of the wrong shape.
pub const INVALID_PARAMS: i32 = -32602;

/// JSON-RPC code for a request that the domain refused.
pub const REQUEST_FAILED: i32 = -32000;

/// Deepest accepted nesting of arrays and objects.
pub const MAX_DEPTH: usize = 64;

/// Largest numeric identifier: the greatest integer that JavaScript represents exactly.
pub const MAX_SAFE_ID: u64 = 9007199254740991;

/// A JSON-RPC error without localized text.
#[derive(Clone, Copy, Debug, PartialEq, Eq, Structural)]
pub struct RpcError {
    pub code: i32,
}

/// Text equality, character by character.
pub fn str_eq(a: &str, b: &str) -> (r: bool)
    ensures
        r == (a@ == b@),
{
    let n = a.unicode_len();
    if n != b.unicode_len() {
        return false;
    }
    let mut i: usize = 0;
    while i < n
        invariant
            n == a@.len() == b@.len(),
            i <= n,
            forall|j: int| 0 <= j < i ==> a@[j] == b@[j],
        decreases n - i,
    {
        if a.get_char(i) != b.get_char(i) {
            return false;
        }
        i = i + 1;
    }
    assert(a@ =~= b@);
    true
}

/// The fixed English message of a JSON-RPC error code.
pub fn error_message(code: i32) -> (message: &'static str)
    ensures
        code == PARSE_ERROR ==> message@ == "Parse error"@,
        code == INVALID_REQUEST ==> message@ == "Invalid Request"@,
        code == METHOD_NOT_FOUND ==> message@ == "Method not found"@,
        code == INVALID_PARAMS ==> message@ == "Invalid params"@,
        code != PARSE_ERROR && code != INVALID_REQUEST && code != METHOD_NOT_FOUND && code
            != INVALID_PARAMS ==> message@ == "Internal error"@,
{
    if code == PARSE_ERROR {
        "Parse error"
    } else if code == INVALID_REQUEST {
        "Invalid Request"
    } else if code == METHOD_NOT_FOUND {
        "Method not found"
    } else if code == INVALID_PARAMS {
        "Invalid params"
    } else {
        "Internal error"
    }
}

/// Where a scan of JSON text stands: nesting depth, inside a string, after a backslash.
pub struct ScanState {
    pub depth: nat,
    pub string: bool,
    pub escape: bool,
}

/// The scan state after one more byte. Brackets inside strings do not count,
/// and a closing bracket never takes the depth below zero.
pub open spec fn scan_step(state: ScanState, b: u8) -> ScanState {
    if state.string {
        if state.escape {
            ScanState { escape: false, ..state }
        } else if b == 92 {
            ScanState { escape: true, ..state }
        } else if b == 34 {
            ScanState { string: false, ..state }
        } else {
            state
        }
    } else if b == 34 {
        ScanState { string: true, ..state }
    } else if b == 123 || b == 91 {
        ScanState { depth: state.depth + 1, ..state }
    } else if b == 125 || b == 93 {
        ScanState {
            depth: if state.depth > 0 {
                (state.depth - 1) as nat
            } else {
                0
            },
            ..state
        }
    } else {
        state
    }
}

/// The scan state after the bytes `s`.
pub open spec fn scan_state(s: Seq<u8>) -> ScanState
    decreases s.len(),
{
    if s.len() == 0 {
        ScanState { depth: 0, string: false, escape: false }
    } else {
        scan_step(scan_state(s.drop_last()), s.last())
    }
}

/// Some prefix of the document opens more than the accepted number of levels.
pub open spec fn too_deep(s: Seq<u8>) -> bool {
    exists|i: int| 0 < i <= s.len() && #[trigger] scan_state(s.subrange(0, i)).depth > MAX_DEPTH
}

/// Whether the document nests arrays and objects deeper than allowed; checked
/// before any parser recursion.
pub fn exceeds_depth(body: &[u8]) -> (r: bool)
    ensures
        r == too_deep(body@),
{
    let mut depth: usize = 0;
    let mut string = false;
    let mut escape = false;
    let mut i: usize = 0;
    assert(body@.subrange(0, 0) =~= Seq::<u8>::empty());
    while i < body.len()
        invariant
            i <= body@.len(),
            depth <= MAX_DEPTH,
            scan_state(body@.subrange(0, i as int)) == (ScanState { depth: depth as nat, string, escape }),
            forall|k: int| 0 < k <= i ==> #[trigger] scan_state(body@.subrange(0, k)).depth <= MAX_DEPTH,
        decreases body.len() - i,
    {
        let byte = body[i];
        proof {
            assert(body@.subrange(0, i + 1).drop_last() =~= body@.subrange(0, i as int));
        }
        if string {
            if escape {
                escape = false;
            } else if byte == 92 {
                escape = true;
            } else if byte == 34 {
                string = false;
            }
        } else if byte == 34 {
            string = true;
        } else if byte == 123 || byte == 91 {
            depth = depth + 1;
            if depth > MAX_DEPTH {
                assert(scan_state(body@.subrange(0, i + 1)).depth > MAX_DEPTH);
                return true;
            }
        } else if byte == 125 || byte == 93 {
            if depth > 0 {
                depth = depth - 1;
            }
        }
        i = i + 1;
    }
    false
}

/// The error code for a document that the JSON parser refused, from the
/// parser's description: a repeated key makes the request invalid, anything
/// else is a parse error.
pub fn parse_failure_code(description: &str) -> (code: i32)
    ensures
        code == if contains_text(description@, "duplicate JSON key"@) {
            INVALID_REQUEST
        } else {
            PARSE_ERROR
        },
{
    if find_text(description, "duplicate JSON key").is_some() {
        INVALID_REQUEST
    } else {
        PARSE_ERROR
    }
}

/// The value of a run of decimal digit characters.
pub open spec fn decimal_value(s: Seq<char>) -> nat
    decreases s.len(),
{
    if s.len() == 0 {
        0
    } else {
        decimal_value(s.drop_last()) * 10 + ((s.last() as u32 - 48) as nat)
    }
}

pub open spec fn all_decimal(s: Seq<char>) -> bool {
    s.len() > 0 && forall|i: int| 0 <= i < s.len() ==> '0' <= #[trigger] s[i] <= '9'
}

/// Generations and sequence numbers travel as decimal `u64` strings, never as
/// JSON numbers.
pub fn counter(value: &str) -> (r: Result<u64, RpcError>)
    ensures
        all_decimal(value@) && decimal_value(value@) <= u64::MAX ==> r == Ok::<u64, RpcError>(
            decimal_value(value@) as u64,
        ),
        !(all_decimal(value@) && decimal_value(value@) <= u64::MAX) ==> r == Err::<u64, RpcError>(
            RpcError { code: INVALID_PARAMS },
        ),
{
    let n = value.unicode_len();
    if n == 0 {
        return Err(RpcError { code: INVALID_PARAMS });
    }
    let mut i: usize = 0;
    while i < n
        invariant
            n == value@.len(),
            i <= n,
            forall|j: int| 0 <= j < i ==> '0' <= #[trigger] value@[j] <= '9',
        decreases n - i,
    {
        let c = value.get_char(i);
        if !('0' <= c && c <= '9') {
            return Err(RpcError { code: INVALID_PARAMS });
        }
        i = i + 1;
    }
    let mut total: u64 = 0;
    let mut k: usize = 0;
    assert(value@.subrange(0, 0) =~= Seq::<char>::empty());
    while k < n
        invariant
            n == value@.len(),
            k <= n,
            all_decimal(value@),
            total == decimal_value(value@.subrange(0, k as int)),
            forall|j: int| 0 < j <= k ==> decimal_value(value@.subrange(0, j)) <= u64::MAX,
        decreases n - k,
    {
        let c = value.get_char(k);
        let digit = (c as u32 - 48) as u64;
        assert(value@.subrange(0, k + 1).drop_last() =~= value@.subrange(0, k as int));
        match total.checked_mul(10) {
            Some(scaled) => match scaled.checked_add(digit) {
                Some(next) => {
                    total = next;
                },
                None => {
                    proof {
                        lemma_decimal_value_grows(value@, k + 1);
                    }
                    return Err(RpcError { code: INVALID_PARAMS });
                },
            },
            None => {
                proof {
                    lemma_decimal_value_grows(value@, k + 1);
                }
                return Err(RpcError { code: INVALID_PARAMS });
            },
        }
        k = k + 1;
    }
    assert(value@.subrange(0, n as int) =~= value@);
    Ok(total)
}

/// A longer prefix of digits never denotes a smaller number.
pub(crate) proof fn lemma_decimal_value_grows(s: Seq<char>, j: int)
    requires
        all_decimal(s),
        0 <= j <= s.len(),
    ensures
        decimal_value(s.subrange(0, j)) <= decimal_value(s),
    decreases s.len() - j,
{
    if j < s.len() {
        lemma_decimal_value_grows(s, j + 1);
        assert(s.subrange(0, j + 1).drop_last() =~= s.subrange(0, j));
    } else {
        assert(s.subrange(0, j) =~= s);
    }
}

/// A page size: 50 when none is given, and otherwise between 1 and 500.
pub fn limit(value: Option<usize>) -> (r: Result<usize, RpcError>)
    ensures
        ({
            let v = match value {
                Some(v) => v,
                None => 50,
            };
            if 1 <= v <= 500 {
                r == Ok::<usize, RpcError>(v)
            } else {
                r == Err::<usize, RpcError>(RpcError { code: INVALID_PARAMS })
            }
        }),
{
    let v = match value {
        Some(v) => v,
        None => 50,
    };
    if 1 <= v && v <= 500 {
        Ok(v)
    } else {
        Err(RpcError { code: INVALID_PARAMS })
    }
}

/// Recognizes the request-only metadata methods.
pub fn is_method(method: &str) -> (r: bool)
    ensures
        r == (method@ == "metadata/root"@ || method@ == "metadata/children"@ || method@
            == "metadata/get"@ || method@ == "metadata/properties"@ || method@
            == "metadata/source"@ || method@ == "metadata/search"@ || method@
            == "metadata/reveal"@ || method@ == "metadata/refresh"@ || method@
            == "metadata/index"@ || method@ == "metadata/indexErrors"@),
{
    str_eq(method, "metadata/root") || str_eq(method, "metadata/children") || str_eq(
        method,
        "metadata/get",
    ) || str_eq(method, "metadata/properties") || str_eq(method, "metadata/source") || str_eq(
        method,
        "metadata/search",
    ) || str_eq(method, "metadata/reveal") || str_eq(method, "metadata/refresh") || str_eq(
        method,
        "metadata/index",
    ) || str_eq(method, "metadata/indexErrors")
}

/// A request identifier as it arrived, reduced to what validation reads.
pub enum IdCandidate {
    /// A JSON string.
    Text(String),
    /// A JSON number that is a non-negative integer.
    Unsigned(u64),
    /// Any other JSON value, other numbers included.
    Other,
}

/// A validated correlation identifier; numbers and texts never compare equal.
#[derive(Clone, Debug, PartialEq, Eq)]
pub enum Id {
    Number(u64),
    Text(String),
}

/// An identifier as a value: its number or its text.
pub enum IdView {
    Number(u64),
    Text(Seq<char>),
}

impl View for Id {
    type V = IdView;

    open spec fn view(&self) -> IdView {
        match self {
            Id::Number(n) => IdView::Number(*n),
            Id::Text(t) => IdView::Text(t@),
        }
    }
}

impl Id {
    /// A copy of the identifier.
    pub fn duplicate(&self) -> (r: Id)
        ensures
            r@ == self@,
    {
        match self {
            Id::Number(n) => Id::Number(*n),
            Id::Text(t) => Id::Text(t.clone()),
        }
    }

    /// Whether two identifiers are the same correlation key.
    pub fn same(&self, other: &Id) -> (r: bool)
        ensures
            r == (self@ == other@),
    {
        match (self, other) {
            (Id::Number(a), Id::Number(b)) => *a == *b,
            (Id::Text(a), Id::Text(b)) => *a == *b,
            _ => false,
        }
    }

    /// Texts must be non-empty ASCII of at most 64 characters, numbers at most
    /// the largest integer that JavaScript represents exactly.
    pub fn parse(value: &IdCandidate) -> (r: Option<Id>)
        ensures
            match value {
                IdCandidate::Text(t) => if 0 < t@.len() <= 64 && is_ascii_chars(t@) {
                    r matches Some(Id::Text(u)) && u@ == t@
                } else {
                    r is None
                },
                IdCandidate::Unsigned(n) => if *n <= MAX_SAFE_ID {
                    r matches Some(Id::Number(m)) && m == *n
                } else {
                    r is None
                },
                IdCandidate::Other => r is None,
            },
    {
        match value {
            IdCandidate::Text(t) => {
                let s = t.as_str();
                if s.is_ascii() {
                    let n = s.unicode_len();
                    if 0 < n && n <= 64 {
                        return Some(Id::Text(t.clone()));
                    }
                }
                None
            },
            IdCandidate::Unsigned(n) => {
                if *n <= MAX_SAFE_ID {
                    Some(Id::Number(*n))
                } else {
                    None
                }
            },
            IdCandidate::Other => None,
        }
    }
}

/// The decimal form of every `u64` is accepted as a counter and denotes the
/// same number, so counters travel as text without loss.
pub proof fn lemma_counter_reads_decimal(n: u64)
    ensures
        all_decimal(decimal_text(n as nat)),
        decimal_value(decimal_text(n as nat)) == n,
{
    lemma_decimal_text(n as nat);
}

proof fn lemma_decimal_text(n: nat)
    ensures
        all_decimal(decimal_text(n)),
        decimal_value(decimal_text(n)) == n,
    decreases n,
{
    let d = decimal_text(n);
    if n >= 10 {
        lemma_decimal_text(n / 10);
        assert(d.drop_last() =~= decimal_text(n / 10));
        assert(d.last() == (48 + n % 10) as char);
        assert(((d.last() as u32 - 48) as nat) == n % 10);
        assert((n / 10) * 10 + n % 10 == n) by (nonlinear_arith);
        assert forall|i: int| 0 <= i < d.len() implies '0' <= #[trigger] d[i] <= '9' by {
            if i < d.len() - 1 {
                assert(d[i] == decimal_text(n / 10)[i]);
            }
        }
    } else {
        assert(d.drop_last() =~= Seq::<char>::empty());
        assert(decimal_value(Seq::<char>::empty()) == 0);
    }
}

} // verus!
