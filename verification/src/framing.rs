//! Bounded `Content-Length` framing of IDE messages. A malformed boundary is
//! terminal: the reader never tries to resynchronize on a damaged stream.

use vstd::prelude::*;
use vstd::utf8::*;
use vstd::slice::slice_to_vec;
use crate::text::utf8_text;

verus! {

/// Longest accepted header block, terminator included.
pub const MAX_HEADER: usize = 8192;

/// Largest accepted request body.
pub const MAX_REQUEST: usize = 1048576;

/// Largest body that a response may carry.
pub const MAX_RESPONSE: usize = 67108864;

/// Why a frame could not be read or written.
#[derive(Clone, Copy, Debug, PartialEq, Eq, Structural)]
pub enum FrameError {
    /// The bytes break the framing rules.
    InvalidData,
    /// The input ended inside a frame body.
    UnexpectedEof,
}

/// What one more header byte means for the header read so far.
#[derive(Clone, Copy, Debug, PartialEq, Eq, Structural)]
pub enum HeaderStep {
    More,
    Complete,
    Invalid,
}

/// The outcome of reading one frame from the start of a byte stream.
pub enum FrameOutcome {
    /// The stream ended cleanly before any header byte.
    End,
    /// A frame was read; `consumed` bytes of the stream belong to it.
    Frame { body: Seq<u8>, consumed: int },
    /// The stream is unusable from here on.
    Failed(FrameError),
}

pub open spec fn is_crlf(s: Seq<u8>, p: int) -> bool {
    0 <= p && p + 1 < s.len() && s[p] == 13 && s[p + 1] == 10
}

/// The four bytes before `k` are the blank line that ends a header.
pub open spec fn is_header_end(w: Seq<u8>, k: int) -> bool {
    4 <= k <= w.len() && is_crlf(w, k - 4) && is_crlf(w, k - 2)
}

/// A header byte is ASCII, and a line feed only ever follows a carriage return.
pub open spec fn header_byte_ok(w: Seq<u8>, j: int) -> bool {
    w[j] < 128 && (w[j] == 10 ==> j >= 1 && w[j - 1] == 13)
}

/// The stream starts with a complete, acceptable header of `k` bytes.
pub open spec fn header_complete_at(w: Seq<u8>, k: int) -> bool {
    &&& is_header_end(w, k)
    &&& k <= MAX_HEADER
    &&& forall|k2: int| 0 <= k2 < k ==> !#[trigger] is_header_end(w, k2)
    &&& forall|j: int| 0 <= j < k ==> #[trigger] header_byte_ok(w, j)
}

/// The meaning of appending `b` to the header bytes `h` read so far.
pub open spec fn header_step_spec(h: Seq<u8>, b: u8) -> HeaderStep {
    let h2 = h.push(b);
    if h2.len() > MAX_HEADER || b >= 128 {
        HeaderStep::Invalid
    } else if b == 10 && !(h.len() >= 1 && h.last() == 13) {
        HeaderStep::Invalid
    } else if is_header_end(h2, h2.len() as int) {
        HeaderStep::Complete
    } else {
        HeaderStep::More
    }
}

/// A body starts with the UTF-8 byte order mark.
pub open spec fn has_bom(body: Seq<u8>) -> bool {
    body.len() >= 3 && body[0] == 0xef && body[1] == 0xbb && body[2] == 0xbf
}

/// A request body is UTF-8 text without a byte order mark.
pub open spec fn body_acceptable(body: Seq<u8>) -> bool {
    !has_bom(body) && valid_utf8(body)
}

/// Offset of the first CRLF in `s`, or its length when there is none.
pub open spec fn line_end(s: Seq<u8>) -> int
    decreases s.len(),
{
    if s.len() < 2 {
        s.len() as int
    } else if s[0] == 13 && s[1] == 10 {
        0
    } else {
        1 + line_end(s.drop_first())
    }
}

/// The header text split at every CRLF.
pub open spec fn header_lines(s: Seq<u8>) -> Seq<Seq<u8>>
    decreases s.len(),
{
    let p = line_end(s);
    if 0 <= p && p + 2 <= s.len() {
        seq![s.subrange(0, p)] + header_lines(s.subrange(p + 2, s.len() as int))
    } else {
        seq![s]
    }
}

/// Offset of the first `:` in a line, or its length when there is none.
pub open spec fn first_colon(line: Seq<u8>) -> int
    decreases line.len(),
{
    if line.len() == 0 || line[0] == 58 {
        0
    } else {
        1 + first_colon(line.drop_first())
    }
}

pub open spec fn field_name(line: Seq<u8>) -> Seq<u8> {
    line.subrange(0, first_colon(line))
}

pub open spec fn field_value(line: Seq<u8>) -> Seq<u8> {
    line.subrange(first_colon(line) + 1, line.len() as int)
}

/// Letters, digits and `-` may form a field name.
pub open spec fn is_name_byte(b: u8) -> bool {
    (48 <= b <= 57) || (65 <= b <= 90) || (97 <= b <= 122) || b == 45
}

/// Spaces, tabs and visible ASCII may form a field value.
pub open spec fn is_value_byte(b: u8) -> bool {
    b == 32 || b == 9 || (33 <= b <= 126)
}

pub open spec fn is_blank(b: u8) -> bool {
    b == 32 || b == 9
}

pub open spec fn is_digit(b: u8) -> bool {
    48 <= b <= 57
}

/// A line is `name:value` with a non-empty name and permitted bytes on both sides.
pub open spec fn line_well_formed(line: Seq<u8>) -> bool {
    &&& first_colon(line) < line.len()
    &&& field_name(line).len() > 0
    &&& forall|i: int| 0 <= i < field_name(line).len() ==> is_name_byte(#[trigger] field_name(line)[i])
    &&& forall|i: int| 0 <= i < field_value(line).len() ==> is_value_byte(#[trigger] field_value(line)[i])
}

pub open spec fn trim_start(v: Seq<u8>) -> Seq<u8>
    decreases v.len(),
{
    if v.len() > 0 && is_blank(v[0]) {
        trim_start(v.drop_first())
    } else {
        v
    }
}

pub open spec fn trim_end(v: Seq<u8>) -> Seq<u8>
    decreases v.len(),
{
    if v.len() > 0 && is_blank(v.last()) {
        trim_end(v.drop_last())
    } else {
        v
    }
}

/// A value without its surrounding spaces and tabs.
pub open spec fn trimmed(v: Seq<u8>) -> Seq<u8> {
    trim_end(trim_start(v))
}

pub open spec fn lower_byte(b: u8) -> u8 {
    if 65 <= b <= 90 {
        (b + 32) as u8
    } else {
        b
    }
}

/// Equality of byte strings up to ASCII letter case.
pub open spec fn same_ignoring_case(a: Seq<u8>, b: Seq<u8>) -> bool {
    a.len() == b.len() && forall|i: int| 0 <= i < a.len() ==> lower_byte(#[trigger] a[i]) == lower_byte(b[i])
}

pub open spec fn content_length_name() -> Seq<u8> {
    seq![99u8, 111, 110, 116, 101, 110, 116, 45, 108, 101, 110, 103, 116, 104]
}

pub open spec fn content_kind_name() -> Seq<u8> {
    seq![99u8, 111, 110, 116, 101, 110, 116, 45, 116, 121, 112, 101]
}

/// `application/vscode-jsonrpc; charset=utf-8`, the only content type accepted.
pub open spec fn jsonrpc_content_type() -> Seq<u8> {
    seq![
        97u8, 112, 112, 108, 105, 99, 97, 116, 105, 111, 110, 47, 118, 115, 99, 111, 100, 101, 45,
        106, 115, 111, 110, 114, 112, 99, 59, 32, 99, 104, 97, 114, 115, 101, 116, 61, 117, 116,
        102, 45, 56,
    ]
}

pub open spec fn is_length_line(line: Seq<u8>) -> bool {
    same_ignoring_case(field_name(line), content_length_name())
}

pub open spec fn is_type_line(line: Seq<u8>) -> bool {
    same_ignoring_case(field_name(line), content_kind_name())
}

/// A non-empty run of decimal digits.
pub open spec fn all_digits(s: Seq<u8>) -> bool {
    s.len() > 0 && forall|i: int| 0 <= i < s.len() ==> is_digit(#[trigger] s[i])
}

pub open spec fn digit_value(b: u8) -> nat {
    if is_digit(b) {
        (b - 48) as nat
    } else {
        0
    }
}

/// The number that a run of decimal digits denotes.
pub open spec fn digits_value(s: Seq<u8>) -> nat
    decreases s.len(),
{
    if s.len() == 0 {
        0
    } else {
        digits_value(s.drop_last()) * 10 + digit_value(s.last())
    }
}

/// Every line is well formed, a length holds digits only and a content type is the JSON-RPC one.
pub open spec fn line_acceptable(line: Seq<u8>) -> bool {
    &&& line_well_formed(line)
    &&& is_length_line(line) ==> all_digits(trimmed(field_value(line)))
    &&& is_type_line(line) ==> same_ignoring_case(
        trimmed(field_value(line)),
        jsonrpc_content_type(),
    )
}

/// Line `i` is the one and only length line.
pub open spec fn sole_length_line(lines: Seq<Seq<u8>>, i: int) -> bool {
    &&& 0 <= i < lines.len()
    &&& is_length_line(lines[i])
    &&& forall|j: int| 0 <= j < lines.len() && j != i ==> !is_length_line(#[trigger] lines[j])
}

/// The body length that header text declares, if the header is acceptable.
pub open spec fn declared_length(text: Seq<u8>) -> Option<nat> {
    let lines = header_lines(text);
    if (forall|i: int| 0 <= i < lines.len() ==> line_acceptable(#[trigger] lines[i])) && exists|i: int|
        sole_length_line(lines, i) {
        let i = choose|i: int| sole_length_line(lines, i);
        let n = digits_value(trimmed(field_value(lines[i])));
        if 1 <= n <= MAX_REQUEST {
            Some(n)
        } else {
            None
        }
    } else {
        None
    }
}

/// What reading one frame from the start of `w` yields.
pub open spec fn frame_outcome(w: Seq<u8>) -> FrameOutcome {
    if w.len() == 0 {
        FrameOutcome::End
    } else if exists|k: int| header_complete_at(w, k) {
        let k = choose|k: int| header_complete_at(w, k);
        match declared_length(w.subrange(0, k - 4)) {
            None => FrameOutcome::Failed(FrameError::InvalidData),
            Some(n) => if w.len() < k + n {
                FrameOutcome::Failed(FrameError::UnexpectedEof)
            } else if body_acceptable(w.subrange(k, k + n)) {
                FrameOutcome::Frame { body: w.subrange(k, k + n), consumed: k + n }
            } else {
                FrameOutcome::Failed(FrameError::InvalidData)
            },
        }
    } else {
        FrameOutcome::Failed(FrameError::InvalidData)
    }
}

/// Decimal digits of `n`, most significant first, without leading zeros.
pub open spec fn decimal(n: nat) -> Seq<u8>
    decreases n,
{
    if n < 10 {
        seq![(48 + n) as u8]
    } else {
        decimal(n / 10).push((48 + n % 10) as u8)
    }
}

/// The bytes that introduce a body length in a written frame.
pub open spec fn length_prefix() -> Seq<u8> {
    seq![67u8, 111, 110, 116, 101, 110, 116, 45, 76, 101, 110, 103, 116, 104, 58, 32]
}

pub open spec fn crlf_crlf() -> Seq<u8> {
    seq![13u8, 10, 13, 10]
}

/// The header written in front of a body of `n` bytes.
pub open spec fn frame_header(n: nat) -> Seq<u8> {
    length_prefix() + decimal(n) + crlf_crlf()
}

/// The complete frame written for `body`.
pub open spec fn frame_bytes(body: Seq<u8>) -> Seq<u8> {
    frame_header(body.len()) + body
}

/// What one header line contributes.
enum LineCheck {
    /// The line makes the whole header unacceptable.
    Rejected,
    /// An acceptable length line; the value is capped just above the limit.
    Length(usize),
    /// Any other acceptable line.
    Accepted,
}

/// A number, or the first value past the request limit if it is larger.
pub open spec fn capped(n: nat) -> nat {
    if n > MAX_REQUEST {
        (MAX_REQUEST + 1) as nat
    } else {
        n
    }
}

proof fn lemma_line_end(s: Seq<u8>)
    ensures
        0 <= line_end(s) <= s.len(),
        line_end(s) < s.len() ==> is_crlf(s, line_end(s)),
        forall|q: int| 0 <= q < line_end(s) ==> !is_crlf(s, q),
    decreases s.len(),
{
    if s.len() >= 2 && !(s[0] == 13 && s[1] == 10) {
        lemma_line_end(s.drop_first());
        assert forall|q: int| 0 <= q < line_end(s) implies !is_crlf(s, q) by {
            if q > 0 {
                assert(!is_crlf(s.drop_first(), q - 1));
            }
        }
    }
}

proof fn lemma_first_colon(line: Seq<u8>)
    ensures
        0 <= first_colon(line) <= line.len(),
        first_colon(line) < line.len() ==> line[first_colon(line)] == 58,
        forall|q: int| 0 <= q < first_colon(line) ==> line[q] != 58,
    decreases line.len(),
{
    if line.len() > 0 && line[0] != 58 {
        lemma_first_colon(line.drop_first());
        assert forall|q: int| 0 <= q < first_colon(line) implies line[q] != 58 by {
            if q > 0 {
                assert(line.drop_first()[q - 1] == line[q]);
            }
        }
    }
}

proof fn lemma_digits_value_prefix(s: Seq<u8>, i: int)
    requires
        0 <= i < s.len(),
    ensures
        digits_value(s.subrange(0, i + 1)) == digits_value(s.subrange(0, i)) * 10 + digit_value(s[i]),
{
    assert(s.subrange(0, i + 1).drop_last() =~= s.subrange(0, i));
}

fn ascii_lower(b: u8) -> (r: u8)
    ensures
        r == lower_byte(b),
{
    if 65 <= b && b <= 90 {
        b + 32
    } else {
        b
    }
}

fn bytes_eq_ignore_case(a: &[u8], b: &[u8]) -> (r: bool)
    ensures
        r == same_ignoring_case(a@, b@),
{
    if a.len() != b.len() {
        return false;
    }
    let mut i: usize = 0;
    while i < a.len()
        invariant
            a@.len() == b@.len(),
            i <= a.len(),
            forall|j: int| 0 <= j < i ==> lower_byte(#[trigger] a@[j]) == lower_byte(b@[j]),
        decreases a.len() - i,
    {
        if ascii_lower(a[i]) != ascii_lower(b[i]) {
            return false;
        }
        i = i + 1;
    }
    true
}

/// Offset just past the blanks that start `v`, and offset of the blanks that end it.
fn trim_bounds(v: &[u8]) -> (r: (usize, usize))
    ensures
        r.0 <= r.1 <= v@.len(),
        v@.subrange(r.0 as int, r.1 as int) == trimmed(v@),
{
    let n = v.len();
    let mut a: usize = 0;
    assert(v@.subrange(0, n as int) =~= v@);
    while a < n && (v[a] == 32 || v[a] == 9)
        invariant
            a <= n == v@.len(),
            trim_start(v@) == trim_start(v@.subrange(a as int, n as int)),
        decreases n - a,
    {
        assert(v@.subrange(a as int, n as int).drop_first() =~= v@.subrange(a + 1, n as int));
        a = a + 1;
    }
    let mut b: usize = n;
    assert(trim_start(v@) == v@.subrange(a as int, n as int));
    while b > a && (v[b - 1] == 32 || v[b - 1] == 9)
        invariant
            a <= b <= n == v@.len(),
            trimmed(v@) == trim_end(v@.subrange(a as int, b as int)),
        decreases b - a,
    {
        assert(v@.subrange(a as int, b as int).drop_last() =~= v@.subrange(a as int, b - 1));
        b = b - 1;
    }
    (a, b)
}

/// Classifies one header line.
fn inspect_line(line: &[u8]) -> (r: LineCheck)
    ensures
        r is Rejected <==> !line_acceptable(line@),
        r matches LineCheck::Length(v) ==> is_length_line(line@) && v == capped(
            digits_value(trimmed(field_value(line@))),
        ),
        r is Accepted ==> !is_length_line(line@),
        r is Length ==> is_length_line(line@),
{
    proof {
        lemma_first_colon(line@);
    }
    let n = line.len();
    let mut c: usize = 0;
    while c < n && line[c] != 58
        invariant
            c <= n == line@.len(),
            forall|q: int| 0 <= q < c ==> line@[q] != 58,
        decreases n - c,
    {
        c = c + 1;
    }
    assert(c == first_colon(line@)) by {
        if c < first_colon(line@) {
            assert(line@[c as int] != 58);
        } else if c > first_colon(line@) {
            assert(line@[first_colon(line@)] != 58);
        }
    }
    if c == n || c == 0 {
        return LineCheck::Rejected;
    }
    let name = &line[0..c];
    let value = &line[c + 1..n];
    assert(name@ == field_name(line@));
    assert(value@ == field_value(line@));
    let mut i: usize = 0;
    while i < c
        invariant
            i <= c == name@.len(),
            name@ == field_name(line@),
            forall|j: int| 0 <= j < i ==> is_name_byte(#[trigger] name@[j]),
        decreases c - i,
    {
        let b = name[i];
        if !((48 <= b && b <= 57) || (65 <= b && b <= 90) || (97 <= b && b <= 122) || b == 45) {
            assert(!is_name_byte(field_name(line@)[i as int]));
            return LineCheck::Rejected;
        }
        i = i + 1;
    }
    let mut k: usize = 0;
    while k < value.len()
        invariant
            k <= value@.len(),
            value@ == field_value(line@),
            forall|j: int| 0 <= j < k ==> is_value_byte(#[trigger] value@[j]),
        decreases value.len() - k,
    {
        let b = value[k];
        if !(b == 32 || b == 9 || (33 <= b && b <= 126)) {
            assert(!is_value_byte(field_value(line@)[k as int]));
            return LineCheck::Rejected;
        }
        k = k + 1;
    }
    assert(line_well_formed(line@));
    let length_name: Vec<u8> = vec![99u8, 111, 110, 116, 101, 110, 116, 45, 108, 101, 110, 103, 116, 104];
    let kind_name: Vec<u8> = vec![99u8, 111, 110, 116, 101, 110, 116, 45, 116, 121, 112, 101];
    let (a, b) = trim_bounds(value);
    let trimmed_value = &value[a..b];
    if bytes_eq_ignore_case(name, length_name.as_slice()) {
        assert(!is_type_line(line@));
        if trimmed_value.len() == 0 {
            return LineCheck::Rejected;
        }
        let mut total: usize = 0;
        let mut j: usize = 0;
        assert(trimmed_value@.subrange(0, 0) =~= Seq::<u8>::empty());
        while j < trimmed_value.len()
            invariant
                j <= trimmed_value@.len(),
                trimmed_value@ == trimmed(field_value(line@)),
                is_length_line(line@),
                forall|q: int| 0 <= q < j ==> is_digit(#[trigger] trimmed_value@[q]),
                total == capped(digits_value(trimmed_value@.subrange(0, j as int))),
            decreases trimmed_value.len() - j,
        {
            let d = trimmed_value[j];
            if !(48 <= d && d <= 57) {
                assert(!is_digit(trimmed(field_value(line@))[j as int]));
                return LineCheck::Rejected;
            }
            proof {
                lemma_digits_value_prefix(trimmed_value@, j as int);
            }
            if total <= MAX_REQUEST {
                total = total * 10 + (d - 48) as usize;
                if total > MAX_REQUEST {
                    total = MAX_REQUEST + 1;
                }
            }
            j = j + 1;
        }
        assert(trimmed_value@.subrange(0, trimmed_value@.len() as int) =~= trimmed_value@);
        return LineCheck::Length(total);
    }
    if bytes_eq_ignore_case(name, kind_name.as_slice()) {
        let expected: Vec<u8> = vec![
            97u8, 112, 112, 108, 105, 99, 97, 116, 105, 111, 110, 47, 118, 115, 99, 111, 100, 101, 45,
            106, 115, 111, 110, 114, 112, 99, 59, 32, 99, 104, 97, 114, 115, 101, 116, 61, 117, 116,
            102, 45, 56,
        ];
        if bytes_eq_ignore_case(trimmed_value, expected.as_slice()) {
            return LineCheck::Accepted;
        } else {
            return LineCheck::Rejected;
        }
    }
    LineCheck::Accepted
}

proof fn lemma_header_end_unique(w: Seq<u8>, k1: int, k2: int)
    requires
        header_complete_at(w, k1),
        header_complete_at(w, k2),
    ensures
        k1 == k2,
{
    if k1 < k2 {
        assert(!is_header_end(w, k1));
    } else if k2 < k1 {
        assert(!is_header_end(w, k2));
    }
}

/// Offset of the end of the line that starts at `pos`.
fn line_end_from(text: &[u8], pos: usize) -> (end: usize)
    requires
        pos <= text@.len(),
    ensures
        end == pos + line_end(text@.subrange(pos as int, text@.len() as int)),
{
    let n = text.len();
    let mut q = pos;
    while q < n && n - q > 1 && !(text[q] == 13 && text[q + 1] == 10)
        invariant
            pos <= q <= n == text@.len(),
            line_end(text@.subrange(pos as int, n as int)) == (q - pos) + line_end(
                text@.subrange(q as int, n as int),
            ),
        decreases n - q,
    {
        assert(text@.subrange(q as int, n as int).drop_first() =~= text@.subrange(q + 1, n as int));
        q = q + 1;
    }
    if q < n && n - q > 1 {
        q
    } else {
        n
    }
}

/// The body length that a complete header declares; the header includes its
/// terminating blank line.
pub fn header_length(header: &[u8]) -> (result: Result<usize, FrameError>)
    requires
        header@.len() >= 4,
    ensures
        match declared_length(header@.subrange(0, header@.len() - 4)) {
            Some(n) => result == Ok::<usize, FrameError>(n as usize),
            None => result == Err::<usize, FrameError>(FrameError::InvalidData),
        },
{
    let n = header.len() - 4;
    let text = &header[0..n];
    let ghost lines = header_lines(text@);
    let ghost mut done: Seq<Seq<u8>> = Seq::empty();
    let mut length: Option<usize> = None;
    let mut pos: usize = 0;
    assert(text@.subrange(0, n as int) =~= text@);
    loop
        invariant_except_break
            pos <= n == text@.len(),
            header@.len() >= 4,
            text@ == header@.subrange(0, header@.len() - 4),
            lines == header_lines(text@),
            lines == done + header_lines(text@.subrange(pos as int, n as int)),
            forall|i: int| 0 <= i < done.len() ==> line_acceptable(#[trigger] done[i]),
            length is None ==> forall|i: int|
                0 <= i < done.len() ==> !is_length_line(#[trigger] done[i]),
            length matches Some(v) ==> exists|i: int|
                #![trigger done[i]]
                0 <= i < done.len() && is_length_line(done[i]) && (forall|j: int|
                    0 <= j < done.len() && j != i ==> !is_length_line(#[trigger] done[j])) && v
                    == capped(digits_value(trimmed(field_value(done[i])))),
        ensures
            lines == header_lines(text@),
            lines == done,
            forall|i: int| 0 <= i < done.len() ==> line_acceptable(#[trigger] done[i]),
            length is None ==> forall|i: int|
                0 <= i < done.len() ==> !is_length_line(#[trigger] done[i]),
            length matches Some(v) ==> exists|i: int|
                #![trigger done[i]]
                0 <= i < done.len() && is_length_line(done[i]) && (forall|j: int|
                    0 <= j < done.len() && j != i ==> !is_length_line(#[trigger] done[j])) && v
                    == capped(digits_value(trimmed(field_value(done[i])))),
        decreases n - pos,
    {
        let end = line_end_from(text, pos);
        let ghost rest = text@.subrange(pos as int, n as int);
        proof {
            lemma_line_end(rest);
        }
        let line = &text[pos..end];
        assert(line@ == rest.subrange(0, line_end(rest)));
        let ghost next_done = done.push(line@);
        match inspect_line(line) {
            LineCheck::Rejected => {
                proof {
                    assert(lines[done.len() as int] == line@) by {
                        if end < n {
                            assert(rest.subrange(line_end(rest) + 2, rest.len() as int) =~= text@.subrange(end + 2, n as int));
                        }
                    }
                    assert(!line_acceptable(lines[done.len() as int]));
                }
                return Err(FrameError::InvalidData);
            },
            LineCheck::Length(v) => {
                if length.is_some() {
                    proof {
                        assert(lines[done.len() as int] == line@) by {
                            if end < n {
                                assert(rest.subrange(line_end(rest) + 2, rest.len() as int) =~= text@.subrange(end + 2, n as int));
                            }
                        }
                        let i0 = choose|i: int|
                            #![trigger done[i]]
                            0 <= i < done.len() && is_length_line(done[i]) && (forall|j: int|
                                0 <= j < done.len() && j != i ==> !is_length_line(#[trigger] done[j]))
                                && length->0 == capped(digits_value(trimmed(field_value(done[i]))));
                        assert(lines[i0] == done[i0]);
                        assert forall|i: int| !sole_length_line(lines, i) by {
                            if sole_length_line(lines, i) {
                                if i == i0 {
                                    assert(!is_length_line(lines[done.len() as int]));
                                } else {
                                    assert(!is_length_line(lines[i0]));
                                }
                            }
                        }
                    }
                    return Err(FrameError::InvalidData);
                }
                length = Some(v);
                proof {
                    assert(next_done[done.len() as int] == line@);
                }
            },
            LineCheck::Accepted => {},
        }
        proof {
            if end < n {
                assert(rest.subrange(line_end(rest) + 2, rest.len() as int) =~= text@.subrange(end + 2, n as int));
                assert(header_lines(rest) == seq![line@] + header_lines(text@.subrange(end + 2, n as int)));
            } else {
                assert(header_lines(rest) == seq![line@]);
            }
            assert(forall|j: int| 0 <= j < done.len() ==> next_done[j] == done[j]);
            done = next_done;
        }
        if end == n {
            proof {
                assert(lines =~= done);
            }
            break;
        }
        pos = end + 2;
        proof {
            assert(lines =~= done + header_lines(text@.subrange(pos as int, n as int)));
        }
    }
    assert(header@.subrange(0, header@.len() - 4) =~= text@);
    match length {
        None => {
            assert forall|i: int| !sole_length_line(lines, i) by {}
            Err(FrameError::InvalidData)
        },
        Some(v) => {
            proof {
                let i0 = choose|i: int|
                    #![trigger done[i]]
                    0 <= i < done.len() && is_length_line(done[i]) && (forall|j: int|
                        0 <= j < done.len() && j != i ==> !is_length_line(#[trigger] done[j])) && v
                        == capped(digits_value(trimmed(field_value(done[i]))));
                assert(sole_length_line(lines, i0));
                let c = choose|i: int| sole_length_line(lines, i);
                assert(c == i0) by {
                    if c != i0 {
                        assert(!is_length_line(lines[i0]));
                    }
                }
            }
            if 1 <= v && v <= MAX_REQUEST {
                Ok(v)
            } else {
                Err(FrameError::InvalidData)
            }
        },
    }
}

/// Reads one frame from `input`, starting at `position`, and moves `position`
/// past what was read. An empty remainder is a clean end of the stream.
pub fn read_frame(input: &[u8], position: &mut usize) -> (result: Result<Option<Vec<u8>>, FrameError>)
    requires
        *old(position) <= input@.len(),
    ensures
        *old(position) <= *final(position) <= input@.len(),
        match frame_outcome(input@.subrange(*old(position) as int, input@.len() as int)) {
            FrameOutcome::End => result matches Ok(None) && *final(position) == *old(position),
            FrameOutcome::Frame { body, consumed } => result matches Ok(Some(b)) && b@ == body
                && *final(position) == *old(position) + consumed,
            FrameOutcome::Failed(e) => result matches Err(e2) && e2 == e,
        },
{
    let start = *position;
    let ghost w = input@.subrange(start as int, input@.len() as int);
    let mut header: Vec<u8> = Vec::new();
    loop
        invariant_except_break
            start == *old(position),
            start <= *position <= input@.len(),
            w == input@.subrange(start as int, input@.len() as int),
            header@ == w.subrange(0, *position - start),
            *position - start <= MAX_HEADER,
            forall|k2: int| 0 <= k2 <= *position - start ==> !#[trigger] is_header_end(w, k2),
            forall|j: int| 0 <= j < *position - start ==> #[trigger] header_byte_ok(w, j),
        ensures
            start <= *position <= input@.len(),
            w == input@.subrange(start as int, input@.len() as int),
            header@ == w.subrange(0, *position - start),
            header_complete_at(w, *position - start),
        decreases input@.len() - *position,
    {
        if *position == input.len() {
            if header.len() == 0 {
                assert(w.len() == 0);
                return Ok(None);
            }
            proof {
                assert forall|k: int| !header_complete_at(w, k) by {
                    if header_complete_at(w, k) {
                        assert(!is_header_end(w, k));
                    }
                }
            }
            return Err(FrameError::InvalidData);
        }
        let i = *position - start;
        let byte = input[*position];
        assert(byte == w[i as int]);
        let step = header_step(&mut header, byte);
        *position = *position + 1;
        proof {
            assert(header@ =~= w.subrange(0, i + 1));
            assert(is_header_end(header@, i + 1) <==> is_header_end(w, i + 1));
        }
        match step {
            HeaderStep::Invalid => {
                proof {
                    assert forall|k: int| !header_complete_at(w, k) by {
                        if header_complete_at(w, k) {
                            if k <= i {
                                assert(!is_header_end(w, k));
                            } else {
                                assert(header_byte_ok(w, i as int));
                            }
                        }
                    }
                }
                return Err(FrameError::InvalidData);
            },
            HeaderStep::Complete => {
                break;
            },
            HeaderStep::More => {
                assert(header_byte_ok(w, i as int));
                assert(!is_header_end(w, i + 1));
            },
        }
    }
    let k = *position - start;
    proof {
        let c = choose|k2: int| header_complete_at(w, k2);
        lemma_header_end_unique(w, c, k as int);
        assert(header@.subrange(0, header@.len() - 4) =~= w.subrange(0, k - 4));
    }
    let length = match header_length(header.as_slice()) {
        Ok(length) => length,
        Err(e) => {
            return Err(e);
        },
    };
    if input.len() - *position < length {
        *position = input.len();
        return Err(FrameError::UnexpectedEof);
    }
    let body_end = *position + length;
    let body = slice_to_vec(&input[*position..body_end]);
    proof {
        assert(body@ =~= w.subrange(k as int, k + length));
    }
    *position = body_end;
    match check_body(body.as_slice()) {
        Ok(()) => Ok(Some(body)),
        Err(e) => Err(e),
    }
}

pub open spec fn pow10(k: nat) -> nat
    decreases k,
{
    if k == 0 {
        1
    } else {
        10 * pow10((k - 1) as nat)
    }
}

proof fn lemma_decimal(n: nat)
    ensures
        decimal(n).len() >= 1,
        forall|i: int| 0 <= i < decimal(n).len() ==> is_digit(#[trigger] decimal(n)[i]),
        digits_value(decimal(n)) == n,
    decreases n,
{
    if n >= 10 {
        lemma_decimal(n / 10);
        let d = decimal(n);
        assert(d.drop_last() =~= decimal(n / 10));
        assert(d.last() == (48 + n % 10) as u8);
        assert(digit_value(d.last()) == n % 10);
        assert(digits_value(d) == (n / 10) * 10 + n % 10);
        assert((n / 10) * 10 + n % 10 == n) by (nonlinear_arith);
        assert(digits_value(decimal(n)) == n);
    } else {
        assert(decimal(n).drop_last() =~= Seq::<u8>::empty());
        assert(digits_value(Seq::<u8>::empty()) == 0);
        assert(digit_value(decimal(n).last()) == n);
        assert(digits_value(decimal(n)) == n);
    }
}

proof fn lemma_decimal_len(n: nat, k: nat)
    requires
        k >= 1,
        n < pow10(k),
    ensures
        decimal(n).len() <= k,
    decreases k,
{
    if n >= 10 {
        if k == 1 {
            assert(pow10(1) == 10 * pow10(0));
        } else {
            let p = pow10((k - 1) as nat);
            assert(n / 10 < p) by (nonlinear_arith)
                requires
                    n < 10 * p,
            ;
            lemma_decimal_len(n / 10, (k - 1) as nat);
        }
    }
}

/// Reading back a frame that was written yields its body again, whatever
/// follows it on the stream, for every body that a request may carry.
pub proof fn lemma_read_written_frame(body: Seq<u8>, rest: Seq<u8>)
    requires
        1 <= body.len() <= MAX_REQUEST,
        body_acceptable(body),
    ensures
        frame_outcome(frame_bytes(body) + rest) matches FrameOutcome::Frame { body: b, consumed: c }
            && b == body && c == frame_bytes(body).len(),
{
    let n = body.len();
    let d = decimal(n);
    let p = length_prefix();
    let h = frame_header(n);
    let w = frame_bytes(body) + rest;
    lemma_decimal(n);
    assert(pow10(7) == 10000000) by {
        reveal_with_fuel(pow10, 8);
    }
    lemma_decimal_len(n, 7);
    let k = h.len() as int;
    assert(k == 20 + d.len());
    assert forall|j: int| 0 <= j < k - 4 implies w[j] != 10 && w[j] != 13 && w[j] < 128 by {
        if j < 16 {
            assert(w[j] == p[j]);
        } else {
            assert(w[j] == d[j - 16]);
        }
    }
    assert(w[k - 4] == 13 && w[k - 3] == 10 && w[k - 2] == 13 && w[k - 1] == 10);
    assert(w[k - 5] == d[d.len() - 1]);
    assert(header_complete_at(w, k)) by {
        assert forall|k2: int| 0 <= k2 < k implies !#[trigger] is_header_end(w, k2) by {
            if is_header_end(w, k2) {
                assert(w[k2 - 1] == 10);
                assert(w[k2 - 3] == 10);
            }
        }
        assert forall|j: int| 0 <= j < k implies #[trigger] header_byte_ok(w, j) by {}
    }
    let c = choose|k2: int| header_complete_at(w, k2);
    lemma_header_end_unique(w, c, k);
    let text = w.subrange(0, k - 4);
    assert(text =~= p + d);
    lemma_line_end(text);
    assert(line_end(text) == text.len()) by {
        if line_end(text) < text.len() {
            assert(is_crlf(text, line_end(text)));
        }
    }
    let lines = header_lines(text);
    assert(lines == seq![text]);
    lemma_first_colon(text);
    assert(first_colon(text) == 14) by {
        assert(text[14] == 58);
        assert forall|q: int| 0 <= q < 14 implies text[q] != 58 by {}
        if first_colon(text) < 14 {
            assert(text[first_colon(text)] == 58);
        }
    }
    let name = field_name(text);
    let value = field_value(text);
    assert(name =~= p.subrange(0, 14));
    assert(value =~= seq![32u8] + d);
    assert(same_ignoring_case(name, content_length_name()));
    assert(trim_start(value) == trim_start(d)) by {
        assert(value.drop_first() =~= d);
    }
    assert(trimmed(value) == d);
    assert(line_acceptable(text));
    assert(sole_length_line(lines, 0));
    let i = choose|i: int| sole_length_line(lines, i);
    assert(i == 0);
    assert(declared_length(text) == Some(n));
    assert(w.subrange(k, k + n) =~= body);
}

/// Appends the decimal digits of `n`.
fn push_decimal(out: &mut Vec<u8>, n: usize)
    ensures
        final(out)@ == old(out)@ + decimal(n as nat),
    decreases n,
{
    if n >= 10 {
        push_decimal(out, n / 10);
    }
    let digit: u8 = (n % 10) as u8;
    out.push(48 + digit);
    proof {
        if n >= 10 {
            assert(decimal(n as nat) == decimal((n / 10) as nat).push((48 + n % 10) as u8));
        }
    }
}

/// Feeds one more byte into the header read so far.
///
/// The byte is always appended; the result says whether the header is still
/// open, complete, or can never become acceptable.
pub fn header_step(header: &mut Vec<u8>, byte: u8) -> (step: HeaderStep)
    ensures
        final(header)@ == old(header)@.push(byte),
        step == header_step_spec(old(header)@, byte),
{
    let previous_cr = header.len() >= 1 && header[header.len() - 1] == 13;
    header.push(byte);
    let n = header.len();
    if n > MAX_HEADER || byte >= 128 {
        return HeaderStep::Invalid;
    }
    if byte == 10 && !previous_cr {
        return HeaderStep::Invalid;
    }
    if n >= 4 && header[n - 4] == 13 && header[n - 3] == 10 && header[n - 2] == 13 && header[n - 1]
        == 10 {
        HeaderStep::Complete
    } else {
        HeaderStep::More
    }
}

/// Accepts a request body only if it is UTF-8 text without a byte order mark.
pub fn check_body(body: &[u8]) -> (result: Result<(), FrameError>)
    ensures
        result is Ok <==> body_acceptable(body@),
        result matches Err(e) ==> e == FrameError::InvalidData,
{
    if body.len() >= 3 && body[0] == 0xef && body[1] == 0xbb && body[2] == 0xbf {
        return Err(FrameError::InvalidData);
    }
    match utf8_text(body) {
        Some(_) => Ok(()),
        None => Err(FrameError::InvalidData),
    }
}

/// Writes a complete frame for `body`; an empty or oversized body is refused
/// and nothing is written.
pub fn write_frame(output: &mut Vec<u8>, body: &[u8]) -> (result: Result<(), FrameError>)
    ensures
        result is Ok <==> 1 <= body.len() <= MAX_RESPONSE,
        result is Ok ==> final(output)@ == old(output)@ + frame_bytes(body@),
        result matches Err(e) ==> e == FrameError::InvalidData && final(output)@ == old(output)@,
{
    if body.len() == 0 || body.len() > MAX_RESPONSE {
        return Err(FrameError::InvalidData);
    }
    let ghost start = output@;
    let prefix: Vec<u8> = vec![67u8, 111, 110, 116, 101, 110, 116, 45, 76, 101, 110, 103, 116, 104, 58, 32];
    let mut i: usize = 0;
    while i < prefix.len()
        invariant
            prefix@ == length_prefix(),
            i <= prefix.len(),
            output@ == start + prefix@.subrange(0, i as int),
        decreases prefix.len() - i,
    {
        output.push(prefix[i]);
        proof {
            assert(prefix@.subrange(0, i + 1) =~= prefix@.subrange(0, i as int).push(prefix@[i as int]));
        }
        i = i + 1;
    }
    assert(prefix@.subrange(0, prefix@.len() as int) =~= prefix@);
    push_decimal(output, body.len());
    output.push(13);
    output.push(10);
    output.push(13);
    output.push(10);
    let ghost before_body = output@;
    let mut j: usize = 0;
    while j < body.len()
        invariant
            j <= body.len(),
            output@ == before_body + body@.subrange(0, j as int),
        decreases body.len() - j,
    {
        output.push(body[j]);
        proof {
            assert(body@.subrange(0, j + 1) =~= body@.subrange(0, j as int).push(body@[j as int]));
        }
        j = j + 1;
    }
    proof {
        assert(body@.subrange(0, body@.len() as int) =~= body@);
        assert(output@ =~= start + frame_bytes(body@));
    }
    Ok(())
}

} // verus!
