//! Reversible text encodings shared by the versioned JSON contracts: Git text
//! and native paths stay exact when they are UTF-8 and are percent-encoded
//! byte by byte (or UTF-16 unit by unit) otherwise.

use vstd::prelude::*;
use vstd::utf8::*;
use vstd::string::*;
use crate::rpc::{RpcError, INVALID_PARAMS};
use crate::text::utf8_text;

verus! {

/// The label of text kept as it is.
pub open spec fn utf8_label() -> Seq<char> {
    seq!['u', 't', 'f', '-', '8']
}

/// The label of bytes encoded as `%XX`.
pub open spec fn percent_label() -> Seq<char> {
    seq!['p', 'e', 'r', 'c', 'e', 'n', 't']
}

/// Upper-case hexadecimal digit of a value below sixteen.
pub open spec fn hex_digit(v: int) -> char {
    if v < 10 {
        (48 + v) as char
    } else {
        (55 + v) as char
    }
}

/// Every byte written as `%` and two upper-case hexadecimal digits.
pub open spec fn percent_encoded(bytes: Seq<u8>) -> Seq<char> {
    Seq::new(
        3 * bytes.len(),
        |k: int|
            if k % 3 == 0 {
                '%'
            } else if k % 3 == 1 {
                hex_digit((bytes[k / 3] / 16) as int)
            } else {
                hex_digit((bytes[k / 3] % 16) as int)
            },
    )
}

/// The value of a hexadecimal digit in either case.
pub open spec fn hex_value(c: char) -> Option<nat> {
    if '0' <= c <= '9' {
        Some((c as u32 - 48) as nat)
    } else if 'a' <= c <= 'f' {
        Some((c as u32 - 87) as nat)
    } else if 'A' <= c <= 'F' {
        Some((c as u32 - 55) as nat)
    } else {
        None
    }
}

/// The number that a run of hexadecimal digits denotes, if every one is a digit.
pub open spec fn hex_number(t: Seq<char>) -> Option<nat>
    decreases t.len(),
{
    if t.len() == 0 {
        Some(0)
    } else {
        match (hex_number(t.drop_last()), hex_value(t.last())) {
            (Some(high), Some(low)) => Some(high * 16 + low),
            _ => None,
        }
    }
}

/// Hexadecimal digits with an optional leading `+`, read as a `u16`.
pub open spec fn radix16_u16(t: Seq<char>) -> Option<nat> {
    let digits = if t.len() > 0 && t[0] == '+' {
        t.drop_first()
    } else {
        t
    };
    if digits.len() == 0 {
        None
    } else {
        match hex_number(digits) {
            Some(v) => if v <= 0xffff {
                Some(v)
            } else {
                None
            },
            None => None,
        }
    }
}

/// The `i`-th group of `width + 1` characters.
pub open spec fn chunk(s: Seq<char>, width: nat, i: int) -> Seq<char> {
    s.subrange(i * (width + 1), (i + 1) * (width + 1))
}

/// The unit that one group `%` + digits denotes.
pub open spec fn chunk_unit(c: Seq<char>) -> Option<nat> {
    if c.len() > 0 && c[0] == '%' {
        radix16_u16(c.drop_first())
    } else {
        None
    }
}

/// The units of a complete percent encoding with `width` digits per unit.
pub open spec fn percent_units(s: Seq<char>, width: nat) -> Option<Seq<nat>> {
    let count = s.len() / (width + 1);
    if is_ascii_chars(s) && s.len() % (width + 1) == 0 && forall|i: int|
        0 <= i < count ==> #[trigger] chunk_unit(chunk(s, width, i)) is Some {
        Some(Seq::new(count, |i: int| chunk_unit(chunk(s, width, i))->0))
    } else {
        None
    }
}

/// The bytes that a `%XX` encoding denotes, each group giving one byte.
pub open spec fn percent_decoded(s: Seq<char>) -> Option<Seq<u8>> {
    match percent_units(s, 2) {
        Some(units) => if forall|i: int| 0 <= i < units.len() ==> #[trigger] units[i] <= 255 {
            Some(Seq::new(units.len(), |i: int| units[i] as u8))
        } else {
            None
        },
        None => None,
    }
}

/// How a path travels in a request.
#[derive(Clone, Copy, Debug, PartialEq, Eq, Structural)]
pub enum PathEncoding {
    /// The path is the text itself.
    Utf8,
    /// Native Unix bytes, each as `%XX`.
    Percent,
    /// Native Windows UTF-16 units, each as `%XXXX`.
    Wide,
}

/// A path as a request carries it.
pub struct WirePath {
    pub value: String,
    pub encoding: PathEncoding,
}

/// A path in the form the operating system takes it.
pub enum NativePath {
    /// Text that converts to a path on any platform.
    Text(String),
    /// Raw Unix path bytes.
    Bytes(Vec<u8>),
    /// Raw Windows UTF-16 code units.
    Units(Vec<u16>),
}

pub open spec fn invalid_params() -> RpcError {
    RpcError { code: INVALID_PARAMS }
}

/// A value below `0x10000`, or `0x10000` for anything larger.
pub open spec fn capped16(n: nat) -> nat {
    if n > 0xffff {
        0x10000
    } else {
        n
    }
}

proof fn lemma_hex_number_some(t: Seq<char>)
    ensures
        hex_number(t) is Some <==> forall|i: int| 0 <= i < t.len() ==> #[trigger] hex_value(t[i]) is Some,
    decreases t.len(),
{
    if t.len() > 0 {
        lemma_hex_number_some(t.drop_last());
        if hex_number(t) is Some {
            assert forall|i: int| 0 <= i < t.len() implies #[trigger] hex_value(t[i]) is Some by {
                if i < t.len() - 1 {
                    assert(t.drop_last()[i] == t[i]);
                }
            }
        }
        if forall|i: int| 0 <= i < t.len() ==> #[trigger] hex_value(t[i]) is Some {
            assert forall|i: int| 0 <= i < t.drop_last().len() implies #[trigger] hex_value(
                t.drop_last()[i],
            ) is Some by {
                assert(t.drop_last()[i] == t[i]);
            }
            assert(hex_value(t.last()) is Some);
        }
    }
}

fn hex_char_value(c: char) -> (v: Option<u64>)
    ensures
        v is Some <==> hex_value(c) is Some,
        v matches Some(x) ==> x == hex_value(c)->0 && x < 16,
{
    if '0' <= c && c <= '9' {
        Some((c as u32 - 48) as u64)
    } else if 'a' <= c && c <= 'f' {
        Some((c as u32 - 87) as u64)
    } else if 'A' <= c && c <= 'F' {
        Some((c as u32 - 55) as u64)
    } else {
        None
    }
}

/// Reads the group of `width + 1` characters at `base`: `%` and hexadecimal
/// digits with an optional `+`, as `u16::from_str_radix` accepts them.
fn chunk_value(value: &str, base: usize, width: usize) -> (r: Option<u16>)
    requires
        1 <= width,
        base + width + 1 <= value@.len() <= usize::MAX,
    ensures
        r is Some <==> chunk_unit(value@.subrange(base as int, base + width + 1)) is Some,
        r matches Some(u) ==> u == chunk_unit(value@.subrange(base as int, base + width + 1))->0,
{
    let ghost c = value@.subrange(base as int, base + width + 1);
    let end = base + width + 1;
    if value.get_char(base) != '%' {
        return None;
    }
    let mut start = base + 1;
    if value.get_char(start) == '+' {
        start = start + 1;
    }
    let ghost digits = value@.subrange(start as int, end as int);
    assert(digits =~= if c.drop_first().len() > 0 && c.drop_first()[0] == '+' {
        c.drop_first().drop_first()
    } else {
        c.drop_first()
    });
    if start == end {
        return None;
    }
    assert(chunk_unit(c) == match hex_number(digits) {
        Some(n) => if n <= 0xffff {
            Some(n)
        } else {
            None
        },
        None => None,
    });
    let mut v: u64 = 0;
    let mut k = start;
    assert(value@.subrange(start as int, start as int) =~= Seq::<char>::empty());
    while k < end
        invariant
            start <= k <= end <= value@.len(),
            digits == value@.subrange(start as int, end as int),
            c == value@.subrange(base as int, base + width + 1),
            chunk_unit(c) == match hex_number(digits) {
                Some(n) => if n <= 0xffff {
                    Some(n)
                } else {
                    None
                },
                None => None,
            },
            hex_number(value@.subrange(start as int, k as int)) is Some,
            v == capped16(hex_number(value@.subrange(start as int, k as int))->0),
        decreases end - k,
    {
        let ch = value.get_char(k);
        let ghost prefix = value@.subrange(start as int, k + 1);
        assert(prefix.drop_last() =~= value@.subrange(start as int, k as int));
        match hex_char_value(ch) {
            Some(d) => {
                if v <= 0xffff {
                    v = v * 16 + d;
                    if v > 0xffff {
                        v = 0x10000;
                    }
                }
            },
            None => {
                proof {
                    lemma_hex_number_some(digits);
                    assert(digits[k - start] == ch);
                }
                return None;
            },
        }
        k = k + 1;
    }
    assert(value@.subrange(start as int, end as int) == digits);
    if v > 0xffff {
        None
    } else {
        Some(v as u16)
    }
}

/// Requires a complete percent encoding with `width` hexadecimal digits per
/// unit, ASCII only and with nothing left over.
fn units(value: &str, width: usize) -> (r: Result<Vec<u16>, RpcError>)
    requires
        1 <= width <= 4,
    ensures
        match percent_units(value@, width as nat) {
            Some(us) => r matches Ok(v) && v@.len() == us.len() && forall|i: int|
                0 <= i < us.len() ==> #[trigger] v@[i] == us[i],
            None => r == Err::<Vec<u16>, RpcError>(invalid_params()),
        },
{
    if !value.is_ascii() {
        return Err(RpcError { code: INVALID_PARAMS });
    }
    let n = value.unicode_len();
    let group = width + 1;
    if n % group != 0 {
        return Err(RpcError { code: INVALID_PARAMS });
    }
    let count = n / group;
    let mut out: Vec<u16> = Vec::new();
    let mut i: usize = 0;
    while i < count
        invariant
            1 <= width <= 4,
            group == width + 1,
            n == value@.len(),
            count == n / group,
            n % group == 0,
            is_ascii_chars(value@),
            i <= count,
            out@.len() == i,
            forall|j: int| 0 <= j < i ==> #[trigger] chunk_unit(chunk(value@, width as nat, j)) is Some,
            forall|j: int| 0 <= j < i ==> out@[j] == chunk_unit(chunk(value@, width as nat, j))->0,
        decreases count - i,
    {
        assert(i * group + group <= count * group) by (nonlinear_arith)
            requires
                i < count,
        ;
        assert(count * group == n) by (nonlinear_arith)
            requires
                count == n / group,
                n % group == 0,
                group > 0,
        ;
        let base = i * group;
        assert((i + 1) * group == base + width + 1) by (nonlinear_arith)
            requires
                base == i * group,
                group == width + 1,
        ;
        assert(chunk(value@, width as nat, i as int) == value@.subrange(base as int, base + width + 1));
        match chunk_value(value, base, width) {
            Some(u) => {
                out.push(u);
            },
            None => {
                return Err(RpcError { code: INVALID_PARAMS });
            },
        }
        i = i + 1;
    }
    Ok(out)
}

/// Unix paths keep arbitrary bytes: every byte is one `%XX` group.
pub fn decode_percent(value: &str) -> (r: Result<Vec<u8>, RpcError>)
    ensures
        match percent_decoded(value@) {
            Some(bytes) => r matches Ok(v) && v@ == bytes,
            None => r == Err::<Vec<u8>, RpcError>(invalid_params()),
        },
{
    let units = match units(value, 2) {
        Ok(units) => units,
        Err(e) => {
            return Err(e);
        },
    };
    let ghost us = percent_units(value@, 2)->0;
    let mut bytes: Vec<u8> = Vec::new();
    let mut i: usize = 0;
    while i < units.len()
        invariant
            i <= units@.len() == us.len(),
            percent_units(value@, 2) == Some(us),
            forall|j: int| 0 <= j < us.len() ==> #[trigger] units@[j] == us[j],
            bytes@.len() == i,
            forall|j: int| 0 <= j < i ==> #[trigger] us[j] <= 255,
            forall|j: int| 0 <= j < i ==> #[trigger] bytes@[j] == us[j] as u8,
        decreases units.len() - i,
    {
        let unit = units[i];
        if unit > 255 {
            assert(!(us[i as int] <= 255));
            return Err(RpcError { code: INVALID_PARAMS });
        }
        assert(unit == us[i as int]);
        assert(us[i as int] <= 255);
        let ghost before = bytes@;
        bytes.push(unit as u8);
        assert forall|j: int| 0 <= j < i + 1 implies #[trigger] bytes@[j] == us[j] as u8 by {
            if j < i {
                assert(bytes@[j] == before[j]);
            }
        }
        i = i + 1;
    }
    assert(bytes@ =~= Seq::new(us.len(), |j: int| us[j] as u8));
    Ok(bytes)
}

/// Windows paths keep unpaired surrogates: every UTF-16 unit is one `%XXXX` group.
pub fn decode_wide(value: &str) -> (r: Result<Vec<u16>, RpcError>)
    ensures
        match percent_units(value@, 4) {
            Some(us) => r matches Ok(v) && v@.len() == us.len() && forall|i: int|
                0 <= i < us.len() ==> #[trigger] v@[i] == us[i],
            None => r == Err::<Vec<u16>, RpcError>(invalid_params()),
        },
{
    units(value, 4)
}

impl WirePath {
    /// Decodes the native path on a Unix system (`unix`) or on Windows; an
    /// encoding that belongs to the other system is refused.
    pub fn native(&self, unix: bool) -> (r: Result<NativePath, RpcError>)
        ensures
            self.encoding == PathEncoding::Utf8 ==> (r matches Ok(NativePath::Text(t)) && t@
                == self.value@),
            self.encoding == PathEncoding::Percent && unix ==> match percent_decoded(self.value@) {
                Some(bytes) => r matches Ok(NativePath::Bytes(b)) && b@ == bytes,
                None => r == Err::<NativePath, RpcError>(invalid_params()),
            },
            self.encoding == PathEncoding::Percent && !unix ==> r == Err::<NativePath, RpcError>(
                invalid_params(),
            ),
            self.encoding == PathEncoding::Wide && !unix ==> match percent_units(self.value@, 4) {
                Some(us) => r matches Ok(NativePath::Units(v)) && v@.len() == us.len() && forall|
                    i: int,
                | 0 <= i < us.len() ==> #[trigger] v@[i] == us[i],
                None => r == Err::<NativePath, RpcError>(invalid_params()),
            },
            self.encoding == PathEncoding::Wide && unix ==> r == Err::<NativePath, RpcError>(
                invalid_params(),
            ),
    {
        match self.encoding {
            PathEncoding::Utf8 => Ok(NativePath::Text(self.value.clone())),
            PathEncoding::Percent => {
                if !unix {
                    return Err(RpcError { code: INVALID_PARAMS });
                }
                match decode_percent(self.value.as_str()) {
                    Ok(bytes) => Ok(NativePath::Bytes(bytes)),
                    Err(e) => Err(e),
                }
            },
            PathEncoding::Wide => {
                if unix {
                    return Err(RpcError { code: INVALID_PARAMS });
                }
                match decode_wide(self.value.as_str()) {
                    Ok(units) => Ok(NativePath::Units(units)),
                    Err(e) => Err(e),
                }
            },
        }
    }
}

proof fn lemma_hex_digit_value(v: int)
    requires
        0 <= v < 16,
    ensures
        hex_value(hex_digit(v)) == Some(v as nat),
        hex_digit(v) != '+',
        (hex_digit(v) as u32) < 128,
{
}

/// Decoding the percent encoding of any bytes gives exactly those bytes back.
pub proof fn lemma_percent_round_trip(bytes: Seq<u8>)
    ensures
        percent_decoded(percent_encoded(bytes)) == Some(bytes),
{
    let s = percent_encoded(bytes);
    let n = bytes.len();
    assert forall|k: int| 0 <= k < s.len() implies (#[trigger] s[k] as u32) < 128 by {
        lemma_hex_digit_value((bytes[k / 3] / 16) as int);
        lemma_hex_digit_value((bytes[k / 3] % 16) as int);
    }
    assert(is_ascii_chars(s));
    assert(s.len() == 3 * n);
    assert(s.len() % 3 == 0 && s.len() / 3 == n);
    assert forall|i: int| 0 <= i < n implies #[trigger] chunk_unit(chunk(s, 2, i)) == Some(
        bytes[i] as nat,
    ) by {
        let c = chunk(s, 2, i);
        let b = bytes[i];
        assert(i * (2 + 1) == 3 * i && (i + 1) * (2 + 1) == 3 * i + 3) by (nonlinear_arith);
        assert(c == s.subrange(3 * i, 3 * i + 3));
        assert((3 * i) / 3 == i && (3 * i + 1) / 3 == i && (3 * i + 2) / 3 == i);
        assert((3 * i) % 3 == 0 && (3 * i + 1) % 3 == 1 && (3 * i + 2) % 3 == 2);
        assert(c.len() == 3);
        assert(c[0] == '%');
        assert(c[1] == hex_digit((b / 16) as int));
        assert(c[2] == hex_digit((b % 16) as int));
        lemma_hex_digit_value((b / 16) as int);
        lemma_hex_digit_value((b % 16) as int);
        let t = c.drop_first();
        assert(t.drop_last() =~= seq![c[1]]);
        assert(seq![c[1]].drop_last() =~= Seq::<char>::empty());
        assert(hex_number(Seq::<char>::empty()) == Some(0nat));
        assert(hex_number(seq![c[1]]) == Some((b / 16) as nat));
        assert(hex_number(t) == Some(((b / 16) * 16 + b % 16) as nat));
    }
    let units = percent_units(s, 2)->0;
    assert(percent_units(s, 2) is Some);
    assert(units.len() == n);
    assert(percent_decoded(s)->0 =~= bytes);
}

pub(crate) fn hex_char(v: u8) -> (c: char)
    requires
        v < 16,
    ensures
        c == hex_digit(v as int),
{
    if v < 10 {
        (48 + v) as char
    } else {
        (55 + v) as char
    }
}

/// Encodes all bytes, literal percent signs included, so decoding is unambiguous.
pub fn percent_encode_bytes(value: &[u8]) -> (encoded: String)
    ensures
        encoded@ == percent_encoded(value@),
{
    let mut encoded = String::new();
    let mut i: usize = 0;
    while i < value.len()
        invariant
            i <= value@.len(),
            encoded@ == percent_encoded(value@.subrange(0, i as int)),
        decreases value.len() - i,
    {
        let byte = value[i];
        encoded.push('%');
        encoded.push(hex_char(byte / 16));
        encoded.push(hex_char(byte % 16));
        proof {
            let next = value@.subrange(0, i + 1);
            assert forall|k: int| 0 <= k < 3 * i implies #[trigger] percent_encoded(next)[k]
                == percent_encoded(value@.subrange(0, i as int))[k] by {
                assert(k / 3 < i);
            }
            assert(encoded@ =~= percent_encoded(next)) by {
                assert(percent_encoded(next)[3 * i] == '%');
                assert(percent_encoded(next)[3 * i + 1] == hex_digit((byte / 16) as int)) by {
                    assert((3 * i + 1) / 3 == i);
                }
                assert(percent_encoded(next)[3 * i + 2] == hex_digit((byte % 16) as int)) by {
                    assert((3 * i + 2) / 3 == i);
                }
            }
        }
        i = i + 1;
    }
    proof {
        assert(value@.subrange(0, value@.len() as int) =~= value@);
    }
    encoded
}

/// The `d`-th of the four hexadecimal digits of a UTF-16 unit, most significant first.
pub open spec fn nibble(u: u16, d: int) -> int {
    if d == 1 {
        (u / 4096) as int
    } else if d == 2 {
        ((u / 256) % 16) as int
    } else if d == 3 {
        ((u / 16) % 16) as int
    } else {
        (u % 16) as int
    }
}

/// Every UTF-16 unit written as `%` and four upper-case hexadecimal digits.
pub open spec fn wide_encoded(units: Seq<u16>) -> Seq<char> {
    Seq::new(5 * units.len(), |k: int| if k % 5 == 0 { '%' } else { hex_digit(nibble(units[k / 5], k % 5)) })
}

/// Encodes Windows UTF-16 units, unpaired surrogates included, as `%XXXX` groups.
pub fn percent_encode_units(units: &[u16]) -> (encoded: String)
    ensures
        encoded@ == wide_encoded(units@),
{
    let mut encoded = String::new();
    let mut i: usize = 0;
    while i < units.len()
        invariant
            i <= units@.len(),
            encoded@ == wide_encoded(units@.subrange(0, i as int)),
        decreases units.len() - i,
    {
        let u = units[i];
        assert(u / 4096 < 16) by (bit_vector);
        encoded.push('%');
        encoded.push(hex_char((u / 4096) as u8));
        encoded.push(hex_char(((u / 256) % 16) as u8));
        encoded.push(hex_char(((u / 16) % 16) as u8));
        encoded.push(hex_char((u % 16) as u8));
        proof {
            let next = units@.subrange(0, i + 1);
            assert forall|k: int| 0 <= k < 5 * i implies #[trigger] wide_encoded(next)[k]
                == wide_encoded(units@.subrange(0, i as int))[k] by {
                assert(k / 5 < i);
            }
            assert(encoded@ =~= wide_encoded(next)) by {
                assert((5 * i) % 5 == 0);
                assert((5 * i + 1) / 5 == i && (5 * i + 1) % 5 == 1);
                assert((5 * i + 2) / 5 == i && (5 * i + 2) % 5 == 2);
                assert((5 * i + 3) / 5 == i && (5 * i + 3) % 5 == 3);
                assert((5 * i + 4) / 5 == i && (5 * i + 4) % 5 == 4);
            }
        }
        i = i + 1;
    }
    proof {
        assert(units@.subrange(0, units@.len() as int) =~= units@);
    }
    encoded
}

/// Decoding the `%XXXX` encoding of any UTF-16 units gives exactly those units back.
pub proof fn lemma_wide_round_trip(units: Seq<u16>)
    ensures
        percent_units(wide_encoded(units), 4) == Some(units.map_values(|u: u16| u as nat)),
{
    let s = wide_encoded(units);
    let n = units.len();
    assert forall|k: int| 0 <= k < s.len() implies (#[trigger] s[k] as u32) < 128 by {
        if k % 5 != 0 {
            let u = units[k / 5];
            assert(u / 4096 < 16 && (u / 256) % 16 < 16 && (u / 16) % 16 < 16 && u % 16 < 16) by (bit_vector);
            lemma_hex_digit_value(nibble(u, k % 5));
        }
    }
    assert(is_ascii_chars(s));
    assert(s.len() % 5 == 0 && s.len() / 5 == n);
    assert forall|i: int| 0 <= i < n implies #[trigger] chunk_unit(chunk(s, 4, i)) == Some(units[i] as nat) by {
        let c = chunk(s, 4, i);
        let u = units[i];
        assert(i * (4 + 1) == 5 * i && (i + 1) * (4 + 1) == 5 * i + 5) by (nonlinear_arith);
        assert(c == s.subrange(5 * i, 5 * i + 5));
        assert((5 * i) / 5 == i && (5 * i) % 5 == 0);
        assert((5 * i + 1) / 5 == i && (5 * i + 1) % 5 == 1);
        assert((5 * i + 2) / 5 == i && (5 * i + 2) % 5 == 2);
        assert((5 * i + 3) / 5 == i && (5 * i + 3) % 5 == 3);
        assert((5 * i + 4) / 5 == i && (5 * i + 4) % 5 == 4);
        assert(c.len() == 5);
        assert(c[0] == '%');
        assert(u / 4096 < 16 && (u / 256) % 16 < 16 && (u / 16) % 16 < 16 && u % 16 < 16) by (bit_vector);
        let a = nibble(u, 1);
        let b = nibble(u, 2);
        let d = nibble(u, 3);
        let e = nibble(u, 4);
        lemma_hex_digit_value(a);
        lemma_hex_digit_value(b);
        lemma_hex_digit_value(d);
        lemma_hex_digit_value(e);
        assert(c[1] == hex_digit(a) && c[2] == hex_digit(b) && c[3] == hex_digit(d) && c[4] == hex_digit(e));
        let t = c.drop_first();
        assert(t.drop_last() =~= seq![c[1], c[2], c[3]]);
        assert(seq![c[1], c[2], c[3]].drop_last() =~= seq![c[1], c[2]]);
        assert(seq![c[1], c[2]].drop_last() =~= seq![c[1]]);
        assert(seq![c[1]].drop_last() =~= Seq::<char>::empty());
        assert(hex_number(Seq::<char>::empty()) == Some(0nat));
        assert(hex_number(seq![c[1]]) == Some(a as nat));
        assert(hex_number(seq![c[1], c[2]]) == Some((a * 16 + b) as nat));
        assert(hex_number(seq![c[1], c[2], c[3]]) == Some(((a * 16 + b) * 16 + d) as nat));
        assert(((u / 4096) * 16 + (u / 256) % 16) * 16 * 16 + ((u / 16) % 16) * 16 + u % 16 == u) by (bit_vector);
        assert(hex_number(t) == Some(u as nat));
    }
    assert(percent_units(s, 4) is Some);
    assert(percent_units(s, 4)->0 =~= units.map_values(|u: u16| u as nat));
}

/// Keeps valid UTF-8 Git text exact and percent-encodes every byte otherwise;
/// the second component names the encoding used.
pub fn json_git_text(value: &[u8]) -> (r: (String, &'static str))
    ensures
        valid_utf8(value@) ==> r.0@ == decode_utf8(value@) && r.1@ == utf8_label(),
        !valid_utf8(value@) ==> r.0@ == percent_encoded(value@) && r.1@ == percent_label(),
{
    match utf8_text(value) {
        Some(text) => {
            proof {
                reveal_strlit("utf-8");
            }
            (text.to_owned(), "utf-8")
        },
        None => {
            proof {
                reveal_strlit("percent");
            }
            (percent_encode_bytes(value), "percent")
        },
    }
}

/// Git text can always be recovered from its JSON form: text kept as UTF-8
/// encodes back to the original bytes, and percent text decodes to them.
pub proof fn lemma_git_text_reversible(bytes: Seq<u8>)
    ensures
        valid_utf8(bytes) ==> encode_utf8(decode_utf8(bytes)) == bytes,
        !valid_utf8(bytes) ==> percent_decoded(percent_encoded(bytes)) == Some(bytes),
{
    if valid_utf8(bytes) {
        decode_utf8_encode_utf8(bytes);
    } else {
        lemma_percent_round_trip(bytes);
    }
}

} // verus!
