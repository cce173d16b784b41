//! Human presentation of repository paths and of the stable identifiers of
//! semantic changes.

use vstd::prelude::*;
use vstd::string::*;
use vstd::utf8::*;
use crate::encoding::{hex_char, hex_digit};
use crate::history::{split_on, split_text};
use crate::text::{byte_str_text, push_str};

verus! {

/// A Unicode control character (general category Cc).
pub open spec fn is_control_char(c: char) -> bool {
    (c as u32) <= 0x1f || (0x7f <= (c as u32) && (c as u32) <= 0x9f)
}

/// A path that reads unambiguously without quotes.
pub open spec fn plain_path(text: Seq<char>) -> bool {
    forall|i: int| 0 <= i < text.len() ==> !is_control_char(#[trigger] text[i]) && text[i] != '\\'
        && text[i] != '"'
}

/// How one path byte appears inside a quoted path.
pub open spec fn escaped_byte(b: u8) -> Seq<char> {
    if b == 92 {
        seq!['\\', '\\']
    } else if b == 34 {
        seq!['\\', '"']
    } else if b == 10 {
        seq!['\\', 'n']
    } else if b == 13 {
        seq!['\\', 'r']
    } else if b == 9 {
        seq!['\\', 't']
    } else if 0x20 <= b <= 0x7e {
        seq![b as char]
    } else {
        seq!['\\', 'x', hex_digit((b / 16) as int), hex_digit((b % 16) as int)]
    }
}

pub open spec fn escaped_bytes(bytes: Seq<u8>) -> Seq<char>
    decreases bytes.len(),
{
    if bytes.len() == 0 {
        Seq::empty()
    } else {
        escaped_bytes(bytes.drop_last()) + escaped_byte(bytes.last())
    }
}

/// A path as people read it: verbatim when that is unambiguous, quoted with
/// escapes otherwise.
pub open spec fn display_path_spec(bytes: Seq<u8>) -> Seq<char> {
    if valid_utf8(bytes) && plain_path(decode_utf8(bytes)) {
        decode_utf8(bytes)
    } else {
        seq!['"'] + escaped_bytes(bytes) + seq!['"']
    }
}

fn is_plain_text(text: &str) -> (r: bool)
    ensures
        r == plain_path(text@),
{
    let n = text.unicode_len();
    let mut i: usize = 0;
    while i < n
        invariant
            n == text@.len(),
            i <= n,
            forall|j: int| 0 <= j < i ==> !is_control_char(#[trigger] text@[j]) && text@[j] != '\\'
                && text@[j] != '"',
        decreases n - i,
    {
        let c = text.get_char(i);
        let code = c as u32;
        if code <= 0x1f || (0x7f <= code && code <= 0x9f) || c == '\\' || c == '"' {
            return false;
        }
        i = i + 1;
    }
    true
}

fn push_escaped_byte(out: &mut String, b: u8)
    ensures
        final(out)@ == old(out)@ + escaped_byte(b),
{
    if b == 92 {
        push_str(out, "\\\\");
        proof { reveal_strlit("\\\\"); }
    } else if b == 34 {
        push_str(out, "\\\"");
        proof { reveal_strlit("\\\""); }
    } else if b == 10 {
        push_str(out, "\\n");
        proof { reveal_strlit("\\n"); }
    } else if b == 13 {
        push_str(out, "\\r");
        proof { reveal_strlit("\\r"); }
    } else if b == 9 {
        push_str(out, "\\t");
        proof { reveal_strlit("\\t"); }
    } else if 0x20 <= b && b <= 0x7e {
        out.push(b as char);
    } else {
        out.push('\\');
        out.push('x');
        out.push(hex_char(b / 16));
        out.push(hex_char(b % 16));
    }
    assert(final(out)@ =~= old(out)@ + escaped_byte(b)) by {
        if b == 92 { assert("\\\\"@ =~= seq!['\\', '\\']); }
        else if b == 34 { assert("\\\""@ =~= seq!['\\', '"']); }
        else if b == 10 { assert("\\n"@ =~= seq!['\\', 'n']); }
        else if b == 13 { assert("\\r"@ =~= seq!['\\', 'r']); }
        else if b == 9 { assert("\\t"@ =~= seq!['\\', 't']); }
    }
}

/// Quotes a path only when control characters, quotes, backslashes or bytes
/// that are not UTF-8 require escaping.
pub fn display_path(path: &[u8]) -> (shown: String)
    ensures
        shown@ == display_path_spec(path@),
{
    match byte_str_text(path) {
        Some(text) => {
            if is_plain_text(text) {
                return text.to_owned();
            }
        },
        None => {},
    }
    let mut escaped = String::new();
    escaped.push('"');
    let mut i: usize = 0;
    while i < path.len()
        invariant
            i <= path@.len(),
            escaped@ == seq!['"'] + escaped_bytes(path@.subrange(0, i as int)),
        decreases path.len() - i,
    {
        push_escaped_byte(&mut escaped, path[i]);
        proof {
            assert(path@.subrange(0, i + 1).drop_last() =~= path@.subrange(0, i as int));
        }
        i = i + 1;
    }
    escaped.push('"');
    proof {
        assert(path@.subrange(0, path@.len() as int) =~= path@);
    }
    escaped
}

proof fn lemma_escaped_bytes_front(bytes: Seq<u8>)
    requires
        bytes.len() > 0,
    ensures
        escaped_bytes(bytes) == escaped_byte(bytes[0]) + escaped_bytes(bytes.drop_first()),
    decreases bytes.len(),
{
    if bytes.len() > 1 {
        lemma_escaped_bytes_front(bytes.drop_last());
        assert(bytes.drop_last().drop_first() =~= bytes.drop_first().drop_last());
        assert(bytes.drop_last()[0] == bytes[0]);
        assert(bytes.drop_first().last() == bytes.last());
    } else {
        assert(bytes.drop_first() =~= Seq::<u8>::empty());
        assert(bytes.drop_last() =~= Seq::<u8>::empty());
    }
}

proof fn lemma_hex_digit_injective(v: int, w: int)
    requires
        0 <= v < 16,
        0 <= w < 16,
        hex_digit(v) == hex_digit(w),
    ensures
        v == w,
{
}

proof fn lemma_escaped_byte_injective(x: u8, y: u8)
    requires
        escaped_byte(x) == escaped_byte(y),
    ensures
        x == y,
{
    let ex = escaped_byte(x);
    let special_x = x == 92 || x == 34 || x == 10 || x == 13 || x == 9;
    let special_y = y == 92 || y == 34 || y == 10 || y == 13 || y == 9;
    let literal_x = !special_x && 0x20 <= x <= 0x7e;
    let literal_y = !special_y && 0x20 <= y <= 0x7e;
    let ey = escaped_byte(y);
    if literal_x {
        assert(ex.len() == 1);
        assert(literal_y);
        assert(ex[0] == ey[0]);
        assert((x as char) as u32 == x as u32);
        assert((y as char) as u32 == y as u32);
    } else if special_x {
        assert(ex.len() == 2);
        assert(special_y);
        assert(ex[1] == ey[1]);
        if x == 92 {
            assert(y == 92);
        } else if x == 34 {
            assert(y == 34);
        } else if x == 10 {
            assert(y == 10);
        } else if x == 13 {
            assert(y == 13);
        } else {
            assert(y == 9);
        }
    } else {
        assert(ex.len() == 4);
        assert(!literal_y && !special_y);
        assert(ex[2] == hex_digit((x / 16) as int));
        assert(ex[3] == hex_digit((x % 16) as int));
        lemma_hex_digit_injective((x / 16) as int, (y / 16) as int);
        lemma_hex_digit_injective((x % 16) as int, (y % 16) as int);
        assert(x == 16 * (x / 16) + x % 16);
        assert(y == 16 * (y / 16) + y % 16);
    }
}

/// The escape of one byte is never a proper prefix of the escape of another.
proof fn lemma_escape_prefix_free(x: u8, y: u8, s1: Seq<char>, s2: Seq<char>)
    requires
        escaped_byte(x) + s1 == escaped_byte(y) + s2,
    ensures
        x == y,
        s1 == s2,
{
    let ex = escaped_byte(x);
    let ey = escaped_byte(y);
    let whole = ex + s1;
    assert(whole[0] == ex[0] && whole[0] == ey[0]);
    if ex.len() > 1 {
        assert(whole[1] == ex[1]);
    }
    if ey.len() > 1 {
        assert((ey + s2)[1] == ey[1]);
    }
    assert(ex.len() == ey.len());
    assert(ex =~= whole.subrange(0, ex.len() as int));
    assert(ey =~= (ey + s2).subrange(0, ey.len() as int));
    lemma_escaped_byte_injective(x, y);
    assert(s1 =~= whole.subrange(ex.len() as int, whole.len() as int));
    assert(s2 =~= (ey + s2).subrange(ey.len() as int, whole.len() as int));
}

proof fn lemma_escaped_bytes_injective(a: Seq<u8>, b: Seq<u8>)
    requires
        escaped_bytes(a) == escaped_bytes(b),
    ensures
        a == b,
    decreases a.len(),
{
    if a.len() == 0 {
        if b.len() > 0 {
            lemma_escaped_bytes_front(b);
            assert(escaped_byte(b[0]).len() >= 1);
            assert(escaped_bytes(b).len() >= 1);
        }
        assert(b =~= a);
    } else if b.len() == 0 {
        lemma_escaped_bytes_front(a);
        assert(escaped_byte(a[0]).len() >= 1);
        assert(escaped_bytes(a).len() >= 1);
    } else {
        lemma_escaped_bytes_front(a);
        lemma_escaped_bytes_front(b);
        lemma_escape_prefix_free(a[0], b[0], escaped_bytes(a.drop_first()), escaped_bytes(b.drop_first()));
        lemma_escaped_bytes_injective(a.drop_first(), b.drop_first());
        assert(a =~= seq![a[0]] + a.drop_first());
        assert(b =~= seq![b[0]] + b.drop_first());
    }
}

/// Different paths are always shown differently: the presentation is
/// unambiguous for every byte string.
pub proof fn lemma_display_path_injective(a: Seq<u8>, b: Seq<u8>)
    requires
        display_path_spec(a) == display_path_spec(b),
    ensures
        a == b,
{
    let plain_a = valid_utf8(a) && plain_path(decode_utf8(a));
    let plain_b = valid_utf8(b) && plain_path(decode_utf8(b));
    if plain_a && plain_b {
        decode_utf8_encode_utf8(a);
        decode_utf8_encode_utf8(b);
    } else if plain_a && !plain_b {
        let q = seq!['"'] + escaped_bytes(b) + seq!['"'];
        assert(q[0] == '"');
        assert(!(decode_utf8(a)[0] == '"'));
    } else if !plain_a && plain_b {
        let q = seq!['"'] + escaped_bytes(a) + seq!['"'];
        assert(q[0] == '"');
        assert(!(decode_utf8(b)[0] == '"'));
    } else {
        let qa = seq!['"'] + escaped_bytes(a) + seq!['"'];
        let qb = seq!['"'] + escaped_bytes(b) + seq!['"'];
        assert(escaped_bytes(a) =~= qa.subrange(1, qa.len() - 1));
        assert(escaped_bytes(b) =~= qb.subrange(1, qb.len() - 1));
        lemma_escaped_bytes_injective(a, b);
    }
}

/// `s` with every occurrence of `p`, taken from left to right, replaced by `r`.
pub open spec fn replace_all(s: Seq<char>, p: Seq<char>, r: Seq<char>) -> Seq<char>
    decreases s.len(),
{
    if p.len() == 0 || s.len() < p.len() {
        s
    } else if s.subrange(0, p.len() as int) == p {
        r + replace_all(s.subrange(p.len() as int, s.len() as int), p, r)
    } else {
        seq![s[0]] + replace_all(s.drop_first(), p, r)
    }
}

/// Replaces every `%` + `a` + `b` in `text` by `by`.
fn replace_escape(text: &str, a: char, b: char, by: char) -> (r: String)
    ensures
        r@ == replace_all(text@, seq!['%', a, b], seq![by]),
{
    let n = text.unicode_len();
    let ghost pat = seq!['%', a, b];
    let mut out = String::new();
    let mut i: usize = 0;
    assert(text@.subrange(0, n as int) =~= text@);
    while i < n
        invariant
            n == text@.len(),
            i <= n,
            pat == seq!['%', a, b],
            replace_all(text@, pat, seq![by]) == out@ + replace_all(text@.subrange(i as int, n as int), pat, seq![by]),
        decreases n - i,
    {
        let ghost rest = text@.subrange(i as int, n as int);
        if n - i >= 3 && text.get_char(i) == '%' && text.get_char(i + 1) == a && text.get_char(i + 2) == b {
            assert(rest.subrange(0, 3) =~= pat);
            assert(rest.subrange(3, rest.len() as int) =~= text@.subrange(i + 3, n as int));
            out.push(by);
            i = i + 3;
        } else {
            assert(rest.subrange(0, 3) != pat || rest.len() < 3) by {
                if rest.len() >= 3 && rest.subrange(0, 3) == pat {
                    assert(rest.subrange(0, 3)[0] == text@[i as int]);
                    assert(rest.subrange(0, 3)[1] == text@[i + 1]);
                    assert(rest.subrange(0, 3)[2] == text@[i + 2]);
                }
            }
            let c = text.get_char(i);
            out.push(c);
            assert(rest.drop_first() =~= text@.subrange(i + 1, n as int));
            i = i + 1;
        }
    }
    out
}

/// The name a stable object identifier escapes: `%2F`, `%3A` and `%25` decode,
/// in that order, to `/`, `:` and `%`.
pub fn unescape_object_name(name: &str) -> (r: String)
    ensures
        r@ == replace_all(
            replace_all(replace_all(name@, seq!['%', '2', 'F'], seq!['/']), seq!['%', '3', 'A'], seq![':']),
            seq!['%', '2', '5'],
            seq!['%'],
        ),
{
    let slashes = replace_escape(name, '2', 'F', '/');
    let colons = replace_escape(slashes.as_str(), '3', 'A', ':');
    replace_escape(colons.as_str(), '2', '5', '%')
}

/// How one character of an object name is escaped: `%` always becomes
/// `%25`; `/` becomes `%2F` and `:` becomes `%3A` where those are escaped.
pub open spec fn escaped_char(c: char, slash: bool, colon: bool) -> Seq<char> {
    if c == '%' {
        seq!['%', '2', '5']
    } else if c == '/' && slash {
        seq!['%', '2', 'F']
    } else if c == ':' && colon {
        seq!['%', '3', 'A']
    } else {
        seq![c]
    }
}

pub open spec fn escaped_with(name: Seq<char>, slash: bool, colon: bool) -> Seq<char>
    decreases name.len(),
{
    if name.len() == 0 {
        Seq::empty()
    } else {
        escaped_char(name[0], slash, colon) + escaped_with(name.drop_first(), slash, colon)
    }
}

/// The escaped form of an object name in a stable identifier: `%`, `/` and
/// `:` become `%25`, `%2F` and `%3A`, so that `/` and `:` separate the
/// identifier's parts.
pub open spec fn escaped_object_name(name: Seq<char>) -> Seq<char> {
    escaped_with(name, true, true)
}

proof fn lemma_replace_piece(piece: Seq<char>, rest: Seq<char>, p: Seq<char>, r: Seq<char>)
    requires
        p.len() == 3,
        p[0] == '%',
        (piece.len() == 1 && piece[0] != '%') || (piece.len() == 3 && piece[0] == '%' && piece[1] != '%'
            && piece[2] != '%'),
    ensures
        replace_all(piece + rest, p, r) == (if piece == p {
            r
        } else {
            piece
        }) + replace_all(rest, p, r),
    decreases piece.len(),
{
    let s = piece + rest;
    if piece.len() == 1 {
        assert(piece != p);
        if s.len() < 3 {
            assert(replace_all(rest, p, r) == rest);
            assert(s =~= piece + rest);
        } else {
            assert(s.subrange(0, 3)[0] != p[0]);
            assert(s.subrange(0, 3) != p);
            assert(s.drop_first() =~= rest);
            assert(seq![s[0]] =~= piece);
        }
    } else {
        assert(s.subrange(0, 3) =~= piece);
        if piece == p {
            assert(s.subrange(3, s.len() as int) =~= rest);
        } else {
            let tail = seq![piece[2]];
            let middle = seq![piece[1]];
            lemma_replace_piece(tail, rest, p, r);
            lemma_replace_piece(middle, tail + rest, p, r);
            assert(s.drop_first() =~= middle + (tail + rest));
            assert(seq![s[0]] + middle + tail =~= piece);
            assert(replace_all(s, p, r) == seq![s[0]] + replace_all(s.drop_first(), p, r));
            assert(replace_all(s, p, r) =~= piece + replace_all(rest, p, r));
        }
    }
}

proof fn lemma_unescape_slashes(name: Seq<char>, colon: bool)
    ensures
        replace_all(escaped_with(name, true, colon), seq!['%', '2', 'F'], seq!['/']) == escaped_with(name, false, colon),
    decreases name.len(),
{
    if name.len() > 0 {
        lemma_unescape_slashes(name.drop_first(), colon);
        lemma_replace_piece(
            escaped_char(name[0], true, colon),
            escaped_with(name.drop_first(), true, colon),
            seq!['%', '2', 'F'],
            seq!['/'],
        );
    }
}

proof fn lemma_unescape_colons(name: Seq<char>)
    ensures
        replace_all(escaped_with(name, false, true), seq!['%', '3', 'A'], seq![':']) == escaped_with(name, false, false),
    decreases name.len(),
{
    if name.len() > 0 {
        lemma_unescape_colons(name.drop_first());
        lemma_replace_piece(
            escaped_char(name[0], false, true),
            escaped_with(name.drop_first(), false, true),
            seq!['%', '3', 'A'],
            seq![':'],
        );
    }
}

proof fn lemma_unescape_percents(name: Seq<char>)
    ensures
        replace_all(escaped_with(name, false, false), seq!['%', '2', '5'], seq!['%']) == name,
    decreases name.len(),
{
    if name.len() > 0 {
        lemma_unescape_percents(name.drop_first());
        lemma_replace_piece(
            escaped_char(name[0], false, false),
            escaped_with(name.drop_first(), false, false),
            seq!['%', '2', '5'],
            seq!['%'],
        );
        assert(seq![name[0]] + name.drop_first() =~= name);
    }
}

/// Unescaping the escaped form of any object name gives the name back, so
/// the names in stable identifiers are shown exactly as they were written.
pub proof fn lemma_unescape_escaped_name(name: Seq<char>)
    ensures
        replace_all(
            replace_all(
                replace_all(escaped_object_name(name), seq!['%', '2', 'F'], seq!['/']),
                seq!['%', '3', 'A'],
                seq![':'],
            ),
            seq!['%', '2', '5'],
            seq!['%'],
        ) == name,
{
    lemma_unescape_slashes(name, true);
    lemma_unescape_colons(name);
    lemma_unescape_percents(name);
}

/// Offset of the first `:` or `/`, or the length of `id` when there is none.
pub open spec fn first_separator(id: Seq<char>) -> int
    decreases id.len(),
{
    if id.len() == 0 || id[0] == ':' || id[0] == '/' {
        0
    } else {
        1 + first_separator(id.drop_first())
    }
}

/// The top-level metadata kind of a stable semantic object identifier: its
/// text before the first `:` or `/`.
pub fn semantic_object_group(id: &str) -> (group: &str)
    ensures
        group@ == id@.subrange(0, first_separator(id@)),
{
    let n = id.unicode_len();
    let mut i: usize = 0;
    assert(id@.subrange(0, n as int) =~= id@);
    while i < n && id.get_char(i) != ':' && id.get_char(i) != '/'
        invariant
            n == id@.len(),
            i <= n,
            first_separator(id@) == i + first_separator(id@.subrange(i as int, n as int)),
        decreases n - i,
    {
        assert(id@.subrange(i as int, n as int).drop_first() =~= id@.subrange(i + 1, n as int));
        i = i + 1;
    }
    id.substring_char(0, i)
}

/// The kind of one semantic change.
#[derive(Clone, Copy, Debug, PartialEq, Eq, Structural)]
pub enum SemanticEventKind {
    ObjectAdded,
    ObjectRemoved,
    ObjectChanged,
    ModuleChanged,
    MethodAdded,
    MethodRemoved,
    MethodChanged,
    FunctionAdded,
    FunctionRemoved,
    FunctionChanged,
    FormChanged,
    MetadataAttributeChanged,
}

pub open spec fn semantic_event_key_spec(kind: SemanticEventKind) -> Seq<char> {
    match kind {
        SemanticEventKind::ObjectAdded => "diff-semantic-object-added"@,
        SemanticEventKind::ObjectRemoved => "diff-semantic-object-removed"@,
        SemanticEventKind::ObjectChanged => "diff-semantic-object-changed"@,
        SemanticEventKind::ModuleChanged => "diff-semantic-module-changed"@,
        SemanticEventKind::MethodAdded => "diff-semantic-method-added"@,
        SemanticEventKind::MethodRemoved => "diff-semantic-method-removed"@,
        SemanticEventKind::MethodChanged => "diff-semantic-method-changed"@,
        SemanticEventKind::FunctionAdded => "diff-semantic-function-added"@,
        SemanticEventKind::FunctionRemoved => "diff-semantic-function-removed"@,
        SemanticEventKind::FunctionChanged => "diff-semantic-function-changed"@,
        SemanticEventKind::FormChanged => "diff-semantic-form-changed"@,
        SemanticEventKind::MetadataAttributeChanged => "diff-semantic-metadata-attribute-changed"@,
    }
}

/// The translation key of the label of a semantic change.
pub fn semantic_event_key(kind: SemanticEventKind) -> (key: &'static str)
    ensures
        key@ == semantic_event_key_spec(kind),
{
    match kind {
        SemanticEventKind::ObjectAdded => "diff-semantic-object-added",
        SemanticEventKind::ObjectRemoved => "diff-semantic-object-removed",
        SemanticEventKind::ObjectChanged => "diff-semantic-object-changed",
        SemanticEventKind::ModuleChanged => "diff-semantic-module-changed",
        SemanticEventKind::MethodAdded => "diff-semantic-method-added",
        SemanticEventKind::MethodRemoved => "diff-semantic-method-removed",
        SemanticEventKind::MethodChanged => "diff-semantic-method-changed",
        SemanticEventKind::FunctionAdded => "diff-semantic-function-added",
        SemanticEventKind::FunctionRemoved => "diff-semantic-function-removed",
        SemanticEventKind::FunctionChanged => "diff-semantic-function-changed",
        SemanticEventKind::FormChanged => "diff-semantic-form-changed",
        SemanticEventKind::MetadataAttributeChanged => "diff-semantic-metadata-attribute-changed",
    }
}

/// The index of the first `c` in `s`, or the length of `s` where it has none.
pub open spec fn first_index(s: Seq<char>, c: char) -> int
    decreases s.len(),
{
    if s.len() == 0 || s[0] == c {
        0
    } else {
        1 + first_index(s.drop_first(), c)
    }
}

proof fn lemma_first_index(s: Seq<char>, c: char)
    ensures
        0 <= first_index(s, c) <= s.len(),
        first_index(s, c) < s.len() ==> s[first_index(s, c)] == c,
    decreases s.len(),
{
    if s.len() > 0 && s[0] != c {
        lemma_first_index(s.drop_first(), c);
    }
}

/// An object name with its escapes decoded, as [`unescape_object_name`] does.
pub open spec fn unescaped_name(name: Seq<char>) -> Seq<char> {
    replace_all(
        replace_all(replace_all(name, seq!['%', '2', 'F'], seq!['/']), seq!['%', '3', 'A'], seq![':']),
        seq!['%', '2', '5'],
        seq!['%'],
    )
}

/// One part of a logical metadata label: the translation key of its kind,
/// and its name where it has one.
pub struct LabelPart {
    pub kind_key: String,
    pub name: Option<String>,
}

pub open spec fn label_part_view(p: LabelPart) -> (Seq<char>, Option<Seq<char>>) {
    (
        p.kind_key@,
        match p.name {
            Some(n) => Some(n@),
            None => None,
        },
    )
}

pub open spec fn label_parts_view(parts: Seq<LabelPart>) -> Seq<(Seq<char>, Option<Seq<char>>)> {
    parts.map_values(|p: LabelPart| label_part_view(p))
}

/// One segment of a stable object identifier as a label part: the kind
/// before the first `:`, and the decoded name after it, if there is one.
pub open spec fn segment_part(segment: Seq<char>) -> (Seq<char>, Option<Seq<char>>) {
    let i = first_index(segment, ':');
    if i < segment.len() {
        ("diff-metadata-"@ + segment.subrange(0, i), Some(unescaped_name(segment.subrange(i + 1, segment.len() as int))))
    } else {
        ("diff-metadata-"@ + segment, None)
    }
}

fn kind_key(kind: &str) -> (key: String)
    ensures
        key@ == "diff-metadata-"@ + kind@,
{
    let mut key = String::new();
    push_str(&mut key, "diff-metadata-");
    push_str(&mut key, kind);
    key
}

fn segment_label(segment: &str) -> (part: LabelPart)
    ensures
        label_part_view(part) == segment_part(segment@),
{
    let n = segment.unicode_len();
    let mut i: usize = 0;
    assert(segment@.subrange(0, n as int) =~= segment@);
    while i < n && segment.get_char(i) != ':'
        invariant
            n == segment@.len(),
            i <= n,
            first_index(segment@, ':') == i + first_index(segment@.subrange(i as int, n as int), ':'),
        decreases n - i,
    {
        assert(segment@.subrange(i as int, n as int).drop_first() =~= segment@.subrange(i + 1, n as int));
        i = i + 1;
    }
    proof {
        lemma_first_index(segment@, ':');
    }
    if i < n {
        let kind = segment.substring_char(0, i);
        let name = segment.substring_char(i + 1, n);
        LabelPart { kind_key: kind_key(kind), name: Some(unescape_object_name(name)) }
    } else {
        LabelPart { kind_key: kind_key(segment), name: None }
    }
}

/// The label parts of a stable semantic object identifier: one for each
/// `/`-separated segment, in order. Translated and joined by dots, they give
/// the object's label in Configurator notation.
pub fn semantic_object_parts(id: &str) -> (parts: Vec<LabelPart>)
    ensures
        label_parts_view(parts@) == split_on(id@, '/').map_values(|s: Seq<char>| segment_part(s)),
{
    let segments = split_text(id, '/');
    let ghost texts = segments@.map_values(|t: String| t@);
    let mut parts: Vec<LabelPart> = Vec::new();
    let mut i: usize = 0;
    while i < segments.len()
        invariant
            i <= segments@.len(),
            texts == segments@.map_values(|t: String| t@),
            label_parts_view(parts@) == texts.subrange(0, i as int).map_values(|s: Seq<char>| segment_part(s)),
        decreases segments.len() - i,
    {
        let part = segment_label(segments[i].as_str());
        let ghost before = label_parts_view(parts@);
        parts.push(part);
        assert(label_parts_view(parts@) =~= before.push(segment_part(texts[i as int])));
        assert(texts.subrange(0, i + 1) =~= texts.subrange(0, i as int).push(texts[i as int]));
        i = i + 1;
    }
    assert(texts.subrange(0, texts.len() as int) =~= texts);
    parts
}

/// The label parts of a logical metadata path given as its parts' stable
/// kinds and names: each kind becomes the key of its translation.
pub fn metadata_path_parts(path: &Vec<(String, Option<String>)>) -> (parts: Vec<LabelPart>)
    ensures
        label_parts_view(parts@) == path@.map_values(
            |p: (String, Option<String>)|
                (
                    "diff-metadata-"@ + p.0@,
                    match p.1 {
                        Some(n) => Some(n@),
                        None => None::<Seq<char>>,
                    },
                ),
        ),
{
    let mut parts: Vec<LabelPart> = Vec::new();
    let mut i: usize = 0;
    while i < path.len()
        invariant
            i <= path@.len(),
            label_parts_view(parts@) == path@.subrange(0, i as int).map_values(
                |p: (String, Option<String>)|
                    (
                        "diff-metadata-"@ + p.0@,
                        match p.1 {
                            Some(n) => Some(n@),
                            None => None::<Seq<char>>,
                        },
                    ),
            ),
        decreases path.len() - i,
    {
        let item = &path[i];
        let name = match &item.1 {
            Some(n) => Some(n.clone()),
            None => None,
        };
        let ghost before = label_parts_view(parts@);
        parts.push(LabelPart { kind_key: kind_key(item.0.as_str()), name });
        assert(path@.subrange(0, i + 1) =~= path@.subrange(0, i as int).push(path@[i as int]));
        assert(label_parts_view(parts@) =~= before.push(label_part_view(parts@[i as int])));
        i = i + 1;
    }
    assert(path@.subrange(0, path@.len() as int) =~= path@);
    parts
}

} // verus!
