//! Identifiers that travel as base64: decoding, and the two text forms.
//!
//! Trace and span identifiers arrive base64-encoded. A policy sees them either
//! as the text they spell, when the decoded bytes are UTF-8, or as lowercase
//! hex, two digits per byte. Which of the two is fixed by the caller, never by
//! the identifier: a sampling hash must not change with the bytes' printability.

use std::borrow::Cow;
use vstd::prelude::*;
use vstd::utf8::{decode_utf8, valid_utf8};
use crate::attrs::{cow_view, non_empty, present};
use crate::selector::IdForm;
use crate::text::chars_of;

verus! {

// ─── Base64 ──────────────────────────────────────────────────────────

/// The six-bit value of a character of the base64 alphabet.
pub open spec fn sextet(c: char) -> Option<u8> {
    let n = c as int;
    if 65 <= n <= 90 {
        Some((n - 65) as u8)
    } else if 97 <= n <= 122 {
        Some((n - 71) as u8)
    } else if 48 <= n <= 57 {
        Some((n + 4) as u8)
    } else if n == 43 {
        Some(62u8)
    } else if n == 47 {
        Some(63u8)
    } else {
        None
    }
}

/// The character of the base64 alphabet for a six-bit value.
pub open spec fn symbol(v: int) -> char {
    if v < 26 {
        (v + 65) as char
    } else if v < 52 {
        (v + 71) as char
    } else if v < 62 {
        (v - 4) as char
    } else if v == 62 {
        '+'
    } else {
        '/'
    }
}

/// The three bytes spelled by four six-bit values.
pub open spec fn quad_bytes(a: u8, b: u8, c: u8, d: u8) -> Seq<u8> {
    seq![(a * 4 + b / 16) as u8, ((b % 16) * 16 + c / 4) as u8, ((c % 4) * 64 + d) as u8]
}

/// The bytes of a group of four characters without padding.
pub open spec fn decode_quad(q: Seq<char>) -> Option<Seq<u8>> {
    match (sextet(q[0]), sextet(q[1]), sextet(q[2]), sextet(q[3])) {
        (Some(a), Some(b), Some(c), Some(d)) => Some(quad_bytes(a, b, c, d)),
        _ => None,
    }
}

/// The bytes of the last group of four characters, which may end in one or
/// two `=`. The bits that padding leaves unused must be zero.
pub open spec fn decode_tail(q: Seq<char>) -> Option<Seq<u8>> {
    if q[3] != '=' {
        decode_quad(q)
    } else if q[2] != '=' {
        match (sextet(q[0]), sextet(q[1]), sextet(q[2])) {
            (Some(a), Some(b), Some(c)) => if c % 4 == 0 {
                Some(quad_bytes(a, b, c, 0).take(2))
            } else {
                None
            },
            _ => None,
        }
    } else {
        match (sextet(q[0]), sextet(q[1])) {
            (Some(a), Some(b)) => if b % 16 == 0 {
                Some(quad_bytes(a, b, 0, 0).take(1))
            } else {
                None
            },
            _ => None,
        }
    }
}

/// The bytes that `s` encodes in canonical padded base64 (the standard
/// alphabet), if it is such an encoding.
pub open spec fn base64_decode(s: Seq<char>) -> Option<Seq<u8>>
    decreases s.len(),
{
    if s.len() == 0 {
        Some(Seq::empty())
    } else if s.len() < 4 {
        None
    } else if s.len() == 4 {
        decode_tail(s)
    } else {
        match (decode_quad(s.take(4)), base64_decode(s.skip(4))) {
            (Some(head), Some(rest)) => Some(head + rest),
            _ => None,
        }
    }
}

/// The four characters that spell the bytes `x`, `y`, `z`.
pub open spec fn quad_symbols(x: int, y: int, z: int) -> Seq<char> {
    seq![
        symbol(x / 4),
        symbol((x % 4) * 16 + y / 16),
        symbol((y % 16) * 4 + z / 64),
        symbol(z % 64),
    ]
}

/// The canonical padded base64 encoding of `b`.
pub open spec fn base64_encode(b: Seq<u8>) -> Seq<char>
    decreases b.len(),
{
    if b.len() == 0 {
        Seq::empty()
    } else if b.len() == 1 {
        quad_symbols(b[0] as int, 0, 0).take(2) + seq!['=', '=']
    } else if b.len() == 2 {
        quad_symbols(b[0] as int, b[1] as int, 0).take(3) + seq!['=']
    } else {
        quad_symbols(b[0] as int, b[1] as int, b[2] as int) + base64_encode(b.skip(3))
    }
}

// ─── Hex ─────────────────────────────────────────────────────────────

/// The lowercase hex digit for a four-bit value.
pub open spec fn hex_digit(n: int) -> char {
    if n < 10 {
        (n + 48) as char
    } else {
        (n + 87) as char
    }
}

/// The lowercase hex form of `b`: two digits per byte, high digit first.
pub open spec fn hex_encode(b: Seq<u8>) -> Seq<char> {
    Seq::new(
        2 * b.len(),
        |i: int|
            hex_digit(
                if i % 2 == 0 {
                    b[i / 2] as int / 16
                } else {
                    b[i / 2] as int % 16
                },
            ),
    )
}

/// `c` is one of `0`..`9`, `a`..`f`.
pub open spec fn is_lower_hex(c: char) -> bool {
    48 <= c as int <= 57 || 97 <= c as int <= 102
}

// ─── The two text forms ──────────────────────────────────────────────

/// The bytes of a base64 identifier. An empty identifier, like one that is
/// not base64, has none.
pub open spec fn id_bytes(id: Seq<char>) -> Option<Seq<u8>> {
    match base64_decode(id) {
        Some(b) => if b.len() > 0 {
            Some(b)
        } else {
            None
        },
        None => None,
    }
}

/// The identifier as text when its bytes are UTF-8, as hex otherwise.
pub open spec fn utf8_preferred(id: Seq<char>) -> Option<Seq<char>> {
    match id_bytes(id) {
        Some(b) => if valid_utf8(b) {
            Some(decode_utf8(b))
        } else {
            Some(hex_encode(b))
        },
        None => None,
    }
}

/// The identifier as hex.
pub open spec fn hex_only(id: Seq<char>) -> Option<Seq<char>> {
    match id_bytes(id) {
        Some(b) => Some(hex_encode(b)),
        None => None,
    }
}

/// An identifier in the form `form`.
pub open spec fn id_text(form: IdForm, id: Seq<char>) -> Option<Seq<char>> {
    match form {
        IdForm::Verbatim => present(id),
        IdForm::Utf8Preferred => utf8_preferred(id),
        IdForm::Hex => hex_only(id),
    }
}

// ─── Executable ──────────────────────────────────────────────────────

/// `core::str::from_utf8`: accepts exactly the byte strings that are valid
/// UTF-8 and yields the text they encode.
#[verifier::external_body]
pub(crate) fn utf8_text<'a>(bytes: &'a [u8]) -> (r: Option<&'a str>)
    ensures
        r is Some <==> valid_utf8(bytes@),
        r matches Some(s) ==> s@ == decode_utf8(bytes@),
{
    core::str::from_utf8(bytes).ok()
}

/// The six-bit value of `c`, if `c` belongs to the base64 alphabet.
pub fn sextet_of(c: char) -> (r: Option<u8>)
    ensures
        r == sextet(c),
{
    let n = c as u32;
    if 65 <= n && n <= 90 {
        Some((n - 65) as u8)
    } else if 97 <= n && n <= 122 {
        Some((n - 71) as u8)
    } else if 48 <= n && n <= 57 {
        Some((n + 4) as u8)
    } else if n == 43 {
        Some(62)
    } else if n == 47 {
        Some(63)
    } else {
        None
    }
}

/// Appends to `out` the bytes of the group of `len` six-bit values
/// `a`, `b`, `c`, `d`, of which the first `len` count: `len - 1` bytes.
fn push_group(out: &mut Vec<u8>, a: u8, b: u8, c: u8, d: u8, len: usize)
    requires
        a < 64,
        b < 64,
        c < 64,
        d < 64,
        2 <= len <= 4,
    ensures
        final(out)@ == old(out)@ + quad_bytes(a, b, c, d).take(len - 1),
{
    out.push(a * 4 + b / 16);
    if len > 2 {
        out.push((b % 16) * 16 + c / 4);
    }
    if len > 3 {
        out.push((c % 4) * 64 + d);
    }
    proof {
        assert(out@ =~= old(out)@ + quad_bytes(a, b, c, d).take(len - 1));
    }
}

/// Decodes canonical padded base64.
pub fn decode_base64(s: &str) -> (r: Option<Vec<u8>>)
    ensures
        match r {
            Some(v) => base64_decode(s@) == Some(v@),
            None => base64_decode(s@) is None,
        },
{
    let chars = chars_of(s);
    let n = chars.len();
    let mut out: Vec<u8> = Vec::new();
    let mut i: usize = 0;
    proof {
        assert(s@.skip(0) =~= s@);
        match base64_decode(s@) {
            Some(rest) => {
                assert(out@ + rest =~= rest);
            },
            None => {},
        }
    }
    while n - i > 4
        invariant
            i <= n,
            n == chars@.len(),
            chars@ == s@,
            base64_decode(s@) == match base64_decode(s@.skip(i as int)) {
                Some(rest) => Some(out@ + rest),
                None => None,
            },
        decreases n - i,
    {
        let ghost tail = s@.skip(i as int);
        proof {
            assert(tail.take(4) =~= seq![chars@[i as int], chars@[i + 1], chars@[i + 2], chars@[i + 3]]);
            assert(tail.skip(4) =~= s@.skip(i + 4));
        }
        let a = sextet_of(chars[i]);
        let b = sextet_of(chars[i + 1]);
        let c = sextet_of(chars[i + 2]);
        let d = sextet_of(chars[i + 3]);
        match (a, b, c, d) {
            (Some(a), Some(b), Some(c), Some(d)) => {
                let ghost before = out@;
                push_group(&mut out, a, b, c, d, 4);
                i += 4;
                proof {
                    assert(quad_bytes(a, b, c, d).take(3) =~= quad_bytes(a, b, c, d));
                    match base64_decode(s@.skip(i as int)) {
                        Some(rest) => {
                            assert(before + (quad_bytes(a, b, c, d) + rest) =~= out@ + rest);
                        },
                        None => {},
                    }
                }
            },
            _ => {
                return None;
            },
        }
    }
    let ghost tail = s@.skip(i as int);
    if n - i == 0 {
        return Some(out);
    }
    if n - i < 4 {
        return None;
    }
    proof {
        assert(tail =~= seq![chars@[i as int], chars@[i + 1], chars@[i + 2], chars@[i + 3]]);
    }
    let a = sextet_of(chars[i]);
    let b = sextet_of(chars[i + 1]);
    let pad2 = chars[i + 2] == '=';
    let pad3 = chars[i + 3] == '=';
    if !pad3 {
        let c = sextet_of(chars[i + 2]);
        let d = sextet_of(chars[i + 3]);
        match (a, b, c, d) {
            (Some(a), Some(b), Some(c), Some(d)) => {
                push_group(&mut out, a, b, c, d, 4);
                proof {
                    assert(quad_bytes(a, b, c, d).take(3) =~= quad_bytes(a, b, c, d));
                }
                Some(out)
            },
            _ => None,
        }
    } else if !pad2 {
        let c = sextet_of(chars[i + 2]);
        match (a, b, c) {
            (Some(a), Some(b), Some(c)) => {
                if c % 4 != 0 {
                    return None;
                }
                push_group(&mut out, a, b, c, 0, 3);
                Some(out)
            },
            _ => None,
        }
    } else {
        match (a, b) {
            (Some(a), Some(b)) => {
                if b % 16 != 0 {
                    return None;
                }
                push_group(&mut out, a, b, 0, 0, 2);
                Some(out)
            },
            _ => None,
        }
    }
}

/// The lowercase hex digit for `n`.
pub fn hex_digit_of(n: u8) -> (c: char)
    requires
        n < 16,
    ensures
        c == hex_digit(n as int),
{
    if n < 10 {
        (n + 48) as char
    } else {
        (n + 87) as char
    }
}

/// The lowercase hex form of `bytes`.
pub fn encode_hex(bytes: &[u8]) -> (r: String)
    ensures
        r@ == hex_encode(bytes@),
{
    let mut out = String::new();
    let mut i: usize = 0;
    while i < bytes.len()
        invariant
            i <= bytes.len(),
            out@ == hex_encode(bytes@.take(i as int)),
        decreases bytes.len() - i,
    {
        let b = bytes[i];
        out.push(hex_digit_of(b / 16));
        out.push(hex_digit_of(b % 16));
        i += 1;
        proof {
            assert(out@ =~= hex_encode(bytes@.take(i as int)));
        }
    }
    proof {
        assert(bytes@.take(bytes@.len() as int) =~= bytes@);
    }
    out
}

/// Decodes a base64 identifier to text if its bytes are UTF-8, and to hex
/// otherwise. Absent for an empty identifier and for one that is not base64.
pub fn utf8_preferred_decode(id: &str) -> (r: Option<Cow<'static, str>>)
    ensures
        cow_view(r) == utf8_preferred(id@),
{
    match decode_base64(id) {
        Some(bytes) => {
            if bytes.len() == 0 {
                return None;
            }
            match utf8_text(bytes.as_slice()) {
                Some(text) => Some(Cow::Owned(text.to_owned())),
                None => Some(Cow::Owned(encode_hex(bytes.as_slice()))),
            }
        },
        None => None,
    }
}

/// Decodes a base64 identifier to hex, whatever its bytes are. Absent for an
/// empty identifier and for one that is not base64.
pub fn hex_only_decode(id: &str) -> (r: Option<Cow<'static, str>>)
    ensures
        cow_view(r) == hex_only(id@),
{
    match decode_base64(id) {
        Some(bytes) => {
            if bytes.len() == 0 {
                return None;
            }
            Some(Cow::Owned(encode_hex(bytes.as_slice())))
        },
        None => None,
    }
}

/// Presents the identifier `id` in the form `form`.
pub fn identifier<'a>(form: IdForm, id: &'a str) -> (r: Option<Cow<'a, str>>)
    ensures
        cow_view(r) == id_text(form, id@),
{
    match form {
        IdForm::Verbatim => non_empty(id),
        IdForm::Utf8Preferred => utf8_preferred_decode(id),
        IdForm::Hex => hex_only_decode(id),
    }
}

// ─── Laws ────────────────────────────────────────────────────────────

/// Every six-bit value is the value of its own symbol, and no symbol is the
/// padding character.
pub proof fn lemma_sextet_of_symbol(v: int)
    requires
        0 <= v < 64,
    ensures
        sextet(symbol(v)) == Some(v as u8),
        symbol(v) != '=',
{
}

/// Every character of the alphabet is the symbol of its own value.
pub proof fn lemma_symbol_of_sextet(c: char)
    requires
        sextet(c) is Some,
    ensures
        symbol(sextet(c).unwrap() as int) == c,
        sextet(c).unwrap() < 64,
{
}

/// An encoding has four characters for every three bytes, the last group
/// counted in full.
pub proof fn lemma_encode_len(b: Seq<u8>)
    ensures
        base64_encode(b).len() == 4 * ((b.len() + 2) / 3),
    decreases b.len(),
{
    if b.len() >= 3 {
        lemma_encode_len(b.skip(3));
    }
}

/// Splitting three bytes into four six-bit values loses nothing.
proof fn lemma_split_join(x: int, y: int, z: int)
    requires
        0 <= x < 256,
        0 <= y < 256,
        0 <= z < 256,
    ensures
        ({
            let a = x / 4;
            let b = (x % 4) * 16 + y / 16;
            let c = (y % 16) * 4 + z / 64;
            let d = z % 64;
            &&& 0 <= a < 64 && 0 <= b < 64 && 0 <= c < 64 && 0 <= d < 64
            &&& a * 4 + b / 16 == x
            &&& (b % 16) * 16 + c / 4 == y
            &&& (c % 4) * 64 + d == z
            &&& (y == 0 ==> b % 16 == 0)
            &&& (z == 0 ==> c % 4 == 0)
        }),
{
}

/// Joining four six-bit values into three bytes loses nothing.
proof fn lemma_join_split(a: int, b: int, c: int, d: int)
    requires
        0 <= a < 64,
        0 <= b < 64,
        0 <= c < 64,
        0 <= d < 64,
    ensures
        ({
            let x = a * 4 + b / 16;
            let y = (b % 16) * 16 + c / 4;
            let z = (c % 4) * 64 + d;
            &&& 0 <= x < 256 && 0 <= y < 256 && 0 <= z < 256
            &&& x / 4 == a
            &&& (x % 4) * 16 + y / 16 == b
            &&& (y % 16) * 4 + z / 64 == c
            &&& z % 64 == d
        }),
{
}

/// The symbols of three bytes decode to those bytes.
proof fn lemma_quad_symbols_decode(x: u8, y: u8, z: u8)
    ensures
        decode_quad(quad_symbols(x as int, y as int, z as int)) == Some(seq![x, y, z]),
        decode_tail(quad_symbols(x as int, y as int, z as int)) == Some(seq![x, y, z]),
{
    let xi = x as int;
    let yi = y as int;
    let zi = z as int;
    lemma_split_join(xi, yi, zi);
    lemma_sextet_of_symbol(xi / 4);
    lemma_sextet_of_symbol((xi % 4) * 16 + yi / 16);
    lemma_sextet_of_symbol((yi % 16) * 4 + zi / 64);
    lemma_sextet_of_symbol(zi % 64);
    let a = (xi / 4) as u8;
    let b = ((xi % 4) * 16 + yi / 16) as u8;
    let c = ((yi % 16) * 4 + zi / 64) as u8;
    let d = (zi % 64) as u8;
    assert(quad_bytes(a, b, c, d) =~= seq![x, y, z]);
}

/// The padded symbols of two bytes decode to those bytes.
proof fn lemma_padded_two_decode(x: u8, y: u8)
    ensures
        decode_tail(quad_symbols(x as int, y as int, 0).take(3) + seq!['=']) == Some(seq![x, y]),
{
    let xi = x as int;
    let yi = y as int;
    lemma_split_join(xi, yi, 0);
    lemma_sextet_of_symbol(xi / 4);
    lemma_sextet_of_symbol((xi % 4) * 16 + yi / 16);
    lemma_sextet_of_symbol((yi % 16) * 4);
    let a = (xi / 4) as u8;
    let b = ((xi % 4) * 16 + yi / 16) as u8;
    let c = ((yi % 16) * 4) as u8;
    assert(quad_bytes(a, b, c, 0).take(2) =~= seq![x, y]);
}

/// The padded symbols of one byte decode to that byte.
proof fn lemma_padded_one_decode(x: u8)
    ensures
        decode_tail(quad_symbols(x as int, 0, 0).take(2) + seq!['=', '=']) == Some(seq![x]),
{
    let xi = x as int;
    lemma_split_join(xi, 0, 0);
    lemma_sextet_of_symbol(xi / 4);
    lemma_sextet_of_symbol((xi % 4) * 16);
    let a = (xi / 4) as u8;
    let b = ((xi % 4) * 16) as u8;
    assert(quad_bytes(a, b, 0, 0).take(1) =~= seq![x]);
}

/// The bytes of four symbols are spelled by those symbols.
proof fn lemma_quad_bytes_symbols(q: Seq<char>)
    requires
        q.len() == 4,
        decode_quad(q) is Some,
    ensures
        ({
            let b = decode_quad(q).unwrap();
            b.len() == 3 && quad_symbols(b[0] as int, b[1] as int, b[2] as int) == q
        }),
{
    lemma_symbol_of_sextet(q[0]);
    lemma_symbol_of_sextet(q[1]);
    lemma_symbol_of_sextet(q[2]);
    lemma_symbol_of_sextet(q[3]);
    let a = sextet(q[0]).unwrap() as int;
    let b = sextet(q[1]).unwrap() as int;
    let c = sextet(q[2]).unwrap() as int;
    let d = sextet(q[3]).unwrap() as int;
    lemma_join_split(a, b, c, d);
    let bytes = decode_quad(q).unwrap();
    assert(quad_symbols(bytes[0] as int, bytes[1] as int, bytes[2] as int) =~= q);
}

/// The bytes of a last group are spelled by that group.
proof fn lemma_tail_bytes_symbols(q: Seq<char>)
    requires
        q.len() == 4,
        decode_tail(q) is Some,
    ensures
        base64_encode(decode_tail(q).unwrap()) == q,
{
    let bytes = decode_tail(q).unwrap();
    if q[3] != '=' {
        lemma_quad_bytes_symbols(q);
        assert(base64_encode(bytes.skip(3)) =~= Seq::<char>::empty());
        assert(quad_symbols(bytes[0] as int, bytes[1] as int, bytes[2] as int) + Seq::<
            char,
        >::empty() =~= q);
    } else {
        lemma_symbol_of_sextet(q[0]);
        lemma_symbol_of_sextet(q[1]);
        let a = sextet(q[0]).unwrap() as int;
        let b = sextet(q[1]).unwrap() as int;
        if q[2] != '=' {
            lemma_symbol_of_sextet(q[2]);
            let c = sextet(q[2]).unwrap() as int;
            lemma_join_split(a, b, c, 0);
            assert(bytes.len() == 2);
            assert(quad_symbols(bytes[0] as int, bytes[1] as int, 0).take(3) + seq!['='] =~= q);
        } else {
            lemma_join_split(a, b, 0, 0);
            assert(bytes.len() == 1);
            assert(quad_symbols(bytes[0] as int, 0, 0).take(2) + seq!['=', '='] =~= q);
        }
    }
}

/// Decoding undoes the encoding of one byte.
proof fn lemma_decode_encode_one(b: Seq<u8>)
    requires
        b.len() == 1,
    ensures
        base64_decode(base64_encode(b)) == Some(b),
{
    let s = quad_symbols(b[0] as int, 0, 0).take(2) + seq!['=', '='];
    lemma_padded_one_decode(b[0]);
    assert(base64_encode(b) == s);
    assert(s.len() == 4);
    assert(seq![b[0]] =~= b);
}

/// Decoding undoes the encoding of two bytes.
proof fn lemma_decode_encode_two(b: Seq<u8>)
    requires
        b.len() == 2,
    ensures
        base64_decode(base64_encode(b)) == Some(b),
{
    let s = quad_symbols(b[0] as int, b[1] as int, 0).take(3) + seq!['='];
    lemma_padded_two_decode(b[0], b[1]);
    assert(base64_encode(b) == s);
    assert(s.len() == 4);
    assert(seq![b[0], b[1]] =~= b);
}

/// Decoding undoes the encoding of three bytes.
proof fn lemma_decode_encode_three(b: Seq<u8>)
    requires
        b.len() == 3,
    ensures
        base64_decode(base64_encode(b)) == Some(b),
{
    let s = quad_symbols(b[0] as int, b[1] as int, b[2] as int);
    lemma_quad_symbols_decode(b[0], b[1], b[2]);
    assert(base64_encode(b.skip(3)) =~= Seq::<char>::empty());
    assert(base64_encode(b) =~= s);
    assert(s.len() == 4);
    assert(seq![b[0], b[1], b[2]] =~= b);
}

/// Decoding a group of four symbols and what follows it decodes both.
proof fn lemma_decode_step(q: Seq<char>, rest: Seq<char>)
    requires
        q.len() == 4,
        rest.len() > 0,
    ensures
        base64_decode(q + rest) == match (decode_quad(q), base64_decode(rest)) {
            (Some(head), Some(tail)) => Some(head + tail),
            _ => None,
        },
{
    let s = q + rest;
    assert(s.take(4) =~= q);
    assert(s.skip(4) =~= rest);
}

/// Decoding undoes the encoding of more than three bytes, if it undoes the
/// encoding of all but the first three.
proof fn lemma_decode_encode_more(b: Seq<u8>)
    requires
        b.len() > 3,
        base64_decode(base64_encode(b.skip(3))) == Some(b.skip(3)),
    ensures
        base64_decode(base64_encode(b)) == Some(b),
{
    let q = quad_symbols(b[0] as int, b[1] as int, b[2] as int);
    let rest = base64_encode(b.skip(3));
    lemma_quad_symbols_decode(b[0], b[1], b[2]);
    lemma_encode_len(b.skip(3));
    lemma_decode_step(q, rest);
    assert(base64_encode(b) == q + rest);
    assert(seq![b[0], b[1], b[2]] + b.skip(3) =~= b);
}

/// Decoding undoes encoding: `base64_decode(base64_encode(b))` is `b`.
pub proof fn lemma_decode_encode(b: Seq<u8>)
    ensures
        base64_decode(base64_encode(b)) == Some(b),
    decreases b.len(),
{
    if b.len() == 1 {
        lemma_decode_encode_one(b);
    } else if b.len() == 2 {
        lemma_decode_encode_two(b);
    } else if b.len() == 3 {
        lemma_decode_encode_three(b);
    } else if b.len() > 3 {
        lemma_decode_encode(b.skip(3));
        lemma_decode_encode_more(b);
    }
}

/// Only encodings decode: if `base64_decode(s)` is `b`, then `s` is
/// `base64_encode(b)`.
pub proof fn lemma_encode_decode(s: Seq<char>, b: Seq<u8>)
    requires
        base64_decode(s) == Some(b),
    ensures
        base64_encode(b) == s,
    decreases s.len(),
{
    if s.len() == 0 {
    } else if s.len() == 4 {
        lemma_tail_bytes_symbols(s);
    } else {
        let q = s.take(4);
        let rest = base64_decode(s.skip(4)).unwrap();
        lemma_quad_bytes_symbols(q);
        lemma_encode_decode(s.skip(4), rest);
        assert(b.skip(3) =~= rest);
    }
}

/// Hex has two characters for every byte, each a lowercase hex digit.
pub proof fn law_hex_shape(b: Seq<u8>)
    ensures
        hex_encode(b).len() == 2 * b.len(),
        forall|i: int| 0 <= i < 2 * b.len() ==> is_lower_hex(#[trigger] hex_encode(b)[i]),
{
}

/// An identifier made of UTF-8 bytes decodes to the text they spell; one made
/// of other bytes decodes to their hex form, two characters per byte.
pub proof fn law_utf8_preferred(b: Seq<u8>)
    requires
        b.len() > 0,
    ensures
        valid_utf8(b) ==> utf8_preferred(base64_encode(b)) == Some(decode_utf8(b)),
        !valid_utf8(b) ==> utf8_preferred(base64_encode(b)) == Some(hex_encode(b)),
        hex_encode(b).len() == 2 * b.len(),
{
    lemma_decode_encode(b);
}

/// An identifier that decodes to the bytes `b` has the hex form of `b`,
/// whether or not `b` is UTF-8: lowercase digits, two per byte.
pub proof fn law_hex_only(id: Seq<char>, b: Seq<u8>)
    requires
        base64_decode(id) == Some(b),
        b.len() > 0,
    ensures
        hex_only(id) == Some(hex_encode(b)),
        hex_encode(b).len() == 2 * b.len(),
        forall|i: int| 0 <= i < 2 * b.len() ==> is_lower_hex(#[trigger] hex_encode(b)[i]),
{
}

} // verus!
