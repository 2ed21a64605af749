//! Decoding the big-endian UTF-16 strings of a font's `name` table.
use vstd::prelude::*;

verus! {

/// The replacement character, given for a code unit that does not decode.
pub open spec fn replacement() -> char {
    '\u{FFFD}'
}

/// A code unit that starts a surrogate pair.
pub open spec fn is_high_surrogate(u: u16) -> bool {
    0xD800 <= u <= 0xDBFF
}

/// A code unit that ends a surrogate pair.
pub open spec fn is_low_surrogate(u: u16) -> bool {
    0xDC00 <= u <= 0xDFFF
}

/// The scalar value a surrogate pair encodes.
pub open spec fn pair_scalar(hi: u16, lo: u16) -> int {
    0x10000 + (hi - 0xD800) * 0x400 + (lo - 0xDC00)
}

/// The code units of big-endian bytes: each pair of bytes, high byte first;
/// a trailing odd byte stands for a unit that does not decode.
pub open spec fn units_of(bytes: Seq<u8>) -> Seq<u16> {
    Seq::new(
        ((bytes.len() + 1) / 2) as nat,
        |i: int|
            if 2 * i + 1 < bytes.len() {
                (bytes[2 * i] * 256 + bytes[2 * i + 1]) as u16
            } else {
                0xFFFDu16
            },
    )
}

/// The characters UTF-16 code units decode to: a surrogate pair gives the
/// character it encodes, a surrogate outside a pair gives the replacement
/// character, and any other unit gives the character of that value.
pub open spec fn decode_units(u: Seq<u16>) -> Seq<char>
    decreases u.len(),
{
    if u.len() == 0 {
        Seq::empty()
    } else if u.len() >= 2 && is_high_surrogate(u[0]) && is_low_surrogate(u[1]) {
        seq![pair_scalar(u[0], u[1]) as char] + decode_units(u.subrange(2, u.len() as int))
    } else if is_high_surrogate(u[0]) || is_low_surrogate(u[0]) {
        seq![replacement()] + decode_units(u.drop_first())
    } else {
        seq![u[0] as char] + decode_units(u.drop_first())
    }
}

/// Calls `char::from_u32`, which std documents to give `None` exactly for a
/// value that is not a Unicode scalar value (a surrogate, or above
/// `0x10FFFF`), and the character of that value otherwise.
#[verifier::external_body]
fn char_from_u32(x: u32) -> (r: Option<char>)
    ensures
        r is Some <==> (x < 0xD800 || 0xE000 <= x <= 0x10FFFF),
        (x < 0xD800 || 0xE000 <= x <= 0x10FFFF) ==> r == Some(x as char),
{
    char::from_u32(x)
}

/// Calls `String::push`, which std documents to append the character.
#[verifier::external_body]
fn string_push(s: &mut String, c: char)
    ensures
        final(s)@ == old(s)@.push(c),
{
    s.push(c)
}

/// Decodes big-endian UTF-16 bytes, giving the replacement character for a
/// surrogate outside a pair and for a trailing odd byte.
pub fn decode_utf16(bytes: &[u8]) -> (r: String)
    ensures
        r@ == decode_units(units_of(bytes@)),
{
    let ghost units = units_of(bytes@);
    let n: usize = bytes.len() / 2 + bytes.len() % 2;
    let mut out = String::new();
    let mut k: usize = 0;
    assert(units.subrange(0, n as int) =~= units);
    while k < n
        invariant
            n == units.len(),
            n == bytes.len() / 2 + bytes.len() % 2,
            units == units_of(bytes@),
            k <= n,
            decode_units(units) == out@ + decode_units(units.subrange(k as int, n as int)),
        decreases n - k,
    {
        let rest = Ghost(units.subrange(k as int, n as int));
        let u: u16 = if 2 * k + 1 < bytes.len() {
            bytes[2 * k] as u16 * 256 + bytes[2 * k + 1] as u16
        } else {
            0xFFFD
        };
        assert(u == units[k as int]);
        assert(rest@[0] == u);
        let mut next: u16 = 0;
        let has_next = k + 1 < n;
        if has_next {
            next = if 2 * k + 3 < bytes.len() {
                bytes[2 * k + 2] as u16 * 256 + bytes[2 * k + 3] as u16
            } else {
                0xFFFD
            };
            assert(next == units[k + 1]);
            assert(rest@[1] == next);
        }
        if has_next && 0xD800 <= u && u <= 0xDBFF && 0xDC00 <= next && next <= 0xDFFF {
            let scalar: u32 = 0x10000 + (u as u32 - 0xD800) * 0x400 + (next as u32 - 0xDC00);
            assert(scalar == pair_scalar(u, next));
            let c = match char_from_u32(scalar) {
                Some(c) => c,
                None => '\u{FFFD}',
            };
            assert(c == pair_scalar(u, next) as char);
            string_push(&mut out, c);
            assert(rest@.subrange(2, rest@.len() as int) =~= units.subrange(k + 2, n as int));
            k = k + 2;
        } else if 0xD800 <= u && u <= 0xDFFF {
            string_push(&mut out, '\u{FFFD}');
            assert(rest@.drop_first() =~= units.subrange(k + 1, n as int));
            k = k + 1;
        } else {
            let c = match char_from_u32(u as u32) {
                Some(c) => c,
                None => '\u{FFFD}',
            };
            assert(c == u as char);
            string_push(&mut out, c);
            assert(rest@.drop_first() =~= units.subrange(k + 1, n as int));
            k = k + 1;
        }
    }
    out
}

} // verus!

verus! {

/// A code unit that is not a surrogate decodes to the character of its own
/// value, whatever follows it.
pub proof fn law_decode_plain_unit(u: u16, rest: Seq<u16>)
    requires
        u < 0xD800 || u > 0xDFFF,
    ensures
        decode_units(seq![u] + rest) == seq![u as char] + decode_units(rest),
        decode_units(seq![u]) == seq![u as char],
{
    let s = seq![u] + rest;
    assert(s[0] == u);
    assert(s.drop_first() =~= rest);
    let t = seq![u];
    assert(t.drop_first() =~= Seq::<u16>::empty());
    assert(decode_units(Seq::<u16>::empty()) == Seq::<char>::empty());
    assert(seq![u as char] + Seq::<char>::empty() =~= seq![u as char]);
}

/// A surrogate outside a pair decodes to the replacement character, and
/// decoding goes on with the next unit.
pub proof fn law_decode_lone_surrogate(u: u16, rest: Seq<u16>)
    requires
        is_low_surrogate(u) || (is_high_surrogate(u) && !(rest.len() > 0 && is_low_surrogate(rest[0]))),
    ensures
        decode_units(seq![u] + rest) == seq!['\u{FFFD}'] + decode_units(rest),
{
    let s = seq![u] + rest;
    assert(s[0] == u);
    if s.len() >= 2 {
        assert(s[1] == rest[0]);
    }
    assert(s.drop_first() =~= rest);
}

/// The high surrogate that encodes a character above the basic plane.
pub open spec fn high_unit(c: char) -> u16 {
    (0xD800 + (c as int - 0x10000) / 0x400) as u16
}

/// The low surrogate that encodes a character above the basic plane.
pub open spec fn low_unit(c: char) -> u16 {
    (0xDC00 + (c as int - 0x10000) % 0x400) as u16
}

/// A character above the basic plane, written as its surrogate pair,
/// decodes back to itself, whatever follows.
pub proof fn law_decode_pair(c: char, rest: Seq<u16>)
    requires
        c as int >= 0x10000,
    ensures
        decode_units(seq![high_unit(c), low_unit(c)] + rest) == seq![c] + decode_units(rest),
{
    vstd::utf8::char_is_scalar(c);
    vstd::utf8::char_u32_cast(c, c as u32);
    let v = c as int - 0x10000;
    assert(c as int <= 0x10FFFF);
    assert(0 <= v / 0x400 < 0x400);
    assert(0 <= v % 0x400 < 0x400);
    assert(v / 0x400 * 0x400 + v % 0x400 == v);
    let hi = high_unit(c);
    let lo = low_unit(c);
    assert(is_high_surrogate(hi) && is_low_surrogate(lo));
    assert(pair_scalar(hi, lo) == c as int);
    assert((pair_scalar(hi, lo) as char) == c);
    let s = seq![hi, lo] + rest;
    assert(s[0] == hi && s[1] == lo);
    assert(s.subrange(2, s.len() as int) =~= rest);
}

/// The UTF-16 code units of a character: itself in the basic plane, a
/// surrogate pair above it.
pub open spec fn encode_char(c: char) -> Seq<u16> {
    if (c as int) < 0x10000 {
        seq![(c as int) as u16]
    } else {
        seq![high_unit(c), low_unit(c)]
    }
}

/// The UTF-16 code units of a string.
pub open spec fn encode_chars(cs: Seq<char>) -> Seq<u16>
    decreases cs.len(),
{
    if cs.len() == 0 {
        Seq::empty()
    } else {
        encode_char(cs[0]) + encode_chars(cs.drop_first())
    }
}

/// Decoding gives back any string from its UTF-16 code units.
pub proof fn law_decode_encode(cs: Seq<char>)
    ensures
        decode_units(encode_chars(cs)) == cs,
    decreases cs.len(),
{
    if cs.len() == 0 {
    } else {
        let c = cs[0];
        let rest = encode_chars(cs.drop_first());
        law_decode_encode(cs.drop_first());
        if (c as int) < 0x10000 {
            vstd::utf8::char_is_scalar(c);
            vstd::utf8::char_u32_cast(c, c as u32);
            let u = (c as int) as u16;
            assert(u as int == c as int);
            assert(u < 0xD800 || u > 0xDFFF);
            assert((u as char) == c);
            law_decode_plain_unit(u, rest);
        } else {
            law_decode_pair(c, rest);
        }
        assert(seq![c] + cs.drop_first() =~= cs);
    }
}

/// The big-endian bytes of code units, high byte first.
pub open spec fn be_bytes(us: Seq<u16>) -> Seq<u8> {
    Seq::new(
        2 * us.len(),
        |i: int|
            if i % 2 == 0 {
                (us[i / 2] / 256) as u8
            } else {
                (us[i / 2] % 256) as u8
            },
    )
}

/// The code units read from big-endian bytes are the units written.
pub proof fn law_units_of_be_bytes(us: Seq<u16>)
    ensures
        units_of(be_bytes(us)) == us,
{
    let b = be_bytes(us);
    let u = units_of(b);
    assert(u.len() == us.len());
    assert forall|i: int| 0 <= i < us.len() implies #[trigger] u[i] == us[i] by {
        assert(2 * i + 1 < b.len());
        assert((2 * i) % 2 == 0);
        assert((2 * i + 1) % 2 == 1);
        assert((2 * i) / 2 == i);
        assert((2 * i + 1) / 2 == i);
        assert(b[2 * i] == us[i] / 256);
        assert(b[2 * i + 1] == us[i] % 256);
        assert(us[i] / 256 * 256 + us[i] % 256 == us[i]);
    }
    assert(u =~= us);
}

/// Decoding the big-endian UTF-16 bytes of any string gives that string.
pub proof fn law_decode_utf16_round_trip(cs: Seq<char>)
    ensures
        decode_units(units_of(be_bytes(encode_chars(cs)))) == cs,
{
    law_units_of_be_bytes(encode_chars(cs));
    law_decode_encode(cs);
}

} // verus!
