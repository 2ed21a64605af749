//! Lane operations of the rasterizer on IEEE 754 single-precision values,
//! carried as their bit patterns (`f32::to_bits`) so that they are exact.
use vstd::prelude::*;

verus! {

/// The biased exponent field of a single-precision bit pattern.
pub open spec fn exponent_field(x: u32) -> u32 {
    (x >> 23u32) & 0xffu32
}

/// The sign bit of a single-precision bit pattern, in place.
pub open spec fn sign_bit(x: u32) -> u32 {
    x & 0x8000_0000u32
}

/// The number of mantissa bits that lie below the binary point of a value
/// with biased exponent `e`, for `127 <= e < 150`.
pub open spec fn fraction_width(e: u32) -> u32 {
    (150 - e) as u32
}

/// The low `k` bits set.
pub open spec fn fraction_mask(k: u32) -> u32 {
    ((1u32 << k) - 1u32) as u32
}

/// The bit pattern of `x` rounded toward zero to an integral value:
/// a magnitude below one becomes a zero of the same sign, a value that is
/// already integral (or infinite, or not a number) is kept, and otherwise
/// the mantissa bits below the binary point are cleared.
pub open spec fn truncated(x: u32) -> u32 {
    let e = exponent_field(x);
    if e < 127 {
        sign_bit(x)
    } else if e >= 150 {
        x
    } else {
        x & !fraction_mask(fraction_width(e))
    }
}

/// Subtracts the bit patterns of `other` from those of `s`, lane by lane, as
/// unsigned integers: this steps a value down by as many representable
/// values as `other` holds.
pub fn sub_integer(s: [u32; 4], other: [u32; 4]) -> (r: [u32; 4])
    requires
        forall|i: int| 0 <= i < 4 ==> other[i] <= #[trigger] s[i],
    ensures
        forall|i: int| 0 <= i < 4 ==> #[trigger] r[i] == s[i] - other[i],
{
    let r = [s[0] - other[0], s[1] - other[1], s[2] - other[2], s[3] - other[3]];
    assert(forall|i: int| 0 <= i < 4 ==> #[trigger] r[i] == s[i] - other[i]) by {
        assert(r[0] == s[0] - other[0]);
        assert(r[1] == s[1] - other[1]);
        assert(r[2] == s[2] - other[2]);
        assert(r[3] == s[3] - other[3]);
    }
    r
}

/// Rounds one value toward zero to an integral value.
pub fn trunc_bits(x: u32) -> (r: u32)
    ensures
        r == truncated(x),
        exponent_field(x) < 127 ==> r == sign_bit(x),
        exponent_field(x) >= 150 ==> r == x,
        127 <= exponent_field(x) < 150 ==> {
            &&& r >> fraction_width(exponent_field(x)) == x >> fraction_width(exponent_field(x))
            &&& r % (1u32 << fraction_width(exponent_field(x))) == 0
        },
{
    let e = (x >> 23u32) & 0xffu32;
    if e < 127 {
        x & 0x8000_0000u32
    } else if e >= 150 {
        x
    } else {
        let k: u32 = 150 - e;
        assert(1u32 << k >= 1) by (bit_vector)
            requires
                1 <= k <= 23,
        ;
        let mask: u32 = (1u32 << k) - 1u32;
        let r = x & !mask;
        assert(r >> k == x >> k && r % (1u32 << k) == 0 && mask == fraction_mask(k)) by (bit_vector)
            requires
                1 <= k <= 23,
                mask == (1u32 << k) - 1u32,
                r == x & !mask,
        ;
        r
    }
}

/// Rounds each of four values toward zero to an integral value.
pub fn trunc_simd(s: [u32; 4]) -> (r: [u32; 4])
    ensures
        forall|i: int| 0 <= i < 4 ==> #[trigger] r[i] == truncated(s[i]),
{
    let r = [trunc_bits(s[0]), trunc_bits(s[1]), trunc_bits(s[2]), trunc_bits(s[3])];
    assert(forall|i: int| 0 <= i < 4 ==> #[trigger] r[i] == truncated(s[i])) by {
        assert(r[0] == truncated(s[0]));
        assert(r[1] == truncated(s[1]));
        assert(r[2] == truncated(s[2]));
        assert(r[3] == truncated(s[3]));
    }
    r
}

/// Rounding toward zero is idempotent: a truncated value truncates to itself.
pub proof fn law_trunc_idempotent(x: u32)
    ensures
        truncated(truncated(x)) == truncated(x),
{
    let e = exponent_field(x);
    if e < 127 {
        assert(truncated(sign_bit(x)) == sign_bit(x)) by (bit_vector);
    } else if e >= 150 {
    } else {
        let k = fraction_width(e);
        let t = x & !fraction_mask(k);
        assert(exponent_field(t) == e && t & !fraction_mask(k) == t) by (bit_vector)
            requires
                e == (x >> 23u32) & 0xffu32,
                127 <= e < 150,
                k == 150 - e,
                t == x & !fraction_mask(k),
        ;
    }
}

/// The significand of a normal value with its leading one: the value's
/// magnitude is this integer times two to the power `exponent_field - 150`.
pub open spec fn significand(x: u32) -> u32 {
    (x & 0x7f_ffffu32) | 0x80_0000u32
}

/// Rounding toward zero keeps the integer part: for a value of magnitude at
/// least one with a fractional part in its representation, the truncated
/// value has the same exponent and its significand is the input's with the
/// bits below the binary point dropped.
pub proof fn law_trunc_keeps_integer_part(x: u32)
    requires
        127 <= exponent_field(x) < 150,
    ensures
        significand(truncated(x)) == significand(x) / (1u32 << fraction_width(exponent_field(x)))
            * (1u32 << fraction_width(exponent_field(x))),
{
    let e = exponent_field(x);
    let k = fraction_width(e);
    let t = x & !fraction_mask(k);
    assert(significand(t) == significand(x) / (1u32 << k) * (1u32 << k)) by (bit_vector)
        requires
            1 <= k <= 23,
            t == x & !fraction_mask(k),
    ;
}

/// Rounding toward zero keeps the sign and never changes the exponent of a
/// value of magnitude at least one.
pub proof fn law_trunc_keeps_sign(x: u32)
    ensures
        sign_bit(truncated(x)) == sign_bit(x),
        exponent_field(x) >= 127 ==> exponent_field(truncated(x)) == exponent_field(x),
{
    let e = exponent_field(x);
    if e < 127 {
        assert(sign_bit(sign_bit(x)) == sign_bit(x)) by (bit_vector);
    } else if e >= 150 {
    } else {
        let k = fraction_width(e);
        let t = x & !fraction_mask(k);
        assert(sign_bit(t) == sign_bit(x) && exponent_field(t) == e) by (bit_vector)
            requires
                e == (x >> 23u32) & 0xffu32,
                127 <= e < 150,
                k == 150 - e,
                t == x & !fraction_mask(k),
        ;
    }
}

} // verus!
