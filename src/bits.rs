//! Fields and classes of IEEE-754 encodings, read from the raw bits.
use vstd::prelude::*;

use vstd::arithmetic::power2::pow2;

verus! {

/// The sign bit of a single-precision encoding.
pub const F32_SIGN: u32 = 0x8000_0000;

/// The encoding of positive infinity; also the largest magnitude that is not NaN.
pub const F32_INFINITY: u32 = 0x7f80_0000;

/// The most significant fraction bit, set in every quiet NaN.
pub const F32_QUIET: u32 = 0x0040_0000;

/// The NaN returned where no operand supplies one.
pub const F32_DEFAULT_NAN: u32 = 0x7fc0_0000;

/// Whether the sign bit is set.
pub open spec fn sign32(b: u32) -> bool {
    b >= F32_SIGN
}

/// The encoding with the sign bit cleared: the magnitude part of `b`.
pub open spec fn mag32(b: u32) -> u32 {
    (b % 0x8000_0000) as u32
}

/// The biased exponent field.
pub open spec fn exp32(b: u32) -> nat {
    (mag32(b) / 0x80_0000) as nat
}

/// The fraction (trailing significand) field.
pub open spec fn frac32(b: u32) -> nat {
    (b % 0x80_0000) as nat
}

/// All exponent bits set and a fraction that is not zero.
pub open spec fn is_nan32(b: u32) -> bool {
    mag32(b) > F32_INFINITY
}

/// All exponent bits set and a zero fraction.
pub open spec fn is_inf32(b: u32) -> bool {
    mag32(b) == F32_INFINITY
}

/// Positive or negative zero.
pub open spec fn is_zero32(b: u32) -> bool {
    mag32(b) == 0
}

/// Neither NaN nor infinite.
pub open spec fn is_finite32(b: u32) -> bool {
    mag32(b) < F32_INFINITY
}

/// The encoding of the value with the opposite sign (IEEE-754 `negate`).
pub open spec fn neg32(b: u32) -> u32 {
    if sign32(b) {
        (b - F32_SIGN) as u32
    } else {
        (b + F32_SIGN) as u32
    }
}

/// A NaN made quiet: the same sign and payload with the quiet bit set.
pub open spec fn quiet32(b: u32) -> u32 {
    if frac32(b) >= 0x40_0000 {
        b
    } else {
        (b + F32_QUIET) as u32
    }
}

proof fn lemma_mask_sign32(b: u32)
    ensures
        b & 0x7fff_ffff == mag32(b),
        (b & 0x8000_0000 != 0) == sign32(b),
{
    assert(b & 0x7fff_ffff == b % 0x8000_0000) by (bit_vector);
    assert((b & 0x8000_0000 != 0) == (b >= 0x8000_0000)) by (bit_vector);
}

/// Whether `b` encodes a NaN, read from the bits.
pub fn f32_is_nan(b: u32) -> (r: bool)
    ensures
        r == is_nan32(b),
{
    proof {
        lemma_mask_sign32(b);
    }
    b & 0x7fff_ffff > F32_INFINITY
}

/// Whether `b` encodes an infinity of either sign, read from the bits.
pub fn f32_is_infinite(b: u32) -> (r: bool)
    ensures
        r == is_inf32(b),
{
    proof {
        lemma_mask_sign32(b);
    }
    b & 0x7fff_ffff == F32_INFINITY
}

/// Whether `b` encodes a zero of either sign, read from the bits.
pub fn f32_is_zero(b: u32) -> (r: bool)
    ensures
        r == is_zero32(b),
{
    proof {
        lemma_mask_sign32(b);
    }
    b & 0x7fff_ffff == 0
}

/// Whether the sign bit of `b` is set; true of `-0.0` and of negative NaNs.
pub fn f32_is_sign_negative(b: u32) -> (r: bool)
    ensures
        r == sign32(b),
{
    proof {
        lemma_mask_sign32(b);
    }
    b & F32_SIGN != 0
}

/// The quiet form of a NaN: the quiet bit set, sign and payload kept.
pub fn f32_quiet(b: u32) -> (r: u32)
    requires
        is_nan32(b),
    ensures
        r == quiet32(b),
        is_nan32(r),
        sign32(r) == sign32(b),
{
    assert(b | 0x40_0000 == (if b % 0x80_0000 >= 0x40_0000 {
        b
    } else {
        (b + 0x40_0000) as u32
    })) by (bit_vector);
    b | F32_QUIET
}

/// The sign bit of a double-precision encoding.
pub const F64_SIGN: u64 = 0x8000_0000_0000_0000;

/// The fraction field of a double-precision encoding.
pub const F64_FRAC: u64 = 0x000f_ffff_ffff_ffff;

/// Whether the sign bit is set.
pub open spec fn sign64(b: u64) -> bool {
    b >= F64_SIGN
}

/// The biased exponent field.
pub open spec fn exp64(b: u64) -> nat {
    ((b % 0x8000_0000_0000_0000) / 0x10_0000_0000_0000) as nat
}

/// The fraction (trailing significand) field.
pub open spec fn frac64(b: u64) -> nat {
    (b % 0x10_0000_0000_0000) as nat
}

/// Neither NaN nor infinite: the exponent field is not all ones.
pub open spec fn is_finite64(b: u64) -> bool {
    exp64(b) < 0x7ff
}

/// The significand as an integer: the fraction with the leading bit that a
/// normal number carries implicitly.
pub open spec fn significand64(b: u64) -> nat {
    if exp64(b) == 0 {
        frac64(b)
    } else {
        frac64(b) + 0x10_0000_0000_0000
    }
}

/// The power of two by which the significand is scaled, counted from the
/// weight 2^-1074 of the last bit of a subnormal.
pub open spec fn scale64(b: u64) -> nat {
    if exp64(b) == 0 {
        0
    } else {
        (exp64(b) - 1) as nat
    }
}

/// The exact magnitude of a finite encoding in units of 2^-1074, the
/// smallest subnormal: `|value| * 2^1074`, always a whole number.
pub open spec fn scaled_abs64(b: u64) -> nat {
    significand64(b) * pow2(scale64(b))
}

/// The scaled magnitude of 1.0, that is 2^1074.
pub open spec fn scaled_one64() -> nat {
    pow2(1074)
}

/// A finite encoding whose value is a whole number.
pub open spec fn is_integral64(b: u64) -> bool {
    is_finite64(b) && scaled_abs64(b) % scaled_one64() == 0
}

/// The fields of a double-precision encoding as the masks and shifts read them.
pub proof fn lemma_fields64(b: u64)
    ensures
        (b >> 52) & 0x7ff == exp64(b),
        b & F64_FRAC == frac64(b),
        (b & F64_SIGN != 0) == sign64(b),
{
    assert((b >> 52) & 0x7ff == (b % 0x8000_0000_0000_0000) / 0x10_0000_0000_0000)
        by (bit_vector);
    assert(b & 0x000f_ffff_ffff_ffff == b % 0x10_0000_0000_0000) by (bit_vector);
    assert((b & 0x8000_0000_0000_0000 != 0) == (b >= 0x8000_0000_0000_0000)) by (bit_vector);
}

} // verus!
