//! Absolute value of a single-precision value.
use vstd::prelude::*;

use crate::bits::{exp32, frac32, is_inf32, is_nan32, is_zero32, mag32, neg32, sign32, F32_INFINITY};

verus! {

/// `|x|`: the encoding `x` with its sign bit cleared.
///
/// No value is special-cased: a NaN keeps its payload and loses its sign,
/// `-0.0` becomes `+0.0`, `-inf` becomes `+inf`.
pub fn fabsf(x: u32) -> (r: u32)
    ensures
        r == mag32(x),
        !sign32(r),
        exp32(r) == exp32(x),
        frac32(r) == frac32(x),
{
    assert(x & 0x7fff_ffff == x % 0x8000_0000) by (bit_vector);
    x & 0x7fff_ffff
}

/// `|x| == |-x|` for every encoding, NaNs included.
pub proof fn lemma_fabsf_even(x: u32)
    ensures
        mag32(neg32(x)) == mag32(x),
{
}

/// `|x|` is never negative: its sign bit is clear, `|-0.0|` is `+0.0`, the
/// absolute value of an infinity is `+inf`, and that of a NaN is a NaN with
/// the same payload.
pub proof fn lemma_fabsf_nonnegative(x: u32)
    ensures
        !sign32(mag32(x)),
        is_zero32(x) ==> mag32(x) == 0,
        is_inf32(x) ==> mag32(x) == F32_INFINITY,
        is_nan32(x) ==> is_nan32(mag32(x)) && frac32(mag32(x)) == frac32(x),
{
}

/// Taking the absolute value twice is taking it once.
pub proof fn lemma_fabsf_idempotent(x: u32)
    ensures
        mag32(mag32(x)) == mag32(x),
{
}

} // verus!
