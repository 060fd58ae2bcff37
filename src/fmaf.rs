//! Special operands of the single-precision fused multiply-add `x * y + z`.
//!
//! The product is formed exactly and rounded once together with the sum, so
//! an operand that is NaN, infinite or zero fixes the result before any
//! arithmetic: such results are decided here from the bits. What is left,
//! three finite operands with a nonzero product, needs the arithmetic.
use vstd::prelude::*;

use crate::bits::{
    f32_is_infinite, f32_is_nan, f32_is_sign_negative, f32_is_zero, f32_quiet, is_finite32,
    is_inf32, is_nan32, is_zero32, quiet32, sign32, F32_DEFAULT_NAN, F32_INFINITY, F32_SIGN,
};

verus! {

/// The sign of the exact product `x * y`.
pub open spec fn product_negative(x: u32, y: u32) -> bool {
    sign32(x) != sign32(y)
}

/// An infinity times a zero: the product is undefined.
pub open spec fn product_invalid(x: u32, y: u32) -> bool {
    (is_inf32(x) && is_zero32(y)) || (is_zero32(x) && is_inf32(y))
}

/// The encoding of an infinity of the given sign.
pub open spec fn signed_inf32(negative: bool) -> u32 {
    if negative {
        (F32_INFINITY + F32_SIGN) as u32
    } else {
        F32_INFINITY
    }
}

/// The encoding of a zero of the given sign.
pub open spec fn signed_zero32(negative: bool) -> u32 {
    if negative {
        F32_SIGN
    } else {
        0
    }
}

/// The result of `x * y + z` when an operand decides it, `None` when the
/// arithmetic must.
///
/// - A NaN operand gives that NaN made quiet, the first one of `x`, `y`, `z`.
/// - An infinity times a zero gives the default NaN.
/// - An infinite product gives the infinity of the product's sign, unless `z`
///   is the opposite infinity, which gives the default NaN.
/// - A finite product and an infinite `z` give `z`.
/// - A zero product and a finite `z` give `z` when `z` is not zero; the sum of
///   two zeros is `-0.0` when both are negative and `+0.0` otherwise.
/// - Three finite operands with a nonzero product give `None`.
pub fn fmaf_special(x: u32, y: u32, z: u32) -> (r: Option<u32>)
    ensures
        is_nan32(x) ==> r == Some(quiet32(x)),
        !is_nan32(x) && is_nan32(y) ==> r == Some(quiet32(y)),
        !is_nan32(x) && !is_nan32(y) && is_nan32(z) ==> r == Some(quiet32(z)),
        !is_nan32(x) && !is_nan32(y) && !is_nan32(z) && product_invalid(x, y) ==> r == Some(
            F32_DEFAULT_NAN,
        ),
        !is_nan32(x) && !is_nan32(y) && !is_nan32(z) && !product_invalid(x, y) && (is_inf32(x)
            || is_inf32(y)) ==> r == Some(
            if is_inf32(z) && sign32(z) != product_negative(x, y) {
                F32_DEFAULT_NAN
            } else {
                signed_inf32(product_negative(x, y))
            },
        ),
        is_finite32(x) && is_finite32(y) && is_inf32(z) ==> r == Some(z),
        is_finite32(x) && is_finite32(y) && is_finite32(z) && (is_zero32(x) || is_zero32(y))
            ==> r == Some(
            if !is_zero32(z) {
                z
            } else {
                signed_zero32(product_negative(x, y) && sign32(z))
            },
        ),
        r is None <==> (is_finite32(x) && is_finite32(y) && is_finite32(z) && !is_zero32(x)
            && !is_zero32(y)),
{
    if f32_is_nan(x) {
        return Some(f32_quiet(x));
    }
    if f32_is_nan(y) {
        return Some(f32_quiet(y));
    }
    if f32_is_nan(z) {
        return Some(f32_quiet(z));
    }
    let x_inf = f32_is_infinite(x);
    let y_inf = f32_is_infinite(y);
    let x_zero = f32_is_zero(x);
    let y_zero = f32_is_zero(y);
    if (x_inf && y_zero) || (x_zero && y_inf) {
        return Some(F32_DEFAULT_NAN);
    }
    let negative = f32_is_sign_negative(x) != f32_is_sign_negative(y);
    if x_inf || y_inf {
        if f32_is_infinite(z) && f32_is_sign_negative(z) != negative {
            return Some(F32_DEFAULT_NAN);
        }
        return Some(if negative {
            F32_INFINITY + F32_SIGN
        } else {
            F32_INFINITY
        });
    }
    if f32_is_infinite(z) {
        return Some(z);
    }
    if x_zero || y_zero {
        if !f32_is_zero(z) {
            return Some(z);
        }
        return Some(if negative && f32_is_sign_negative(z) {
            F32_SIGN
        } else {
            0
        });
    }
    None
}

} // verus!
