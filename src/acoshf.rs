//! Branch selection for the inverse hyperbolic cosine in single precision.
//!
//! `acosh(x) = log(x + sqrt(x * x - 1))` for `x >= 1`. The formula that keeps
//! the most precision without overflow depends on the size of `x`, and the
//! size is read from the exponent field, never by comparing floats.
use vstd::prelude::*;

use crate::bits::{
    exp32, f32_is_nan, f32_quiet, is_nan32, quiet32, sign32, F32_DEFAULT_NAN, F32_SIGN,
};

verus! {

/// The encoding of 1.0.
pub const F32_ONE: u32 = 0x3f80_0000;

/// The encoding of 2.0.
pub const F32_TWO: u32 = 0x4000_0000;

/// The encoding of 2^12, from which `sqrt(x * x - 1)` is `x` to working precision.
pub const F32_TWO_POW_12: u32 = 0x4580_0000;

/// How `acosh(x)` is obtained for a single-precision argument.
#[derive(Clone, Copy, Debug, PartialEq, Eq)]
pub enum AcoshfPath {
    /// Outside the domain: the result is this NaN.
    Invalid(u32),
    /// `1 <= x < 2`: `log1p(t + sqrt(t * t + 2 * t))` with `t = x - 1`, which
    /// avoids the cancellation of `x * x - 1` near one (up to 2 ulp of error
    /// in `[1, 1.125]`).
    NearOne,
    /// `2 <= x < 2^12`: `log(2 * x - 1 / (x + sqrt(x * x - 1)))`.
    Moderate,
    /// `x >= 2^12`, `+inf` included: `log(x) + log(2)`.
    Large,
}

/// The value is below one: negative, either zero, or of magnitude below one.
pub open spec fn below_one32(b: u32) -> bool {
    sign32(b) || exp32(b) < 127
}

/// Picks the formula for `acosh(x)` from the bits of `x`.
///
/// A NaN argument gives itself, made quiet; any other argument below one
/// (`-inf`, `-0.0` and `+0.0` included) gives the default NaN. Arguments from
/// one upward are split at 2 and at 2^12 by their exponent field.
pub fn acoshf_path(x: u32) -> (p: AcoshfPath)
    ensures
        is_nan32(x) ==> p == AcoshfPath::Invalid(quiet32(x)),
        !is_nan32(x) && below_one32(x) ==> p == AcoshfPath::Invalid(F32_DEFAULT_NAN),
        (is_nan32(x) || below_one32(x)) <==> p is Invalid,
        p is Invalid ==> is_nan32(p->Invalid_0),
        !sign32(x) && exp32(x) == 127 ==> p == AcoshfPath::NearOne,
        !sign32(x) && 128 <= exp32(x) < 139 ==> p == AcoshfPath::Moderate,
        !sign32(x) && 139 <= exp32(x) && !is_nan32(x) ==> p == AcoshfPath::Large,
{
    if f32_is_nan(x) {
        return AcoshfPath::Invalid(f32_quiet(x));
    }
    if x >= F32_SIGN || x < F32_ONE {
        return AcoshfPath::Invalid(F32_DEFAULT_NAN);
    }
    if x < F32_TWO {
        AcoshfPath::NearOne
    } else if x < F32_TWO_POW_12 {
        AcoshfPath::Moderate
    } else {
        AcoshfPath::Large
    }
}

} // verus!
