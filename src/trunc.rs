//! Truncation of a double-precision value toward zero.
use vstd::prelude::*;

use vstd::arithmetic::div_mod::{
    lemma_basic_div, lemma_div_multiples_vanish_fancy, lemma_fundamental_div_mod,
    lemma_mod_multiples_basic, lemma_mod_multiples_vanish,
};
use vstd::arithmetic::mul::{
    lemma_mul_inequality, lemma_mul_strict_inequality,
    lemma_mul_strictly_positive,
};
use vstd::arithmetic::power2::{
    lemma2_to64, lemma2_to64_rest, lemma_pow2_adds, lemma_pow2_pos, lemma_pow2_strictly_increases, pow2,
};
use vstd::bits::{
    low_bits_mask, lemma_u64_low_bits_mask_is_mod, lemma_u64_pow2_no_overflow,
    lemma_u64_shl_is_mul,
};

use crate::bits::{
    exp64, frac64, is_finite64, is_integral64, lemma_fields64, scale64, scaled_abs64,
    scaled_one64, sign64, significand64, F64_FRAC,
};

verus! {

/// The magnitude rounded down to a whole number, in units of 2^-1074.
pub open spec fn scaled_floor64(b: u64) -> nat {
    scaled_abs64(b) / scaled_one64() * scaled_one64()
}

/// What `trunc(x)` returns: `x` itself when it is NaN, infinite or already
/// whole; otherwise a finite encoding of the same sign whose magnitude is
/// that of `x` rounded down to a whole number.
pub open spec fn is_trunc_of(x: u64, r: u64) -> bool {
    &&& !is_finite64(x) ==> r == x
    &&& is_integral64(x) ==> r == x
    &&& sign64(r) == sign64(x)
    &&& is_finite64(x) ==> is_finite64(r) && scaled_abs64(r) == scaled_floor64(x)
}

/// The result of truncating a finite value is a whole number no larger in
/// magnitude than the value, with the same sign.
pub proof fn lemma_trunc_whole_and_smaller(x: u64, r: u64)
    requires
        is_finite64(x),
        is_trunc_of(x, r),
    ensures
        is_integral64(r),
        scaled_abs64(r) <= scaled_abs64(x),
        sign64(r) == sign64(x),
{
    let one = scaled_one64();
    let q = scaled_abs64(x) / one;
    lemma_pow2_pos(1074);
    lemma_fundamental_div_mod(scaled_abs64(x) as int, one as int);
    lemma_mod_multiples_basic(q as int, one as int);
    assert(q * one <= scaled_abs64(x)) by (nonlinear_arith)
        requires
            scaled_abs64(x) == one * q + scaled_abs64(x) % one,
            scaled_abs64(x) % one >= 0,
    ;
}

/// Truncating twice gives what truncating once gives, for every encoding.
pub proof fn lemma_trunc_idempotent(x: u64, r: u64, r2: u64)
    requires
        is_trunc_of(x, r),
        is_trunc_of(r, r2),
    ensures
        r2 == r,
{
    if is_finite64(x) {
        lemma_trunc_whole_and_smaller(x, r);
    }
}

/// Rounding `s * b` down to a multiple of `a * b` drops the remainder of `s`
/// by `a`, scaled by `b`.
proof fn lemma_floor_scaled(s: nat, a: nat, b: nat)
    requires
        a > 0,
        b > 0,
    ensures
        (s * b) / (a * b) * (a * b) == (s - s % a) * b,
        (s * b) % (a * b) == (s % a) * b,
{
    let q = s / a;
    let rm = s % a;
    lemma_fundamental_div_mod(s as int, a as int);
    assert(s * b == (a * b) * q + rm * b) by (nonlinear_arith)
        requires
            s == a * q + rm,
    ;
    lemma_mul_strict_inequality(rm as int, a as int, b as int);
    lemma_mul_strictly_positive(a as int, b as int);
    lemma_div_multiples_vanish_fancy(q as int, (rm * b) as int, (a * b) as int);
    lemma_fundamental_div_mod((s * b) as int, (a * b) as int);
    assert(q * (a * b) == (s - rm) * b) by (nonlinear_arith)
        requires
            s == a * q + rm,
    ;
}

/// `x` truncated toward zero: every bit of weight below one cleared.
///
/// NaNs and infinities come back unchanged, as does every value that is
/// already a whole number (zeros included). Otherwise the result keeps the
/// sign of `x`, and its magnitude is that of `x` rounded down to a whole
/// number; a magnitude below one gives a zero of the sign of `x`.
pub fn trunc(x: u64) -> (r: u64)
    ensures
        is_trunc_of(x, r),
{
    proof {
        lemma_fields64(x);
        lemma2_to64();
        lemma2_to64_rest();
        lemma_pow2_pos(1074);
    }
    let e: u64 = (x >> 52) & 0x7ff;
    if e >= 0x3ff + 52 {
        // the last significand bit weighs at least one
        proof {
            if e < 0x7ff {
                lemma_trunc_whole(x);
            }
        }
        return x;
    }
    let m: u64 = if e < 0x3ff {
        0x7fff_ffff_ffff_ffff
    } else {
        proof {
            lemma_u64_pow2_no_overflow((0x3ff + 52 - e) as nat);
            lemma_u64_shl_is_mul(1, (0x3ff + 52 - e) as u64);
            assert(1u64 << (0x3ff + 52 - e) == pow2((0x3ff + 52 - e) as nat));
        }
        (1u64 << (0x3ff + 52 - e)) - 1
    };
    let r: u64 = if x & m == 0 {
        x
    } else {
        x & !m
    };
    proof {
        if e < 0x3ff {
            lemma_trunc_below_one(x, r);
        } else {
            lemma_trunc_fraction(x, (0x3ff + 52 - e) as nat, m, r);
        }
    }
    r
}

/// A finite value whose last significand bit weighs at least one is whole.
proof fn lemma_trunc_whole(x: u64)
    requires
        0x3ff + 52 <= exp64(x) < 0x7ff,
    ensures
        is_integral64(x),
        scaled_abs64(x) == scaled_floor64(x),
{
    let s = significand64(x);
    let one = scaled_one64();
    let c = pow2((exp64(x) - 1075) as nat);
    lemma_pow2_pos(1074);
    lemma_pow2_adds(1074, (exp64(x) - 1075) as nat);
    assert(pow2(scale64(x)) == one * c);
    assert(scaled_abs64(x) == (s * c) * one) by (nonlinear_arith)
        requires
            scaled_abs64(x) == s * pow2(scale64(x)),
            pow2(scale64(x)) == one * c,
    ;
    lemma_mod_multiples_basic((s * c) as int, one as int);
    lemma_fundamental_div_mod(scaled_abs64(x) as int, one as int);
    assert(scaled_abs64(x) / one * one == scaled_abs64(x)) by (nonlinear_arith)
        requires
            scaled_abs64(x) == one * (scaled_abs64(x) / one) + scaled_abs64(x) % one,
            scaled_abs64(x) % one == 0,
    ;
}

/// Below one: a zero result keeps the sign, and the magnitude rounds to zero.
proof fn lemma_trunc_below_one(x: u64, r: u64)
    requires
        exp64(x) < 0x3ff,
        r == (if x & 0x7fff_ffff_ffff_ffff == 0 {
            x
        } else {
            x & !0x7fff_ffff_ffff_ffffu64
        }),
    ensures
        is_finite64(r),
        sign64(r) == sign64(x),
        scaled_abs64(r) == scaled_floor64(x),
        is_integral64(x) ==> r == x,
{
    lemma2_to64();
    lemma2_to64_rest();
    lemma_pow2_pos(1074);
    lemma_fields64(x);
    lemma_fields64(r);
    assert(x & 0x7fff_ffff_ffff_ffff == x % 0x8000_0000_0000_0000) by (bit_vector);
    assert((x & !0x7fff_ffff_ffff_ffffu64) % 0x8000_0000_0000_0000 == 0
        && ((x & !0x7fff_ffff_ffff_ffffu64) >= 0x8000_0000_0000_0000) == (x
        >= 0x8000_0000_0000_0000)) by (bit_vector);
    // the scaled magnitude is below 2^53 * 2^1021 = 2^1074
    let s = significand64(x);
    let p = pow2(scale64(x));
    if scale64(x) < 1021 {
        lemma_pow2_strictly_increases(scale64(x), 1021);
    }
    lemma_pow2_pos(scale64(x));
    lemma_pow2_adds(53, 1021);
    assert(s < pow2(53));
    assert(p <= pow2(1021));
    lemma_mul_strict_inequality(s as int, pow2(53) as int, p as int);
    lemma_mul_inequality(p as int, pow2(1021) as int, pow2(53) as int);
    assert(s * p < pow2(53) * pow2(1021));
    assert(scaled_abs64(x) < scaled_one64());
    lemma_basic_div(scaled_abs64(x) as int, scaled_one64() as int);
    assert((x % 0x8000_0000_0000_0000 != 0) ==> ((x % 0x8000_0000_0000_0000)
        / 0x10_0000_0000_0000 != 0 || x % 0x10_0000_0000_0000 != 0)) by (bit_vector);
    assert((x & !0x7fff_ffff_ffff_ffffu64) % 0x10_0000_0000_0000 == 0) by (bit_vector);
    assert(pow2(0) == 1);
    assert(scaled_floor64(x) == 0) by (nonlinear_arith)
        requires
            scaled_floor64(x) == scaled_abs64(x) / scaled_one64() * scaled_one64(),
            scaled_abs64(x) / scaled_one64() == 0,
    ;
    if x & 0x7fff_ffff_ffff_ffff != 0 {
        // a nonzero magnitude below one is not a whole number
        assert(r == x & !0x7fff_ffff_ffff_ffffu64);
        assert(exp64(r) == 0 && frac64(r) == 0);
        assert(scaled_abs64(r) == 0 * pow2(0));
        if exp64(x) > 0 {
            lemma_mul_strictly_positive(s as int, p as int);
        } else {
            assert(p == 1);
            assert(s > 0);
            assert(s * p == s) by (nonlinear_arith)
                requires
                    p == 1,
            ;
        }
        assert(scaled_abs64(x) > 0);
        vstd::arithmetic::div_mod::lemma_small_mod(scaled_abs64(x), scaled_one64());
        assert(!is_integral64(x));
    } else {
        assert(s == 0);
        assert(scaled_abs64(x) == 0);
    }
}

/// From one up to 2^52: the bits of weight below one are those under `m`.
proof fn lemma_trunc_fraction(x: u64, k: nat, m: u64, r: u64)
    requires
        0x3ff <= exp64(x) < 0x3ff + 52,
        k == 0x3ff + 52 - exp64(x),
        m + 1 == pow2(k),
        r == (if x & m == 0 {
            x
        } else {
            x & !m
        }),
    ensures
        is_finite64(r),
        sign64(r) == sign64(x),
        scaled_abs64(r) == scaled_floor64(x),
        is_integral64(x) ==> r == x,
{
    let a = pow2(k);
    let b = pow2(scale64(x));
    lemma2_to64();
    lemma2_to64_rest();
    lemma_pow2_pos(k);
    lemma_pow2_pos(scale64(x));
    lemma_fields64(x);
    lemma_fields64(r);
    if k < 52 {
        lemma_pow2_strictly_increases(k, 52);
    }
    assert(a <= 0x10_0000_0000_0000);
    assert(m < 0x10_0000_0000_0000);
    let f: u64 = x & F64_FRAC;
    assert(((x & !m) >> 52) & 0x7ff == (x >> 52) & 0x7ff
        && ((x & !m) & 0x8000_0000_0000_0000) == (x & 0x8000_0000_0000_0000)
        && (x & !m) & 0x000f_ffff_ffff_ffff == f - (f & m)
        && x & m == f & m) by (bit_vector)
        requires
            m < 0x10_0000_0000_0000,
            f == x & 0x000f_ffff_ffff_ffff,
    ;
    lemma_u64_low_bits_mask_is_mod(f, k);
    assert(low_bits_mask(k) == m);
    // the leading bit 2^52 is a multiple of 2^k
    lemma_pow2_adds(k, (52 - k) as nat);
    lemma_mod_multiples_vanish(pow2((52 - k) as nat) as int, f as int, a as int);
    assert(significand64(x) % a == (f as nat) % a);
    // 2^1074 = 2^k * 2^scale
    lemma_pow2_adds(k, scale64(x));
    lemma_floor_scaled(significand64(x), a, b);
    if x & m == 0 {
        assert(significand64(x) - significand64(x) % a == significand64(x));
    } else {
        assert(significand64(r) == significand64(x) - significand64(x) % a);
        assert(scaled_abs64(x) % scaled_one64() != 0) by {
            lemma_mul_strictly_positive((significand64(x) % a) as int, b as int);
        }
    }
}

} // verus!
