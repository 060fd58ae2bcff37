use core::f32::{INFINITY, MAX, MIN_POSITIVE, NAN, NEG_INFINITY};

use libm::fmaf_special;

const F32_MIN_SUBNORM: f32 = 1.401298464324817070923730e-45;

fn special(x: f32, y: f32, z: f32) -> Option<f32> {
    fmaf_special(x.to_bits(), y.to_bits(), z.to_bits()).map(f32::from_bits)
}

fn special_is_nan(x: f32, y: f32, z: f32) -> bool {
    match special(x, y, z) {
        Some(r) => r.is_nan(),
        None => false,
    }
}

#[test]
pub fn test_const() {
    assert!(special_is_nan(NAN, 2.0, 3.0));
    assert!(special_is_nan(-NAN, 2.0, 3.0));
    assert!(special_is_nan(NAN, 2.0, 3.0));
    assert!(special_is_nan(-NAN, 2.0, 3.0));
    assert!(special_is_nan(1.0, NAN, 3.0));
    assert!(special_is_nan(1.0, -NAN, 3.0));
    assert!(special_is_nan(1.0, NAN, 3.0));
    assert!(special_is_nan(1.0, -NAN, 3.0));
    assert!(special_is_nan(1.0, 2.0, NAN));
    assert!(special_is_nan(1.0, 2.0, -NAN));
    assert!(special_is_nan(1.0, 2.0, NAN));
    assert!(special_is_nan(1.0, 2.0, -NAN));
    assert!(special_is_nan(MAX, MAX, NAN));
    assert!(special_is_nan(MAX, MAX, -NAN));
    assert!(special_is_nan(F32_MIN_SUBNORM, F32_MIN_SUBNORM, NAN));
    assert!(special_is_nan(F32_MIN_SUBNORM, F32_MIN_SUBNORM, -NAN));
    assert!(special_is_nan(MIN_POSITIVE, MIN_POSITIVE, NAN));
    assert!(special_is_nan(MIN_POSITIVE, MIN_POSITIVE, -NAN));
    assert!(special_is_nan(NAN, NAN, NAN));
    assert!(special_is_nan(NAN, NAN, -NAN));
    assert!(special_is_nan(NAN, -NAN, NAN));
    assert!(special_is_nan(NAN, -NAN, -NAN));
    assert!(special_is_nan(-NAN, NAN, NAN));
    assert!(special_is_nan(-NAN, NAN, -NAN));
    assert!(special_is_nan(-NAN, -NAN, NAN));
    assert!(special_is_nan(-NAN, -NAN, -NAN));
    assert!(special_is_nan(1.0, NAN, NAN));
    assert!(special_is_nan(1.0, NAN, -NAN));
    assert!(special_is_nan(1.0, -NAN, NAN));
    assert!(special_is_nan(1.0, -NAN, -NAN));
    assert!(special_is_nan(NAN, 2.0, NAN));
    assert!(special_is_nan(NAN, 2.0, -NAN));
    assert!(special_is_nan(-NAN, 2.0, NAN));
    assert!(special_is_nan(-NAN, 2.0, -NAN));
    assert!(special_is_nan(NAN, NAN, 3.0));
    assert!(special_is_nan(NAN, -NAN, 3.0));
    assert!(special_is_nan(-NAN, NAN, 3.0));
    assert!(special_is_nan(-NAN, -NAN, 3.0));
    assert!(special_is_nan(INFINITY, 0.0, NAN));
    assert!(special_is_nan(INFINITY, 0.0, -NAN));
    assert!(special_is_nan(NEG_INFINITY, 0.0, NAN));
    assert!(special_is_nan(NEG_INFINITY, 0.0, -NAN));
    assert!(special_is_nan(0.0, INFINITY, NAN));
    assert!(special_is_nan(0.0, INFINITY, -NAN));
    assert!(special_is_nan(0.0, NEG_INFINITY, NAN));
    assert!(special_is_nan(0.0, NEG_INFINITY, -NAN));
    assert!(special_is_nan(INFINITY, 0.0, 1.0));
    assert!(special_is_nan(NEG_INFINITY, 0.0, 1.0));
    assert!(special_is_nan(0.0, INFINITY, 1.0));
    assert!(special_is_nan(0.0, NEG_INFINITY, 1.0));
    assert!(special_is_nan(INFINITY, INFINITY, NEG_INFINITY));
    assert!(special_is_nan(NEG_INFINITY, INFINITY, INFINITY));
    assert!(special_is_nan(INFINITY, NEG_INFINITY, INFINITY));
    assert!(special_is_nan(NEG_INFINITY, NEG_INFINITY, NEG_INFINITY));
    assert!(special_is_nan(INFINITY, 3.5, NEG_INFINITY));
    assert!(special_is_nan(NEG_INFINITY, -7.5, NEG_INFINITY));
    assert!(special_is_nan(-13.5, INFINITY, INFINITY));
    assert!(special_is_nan(NEG_INFINITY, 7.5, INFINITY));
}

#[test]
fn fmaf_nan_operand_order() {
    let nx = 0x7fc0_0011u32;
    let ny = 0xff80_0022u32;
    let nz = 0x7f80_0033u32;
    let one = 1.0f32.to_bits();
    assert_eq!(fmaf_special(nx, ny, nz), Some(0x7fc0_0011));
    assert_eq!(fmaf_special(one, ny, nz), Some(0xffc0_0022));
    assert_eq!(fmaf_special(one, one, nz), Some(0x7fc0_0033));
}

#[test]
fn fmaf_infinity_times_zero() {
    assert_eq!(fmaf_special(INFINITY.to_bits(), 0u32, 0u32), Some(0x7fc0_0000));
    assert_eq!(fmaf_special(0x8000_0000u32, NEG_INFINITY.to_bits(), 5.0f32.to_bits()), Some(0x7fc0_0000));
}

#[test]
fn fmaf_infinite_product() {
    assert_eq!(special(INFINITY, 4.0, INFINITY), Some(INFINITY));
    assert_eq!(special(2.0, NEG_INFINITY, NEG_INFINITY), Some(NEG_INFINITY));
    assert_eq!(special(INFINITY, INFINITY, 0.0), Some(INFINITY));
    assert_eq!(special(INFINITY, NEG_INFINITY, MAX), Some(NEG_INFINITY));
    assert_eq!(special(NEG_INFINITY, NEG_INFINITY, -MAX), Some(INFINITY));
    assert_eq!(special(INFINITY, -F32_MIN_SUBNORM, -0.0), Some(NEG_INFINITY));
}

#[test]
fn fmaf_finite_product_infinite_addend() {
    assert_eq!(special(-MAX, -MAX, NEG_INFINITY), Some(NEG_INFINITY));
    assert_eq!(special(-MAX, MAX, INFINITY), Some(INFINITY));
    assert_eq!(special(MAX / 2.0, -MAX / 4.0, INFINITY), Some(INFINITY));
}

#[test]
fn fmaf_zero_product() {
    assert_eq!(special(0.0, 5.0, 3.0), Some(3.0));
    assert_eq!(special(-7.0, 0.0, -MIN_POSITIVE), Some(-MIN_POSITIVE));
    let neg_zero = (-0.0f32).to_bits();
    assert_eq!(fmaf_special(neg_zero, 2.0f32.to_bits(), neg_zero), Some(neg_zero));
    assert_eq!(fmaf_special(neg_zero, (-2.0f32).to_bits(), neg_zero), Some(0));
    assert_eq!(fmaf_special(neg_zero, 2.0f32.to_bits(), 0), Some(0));
}

#[test]
fn fmaf_left_to_arithmetic() {
    assert_eq!(fmaf_special(1.0f32.to_bits(), 2.0f32.to_bits(), 3.0f32.to_bits()), None);
    assert_eq!(special(MAX, MAX, -MAX), None);
    assert_eq!(special(F32_MIN_SUBNORM, -F32_MIN_SUBNORM, 0.0), None);
}
