//! Elementary floating-point functions computed on IEEE-754 bit patterns.
//!
//! A single-precision value is carried as the `u32` of its encoding and a
//! double-precision value as the `u64` of its encoding. Everything that is
//! decided from the encoding (classification, sign handling, truncation,
//! branch selection, special values, the squaring chain of an integer power)
//! lives here with its contract; the floating-point arithmetic that follows
//! such a decision is left to the caller.

pub mod acoshf;
pub mod bits;
pub mod fabsf;
pub mod fmaf;
pub mod powi;
pub mod trunc;

pub use acoshf::{acoshf_path, AcoshfPath};
pub use bits::{f32_is_infinite, f32_is_nan, f32_is_sign_negative, f32_is_zero, f32_quiet};
pub use fabsf::fabsf;
pub use fmaf::fmaf_special;
pub use powi::{powi_chain, PowStep};
pub use trunc::trunc;
