//! Closed-form magnetic fields of uniformly magnetised rectangles in two
//! dimensions, computed in signed fixed-point arithmetic.
//!
//! Every quantity is a [`fixed::Fixed`]: an integer count of units of
//! `2^-48`. The field kernels are built from an arctangent and a natural
//! logarithm that work on exact integer arguments, so the symmetries of the
//! formulas hold to the last bit and the only singular points are the four
//! corners of the magnet.
//!
//! - [`fixed`] and [`utils`] hold the numbers, the points and their
//!   comparison;
//! - [`rounding`] holds the division that every rounded value goes through;
//! - [`math`] holds the arctangent, the logarithm, and the cosine and sine;
//! - [`magnets`] holds the magnet, the four kernels, the evaluation of the
//!   field, and what holds of the field everywhere.

pub mod fixed;
pub mod rounding;
pub mod utils;
pub mod math;
pub mod magnets;

use vstd::prelude::*;

verus! {

/// The share of the remanence that a component of a magnetisation must
/// exceed to count as present: the number of units of `2^-48` nearest to
/// one millionth.
pub const FP_CUTOFF: i64 = 281_474_977;

/// The tolerance of comparisons for equality: the number of units of `2^-48`
/// nearest to `10^-12`.
pub const ERR_CUTOFF: i64 = 281;

} // verus!
