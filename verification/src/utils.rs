//! Points and comparisons.

pub mod comparison;
pub mod points2;
