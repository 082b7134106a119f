//! Fixed-point elementary functions on exact integer arguments.

pub mod scaling;
pub mod tables;
pub mod arctan;
pub mod logarithm;
pub mod sincos;
