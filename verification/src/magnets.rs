//! Magnetic sources and their fields.

pub mod magnet2d;
