//! A small recursive ray tracer whose kernel is verified end to end.
//!
//! Geometry and color are carried in signed 64-bit fixed-point scalars
//! (one unit = 1/65536), so every arithmetic step has an exact
//! mathematical meaning that the contracts state and the proofs use.
//! The camera mapping and the image file encoding are thin collaborators
//! that live outside this crate.

pub mod fx;
pub mod math;
pub mod effects;
pub mod shapes;
pub mod rendering;
