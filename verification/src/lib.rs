//! Terrain mesh synthesis and biome-colour classification.
//!
//! The library turns per-vertex scalar fields (radial height, wetness) and an
//! adjacency topology over a sphere-like mesh into a triangle soup with
//! per-vertex colours.  Scalar quantities are carried as fixed-point integers
//! (millionths of a unit), ranks as exact rationals, so every step of the
//! pipeline has an exact mathematical description.

use vstd::prelude::*;

pub mod boundary;
pub mod camera;
pub mod field;
pub mod fixed;
pub mod input;
pub mod jitter;
pub mod mesh;
pub mod palette;
pub mod pipeline;

verus! {

/// Shorthand for `Default::default()`.
pub fn default<T: Default>() -> T {
    Default::default()
}

} // verus!
