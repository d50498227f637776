//! An iterated function system (IFS) renderer built on the chaos game:
//! a point is driven through randomly chosen weighted maps, each visited
//! image cell accumulates light energy and color, and the accumulated
//! high-dynamic-range buffer is tone-mapped to an 8-bit image.
//!
//! All coordinates, colors and transform parameters are decimal fixed-point
//! numbers: an `i64` raw value counts millionths, so `1_000_000` stands for
//! one. See [`fixed`] for the arithmetic core.

use vstd::prelude::*;

pub mod animation;
pub mod config;
pub mod fixed;
pub mod ifs;
pub mod image;
pub mod rng;
pub mod template;
pub mod transform;
pub mod util;

verus! {

} // verus!
