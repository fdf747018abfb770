//! A "pixel flood" canvas engine: a shared framebuffer with alpha-blending
//! writes, a line-oriented text protocol for reading and painting pixels,
//! and the per-connection decision logic that drives both.

pub mod canvas;
pub mod error;
pub mod protocol;
pub mod session;
pub mod text;

use vstd::prelude::*;

verus! {

/// A pixel coordinate: `(x, y)`, column first.
pub type Pos = (usize, usize);

} // verus!
