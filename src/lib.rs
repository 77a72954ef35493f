//! The integer core of a Monte Carlo path tracer: the per-worker
//! pseudorandom stream, the pixel raster and its output buffer layout, and
//! the bounce budget that ends every light path.

use vstd::prelude::*;

pub mod grid;
pub mod random;
pub mod trace;

verus! {

} // verus!
