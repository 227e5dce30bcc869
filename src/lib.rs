//! Integer and raster core of a stepped travelling-wave animation: the
//! bisection that inverts the wave's phase function on a dyadic grid, the
//! mapping between pixel positions and offsets from the canvas center, and
//! the painting of one frame into an RGB image.
use vstd::prelude::*;

pub mod bisection;
pub mod canvas;
pub mod display;

verus! {

} // verus!
