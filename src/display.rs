//! Pixel positions and their offsets from the canvas center.
//!
//! A pixel is `(column, row)` with the origin at the top-left corner and rows
//! growing downward. An offset is measured in whole pixels from the center
//! `(width / 2, height / 2)`, with the vertical axis growing upward, as world
//! coordinates do. World coordinates are an offset times the per-axis
//! resolution; that scaling is left to the caller.
use vstd::prelude::*;

verus! {

/// The center pixel of a canvas of `dims = (width, height)`.
pub open spec fn center(dims: (u32, u32)) -> (u32, u32) {
    ((dims.0 / 2) as u32, (dims.1 / 2) as u32)
}

/// Whether `p` lies on a canvas of `dims = (width, height)`.
pub open spec fn in_canvas(p: (u32, u32), dims: (u32, u32)) -> bool {
    p.0 < dims.0 && p.1 < dims.1
}

/// Offset of pixel `p` from the center, vertical axis pointing up.
pub open spec fn offset_of(p: (u32, u32), dims: (u32, u32)) -> (int, int) {
    (p.0 - dims.0 / 2, dims.1 / 2 - p.1)
}

/// The pixel at offset `o` from the center, or the center itself when that
/// pixel would fall off the canvas.
pub open spec fn pixel_of(o: (int, int), dims: (u32, u32)) -> (u32, u32) {
    let i = o.0 + dims.0 / 2;
    let j = dims.1 / 2 - o.1;
    if 0 <= i < dims.0 && 0 <= j < dims.1 {
        (i as u32, j as u32)
    } else {
        center(dims)
    }
}

/// Offset of pixel `p` from the center of a canvas of `dims`.
pub fn display_to_offset(p: (u32, u32), dims: (u32, u32)) -> (r: (i64, i64))
    ensures
        (r.0 as int, r.1 as int) == offset_of(p, dims),
{
    let cx: i64 = (dims.0 / 2) as i64;
    let cy: i64 = (dims.1 / 2) as i64;
    (p.0 as i64 - cx, cy - p.1 as i64)
}

/// The pixel at offset `o` from the center of a canvas of `dims`; an offset
/// that leads off the canvas gives the center pixel instead.
pub fn offset_to_display(o: (i64, i64), dims: (u32, u32)) -> (r: (u32, u32))
    ensures
        r == pixel_of((o.0 as int, o.1 as int), dims),
        in_canvas(r, dims) || dims.0 == 0 || dims.1 == 0,
{
    let i: i128 = o.0 as i128 + (dims.0 / 2) as i128;
    let j: i128 = (dims.1 / 2) as i128 - o.1 as i128;
    if 0 <= i && i < dims.0 as i128 && 0 <= j && j < dims.1 as i128 {
        (i as u32, j as u32)
    } else {
        (dims.0 / 2, dims.1 / 2)
    }
}

/// Going from a pixel on the canvas to its offset and back gives the same
/// pixel.
pub proof fn lemma_display_round_trip(p: (u32, u32), dims: (u32, u32))
    requires
        in_canvas(p, dims),
    ensures
        pixel_of(offset_of(p, dims), dims) == p,
{
}

} // verus!
