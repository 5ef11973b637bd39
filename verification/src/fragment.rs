//! A candidate pixel write produced by rasterising one triangle.

use vstd::prelude::*;
use crate::vector::Vector3;

verus! {

/// One covered pixel: its column and row, and the depth and colour
/// interpolated at the pixel's centre `(x + 1/2, y + 1/2)`.
#[derive(Clone, Copy, Debug, PartialEq, Eq, Structural)]
pub struct Fragment {
    pub x: i32,
    pub y: i32,
    pub color: Vector3,
    pub depth: i32,
}

impl Fragment {
    pub fn new(x: i32, y: i32, color: Vector3, depth: i32) -> (f: Fragment)
        ensures
            f == (Fragment { x, y, color, depth }),
    {
        Fragment { x, y, color, depth }
    }
}

} // verus!
