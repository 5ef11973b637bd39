//! One corner of a mesh, before and after the vertex stage.

use vstd::prelude::*;
use crate::fixed::ONE;
use crate::vector::Vector2;
use crate::vector::Vector3;

verus! {

/// A mesh corner. `position`, `normal` and `tex_coords` are the mesh's own
/// data in model space; the other fields are written by the vertex stage.
#[derive(Clone, Copy, Debug, PartialEq, Eq, Structural)]
pub struct Vertex {
    pub position: Vector3,
    pub normal: Vector3,
    pub tex_coords: Vector2,
    /// The surface colour, one fixed-point channel each for red, green, blue.
    pub color: Vector3,
    /// Pixel coordinates in `x` and `y`, depth in `z`.
    pub transformed_position: Vector3,
    pub transformed_normal: Vector3,
}

impl Vertex {
    /// A corner as the mesh gives it: white, and not yet transformed.
    pub fn new(position: Vector3, normal: Vector3, tex_coords: Vector2) -> (v: Vertex)
        ensures
            v == (Vertex {
                position,
                normal,
                tex_coords,
                color: Vector3 { x: ONE, y: ONE, z: ONE },
                transformed_position: position,
                transformed_normal: normal,
            }),
    {
        Vertex {
            position,
            normal,
            tex_coords,
            color: Vector3 { x: ONE, y: ONE, z: ONE },
            transformed_position: position,
            transformed_normal: normal,
        }
    }
}

} // verus!
