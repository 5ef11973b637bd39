//! A triangle mesh as the render pass consumes it.

use vstd::prelude::*;
use crate::vertex::Vertex;

verus! {

/// A mesh: its corners, and one triple of indices into them per triangle.
#[derive(Debug)]
pub struct Obj {
    pub vertices: Vec<Vertex>,
    pub indices: Vec<u32>,
}

impl Obj {
    /// The index list names whole triangles, and every index names a vertex.
    pub open spec fn well_formed(&self) -> bool {
        &&& self.indices@.len() % 3 == 0
        &&& forall|i: int|
            0 <= i < self.indices@.len() ==> (#[trigger] self.indices@[i] as int)
                < self.vertices@.len()
    }

    /// Whether the mesh is fit to be rendered: what `well_formed` states.
    pub fn is_well_formed(&self) -> (ok: bool)
        ensures
            ok == self.well_formed(),
    {
        if self.indices.len() % 3 != 0 {
            return false;
        }
        let count: usize = self.vertices.len();
        let mut i: usize = 0;
        while i < self.indices.len()
            invariant
                i <= self.indices@.len(),
                count == self.vertices@.len(),
                forall|j: int|
                    0 <= j < i ==> (#[trigger] self.indices@[j] as int) < self.vertices@.len(),
            decreases self.indices@.len() - i,
        {
            if self.indices[i] as usize >= count {
                return false;
            }
            i = i + 1;
        }
        true
    }
}

} // verus!
