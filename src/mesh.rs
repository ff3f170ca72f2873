use vstd::prelude::*;

use crate::coords::{IVec3, UVec3};

verus! {

/// One mesh vertex. Positions, normals and texture coordinates of this mesher all lie
/// on the integer grid, so they are held as integers; a renderer converts them to its
/// own vertex layout (position, color, normal, uv).
#[derive(Copy, Clone, PartialEq, Eq, Structural, Debug)]
pub struct Vertex {
    pub position: IVec3,
    pub color: UVec3,
    pub normal: IVec3,
    pub uv: TexCoord,
}

/// A texture coordinate; this mesher only uses the corners 0 and 1.
#[derive(Copy, Clone, PartialEq, Eq, Structural, Debug)]
pub struct TexCoord {
    pub u: u32,
    pub v: u32,
}

/// Triangle geometry: a vertex list and a list of indices into it, three per triangle.
pub struct Mesh {
    pub vertices: Vec<Vertex>,
    pub indices: Vec<u32>,
}

impl Mesh {
    pub fn new() -> (r: Mesh)
        ensures
            r.vertices@.len() == 0,
            r.indices@.len() == 0,
    {
        Mesh { vertices: Vec::new(), indices: Vec::new() }
    }

    /// Every index refers to a vertex of the mesh.
    pub open spec fn indices_in_bounds(&self) -> bool {
        forall|j: int| 0 <= j < self.indices@.len() ==> self.indices@[j] < self.vertices@.len()
    }
}

} // verus!
