//! Triangle meshes as the `.obj` reader builds them.
use vstd::prelude::*;

verus! {

/// A triangle, given by the indices of its three vertices.
#[derive(Debug, Clone, Copy, Default, PartialEq, Eq)]
pub struct Face {
    pub indices: [usize; 3],
}

/// A vertex of a built mesh: what the file gave for it (`P`: position and
/// color), and the texture coordinate and normal that its faces gave it.
#[derive(Debug, Clone, Copy, PartialEq)]
pub struct Vertex<P, U, N> {
    pub data: P,
    pub uv: Option<U>,
    pub normal: Option<N>,
}

/// A named group of triangles.
#[derive(Debug, Clone, PartialEq)]
pub struct Submesh {
    pub name: Option<String>,
    pub faces: Vec<Face>,
}

/// A mesh: its name, its vertices, and its groups of triangles.
#[derive(Debug, Clone, PartialEq)]
pub struct Mesh<P, U, N> {
    pub name: Option<String>,
    pub vertices: Vec<Vertex<P, U, N>>,
    pub submeshes: Vec<Submesh>,
}

} // verus!
