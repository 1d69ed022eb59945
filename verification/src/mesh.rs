//! The vertex container that meshing fills and the renderer consumes.
//!
//! All coordinates are integers.  Cube corners lie halfway between cell
//! centres, so vertex positions are stored in half-units: a stored component
//! `p` stands for the coordinate `p / 2`.  Normals and texture coordinates
//! are plain unit values and need no scaling.  The rendering side divides
//! positions by two when it builds its floating-point vertex buffer.

use vstd::prelude::*;

verus! {

/// A point or direction on the chunk-local integer lattice.
#[derive(Clone, Copy, Debug, PartialEq, Eq, Structural)]
pub struct Vec3i {
    pub x: i32,
    pub y: i32,
    pub z: i32,
}

/// A two-component integer vector, used for texture corners.
#[derive(Clone, Copy, Debug, PartialEq, Eq, Structural)]
pub struct Vec2i {
    pub x: i32,
    pub y: i32,
}

/// One mesh vertex: position in half-units, outward unit normal, and the
/// texture corner it carries.
#[derive(Clone, Copy, Debug, PartialEq, Eq, Structural)]
pub struct Vertex {
    pub position: Vec3i,
    pub normal: Vec3i,
    pub texcoord: Vec2i,
}

/// An ordered, append-only vertex list: three consecutive vertices form one
/// triangle.  It is only ever grown; once meshing returns it, it is read out
/// whole through `vertex_data`.
pub struct Mesh {
    vertices: Vec<Vertex>,
}

impl View for Mesh {
    type V = Seq<Vertex>;

    closed spec fn view(&self) -> Seq<Vertex> {
        self.vertices@
    }
}

impl Mesh {
    pub fn new() -> (m: Mesh)
        ensures
            m@ == Seq::<Vertex>::empty(),
    {
        Mesh { vertices: Vec::new() }
    }

    pub fn add_vertex(&mut self, v: Vertex)
        ensures
            final(self)@ == old(self)@.push(v),
    {
        self.vertices.push(v);
    }

    pub fn len(&self) -> (n: usize)
        ensures
            n == self@.len(),
    {
        self.vertices.len()
    }

    /// The finished vertex list, in emission order.
    pub fn vertex_data(&self) -> (r: &Vec<Vertex>)
        ensures
            r@ == self@,
    {
        &self.vertices
    }
}

} // verus!
