//! The output mesh: an ordered, append-only sequence of vertices, six for each
//! quad.

use vstd::prelude::*;
use crate::vec3::{Point, Rgb, Vec3};

verus! {

/// The mathematical model of a vertex.
pub struct VertexModel {
    pub pos: Point,
    pub norm: Point,
    pub col: Rgb,
}

/// A vertex of the terrain surface: a position in mesh space, the normal of the
/// face it belongs to, and the colour of its voxel.
#[derive(Clone, Copy, Debug, PartialEq, Eq, Structural)]
pub struct Vertex {
    pub pos: Vec3,
    pub norm: Vec3,
    pub col: Rgb,
}

impl View for Vertex {
    type V = VertexModel;

    open spec fn view(&self) -> VertexModel {
        VertexModel { pos: self.pos@, norm: self.norm@, col: self.col }
    }
}

impl Vertex {
    pub fn new(pos: Vec3, norm: Vec3, col: Rgb) -> (v: Vertex)
        ensures
            v == (Vertex { pos, norm, col }),
    {
        Vertex { pos, norm, col }
    }
}

/// The models of a sequence of vertices, in order.
pub open spec fn vertex_models(verts: Seq<Vertex>) -> Seq<VertexModel> {
    Seq::new(verts.len(), |i: int| verts[i]@)
}

/// The two triangles that a quad with corners `a`, `b`, `c`, `d` is drawn as.
pub open spec fn quad_triangles(
    a: VertexModel,
    b: VertexModel,
    c: VertexModel,
    d: VertexModel,
) -> Seq<VertexModel> {
    seq![a, b, c, c, d, a]
}

/// Four corners in drawing order.
#[derive(Clone, Copy, Debug, PartialEq, Eq, Structural)]
pub struct Quad {
    pub a: Vertex,
    pub b: Vertex,
    pub c: Vertex,
    pub d: Vertex,
}

impl Quad {
    pub fn new(a: Vertex, b: Vertex, c: Vertex, d: Vertex) -> (q: Quad)
        ensures
            q == (Quad { a, b, c, d }),
    {
        Quad { a, b, c, d }
    }
}

impl View for Quad {
    type V = Seq<VertexModel>;

    /// The vertices that the quad adds to a mesh.
    open spec fn view(&self) -> Seq<VertexModel> {
        quad_triangles(self.a@, self.b@, self.c@, self.d@)
    }
}

/// A triangulated surface under construction.
pub struct Mesh {
    verts: Vec<Vertex>,
}

impl View for Mesh {
    type V = Seq<VertexModel>;

    closed spec fn view(&self) -> Seq<VertexModel> {
        vertex_models(self.verts@)
    }
}

impl Mesh {
    /// The empty mesh.
    pub fn new() -> (m: Mesh)
        ensures
            m@ == Seq::<VertexModel>::empty(),
    {
        let m = Mesh { verts: Vec::new() };
        assert(m@ =~= Seq::<VertexModel>::empty());
        m
    }

    /// The vertices in the order in which they were appended.
    pub fn vertices(&self) -> (verts: &Vec<Vertex>)
        ensures
            vertex_models(verts@) == self@,
    {
        &self.verts
    }

    pub fn len(&self) -> (n: usize)
        ensures
            n == self@.len(),
    {
        self.verts.len()
    }

    pub fn is_empty(&self) -> (b: bool)
        ensures
            b == (self@.len() == 0),
    {
        self.verts.len() == 0
    }

    /// Appends the two triangles of `quad`.
    pub fn push_quad(&mut self, quad: Quad)
        ensures
            final(self)@ == old(self)@ + quad@,
    {
        self.verts.push(quad.a);
        self.verts.push(quad.b);
        self.verts.push(quad.c);
        self.verts.push(quad.c);
        self.verts.push(quad.d);
        self.verts.push(quad.a);
        assert(self@ =~= old(self)@ + quad@);
    }
}

} // verus!
