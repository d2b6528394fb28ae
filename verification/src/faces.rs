//! Face emission: the visible sides of one solid voxel, as quads.

use vstd::prelude::*;
use crate::block::Block;
use crate::mesh::{quad_triangles, Mesh, Quad, Vertex, VertexModel};
use crate::vec3::{Point, Rgb, Vec3};
use crate::vol::{voxel_at, ReadVol};

verus! {

/// The six sides of a voxel, in the order in which their quads are emitted.
#[derive(Clone, Copy, Debug, PartialEq, Eq, Structural)]
pub enum Face {
    NegX,
    PosX,
    NegY,
    PosY,
    NegZ,
    PosZ,
}

impl Face {
    /// The unit vector that points out of the face; the neighbour that can hide
    /// the face lies one step along it.
    pub open spec fn normal(self) -> Point {
        match self {
            Face::NegX => Point { x: -1, y: 0, z: 0 },
            Face::PosX => Point { x: 1, y: 0, z: 0 },
            Face::NegY => Point { x: 0, y: -1, z: 0 },
            Face::PosY => Point { x: 0, y: 1, z: 0 },
            Face::NegZ => Point { x: 0, y: 0, z: -1 },
            Face::PosZ => Point { x: 0, y: 0, z: 1 },
        }
    }

    /// The first corner of the face, relative to the voxel's low corner.
    pub open spec fn corner(self) -> Point {
        match self {
            Face::PosX => Point { x: 1, y: 0, z: 0 },
            Face::PosY => Point { x: 0, y: 1, z: 0 },
            Face::PosZ => Point { x: 0, y: 0, z: 1 },
            _ => Point { x: 0, y: 0, z: 0 },
        }
    }

    /// The edge from the first corner to the second.
    pub open spec fn edge_u(self) -> Point {
        match self {
            Face::NegX => Point { x: 0, y: 0, z: 1 },
            Face::PosX => Point { x: 0, y: 1, z: 0 },
            Face::NegY => Point { x: 1, y: 0, z: 0 },
            Face::PosY => Point { x: 0, y: 0, z: 1 },
            Face::NegZ => Point { x: 0, y: 1, z: 0 },
            Face::PosZ => Point { x: 1, y: 0, z: 0 },
        }
    }

    /// The edge from the first corner to the fourth.
    pub open spec fn edge_v(self) -> Point {
        match self {
            Face::NegX => Point { x: 0, y: 1, z: 0 },
            Face::PosX => Point { x: 0, y: 0, z: 1 },
            Face::NegY => Point { x: 0, y: 0, z: 1 },
            Face::PosY => Point { x: 1, y: 0, z: 0 },
            Face::NegZ => Point { x: 1, y: 0, z: 0 },
            Face::PosZ => Point { x: 0, y: 1, z: 0 },
        }
    }

    pub fn normal_vec(self) -> (v: Vec3)
        ensures
            v@ == self.normal(),
    {
        match self {
            Face::NegX => Vec3 { x: -1, y: 0, z: 0 },
            Face::PosX => Vec3 { x: 1, y: 0, z: 0 },
            Face::NegY => Vec3 { x: 0, y: -1, z: 0 },
            Face::PosY => Vec3 { x: 0, y: 1, z: 0 },
            Face::NegZ => Vec3 { x: 0, y: 0, z: -1 },
            Face::PosZ => Vec3 { x: 0, y: 0, z: 1 },
        }
    }

    pub fn corner_vec(self) -> (v: Vec3)
        ensures
            v@ == self.corner(),
    {
        match self {
            Face::PosX => Vec3 { x: 1, y: 0, z: 0 },
            Face::PosY => Vec3 { x: 0, y: 1, z: 0 },
            Face::PosZ => Vec3 { x: 0, y: 0, z: 1 },
            _ => Vec3 { x: 0, y: 0, z: 0 },
        }
    }

    pub fn edge_u_vec(self) -> (v: Vec3)
        ensures
            v@ == self.edge_u(),
    {
        match self {
            Face::NegX => Vec3 { x: 0, y: 0, z: 1 },
            Face::PosX => Vec3 { x: 0, y: 1, z: 0 },
            Face::NegY => Vec3 { x: 1, y: 0, z: 0 },
            Face::PosY => Vec3 { x: 0, y: 0, z: 1 },
            Face::NegZ => Vec3 { x: 0, y: 1, z: 0 },
            Face::PosZ => Vec3 { x: 1, y: 0, z: 0 },
        }
    }

    pub fn edge_v_vec(self) -> (v: Vec3)
        ensures
            v@ == self.edge_v(),
    {
        match self {
            Face::NegX => Vec3 { x: 0, y: 1, z: 0 },
            Face::PosX => Vec3 { x: 0, y: 0, z: 1 },
            Face::NegY => Vec3 { x: 0, y: 0, z: 1 },
            Face::PosY => Vec3 { x: 1, y: 0, z: 0 },
            Face::NegZ => Vec3 { x: 1, y: 0, z: 0 },
            Face::PosZ => Vec3 { x: 0, y: 1, z: 0 },
        }
    }
}

/// The offsets at which a whole voxel still fits mesh space: every corner of
/// the unit cube at `offs` must be a `Vec3`.
pub open spec fn offset_fits(offs: Point) -> bool {
    &&& i32::MIN <= offs.x < i32::MAX
    &&& i32::MIN <= offs.y < i32::MAX
    &&& i32::MIN <= offs.z < i32::MAX
}

/// The quad of one face of the voxel whose low corner lies at `offs` in mesh
/// space.
pub open spec fn face_quad(face: Face, offs: Point, col: Rgb) -> Seq<VertexModel> {
    let o = offs.plus(face.corner());
    let n = face.normal();
    quad_triangles(
        VertexModel { pos: o, norm: n, col },
        VertexModel { pos: o.plus(face.edge_u()), norm: n, col },
        VertexModel { pos: o.plus(face.edge_u()).plus(face.edge_v()), norm: n, col },
        VertexModel { pos: o.plus(face.edge_v()), norm: n, col },
    )
}

/// Whether the face of the voxel at `p` is visible. A stored neighbour hides it
/// unless it is empty; where the volume stores no neighbour (past the edge of a
/// bounded volume, or in a chunk that is not loaded) the face shows exactly if
/// `bounds_checked` is set.
pub open spec fn face_visible(
    vol: Map<Point, Block>,
    p: Point,
    face: Face,
    bounds_checked: bool,
) -> bool {
    match voxel_at(vol, p.plus(face.normal())) {
        Some(b) => b == Block::Empty,
        None => bounds_checked,
    }
}

/// What one face adds to the mesh: its quad if it is visible, nothing if not.
pub open spec fn face_mesh(
    vol: Map<Point, Block>,
    p: Point,
    offs: Point,
    col: Rgb,
    bounds_checked: bool,
    face: Face,
) -> Seq<VertexModel> {
    if face_visible(vol, p, face, bounds_checked) {
        face_quad(face, offs, col)
    } else {
        Seq::empty()
    }
}

/// What the solid voxel at `p` adds to the mesh: the quads of its visible
/// faces, in the order of `Face`, drawn at `offs` in the colour `col`.
pub open spec fn voxel_faces(
    vol: Map<Point, Block>,
    p: Point,
    offs: Point,
    col: Rgb,
    bounds_checked: bool,
) -> Seq<VertexModel> {
    face_mesh(vol, p, offs, col, bounds_checked, Face::NegX)
        + face_mesh(vol, p, offs, col, bounds_checked, Face::PosX)
        + face_mesh(vol, p, offs, col, bounds_checked, Face::NegY)
        + face_mesh(vol, p, offs, col, bounds_checked, Face::PosY)
        + face_mesh(vol, p, offs, col, bounds_checked, Face::NegZ)
        + face_mesh(vol, p, offs, col, bounds_checked, Face::PosZ)
}

/// The quad of `face` for a voxel drawn at `offs`.
pub fn create_quad(face: Face, offs: Vec3, col: Rgb) -> (q: Quad)
    requires
        offset_fits(offs@),
    ensures
        q@ == face_quad(face, offs@, col),
{
    let c = face.corner_vec();
    let u = face.edge_u_vec();
    let v = face.edge_v_vec();
    let n = face.normal_vec();
    let o = Vec3 { x: offs.x + c.x, y: offs.y + c.y, z: offs.z + c.z };
    let ou = Vec3 { x: o.x + u.x, y: o.y + u.y, z: o.z + u.z };
    let ouv = Vec3 { x: ou.x + v.x, y: ou.y + v.y, z: ou.z + v.z };
    let ov = Vec3 { x: o.x + v.x, y: o.y + v.y, z: o.z + v.z };
    Quad::new(
        Vertex::new(o, n, col),
        Vertex::new(ou, n, col),
        Vertex::new(ouv, n, col),
        Vertex::new(ov, n, col),
    )
}

/// Reads the neighbour behind `face` and decides whether the face is visible.
pub fn is_face_visible<V: ReadVol>(
    vol: &V,
    pos: Vec3,
    face: Face,
    bounds_checked: bool,
) -> (b: bool)
    ensures
        b == face_visible(vol@, pos@, face, bounds_checked),
{
    match pos.checked_add(face.normal_vec()) {
        Some(neighbour) => match vol.get(neighbour) {
            Some(b) => b.is_empty(),
            None => bounds_checked,
        },
        None => {
            proof {
                vol.lemma_addressable_only();
            }
            bounds_checked
        },
    }
}

/// Appends the quad of `face` if that face of the voxel at `pos` is visible.
fn push_face<V: ReadVol>(
    mesh: &mut Mesh,
    vol: &V,
    pos: Vec3,
    offs: Vec3,
    col: Rgb,
    bounds_checked: bool,
    face: Face,
)
    requires
        offset_fits(offs@),
    ensures
        final(mesh)@ == old(mesh)@ + face_mesh(vol@, pos@, offs@, col, bounds_checked, face),
{
    if is_face_visible(vol, pos, face, bounds_checked) {
        mesh.push_quad(create_quad(face, offs, col));
    } else {
        assert(mesh@ =~= old(mesh)@ + Seq::<VertexModel>::empty());
    }
}

/// Appending six sequences one after the other appends their concatenation.
proof fn lemma_append_six<A>(
    base: Seq<A>,
    s0: Seq<A>,
    s1: Seq<A>,
    s2: Seq<A>,
    s3: Seq<A>,
    s4: Seq<A>,
    s5: Seq<A>,
)
    ensures
        base + s0 + s1 + s2 + s3 + s4 + s5 == base + (s0 + s1 + s2 + s3 + s4 + s5),
{
    assert(base + s0 + s1 + s2 + s3 + s4 + s5 =~= base + (s0 + s1 + s2 + s3 + s4 + s5));
}

/// Appends the visible faces of the solid voxel at `pos` of `vol` to `mesh`,
/// drawn at `offs` in mesh space and coloured `col`. Visibility is decided by
/// reading the six neighbours through `vol`; `bounds_checked` says what a
/// missing neighbour means (see `face_visible`).
pub fn push_vox_verts<V: ReadVol>(
    mesh: &mut Mesh,
    vol: &V,
    pos: Vec3,
    offs: Vec3,
    col: Rgb,
    bounds_checked: bool,
)
    requires
        offset_fits(offs@),
    ensures
        final(mesh)@ == old(mesh)@ + voxel_faces(vol@, pos@, offs@, col, bounds_checked),
{
    push_face(mesh, vol, pos, offs, col, bounds_checked, Face::NegX);
    push_face(mesh, vol, pos, offs, col, bounds_checked, Face::PosX);
    push_face(mesh, vol, pos, offs, col, bounds_checked, Face::NegY);
    push_face(mesh, vol, pos, offs, col, bounds_checked, Face::PosY);
    push_face(mesh, vol, pos, offs, col, bounds_checked, Face::NegZ);
    push_face(mesh, vol, pos, offs, col, bounds_checked, Face::PosZ);
    proof {
        lemma_append_six(
            old(mesh)@,
            face_mesh(vol@, pos@, offs@, col, bounds_checked, Face::NegX),
            face_mesh(vol@, pos@, offs@, col, bounds_checked, Face::PosX),
            face_mesh(vol@, pos@, offs@, col, bounds_checked, Face::NegY),
            face_mesh(vol@, pos@, offs@, col, bounds_checked, Face::PosY),
            face_mesh(vol@, pos@, offs@, col, bounds_checked, Face::NegZ),
            face_mesh(vol@, pos@, offs@, col, bounds_checked, Face::PosZ),
        );
    }
}

} // verus!
