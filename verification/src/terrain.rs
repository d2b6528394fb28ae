//! The region meshers: one for each volume layout, over a shared scan.

use vstd::prelude::*;
use crate::block::Block;
use crate::chunks::{chunk_at, cube_key, nonzero};
use crate::dyna::{origin, Dyna};
use crate::faces::{face_visible, push_vox_verts, Face};
use crate::mesh::{Mesh, VertexModel};
use crate::scan::{
    box_positions, contribution, lemma_box_positions_within, lemma_mesh_along_push,
    lemma_region_mesh_empty_box, lemma_region_mesh_holds_voxel, lemma_region_mesh_moved,
    lemma_region_mesh_nothing_solid, lemma_region_mesh_same_reads, lemma_row_step, mesh_along,
    region_mesh, row_positions, shifted, slab_positions, voxel_mesh,
};
use crate::vec3::{Aabb, Point, Rgb, Vec3};
use crate::vol::{color_at, ReadVol};
use crate::vol_map_2d::VolMap2d;
use crate::vol_map_3d::VolMap3d;

verus! {

/// Adds to `mesh` what the position `pos` contributes, given the colour that
/// was sampled there.
fn push_sample<V: ReadVol>(
    mesh: &mut Mesh,
    vol: &V,
    pos: Vec3,
    origin: Vec3,
    sample: Option<Rgb>,
    bounds_checked: bool,
)
    requires
        sample == color_at(vol@, pos@),
        0 <= pos.x - origin.x < i32::MAX,
        0 <= pos.y - origin.y < i32::MAX,
        0 <= pos.z - origin.z < i32::MAX,
    ensures
        final(mesh)@ == old(mesh)@ + voxel_mesh(vol@, pos@, origin@, bounds_checked),
{
    match sample {
        Some(col) => {
            let offs = Vec3 { x: pos.x - origin.x, y: pos.y - origin.y, z: pos.z - origin.z };
            push_vox_verts(mesh, vol, pos, offs, col, bounds_checked);
        },
        None => {
            assert(mesh@ =~= old(mesh)@ + Seq::<VertexModel>::empty());
        },
    }
}

/// The colour that a mesher reads at `pos`, by a direct lookup in the volume.
pub fn sample_color<V: ReadVol>(vol: &V, pos: Vec3) -> (c: Option<Rgb>)
    ensures
        c == color_at(vol@, pos@),
{
    match vol.get(pos) {
        Some(b) => b.get_color(),
        None => None,
    }
}

/// Meshes every position of `region`, drawn relative to `region.min`, reading
/// the volume once for each position and its neighbours. A region that is
/// empty or inverted on any axis yields the empty mesh.
pub fn mesh_region<V: ReadVol>(vol: &V, region: Aabb, bounds_checked: bool) -> (mesh: Mesh)
    requires
        region.spans_i32(),
    ensures
        mesh@ == region_mesh(vol@, region.min@, region.max@, bounds_checked),
{
    let lo = region.min;
    let hi = region.max;
    let mut mesh = Mesh::new();
    if region.is_empty() {
        proof {
            lemma_region_mesh_empty_box(vol@, lo@, hi@, bounds_checked);
        }
        return mesh;
    }
    let ghost mut seen: Seq<Point> = Seq::empty();
    proof {
        assert(Seq::<Point>::empty().map_values(contribution(vol@, lo@, bounds_checked))
            =~= Seq::<Seq<VertexModel>>::empty());
    }
    let mut x: i32 = lo.x;
    while x < hi.x
        invariant
            region.spans_i32(),
            lo == region.min,
            hi == region.max,
            lo.y < hi.y,
            lo.z < hi.z,
            lo.x <= x <= hi.x,
            seen == box_positions(lo@, Point { x: x as int, y: hi.y as int, z: hi.z as int }),
            mesh@ == mesh_along(vol@, lo@, bounds_checked, seen),
        decreases hi.x - x,
    {
        let ghost done_box = seen;
        let mut y: i32 = lo.y;
        while y < hi.y
            invariant
                region.spans_i32(),
                lo == region.min,
                hi == region.max,
                lo.z < hi.z,
                lo.x <= x < hi.x,
                lo.y <= y <= hi.y,
                seen == done_box + slab_positions(
                    x as int,
                    lo.y as int,
                    y as int,
                    lo.z as int,
                    hi.z as int,
                ),
                mesh@ == mesh_along(vol@, lo@, bounds_checked, seen),
            decreases hi.y - y,
        {
            let ghost done_slab = seen;
            let mut z: i32 = lo.z;
            while z < hi.z
                invariant
                    region.spans_i32(),
                    lo == region.min,
                    hi == region.max,
                    lo.x <= x < hi.x,
                    lo.y <= y < hi.y,
                    lo.z <= z <= hi.z,
                    seen == done_slab + row_positions(
                        x as int,
                        y as int,
                        lo.z as int,
                        z as int,
                    ),
                    mesh@ == mesh_along(vol@, lo@, bounds_checked, seen),
                decreases hi.z - z,
            {
                let pos = Vec3 { x, y, z };
                let sample = sample_color(vol, pos);
                push_sample(&mut mesh, vol, pos, lo, sample, bounds_checked);
                proof {
                    lemma_mesh_along_push(vol@, lo@, bounds_checked, seen, pos@);
                    lemma_row_step(x as int, y as int, lo.z as int, z as int);
                    seen = seen.push(pos@);
                }
                z += 1;
            }
            y += 1;
        }
        x += 1;
    }
    mesh
}

/// The mesh of the region `[min, max)` after it was moved inwards by `margin`
/// on both sides of every axis, drawn relative to the first position that is
/// left.
pub open spec fn trimmed_mesh(
    vol: Map<Point, Block>,
    min: Point,
    max: Point,
    margin: Point,
    bounds_checked: bool,
) -> Seq<VertexModel> {
    region_mesh(vol, min.plus(margin), max.minus(margin), bounds_checked)
}

/// The mesh of a dense volume of size `size`: the whole volume but for its
/// outer one-voxel border.
pub open spec fn dense_mesh(vol: Map<Point, Block>, size: Point) -> Seq<VertexModel> {
    trimmed_mesh(vol, origin(), size, Point { x: 1, y: 1, z: 1 }, true)
}

/// The mesh of the region `[min, max)` of a column-chunked volume: the region
/// but for a margin of one voxel on `x` and `y`, over its whole `z` range.
pub open spec fn column_mesh(vol: Map<Point, Block>, min: Point, max: Point) -> Seq<VertexModel> {
    trimmed_mesh(vol, min, max, Point { x: 1, y: 1, z: 0 }, false)
}

/// The mesh of the region `[min, max)` of a cube-chunked volume: the region but
/// for a margin of one voxel on all three axes.
pub open spec fn cube_mesh(vol: Map<Point, Block>, min: Point, max: Point) -> Seq<VertexModel> {
    trimmed_mesh(vol, min, max, Point { x: 1, y: 1, z: 1 }, false)
}

/// The positions that a mesher samples in the range `[min, max)` with the
/// margin `margin`, in the order in which it samples them.
pub open spec fn sampled_positions(min: Point, max: Point, margin: Point) -> Seq<Point> {
    box_positions(min.plus(margin), max.minus(margin))
}

/// A mesher gathers its mesh along the sampled positions and nowhere else.
pub proof fn lemma_trimmed_mesh_along(
    vol: Map<Point, Block>,
    min: Point,
    max: Point,
    margin: Point,
    bounds_checked: bool,
)
    ensures
        trimmed_mesh(vol, min, max, margin, bounds_checked) == mesh_along(
            vol,
            min.plus(margin),
            bounds_checked,
            sampled_positions(min, max, margin),
        ),
{
}

/// No mesher samples outside its range: every sampled position lies in
/// `[min, max)`, at least the margin away from its sides.
pub proof fn lemma_sampled_positions_within(min: Point, max: Point, margin: Point, i: int)
    requires
        margin.x >= 0,
        margin.y >= 0,
        margin.z >= 0,
        0 <= i < sampled_positions(min, max, margin).len(),
    ensures
        sampled_positions(min, max, margin)[i].within(min.plus(margin), max.minus(margin)),
        sampled_positions(min, max, margin)[i].within(min, max),
{
    lemma_box_positions_within(min.plus(margin), max.minus(margin), i);
}

/// The positions that the dense mesher samples in a volume of size `size`, in
/// the order in which it samples them.
pub open spec fn dense_positions(size: Point) -> Seq<Point> {
    sampled_positions(origin(), size, Point { x: 1, y: 1, z: 1 })
}

/// Border trim: the dense mesher samples no position on the outer one-voxel
/// border of the volume. Every sampled position lies at least one step inside
/// on every axis, so each of its six neighbours lies inside the volume.
pub proof fn lemma_dense_border_trim(size: Point, i: int)
    requires
        0 <= i < dense_positions(size).len(),
    ensures
        1 <= dense_positions(size)[i].x <= size.x - 2,
        1 <= dense_positions(size)[i].y <= size.y - 2,
        1 <= dense_positions(size)[i].z <= size.z - 2,
        forall|face: Face| #[trigger]
            dense_positions(size)[i].plus(face.normal()).within(origin(), size),
{
    lemma_sampled_positions_within(origin(), size, Point { x: 1, y: 1, z: 1 }, i);
}

/// The dense mesh is gathered along the sampled positions and nowhere else.
pub proof fn lemma_dense_mesh_along(vol: Map<Point, Block>, size: Point)
    ensures
        dense_mesh(vol, size) == mesh_along(
            vol,
            Point { x: 1, y: 1, z: 1 },
            true,
            dense_positions(size),
        ),
{
    assert(origin().plus(Point { x: 1, y: 1, z: 1 }) == Point { x: 1, y: 1, z: 1 });
    lemma_trimmed_mesh_along(vol, origin(), size, Point { x: 1, y: 1, z: 1 }, true);
}

/// Border trim, seen from the result: two dense volumes that store voxels at
/// the same positions, are empty at the same positions, and hold the same
/// voxels inside the border have the same mesh. What colour a voxel on the
/// border has is never read.
pub proof fn lemma_dense_mesh_ignores_border(
    first: Map<Point, Block>,
    second: Map<Point, Block>,
    size: Point,
)
    requires
        forall|p: Point| first.dom().contains(p) == second.dom().contains(p),
        forall|p: Point|
            first.dom().contains(p) ==> (first[p] == Block::Empty) == (second[p] == Block::Empty),
        forall|p: Point|
            p.within(Point { x: 1, y: 1, z: 1 }, size.minus(Point { x: 1, y: 1, z: 1 }))
                && first.dom().contains(p) ==> first[p] == second[p],
    ensures
        dense_mesh(first, size) == dense_mesh(second, size),
{
    assert(origin().plus(Point { x: 1, y: 1, z: 1 }) == Point { x: 1, y: 1, z: 1 });
    lemma_region_mesh_same_reads(
        first,
        true,
        second,
        true,
        Point { x: 1, y: 1, z: 1 },
        size.minus(Point { x: 1, y: 1, z: 1 }),
    );
}

/// Border trim makes the bounds check idle: in a volume that stores a voxel at
/// every position inside its size, no sampled position has a missing
/// neighbour, so the dense mesh is the same with and without bounds checking.
pub proof fn lemma_dense_mesh_needs_no_bounds_check(vol: Map<Point, Block>, size: Point)
    requires
        forall|p: Point| p.within(origin(), size) ==> vol.dom().contains(p),
    ensures
        dense_mesh(vol, size) == trimmed_mesh(
            vol,
            origin(),
            size,
            Point { x: 1, y: 1, z: 1 },
            false,
        ),
{
    let lo = Point { x: 1, y: 1, z: 1 };
    let hi = size.minus(lo);
    assert(origin().plus(lo) == lo);
    assert forall|p: Point, face: Face| p.within(lo, hi) implies face_visible(vol, p, face, true)
        == face_visible(vol, p, face, false) by {
        assert(p.plus(face.normal()).within(origin(), size));
    }
    lemma_region_mesh_same_reads(vol, true, vol, false, lo, hi);
}

/// The locality cache is no part of the result: the mesh of a cube-chunked
/// volume is the mesh that direct lookups at every position inside the margin
/// give.
pub proof fn lemma_cube_mesh_by_direct_lookup(vol: Map<Point, Block>, min: Point, max: Point)
    ensures
        cube_mesh(vol, min, max) == region_mesh(
            vol,
            min.plus(Point { x: 1, y: 1, z: 1 }),
            max.minus(Point { x: 1, y: 1, z: 1 }),
            false,
        ),
{
}

/// Offset consistency for every layout: a range and a volume that are moved
/// together by `v` give the same mesh in mesh space, whatever the margin.
pub proof fn lemma_trimmed_mesh_moved(
    vol: Map<Point, Block>,
    min: Point,
    max: Point,
    margin: Point,
    v: Point,
    bounds_checked: bool,
)
    ensures
        trimmed_mesh(shifted(vol, v), min.plus(v), max.plus(v), margin, bounds_checked)
            == trimmed_mesh(vol, min, max, margin, bounds_checked),
{
    assert(min.plus(v).plus(margin) == min.plus(margin).plus(v));
    assert(max.plus(v).minus(margin) == max.minus(margin).plus(v));
    lemma_region_mesh_moved(vol, min.plus(margin), max.minus(margin), v, bounds_checked);
}

/// Empty-voxel exclusion for every layout: a range in which no position holds
/// a solid voxel has the empty mesh.
pub proof fn lemma_trimmed_mesh_nothing_solid(
    vol: Map<Point, Block>,
    min: Point,
    max: Point,
    margin: Point,
    bounds_checked: bool,
)
    requires
        margin.x >= 0,
        margin.y >= 0,
        margin.z >= 0,
        forall|p: Point| p.within(min, max) ==> color_at(vol, p) is None,
    ensures
        trimmed_mesh(vol, min, max, margin, bounds_checked) == Seq::<VertexModel>::empty(),
{
    assert forall|p: Point| p.within(min.plus(margin), max.minus(margin)) implies color_at(
        vol,
        p,
    ) is None by {
        assert(p.within(min, max));
    }
    lemma_region_mesh_nothing_solid(vol, min.plus(margin), max.minus(margin), bounds_checked);
}

/// Unloaded-chunk fallback: a position inside the margin of a range adds what
/// the volume stores there, read directly, to the mesh of the range, whether
/// the chunks around it, or its own, are loaded or not.
pub proof fn lemma_trimmed_mesh_holds_voxel(
    vol: Map<Point, Block>,
    min: Point,
    max: Point,
    margin: Point,
    bounds_checked: bool,
    p: Point,
)
    requires
        p.within(min.plus(margin), max.minus(margin)),
    ensures
        exists|before: Seq<VertexModel>, after: Seq<VertexModel>|
            trimmed_mesh(vol, min, max, margin, bounds_checked) == before + voxel_mesh(
                vol,
                p,
                min.plus(margin),
                bounds_checked,
            ) + after,
{
    lemma_region_mesh_holds_voxel(vol, min.plus(margin), max.minus(margin), bounds_checked, p);
}

/// Moves `range` inwards by `margin`; `None` where nothing is left of it.
fn interior(range: Aabb, margin: Vec3) -> (r: Option<Aabb>)
    requires
        range.spans_i32(),
        0 <= margin.x <= 1,
        0 <= margin.y <= 1,
        0 <= margin.z <= 1,
    ensures
        r matches Some(inner) ==> {
            &&& inner.min@ == range.min@.plus(margin@)
            &&& inner.max@ == range.max@.minus(margin@)
            &&& inner.spans_i32()
            &&& inner.min.x < inner.max.x
            &&& inner.min.y < inner.max.y
            &&& inner.min.z < inner.max.z
        },
        r is None ==> {
            ||| range.max.x - margin.x <= range.min.x + margin.x
            ||| range.max.y - margin.y <= range.min.y + margin.y
            ||| range.max.z - margin.z <= range.min.z + margin.z
        },
{
    match range.trimmed(margin) {
        Some(inner) => if inner.is_empty() {
            None
        } else {
            Some(inner)
        },
        None => None,
    }
}

impl Dyna {
    /// Meshes the whole volume. Positions on the outer one-voxel border are
    /// never sampled, so every neighbour of a sampled position lies inside the
    /// volume; faces are emitted with bounds checking.
    pub fn generate_mesh(&self, _supplement: ()) -> (mesh: Mesh)
        ensures
            mesh@ == dense_mesh(self@, self.size()@),
    {
        let sz = self.get_size();
        let whole = Aabb {
            min: Vec3 { x: 0, y: 0, z: 0 },
            max: Vec3 { x: sz.x as i32, y: sz.y as i32, z: sz.z as i32 },
        };
        match interior(whole, Vec3 { x: 1, y: 1, z: 1 }) {
            Some(inner) => mesh_region(self, inner, true),
            None => {
                proof {
                    lemma_region_mesh_empty_box(
                        self@,
                        Point { x: 1, y: 1, z: 1 },
                        whole.max@.minus(Point { x: 1, y: 1, z: 1 }),
                        true,
                    );
                }
                Mesh::new()
            },
        }
    }
}

impl VolMap2d {
    /// Meshes the inside of `range`: a margin of one voxel is left out on `x`
    /// and `y`, none on `z`. Faces are emitted without bounds checking. A range
    /// with `min > max` on some axis, and a volume whose chunk size has a zero
    /// side, yield the empty mesh.
    pub fn generate_mesh(&self, range: Aabb) -> (mesh: Mesh)
        requires
            range.spans_i32(),
        ensures
            mesh@ == column_mesh(self@, range.min@, range.max@),
            !range.valid() || !nonzero(self.chunk_size()@) ==> mesh@
                == Seq::<VertexModel>::empty(),
    {
        let margin = Vec3 { x: 1, y: 1, z: 0 };
        if self.has_zero_chunk_size() {
            proof {
                lemma_region_mesh_nothing_solid(
                    self@,
                    range.min@.plus(margin@),
                    range.max@.minus(margin@),
                    false,
                );
            }
            return Mesh::new();
        }
        match interior(range, margin) {
            Some(inner) => mesh_region(self, inner, false),
            None => {
                proof {
                    lemma_region_mesh_empty_box(
                        self@,
                        range.min@.plus(margin@),
                        range.max@.minus(margin@),
                        false,
                    );
                }
                Mesh::new()
            },
        }
    }
}

/// Whether `chunk` is what the table of loaded chunks holds under `key`: what
/// the locality cache of a scan must hold of its remembered chunk.
pub open spec fn remembers(chunks: Map<Point, Dyna>, key: Point, chunk: Option<&Dyna>) -> bool {
    chunk == match chunk_at(chunks, key) {
        Some(c) => Some(&c),
        None => None,
    }
}

impl VolMap3d {
    /// The colour at `pos`, read through the chunk that was resolved for the
    /// key of `pos`: from the chunk's own storage where the chunk is loaded, by
    /// a direct lookup in the volume where it is not.
    fn sample_through(&self, chunk: Option<&Dyna>, pos: Vec3) -> (c: Option<Rgb>)
        requires
            nonzero(self.chunk_size()@),
            remembers(self.chunks(), cube_key(self.chunk_size()@, pos@), chunk),
        ensures
            c == color_at(self@, pos@),
    {
        match chunk {
            Some(chunk) => sample_color(chunk, self.chunk_offs(pos)),
            None => sample_color(self, pos),
        }
    }

    /// Meshes the inside of `range`: a margin of one voxel is left out on all
    /// three axes. The chunk of the previous position is remembered and
    /// resolved again only when the chunk key changes. Faces are emitted
    /// without bounds checking. A range with `min > max` on some axis, and a
    /// volume whose chunk size has a zero side, yield the empty mesh.
    pub fn generate_mesh(&self, range: Aabb) -> (mesh: Mesh)
        requires
            range.spans_i32(),
        ensures
            mesh@ == cube_mesh(self@, range.min@, range.max@),
            !range.valid() || !nonzero(self.chunk_size()@) ==> mesh@
                == Seq::<VertexModel>::empty(),
    {
        let margin = Vec3 { x: 1, y: 1, z: 1 };
        let mut mesh = Mesh::new();
        if self.has_zero_chunk_size() {
            proof {
                lemma_region_mesh_nothing_solid(
                    self@,
                    range.min@.plus(margin@),
                    range.max@.minus(margin@),
                    false,
                );
            }
            return mesh;
        }
        let inner = match interior(range, margin) {
            Some(inner) => inner,
            None => {
                proof {
                    lemma_region_mesh_empty_box(
                        self@,
                        range.min@.plus(margin@),
                        range.max@.minus(margin@),
                        false,
                    );
                }
                return mesh;
            },
        };
        let lo = inner.min;
        let hi = inner.max;

        let mut last_chunk_pos = self.pos_key(range.min);
        let mut last_chunk = self.get_key(last_chunk_pos);

        let ghost mut seen: Seq<Point> = Seq::empty();
        proof {
            assert(Seq::<Point>::empty().map_values(contribution(self@, lo@, false))
                =~= Seq::<Seq<VertexModel>>::empty());
        }
        let mut x: i32 = lo.x;
        while x < hi.x
            invariant
                inner.spans_i32(),
                lo == inner.min,
                hi == inner.max,
                lo.y < hi.y,
                lo.z < hi.z,
                lo.x <= x <= hi.x,
                nonzero(self.chunk_size()@),
                remembers(self.chunks(), last_chunk_pos@, last_chunk),
                seen == box_positions(lo@, Point { x: x as int, y: hi.y as int, z: hi.z as int }),
                mesh@ == mesh_along(self@, lo@, false, seen),
            decreases hi.x - x,
        {
            let ghost done_box = seen;
            let mut y: i32 = lo.y;
            while y < hi.y
                invariant
                    inner.spans_i32(),
                    lo == inner.min,
                    hi == inner.max,
                    lo.z < hi.z,
                    lo.x <= x < hi.x,
                    lo.y <= y <= hi.y,
                    nonzero(self.chunk_size()@),
                    remembers(self.chunks(), last_chunk_pos@, last_chunk),
                    seen == done_box + slab_positions(
                        x as int,
                        lo.y as int,
                        y as int,
                        lo.z as int,
                        hi.z as int,
                    ),
                    mesh@ == mesh_along(self@, lo@, false, seen),
                decreases hi.y - y,
            {
                let ghost done_slab = seen;
                let mut z: i32 = lo.z;
                while z < hi.z
                    invariant
                        inner.spans_i32(),
                        lo == inner.min,
                        hi == inner.max,
                        lo.x <= x < hi.x,
                        lo.y <= y < hi.y,
                        lo.z <= z <= hi.z,
                        nonzero(self.chunk_size()@),
                        remembers(self.chunks(), last_chunk_pos@, last_chunk),
                        seen == done_slab + row_positions(
                            x as int,
                            y as int,
                            lo.z as int,
                            z as int,
                        ),
                        mesh@ == mesh_along(self@, lo@, false, seen),
                    decreases hi.z - z,
                {
                    let pos = Vec3 { x, y, z };
                    let new_chunk_pos = self.pos_key(pos);
                    if last_chunk_pos != new_chunk_pos {
                        last_chunk = self.get_key(new_chunk_pos);
                        last_chunk_pos = new_chunk_pos;
                    }
                    let sample = self.sample_through(last_chunk, pos);
                    push_sample(&mut mesh, self, pos, lo, sample, false);
                    proof {
                        lemma_mesh_along_push(self@, lo@, false, seen, pos@);
                        lemma_row_step(x as int, y as int, lo.z as int, z as int);
                        seen = seen.push(pos@);
                    }
                    z += 1;
                }
                y += 1;
            }
            x += 1;
        }
        mesh
    }
}

} // verus!
