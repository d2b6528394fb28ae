//! What a region mesher produces, as a function of the stored voxels: the scan
//! order over a box of positions and the mesh gathered along it.

use vstd::prelude::*;
use vstd::seq_lib::lemma_flatten_concat;
use crate::block::Block;
use crate::faces::{face_visible, voxel_faces, Face};
use crate::mesh::VertexModel;
use crate::vec3::Point;
use crate::vol::color_at;

verus! {

/// The positions `(x, y, z)` with `z_lo <= z < z_hi`, by rising `z`.
pub open spec fn row_positions(x: int, y: int, z_lo: int, z_hi: int) -> Seq<Point> {
    Seq::new(
        if z_lo <= z_hi {
            (z_hi - z_lo) as nat
        } else {
            0
        },
        |k: int| Point { x, y, z: z_lo + k },
    )
}

/// The rows `y_lo <= y < y_hi` of the slab at `x`, one after the other.
pub open spec fn slab_positions(x: int, y_lo: int, y_hi: int, z_lo: int, z_hi: int) -> Seq<Point>
    decreases y_hi - y_lo,
{
    if y_hi <= y_lo {
        Seq::empty()
    } else {
        slab_positions(x, y_lo, y_hi - 1, z_lo, z_hi) + row_positions(x, y_hi - 1, z_lo, z_hi)
    }
}

/// The positions of the half-open box `[lo, hi)` in scan order: `x` outermost,
/// then `y`, `z` innermost. Empty when the box is empty on any axis.
pub open spec fn box_positions(lo: Point, hi: Point) -> Seq<Point>
    decreases hi.x - lo.x,
{
    if hi.x <= lo.x {
        Seq::empty()
    } else {
        box_positions(lo, Point { x: hi.x - 1, y: hi.y, z: hi.z }) + slab_positions(
            hi.x - 1,
            lo.y,
            hi.y,
            lo.z,
            hi.z,
        )
    }
}

/// What the position `p` adds to a mesh whose origin is the world position
/// `origin`: nothing unless a solid voxel is stored there, else its visible
/// faces, drawn at `p - origin` in its own colour.
pub open spec fn voxel_mesh(
    vol: Map<Point, Block>,
    p: Point,
    origin: Point,
    bounds_checked: bool,
) -> Seq<VertexModel> {
    match color_at(vol, p) {
        Some(col) => voxel_faces(vol, p, p.minus(origin), col, bounds_checked),
        None => Seq::empty(),
    }
}

/// `voxel_mesh` as a function of the position alone.
pub open spec fn contribution(
    vol: Map<Point, Block>,
    origin: Point,
    bounds_checked: bool,
) -> spec_fn(Point) -> Seq<VertexModel> {
    |p: Point| voxel_mesh(vol, p, origin, bounds_checked)
}

/// The mesh gathered by visiting `positions` in order.
pub open spec fn mesh_along(
    vol: Map<Point, Block>,
    origin: Point,
    bounds_checked: bool,
    positions: Seq<Point>,
) -> Seq<VertexModel> {
    positions.map_values(contribution(vol, origin, bounds_checked)).flatten()
}

/// The mesh of the box `[lo, hi)` of a volume: every position of the box is
/// visited once, in scan order, and drawn relative to `lo`.
pub open spec fn region_mesh(
    vol: Map<Point, Block>,
    lo: Point,
    hi: Point,
    bounds_checked: bool,
) -> Seq<VertexModel> {
    mesh_along(vol, lo, bounds_checked, box_positions(lo, hi))
}

/// Visiting one more position appends what that position adds.
pub proof fn lemma_mesh_along_push(
    vol: Map<Point, Block>,
    origin: Point,
    bounds_checked: bool,
    positions: Seq<Point>,
    p: Point,
)
    ensures
        mesh_along(vol, origin, bounds_checked, positions.push(p)) == mesh_along(
            vol,
            origin,
            bounds_checked,
            positions,
        ) + voxel_mesh(vol, p, origin, bounds_checked),
{
    let f = contribution(vol, origin, bounds_checked);
    assert(positions.push(p).map_values(f) =~= positions.map_values(f).push(f(p)));
    positions.map_values(f).lemma_flatten_push(f(p));
}

/// Visiting two runs of positions one after the other gathers the two meshes
/// one after the other.
pub proof fn lemma_mesh_along_concat(
    vol: Map<Point, Block>,
    origin: Point,
    bounds_checked: bool,
    first: Seq<Point>,
    second: Seq<Point>,
)
    ensures
        mesh_along(vol, origin, bounds_checked, first + second) == mesh_along(
            vol,
            origin,
            bounds_checked,
            first,
        ) + mesh_along(vol, origin, bounds_checked, second),
{
    let f = contribution(vol, origin, bounds_checked);
    assert((first + second).map_values(f) =~= first.map_values(f) + second.map_values(f));
    lemma_flatten_concat(first.map_values(f), second.map_values(f));
}

/// A row grows by its next position.
pub proof fn lemma_row_step(x: int, y: int, z_lo: int, z: int)
    requires
        z_lo <= z,
    ensures
        row_positions(x, y, z_lo, z + 1) == row_positions(x, y, z_lo, z).push(Point { x, y, z }),
{
    assert(row_positions(x, y, z_lo, z + 1) =~= row_positions(x, y, z_lo, z).push(
        Point { x, y, z },
    ));
}

/// A box that is empty on the `y` or the `z` axis has no positions.
pub proof fn lemma_slab_empty(x: int, y_lo: int, y_hi: int, z_lo: int, z_hi: int)
    requires
        y_hi <= y_lo || z_hi <= z_lo,
    ensures
        slab_positions(x, y_lo, y_hi, z_lo, z_hi) == Seq::<Point>::empty(),
    decreases y_hi - y_lo,
{
    if y_hi > y_lo {
        lemma_slab_empty(x, y_lo, y_hi - 1, z_lo, z_hi);
        assert(slab_positions(x, y_lo, y_hi, z_lo, z_hi) =~= Seq::<Point>::empty());
    }
}

/// A box that is empty on any axis has no positions.
pub proof fn lemma_box_empty(lo: Point, hi: Point)
    requires
        hi.x <= lo.x || hi.y <= lo.y || hi.z <= lo.z,
    ensures
        box_positions(lo, hi) == Seq::<Point>::empty(),
    decreases hi.x - lo.x,
{
    if hi.x > lo.x {
        lemma_box_empty(lo, Point { x: hi.x - 1, y: hi.y, z: hi.z });
        lemma_slab_empty(hi.x - 1, lo.y, hi.y, lo.z, hi.z);
        assert(box_positions(lo, hi) =~= Seq::<Point>::empty());
    }
}

/// The mesh of a box that is empty on any axis is empty.
pub proof fn lemma_region_mesh_empty_box(
    vol: Map<Point, Block>,
    lo: Point,
    hi: Point,
    bounds_checked: bool,
)
    requires
        hi.x <= lo.x || hi.y <= lo.y || hi.z <= lo.z,
    ensures
        region_mesh(vol, lo, hi, bounds_checked) == Seq::<VertexModel>::empty(),
{
    lemma_box_empty(lo, hi);
    let f = contribution(vol, lo, bounds_checked);
    assert(Seq::<Point>::empty().map_values(f) =~= Seq::<Seq<VertexModel>>::empty());
}

/// Every position of the scan lies inside the box: nothing outside `[lo, hi)`
/// is ever visited.
pub proof fn lemma_box_positions_within(lo: Point, hi: Point, i: int)
    requires
        0 <= i < box_positions(lo, hi).len(),
    ensures
        box_positions(lo, hi)[i].within(lo, hi),
    decreases hi.x - lo.x,
{
    let inner = box_positions(lo, Point { x: hi.x - 1, y: hi.y, z: hi.z });
    if i < inner.len() {
        lemma_box_positions_within(lo, Point { x: hi.x - 1, y: hi.y, z: hi.z }, i);
    } else {
        lemma_slab_positions_within(hi.x - 1, lo.y, hi.y, lo.z, hi.z, i - inner.len());
    }
}

/// Every position of a slab lies at the slab's `x`, inside its rows.
pub proof fn lemma_slab_positions_within(
    x: int,
    y_lo: int,
    y_hi: int,
    z_lo: int,
    z_hi: int,
    i: int,
)
    requires
        0 <= i < slab_positions(x, y_lo, y_hi, z_lo, z_hi).len(),
    ensures
        slab_positions(x, y_lo, y_hi, z_lo, z_hi)[i].x == x,
        y_lo <= slab_positions(x, y_lo, y_hi, z_lo, z_hi)[i].y < y_hi,
        z_lo <= slab_positions(x, y_lo, y_hi, z_lo, z_hi)[i].z < z_hi,
    decreases y_hi - y_lo,
{
    let inner = slab_positions(x, y_lo, y_hi - 1, z_lo, z_hi);
    if i < inner.len() {
        lemma_slab_positions_within(x, y_lo, y_hi - 1, z_lo, z_hi, i);
    }
}

/// Every position of a slab's rows is visited.
pub proof fn lemma_slab_positions_complete(
    x: int,
    y_lo: int,
    y_hi: int,
    z_lo: int,
    z_hi: int,
    p: Point,
)
    requires
        p.x == x,
        y_lo <= p.y < y_hi,
        z_lo <= p.z < z_hi,
    ensures
        slab_positions(x, y_lo, y_hi, z_lo, z_hi).contains(p),
    decreases y_hi - y_lo,
{
    let inner = slab_positions(x, y_lo, y_hi - 1, z_lo, z_hi);
    let all = slab_positions(x, y_lo, y_hi, z_lo, z_hi);
    if p.y < y_hi - 1 {
        lemma_slab_positions_complete(x, y_lo, y_hi - 1, z_lo, z_hi, p);
        let i = choose|i: int| 0 <= i < inner.len() && inner[i] == p;
        assert(all[i] == p);
    } else {
        assert(row_positions(x, y_hi - 1, z_lo, z_hi)[p.z - z_lo] == p);
        assert(all[inner.len() + (p.z - z_lo)] == p);
    }
}

/// Every position of the box is visited: the scan skips nothing, whatever the
/// volume stores there or around it.
pub proof fn lemma_box_positions_complete(lo: Point, hi: Point, p: Point)
    requires
        p.within(lo, hi),
    ensures
        box_positions(lo, hi).contains(p),
    decreases hi.x - lo.x,
{
    let less = Point { x: hi.x - 1, y: hi.y, z: hi.z };
    let inner = box_positions(lo, less);
    let slab = slab_positions(hi.x - 1, lo.y, hi.y, lo.z, hi.z);
    let all = box_positions(lo, hi);
    if p.x < hi.x - 1 {
        lemma_box_positions_complete(lo, less, p);
        let i = choose|i: int| 0 <= i < inner.len() && inner[i] == p;
        assert(all[i] == p);
    } else {
        lemma_slab_positions_complete(hi.x - 1, lo.y, hi.y, lo.z, hi.z, p);
        let i = choose|i: int| 0 <= i < slab.len() && slab[i] == p;
        assert(all[inner.len() + i] == p);
    }
}

/// Positions that hold no solid voxel add nothing to a mesh.
pub proof fn lemma_mesh_along_nothing_solid(
    vol: Map<Point, Block>,
    origin: Point,
    bounds_checked: bool,
    positions: Seq<Point>,
)
    requires
        forall|i: int| 0 <= i < positions.len() ==> color_at(vol, #[trigger] positions[i]) is None,
    ensures
        mesh_along(vol, origin, bounds_checked, positions) == Seq::<VertexModel>::empty(),
    decreases positions.len(),
{
    let f = contribution(vol, origin, bounds_checked);
    if positions.len() == 0 {
        assert(positions.map_values(f) =~= Seq::<Seq<VertexModel>>::empty());
    } else {
        let rest = positions.drop_last();
        assert forall|i: int| 0 <= i < rest.len() implies color_at(vol, #[trigger] rest[i])
            is None by {
            assert(rest[i] == positions[i]);
        }
        lemma_mesh_along_nothing_solid(vol, origin, bounds_checked, rest);
        lemma_mesh_along_push(vol, origin, bounds_checked, rest, positions.last());
        assert(rest.push(positions.last()) =~= positions);
    }
}

/// A region in which no position holds a solid voxel has the empty mesh.
pub proof fn lemma_region_mesh_nothing_solid(
    vol: Map<Point, Block>,
    lo: Point,
    hi: Point,
    bounds_checked: bool,
)
    requires
        forall|p: Point| p.within(lo, hi) ==> color_at(vol, p) is None,
    ensures
        region_mesh(vol, lo, hi, bounds_checked) == Seq::<VertexModel>::empty(),
{
    let positions = box_positions(lo, hi);
    assert forall|i: int| 0 <= i < positions.len() implies color_at(vol, #[trigger] positions[i])
        is None by {
        lemma_box_positions_within(lo, hi, i);
    }
    lemma_mesh_along_nothing_solid(vol, lo, bounds_checked, positions);
}

/// The volume `vol` moved by `v`: what `vol` stores at `p` is stored at
/// `p + v`.
pub open spec fn shifted(vol: Map<Point, Block>, v: Point) -> Map<Point, Block> {
    Map::new(|p: Point| vol.dom().contains(p.minus(v)), |p: Point| vol[p.minus(v)])
}

/// The positions `positions`, each moved by `v`.
pub open spec fn moved(positions: Seq<Point>, v: Point) -> Seq<Point> {
    Seq::new(positions.len(), |i: int| positions[i].plus(v))
}

/// A mesh placed in the world: every vertex position moved by `at`.
pub open spec fn placed(mesh: Seq<VertexModel>, at: Point) -> Seq<VertexModel> {
    Seq::new(
        mesh.len(),
        |i: int| VertexModel { pos: mesh[i].pos.plus(at), norm: mesh[i].norm, col: mesh[i].col },
    )
}

/// Moving a slab moves its positions and keeps their order.
pub proof fn lemma_slab_positions_moved(
    x: int,
    y_lo: int,
    y_hi: int,
    z_lo: int,
    z_hi: int,
    v: Point,
)
    ensures
        slab_positions(x + v.x, y_lo + v.y, y_hi + v.y, z_lo + v.z, z_hi + v.z) == moved(
            slab_positions(x, y_lo, y_hi, z_lo, z_hi),
            v,
        ),
    decreases y_hi - y_lo,
{
    let there = slab_positions(x + v.x, y_lo + v.y, y_hi + v.y, z_lo + v.z, z_hi + v.z);
    let here = slab_positions(x, y_lo, y_hi, z_lo, z_hi);
    if y_hi <= y_lo {
        assert(there =~= moved(here, v));
    } else {
        lemma_slab_positions_moved(x, y_lo, y_hi - 1, z_lo, z_hi, v);
        assert(row_positions(x + v.x, y_hi - 1 + v.y, z_lo + v.z, z_hi + v.z) =~= moved(
            row_positions(x, y_hi - 1, z_lo, z_hi),
            v,
        ));
        assert(there =~= moved(here, v));
    }
}

/// Moving a box moves its positions and keeps their order.
pub proof fn lemma_box_positions_moved(lo: Point, hi: Point, v: Point)
    ensures
        box_positions(lo.plus(v), hi.plus(v)) == moved(box_positions(lo, hi), v),
    decreases hi.x - lo.x,
{
    let there = box_positions(lo.plus(v), hi.plus(v));
    let here = box_positions(lo, hi);
    if hi.x <= lo.x {
        assert(there =~= moved(here, v));
    } else {
        let less = Point { x: hi.x - 1, y: hi.y, z: hi.z };
        lemma_box_positions_moved(lo, less, v);
        assert(less.plus(v) == Point { x: hi.plus(v).x - 1, y: hi.plus(v).y, z: hi.plus(v).z });
        lemma_slab_positions_moved(hi.x - 1, lo.y, hi.y, lo.z, hi.z, v);
        assert(there =~= moved(here, v));
    }
}

/// A voxel of a moved volume, seen from a moved origin, adds what the voxel
/// added before the move.
pub proof fn lemma_voxel_mesh_moved(
    vol: Map<Point, Block>,
    p: Point,
    origin: Point,
    v: Point,
    bounds_checked: bool,
)
    ensures
        voxel_mesh(shifted(vol, v), p.plus(v), origin.plus(v), bounds_checked) == voxel_mesh(
            vol,
            p,
            origin,
            bounds_checked,
        ),
{
    let there = shifted(vol, v);
    assert(p.plus(v).minus(v) == p);
    assert(p.plus(v).minus(origin.plus(v)) == p.minus(origin));
    assert forall|face: Face|
        face_visible(there, p.plus(v), face, bounds_checked) == face_visible(
            vol,
            p,
            face,
            bounds_checked,
        ) by {
        assert(p.plus(v).plus(face.normal()).minus(v) == p.plus(face.normal()));
    }
}

/// Offset consistency: a region and a volume that are moved together by `v`
/// give the same mesh in mesh space.
pub proof fn lemma_region_mesh_moved(
    vol: Map<Point, Block>,
    lo: Point,
    hi: Point,
    v: Point,
    bounds_checked: bool,
)
    ensures
        region_mesh(shifted(vol, v), lo.plus(v), hi.plus(v), bounds_checked) == region_mesh(
            vol,
            lo,
            hi,
            bounds_checked,
        ),
{
    let here = box_positions(lo, hi);
    let there = box_positions(lo.plus(v), hi.plus(v));
    lemma_box_positions_moved(lo, hi, v);
    let f = contribution(vol, lo, bounds_checked);
    let g = contribution(shifted(vol, v), lo.plus(v), bounds_checked);
    assert forall|i: int| 0 <= i < here.len() implies g(there[i]) == f(here[i]) by {
        lemma_voxel_mesh_moved(vol, here[i], lo, v, bounds_checked);
    }
    assert(there.map_values(g) =~= here.map_values(f));
}

/// Offset consistency in the world: the meshes of a region and of the region
/// moved by `v`, over volumes moved accordingly and each placed at its region's
/// low corner, differ by the shift `v` of every vertex position and by
/// nothing else.
pub proof fn lemma_placed_mesh_moved(
    vol: Map<Point, Block>,
    lo: Point,
    hi: Point,
    v: Point,
    bounds_checked: bool,
)
    ensures
        placed(
            region_mesh(shifted(vol, v), lo.plus(v), hi.plus(v), bounds_checked),
            lo.plus(v),
        ) == placed(placed(region_mesh(vol, lo, hi, bounds_checked), lo), v),
{
    lemma_region_mesh_moved(vol, lo, hi, v, bounds_checked);
    let m = region_mesh(vol, lo, hi, bounds_checked);
    assert forall|i: int| 0 <= i < m.len() implies m[i].pos.plus(lo.plus(v)) == m[i].pos.plus(
        lo,
    ).plus(v) by {}
    assert(placed(m, lo.plus(v)) =~= placed(placed(m, lo), v));
}

/// No position of a region is passed over: what the voxel at any position of
/// the box adds stands in the region's mesh, in one piece, whatever the volume
/// stores or lacks around it.
pub proof fn lemma_region_mesh_holds_voxel(
    vol: Map<Point, Block>,
    lo: Point,
    hi: Point,
    bounds_checked: bool,
    p: Point,
)
    requires
        p.within(lo, hi),
    ensures
        exists|before: Seq<VertexModel>, after: Seq<VertexModel>|
            region_mesh(vol, lo, hi, bounds_checked) == before + voxel_mesh(
                vol,
                p,
                lo,
                bounds_checked,
            ) + after,
{
    let positions = box_positions(lo, hi);
    lemma_box_positions_complete(lo, hi, p);
    let i = choose|i: int| 0 <= i < positions.len() && positions[i] == p;
    let head = positions.take(i);
    let tail = positions.skip(i + 1);
    assert(positions =~= head.push(p) + tail);
    lemma_mesh_along_concat(vol, lo, bounds_checked, head.push(p), tail);
    lemma_mesh_along_push(vol, lo, bounds_checked, head, p);
    let before = mesh_along(vol, lo, bounds_checked, head);
    let after = mesh_along(vol, lo, bounds_checked, tail);
    assert(region_mesh(vol, lo, hi, bounds_checked) == before + voxel_mesh(
        vol,
        p,
        lo,
        bounds_checked,
    ) + after);
}

/// The mesh of a region depends on the volume and on the emission mode only
/// through what is sampled: the colour at each position of the box and the
/// visibility of its six faces.
pub proof fn lemma_region_mesh_same_reads(
    first: Map<Point, Block>,
    first_checked: bool,
    second: Map<Point, Block>,
    second_checked: bool,
    lo: Point,
    hi: Point,
)
    requires
        forall|p: Point| p.within(lo, hi) ==> color_at(first, p) == color_at(second, p),
        forall|p: Point, face: Face|
            p.within(lo, hi) ==> face_visible(first, p, face, first_checked) == face_visible(
                second,
                p,
                face,
                second_checked,
            ),
    ensures
        region_mesh(first, lo, hi, first_checked) == region_mesh(second, lo, hi, second_checked),
{
    let positions = box_positions(lo, hi);
    let f = contribution(first, lo, first_checked);
    let g = contribution(second, lo, second_checked);
    assert forall|i: int| 0 <= i < positions.len() implies f(positions[i]) == g(positions[i]) by {
        lemma_box_positions_within(lo, hi, i);
    }
    assert(positions.map_values(f) =~= positions.map_values(g));
}

} // verus!
