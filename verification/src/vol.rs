//! The read interface that every volume layout offers.

use vstd::prelude::*;
use crate::block::Block;
use crate::vec3::{Point, Rgb, Vec3};

verus! {

/// The voxel stored at `p`, `None` where the volume stores none.
pub open spec fn voxel_at(vol: Map<Point, Block>, p: Point) -> Option<Block> {
    if vol.dom().contains(p) {
        Some(vol[p])
    } else {
        None
    }
}

/// The colour that a mesher reads at `p`: that of a stored, solid voxel.
pub open spec fn color_at(vol: Map<Point, Block>, p: Point) -> Option<Rgb> {
    match voxel_at(vol, p) {
        Some(b) => b.color(),
        None => None,
    }
}

/// Whether a volume stores voxels only at positions that a `Vec3` can name.
pub open spec fn addressable_only(vol: Map<Point, Block>) -> bool {
    forall|p: Point| #[trigger] vol.dom().contains(p) ==> p.addressable()
}

/// A volume that can be read one position at a time. Its view is the map from
/// the stored positions to their voxels.
pub trait ReadVol: View<V = Map<Point, Block>> {
    /// The voxel at `pos`; `None`, never a failure, where nothing is stored.
    fn get(&self, pos: Vec3) -> (r: Option<Block>)
        ensures
            r == voxel_at(self@, pos@),
    ;

    /// Nothing is stored outside the positions that `get` can be asked for.
    proof fn lemma_addressable_only(&self)
        ensures
            addressable_only(self@),
    ;
}

} // verus!
