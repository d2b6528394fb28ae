//! The cube-chunked volume: an unbounded grid of cubic chunks, each a dense
//! grid of the volume's chunk size.

use vstd::prelude::*;
use crate::block::Block;
use crate::chunks::{
    chunk_at, chunked_voxels, cube_key, cube_offs, div_rem_floor, nonzero, ChunkError,
    ChunkTable,
};
use crate::dyna::Dyna;
use crate::vec3::{Point, Size3, Vec3};
use crate::vol::ReadVol;

verus! {

/// A volume of cubic chunks. A position belongs to the chunk whose key is the
/// position divided by the chunk size, rounded down on all three axes; chunks
/// that are not loaded store nothing.
pub struct VolMap3d {
    table: ChunkTable,
}

impl View for VolMap3d {
    type V = Map<Point, Block>;

    open spec fn view(&self) -> Map<Point, Block> {
        chunked_voxels(self.chunk_size()@, self.chunks(), false)
    }
}

impl VolMap3d {
    /// The size of every chunk.
    pub closed spec fn chunk_size(&self) -> Size3 {
        self.table.chunk_size()
    }

    /// The loaded chunks, by key.
    pub closed spec fn chunks(&self) -> Map<Point, Dyna> {
        self.table.chunks()
    }

    /// The volume without chunks.
    pub fn new(chunk_size: Size3) -> (v: VolMap3d)
        requires
            ChunkTable::size_fits(chunk_size),
        ensures
            v.chunk_size() == chunk_size,
            v.chunks() == Map::<Point, Dyna>::empty(),
    {
        VolMap3d { table: ChunkTable::new(chunk_size) }
    }

    /// The chunk size; every side is short enough for `i32` offsets.
    pub fn get_chunk_size(&self) -> (cs: Size3)
        ensures
            cs == self.chunk_size(),
            ChunkTable::size_fits(cs),
    {
        self.table.get_chunk_size()
    }

    /// Whether the chunk size has a zero side: such a volume stores nothing and
    /// has no chunk keys.
    pub fn has_zero_chunk_size(&self) -> (b: bool)
        ensures
            b == !nonzero(self.chunk_size()@),
    {
        let cs = self.table.get_chunk_size();
        cs.x == 0 || cs.y == 0 || cs.z == 0
    }

    /// The key of the chunk that holds `pos`.
    pub fn pos_key(&self, pos: Vec3) -> (key: Vec3)
        requires
            nonzero(self.chunk_size()@),
        ensures
            key@ == cube_key(self.chunk_size()@, pos@),
    {
        let cs = self.table.get_chunk_size();
        Vec3 {
            x: div_rem_floor(pos.x, cs.x).0,
            y: div_rem_floor(pos.y, cs.y).0,
            z: div_rem_floor(pos.z, cs.z).0,
        }
    }

    /// Where `pos` lies inside its chunk.
    pub fn chunk_offs(&self, pos: Vec3) -> (offs: Vec3)
        requires
            nonzero(self.chunk_size()@),
        ensures
            offs@ == cube_offs(self.chunk_size()@, pos@),
    {
        let cs = self.table.get_chunk_size();
        Vec3 {
            x: div_rem_floor(pos.x, cs.x).1,
            y: div_rem_floor(pos.y, cs.y).1,
            z: div_rem_floor(pos.z, cs.z).1,
        }
    }

    /// The chunk loaded under `key`, `None` where none is.
    pub fn get_key(&self, key: Vec3) -> (r: Option<&Dyna>)
        ensures
            r == match chunk_at(self.chunks(), key@) {
                Some(c) => Some(&c),
                None => None,
            },
            r matches Some(c) ==> c.size() == self.chunk_size(),
    {
        self.table.get(key)
    }

    /// Loads `chunk` under `key` and hands back the chunk that was loaded there
    /// before. A chunk of another size than the chunk size is refused and the
    /// volume stays as it was.
    pub fn insert(&mut self, key: Vec3, chunk: Dyna) -> (r: Result<Option<Dyna>, ChunkError>)
        ensures
            final(self).chunk_size() == old(self).chunk_size(),
            r.is_ok() <==> chunk.size() == old(self).chunk_size(),
            r matches Ok(previous) ==> final(self).chunks() == old(self).chunks().insert(
                key@,
                chunk,
            ) && previous == chunk_at(old(self).chunks(), key@),
            r.is_err() ==> final(self).chunks() == old(self).chunks(),
    {
        self.table.insert(key, chunk)
    }

    /// Unloads the chunk under `key` and hands it back.
    pub fn remove(&mut self, key: Vec3) -> (r: Option<Dyna>)
        ensures
            final(self).chunk_size() == old(self).chunk_size(),
            final(self).chunks() == old(self).chunks().remove(key@),
            r == chunk_at(old(self).chunks(), key@),
    {
        self.table.remove(key)
    }
}

impl ReadVol for VolMap3d {
    fn get(&self, pos: Vec3) -> (r: Option<Block>) {
        if self.has_zero_chunk_size() {
            return None;
        }
        let key = self.pos_key(pos);
        match self.get_key(key) {
            Some(chunk) => chunk.get(self.chunk_offs(pos)),
            None => None,
        }
    }

    proof fn lemma_addressable_only(&self) {
    }
}

} // verus!
