//! The column-chunked volume: an unbounded plane of chunk columns, each a dense
//! grid of the volume's chunk size.

use vstd::prelude::*;
use crate::block::Block;
use crate::chunks::{
    chunk_at, chunked_voxels, column_key, column_offs, div_rem_floor, nonzero, ChunkError,
    ChunkTable,
};
use crate::dyna::Dyna;
use crate::vec3::{Point, Size3, Vec2, Vec3};
use crate::vol::ReadVol;

verus! {

/// A volume of chunk columns. A position belongs to the column whose key is its
/// `x` and `y` divided by the chunk width, rounded down; inside the column `z`
/// is the offset as it stands. Columns that are not loaded store nothing.
pub struct VolMap2d {
    table: ChunkTable,
}

impl View for VolMap2d {
    type V = Map<Point, Block>;

    open spec fn view(&self) -> Map<Point, Block> {
        chunked_voxels(self.chunk_size()@, self.chunks(), true)
    }
}

impl VolMap2d {
    /// The size of every chunk.
    pub closed spec fn chunk_size(&self) -> Size3 {
        self.table.chunk_size()
    }

    /// The loaded chunks, by key.
    pub closed spec fn chunks(&self) -> Map<Point, Dyna> {
        self.table.chunks()
    }

    /// The volume without chunks.
    pub fn new(chunk_size: Size3) -> (v: VolMap2d)
        requires
            ChunkTable::size_fits(chunk_size),
        ensures
            v.chunk_size() == chunk_size,
            v.chunks() == Map::<Point, Dyna>::empty(),
    {
        VolMap2d { table: ChunkTable::new(chunk_size) }
    }

    /// The chunk size; every side is short enough for `i32` offsets.
    pub fn get_chunk_size(&self) -> (cs: Size3)
        ensures
            cs == self.chunk_size(),
            ChunkTable::size_fits(cs),
    {
        self.table.get_chunk_size()
    }

    /// Whether the chunk size has a zero side: such a volume stores nothing and
    /// has no chunk keys.
    pub fn has_zero_chunk_size(&self) -> (b: bool)
        ensures
            b == !nonzero(self.chunk_size()@),
    {
        let cs = self.table.get_chunk_size();
        cs.x == 0 || cs.y == 0 || cs.z == 0
    }

    /// The key of the column that holds `pos`.
    pub fn pos_key(&self, pos: Vec3) -> (key: Vec2)
        requires
            nonzero(self.chunk_size()@),
        ensures
            key@ == column_key(self.chunk_size()@, pos@),
    {
        let cs = self.table.get_chunk_size();
        Vec2 { x: div_rem_floor(pos.x, cs.x).0, y: div_rem_floor(pos.y, cs.y).0 }
    }

    /// Where `pos` lies inside its column.
    pub fn chunk_offs(&self, pos: Vec3) -> (offs: Vec3)
        requires
            nonzero(self.chunk_size()@),
        ensures
            offs@ == column_offs(self.chunk_size()@, pos@),
    {
        let cs = self.table.get_chunk_size();
        Vec3 { x: div_rem_floor(pos.x, cs.x).1, y: div_rem_floor(pos.y, cs.y).1, z: pos.z }
    }

    /// The chunk loaded under `key`, `None` where none is.
    pub fn get_key(&self, key: Vec2) -> (r: Option<&Dyna>)
        ensures
            r == match chunk_at(self.chunks(), key@) {
                Some(c) => Some(&c),
                None => None,
            },
            r matches Some(c) ==> c.size() == self.chunk_size(),
    {
        self.table.get(Vec3 { x: key.x, y: key.y, z: 0 })
    }

    /// Loads `chunk` under `key` and hands back the chunk that was loaded there
    /// before. A chunk of another size than the chunk size is refused and the
    /// volume stays as it was.
    pub fn insert(&mut self, key: Vec2, chunk: Dyna) -> (r: Result<Option<Dyna>, ChunkError>)
        ensures
            final(self).chunk_size() == old(self).chunk_size(),
            r.is_ok() <==> chunk.size() == old(self).chunk_size(),
            r matches Ok(previous) ==> final(self).chunks() == old(self).chunks().insert(
                key@,
                chunk,
            ) && previous == chunk_at(old(self).chunks(), key@),
            r.is_err() ==> final(self).chunks() == old(self).chunks(),
    {
        self.table.insert(Vec3 { x: key.x, y: key.y, z: 0 }, chunk)
    }

    /// Unloads the chunk under `key` and hands it back.
    pub fn remove(&mut self, key: Vec2) -> (r: Option<Dyna>)
        ensures
            final(self).chunk_size() == old(self).chunk_size(),
            final(self).chunks() == old(self).chunks().remove(key@),
            r == chunk_at(old(self).chunks(), key@),
    {
        self.table.remove(Vec3 { x: key.x, y: key.y, z: 0 })
    }
}

impl ReadVol for VolMap2d {
    fn get(&self, pos: Vec3) -> (r: Option<Block>) {
        if self.has_zero_chunk_size() {
            return None;
        }
        let key = self.pos_key(pos);
        match self.get_key(key) {
            Some(chunk) => chunk.get(self.chunk_offs(pos)),
            None => None,
        }
    }

    proof fn lemma_addressable_only(&self) {
    }
}

} // verus!
