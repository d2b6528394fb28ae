//! Chunked storage: the table of loaded chunks that both chunked layouts keep,
//! and how a position is split into a chunk key and an offset inside the chunk.

use vstd::prelude::*;
use crate::block::Block;
use crate::dyna::Dyna;
use crate::vec3::{Point, Size3, Vec3};
use crate::vol::voxel_at;

verus! {

/// Whether a chunk size can address anything: no side is zero.
pub open spec fn nonzero(cs: Point) -> bool {
    cs.x > 0 && cs.y > 0 && cs.z > 0
}

/// The key of the cubic chunk that holds `p`: the position divided by the chunk
/// size, rounded down on every axis.
pub open spec fn cube_key(cs: Point, p: Point) -> Point {
    Point { x: p.x / cs.x, y: p.y / cs.y, z: p.z / cs.z }
}

/// Where `p` lies inside its cubic chunk.
pub open spec fn cube_offs(cs: Point, p: Point) -> Point {
    Point { x: p.x % cs.x, y: p.y % cs.y, z: p.z % cs.z }
}

/// The key of the chunk column that holds `p`: `x` and `y` divided by the chunk
/// width, rounded down. Columns are not split along `z`.
pub open spec fn column_key(cs: Point, p: Point) -> Point {
    Point { x: p.x / cs.x, y: p.y / cs.y, z: 0 }
}

/// Where `p` lies inside its chunk column.
pub open spec fn column_offs(cs: Point, p: Point) -> Point {
    Point { x: p.x % cs.x, y: p.y % cs.y, z: p.z }
}

/// The chunk key of `p` in either layout.
pub open spec fn key_of(cs: Point, p: Point, columns: bool) -> Point {
    if columns {
        column_key(cs, p)
    } else {
        cube_key(cs, p)
    }
}

/// The offset of `p` inside its chunk in either layout.
pub open spec fn offs_of(cs: Point, p: Point, columns: bool) -> Point {
    if columns {
        column_offs(cs, p)
    } else {
        cube_offs(cs, p)
    }
}

/// The chunk that is loaded under `key`, if any.
pub open spec fn chunk_at(chunks: Map<Point, Dyna>, key: Point) -> Option<Dyna> {
    if chunks.dom().contains(key) {
        Some(chunks[key])
    } else {
        None
    }
}

/// The voxels of a chunked volume: a position holds what its chunk holds at
/// the position's offset. Nothing is stored where the chunk is not loaded, and
/// nothing at all under a chunk size with a zero side.
pub open spec fn chunked_voxels(cs: Point, chunks: Map<Point, Dyna>, columns: bool) -> Map<
    Point,
    Block,
> {
    Map::new(
        |p: Point|
            p.addressable() && nonzero(cs) && chunks.dom().contains(key_of(cs, p, columns))
                && chunks[key_of(cs, p, columns)]@.dom().contains(offs_of(cs, p, columns)),
        |p: Point| chunks[key_of(cs, p, columns)]@[offs_of(cs, p, columns)],
    )
}

/// A position whose chunk is not loaded holds nothing, in either layout.
pub proof fn lemma_unloaded_chunk_stores_nothing(
    cs: Point,
    chunks: Map<Point, Dyna>,
    columns: bool,
    p: Point,
)
    requires
        !chunks.dom().contains(key_of(cs, p, columns)),
    ensures
        !chunked_voxels(cs, chunks, columns).dom().contains(p),
{
}

/// A position whose chunk is loaded holds what the chunk holds at the
/// position's offset, whatever other chunks are loaded.
pub proof fn lemma_loaded_chunk_stores_its_voxels(
    cs: Point,
    chunks: Map<Point, Dyna>,
    columns: bool,
    p: Point,
)
    requires
        nonzero(cs),
        p.addressable(),
        chunks.dom().contains(key_of(cs, p, columns)),
    ensures
        voxel_at(chunked_voxels(cs, chunks, columns), p) == voxel_at(
            chunks[key_of(cs, p, columns)]@,
            offs_of(cs, p, columns),
        ),
{
}

/// Rounded-down division of a coordinate by a chunk side stays a coordinate.
pub proof fn lemma_div_in_range(e: int, d: int)
    requires
        i32::MIN <= e <= i32::MAX,
        1 <= d,
    ensures
        i32::MIN <= e / d <= i32::MAX,
        0 <= e % d < d,
{
    vstd::arithmetic::div_mod::lemma_fundamental_div_mod(e, d);
    vstd::arithmetic::div_mod::lemma_mod_bound(e, d);
    let q = e / d;
    let r = e % d;
    assert(i32::MIN <= q <= i32::MAX) by (nonlinear_arith)
        requires
            e == d * q + r,
            0 <= r < d,
            1 <= d,
            i32::MIN <= e <= i32::MAX,
    ;
}

/// Rounded-down quotient and remainder of a coordinate by a chunk side.
pub fn div_rem_floor(e: i32, d: u32) -> (qr: (i32, i32))
    requires
        0 < d <= i32::MAX,
    ensures
        qr.0 == e as int / d as int,
        qr.1 == e as int % d as int,
{
    proof {
        lemma_div_in_range(e as int, d as int);
    }
    let d: i32 = d as i32;
    match (e.checked_div_euclid(d), e.checked_rem_euclid(d)) {
        (Some(q), Some(r)) => (q, r),
        _ => (0, 0),
    }
}

/// Why a chunk was not taken into a table.
#[derive(Clone, Copy, Debug, PartialEq, Eq, Structural)]
pub enum ChunkError {
    /// The chunk's size is not the table's chunk size.
    WrongSize,
}

/// The loaded chunks of a chunked volume, by key. Every chunk has the table's
/// chunk size and no key occurs twice.
pub struct ChunkTable {
    cs: Size3,
    entries: Vec<(Vec3, Dyna)>,
}

spec fn keys_distinct(es: Seq<(Vec3, Dyna)>) -> bool {
    forall|i: int, j: int|
        0 <= i < es.len() && 0 <= j < es.len() && i != j ==> (#[trigger] es[i]).0 != (
        #[trigger] es[j]).0
}

spec fn all_sized(es: Seq<(Vec3, Dyna)>, cs: Size3) -> bool {
    forall|i: int| 0 <= i < es.len() ==> (#[trigger] es[i]).1.size() == cs
}

spec fn has_key(es: Seq<(Vec3, Dyna)>, k: Point) -> bool {
    exists|i: int| 0 <= i < es.len() && (#[trigger] es[i]).0@ == k
}

spec fn slot(es: Seq<(Vec3, Dyna)>, k: Point) -> int {
    choose|i: int| 0 <= i < es.len() && (#[trigger] es[i]).0@ == k
}

spec fn table_of(es: Seq<(Vec3, Dyna)>) -> Map<Point, Dyna> {
    Map::new(|k: Point| has_key(es, k), |k: Point| es[slot(es, k)].1)
}

/// With distinct keys, the entry that holds a key is the one the table maps
/// the key to.
proof fn lemma_slot_unique(es: Seq<(Vec3, Dyna)>, i: int)
    requires
        keys_distinct(es),
        0 <= i < es.len(),
    ensures
        has_key(es, es[i].0@),
        slot(es, es[i].0@) == i,
        table_of(es).dom().contains(es[i].0@),
        table_of(es)[es[i].0@] == es[i].1,
{
    let k = es[i].0@;
    assert(has_key(es, k));
    let j = slot(es, k);
    assert(0 <= j < es.len() && es[j].0@ == k);
    if j != i {
        assert(es[j].0 != es[i].0);
    }
}

impl ChunkTable {
    #[verifier::type_invariant]
    spec fn inv(self) -> bool {
        &&& self.cs.x <= i32::MAX
        &&& self.cs.y <= i32::MAX
        &&& self.cs.z <= i32::MAX
        &&& keys_distinct(self.entries@)
        &&& all_sized(self.entries@, self.cs)
    }

    /// The size of every chunk of the table.
    pub closed spec fn chunk_size(&self) -> Size3 {
        self.cs
    }

    /// The loaded chunks, by key.
    pub closed spec fn chunks(&self) -> Map<Point, Dyna> {
        table_of(self.entries@)
    }

    /// The chunk sizes that a table can have: offsets inside a chunk are `i32`
    /// coordinates.
    pub open spec fn size_fits(cs: Size3) -> bool {
        cs.x <= i32::MAX && cs.y <= i32::MAX && cs.z <= i32::MAX
    }

    /// The table without chunks.
    pub fn new(chunk_size: Size3) -> (t: ChunkTable)
        requires
            ChunkTable::size_fits(chunk_size),
        ensures
            t.chunk_size() == chunk_size,
            t.chunks() == Map::<Point, Dyna>::empty(),
    {
        let t = ChunkTable { cs: chunk_size, entries: Vec::new() };
        assert(t.chunks() =~= Map::<Point, Dyna>::empty());
        t
    }

    /// The chunk size; every side is short enough for `i32` offsets.
    pub fn get_chunk_size(&self) -> (cs: Size3)
        ensures
            cs == self.chunk_size(),
            ChunkTable::size_fits(cs),
    {
        proof {
            use_type_invariant(self);
        }
        self.cs
    }

    /// The number of loaded chunks.
    pub fn len(&self) -> (n: usize)
        ensures
            n == self.chunks().dom().len(),
            self.chunks().dom().finite(),
    {
        proof {
            use_type_invariant(self);
            lemma_table_len(self.entries@);
        }
        self.entries.len()
    }

    /// The entry that holds `key`.
    fn find(&self, key: Vec3) -> (r: Option<usize>)
        ensures
            r matches Some(i) ==> i < self.entries@.len() && self.entries@[i as int].0 == key,
            r is None ==> !has_key(self.entries@, key@),
    {
        let mut i: usize = 0;
        while i < self.entries.len()
            invariant
                i <= self.entries@.len(),
                forall|j: int| 0 <= j < i ==> (#[trigger] self.entries@[j]).0 != key,
            decreases self.entries@.len() - i,
        {
            if self.entries[i].0 == key {
                return Some(i);
            }
            i += 1;
        }
        None
    }

    /// The chunk loaded under `key`; it has the table's chunk size.
    pub fn get(&self, key: Vec3) -> (r: Option<&Dyna>)
        ensures
            r == match chunk_at(self.chunks(), key@) {
                Some(c) => Some(&c),
                None => None,
            },
            r matches Some(c) ==> c.size() == self.chunk_size(),
    {
        proof {
            use_type_invariant(self);
        }
        match self.find(key) {
            Some(i) => {
                proof {
                    lemma_slot_unique(self.entries@, i as int);
                }
                Some(&self.entries[i].1)
            },
            None => None,
        }
    }

    /// Loads `chunk` under `key` and hands back the chunk that was loaded there
    /// before. A chunk of another size than the table's is refused and the
    /// table stays as it was.
    pub fn insert(&mut self, key: Vec3, chunk: Dyna) -> (r: Result<Option<Dyna>, ChunkError>)
        ensures
            final(self).chunk_size() == old(self).chunk_size(),
            r.is_ok() <==> chunk.size() == old(self).chunk_size(),
            r matches Ok(previous) ==> final(self).chunks() == old(self).chunks().insert(
                key@,
                chunk,
            ) && previous == chunk_at(old(self).chunks(), key@),
            r.is_err() ==> final(self).chunks() == old(self).chunks(),
    {
        proof {
            use_type_invariant(&*self);
        }
        let cs = chunk.get_size();
        if cs != self.cs {
            return Err(ChunkError::WrongSize);
        }
        let found = self.find(key);
        let mut entries: Vec<(Vec3, Dyna)> = Vec::new();
        core::mem::swap(&mut self.entries, &mut entries);
        let ghost before = entries@;
        let previous = match found {
            Some(i) => {
                let (_, previous) = entries.swap_remove(i);
                proof {
                    lemma_slot_unique(before, i as int);
                }
                Some(previous)
            },
            None => None,
        };
        let ghost rest = entries@;
        entries.push((key, chunk));
        proof {
            lemma_swap_out(before, found, key);
            lemma_push_entry(rest, key, chunk);
            assert(table_of(entries@) =~= table_of(before).insert(key@, chunk));
        }
        self.entries = entries;
        Ok(previous)
    }

    /// Unloads the chunk under `key` and hands it back.
    pub fn remove(&mut self, key: Vec3) -> (r: Option<Dyna>)
        ensures
            final(self).chunk_size() == old(self).chunk_size(),
            final(self).chunks() == old(self).chunks().remove(key@),
            r == chunk_at(old(self).chunks(), key@),
    {
        proof {
            use_type_invariant(&*self);
        }
        let found = self.find(key);
        let mut entries: Vec<(Vec3, Dyna)> = Vec::new();
        core::mem::swap(&mut self.entries, &mut entries);
        let ghost before = entries@;
        let removed = match found {
            Some(i) => {
                let (_, removed) = entries.swap_remove(i);
                proof {
                    lemma_slot_unique(before, i as int);
                }
                Some(removed)
            },
            None => None,
        };
        proof {
            lemma_swap_out(before, found, key);
        }
        self.entries = entries;
        removed
    }
}

/// The entries that are left when the entry of `key`, if there is one, is
/// swapped out: what `Vec::swap_remove` leaves.
spec fn swapped_out(es: Seq<(Vec3, Dyna)>, found: Option<usize>) -> Seq<(Vec3, Dyna)> {
    match found {
        Some(i) => es.update(i as int, es.last()).drop_last(),
        None => es,
    }
}

/// Swapping the entry of `key` out of a table leaves a table with distinct
/// keys that maps every other key as before and `key` to nothing.
proof fn lemma_swap_out(es: Seq<(Vec3, Dyna)>, found: Option<usize>, key: Vec3)
    requires
        keys_distinct(es),
        found matches Some(i) ==> i < es.len() && es[i as int].0 == key,
        found is None ==> !has_key(es, key@),
    ensures
        keys_distinct(swapped_out(es, found)),
        forall|cs: Size3| all_sized(es, cs) ==> all_sized(swapped_out(es, found), cs),
        !has_key(swapped_out(es, found), key@),
        table_of(swapped_out(es, found)) == table_of(es).remove(key@),
{
    let rest = swapped_out(es, found);
    assert forall|j: int| 0 <= j < rest.len() implies exists|i: int|
        0 <= i < es.len() && es[i] == #[trigger] rest[j] && es[i].0 != key by {
        match found {
            Some(f) => {
                if j == f {
                    assert(es[es.len() - 1] == rest[j]);
                    assert(es[es.len() - 1].0 != es[f as int].0);
                } else {
                    assert(es[j] == rest[j]);
                    assert(es[j].0 != es[f as int].0);
                }
            },
            None => {
                assert(es[j] == rest[j]);
                if es[j].0 == key {
                    assert(has_key(es, key@));
                }
            },
        }
    }
    assert(keys_distinct(rest)) by {
        assert forall|a: int, b: int|
            0 <= a < rest.len() && 0 <= b < rest.len() && a != b implies (#[trigger] rest[a]).0
            != (#[trigger] rest[b]).0 by {
            match found {
                Some(f) => {
                    let ia = if a == f {
                        es.len() - 1
                    } else {
                        a
                    };
                    let ib = if b == f {
                        es.len() - 1
                    } else {
                        b
                    };
                    assert(es[ia] == rest[a] && es[ib] == rest[b]);
                    assert(es[ia].0 != es[ib].0);
                },
                None => {},
            }
        }
    }
    assert forall|cs: Size3| all_sized(es, cs) implies all_sized(rest, cs) by {
        assert forall|j: int| 0 <= j < rest.len() implies (#[trigger] rest[j]).1.size() == cs by {
            let i = choose|i: int| 0 <= i < es.len() && es[i] == rest[j] && es[i].0 != key;
            assert(es[i].1.size() == cs);
        }
    }
    assert(!has_key(rest, key@)) by {
        if has_key(rest, key@) {
            let j = slot(rest, key@);
            let i = choose|i: int| 0 <= i < es.len() && es[i] == rest[j] && es[i].0 != key;
            assert(false);
        }
    }
    assert forall|k: Point| k != key@ implies (has_key(rest, k) <==> has_key(es, k)) && (has_key(
        es,
        k,
    ) ==> rest[slot(rest, k)].1 == es[slot(es, k)].1) by {
        if has_key(rest, k) {
            let j = slot(rest, k);
            let i = choose|i: int| 0 <= i < es.len() && es[i] == rest[j] && es[i].0 != key;
            assert(es[i].0@ == k);
            lemma_slot_unique(es, i);
        }
        if has_key(es, k) {
            let i = slot(es, k);
            let j = match found {
                Some(f) => if i == es.len() - 1 {
                    f as int
                } else {
                    i
                },
                None => i,
            };
            assert(rest[j] == es[i]);
            lemma_slot_unique(rest, j);
        }
    }
    assert(!has_key(es, key@) ==> found is None) by {
        if let Some(f) = found {
            assert(es[f as int].0@ == key@);
        }
    }
    assert(table_of(rest) =~= table_of(es).remove(key@));
}

/// Pushing an entry under a key that the table lacks maps that key to the new
/// chunk and every other key as before.
proof fn lemma_push_entry(es: Seq<(Vec3, Dyna)>, key: Vec3, chunk: Dyna)
    requires
        keys_distinct(es),
        !has_key(es, key@),
    ensures
        keys_distinct(es.push((key, chunk))),
        forall|cs: Size3|
            all_sized(es, cs) && chunk.size() == cs ==> all_sized(es.push((key, chunk)), cs),
        table_of(es.push((key, chunk))) == table_of(es).insert(key@, chunk),
{
    let more = es.push((key, chunk));
    assert forall|a: int, b: int|
        0 <= a < more.len() && 0 <= b < more.len() && a != b implies (#[trigger] more[a]).0 != (
        #[trigger] more[b]).0 by {
        if a < es.len() && b < es.len() {
            assert(es[a].0 != es[b].0);
        } else if a < es.len() {
            assert(es[a] == more[a]);
            if es[a].0 == key {
                assert(has_key(es, key@));
            }
        } else {
            assert(es[b] == more[b]);
            if es[b].0 == key {
                assert(has_key(es, key@));
            }
        }
    }
    assert forall|cs: Size3| all_sized(es, cs) && chunk.size() == cs implies all_sized(
        more,
        cs,
    ) by {
        assert forall|j: int| 0 <= j < more.len() implies (#[trigger] more[j]).1.size() == cs by {
            if j < es.len() {
                assert(es[j] == more[j]);
            }
        }
    }
    lemma_slot_unique(more, es.len() as int);
    assert forall|k: Point| k != key@ implies (has_key(more, k) <==> has_key(es, k)) && (has_key(
        es,
        k,
    ) ==> more[slot(more, k)].1 == es[slot(es, k)].1) by {
        if has_key(more, k) {
            let j = slot(more, k);
            assert(es[j] == more[j]);
        }
        if has_key(es, k) {
            let i = slot(es, k);
            assert(more[i] == es[i]);
            lemma_slot_unique(more, i);
        }
    }
    assert(table_of(more) =~= table_of(es).insert(key@, chunk));
}

/// A table with distinct keys maps as many keys as it has entries.
proof fn lemma_table_len(es: Seq<(Vec3, Dyna)>)
    requires
        keys_distinct(es),
    ensures
        table_of(es).dom().finite(),
        table_of(es).dom().len() == es.len(),
    decreases es.len(),
{
    if es.len() == 0 {
        assert(table_of(es).dom() =~= Set::<Point>::empty());
    } else {
        let rest = es.drop_last();
        let last = es.last();
        assert(keys_distinct(rest)) by {
            assert forall|a: int, b: int|
                0 <= a < rest.len() && 0 <= b < rest.len() && a != b implies (
            #[trigger] rest[a]).0 != (#[trigger] rest[b]).0 by {
                assert(es[a].0 != es[b].0);
            }
        }
        assert(!has_key(rest, last.0@)) by {
            if has_key(rest, last.0@) {
                let j = slot(rest, last.0@);
                assert(es[j].0 != es[es.len() - 1].0);
            }
        }
        lemma_table_len(rest);
        lemma_push_entry(rest, last.0, last.1);
        assert(rest.push((last.0, last.1)) =~= es);
        assert(table_of(es).dom() =~= table_of(rest).dom().insert(last.0@));
    }
}

} // verus!
