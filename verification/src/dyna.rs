//! The dense bounded volume: one contiguous grid of a known size.

use vstd::prelude::*;
use vstd::arithmetic::div_mod::lemma_fundamental_div_mod_converse;
use crate::block::Block;
use crate::vec3::{Point, Size3, Vec3};
use crate::vol::{voxel_at, ReadVol};

verus! {

/// The origin of a grid.
pub open spec fn origin() -> Point {
    Point { x: 0, y: 0, z: 0 }
}

/// Where the voxel at `p` lies in the storage of a grid of size `sz`: `z` runs
/// fastest, `x` slowest.
pub open spec fn cell_index(sz: Point, p: Point) -> int {
    (p.x * sz.y + p.y) * sz.z + p.z
}

/// The number of voxels in a grid of size `sz`.
pub open spec fn cell_count(sz: Point) -> int {
    sz.x * sz.y * sz.z
}

/// Every position inside a grid has its own place in the storage.
pub proof fn lemma_cell_index_bounds(sz: Point, p: Point)
    requires
        p.within(origin(), sz),
    ensures
        0 <= p.x * sz.y + p.y < sz.x * sz.y,
        sz.x * sz.y <= cell_count(sz),
        0 <= cell_index(sz, p) < cell_count(sz),
{
    assert(0 <= p.x * sz.y + p.y < sz.x * sz.y) by (nonlinear_arith)
        requires
            0 <= p.x < sz.x,
            0 <= p.y < sz.y,
    ;
    let row = p.x * sz.y + p.y;
    let rows = sz.x * sz.y;
    assert(0 <= row * sz.z + p.z < rows * sz.z && rows <= rows * sz.z) by (nonlinear_arith)
        requires
            0 <= row < rows,
            0 <= p.z < sz.z,
    ;
}

/// Two positions inside a grid that share a place in the storage are one
/// position.
pub proof fn lemma_cell_index_injective(sz: Point, p: Point, q: Point)
    requires
        p.within(origin(), sz),
        q.within(origin(), sz),
        cell_index(sz, p) == cell_index(sz, q),
    ensures
        p == q,
{
    let i = cell_index(sz, p);
    lemma_fundamental_div_mod_converse(i, sz.z, p.x * sz.y + p.y, p.z);
    lemma_fundamental_div_mod_converse(i, sz.z, q.x * sz.y + q.y, q.z);
    let row = i / sz.z;
    lemma_fundamental_div_mod_converse(row, sz.y, p.x, p.y);
    lemma_fundamental_div_mod_converse(row, sz.y, q.x, q.y);
}

/// Why a write to a dense volume was refused.
#[derive(Clone, Copy, Debug, PartialEq, Eq, Structural)]
pub enum DynaError {
    OutOfBounds,
}

/// A dense grid of voxels with positions `0 <= p < size` on every axis.
pub struct Dyna {
    sz: Size3,
    vox: Vec<Block>,
}

impl View for Dyna {
    type V = Map<Point, Block>;

    closed spec fn view(&self) -> Map<Point, Block> {
        Map::new(
            |p: Point| p.within(origin(), self.sz@) && p.addressable(),
            |p: Point| self.vox@[cell_index(self.sz@, p)],
        )
    }
}

impl Dyna {
    #[verifier::type_invariant]
    spec fn inv(self) -> bool {
        &&& self.sz.x <= i32::MAX
        &&& self.sz.y <= i32::MAX
        &&& self.sz.z <= i32::MAX
        &&& self.vox@.len() == cell_count(self.sz@)
    }

    /// The size that the grid was made with.
    pub closed spec fn size(&self) -> Size3 {
        self.sz
    }

    /// The sizes that a grid can have: positions must fit `i32` coordinates and
    /// the voxels a `Vec`.
    pub open spec fn size_fits(sz: Size3) -> bool {
        &&& sz.x <= i32::MAX
        &&& sz.y <= i32::MAX
        &&& sz.z <= i32::MAX
        &&& cell_count(sz@) <= usize::MAX
    }

    /// A grid stores a voxel at exactly the positions inside its size.
    pub proof fn lemma_dom(&self)
        ensures
            forall|p: Point|
                self@.dom().contains(p) <==> p.within(origin(), self.size()@) && p.addressable(),
    {
    }

    /// A grid of size `sz` that holds `vox` at every position.
    pub fn filled(sz: Size3, vox: Block) -> (d: Dyna)
        requires
            Dyna::size_fits(sz),
        ensures
            d.size() == sz,
            d@ == Map::new(|p: Point| p.within(origin(), sz@), |p: Point| vox),
    {
        proof {
            assert(sz.x * sz.y >= 0 && sz.x * sz.y * sz.z >= 0) by (nonlinear_arith)
                requires
                    sz.x >= 0,
                    sz.y >= 0,
                    sz.z >= 0,
            ;
        }
        let mut n: usize = 0;
        if sz.x != 0 && sz.y != 0 && sz.z != 0 {
            proof {
                assert(sz.x * sz.y <= sz.x * sz.y * sz.z) by (nonlinear_arith)
                    requires
                        sz.x >= 0,
                        sz.y >= 0,
                        sz.z >= 1,
                ;
            }
            n = sz.x as usize * sz.y as usize * sz.z as usize;
        } else {
            proof {
                assert(sz.x * sz.y * sz.z == 0) by (nonlinear_arith)
                    requires
                        sz.x == 0 || sz.y == 0 || sz.z == 0,
                ;
            }
        }
        let mut cells: Vec<Block> = Vec::new();
        let mut i: usize = 0;
        while i < n
            invariant
                i <= n,
                cells@.len() == i,
                forall|k: int| 0 <= k < i ==> cells@[k] == vox,
            decreases n - i,
        {
            cells.push(vox);
            i += 1;
        }
        let d = Dyna { sz, vox: cells };
        proof {
            assert forall|p: Point| p.within(origin(), sz@) implies p.addressable() && 0
                <= cell_index(sz@, p) < n by {
                lemma_cell_index_bounds(sz@, p);
            }
            assert(d@ =~= Map::new(|p: Point| p.within(origin(), sz@), |p: Point| vox));
        }
        d
    }

    /// A grid of size `sz` that holds `vox` at every position, or `None` where
    /// a grid cannot have that size.
    pub fn try_filled(sz: Size3, vox: Block) -> (r: Option<Dyna>)
        ensures
            r.is_some() <==> Dyna::size_fits(sz),
            r matches Some(d) ==> d.size() == sz && d@ == Map::new(
                |p: Point| p.within(origin(), sz@),
                |p: Point| vox,
            ),
    {
        if sz.x > i32::MAX as u32 || sz.y > i32::MAX as u32 || sz.z > i32::MAX as u32 {
            return None;
        }
        if sz.x == 0 || sz.y == 0 || sz.z == 0 {
            proof {
                assert(sz.x * sz.y * sz.z == 0) by (nonlinear_arith)
                    requires
                        sz.x == 0 || sz.y == 0 || sz.z == 0,
                ;
            }
            return Some(Dyna::filled(sz, vox));
        }
        proof {
            assert(sz.x * sz.y <= sz.x * sz.y * sz.z) by (nonlinear_arith)
                requires
                    sz.x >= 1,
                    sz.y >= 1,
                    sz.z >= 1,
            ;
        }
        match (sz.x as usize).checked_mul(sz.y as usize) {
            Some(rows) => match rows.checked_mul(sz.z as usize) {
                Some(_) => Some(Dyna::filled(sz, vox)),
                None => None,
            },
            None => None,
        }
    }

    /// The size of the grid; every side is short enough for `i32` positions.
    pub fn get_size(&self) -> (sz: Size3)
        ensures
            sz == self.size(),
            Dyna::size_fits(sz),
    {
        proof {
            use_type_invariant(self);
            assert(self.vox.len() == self.vox@.len());
        }
        self.sz
    }

    /// Whether `pos` lies inside the grid.
    pub fn contains(&self, pos: Vec3) -> (b: bool)
        ensures
            b == pos@.within(origin(), self.size()@),
    {
        0 <= pos.x && 0 <= pos.y && 0 <= pos.z && (pos.x as u32) < self.sz.x && (pos.y as u32)
            < self.sz.y && (pos.z as u32) < self.sz.z
    }

    /// The place of `pos` in the storage.
    fn index_at(&self, pos: Vec3) -> (i: usize)
        requires
            pos@.within(origin(), self.size()@),
        ensures
            i == cell_index(self.size()@, pos@),
            i < self.vox@.len(),
    {
        let x: usize = pos.x as usize;
        let y: usize = pos.y as usize;
        let z: usize = pos.z as usize;
        let sy: usize = self.sz.y as usize;
        let sz: usize = self.sz.z as usize;
        proof {
            use_type_invariant(self);
            lemma_cell_index_bounds(self.sz@, pos@);
            assert(self.vox.len() == self.vox@.len());
            assert(x * sy == pos.x * self.sz.y);
            assert(0 <= x * sy && 0 <= (x * sy + y) * sz) by (nonlinear_arith);
        }
        (x * sy + y) * sz + z
    }

    /// The voxel at a position inside the grid.
    pub fn at(&self, pos: Vec3) -> (b: Block)
        requires
            pos@.within(origin(), self.size()@),
        ensures
            voxel_at(self@, pos@) == Some(b),
    {
        let i: usize = self.index_at(pos);
        self.vox[i]
    }

    /// Stores `vox` at `pos`; a position outside the grid is refused and
    /// nothing changes.
    pub fn set(&mut self, pos: Vec3, vox: Block) -> (r: Result<(), DynaError>)
        ensures
            final(self).size() == old(self).size(),
            r.is_ok() <==> pos@.within(origin(), old(self).size()@),
            r.is_ok() ==> final(self)@ == old(self)@.insert(pos@, vox),
            r.is_err() ==> final(self)@ == old(self)@,
    {
        if !self.contains(pos) {
            return Err(DynaError::OutOfBounds);
        }
        let i: usize = self.index_at(pos);
        proof {
            use_type_invariant(&*self);
        }
        self.vox[i] = vox;
        proof {
            assert forall|q: Point|
                q.within(origin(), self.sz@) && q != pos@ implies cell_index(self.sz@, q)
                != i by {
                if cell_index(self.sz@, q) == i {
                    lemma_cell_index_injective(self.sz@, q, pos@);
                }
            }
            assert forall|q: Point| q.within(origin(), self.sz@) implies 0 <= cell_index(
                self.sz@,
                q,
            ) < self.vox@.len() by {
                lemma_cell_index_bounds(self.sz@, q);
            }
            assert(self@ =~= old(self)@.insert(pos@, vox));
        }
        Ok(())
    }
}

impl ReadVol for Dyna {
    fn get(&self, pos: Vec3) -> (r: Option<Block>) {
        if self.contains(pos) {
            Some(self.at(pos))
        } else {
            None
        }
    }

    proof fn lemma_addressable_only(&self) {
    }
}

} // verus!
