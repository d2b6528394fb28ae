//! The voxel type of terrain volumes.

use vstd::prelude::*;
use crate::vec3::Rgb;

verus! {

/// A voxel: empty space, or solid matter with a colour. A colour exists only
/// for a solid voxel.
#[derive(Clone, Copy, Debug, PartialEq, Eq, Structural, Hash)]
pub enum Block {
    Empty,
    Solid(Rgb),
}

impl Block {
    /// The colour of a solid voxel, `None` for an empty one.
    pub open spec fn color(self) -> Option<Rgb> {
        match self {
            Block::Empty => None,
            Block::Solid(col) => Some(col),
        }
    }

    pub fn empty() -> (b: Block)
        ensures
            b == Block::Empty,
    {
        Block::Empty
    }

    pub fn solid(col: Rgb) -> (b: Block)
        ensures
            b == Block::Solid(col),
    {
        Block::Solid(col)
    }

    pub fn is_empty(&self) -> (b: bool)
        ensures
            b == (*self == Block::Empty),
    {
        match self {
            Block::Empty => true,
            Block::Solid(_) => false,
        }
    }

    pub fn get_color(&self) -> (c: Option<Rgb>)
        ensures
            c == self.color(),
    {
        match self {
            Block::Empty => None,
            Block::Solid(col) => Some(*col),
        }
    }
}

} // verus!
