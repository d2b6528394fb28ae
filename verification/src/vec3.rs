//! Integer coordinates, extents, regions and colours.

use vstd::prelude::*;

verus! {

/// A point of the unbounded integer grid: the mathematical model of a
/// coordinate.
pub struct Point {
    pub x: int,
    pub y: int,
    pub z: int,
}

impl Point {
    /// Componentwise sum.
    pub open spec fn plus(self, other: Point) -> Point {
        Point { x: self.x + other.x, y: self.y + other.y, z: self.z + other.z }
    }

    /// Componentwise difference.
    pub open spec fn minus(self, other: Point) -> Point {
        Point { x: self.x - other.x, y: self.y - other.y, z: self.z - other.z }
    }

    /// Whether every component fits a machine coordinate.
    pub open spec fn addressable(self) -> bool {
        &&& i32::MIN <= self.x <= i32::MAX
        &&& i32::MIN <= self.y <= i32::MAX
        &&& i32::MIN <= self.z <= i32::MAX
    }

    /// Whether the point lies in the half-open box `[lo, hi)`.
    pub open spec fn within(self, lo: Point, hi: Point) -> bool {
        &&& lo.x <= self.x < hi.x
        &&& lo.y <= self.y < hi.y
        &&& lo.z <= self.z < hi.z
    }
}

/// An integer 3-vector: an absolute position or, after subtraction, an offset
/// in mesh space.
#[derive(Clone, Copy, Debug, PartialEq, Eq, Structural, Hash)]
pub struct Vec3 {
    pub x: i32,
    pub y: i32,
    pub z: i32,
}

impl View for Vec3 {
    type V = Point;

    open spec fn view(&self) -> Point {
        Point { x: self.x as int, y: self.y as int, z: self.z as int }
    }
}

impl Vec3 {
    pub fn new(x: i32, y: i32, z: i32) -> (v: Vec3)
        ensures
            v.x == x,
            v.y == y,
            v.z == z,
    {
        Vec3 { x, y, z }
    }

    /// Componentwise sum, or `None` when a component leaves the `i32` range.
    pub fn checked_add(self, other: Vec3) -> (r: Option<Vec3>)
        ensures
            r.is_some() <==> self@.plus(other@).addressable(),
            r matches Some(v) ==> v@ == self@.plus(other@),
    {
        match (
            self.x.checked_add(other.x),
            self.y.checked_add(other.y),
            self.z.checked_add(other.z),
        ) {
            (Some(x), Some(y), Some(z)) => Some(Vec3 { x, y, z }),
            _ => None,
        }
    }

    /// Componentwise difference, or `None` when a component leaves the `i32`
    /// range.
    pub fn checked_sub(self, other: Vec3) -> (r: Option<Vec3>)
        ensures
            r.is_some() <==> self@.minus(other@).addressable(),
            r matches Some(v) ==> v@ == self@.minus(other@),
    {
        match (
            self.x.checked_sub(other.x),
            self.y.checked_sub(other.y),
            self.z.checked_sub(other.z),
        ) {
            (Some(x), Some(y), Some(z)) => Some(Vec3 { x, y, z }),
            _ => None,
        }
    }
}

/// An integer 2-vector: the key of a chunk column.
#[derive(Clone, Copy, Debug, PartialEq, Eq, Structural, Hash)]
pub struct Vec2 {
    pub x: i32,
    pub y: i32,
}

impl View for Vec2 {
    type V = Point;

    /// The point of the plane `z == 0` above which the column stands.
    open spec fn view(&self) -> Point {
        Point { x: self.x as int, y: self.y as int, z: 0 }
    }
}

impl Vec2 {
    pub fn new(x: i32, y: i32) -> (v: Vec2)
        ensures
            v.x == x,
            v.y == y,
    {
        Vec2 { x, y }
    }
}

/// The dimensions of a dense grid.
#[derive(Clone, Copy, Debug, PartialEq, Eq, Structural, Hash)]
pub struct Size3 {
    pub x: u32,
    pub y: u32,
    pub z: u32,
}

impl View for Size3 {
    type V = Point;

    open spec fn view(&self) -> Point {
        Point { x: self.x as int, y: self.y as int, z: self.z as int }
    }
}

/// An 8-bit colour, as voxels store it.
#[derive(Clone, Copy, Debug, PartialEq, Eq, Structural, Hash)]
pub struct Rgb {
    pub r: u8,
    pub g: u8,
    pub b: u8,
}

/// An axis-aligned box of grid positions, `min` inclusive and `max` exclusive.
#[derive(Clone, Copy, Debug, PartialEq, Eq, Structural, Hash)]
pub struct Aabb {
    pub min: Vec3,
    pub max: Vec3,
}

impl Aabb {
    /// `min <= max` on every axis.
    pub open spec fn valid(self) -> bool {
        &&& self.min.x <= self.max.x
        &&& self.min.y <= self.max.y
        &&& self.min.z <= self.max.z
    }

    /// Whether the extent on every axis fits an `i32`, so that offsets from
    /// `min` to any point of the box do.
    pub open spec fn spans_i32(self) -> bool {
        &&& self.max.x - self.min.x <= i32::MAX
        &&& self.max.y - self.min.y <= i32::MAX
        &&& self.max.z - self.min.z <= i32::MAX
    }

    pub fn is_valid(&self) -> (b: bool)
        ensures
            b == self.valid(),
    {
        self.min.x <= self.max.x && self.min.y <= self.max.y && self.min.z <= self.max.z
    }

    /// Whether the extent on every axis fits an `i32`.
    pub fn offsets_fit(&self) -> (b: bool)
        ensures
            b == self.spans_i32(),
    {
        self.max.x as i64 - self.min.x as i64 <= i32::MAX as i64 && self.max.y as i64
            - self.min.y as i64 <= i32::MAX as i64 && self.max.z as i64 - self.min.z as i64
            <= i32::MAX as i64
    }

    /// Whether the box holds no position: it is empty on some axis.
    pub fn is_empty(&self) -> (b: bool)
        ensures
            b == (self.max.x <= self.min.x || self.max.y <= self.min.y || self.max.z
                <= self.min.z),
    {
        self.max.x <= self.min.x || self.max.y <= self.min.y || self.max.z <= self.min.z
    }

    /// The box moved inwards by `margin` on both sides of every axis, or `None`
    /// where a corner of the result is no `Vec3`.
    pub fn trimmed(&self, margin: Vec3) -> (r: Option<Aabb>)
        ensures
            r matches Some(inner) ==> inner.min@ == self.min@.plus(margin@) && inner.max@
                == self.max@.minus(margin@),
            r.is_some() <==> self.min@.plus(margin@).addressable() && self.max@.minus(
                margin@,
            ).addressable(),
    {
        match (self.min.checked_add(margin), self.max.checked_sub(margin)) {
            (Some(min), Some(max)) => Some(Aabb { min, max }),
            _ => None,
        }
    }
}

} // verus!
