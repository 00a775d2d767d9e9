//! Axis-aligned rectangles (rooms) over the integer grid.

use vstd::prelude::*;

use crate::position::Position;

verus! {

/// Componentwise midpoint coordinate: `(a + b) / 2`, rounded toward zero.
pub open spec fn mid_coord(a: int, b: int) -> int {
    let s = a + b;
    if s >= 0 {
        s / 2
    } else {
        -((-s) / 2)
    }
}

/// The geometric center of a rectangle, rounded toward zero on each axis.
pub open spec fn centroid_of(r: Rectangle) -> Position {
    Position {
        x: mid_coord(r.min.x as int, r.max.x as int) as i32,
        y: mid_coord(r.min.y as int, r.max.y as int) as i32,
    }
}

/// Strict axis-aligned box intersection, with the max corner exclusive:
/// rectangles that merely share an edge do not overlap.
pub open spec fn rects_overlap(a: Rectangle, b: Rectangle) -> bool {
    a.min.x < b.max.x && b.min.x < a.max.x && a.min.y < b.max.y && b.min.y < a.max.y
}

/// An axis-aligned rectangle given by its min corner (inclusive) and max
/// corner (exclusive), `min <= max` on both axes.
#[derive(Clone, Copy, PartialEq, Eq, Structural, Debug)]
pub struct Rectangle {
    pub min: Position,
    pub max: Position,
}

impl Rectangle {
    /// Well-formedness: the max corner is not below the min corner.
    pub open spec fn wf(self) -> bool {
        self.min.x <= self.max.x && self.min.y <= self.max.y
    }

    pub fn new(min: Position, max: Position) -> (r: Rectangle)
        requires
            min.x <= max.x,
            min.y <= max.y,
        ensures
            r == (Rectangle { min, max }),
            r.wf(),
    {
        Rectangle { min, max }
    }

    pub fn min(&self) -> (r: Position)
        ensures
            r == self.min,
    {
        self.min
    }

    pub fn max(&self) -> (r: Position)
        ensures
            r == self.max,
    {
        self.max
    }

    /// The geometric center, the node position used for connectivity.
    pub fn centroid(&self) -> (r: Position)
        ensures
            r == centroid_of(*self),
            self.wf() ==> self.min.x <= r.x <= self.max.x && self.min.y <= r.y <= self.max.y,
    {
        let cx = Rectangle::mid(self.min.x, self.max.x);
        let cy = Rectangle::mid(self.min.y, self.max.y);
        Position { x: cx, y: cy }
    }

    /// Midpoint of two coordinates, rounded toward zero.
    fn mid(a: i32, b: i32) -> (r: i32)
        ensures
            r as int == mid_coord(a as int, b as int),
            a <= b ==> a <= r <= b,
            b <= a ==> b <= r <= a,
    {
        let s: i64 = a as i64 + b as i64;
        if s >= 0 {
            let h = ((s as u64) / 2u64) as i64;
            h as i32
        } else {
            let h = (((-s) as u64) / 2u64) as i64;
            (-h) as i32
        }
    }

    /// Whether this rectangle intersects another; rectangles that only share
    /// an edge or a corner do not count as overlapping.
    pub fn overlaps(&self, other: &Rectangle) -> (r: bool)
        ensures
            r == rects_overlap(*self, *other),
    {
        self.min.x < other.max.x && other.min.x < self.max.x && self.min.y < other.max.y
            && other.min.y < self.max.y
    }
}

} // verus!
