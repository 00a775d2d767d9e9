//! Integer 2D coordinates and axis-aligned normalization helpers.

use vstd::prelude::*;

verus! {

/// An integer 2D grid coordinate.
#[derive(Clone, Copy, PartialEq, Eq, Structural, Hash, Debug)]
pub struct Position {
    pub x: i32,
    pub y: i32,
}

impl Position {
    pub fn new(x: i32, y: i32) -> (r: Position)
        ensures
            r.x == x,
            r.y == y,
    {
        Position { x, y }
    }

    /// Componentwise translation.
    pub fn plus(self, other: Position) -> (r: Position)
        requires
            -0x4000_0000 <= self.x + other.x <= 0x4000_0000,
            -0x4000_0000 <= self.y + other.y <= 0x4000_0000,
        ensures
            r.x == self.x + other.x,
            r.y == self.y + other.y,
    {
        Position { x: self.x + other.x, y: self.y + other.y }
    }
}

/// Normalize a pair of corners into a (min, max) pair, swapping each axis
/// independently where the second corner lies below the first.
pub fn min_max_aabb_from_rect(a: Position, b: Position) -> (r: (Position, Position))
    ensures
        r.0.x == if a.x <= b.x { a.x } else { b.x },
        r.1.x == if a.x <= b.x { b.x } else { a.x },
        r.0.y == if a.y <= b.y { a.y } else { b.y },
        r.1.y == if a.y <= b.y { b.y } else { a.y },
{
    let (mut a, mut b) = (a, b);

    if b.x < a.x {
        let t = a.x;
        a.x = b.x;
        b.x = t;
    }
    if b.y < a.y {
        let t = a.y;
        a.y = b.y;
        b.y = t;
    }

    (a, b)
}

} // verus!
