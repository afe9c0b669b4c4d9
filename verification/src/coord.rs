//! Integer 2-D coordinates for grid cells and piece positions.

use vstd::prelude::*;

verus! {

/// A signed grid coordinate. `x` grows to the right, `y` grows upward;
/// the playfield occupies `[0, width) x [0, height)`.
#[derive(Debug, Clone, Copy, PartialEq, Eq, Structural)]
pub struct Coord {
    pub x: i32,
    pub y: i32,
}

impl Coord {
    pub fn new(x: i32, y: i32) -> (c: Coord)
        ensures
            c.x == x,
            c.y == y,
    {
        Coord { x, y }
    }

    /// The coordinate as a pair of mathematical integers, the form the
    /// specifications use.
    pub open spec fn pair(self) -> (int, int) {
        (self.x as int, self.y as int)
    }
}

} // verus!
