//! A two-component integer vector, used for world positions (nanometres),
//! velocities (nanometres per second), accelerations (nanometres per second
//! squared) and pixel coordinates alike.

use vstd::prelude::*;

verus! {

/// A pair of integer coordinates on the world's (or the viewport's) plane.
#[derive(Clone, Copy, Debug, PartialEq, Eq, Structural)]
pub struct Vec2 {
    pub x: i128,
    pub y: i128,
}

impl Vec2 {
    /// The vector with the given components.
    pub fn new(x: i128, y: i128) -> (r: Vec2)
        ensures
            r.x == x,
            r.y == y,
    {
        Vec2 { x, y }
    }

    /// The zero vector.
    pub fn zero() -> (r: Vec2)
        ensures
            r.x == 0,
            r.y == 0,
    {
        Vec2 { x: 0, y: 0 }
    }

    /// Both components have magnitude at most `limit`.
    pub open spec fn within(self, limit: int) -> bool {
        -limit <= self.x <= limit && -limit <= self.y <= limit
    }
}

} // verus!
