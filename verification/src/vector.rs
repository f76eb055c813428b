//! Fixed-point 2D vectors.

use vstd::prelude::*;

verus! {

/// Number of coordinate steps in one world unit: coordinates carry sixteen
/// fractional bits.
pub const UNIT: i64 = 65536;

/// A point or a direction in the plane, in coordinate steps.
#[derive(Clone, Copy, Debug, PartialEq, Eq, Structural)]
pub struct Vec2 {
    pub x: i64,
    pub y: i64,
}

impl Vec2 {
    /// The origin, which is also the direction of standing still.
    pub open spec fn zero() -> Vec2 {
        Vec2 { x: 0, y: 0 }
    }
}

impl Default for Vec2 {
    fn default() -> (v: Vec2)
        ensures
            v == Vec2::zero(),
    {
        Vec2 { x: 0, y: 0 }
    }
}

} // verus!
