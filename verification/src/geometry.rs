//! Points and vectors of the plane. A coordinate is a single-precision
//! number held as its IEEE 754 bit pattern, which is what travels on the
//! wire; arithmetic on coordinates is left to the caller.

use vstd::prelude::*;

verus! {

/// The bit pattern of positive zero.
pub const ZERO_BITS: u32 = 0;

/// A displacement or a velocity.
#[derive(Clone, Copy, Debug, PartialEq, Eq, Structural)]
pub struct Vec2 {
    pub x: u32,
    pub y: u32,
}

/// A position.
#[derive(Clone, Copy, Debug, PartialEq, Eq, Structural)]
pub struct Pos2 {
    pub x: u32,
    pub y: u32,
}

impl Vec2 {
    /// The vector with the given coordinates.
    pub fn new(x: u32, y: u32) -> (v: Vec2)
        ensures
            v == (Vec2 { x, y }),
    {
        Vec2 { x, y }
    }

    /// The vector whose coordinates are both positive zero.
    pub open spec fn spec_zero() -> Vec2 {
        Vec2 { x: ZERO_BITS, y: ZERO_BITS }
    }

    /// The vector whose coordinates are both positive zero.
    #[verifier::when_used_as_spec(spec_zero)]
    pub fn zero() -> (v: Vec2)
        ensures
            v == Vec2::spec_zero(),
    {
        Vec2 { x: ZERO_BITS, y: ZERO_BITS }
    }
}

impl Pos2 {
    /// The point with the given coordinates.
    pub fn new(x: u32, y: u32) -> (p: Pos2)
        ensures
            p == (Pos2 { x, y }),
    {
        Pos2 { x, y }
    }

    /// The vector from the origin to this point.
    pub open spec fn spec_into_fixed(self) -> Vec2 {
        Vec2 { x: self.x, y: self.y }
    }

    /// The vector from the origin to this point.
    #[verifier::when_used_as_spec(spec_into_fixed)]
    pub fn into_fixed(self) -> (v: Vec2)
        ensures
            v == self.spec_into_fixed(),
    {
        Vec2 { x: self.x, y: self.y }
    }

    /// The point that `v` leads to from the origin.
    pub open spec fn spec_from_fixed(v: Vec2) -> Pos2 {
        Pos2 { x: v.x, y: v.y }
    }

    /// The point that `v` leads to from the origin.
    #[verifier::when_used_as_spec(spec_from_fixed)]
    pub fn from_fixed(v: Vec2) -> (p: Pos2)
        ensures
            p == Pos2::spec_from_fixed(v),
    {
        Pos2 { x: v.x, y: v.y }
    }
}

} // verus!
