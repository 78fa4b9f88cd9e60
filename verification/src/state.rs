//! Points of phase space.

use vstd::prelude::*;
use crate::scalar::Scalar;

verus! {

/// A point of three-dimensional phase space.
#[derive(Clone, Copy, Debug, PartialEq, Eq, Structural)]
pub struct State {
    pub x: Scalar,
    pub y: Scalar,
    pub z: Scalar,
}

/// A point of a trajectory; the same thing as a [`State`].
pub type Point = State;

impl State {
    pub fn new(x: Scalar, y: Scalar, z: Scalar) -> (s: State)
        ensures
            s == (State { x, y, z }),
    {
        State { x, y, z }
    }

    /// All three coordinates are finite numbers.
    pub open spec fn is_finite(self) -> bool {
        self.x.is_finite() && self.y.is_finite() && self.z.is_finite()
    }
}

} // verus!
