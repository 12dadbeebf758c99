//! Three-component vectors: positions, directions and colours in the making.

use crate::scalar::Scalar;
use vstd::prelude::*;

verus! {

/// A vector of three single-precision components.
#[derive(Clone, Copy, Debug)]
pub struct Vector3 {
    pub x: Scalar,
    pub y: Scalar,
    pub z: Scalar,
}

impl Vector3 {
    /// The vector with the given components.
    pub fn new(x: Scalar, y: Scalar, z: Scalar) -> (v: Vector3)
        ensures
            v == (Vector3 { x, y, z }),
    {
        Vector3 { x, y, z }
    }

    /// The component at `index`: `x`, `y`, `z` for 0, 1, 2.
    pub open spec fn spec_component(self, index: int) -> Scalar {
        if index == 0 {
            self.x
        } else if index == 1 {
            self.y
        } else {
            self.z
        }
    }
}

} // verus!
