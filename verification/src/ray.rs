//! Rays: a point to start from and a direction to go.

use crate::vector::Vector3;
use vstd::prelude::*;

verus! {

/// A half-line in space. It cannot be changed once it is made.
#[derive(Clone, Copy, Debug)]
pub struct Ray {
    origin: Vector3,
    direction: Vector3,
}

impl Ray {
    /// Where the ray starts.
    pub closed spec fn spec_origin(self) -> Vector3 {
        self.origin
    }

    /// Where the ray points. Nothing asks for unit length.
    pub closed spec fn spec_direction(self) -> Vector3 {
        self.direction
    }

    /// The ray from `origin` along `direction`.
    pub fn new(origin: Vector3, direction: Vector3) -> (ray: Ray)
        ensures
            ray.spec_origin() == origin,
            ray.spec_direction() == direction,
    {
        Ray { origin, direction }
    }

    /// Where the ray starts.
    pub fn origin(&self) -> (o: Vector3)
        ensures
            o == self.spec_origin(),
    {
        self.origin
    }

    /// Where the ray points.
    pub fn direction(&self) -> (d: Vector3)
        ensures
            d == self.spec_direction(),
    {
        self.direction
    }
}

} // verus!
