//! The ray type: a parametric half-line from an origin.

use crate::scalars::Fx;
use crate::vectors::{v3_add_spec, v3_scale_spec, Vector3};
use vstd::prelude::*;

verus! {

/// A ray: the points `origin + t * direction` for parameters `t >= 0`.
/// The direction need not have unit length; the sphere intersection and
/// the reflect and refract laws normalize where they assume it.
#[derive(Clone, Copy, PartialEq, Eq, Structural, Debug)]
pub struct Ray {
    pub origin: Vector3,
    pub direction: Vector3,
}

/// The point the ray reaches at parameter `t`.
pub open spec fn ray_at_spec(r: Ray, t: int) -> Vector3 {
    v3_add_spec(r.origin, v3_scale_spec(r.direction, t))
}

impl Ray {
    /// The ray with the given origin and direction.
    pub fn new(origin: Vector3, direction: Vector3) -> (r: Ray)
        ensures
            r == (Ray { origin, direction }),
    {
        Ray { origin, direction }
    }

    /// The point this ray reaches at parameter `t`.
    pub fn at(&self, t: Fx) -> (p: Vector3)
        ensures
            p == ray_at_spec(*self, t@),
    {
        self.origin.add(self.direction.scale(t))
    }
}

} // verus!
