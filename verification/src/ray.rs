//! Rays: an origin with a direction, evaluated by `origin + t * direction`.

use crate::fx::Fx;
use crate::vec3::{v_add, v_mul, Vec3, V3};
use vstd::prelude::*;

verus! {

/// The model of a ray.
pub ghost struct RayS {
    pub origin: V3,
    pub direction: V3,
}

/// The point a parameter `t` reaches along a ray.
pub open spec fn ray_at(r: RayS, t: int) -> V3 {
    v_add(r.origin, v_mul(r.direction, t))
}

/// A half-line from an origin along a direction.  The direction is not
/// required to be unit length; its magnitude takes part in the
/// parametrization.
#[derive(Clone, Copy, PartialEq, Eq, Structural, Debug)]
pub struct Ray {
    pub origin: Vec3,
    pub direction: Vec3,
}

impl View for Ray {
    type V = RayS;

    open spec fn view(&self) -> RayS {
        RayS { origin: self.origin@, direction: self.direction@ }
    }
}

impl Ray {
    /// Build a ray.
    pub fn new(origin: &Vec3, direction: &Vec3) -> (r: Ray)
        ensures
            r@ == (RayS { origin: origin@, direction: direction@ }),
    {
        Ray { direction: *direction, origin: *origin }
    }

    /// The point at parameter `t`; `t` may be negative, and callers pair
    /// it with an interval test.
    pub fn at(&self, t: Fx) -> (p: Vec3)
        ensures
            p@ == ray_at(self@, t@),
    {
        Vec3::add(&self.origin, &Vec3::mul(&self.direction, t))
    }
}

} // verus!
