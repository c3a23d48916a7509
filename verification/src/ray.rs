//! Rays: an origin and a direction, with parametric point evaluation.

use vstd::prelude::*;

use crate::fixed::FX_MIN;
use crate::vec3::{v_add_spec, v_scale_spec, v_zero, Vec3};

verus! {

#[derive(Clone, Copy, PartialEq, Eq, Structural, Debug)]
pub struct Ray {
    pub origin: Vec3,
    pub direction: Vec3,
}

/// A vector whose components are all representable (negation stays in
/// range); every vector the library itself produces satisfies this.
pub open spec fn v_ok(v: Vec3) -> bool {
    v.x >= FX_MIN && v.y >= FX_MIN && v.z >= FX_MIN
}

/// `at(t)`: the origin plus `t` times the direction.
pub open spec fn ray_at_spec(r: Ray, t: i64) -> Vec3 {
    v_add_spec(r.origin, v_scale_spec(r.direction, t))
}

impl Ray {
    pub fn new(origin: &Vec3, direction: &Vec3) -> (r: Ray)
        ensures
            r.origin == *origin,
            r.direction == *direction,
    {
        Ray { origin: *origin, direction: *direction }
    }

    pub fn direction(&self) -> (d: Vec3)
        ensures
            d == self.direction,
    {
        self.direction
    }

    pub fn at(&self, t: i64) -> (p: Vec3)
        ensures
            p == ray_at_spec(*self, t),
    {
        self.origin.plus(self.direction.scale(t))
    }
}

impl Default for Ray {
    fn default() -> (r: Ray)
        ensures
            r.origin == v_zero(),
            r.direction == v_zero(),
    {
        Ray { origin: Vec3::zero(), direction: Vec3::zero() }
    }
}

/// Evaluating a ray at parameter zero gives back its origin, and the
/// evaluation is affine in the parameter: the origin plus the scaled
/// direction, which is what `ray_at_spec` states for every `t`.
pub proof fn lemma_ray_at_zero(r: Ray)
    requires
        v_ok(r.origin),
    ensures
        ray_at_spec(r, 0) == r.origin,
{
}

} // verus!
