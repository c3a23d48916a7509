//! The sphere primitive and analytic ray intersection.

use vstd::prelude::*;

use crate::fixed::{fx_add, fx_div, fx_mul, fx_neg, fx_sqrt, fx_sub};
use crate::fixed::{fx_add_spec, fx_div_spec, fx_mul_spec, fx_neg_spec, fx_sqrt_spec, fx_sub_spec};
use crate::material::{Diffuse, MaterialKind};
use crate::ray::{ray_at_spec, Ray};
use crate::vec3::{v_div_scalar_spec, v_dot_spec, v_sub_spec, v_zero, Vec3};

verus! {

/// The outcome of testing a ray against geometry.  An empty record has
/// `is_hit` false and carries a black diffuse placeholder material.
#[derive(Clone, Copy, PartialEq, Eq, Structural, Debug)]
pub struct HitResult {
    pub is_hit: bool,
    pub position: Vec3,
    pub normal: Vec3,
    pub material: MaterialKind,
    pub t: i64,
}

/// The non-hit record.
pub open spec fn miss_spec() -> HitResult {
    HitResult {
        is_hit: false,
        position: v_zero(),
        normal: v_zero(),
        material: MaterialKind::Diffuse(Diffuse { color: v_zero() }),
        t: 0,
    }
}

impl Default for HitResult {
    fn default() -> (r: HitResult)
        ensures
            r == miss_spec(),
    {
        HitResult {
            is_hit: false,
            position: Vec3::zero(),
            normal: Vec3::zero(),
            material: MaterialKind::Diffuse(Diffuse { color: Vec3::zero() }),
            t: 0,
        }
    }
}

/// A sphere: center, radius and material.
#[derive(Clone, Copy, PartialEq, Eq, Structural, Debug)]
pub struct Sphere {
    pub center: Vec3,
    pub radius: i64,
    pub material: MaterialKind,
}

/// The record a sphere reports for a hit at parameter `t`: the position on
/// the ray, and the outward normal `(position - center) / radius`.
pub open spec fn sphere_hit_record(s: Sphere, ray: Ray, t: i64) -> HitResult {
    let pos = ray_at_spec(ray, t);
    HitResult {
        is_hit: true,
        position: pos,
        normal: v_div_scalar_spec(v_sub_spec(pos, s.center), s.radius),
        material: s.material,
        t: t,
    }
}

/// The quadratic's discriminant `b^2 - 4 a c` for a sphere and a ray; it
/// does not depend on the queried interval.
pub open spec fn sphere_discriminant_spec(s: Sphere, ray: Ray) -> i64 {
    let oc = v_sub_spec(ray.origin, s.center);
    let half_b = v_dot_spec(ray.direction, oc);
    let a = v_dot_spec(ray.direction, ray.direction);
    let b = fx_add_spec(half_b, half_b);
    let c = fx_sub_spec(v_dot_spec(oc, oc), fx_mul_spec(s.radius, s.radius));
    let ac = fx_mul_spec(a, c);
    let ac2 = fx_add_spec(ac, ac);
    let four_ac = fx_add_spec(ac2, ac2);
    fx_sub_spec(fx_mul_spec(b, b), four_ac)
}

/// Analytic ray/sphere intersection over `[min_t, max_t]`: solve
/// `a t^2 + b t + c = 0` with `a = d.d`, `b = 2 d.oc`, `c = oc.oc - r^2`
/// where `oc = origin - center`.  A negative discriminant is a miss;
/// otherwise the smaller root wins if it lies in range, else the larger,
/// else it is a miss.
pub open spec fn sphere_hit_spec(s: Sphere, ray: Ray, min_t: i64, max_t: i64) -> HitResult {
    let oc = v_sub_spec(ray.origin, s.center);
    let half_b = v_dot_spec(ray.direction, oc);
    let a = v_dot_spec(ray.direction, ray.direction);
    let b = fx_add_spec(half_b, half_b);
    let disc = sphere_discriminant_spec(s, ray);
    if disc < 0 {
        miss_spec()
    } else {
        let sq = fx_sqrt_spec(disc);
        let a2 = fx_add_spec(a, a);
        let t1 = fx_div_spec(fx_sub_spec(fx_neg_spec(b), sq), a2);
        let t2 = fx_div_spec(fx_add_spec(fx_neg_spec(b), sq), a2);
        if min_t <= t1 && t1 <= max_t {
            sphere_hit_record(s, ray, t1)
        } else if min_t <= t2 && t2 <= max_t {
            sphere_hit_record(s, ray, t2)
        } else {
            miss_spec()
        }
    }
}

impl Sphere {
    pub fn new(center: Vec3, r: i64, m: MaterialKind) -> (s: Sphere)
        ensures
            s.center == center,
            s.radius == r,
            s.material == m,
    {
        Sphere { center: center, radius: r, material: m }
    }

    /// Intersect a ray with this sphere over `[min_t, max_t]`.
    pub fn hit(&self, ray: &Ray, min_t: i64, max_t: i64) -> (res: HitResult)
        ensures
            res == sphere_hit_spec(*self, *ray, min_t, max_t),
            res.is_hit ==> min_t <= res.t <= max_t,
            res.is_hit ==> res.material == self.material,
    {
        let oc = ray.origin.minus(self.center);
        let half_b = ray.direction.dot(oc);
        let a = ray.direction.dot(ray.direction);
        let b = fx_add(half_b, half_b);
        let c = fx_sub(oc.dot(oc), fx_mul(self.radius, self.radius));
        let ac = fx_mul(a, c);
        let ac2 = fx_add(ac, ac);
        let four_ac = fx_add(ac2, ac2);
        let disc = fx_sub(fx_mul(b, b), four_ac);
        if disc < 0 {
            return HitResult::default();
        }
        let sq = fx_sqrt(disc);
        let a2 = fx_add(a, a);
        let t1 = fx_div(fx_sub(fx_neg(b), sq), a2);
        let t2 = fx_div(fx_add(fx_neg(b), sq), a2);
        let t_hit = if min_t <= t1 && t1 <= max_t {
            t1
        } else if min_t <= t2 && t2 <= max_t {
            t2
        } else {
            return HitResult::default();
        };
        let pos = ray.at(t_hit);
        let normal = pos.minus(self.center).div_scalar(self.radius);
        HitResult {
            is_hit: true,
            position: pos,
            normal: normal,
            material: self.material,
            t: t_hit,
        }
    }
}

/// A ray whose quadratic has no real root misses the sphere outright:
/// `is_hit` is false for every query interval, since the discriminant
/// does not depend on it.
pub proof fn lemma_sphere_miss_all(s: Sphere, ray: Ray, min_t: i64, max_t: i64)
    requires
        sphere_discriminant_spec(s, ray) < 0,
    ensures
        !sphere_hit_spec(s, ray, min_t, max_t).is_hit,
{
}

/// A sphere's reported hit lies in the queried interval and carries the
/// sphere's material.
pub proof fn lemma_sphere_hit_range(s: Sphere, ray: Ray, min_t: i64, max_t: i64)
    ensures
        sphere_hit_spec(s, ray, min_t, max_t).is_hit ==> min_t <= sphere_hit_spec(
            s,
            ray,
            min_t,
            max_t,
        ).t <= max_t,
        sphere_hit_spec(s, ray, min_t, max_t).is_hit ==> sphere_hit_spec(
            s,
            ray,
            min_t,
            max_t,
        ).material == s.material,
{
}

/// Shrinking the far end of the interval down to (at least) the reported
/// hit does not change the outcome: the same root is chosen again.
pub proof fn lemma_sphere_hit_shrink(s: Sphere, ray: Ray, min_t: i64, max_t: i64, new_max: i64)
    requires
        sphere_hit_spec(s, ray, min_t, max_t).is_hit,
        sphere_hit_spec(s, ray, min_t, max_t).t <= new_max,
        new_max <= max_t,
    ensures
        sphere_hit_spec(s, ray, min_t, new_max) == sphere_hit_spec(s, ray, min_t, max_t),
{
}

} // verus!
