//! Three-component fixed-point vectors, used for positions, directions and
//! colors alike (colors component-wise).

use vstd::prelude::*;

use crate::fixed::{fx_add, fx_div, fx_mul, fx_neg, fx_sqrt, fx_sub};
use crate::fixed::{fx_add_spec, fx_div_spec, fx_mul_spec, fx_neg_spec, fx_sqrt_spec, fx_sub_spec};

verus! {

/// A vector or point or color with 16.16 fixed-point components.
#[derive(Clone, Copy, PartialEq, Eq, Structural, Debug)]
pub struct Vec3 {
    pub x: i64,
    pub y: i64,
    pub z: i64,
}

pub open spec fn v3(x: i64, y: i64, z: i64) -> Vec3 {
    Vec3 { x: x, y: y, z: z }
}

pub open spec fn v_zero() -> Vec3 {
    v3(0, 0, 0)
}

pub open spec fn v_add_spec(a: Vec3, b: Vec3) -> Vec3 {
    v3(fx_add_spec(a.x, b.x), fx_add_spec(a.y, b.y), fx_add_spec(a.z, b.z))
}

pub open spec fn v_sub_spec(a: Vec3, b: Vec3) -> Vec3 {
    v3(fx_sub_spec(a.x, b.x), fx_sub_spec(a.y, b.y), fx_sub_spec(a.z, b.z))
}

pub open spec fn v_neg_spec(a: Vec3) -> Vec3 {
    v3(fx_neg_spec(a.x), fx_neg_spec(a.y), fx_neg_spec(a.z))
}

/// Scale by a fixed-point factor.
pub open spec fn v_scale_spec(a: Vec3, t: i64) -> Vec3 {
    v3(fx_mul_spec(a.x, t), fx_mul_spec(a.y, t), fx_mul_spec(a.z, t))
}

/// Component-wise product: how one color attenuates another.
pub open spec fn v_mul_spec(a: Vec3, b: Vec3) -> Vec3 {
    v3(fx_mul_spec(a.x, b.x), fx_mul_spec(a.y, b.y), fx_mul_spec(a.z, b.z))
}

/// Divide every component by a fixed-point scalar.
pub open spec fn v_div_scalar_spec(a: Vec3, t: i64) -> Vec3 {
    v3(fx_div_spec(a.x, t), fx_div_spec(a.y, t), fx_div_spec(a.z, t))
}

pub open spec fn v_dot_spec(a: Vec3, b: Vec3) -> i64 {
    fx_add_spec(
        fx_add_spec(fx_mul_spec(a.x, b.x), fx_mul_spec(a.y, b.y)),
        fx_mul_spec(a.z, b.z),
    )
}

pub open spec fn v_cross_spec(a: Vec3, b: Vec3) -> Vec3 {
    v3(
        fx_sub_spec(fx_mul_spec(a.y, b.z), fx_mul_spec(a.z, b.y)),
        fx_sub_spec(fx_mul_spec(a.z, b.x), fx_mul_spec(a.x, b.z)),
        fx_sub_spec(fx_mul_spec(a.x, b.y), fx_mul_spec(a.y, b.x)),
    )
}

pub open spec fn v_length_spec(a: Vec3) -> i64 {
    fx_sqrt_spec(v_dot_spec(a, a))
}

/// The unit vector with the same direction; the zero vector (whose length
/// is zero) maps to the zero vector, since division by zero is zero.
pub open spec fn v_normalize_spec(a: Vec3) -> Vec3 {
    v_div_scalar_spec(a, v_length_spec(a))
}

impl Vec3 {
    pub fn new(x: i64, y: i64, z: i64) -> (r: Vec3)
        ensures
            r == v3(x, y, z),
    {
        Vec3 { x: x, y: y, z: z }
    }

    pub fn zero() -> (r: Vec3)
        ensures
            r == v_zero(),
    {
        Vec3 { x: 0, y: 0, z: 0 }
    }

    pub fn plus(self, b: Vec3) -> (r: Vec3)
        ensures
            r == v_add_spec(self, b),
    {
        Vec3 { x: fx_add(self.x, b.x), y: fx_add(self.y, b.y), z: fx_add(self.z, b.z) }
    }

    pub fn minus(self, b: Vec3) -> (r: Vec3)
        ensures
            r == v_sub_spec(self, b),
    {
        Vec3 { x: fx_sub(self.x, b.x), y: fx_sub(self.y, b.y), z: fx_sub(self.z, b.z) }
    }

    pub fn neg(self) -> (r: Vec3)
        ensures
            r == v_neg_spec(self),
    {
        Vec3 { x: fx_neg(self.x), y: fx_neg(self.y), z: fx_neg(self.z) }
    }

    pub fn scale(self, t: i64) -> (r: Vec3)
        ensures
            r == v_scale_spec(self, t),
    {
        Vec3 { x: fx_mul(self.x, t), y: fx_mul(self.y, t), z: fx_mul(self.z, t) }
    }

    pub fn mul_elem(self, b: Vec3) -> (r: Vec3)
        ensures
            r == v_mul_spec(self, b),
    {
        Vec3 { x: fx_mul(self.x, b.x), y: fx_mul(self.y, b.y), z: fx_mul(self.z, b.z) }
    }

    pub fn div_scalar(self, t: i64) -> (r: Vec3)
        ensures
            r == v_div_scalar_spec(self, t),
    {
        Vec3 { x: fx_div(self.x, t), y: fx_div(self.y, t), z: fx_div(self.z, t) }
    }

    pub fn dot(self, b: Vec3) -> (r: i64)
        ensures
            r == v_dot_spec(self, b),
    {
        fx_add(fx_add(fx_mul(self.x, b.x), fx_mul(self.y, b.y)), fx_mul(self.z, b.z))
    }

    pub fn cross(self, b: Vec3) -> (r: Vec3)
        ensures
            r == v_cross_spec(self, b),
    {
        Vec3 {
            x: fx_sub(fx_mul(self.y, b.z), fx_mul(self.z, b.y)),
            y: fx_sub(fx_mul(self.z, b.x), fx_mul(self.x, b.z)),
            z: fx_sub(fx_mul(self.x, b.y), fx_mul(self.y, b.x)),
        }
    }

    pub fn length(self) -> (r: i64)
        ensures
            r == v_length_spec(self),
    {
        fx_sqrt(self.dot(self))
    }

    pub fn normalize(self) -> (r: Vec3)
        ensures
            r == v_normalize_spec(self),
    {
        let len = self.length();
        self.div_scalar(len)
    }
}

} // verus!
