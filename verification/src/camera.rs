//! The camera: an orthonormal view basis built from eye, target, up hint,
//! vertical field of view and aspect ratio, mapping normalized image-plane
//! coordinates to world-space rays.

use vstd::prelude::*;

use crate::fixed::{fx_add, fx_mul, fx_sub, FX_ONE};
use crate::fixed::{fx_add_spec, fx_mul_spec, fx_sub_spec};
use crate::ray::Ray;
use crate::trig::{tan_half_degrees, tan_half_degrees_spec};
use crate::vec3::{
    v_add_spec, v_cross_spec, v_normalize_spec, v_scale_spec, v_sub_spec, v_zero, Vec3,
};

verus! {

/// One half, in fixed point: the viewport is centered on the forward axis.
pub const FX_HALF: i64 = 32768;

#[derive(Clone, Copy, PartialEq, Eq, Structural, Debug)]
pub struct Camera {
    pub eye: Vec3,
    pub ndc_width: i64,
    pub ndc_height: i64,
    pub u: Vec3,
    pub v: Vec3,
    pub w: Vec3,
}

/// The constructed camera: viewport height `2 * tan(fov / 2)`, width
/// `aspect_ratio` times that, and the right-handed basis `w` looking back
/// from target to eye, `u = normalize(up x w)`, `v = w x u`.
pub open spec fn camera_spec(eye: Vec3, target: Vec3, up: Vec3, fov: i64, aspect_ratio: i64) -> Camera {
    let h = tan_half_degrees_spec(fov);
    let height = fx_add_spec(h, h);
    let width = fx_mul_spec(aspect_ratio, height);
    let w = v_normalize_spec(v_sub_spec(eye, target));
    let u = v_normalize_spec(v_cross_spec(up, w));
    Camera {
        eye: eye,
        ndc_width: width,
        ndc_height: height,
        u: u,
        v: v_cross_spec(w, u),
        w: w,
    }
}

/// The ray from the eye through normalized viewport coordinates
/// `(col, row)` in `[0, 1]^2`: the viewport sits at unit distance along
/// the forward axis, centered on it.
pub open spec fn generate_ray_spec(c: Camera, col: i64, row: i64) -> Ray {
    let dir = v_sub_spec(
        v_add_spec(
            v_scale_spec(c.u, fx_mul_spec(fx_sub_spec(col, FX_HALF), c.ndc_width)),
            v_scale_spec(c.v, fx_mul_spec(fx_sub_spec(row, FX_HALF), c.ndc_height)),
        ),
        c.w,
    );
    Ray { origin: c.eye, direction: dir }
}

impl Camera {
    /// Build the camera.  The field of view is a fixed-point count of
    /// degrees and must lie strictly inside `(0, 180)`; values outside
    /// give degenerate geometry and are the caller's responsibility.
    pub fn new(eye: Vec3, target: Vec3, up: Vec3, fov: i64, aspect_ratio: i64) -> (c: Camera)
        requires
            0 < fov < 180 * FX_ONE,
        ensures
            c == camera_spec(eye, target, up, fov, aspect_ratio),
    {
        let h = tan_half_degrees(fov);
        let height = fx_add(h, h);
        let width = fx_mul(aspect_ratio, height);
        let w = eye.minus(target).normalize();
        let u = up.cross(w).normalize();
        let v = w.cross(u);
        Camera { eye: eye, ndc_width: width, ndc_height: height, u: u, v: v, w: w }
    }

    /// Generate the ray through `(col, row)`; pure and read-only.
    pub fn generate_ray(&self, col: i64, row: i64) -> (r: Ray)
        ensures
            r == generate_ray_spec(*self, col, row),
    {
        let du = self.u.scale(fx_mul(fx_sub(col, FX_HALF), self.ndc_width));
        let dv = self.v.scale(fx_mul(fx_sub(row, FX_HALF), self.ndc_height));
        let direction = du.plus(dv).minus(self.w);
        Ray::new(&self.eye, &direction)
    }
}

impl Default for Camera {
    fn default() -> (c: Camera)
        ensures
            c.eye == v_zero(),
            c.ndc_width == 0,
            c.ndc_height == 0,
            c.u == v_zero(),
            c.v == v_zero(),
            c.w == v_zero(),
    {
        Camera {
            eye: Vec3::zero(),
            ndc_width: 0,
            ndc_height: 0,
            u: Vec3::zero(),
            v: Vec3::zero(),
            w: Vec3::zero(),
        }
    }
}

} // verus!
