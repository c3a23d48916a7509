//! Materials and their scattering behavior.
//!
//! A diffuse surface scatters along a cosine-weighted hemisphere direction
//! built from two uniform draws; a specular surface mirrors the incoming
//! direction.  Both attenuate by their base color.  The sampling arithmetic
//! is pure: the two draws enter as plain fixed-point values, so scattering
//! is verified for every value in range.

use vstd::prelude::*;

use crate::fixed::{fx_abs64, fx_add, fx_mul, fx_sqrt, fx_sub, iabs, FX_ONE};
use crate::fixed::{fx_add_spec, fx_mul_spec, fx_sqrt_spec, fx_sub_spec};
use crate::ray::Ray;
use crate::rng::rng_next_unit;
use crate::sphere::HitResult;
use crate::trig::{cos_turn, cos_turn_spec, sin_turn, sin_turn_spec};
use crate::vec3::{
    v3, v_add_spec, v_cross_spec, v_dot_spec, v_neg_spec, v_normalize_spec, v_scale_spec,
    v_sub_spec, v_zero, Vec3,
};

verus! {

/// Offset of a scattered ray's origin along the normal, about 1e-4,
/// against immediate self-intersection.
pub const REFLECT_EPS: i64 = 7;

/// Threshold on the normal's first component (about 0.1) that picks the
/// reference axis for the tangent frame: cross with the world Y axis when
/// the normal is safely away from it, else with the world X axis.
pub const TANGENT_LIMIT: i64 = 6554;

/// What scattering returns: the outgoing ray and the attenuation color.
#[derive(Clone, Copy, PartialEq, Eq, Structural, Debug)]
pub struct ReflectResult {
    pub ray: Ray,
    pub color: Vec3,
}

impl Default for ReflectResult {
    fn default() -> (r: ReflectResult)
        ensures
            r.ray.origin == v_zero(),
            r.ray.direction == v_zero(),
            r.color == v_zero(),
    {
        ReflectResult { ray: Ray::default(), color: Vec3::zero() }
    }
}

/// A diffuse (matte) material holding its base reflectance color.
#[derive(Clone, Copy, PartialEq, Eq, Structural, Debug)]
pub struct Diffuse {
    pub color: Vec3,
}

/// A perfect-mirror material holding its base reflectance color.
#[derive(Clone, Copy, PartialEq, Eq, Structural, Debug)]
pub struct Specular {
    pub color: Vec3,
}

/// The closed set of materials, dispatched by tag.
#[derive(Clone, Copy, PartialEq, Eq, Structural, Debug)]
pub enum MaterialKind {
    Diffuse(Diffuse),
    Specular(Specular),
}

pub open spec fn mat_color(m: MaterialKind) -> Vec3 {
    match m {
        MaterialKind::Diffuse(d) => d.color,
        MaterialKind::Specular(s) => s.color,
    }
}

/// A color whose components are reflectances: within `[0, 1]`.
pub open spec fn color_wf(c: Vec3) -> bool {
    &&& 0 <= c.x <= FX_ONE
    &&& 0 <= c.y <= FX_ONE
    &&& 0 <= c.z <= FX_ONE
}

pub open spec fn mat_wf(m: MaterialKind) -> bool {
    color_wf(mat_color(m))
}

/// Cosine-weighted hemisphere scattering from two uniform draws `u1`, `u2`
/// in `[0, 1)`: radius `sqrt(u1)` and angle `u2` of a turn give the local
/// direction over a tangent frame around the unit surface normal; the
/// outgoing origin is offset slightly along the normal.
pub open spec fn diffuse_scatter_spec(d: Diffuse, hit: HitResult, u1: i64, u2: i64) -> ReflectResult {
    let n = v_normalize_spec(hit.normal);
    let r = fx_sqrt_spec(u1);
    let lx = fx_mul_spec(r, cos_turn_spec(u2));
    let ly = fx_mul_spec(r, sin_turn_spec(u2));
    let lz = fx_sqrt_spec(fx_sub_spec(FX_ONE, u1));
    let axis = if iabs(n.x as int) >= TANGENT_LIMIT { v3(0, FX_ONE, 0) } else { v3(FX_ONE, 0, 0) };
    let tangent = v_normalize_spec(v_cross_spec(axis, n));
    let bitangent = v_cross_spec(n, tangent);
    let world_dir = v_add_spec(
        v_add_spec(v_scale_spec(tangent, lx), v_scale_spec(bitangent, ly)),
        v_scale_spec(n, lz),
    );
    let origin = v_add_spec(hit.position, v_scale_spec(n, REFLECT_EPS));
    ReflectResult {
        ray: Ray { origin: origin, direction: v_normalize_spec(world_dir) },
        color: d.color,
    }
}

/// Perfect mirror scattering: reflect the normalized incoming direction
/// about the unit normal, `d - 2 (d . n) n`, so that the angle of
/// incidence equals the angle of reflection; offset the origin along the
/// normal.
pub open spec fn specular_scatter_spec(s: Specular, ray: Ray, hit: HitResult) -> ReflectResult {
    let d = v_normalize_spec(ray.direction);
    let n = v_normalize_spec(hit.normal);
    let k = v_dot_spec(d, n);
    let reflected = v_sub_spec(d, v_scale_spec(n, fx_add_spec(k, k)));
    let origin = v_add_spec(hit.position, v_scale_spec(n, REFLECT_EPS));
    ReflectResult {
        ray: Ray { origin: origin, direction: reflected },
        color: s.color,
    }
}

/// The scattering interface: an incoming ray and a hit give an outgoing
/// ray and an attenuation equal to the material's base color.
pub trait Material {
    spec fn albedo(&self) -> Vec3;

    fn reflect(&self, ray: &Ray, hit: &HitResult, rng: &mut rand::rngs::StdRng) -> (res: ReflectResult)
        ensures
            res.color == self.albedo(),
    ;
}

impl Diffuse {
    pub fn new(color: Vec3) -> (m: Diffuse)
        ensures
            m.color == color,
    {
        Diffuse { color: color }
    }

    /// Scattering with the two uniform draws passed in as plain values.
    pub fn scatter_with(&self, hit: &HitResult, u1: i64, u2: i64) -> (res: ReflectResult)
        requires
            0 <= u1 < FX_ONE,
            0 <= u2 < FX_ONE,
        ensures
            res == diffuse_scatter_spec(*self, *hit, u1, u2),
    {
        let n = hit.normal.normalize();
        let r = fx_sqrt(u1);
        let lx = fx_mul(r, cos_turn(u2));
        let ly = fx_mul(r, sin_turn(u2));
        let lz = fx_sqrt(fx_sub(FX_ONE, u1));
        let axis = if fx_abs64(n.x) >= TANGENT_LIMIT as u64 {
            Vec3::new(0, FX_ONE, 0)
        } else {
            Vec3::new(FX_ONE, 0, 0)
        };
        let tangent = axis.cross(n).normalize();
        let bitangent = n.cross(tangent);
        let world_dir = tangent.scale(lx).plus(bitangent.scale(ly)).plus(n.scale(lz));
        let origin = hit.position.plus(n.scale(REFLECT_EPS));
        ReflectResult {
            ray: Ray::new(&origin, &world_dir.normalize()),
            color: self.color,
        }
    }
}

impl Default for Diffuse {
    fn default() -> (m: Diffuse)
        ensures
            m.color == v_zero(),
    {
        Diffuse { color: Vec3::zero() }
    }
}

impl Material for Diffuse {
    open spec fn albedo(&self) -> Vec3 {
        self.color
    }

    fn reflect(&self, ray: &Ray, hit: &HitResult, rng: &mut rand::rngs::StdRng) -> (res: ReflectResult) {
        let u1 = rng_next_unit(rng);
        let u2 = rng_next_unit(rng);
        self.scatter_with(hit, u1, u2)
    }
}

impl Specular {
    pub fn new(color: Vec3) -> (m: Specular)
        ensures
            m.color == color,
    {
        Specular { color: color }
    }

    /// Mirror scattering; fully determined by the incoming ray and the hit.
    pub fn scatter(&self, ray: &Ray, hit: &HitResult) -> (res: ReflectResult)
        ensures
            res == specular_scatter_spec(*self, *ray, *hit),
    {
        let d = ray.direction().normalize();
        let n = hit.normal.normalize();
        let k = d.dot(n);
        let reflected = d.minus(n.scale(fx_add(k, k)));
        let origin = hit.position.plus(n.scale(REFLECT_EPS));
        ReflectResult {
            ray: Ray::new(&origin, &reflected),
            color: self.color,
        }
    }
}

impl Default for Specular {
    fn default() -> (m: Specular)
        ensures
            m.color == v_zero(),
    {
        Specular { color: Vec3::zero() }
    }
}

impl Material for Specular {
    open spec fn albedo(&self) -> Vec3 {
        self.color
    }

    fn reflect(&self, ray: &Ray, hit: &HitResult, rng: &mut rand::rngs::StdRng) -> (res: ReflectResult) {
        self.scatter(ray, hit)
    }
}

/// What a scattering result can be for a material: a specular result is
/// the exact mirror formula; a diffuse result is the pure sampling
/// formula at some pair of draws in range.
pub open spec fn scatter_ok(m: MaterialKind, ray: Ray, hit: HitResult, res: ReflectResult) -> bool {
    match m {
        MaterialKind::Specular(s) => res == specular_scatter_spec(s, ray, hit),
        MaterialKind::Diffuse(d) => exists|u1: i64, u2: i64|
            0 <= u1 < FX_ONE && 0 <= u2 < FX_ONE && res == #[trigger] diffuse_scatter_spec(
                d,
                hit,
                u1,
                u2,
            ),
    }
}

impl MaterialKind {
    /// Dispatch scattering by tag.  A specular result is pinned exactly; a
    /// diffuse result is the pure sampling formula at some pair of draws in
    /// range.
    pub fn reflect(&self, ray: &Ray, hit: &HitResult, rng: &mut rand::rngs::StdRng) -> (res: ReflectResult)
        ensures
            res.color == mat_color(*self),
            scatter_ok(*self, *ray, *hit, res),
    {
        match self {
            MaterialKind::Diffuse(d) => {
                let u1 = rng_next_unit(rng);
                let u2 = rng_next_unit(rng);
                let res = d.scatter_with(hit, u1, u2);
                proof {
                    assert(0 <= u1 < FX_ONE && 0 <= u2 < FX_ONE
                        && res == diffuse_scatter_spec(*d, *hit, u1, u2));
                }
                res
            }
            MaterialKind::Specular(s) => s.scatter(ray, hit),
        }
    }
}

/// The exact dot product of two integer triples, with no fixed-point
/// rounding.
pub open spec fn dot_exact(ax: int, ay: int, az: int, bx: int, by: int, bz: int) -> int {
    ax * bx + ay * by + az * bz
}

/// One component of the exact mirror image of `i` about the plane normal
/// `n`, everything scaled by `s2` (the squared length of the normal) to
/// stay in integers.
pub open spec fn mirror_exact(s2: int, ic: int, d: int, nc: int) -> int {
    s2 * ic - 2 * d * nc
}

/// Diffuse sampling stays in the hemisphere above the surface: over exact
/// integer arithmetic, against a tangent frame orthogonal to the normal,
/// the sampled direction's cosine with the normal is `lz` times the
/// normal's squared length, and `lz = sqrt(1 - u1)` is never negative.
/// The executable `Diffuse::scatter_with` computes the fixed-point
/// rounding of this construction.
#[verifier::rlimit(100)]
pub proof fn lemma_diffuse_hemisphere(
    tx: int, ty: int, tz: int,
    bx: int, by: int, bz: int,
    nx: int, ny: int, nz: int,
    lx: int, ly: int, lz: int,
)
    requires
        dot_exact(tx, ty, tz, nx, ny, nz) == 0,
        dot_exact(bx, by, bz, nx, ny, nz) == 0,
        lz >= 0,
    ensures
        dot_exact(
            lx * tx + ly * bx + lz * nx,
            lx * ty + ly * by + lz * ny,
            lx * tz + ly * bz + lz * nz,
            nx, ny, nz,
        ) == lz * dot_exact(nx, ny, nz, nx, ny, nz),
        lz * dot_exact(nx, ny, nz, nx, ny, nz) >= 0,
{
    assert((lx * tx + ly * bx + lz * nx) * nx == lx * (tx * nx) + ly * (bx * nx) + lz * (nx * nx))
        by (nonlinear_arith);
    assert((lx * ty + ly * by + lz * ny) * ny == lx * (ty * ny) + ly * (by * ny) + lz * (ny * ny))
        by (nonlinear_arith);
    assert((lx * tz + ly * bz + lz * nz) * nz == lx * (tz * nz) + ly * (bz * nz) + lz * (nz * nz))
        by (nonlinear_arith);
    assert(lx * (tx * nx) + lx * (ty * ny) + lx * (tz * nz) == lx * (tx * nx + ty * ny + tz * nz))
        by (nonlinear_arith);
    assert(ly * (bx * nx) + ly * (by * ny) + ly * (bz * nz) == ly * (bx * nx + by * ny + bz * nz))
        by (nonlinear_arith);
    assert(lz * (nx * nx) + lz * (ny * ny) + lz * (nz * nz) == lz * (nx * nx + ny * ny + nz * nz))
        by (nonlinear_arith);
    assert(nx * nx >= 0 && ny * ny >= 0 && nz * nz >= 0) by (nonlinear_arith);
    assert(lz * (nx * nx + ny * ny + nz * nz) >= 0) by (nonlinear_arith)
        requires lz >= 0 && nx * nx + ny * ny + nz * nz >= 0;
}

/// Specular reflection preserves the angle: against a normal of squared
/// length `s2` (a unit normal at the fixed-point scale has
/// `s2 == 65536 * 65536`), the exact mirrored direction's cosine with the
/// normal is the negation of the incoming one's -- the angle of incidence
/// equals the angle of reflection.  The executable `Specular::scatter`
/// computes the fixed-point rounding of this construction.
pub proof fn lemma_specular_angle(
    ix: int, iy: int, iz: int, nx: int, ny: int, nz: int, d: int, s2: int,
)
    requires
        dot_exact(nx, ny, nz, nx, ny, nz) == s2,
        dot_exact(ix, iy, iz, nx, ny, nz) == d,
    ensures
        dot_exact(
            mirror_exact(s2, ix, d, nx),
            mirror_exact(s2, iy, d, ny),
            mirror_exact(s2, iz, d, nz),
            nx, ny, nz,
        ) == -s2 * d,
{
    assert((s2 * ix - 2 * d * nx) * nx == s2 * (ix * nx) - 2 * d * (nx * nx)) by (nonlinear_arith);
    assert((s2 * iy - 2 * d * ny) * ny == s2 * (iy * ny) - 2 * d * (ny * ny)) by (nonlinear_arith);
    assert((s2 * iz - 2 * d * nz) * nz == s2 * (iz * nz) - 2 * d * (nz * nz)) by (nonlinear_arith);
    assert(s2 * (ix * nx) + s2 * (iy * ny) + s2 * (iz * nz) == s2 * (ix * nx + iy * ny + iz * nz))
        by (nonlinear_arith);
    assert(2 * d * (nx * nx) + 2 * d * (ny * ny) + 2 * d * (nz * nz) == 2 * d * (nx * nx + ny * ny
        + nz * nz)) by (nonlinear_arith);
    assert(s2 * d - (2 * d) * s2 == -s2 * d) by (nonlinear_arith);
}

} // verus!
