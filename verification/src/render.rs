//! The integrator and the pixel pipeline: recursive tracing with a bounce
//! bound, per-pixel Monte Carlo accumulation, gamma correction, and the
//! row-flipped byte buffer of the final image.

use vstd::prelude::*;

use crate::camera::{camera_spec, generate_ray_spec, Camera};
use crate::fixed::{fx_add, fx_div, fx_sqrt, FX_MAX, FX_ONE};
use crate::fixed::{fx_add_spec, fx_div_spec, fx_sqrt_spec, lemma_fx_mul_unit};
use crate::material::{color_wf, scatter_ok, ReflectResult};
use crate::ray::Ray;
use crate::rng::rng_next_unit;
use crate::vec3::{v3, v_add_spec, v_mul_spec, v_zero, Vec3};
use crate::world::{world_hit_spec, world_wf, World};

verus! {

/// The near end of every trace interval (about 0.001), suppressing
/// self-intersection at a scattered ray's origin.
pub const TRACE_MIN_T: i64 = 66;

/// The background color: pure white sky.
pub open spec fn v_white() -> Vec3 {
    v3(FX_ONE, FX_ONE, FX_ONE)
}

/// What a traced color can be, bounce by bounce: black once the depth is
/// exhausted; the white background on a miss; on a hit, some scattering
/// result allowed for the hit material whose attenuation multiplies,
/// component-wise, a color the scattered ray can trace to at one less
/// depth.
pub open spec fn trace_ok(r: Ray, w: World, depth: int, c: Vec3) -> bool
    decreases depth, 1int,
{
    if depth <= 0 {
        c == v_zero()
    } else if world_hit_spec(w, r, TRACE_MIN_T, FX_MAX).is_hit {
        trace_hit_ok(r, w, depth, c)
    } else {
        c == v_white()
    }
}

/// The hit case of `trace_ok`: the color is some allowed scattering
/// result's attenuation times a color its outgoing ray traces to.
pub open spec fn trace_hit_ok(r: Ray, w: World, depth: int, c: Vec3) -> bool
    decreases depth, 0int,
{
    depth > 0 && exists|res: ReflectResult, rest: Vec3|
        #![trigger v_mul_spec(res.color, rest)]
        scatter_ok(world_hit_spec(w, r, TRACE_MIN_T, FX_MAX).material, r, world_hit_spec(w, r, TRACE_MIN_T, FX_MAX), res)
            && trace_ok(res.ray, w, depth - 1, rest) && c == v_mul_spec(res.color, rest)
}

/// Introduction form of the hit case: a witnessed scattering result and
/// continuation color establish `trace_hit_ok`.
proof fn lemma_trace_hit_intro(r: Ray, w: World, depth: int, res: ReflectResult, rest: Vec3)
    requires
        depth > 0,
        scatter_ok(
            world_hit_spec(w, r, TRACE_MIN_T, FX_MAX).material,
            r,
            world_hit_spec(w, r, TRACE_MIN_T, FX_MAX),
            res,
        ),
        trace_ok(res.ray, w, depth - 1, rest),
    ensures
        trace_hit_ok(r, w, depth, v_mul_spec(res.color, rest)),
{
}

/// Trace a ray through the scene.  At depth zero the path is absorbed
/// (black).  A miss returns the white background.  A hit scatters at the
/// material and attenuates whatever the scattered ray returns,
/// component-wise.  With a well-formed scene the result is always a color
/// in `[0, 1]`.
pub fn ray_hit_color(
    r: &Ray,
    world: &World,
    max_light_bounce_num: i32,
    rng: &mut rand::rngs::StdRng,
) -> (c: Vec3)
    ensures
        trace_ok(*r, *world, max_light_bounce_num as int, c),
        max_light_bounce_num <= 0 ==> c == v_zero(),
        max_light_bounce_num > 0 && !world_hit_spec(*world, *r, TRACE_MIN_T, FX_MAX).is_hit
            ==> c == v_white(),
        world_wf(*world) ==> color_wf(c),
    decreases max_light_bounce_num,
{
    if max_light_bounce_num <= 0 {
        return Vec3::zero();
    }
    let hit = world.hit(r, TRACE_MIN_T, FX_MAX);
    if hit.is_hit {
        let res = hit.material.reflect(r, &hit, rng);
        let rest = ray_hit_color(&res.ray, world, max_light_bounce_num - 1, rng);
        let c = res.color.mul_elem(rest);
        proof {
            if world_wf(*world) {
                lemma_fx_mul_unit(res.color.x, rest.x);
                lemma_fx_mul_unit(res.color.y, rest.y);
                lemma_fx_mul_unit(res.color.z, rest.z);
            }
            let depth = max_light_bounce_num as int;
            assert(scatter_ok(
                world_hit_spec(*world, *r, TRACE_MIN_T, FX_MAX).material,
                *r,
                world_hit_spec(*world, *r, TRACE_MIN_T, FX_MAX),
                res,
            ));
            assert(trace_ok(res.ray, *world, depth - 1, rest));
            assert(c == v_mul_spec(res.color, rest));
            lemma_trace_hit_intro(*r, *world, depth, res, rest);
            assert(trace_hit_ok(*r, *world, depth, c));
        }
        return c;
    }
    Vec3::new(FX_ONE, FX_ONE, FX_ONE)
}

/// The camera ray for one sample at pixel `(x, y)`: the pixel coordinates
/// jittered by the draws `(du, dv)` and normalized over the image plane.
pub open spec fn sample_ray_spec(
    cam: Camera,
    x: int,
    y: int,
    width: int,
    height: int,
    du: i64,
    dv: i64,
) -> Ray {
    let u = fx_div_spec(fx_add_spec((x * 65536) as i64, du), ((width - 1) * 65536) as i64);
    let v = fx_div_spec(fx_add_spec((y * 65536) as i64, dv), ((height - 1) * 65536) as i64);
    generate_ray_spec(cam, u, v)
}

/// What a pixel's accumulated color can be after `k` samples: zero before
/// any sample, and otherwise a previous sum plus a color that some
/// jittered sample ray traces to.
pub open spec fn pixel_sum_ok(
    w: World,
    cam: Camera,
    x: int,
    y: int,
    width: int,
    height: int,
    k: int,
    depth: int,
    c: Vec3,
) -> bool
    decreases k,
{
    if k <= 0 {
        c == v_zero()
    } else {
        exists|du: i64, dv: i64, col: Vec3, prev: Vec3|
            #![trigger trace_ok(sample_ray_spec(cam, x, y, width, height, du, dv), w, depth, col), v_add_spec(prev, col)]
            0 <= du < FX_ONE && 0 <= dv < FX_ONE && trace_ok(
                sample_ray_spec(cam, x, y, width, height, du, dv),
                w,
                depth,
                col,
            ) && pixel_sum_ok(w, cam, x, y, width, height, k - 1, depth, prev) && c == v_add_spec(
                prev,
                col,
            )
    }
}

/// Introduction form of one accumulation step: a witnessed sample color
/// added to a valid `k`-sample sum is a valid `k + 1`-sample sum.
proof fn lemma_pixel_sum_step(
    w: World,
    cam: Camera,
    x: int,
    y: int,
    width: int,
    height: int,
    k: int,
    depth: int,
    prev: Vec3,
    du: i64,
    dv: i64,
    col: Vec3,
)
    requires
        k >= 0,
        0 <= du < FX_ONE,
        0 <= dv < FX_ONE,
        trace_ok(sample_ray_spec(cam, x, y, width, height, du, dv), w, depth, col),
        pixel_sum_ok(w, cam, x, y, width, height, k, depth, prev),
    ensures
        pixel_sum_ok(w, cam, x, y, width, height, k + 1, depth, v_add_spec(prev, col)),
{
}

/// The sum of `rays_per_pixel` traced samples through pixel `(x, y)`,
/// each jittered uniformly inside the pixel footprint.  With a
/// well-formed scene every component stays within
/// `[0, rays_per_pixel]` in color units.
pub fn render_pixel(
    world: &World,
    camera: &Camera,
    x: usize,
    y: usize,
    width: usize,
    height: usize,
    rays_per_pixel: u32,
    max_light_bounce_num: i32,
    rng: &mut rand::rngs::StdRng,
) -> (c: Vec3)
    requires
        2 <= width <= 100000,
        2 <= height <= 100000,
        x < width,
        y < height,
    ensures
        pixel_sum_ok(
            *world,
            *camera,
            x as int,
            y as int,
            width as int,
            height as int,
            rays_per_pixel as int,
            max_light_bounce_num as int,
            c,
        ),
        world_wf(*world) ==> 0 <= c.x <= rays_per_pixel * FX_ONE && 0 <= c.y <= rays_per_pixel
            * FX_ONE && 0 <= c.z <= rays_per_pixel * FX_ONE,
{
    let mut accum = Vec3::zero();
    let mut k: u32 = 0;
    while k < rays_per_pixel
        invariant
            2 <= width <= 100000,
            2 <= height <= 100000,
            x < width,
            y < height,
            k <= rays_per_pixel,
            pixel_sum_ok(
                *world,
                *camera,
                x as int,
                y as int,
                width as int,
                height as int,
                k as int,
                max_light_bounce_num as int,
                accum,
            ),
            world_wf(*world) ==> 0 <= accum.x <= k * FX_ONE && 0 <= accum.y <= k * FX_ONE && 0
                <= accum.z <= k * FX_ONE,
        decreases rays_per_pixel - k,
    {
        let du = rng_next_unit(rng);
        let dv = rng_next_unit(rng);
        let sx = fx_add((x as i64) * 65536, du);
        let sy = fx_add((y as i64) * 65536, dv);
        let u = fx_div(sx, ((width - 1) as i64) * 65536);
        let v = fx_div(sy, ((height - 1) as i64) * 65536);
        let ray = camera.generate_ray(u, v);
        let col = ray_hit_color(&ray, world, max_light_bounce_num, rng);
        let next = accum.plus(col);
        proof {
            if world_wf(*world) {
                assert(accum.x + col.x <= (k + 1) * FX_ONE);
                assert(accum.y + col.y <= (k + 1) * FX_ONE);
                assert(accum.z + col.z <= (k + 1) * FX_ONE);
                assert((k + 1) * FX_ONE <= 0x100000000i64 * 65536);
            }
            assert(sx == fx_add_spec(((x as int) * 65536) as i64, du));
            assert(sy == fx_add_spec(((y as int) * 65536) as i64, dv));
            assert(u == fx_div_spec(
                fx_add_spec(((x as int) * 65536) as i64, du),
                (((width as int) - 1) * 65536) as i64,
            ));
            assert(v == fx_div_spec(
                fx_add_spec(((y as int) * 65536) as i64, dv),
                (((height as int) - 1) * 65536) as i64,
            ));
            assert(ray == sample_ray_spec(
                *camera,
                x as int,
                y as int,
                width as int,
                height as int,
                du,
                dv,
            ));
            assert(trace_ok(
                sample_ray_spec(*camera, x as int, y as int, width as int, height as int, du, dv),
                *world,
                max_light_bounce_num as int,
                col,
            ));
            assert(next == v_add_spec(accum, col));
            lemma_pixel_sum_step(
                *world,
                *camera,
                x as int,
                y as int,
                width as int,
                height as int,
                k as int,
                max_light_bounce_num as int,
                accum,
                du,
                dv,
                col,
            );
        }
        accum = next;
        k = k + 1;
    }
    accum
}

/// Average a summed color over the sample count, gamma-correct by square
/// root, clamp to just under one, and scale to a byte: nonpositive sums
/// give zero, and nothing can exceed 255 (the clamp keeps the scaled
/// value at 255 at most).
pub open spec fn gamma_byte_spec(v: i64, n: u32) -> u8 {
    if v <= 0 || n == 0 {
        0u8
    } else {
        let avg = fx_div_spec(v, (n * 65536) as i64);
        let g = fx_sqrt_spec(avg);
        let clamped: int = if g > 65470 { 65470int } else { g as int };
        (clamped / 256) as u8
    }
}

fn gamma_byte(v: i64, n: u32) -> (b: u8)
    requires
        n >= 1,
    ensures
        b == gamma_byte_spec(v, n),
{
    if v <= 0 {
        return 0;
    }
    let avg: i64 = fx_div(v, (n as i64) * 65536);
    let g = fx_sqrt(avg);
    let clamped: i64 = if g > 65470 { 65470 } else { g };
    proof {
        crate::fixed::lemma_fx_sqrt_bounds(avg);
        assert(clamped >= 0);
    }
    ((clamped as u64) / 256) as u8
}

/// The averaged, gamma-corrected bytes of one pixel.
pub fn color_to_rgb8(c: Vec3, rays_per_pixel: u32) -> (rgb: (u8, u8, u8))
    requires
        rays_per_pixel >= 1,
    ensures
        rgb.0 == gamma_byte_spec(c.x, rays_per_pixel),
        rgb.1 == gamma_byte_spec(c.y, rays_per_pixel),
        rgb.2 == gamma_byte_spec(c.z, rays_per_pixel),
{
    (
        gamma_byte(c.x, rays_per_pixel),
        gamma_byte(c.y, rays_per_pixel),
        gamma_byte(c.z, rays_per_pixel),
    )
}

/// The three bytes of output pixel `(ry, x)` (row 0 at the top) are the
/// gamma bytes of some valid sample sum for scene row `height - 1 - ry`:
/// the vertical flip, the per-pixel averaging and the byte layout in one
/// statement.
pub open spec fn pixel_bytes_ok(
    img: Seq<u8>,
    w: World,
    cam: Camera,
    width: int,
    height: int,
    rays_per_pixel: u32,
    depth: int,
    ry: int,
    x: int,
) -> bool {
    exists|c: Vec3|
        #![trigger gamma_byte_spec(c.x, rays_per_pixel)]
        pixel_sum_ok(w, cam, x, height - 1 - ry, width, height, rays_per_pixel as int, depth, c)
            && 0 <= 3 * (ry * width + x) && 3 * (ry * width + x) + 2 < img.len() && img[3 * (ry
            * width + x)] == gamma_byte_spec(c.x, rays_per_pixel) && img[3 * (ry * width + x)
            + 1] == gamma_byte_spec(c.y, rays_per_pixel) && img[3 * (ry * width + x) + 2]
            == gamma_byte_spec(c.z, rays_per_pixel)
}

/// Appending three bytes alters no existing index.
proof fn lemma_push3_old(s: Seq<u8>, a: u8, b: u8, c: u8, i: int)
    requires
        0 <= i < s.len(),
    ensures
        s.push(a).push(b).push(c).len() == s.len() + 3,
        s.push(a).push(b).push(c)[i] == s[i],
{
    assert(s.push(a).len() == s.len() + 1);
    assert(s.push(a).push(b).len() == s.len() + 2);
    assert(s.push(a).push(b).push(c).len() == s.len() + 3);
    vstd::seq::lemma_seq_push_index_different_alt(s, a, i);
    vstd::seq::lemma_seq_push_index_different_alt(s.push(a), b, i);
    vstd::seq::lemma_seq_push_index_different_alt(s.push(a).push(b), c, i);
}

/// The three appended bytes land at the end, in order.
proof fn lemma_push3_new(s: Seq<u8>, a: u8, b: u8, c: u8)
    ensures
        s.push(a).push(b).push(c).len() == s.len() + 3,
        s.push(a).push(b).push(c)[s.len() as int] == a,
        s.push(a).push(b).push(c)[s.len() as int + 1] == b,
        s.push(a).push(b).push(c)[s.len() as int + 2] == c,
{
    broadcast use vstd::seq::group_seq_axioms;

    assert(s.push(a).len() == s.len() + 1);
    assert(s.push(a).push(b).len() == s.len() + 2);
    assert(s.push(a).push(b).push(c).len() == s.len() + 3);
    assert(s.push(a)[s.len() as int] == a);
    assert(s.push(a).push(b)[s.len() as int + 1] == b);
    assert(s.push(a).push(b).push(c)[s.len() as int + 2] == c);
    vstd::seq::lemma_seq_push_index_different_alt(s.push(a), b, s.len() as int);
    vstd::seq::lemma_seq_push_index_different_alt(s.push(a).push(b), c, s.len() as int);
    vstd::seq::lemma_seq_push_index_different_alt(s.push(a).push(b), c, s.len() as int + 1);
}

/// Render the scene into a `width * height` RGB byte buffer with row 0 at
/// the top (the scene's rows are laid out bottom-up and flipped here).
/// Every output pixel holds the gamma bytes of a valid jittered sample
/// sum for its (vertically flipped) scene row.
#[verifier::rlimit(100)]
pub fn render_image(
    world: &World,
    camera: &Camera,
    width: usize,
    height: usize,
    rays_per_pixel: u32,
    max_light_bounce_num: i32,
    rng: &mut rand::rngs::StdRng,
) -> (img: Vec<u8>)
    requires
        2 <= width <= 100000,
        2 <= height <= 100000,
        1 <= rays_per_pixel,
        width * height * 3 <= usize::MAX,
    ensures
        img@.len() == width * height * 3,
        forall|ry: int, x: int|
            0 <= ry < height && 0 <= x < width ==> #[trigger] pixel_bytes_ok(
                img@,
                *world,
                *camera,
                width as int,
                height as int,
                rays_per_pixel,
                max_light_bounce_num as int,
                ry,
                x,
            ),
{
    let mut img: Vec<u8> = Vec::new();
    let mut ry: usize = 0;
    while ry < height
        invariant
            2 <= width <= 100000,
            2 <= height <= 100000,
            1 <= rays_per_pixel,
            width * height * 3 <= usize::MAX,
            ry <= height,
            img@.len() == ry * width * 3,
            forall|ry2: int, x2: int|
                0 <= ry2 < ry && 0 <= x2 < width ==> #[trigger] pixel_bytes_ok(
                    img@,
                    *world,
                    *camera,
                    width as int,
                    height as int,
                    rays_per_pixel,
                    max_light_bounce_num as int,
                    ry2,
                    x2,
                ),
        decreases height - ry,
    {
        let y = height - 1 - ry;
        let mut x: usize = 0;
        proof {
            lemma_row_bound(ry as int, width as int, height as int);
        }
        while x < width
            invariant
                2 <= width <= 100000,
                2 <= height <= 100000,
                1 <= rays_per_pixel,
                width * height * 3 <= usize::MAX,
                ry < height,
                y == height - 1 - ry,
                x <= width,
                img@.len() == ry * width * 3 + x * 3,
                ry * width * 3 + width * 3 <= width * height * 3,
                forall|ry2: int, x2: int|
                    0 <= ry2 < ry && 0 <= x2 < width ==> #[trigger] pixel_bytes_ok(
                        img@,
                        *world,
                        *camera,
                        width as int,
                        height as int,
                        rays_per_pixel,
                        max_light_bounce_num as int,
                        ry2,
                        x2,
                    ),
                forall|x2: int|
                    0 <= x2 < x ==> #[trigger] pixel_bytes_ok(
                        img@,
                        *world,
                        *camera,
                        width as int,
                        height as int,
                        rays_per_pixel,
                        max_light_bounce_num as int,
                        ry as int,
                        x2,
                    ),
            decreases width - x,
        {
            let c = render_pixel(
                world,
                camera,
                x,
                y,
                width,
                height,
                rays_per_pixel,
                max_light_bounce_num,
                rng,
            );
            let rgb = color_to_rgb8(c, rays_per_pixel);
            let ghost prev = img@;
            img.push(rgb.0);
            img.push(rgb.1);
            img.push(rgb.2);
            proof {
                let wi = width as int;
                let hi = height as int;
                let ryi = ry as int;
                let xi = x as int;
                let di = max_light_bounce_num as int;
                assert(img@ == prev.push(rgb.0).push(rgb.1).push(rgb.2));
                lemma_push3_new(prev, rgb.0, rgb.1, rgb.2);
                assert(ryi * wi * 3 + xi * 3 == 3 * (ryi * wi + xi)) by (nonlinear_arith);
                assert(pixel_sum_ok(
                    *world,
                    *camera,
                    xi,
                    hi - 1 - ryi,
                    wi,
                    hi,
                    rays_per_pixel as int,
                    di,
                    c,
                ));
                assert(img@[3 * (ryi * wi + xi)] == gamma_byte_spec(c.x, rays_per_pixel));
                assert(img@[3 * (ryi * wi + xi) + 1] == gamma_byte_spec(c.y, rays_per_pixel));
                assert(img@[3 * (ryi * wi + xi) + 2] == gamma_byte_spec(c.z, rays_per_pixel));
                assert(pixel_bytes_ok(
                    img@,
                    *world,
                    *camera,
                    wi,
                    hi,
                    rays_per_pixel,
                    di,
                    ryi,
                    xi,
                ));
                assert forall|ry2: int, x2: int|
                    (0 <= ry2 < ryi && 0 <= x2 < wi) || (ry2 == ryi && 0 <= x2
                        < xi) implies #[trigger] pixel_bytes_ok(
                    img@,
                    *world,
                    *camera,
                    wi,
                    hi,
                    rays_per_pixel,
                    di,
                    ry2,
                    x2,
                ) by {
                    assert(pixel_bytes_ok(
                        prev,
                        *world,
                        *camera,
                        wi,
                        hi,
                        rays_per_pixel,
                        di,
                        ry2,
                        x2,
                    ));
                    let cw = choose|cw: Vec3|
                        pixel_sum_ok(
                            *world,
                            *camera,
                            x2,
                            hi - 1 - ry2,
                            wi,
                            hi,
                            rays_per_pixel as int,
                            di,
                            cw,
                        ) && 0 <= 3 * (ry2 * wi + x2) && 3 * (ry2 * wi + x2) + 2 < prev.len()
                            && prev[3 * (ry2 * wi + x2)] == gamma_byte_spec(cw.x, rays_per_pixel)
                            && prev[3 * (ry2 * wi + x2) + 1] == gamma_byte_spec(
                            cw.y,
                            rays_per_pixel,
                        ) && prev[3 * (ry2 * wi + x2) + 2] == gamma_byte_spec(
                            cw.z,
                            rays_per_pixel,
                        );
                    lemma_push3_old(prev, rgb.0, rgb.1, rgb.2, 3 * (ry2 * wi + x2));
                    lemma_push3_old(prev, rgb.0, rgb.1, rgb.2, 3 * (ry2 * wi + x2) + 1);
                    lemma_push3_old(prev, rgb.0, rgb.1, rgb.2, 3 * (ry2 * wi + x2) + 2);
                }
            }
            x = x + 1;
        }
        proof {
            assert(ry * width * 3 + width * 3 == (ry + 1) * width * 3) by (nonlinear_arith);
        }
        ry = ry + 1;
    }
    proof {
        assert(height * width * 3 == width * height * 3) by (nonlinear_arith);
    }
    img
}

/// One row of pixels fits within the whole image's byte count.
proof fn lemma_row_bound(ry: int, width: int, height: int)
    requires
        0 <= ry < height,
        width >= 0,
    ensures
        ry * width * 3 + width * 3 <= width * height * 3,
{
    assert(ry * width * 3 + width * 3 == (ry + 1) * (width * 3)) by (nonlinear_arith);
    assert((ry + 1) * (width * 3) <= height * (width * 3)) by (nonlinear_arith)
        requires ry + 1 <= height && width * 3 >= 0;
    assert(height * (width * 3) == width * height * 3) by (nonlinear_arith);
}

/// The camera of the default setup: eye `(20, 3, 3)`, looking at the
/// origin, y up, a 20 degree vertical field of view and a 4:3 aspect
/// ratio, all in fixed point.
pub open spec fn results_camera_spec() -> Camera {
    camera_spec(
        v3(1310720, 196608, 196608),
        v_zero(),
        v3(0, FX_ONE, 0),
        1310720,
        fx_div_spec((640 * FX_ONE) as i64, (480 * FX_ONE) as i64),
    )
}

/// Render the default scene setup: a 640 x 480 image at 100 samples per
/// pixel and 5 bounces through that camera.  Every pixel of the result
/// holds the gamma bytes of a valid 100-sample sum for its vertically
/// flipped scene row.
pub fn generate_results(world: &World, rng: &mut rand::rngs::StdRng) -> (img: Vec<u8>)
    ensures
        img@.len() == 640 * 480 * 3,
        forall|ry: int, x: int|
            0 <= ry < 480 && 0 <= x < 640 ==> #[trigger] pixel_bytes_ok(
                img@,
                *world,
                results_camera_spec(),
                640,
                480,
                100,
                5,
                ry,
                x,
            ),
{
    let eye = Vec3::new(1310720, 196608, 196608);
    let target = Vec3::zero();
    let up = Vec3::new(0, FX_ONE, 0);
    let fov: i64 = 1310720;
    let aspect = fx_div(640 * FX_ONE, 480 * FX_ONE);
    let camera = Camera::new(eye, target, up, fov, aspect);
    proof {
        assert(camera == results_camera_spec());
    }
    let img = render_image(world, &camera, 640, 480, 100, 5, rng);
    proof {
        assert forall|ry: int, x: int|
            0 <= ry < 480 && 0 <= x < 640 implies #[trigger] pixel_bytes_ok(
            img@,
            *world,
            results_camera_spec(),
            640,
            480,
            100,
            5,
            ry,
            x,
        ) by {
            assert(pixel_bytes_ok(img@, *world, camera, 640, 480, 100, 5, ry, x));
        }
    }
    img
}

} // verus!
