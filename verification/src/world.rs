//! The scene aggregate: an ordered collection of spheres, the closest-hit
//! scan over them, and the scene-construction procedures.

use vstd::prelude::*;

use crate::fixed::{fx_add, fx_mul, fx_sub, FX_ONE};
use crate::fixed::{fx_add_spec, fx_mul_spec};
use crate::material::{mat_wf, Diffuse, MaterialKind, Specular};
use crate::ray::Ray;
use crate::rng::rng_next_unit;
use crate::sphere::{miss_spec, sphere_hit_spec, HitResult, Sphere};
use crate::vec3::{v3, v_mul_spec, Vec3};

verus! {

broadcast use vstd::seq::group_seq_axioms;

/// The scene: an ordered sequence of spheres.
pub struct World {
    pub spheres: Vec<Sphere>,
}

/// Every material in the scene carries a reflectance color in `[0, 1]`.
pub open spec fn world_wf(w: World) -> bool {
    forall|i: int| 0 <= i < w.spheres@.len() ==> mat_wf(#[trigger] w.spheres@[i].material)
}

/// The closest-hit scan, sphere by sphere: a reported hit becomes the
/// running result only when it is strictly closer than the one held, and
/// the far end of the interval shrinks to the held hit's `t`; on a tie
/// the earlier sphere wins.
pub open spec fn world_hit_loop(
    spheres: Seq<Sphere>,
    ray: Ray,
    min_t: i64,
    max_t: i64,
    acc: HitResult,
) -> HitResult
    decreases spheres.len(),
{
    if spheres.len() == 0 {
        acc
    } else {
        let h = sphere_hit_spec(spheres[0], ray, min_t, max_t);
        if h.is_hit && (!acc.is_hit || h.t < acc.t) {
            world_hit_loop(spheres.drop_first(), ray, min_t, h.t, h)
        } else {
            world_hit_loop(spheres.drop_first(), ray, min_t, max_t, acc)
        }
    }
}

/// The nearest intersection of the ray with the scene in `[min_t, max_t]`,
/// or the non-hit record.
pub open spec fn world_hit_spec(w: World, ray: Ray, min_t: i64, max_t: i64) -> HitResult {
    world_hit_loop(w.spheres@, ray, min_t, max_t, miss_spec())
}

/// The scan either keeps its accumulator or reports a hit within the
/// interval, carrying the material of one of the scanned spheres.
proof fn lemma_world_loop_bound(
    spheres: Seq<Sphere>,
    ray: Ray,
    min_t: i64,
    max_t: i64,
    acc: HitResult,
)
    ensures
        world_hit_loop(spheres, ray, min_t, max_t, acc) == acc || (world_hit_loop(
            spheres,
            ray,
            min_t,
            max_t,
            acc,
        ).is_hit && min_t <= world_hit_loop(spheres, ray, min_t, max_t, acc).t <= max_t),
    decreases spheres.len(),
{
    if spheres.len() == 0 {
    } else {
        let h = sphere_hit_spec(spheres[0], ray, min_t, max_t);
        crate::sphere::lemma_sphere_hit_range(spheres[0], ray, min_t, max_t);
        if h.is_hit && (!acc.is_hit || h.t < acc.t) {
            lemma_world_loop_bound(spheres.drop_first(), ray, min_t, h.t, h);
        } else {
            lemma_world_loop_bound(spheres.drop_first(), ray, min_t, max_t, acc);
        }
    }
}

/// If any scanned sphere hits the interval, the scan's result is a hit at
/// most as far as that sphere's own report.
proof fn lemma_world_loop_nearest(
    spheres: Seq<Sphere>,
    ray: Ray,
    min_t: i64,
    max_t: i64,
    acc: HitResult,
    i: int,
)
    requires
        0 <= i < spheres.len(),
        sphere_hit_spec(spheres[i], ray, min_t, max_t).is_hit,
        acc.is_hit ==> acc.t == max_t,
    ensures
        world_hit_loop(spheres, ray, min_t, max_t, acc).is_hit,
        world_hit_loop(spheres, ray, min_t, max_t, acc).t <= sphere_hit_spec(
            spheres[i],
            ray,
            min_t,
            max_t,
        ).t,
    decreases spheres.len(),
{
    let h0 = sphere_hit_spec(spheres[0], ray, min_t, max_t);
    crate::sphere::lemma_sphere_hit_range(spheres[0], ray, min_t, max_t);
    let hi = sphere_hit_spec(spheres[i], ray, min_t, max_t);
    crate::sphere::lemma_sphere_hit_range(spheres[i], ray, min_t, max_t);
    if h0.is_hit && (!acc.is_hit || h0.t < acc.t) {
        // The first sphere's hit is adopted and the interval shrinks.
        if i == 0 || h0.t <= hi.t {
            lemma_world_loop_bound(spheres.drop_first(), ray, min_t, h0.t, h0);
        } else {
            crate::sphere::lemma_sphere_hit_shrink(spheres[i], ray, min_t, max_t, h0.t);
            assert(spheres.drop_first()[i - 1] == spheres[i]);
            lemma_world_loop_nearest(spheres.drop_first(), ray, min_t, h0.t, h0, i - 1);
        }
    } else {
        // Nothing is adopted: either the first sphere misses, or it ties
        // the held hit, whose `t` is the interval's far end already.
        if i == 0 || (acc.is_hit && acc.t <= hi.t) {
            lemma_world_loop_bound(spheres.drop_first(), ray, min_t, max_t, acc);
        } else {
            assert(spheres.drop_first()[i - 1] == spheres[i]);
            lemma_world_loop_nearest(spheres.drop_first(), ray, min_t, max_t, acc, i - 1);
        }
    }
}

/// The scene scan returns the globally nearest intersection: whenever any
/// sphere of the scene reports a hit in the queried interval, the scan's
/// result is a hit with a parameter no larger than that report, whatever
/// position the sphere occupies in the sequence.  In particular, of two
/// overlapping spheres the one with the strictly smaller `t` wins, even if
/// the closer one was added later.
pub proof fn lemma_world_hit_nearest(w: World, ray: Ray, min_t: i64, max_t: i64, i: int)
    requires
        0 <= i < w.spheres@.len(),
        sphere_hit_spec(w.spheres@[i], ray, min_t, max_t).is_hit,
    ensures
        world_hit_spec(w, ray, min_t, max_t).is_hit,
        world_hit_spec(w, ray, min_t, max_t).t <= sphere_hit_spec(
            w.spheres@[i],
            ray,
            min_t,
            max_t,
        ).t,
{
    lemma_world_loop_nearest(w.spheres@, ray, min_t, max_t, miss_spec(), i);
}

/// The scan's outcome is its accumulator or some scanned sphere's own
/// report, against the original near end and a far end no larger than the
/// queried one.
proof fn lemma_world_loop_member(
    spheres: Seq<Sphere>,
    ray: Ray,
    min_t: i64,
    max_t: i64,
    acc: HitResult,
)
    ensures
        world_hit_loop(spheres, ray, min_t, max_t, acc) == acc || exists|i: int, m: i64|
            #![trigger sphere_hit_spec(spheres[i], ray, min_t, m)]
            0 <= i < spheres.len() && m <= max_t && world_hit_loop(spheres, ray, min_t, max_t, acc)
                == sphere_hit_spec(spheres[i], ray, min_t, m),
    decreases spheres.len(),
{
    if spheres.len() == 0 {
    } else {
        let h = sphere_hit_spec(spheres[0], ray, min_t, max_t);
        crate::sphere::lemma_sphere_hit_range(spheres[0], ray, min_t, max_t);
        if h.is_hit && (!acc.is_hit || h.t < acc.t) {
            lemma_world_loop_member(spheres.drop_first(), ray, min_t, h.t, h);
            let f = world_hit_loop(spheres.drop_first(), ray, min_t, h.t, h);
            if f == h {
                assert(f == sphere_hit_spec(spheres[0], ray, min_t, max_t));
            } else {
                let (i0, m0) = choose|i0: int, m0: i64|
                    0 <= i0 < spheres.drop_first().len() && m0 <= h.t && f == sphere_hit_spec(
                        spheres.drop_first()[i0],
                        ray,
                        min_t,
                        m0,
                    );
                assert(spheres.drop_first()[i0] == spheres[i0 + 1]);
                assert(f == sphere_hit_spec(spheres[i0 + 1], ray, min_t, m0));
            }
        } else {
            lemma_world_loop_member(spheres.drop_first(), ray, min_t, max_t, acc);
            let f = world_hit_loop(spheres.drop_first(), ray, min_t, max_t, acc);
            if f != acc {
                let (i0, m0) = choose|i0: int, m0: i64|
                    0 <= i0 < spheres.drop_first().len() && m0 <= max_t && f == sphere_hit_spec(
                        spheres.drop_first()[i0],
                        ray,
                        min_t,
                        m0,
                    );
                assert(spheres.drop_first()[i0] == spheres[i0 + 1]);
                assert(f == sphere_hit_spec(spheres[i0 + 1], ray, min_t, m0));
            }
        }
    }
}

/// A hit reported by the scene scan is some sphere's own hit record,
/// against the original near end and a far end no larger than the queried
/// one: together with `lemma_world_hit_nearest` this pins the scan to the
/// globally nearest intersection's record.
pub proof fn lemma_world_hit_member(w: World, ray: Ray, min_t: i64, max_t: i64)
    requires
        world_hit_spec(w, ray, min_t, max_t).is_hit,
    ensures
        exists|i: int, m: i64|
            #![trigger sphere_hit_spec(w.spheres@[i], ray, min_t, m)]
            0 <= i < w.spheres@.len() && m <= max_t && world_hit_spec(w, ray, min_t, max_t)
                == sphere_hit_spec(w.spheres@[i], ray, min_t, m),
{
    lemma_world_loop_member(w.spheres@, ray, min_t, max_t, miss_spec());
}

/// If no sphere of the scene hits the interval, the scan reports a miss.
pub proof fn lemma_world_hit_miss(w: World, ray: Ray, min_t: i64, max_t: i64)
    requires
        forall|i: int| 0 <= i < w.spheres@.len() ==> !(#[trigger] sphere_hit_spec(
            w.spheres@[i],
            ray,
            min_t,
            max_t,
        )).is_hit,
    ensures
        world_hit_spec(w, ray, min_t, max_t) == miss_spec(),
{
    lemma_world_loop_all_miss(w.spheres@, ray, min_t, max_t, miss_spec());
}

proof fn lemma_world_loop_all_miss(
    spheres: Seq<Sphere>,
    ray: Ray,
    min_t: i64,
    max_t: i64,
    acc: HitResult,
)
    requires
        forall|i: int| 0 <= i < spheres.len() ==> !(#[trigger] sphere_hit_spec(
            spheres[i],
            ray,
            min_t,
            max_t,
        )).is_hit,
    ensures
        world_hit_loop(spheres, ray, min_t, max_t, acc) == acc,
    decreases spheres.len(),
{
    if spheres.len() == 0 {
    } else {
        assert(!sphere_hit_spec(spheres[0], ray, min_t, max_t).is_hit);
        assert forall|i: int| 0 <= i < spheres.drop_first().len() implies !(
        #[trigger] sphere_hit_spec(spheres.drop_first()[i], ray, min_t, max_t)).is_hit by {
            assert(spheres.drop_first()[i] == spheres[i + 1]);
        }
        lemma_world_loop_all_miss(spheres.drop_first(), ray, min_t, max_t, acc);
    }
}

impl World {
    /// The nearest hit of the ray among all spheres in `[min_t, max_t]`.
    pub fn hit(&self, ray: &Ray, min_t: i64, max_t: i64) -> (res: HitResult)
        ensures
            res == world_hit_spec(*self, *ray, min_t, max_t),
            world_wf(*self) ==> mat_wf(res.material),
    {
        let mut result = HitResult::default();
        let mut cur_max = max_t;
        let n = self.spheres.len();
        let mut i: usize = 0;
        proof {
            assert(self.spheres@.skip(0) =~= self.spheres@);
        }
        while i < n
            invariant
                i <= n,
                n == self.spheres@.len(),
                world_hit_loop(self.spheres@.skip(i as int), *ray, min_t, cur_max, result)
                    == world_hit_spec(*self, *ray, min_t, max_t),
                result.is_hit ==> result.t == cur_max,
                world_wf(*self) ==> mat_wf(result.material),
            decreases n - i,
        {
            let h = self.spheres[i].hit(ray, min_t, cur_max);
            proof {
                assert(self.spheres@.skip(i as int)[0] == self.spheres@[i as int]);
                assert(self.spheres@.skip(i as int).drop_first() =~= self.spheres@.skip(
                    i as int + 1,
                ));
            }
            if h.is_hit && (!result.is_hit || h.t < result.t) {
                result = h;
                cur_max = h.t;
            }
            i = i + 1;
        }
        result
    }

    /// Append the large ground sphere: gray diffuse, radius 2000, centered
    /// 2000 below the origin.
    pub fn add_scene_floor(&mut self)
        ensures
            final(self).spheres@ == old(self).spheres@.push(floor_sphere()),
    {
        let material_floor = MaterialKind::Diffuse(Diffuse::new(Vec3::new(32768, 32768, 32768)));
        self.spheres.push(Sphere::new(Vec3::new(0, -131072000, 0), 131072000, material_floor));
    }
}

/// How `generate_spheres` picks a material for each grid sphere: a fixed
/// one handed in by the caller, or a randomized mix of diffuse and
/// specular.
pub enum MaterialPlan {
    Fixed(MaterialKind),
    RandomMix,
}

/// A color every one of whose components lies in `[0, 1)`, as a uniform
/// draw does.
pub open spec fn unit_color(c: Vec3) -> bool {
    &&& 0 <= c.x < FX_ONE
    &&& 0 <= c.y < FX_ONE
    &&& 0 <= c.z < FX_ONE
}

/// What the plan promises of a chosen material: a fixed plan hands the
/// material through unchanged.  The randomized mix always yields a
/// reflectance color in `[0, 1]`; a diffuse pick's color is the
/// component-wise product of two uniform colors, and a specular pick's
/// reflectance lies in `[0.5, 1)` per component.
pub open spec fn plan_ok(plan: MaterialPlan, m: MaterialKind) -> bool {
    match plan {
        MaterialPlan::Fixed(k) => m == k,
        MaterialPlan::RandomMix => mat_wf(m) && (match m {
            MaterialKind::Diffuse(d) => exists|a: Vec3, b: Vec3|
                unit_color(a) && unit_color(b) && d.color == #[trigger] v_mul_spec(a, b),
            MaterialKind::Specular(sp) => {
                &&& 32768 <= sp.color.x < FX_ONE
                &&& 32768 <= sp.color.y < FX_ONE
                &&& 32768 <= sp.color.z < FX_ONE
            },
        }),
    }
}

/// Scaling a uniform draw by one half keeps it strictly below one half.
proof fn lemma_half_scale(u: i64)
    requires
        0 <= u < FX_ONE,
    ensures
        0 <= fx_mul_spec(u, 32768) <= 32767,
{
    assert(0 <= u * 32768 <= 2147450880);
    vstd::arithmetic::div_mod::lemma_div_is_ordered(0, u * 32768, 65536);
    vstd::arithmetic::div_mod::lemma_div_is_ordered(u * 32768, 2147450880, 65536);
    assert(2147450880int / 65536 == 32767);
}

/// Probability mass (about 0.6) below which a randomized sphere is
/// diffuse rather than specular.
pub const DIFFUSE_PROB: i64 = 39322;

/// Pick a material per the plan.  A randomized diffuse color is the
/// component-wise product of two uniform colors; a randomized specular
/// reflectance lies in `[0.5, 1)` per component.  Either way the color is
/// a reflectance, within `[0, 1]`.
pub fn choose_material(plan: &MaterialPlan, rng: &mut rand::rngs::StdRng) -> (m: MaterialKind)
    ensures
        plan_ok(*plan, m),
{
    match plan {
        MaterialPlan::Fixed(k) => *k,
        MaterialPlan::RandomMix => {
            let pick = rng_next_unit(rng);
            if pick <= DIFFUSE_PROB {
                let a = Vec3::new(rng_next_unit(rng), rng_next_unit(rng), rng_next_unit(rng));
                let b = Vec3::new(rng_next_unit(rng), rng_next_unit(rng), rng_next_unit(rng));
                let c = a.mul_elem(b);
                proof {
                    crate::fixed::lemma_fx_mul_unit(a.x, b.x);
                    crate::fixed::lemma_fx_mul_unit(a.y, b.y);
                    crate::fixed::lemma_fx_mul_unit(a.z, b.z);
                    assert(unit_color(a) && unit_color(b) && c == v_mul_spec(a, b));
                }
                MaterialKind::Diffuse(Diffuse::new(c))
            } else {
                let half = Vec3::new(32768, 32768, 32768);
                let u = Vec3::new(rng_next_unit(rng), rng_next_unit(rng), rng_next_unit(rng));
                proof {
                    lemma_half_scale(u.x);
                    lemma_half_scale(u.y);
                    lemma_half_scale(u.z);
                }
                MaterialKind::Specular(Specular::new(half.plus(u.scale(32768))))
            }
        }
    }
}

/// How many spheres a grid over `[rs, re) x [cs, ce)` holds.
pub open spec fn grid_count(rs: int, re: int, cs: int, ce: int) -> int {
    if re > rs && ce > cs { (re - rs) * (ce - cs) } else { 0 }
}

/// What holds of every sphere the grid procedure appends: the radius was
/// drawn from `[min_r, max_r]`, the sphere sits on the ground plane
/// (`center.y == radius`), the material follows the plan, and the `x`/`z`
/// coordinates are a grid cell's corner plus a jitter of up to half a
/// unit.
pub open spec fn grid_sphere_ok(
    s: Sphere,
    rs: int,
    re: int,
    cs: int,
    ce: int,
    spacing: i64,
    min_r: i64,
    max_r: i64,
    plan: MaterialPlan,
) -> bool {
    &&& min_r <= s.radius <= max_r
    &&& s.center.y == s.radius
    &&& plan_ok(plan, s.material)
    &&& exists|r: int, c: int, ux: i64, uz: i64|
        #![trigger fx_mul_spec(spacing, (r * 65536) as i64), fx_mul_spec(spacing, (c * 65536) as i64), fx_mul_spec(ux, 32768), fx_mul_spec(uz, 32768)]
        rs <= r < re && cs <= c < ce && 0 <= ux < FX_ONE && 0 <= uz < FX_ONE
            && s.center.x == fx_add_spec(
            fx_mul_spec(spacing, (r * 65536) as i64),
            fx_mul_spec(ux, 32768),
        ) && s.center.z == fx_add_spec(
            fx_mul_spec(spacing, (c * 65536) as i64),
            fx_mul_spec(uz, 32768),
        )
}

impl World {
    /// Populate a grid of randomly sized, randomly jittered, randomly
    /// materialed spheres over the given row and column ranges.  Existing
    /// spheres are kept; one sphere is appended per grid cell.
    pub fn generate_spheres(
        &mut self,
        row_start: i32,
        row_end: i32,
        col_start: i32,
        col_end: i32,
        spacing: i64,
        min_radius: i64,
        max_radius: i64,
        plan: &MaterialPlan,
        rng: &mut rand::rngs::StdRng,
    )
        requires
            crate::fixed::FX_MIN <= min_radius <= max_radius,
            max_radius - min_radius <= crate::fixed::FX_MAX,
            old(self).spheres@.len() + grid_count(
                row_start as int,
                row_end as int,
                col_start as int,
                col_end as int,
            ) <= usize::MAX,
        ensures
            final(self).spheres@.len() == old(self).spheres@.len() + grid_count(
                row_start as int,
                row_end as int,
                col_start as int,
                col_end as int,
            ),
            forall|k: int|
                0 <= k < old(self).spheres@.len() ==> final(self).spheres@[k] == old(
                    self,
                ).spheres@[k],
            forall|k: int|
                old(self).spheres@.len() <= k < final(self).spheres@.len()
                    ==> grid_sphere_ok(
                    #[trigger] final(self).spheres@[k],
                    row_start as int,
                    row_end as int,
                    col_start as int,
                    col_end as int,
                    spacing,
                    min_radius,
                    max_radius,
                    *plan,
                ),
    {
        let ghost old_len = self.spheres@.len() as int;
        let ghost rs = row_start as int;
        let ghost re = row_end as int;
        let ghost cs = col_start as int;
        let ghost ce = col_end as int;
        let ghost cols = if ce > cs { ce - cs } else { 0 };
        let mut row = row_start;
        while row < row_end
            invariant
                rs == row_start as int && re == row_end as int,
                cs == col_start as int && ce == col_end as int,
                cols == (if ce > cs { ce - cs } else { 0 }),
                old_len == old(self).spheres@.len(),
                row_start <= row,
                row <= row_end || row == row_start,
                crate::fixed::FX_MIN <= min_radius <= max_radius,
                max_radius - min_radius <= crate::fixed::FX_MAX,
                old_len + grid_count(rs, re, cs, ce) <= usize::MAX,
                row < row_end ==> self.spheres@.len() == old_len + (row - row_start) * cols,
                row >= row_end ==> self.spheres@.len() == old_len + grid_count(rs, re, cs, ce),
                forall|k: int| 0 <= k < old_len ==> self.spheres@[k] == old(self).spheres@[k],
                forall|k: int|
                    old_len <= k < self.spheres@.len() ==> grid_sphere_ok(
                        #[trigger] self.spheres@[k],
                        rs,
                        re,
                        cs,
                        ce,
                        spacing,
                        min_radius,
                        max_radius,
                        *plan,
                    ),
            decreases row_end - row,
        {
            let mut col = col_start;
            proof {
                lemma_grid_partial(rs, re, cs, ce, row as int);
            }
            while col < col_end
                invariant
                    row_start <= row < row_end,
                    col_start <= col,
                    col <= col_end || col == col_start,
                    (row - row_start) * cols >= 0,
                    (row - row_start) * cols + cols <= grid_count(rs, re, cs, ce),
                    rs == row_start as int && re == row_end as int,
                    cs == col_start as int && ce == col_end as int,
                    cols == (if ce > cs { ce - cs } else { 0 }),
                    old_len == old(self).spheres@.len(),
                    crate::fixed::FX_MIN <= min_radius <= max_radius,
                    max_radius - min_radius <= crate::fixed::FX_MAX,
                    old_len + grid_count(rs, re, cs, ce) <= usize::MAX,
                    self.spheres@.len() == old_len + (row - row_start) * cols + (if col
                        > col_start {
                        col - col_start
                    } else {
                        0
                    }),
                    forall|k: int| 0 <= k < old_len ==> self.spheres@[k] == old(self).spheres@[k],
                    forall|k: int|
                        old_len <= k < self.spheres@.len() ==> grid_sphere_ok(
                            #[trigger] self.spheres@[k],
                            rs,
                            re,
                            cs,
                            ce,
                            spacing,
                            min_radius,
                            max_radius,
                            *plan,
                        ),
                decreases col_end - col,
            {
                let ur = rng_next_unit(rng);
                let span = fx_sub(max_radius, min_radius);
                proof {
                    crate::fixed::lemma_fx_mul_unit(ur, span);
                }
                let radius = fx_add(min_radius, fx_mul(ur, span));
                let ux = rng_next_unit(rng);
                let uz = rng_next_unit(rng);
                let cx = fx_add(fx_mul(spacing, (row as i64) * 65536), fx_mul(ux, 32768));
                let cz = fx_add(fx_mul(spacing, (col as i64) * 65536), fx_mul(uz, 32768));
                let center = Vec3::new(cx, radius, cz);
                let m = choose_material(plan, rng);
                let s = Sphere::new(center, radius, m);
                proof {
                    let r_w: int = row as int;
                    let c_w: int = col as int;
                    assert(s.center.x == fx_add_spec(
                        fx_mul_spec(spacing, (r_w * 65536) as i64),
                        fx_mul_spec(ux, 32768),
                    ));
                    assert(s.center.z == fx_add_spec(
                        fx_mul_spec(spacing, (c_w * 65536) as i64),
                        fx_mul_spec(uz, 32768),
                    ));
                    assert(min_radius <= s.radius <= max_radius);
                    assert(grid_sphere_ok(s, rs, re, cs, ce, spacing, min_radius, max_radius, *plan));
                }
                let ghost prev = self.spheres@;
                self.spheres.push(s);
                proof {
                    assert(prev.push(s).len() == prev.len() + 1);
                    assert(self.spheres@ == prev.push(s));
                    assert forall|k: int|
                        old_len <= k < self.spheres@.len() implies grid_sphere_ok(
                        #[trigger] self.spheres@[k],
                        rs,
                        re,
                        cs,
                        ce,
                        spacing,
                        min_radius,
                        max_radius,
                        *plan,
                    ) by {
                        assert(self.spheres@ == prev.push(s));
                        if k < prev.len() as int {
                            vstd::seq::lemma_seq_push_index_different_alt(prev, s, k);
                            assert(prev.push(s)[k] == prev[k]);
                        } else {
                            assert(k == prev.len() as int);
                            assert(prev.push(s)[k] == s);
                        }
                    }
                    assert forall|k: int| 0 <= k < old_len implies self.spheres@[k] == old(
                        self,
                    ).spheres@[k] by {
                        vstd::seq::lemma_seq_push_index_different_alt(prev, s, k);
                        assert(prev.push(s)[k] == prev[k]);
                    }
                }
                col = col + 1;
            }
            proof {
                lemma_grid_row_step(rs, re, cs, ce, row as int, cols);
            }
            row = row + 1;
        }
    }

    /// Rebuild the scene as a single unit sphere beside the ground sphere.
    pub fn generate_scene_one(&mut self, sphere_material: MaterialKind)
        ensures
            final(self).spheres@.len() == 2,
            final(self).spheres@[0] == hero_sphere(sphere_material),
            final(self).spheres@[1] == floor_sphere(),
            mat_wf(sphere_material) ==> world_wf(*final(self)),
    {
        self.spheres = Vec::new();
        self.spheres.push(Sphere::new(Vec3::new(262144, 65536, 0), 65536, sphere_material));
        self.add_scene_floor();
    }

    /// Rebuild the scene as a 6 x 6 grid of spheres of one material, over
    /// the ground sphere.
    pub fn generate_scene_multi(&mut self, sphere_material: MaterialKind, rng: &mut rand::rngs::StdRng)
        ensures
            final(self).spheres@.len() == 37,
            forall|k: int|
                0 <= k < 36 ==> grid_sphere_ok(
                    #[trigger] final(self).spheres@[k],
                    -3,
                    3,
                    -3,
                    3,
                    196608,
                    13107,
                    52429,
                    MaterialPlan::Fixed(sphere_material),
                ),
            final(self).spheres@[36] == floor_sphere(),
            mat_wf(sphere_material) ==> world_wf(*final(self)),
    {
        self.spheres = Vec::new();
        let plan = MaterialPlan::Fixed(sphere_material);
        self.generate_spheres(-3, 3, -3, 3, 196608, 13107, 52429, &plan, rng);
        self.add_scene_floor();
    }

    /// Rebuild the scene as a 15 x 10 grid of randomized spheres (diffuse
    /// with probability about 0.6, else specular), over the ground sphere.
    pub fn generate_scene_all(&mut self, rng: &mut rand::rngs::StdRng)
        ensures
            final(self).spheres@.len() == 151,
            forall|k: int|
                0 <= k < 150 ==> grid_sphere_ok(
                    #[trigger] final(self).spheres@[k],
                    -5,
                    10,
                    -5,
                    5,
                    98304,
                    13107,
                    32768,
                    MaterialPlan::RandomMix,
                ),
            final(self).spheres@[150] == floor_sphere(),
            world_wf(*final(self)),
    {
        self.spheres = Vec::new();
        let plan = MaterialPlan::RandomMix;
        self.generate_spheres(-5, 10, -5, 5, 98304, 13107, 32768, &plan, rng);
        self.add_scene_floor();
    }
}

/// A row's worth of cells fits inside the whole grid's count.
proof fn lemma_grid_partial(rs: int, re: int, cs: int, ce: int, row: int)
    requires
        rs <= row < re,
    ensures
        (row - rs) * (if ce > cs { ce - cs } else { 0 }) + (if ce > cs { ce - cs } else { 0 })
            <= grid_count(rs, re, cs, ce),
        (row - rs) * (if ce > cs { ce - cs } else { 0 }) >= 0,
{
    let cols = if ce > cs { ce - cs } else { 0 };
    assert((row - rs) * cols + cols == (row - rs + 1) * cols) by (nonlinear_arith);
    assert((row - rs + 1) * cols <= (re - rs) * cols) by (nonlinear_arith)
        requires row - rs + 1 <= re - rs && cols >= 0;
    assert((row - rs) * cols >= 0) by (nonlinear_arith)
        requires row - rs >= 0 && cols >= 0;
}

/// Finishing a row advances the count by one row's worth of cells.
proof fn lemma_grid_row_step(rs: int, re: int, cs: int, ce: int, row: int, cols: int)
    requires
        rs <= row < re,
        cols == (if ce > cs { ce - cs } else { 0 }),
    ensures
        (row - rs) * cols + cols == (row + 1 - rs) * cols,
        row + 1 >= re ==> (row + 1 - rs) * cols == grid_count(rs, re, cs, ce),
{
    assert((row - rs) * cols + cols == (row + 1 - rs) * cols) by (nonlinear_arith);
}

/// The single raised sphere of the one-sphere scene.
pub open spec fn hero_sphere(m: MaterialKind) -> Sphere {
    Sphere { center: v3(262144, 65536, 0), radius: 65536, material: m }
}

/// The ground sphere every scene stands on.
pub open spec fn floor_sphere() -> Sphere {
    Sphere {
        center: v3(0, -131072000i64, 0),
        radius: 131072000,
        material: MaterialKind::Diffuse(Diffuse { color: v3(32768, 32768, 32768) }),
    }
}

impl Default for World {
    fn default() -> (w: World)
        ensures
            w.spheres@ == Seq::<Sphere>::empty(),
    {
        World { spheres: Vec::new() }
    }
}

} // verus!
