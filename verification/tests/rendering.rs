//! Material scattering, the trace loop, the scene builders, the random
//! boundary, and whole-image rendering.

use path_tracer::camera::Camera;
use path_tracer::fixed::{FX_MAX, FX_ONE};
use path_tracer::material::{Diffuse, Material, MaterialKind, Specular};
use path_tracer::ray::Ray;
use path_tracer::render::{ray_hit_color, render_image};
use path_tracer::rng::{rng_from_seed, rng_next_unit};
use path_tracer::sphere::{HitResult, Sphere};
use path_tracer::vec3::Vec3;
use path_tracer::world::World;

fn hit_at(position: Vec3, normal: Vec3) -> HitResult {
    HitResult {
        is_hit: true,
        position,
        normal,
        material: MaterialKind::Diffuse(Diffuse::new(Vec3::zero())),
        t: FX_ONE,
    }
}

fn scene_camera(aspect: i64) -> Camera {
    Camera::new(
        Vec3::new(20 * FX_ONE, 3 * FX_ONE, 3 * FX_ONE),
        Vec3::zero(),
        Vec3::new(0, FX_ONE, 0),
        20 * FX_ONE,
        aspect,
    )
}

#[test]
fn specular_head_on_reflection_is_exact() {
    let m = Specular::new(Vec3::new(FX_ONE, FX_ONE, FX_ONE));
    let ray = Ray::new(&Vec3::new(0, 0, 5 * FX_ONE), &Vec3::new(0, 0, -FX_ONE));
    let hit = hit_at(Vec3::new(0, 0, FX_ONE), Vec3::new(0, 0, FX_ONE));
    let res = m.scatter(&ray, &hit);
    assert_eq!(res.color, Vec3::new(FX_ONE, FX_ONE, FX_ONE));
    // The origin is offset along the normal by the epsilon.
    assert_eq!(res.ray.origin, Vec3::new(0, 0, FX_ONE + 7));
    // A head-on ray bounces straight back.
    assert_eq!(res.ray.direction, Vec3::new(0, 0, FX_ONE));
    // Angle in equals angle out: the outgoing cosine equals that of the
    // negated incoming direction.
    let n = hit.normal;
    let d_hat = ray.direction().normalize();
    assert_eq!(res.ray.direction.dot(n), d_hat.neg().dot(n));
}

#[test]
fn specular_tilted_reflection_preserves_angle() {
    let m = Specular::new(Vec3::new(FX_ONE, FX_ONE, FX_ONE));
    let ray = Ray::new(&Vec3::new(0, 0, 5 * FX_ONE), &Vec3::new(FX_ONE, 0, -FX_ONE));
    let hit = hit_at(Vec3::new(0, 0, FX_ONE), Vec3::new(0, 0, FX_ONE));
    let res = m.scatter(&ray, &hit);
    let n = hit.normal;
    let d_hat = ray.direction().normalize();
    let lhs = res.ray.direction.dot(n);
    let rhs = d_hat.neg().dot(n);
    assert!((lhs - rhs).abs() <= 2, "lhs = {lhs}, rhs = {rhs}");
    // The reflection leaves the surface on the incoming side.
    assert!(lhs > 0);
    // Determinism: the same inputs give bit-identical output.
    assert_eq!(res, m.scatter(&ray, &hit));
}

#[test]
fn diffuse_zero_draws_scatter_along_normal() {
    let d = Diffuse::new(Vec3::new(32768, 16384, 8192));
    let hit = hit_at(Vec3::zero(), Vec3::new(0, 0, FX_ONE));
    let res = d.scatter_with(&hit, 0, 0);
    // u1 = 0 puts all the weight on the normal axis.
    assert_eq!(res.ray.direction, Vec3::new(0, 0, FX_ONE));
    assert_eq!(res.ray.origin, Vec3::new(0, 0, 7));
    assert_eq!(res.color, Vec3::new(32768, 16384, 8192));
}

#[test]
fn diffuse_samples_stay_in_hemisphere_with_cosine_mean() {
    // Sweep a deterministic grid of draw pairs: every outgoing direction
    // must lie in the hemisphere above the surface (up to fixed-point
    // rounding), and the mean cosine against the normal is close to 2/3.
    let d = Diffuse::new(Vec3::new(FX_ONE, FX_ONE, FX_ONE));
    let hit = hit_at(Vec3::zero(), Vec3::new(0, 0, FX_ONE));
    let mut sum: i64 = 0;
    let mut count: i64 = 0;
    for i in 0..50 {
        for j in 0..50 {
            let u1 = i * 1310 + 5;
            let u2 = j * 1310 + 5;
            let res = d.scatter_with(&hit, u1, u2);
            let cos = res.ray.direction.z;
            assert!(cos >= -655, "below the surface: u1 = {u1}, u2 = {u2}, cos = {cos}");
            sum += cos;
            count += 1;
        }
    }
    let mean = sum / count;
    // 2/3 is about 43690 in fixed point; allow a few percent for the
    // grid and the arithmetic.
    assert!((41300..=46000).contains(&mean), "mean = {mean}");
}

#[test]
fn material_trait_returns_base_color() {
    let mut rng = rng_from_seed(11);
    let ray = Ray::new(&Vec3::new(0, 0, 5 * FX_ONE), &Vec3::new(0, 0, -FX_ONE));
    let hit = hit_at(Vec3::new(0, 0, FX_ONE), Vec3::new(0, 0, FX_ONE));
    let d = Diffuse::new(Vec3::new(100, 200, 300));
    assert_eq!(d.reflect(&ray, &hit, &mut rng).color, Vec3::new(100, 200, 300));
    let s = Specular::new(Vec3::new(5, 6, 7));
    assert_eq!(s.reflect(&ray, &hit, &mut rng).color, Vec3::new(5, 6, 7));
}

#[test]
fn trace_depth_zero_is_black_and_miss_is_white() {
    let mut rng = rng_from_seed(3);
    let mut world = World::default();
    world.generate_scene_one(MaterialKind::Specular(Specular::new(Vec3::new(
        FX_ONE, FX_ONE, FX_ONE,
    ))));
    let ray = Ray::new(&Vec3::new(0, 10 * FX_ONE, 0), &Vec3::new(0, FX_ONE, 0));
    // Depth exhausted: black, whatever the scene.
    assert_eq!(
        ray_hit_color(&ray, &world, 0, &mut rng),
        Vec3::new(0, 0, 0)
    );
    // A ray pointing straight up misses everything: the white background.
    assert_eq!(
        ray_hit_color(&ray, &world, 5, &mut rng),
        Vec3::new(FX_ONE, FX_ONE, FX_ONE)
    );
}

#[test]
fn scene_builders_populate_expected_counts() {
    let mut rng = rng_from_seed(9);
    let mut world = World::default();

    world.generate_scene_one(MaterialKind::Diffuse(Diffuse::new(Vec3::new(
        19661, 26214, 32768,
    ))));
    assert_eq!(world.spheres.len(), 2);
    assert_eq!(world.spheres[0].center, Vec3::new(4 * FX_ONE, FX_ONE, 0));
    assert_eq!(world.spheres[0].radius, FX_ONE);
    // The ground sphere: radius 2000, centered 2000 below the origin.
    assert_eq!(world.spheres[1].center, Vec3::new(0, -2000 * FX_ONE, 0));
    assert_eq!(world.spheres[1].radius, 2000 * FX_ONE);

    let fixed = MaterialKind::Specular(Specular::new(Vec3::new(FX_ONE, FX_ONE, FX_ONE)));
    world.generate_scene_multi(fixed, &mut rng);
    assert_eq!(world.spheres.len(), 37);
    for k in 0..36 {
        let s = &world.spheres[k];
        assert!((13107..=52429).contains(&s.radius));
        assert_eq!(s.center.y, s.radius);
        assert_eq!(s.material, fixed);
    }
    assert_eq!(world.spheres[36].radius, 2000 * FX_ONE);

    world.generate_scene_all(&mut rng);
    assert_eq!(world.spheres.len(), 151);
    for k in 0..150 {
        let s = &world.spheres[k];
        assert!((13107..=32768).contains(&s.radius));
        let c = match s.material {
            MaterialKind::Diffuse(d) => d.color,
            MaterialKind::Specular(sp) => sp.color,
        };
        for v in [c.x, c.y, c.z] {
            assert!((0..=FX_ONE).contains(&v));
        }
    }
}

#[test]
fn rng_draws_are_in_range_and_seed_deterministic() {
    let mut a = rng_from_seed(5);
    let mut b = rng_from_seed(5);
    for _ in 0..200 {
        let x = rng_next_unit(&mut a);
        assert!((0..FX_ONE).contains(&x));
        assert_eq!(x, rng_next_unit(&mut b));
    }
}

#[test]
fn end_to_end_single_sphere_scene() {
    // An end-to-end scenario: only the ground sphere and a
    // single pure-white mirror sphere at (4, 1, 0), eye at (20, 3, 3)
    // looking at the origin with a 20 degree field of view, five bounces.
    let mut rng = rng_from_seed(1);
    let mut world = World::default();
    world.generate_scene_one(MaterialKind::Specular(Specular::new(Vec3::new(
        FX_ONE, FX_ONE, FX_ONE,
    ))));

    let width: usize = 16;
    let height: usize = 12;
    let aspect = path_tracer::fixed::fx_div((width as i64) * FX_ONE, (height as i64) * FX_ONE);
    let cam = scene_camera(aspect);

    // The ray through the image center lands well inside the sphere's
    // silhouette and its mirror path bends down into the gray floor: the
    // color that comes back is attenuated, not the background.
    let probe = cam.generate_ray(32768, 32768);
    let c = ray_hit_color(&probe, &world, 5, &mut rng);
    assert_ne!(c, Vec3::new(FX_ONE, FX_ONE, FX_ONE));
    assert!(c.x < FX_ONE && c.y < FX_ONE && c.z < FX_ONE);

    // Render the whole frame: the top corners see only sky and are pure
    // white, exactly.
    let img = render_image(&world, &cam, width, height, 2, 5, &mut rng);
    assert_eq!(img.len(), width * height * 3);
    // Row 0 of the buffer is the top of the image.
    assert_eq!(&img[0..3], &[255, 255, 255]);
    let right = (width - 1) * 3;
    assert_eq!(&img[right..right + 3], &[255, 255, 255]);
}

#[test]
fn seeded_renders_are_bit_identical() {
    // Identical scene, camera and seed: the byte buffers match exactly.
    let aspect = path_tracer::fixed::fx_div(8 * FX_ONE, 6 * FX_ONE);
    let cam = scene_camera(aspect);

    let mut scene_rng1 = rng_from_seed(7);
    let mut world1 = World::default();
    world1.generate_scene_all(&mut scene_rng1);
    let mut rng1 = rng_from_seed(42);
    let img1 = render_image(&world1, &cam, 8, 6, 2, 3, &mut rng1);

    let mut scene_rng2 = rng_from_seed(7);
    let mut world2 = World::default();
    world2.generate_scene_all(&mut scene_rng2);
    let mut rng2 = rng_from_seed(42);
    let img2 = render_image(&world2, &cam, 8, 6, 2, 3, &mut rng2);

    assert_eq!(img1, img2);
}
