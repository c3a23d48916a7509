//! Rays, sphere intersection, the nearest-hit scan and the camera.

use path_tracer::camera::Camera;
use path_tracer::fixed::{FX_MAX, FX_ONE};
use path_tracer::material::{Diffuse, MaterialKind, Specular};
use path_tracer::ray::Ray;
use path_tracer::sphere::Sphere;
use path_tracer::vec3::Vec3;
use path_tracer::world::World;

fn gray() -> MaterialKind {
    MaterialKind::Diffuse(Diffuse::new(Vec3::new(32768, 32768, 32768)))
}

#[test]
fn ray_at_zero_is_origin() {
    let origin = Vec3::new(FX_ONE, 2 * FX_ONE, 3 * FX_ONE);
    let direction = Vec3::new(FX_ONE, 0, -FX_ONE);
    let r = Ray::new(&origin, &direction);
    assert_eq!(r.at(0), origin);
}

#[test]
fn ray_at_is_affine() {
    let origin = Vec3::new(FX_ONE, 2 * FX_ONE, 3 * FX_ONE);
    let direction = Vec3::new(FX_ONE, 0, -FX_ONE);
    let r = Ray::new(&origin, &direction);
    // origin + 2 * direction, exactly.
    assert_eq!(r.at(2 * FX_ONE), Vec3::new(3 * FX_ONE, 2 * FX_ONE, FX_ONE));
    // origin - direction, exactly.
    assert_eq!(r.at(-FX_ONE), Vec3::new(0, 2 * FX_ONE, 4 * FX_ONE));
    assert_eq!(r.direction(), direction);
}

#[test]
fn sphere_head_on_hit_lies_on_surface() {
    // Unit sphere at the origin, ray from (0, 0, 5) straight down the
    // negative view axis: the near root is t = 4 and the hit position
    // (0, 0, 1) has magnitude exactly R with normal position / R.
    let s = Sphere::new(Vec3::new(0, 0, 0), FX_ONE, gray());
    let r = Ray::new(&Vec3::new(0, 0, 5 * FX_ONE), &Vec3::new(0, 0, -FX_ONE));
    let hit = s.hit(&r, 66, FX_MAX);
    assert!(hit.is_hit);
    assert_eq!(hit.t, 4 * FX_ONE);
    assert_eq!(hit.position, Vec3::new(0, 0, FX_ONE));
    assert_eq!(hit.normal, Vec3::new(0, 0, FX_ONE));
    // |position| == R and the normal is the position divided by R.
    assert_eq!(hit.position.length(), s.radius);
    assert_eq!(hit.normal, hit.position.div_scalar(s.radius));
}

#[test]
fn sphere_missed_in_any_interval() {
    // A ray running parallel past the silhouette, 3 units off axis.
    let s = Sphere::new(Vec3::new(0, 0, 0), FX_ONE, gray());
    let r = Ray::new(
        &Vec3::new(0, 3 * FX_ONE, 5 * FX_ONE),
        &Vec3::new(0, 0, -FX_ONE),
    );
    assert!(!s.hit(&r, 0, FX_MAX).is_hit);
    assert!(!s.hit(&r, 66, 10 * FX_ONE).is_hit);
    assert!(!s.hit(&r, -FX_ONE, FX_ONE).is_hit);
}

#[test]
fn world_hit_prefers_strictly_closer_sphere() {
    // The farther sphere (hit at t = 4) is added first, the closer one
    // (hit at t = 1) second: distance wins over sequence order.
    let far = Sphere::new(
        Vec3::new(0, 0, 0),
        FX_ONE,
        MaterialKind::Diffuse(Diffuse::new(Vec3::new(FX_ONE, 0, 0))),
    );
    let near = Sphere::new(
        Vec3::new(0, 0, 3 * FX_ONE),
        FX_ONE,
        MaterialKind::Specular(Specular::new(Vec3::new(0, FX_ONE, 0))),
    );
    let ray = Ray::new(&Vec3::new(0, 0, 5 * FX_ONE), &Vec3::new(0, 0, -FX_ONE));

    let mut world = World::default();
    world.spheres.push(far);
    world.spheres.push(near);
    let hit = world.hit(&ray, 66, FX_MAX);
    assert!(hit.is_hit);
    assert_eq!(hit.t, FX_ONE);
    assert!(matches!(hit.material, MaterialKind::Specular(_)));

    // Same result with the insertion order reversed.
    let mut world2 = World::default();
    world2.spheres.push(near);
    world2.spheres.push(far);
    let hit2 = world2.hit(&ray, 66, FX_MAX);
    assert_eq!(hit2.t, FX_ONE);
    assert!(matches!(hit2.material, MaterialKind::Specular(_)));
}

#[test]
fn world_hit_tie_keeps_earlier_sphere() {
    // Two geometrically identical spheres: the later one is not strictly
    // closer, so the earlier one's material is kept.
    let a = Sphere::new(
        Vec3::new(0, 0, 0),
        FX_ONE,
        MaterialKind::Diffuse(Diffuse::new(Vec3::new(FX_ONE, 0, 0))),
    );
    let b = Sphere::new(
        Vec3::new(0, 0, 0),
        FX_ONE,
        MaterialKind::Specular(Specular::new(Vec3::new(0, FX_ONE, 0))),
    );
    let ray = Ray::new(&Vec3::new(0, 0, 5 * FX_ONE), &Vec3::new(0, 0, -FX_ONE));
    let mut world = World::default();
    world.spheres.push(a);
    world.spheres.push(b);
    let hit = world.hit(&ray, 66, FX_MAX);
    assert!(hit.is_hit);
    assert!(matches!(hit.material, MaterialKind::Diffuse(_)));
}

#[test]
fn world_hit_empty_scene_misses() {
    let world = World::default();
    let ray = Ray::new(&Vec3::new(0, 0, 0), &Vec3::new(0, 0, -FX_ONE));
    assert!(!world.hit(&ray, 66, FX_MAX).is_hit);
}

#[test]
fn camera_center_ray_looks_forward() {
    let eye = Vec3::new(20 * FX_ONE, 3 * FX_ONE, 3 * FX_ONE);
    let cam = Camera::new(
        eye,
        Vec3::zero(),
        Vec3::new(0, FX_ONE, 0),
        20 * FX_ONE,
        87381,
    );
    // Through the viewport center the offsets vanish and the direction is
    // exactly the negated view axis.
    let r = cam.generate_ray(32768, 32768);
    assert_eq!(r.origin, eye);
    assert_eq!(r.direction, cam.w.neg());
    // The view basis is built from unit vectors: w points from the target
    // toward the eye, so its length is one (up to the last fixed-point
    // digit).
    assert!((cam.w.length() - FX_ONE).abs() <= 16);
    assert!((cam.u.length() - FX_ONE).abs() <= 16);
}
