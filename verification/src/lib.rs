//! A recursive Monte Carlo path tracer over spheres with diffuse and mirror
//! materials.  All geometry and color arithmetic is done in 16.16 fixed-point
//! (an `i64` holding the real value times 2^16), so the whole rendering core
//! is verified: camera-ray generation, analytic ray/sphere intersection, the
//! nearest-hit scan over the scene, material scattering, the bounded trace
//! loop, and the per-pixel averaging with gamma correction.
//!
//! Randomness comes from a seeded generator behind a small trusted boundary;
//! image encoding and parallel dispatch live outside the library.

pub mod camera;
pub mod fixed;
pub mod material;
pub mod ray;
pub mod render;
pub mod rng;
pub mod sphere;
pub mod trig;
pub mod vec3;
pub mod world;
