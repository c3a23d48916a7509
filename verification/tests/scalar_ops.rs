//! Exact values and saturation behavior of the fixed-point scalar core,
//! the turn-based trigonometry, and the gamma byte conversion.

use path_tracer::fixed::{fx_add, fx_div, fx_mul, fx_neg, fx_sqrt, fx_sub, FX_MAX, FX_MIN, FX_ONE};
use path_tracer::render::color_to_rgb8;
use path_tracer::trig::{cos_turn, sin_turn, tan_half_degrees};
use path_tracer::vec3::Vec3;

#[test]
fn fx_mul_exact_products() {
    assert_eq!(fx_mul(3 * FX_ONE, 2 * FX_ONE), 6 * FX_ONE);
    assert_eq!(fx_mul(-3 * FX_ONE, 2 * FX_ONE), -6 * FX_ONE);
    assert_eq!(fx_mul(-3 * FX_ONE, -2 * FX_ONE), 6 * FX_ONE);
    // Half times a half is a quarter.
    assert_eq!(fx_mul(32768, 32768), 16384);
    // Tiny products truncate toward zero.
    assert_eq!(fx_mul(1, 1), 0);
    assert_eq!(fx_mul(-1, 1), 0);
}

#[test]
fn fx_div_exact_quotients() {
    assert_eq!(fx_div(FX_ONE, 2 * FX_ONE), 32768);
    assert_eq!(fx_div(6 * FX_ONE, -2 * FX_ONE), -3 * FX_ONE);
    assert_eq!(fx_div(-6 * FX_ONE, -2 * FX_ONE), 3 * FX_ONE);
    // Division by zero is defined as zero.
    assert_eq!(fx_div(7 * FX_ONE, 0), 0);
}

#[test]
fn fx_add_sub_saturate() {
    assert_eq!(fx_add(FX_ONE, 2 * FX_ONE), 3 * FX_ONE);
    assert_eq!(fx_add(FX_MAX, FX_MAX), FX_MAX);
    assert_eq!(fx_sub(FX_MIN, FX_MAX), FX_MIN);
    assert_eq!(fx_mul(FX_MAX, FX_MAX), FX_MAX);
    assert_eq!(fx_neg(i64::MIN), FX_MAX);
    assert_eq!(fx_neg(5), -5);
}

#[test]
fn fx_sqrt_exact_roots() {
    assert_eq!(fx_sqrt(4 * FX_ONE), 2 * FX_ONE);
    assert_eq!(fx_sqrt(FX_ONE), FX_ONE);
    assert_eq!(fx_sqrt(16384), 32768);
    assert_eq!(fx_sqrt(0), 0);
    assert_eq!(fx_sqrt(-5), 0);
    // 2 has an irrational root: sqrt(2) * 65536 is about 92681.9.
    assert_eq!(fx_sqrt(2 * FX_ONE), 92681);
}

#[test]
fn trig_quarter_turns() {
    assert_eq!(cos_turn(0), FX_ONE);
    assert_eq!(sin_turn(16384), FX_ONE);
    assert_eq!(cos_turn(32768), -FX_ONE);
    // The series leaves a small residue at the quarter turns.
    assert!(sin_turn(0).abs() <= 70);
    assert!(cos_turn(16384).abs() <= 70);
    assert!(sin_turn(32768).abs() <= 70);
}

#[test]
fn trig_tangent_values() {
    // tan(45 degrees) is exactly one: the sine and cosine terms coincide.
    assert_eq!(tan_half_degrees(90 * FX_ONE), FX_ONE);
    // tan(10 degrees) is about 0.17633, i.e. about 11556 in fixed point.
    let h = tan_half_degrees(20 * FX_ONE);
    assert!((11500..=11620).contains(&h), "h = {h}");
}

#[test]
fn gamma_bytes_exact() {
    // A full-white average maps to 255, a quarter average to half
    // brightness (128), black stays 0.
    assert_eq!(
        color_to_rgb8(Vec3::new(FX_ONE, 0, 16384), 1),
        (255, 0, 128)
    );
    // The same colors summed over four samples.
    assert_eq!(
        color_to_rgb8(Vec3::new(4 * FX_ONE, 0, FX_ONE), 4),
        (255, 0, 128)
    );
    // Averages above one clamp at 255; negatives clamp at 0.
    assert_eq!(color_to_rgb8(Vec3::new(2 * FX_ONE, -FX_ONE, 0), 1), (255, 0, 0));
}
