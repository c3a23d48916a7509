//! Sine and cosine on fixed-point angles.
//!
//! Angles are fractions of a full turn scaled by 2^16 (so `65536` is one
//! turn).  A polynomial approximates the first quarter turn and symmetry
//! extends it to the rest; each executable function returns exactly what its
//! spec mirror says.

use vstd::prelude::*;

use crate::fixed::{fx_div, fx_mul, fx_neg, fx_sub, FX_ONE};
use crate::fixed::{fx_div_spec, fx_mul_spec, fx_neg_spec, fx_sub_spec};

verus! {

/// One quarter turn.
pub const FX_QUARTER_TURN: i64 = 16384;

/// Two pi, scaled by 2^16.
pub const FX_TWO_PI: i64 = 411775;

/// 1/2, 1/24 and 1/720: the cosine series coefficients, scaled by 2^16.
pub const COS_C2: i64 = 32768;
pub const COS_C4: i64 = 2731;
pub const COS_C6: i64 = 91;

/// Cosine of `f` turns for `f` within the first quarter, by a truncated
/// series in the squared radian angle.
pub open spec fn cos_quarter_spec(f: i64) -> i64 {
    let x = fx_mul_spec(f, FX_TWO_PI);
    let x2 = fx_mul_spec(x, x);
    let inner = fx_sub_spec(COS_C4, fx_mul_spec(x2, COS_C6));
    let mid = fx_sub_spec(COS_C2, fx_mul_spec(x2, inner));
    fx_sub_spec(FX_ONE, fx_mul_spec(x2, mid))
}

/// Cosine of `u` turns, `u` in `[0, 1)` of a turn, folded onto the first
/// quarter by the usual symmetries.
pub open spec fn cos_turn_spec(u: i64) -> i64 {
    if u < FX_QUARTER_TURN {
        cos_quarter_spec(u)
    } else if u < 2 * FX_QUARTER_TURN {
        fx_neg_spec(cos_quarter_spec((2 * FX_QUARTER_TURN - u) as i64))
    } else if u < 3 * FX_QUARTER_TURN {
        fx_neg_spec(cos_quarter_spec((u - 2 * FX_QUARTER_TURN) as i64))
    } else {
        cos_quarter_spec((4 * FX_QUARTER_TURN - u) as i64)
    }
}

/// Sine of `u` turns: the cosine a quarter turn behind.
pub open spec fn sin_turn_spec(u: i64) -> i64 {
    if u >= FX_QUARTER_TURN {
        cos_turn_spec((u - FX_QUARTER_TURN) as i64)
    } else {
        cos_turn_spec((u + 3 * FX_QUARTER_TURN) as i64)
    }
}

fn cos_quarter(f: i64) -> (r: i64)
    requires
        0 <= f <= FX_QUARTER_TURN,
    ensures
        r == cos_quarter_spec(f),
{
    let x = fx_mul(f, FX_TWO_PI);
    let x2 = fx_mul(x, x);
    let inner = fx_sub(COS_C4, fx_mul(x2, COS_C6));
    let mid = fx_sub(COS_C2, fx_mul(x2, inner));
    fx_sub(FX_ONE, fx_mul(x2, mid))
}

/// Cosine of a fraction of a turn.
pub fn cos_turn(u: i64) -> (r: i64)
    requires
        0 <= u < 4 * FX_QUARTER_TURN,
    ensures
        r == cos_turn_spec(u),
{
    if u < FX_QUARTER_TURN {
        cos_quarter(u)
    } else if u < 2 * FX_QUARTER_TURN {
        fx_neg(cos_quarter(2 * FX_QUARTER_TURN - u))
    } else if u < 3 * FX_QUARTER_TURN {
        fx_neg(cos_quarter(u - 2 * FX_QUARTER_TURN))
    } else {
        cos_quarter(4 * FX_QUARTER_TURN - u)
    }
}

/// Sine of a fraction of a turn.
pub fn sin_turn(u: i64) -> (r: i64)
    requires
        0 <= u < 4 * FX_QUARTER_TURN,
    ensures
        r == sin_turn_spec(u),
{
    if u >= FX_QUARTER_TURN {
        cos_turn(u - FX_QUARTER_TURN)
    } else {
        cos_turn(u + 3 * FX_QUARTER_TURN)
    }
}

/// Tangent of half of `fov` degrees, `fov` a fixed-point count of degrees
/// within `(0, 180)`: the half height of the camera's viewport.
pub open spec fn tan_half_degrees_spec(fov: i64) -> i64 {
    let u = fx_div_spec(fov, (720 * FX_ONE) as i64);
    fx_div_spec(sin_turn_spec(u), cos_turn_spec(u))
}

/// Tangent of half of `fov` degrees.
pub fn tan_half_degrees(fov: i64) -> (r: i64)
    requires
        0 < fov < 180 * FX_ONE,
    ensures
        r == tan_half_degrees_spec(fov),
{
    let u = fx_div(fov, 720 * FX_ONE);
    assert(0 <= u < FX_QUARTER_TURN);
    let s = sin_turn(u);
    let c = cos_turn(u);
    fx_div(s, c)
}

} // verus!
