//! Fixed-point scalars: an `i64` holds a real value scaled by 2^16.
//!
//! Every operation saturates into the symmetric range `[-FX_MAX, FX_MAX]`
//! instead of overflowing, so all of them are total and each executable
//! function returns exactly what its spec mirror says.

use vstd::prelude::*;

verus! {

/// The fixed-point unit: 2^16.
pub const FX_ONE: i64 = 65536;

/// Largest representable value.
pub const FX_MAX: i64 = 9223372036854775807;

/// Smallest representable value; the range is symmetric so negation never
/// leaves it.
pub const FX_MIN: i64 = -9223372036854775807;

/// Magnitude of an integer.
pub open spec fn iabs(v: int) -> int {
    if v >= 0 { v } else { -v }
}

/// Clamp into the symmetric representable range.
pub open spec fn sat(v: int) -> int {
    if v > FX_MAX { FX_MAX as int } else if v < FX_MIN { FX_MIN as int } else { v }
}

/// Division by 2^16 rounding toward zero: the scaling step of a product.
pub open spec fn q16(p: int) -> int {
    if p >= 0 { p / 65536 } else { -((-p) / 65536) }
}

/// Division rounding toward zero, as machine division does; division by
/// zero is defined as zero so the operation is total.
pub open spec fn tdiv(p: int, q: int) -> int {
    if q == 0 { 0 }
    else if p >= 0 && q > 0 { p / q }
    else if p < 0 && q < 0 { (-p) / (-q) }
    else if p < 0 { -((-p) / q) }
    else { -(p / (-q)) }
}

pub open spec fn fx_add_spec(a: i64, b: i64) -> i64 {
    sat(a + b) as i64
}

pub open spec fn fx_sub_spec(a: i64, b: i64) -> i64 {
    sat(a - b) as i64
}

pub open spec fn fx_neg_spec(a: i64) -> i64 {
    sat(-a) as i64
}

pub open spec fn fx_mul_spec(a: i64, b: i64) -> i64 {
    sat(q16(a * b)) as i64
}

pub open spec fn fx_div_spec(a: i64, b: i64) -> i64 {
    if b == 0 { 0 } else { sat(tdiv(a * 65536, b as int)) as i64 }
}

/// The magnitude of a product is the product of the magnitudes, and the
/// product is negative exactly when the signs differ and neither factor is
/// zero.
proof fn lemma_abs_mul(a: int, b: int)
    by (nonlinear_arith)
    ensures
        iabs(a * b) == iabs(a) * iabs(b),
        (a * b < 0) <==> (((a < 0) != (b < 0)) && a != 0 && b != 0),
        (a * b == 0) <==> (a == 0 || b == 0),
{
}

/// Magnitude of an `i64`, correct also at the extreme value.
pub fn fx_abs64(a: i64) -> (r: u64)
    ensures
        r == iabs(a as int),
{
    if a >= 0 {
        a as u64
    } else {
        let w: i128 = -(a as i128);
        w as u64
    }
}

/// Apply a sign to a magnitude and clamp into the representable range.
fn sat_from_parts(neg: bool, m: u128) -> (r: i64)
    ensures
        r as int == sat(if neg { -(m as int) } else { m as int }),
{
    if neg {
        if m > 9223372036854775807u128 {
            FX_MIN
        } else {
            -(m as i64)
        }
    } else {
        if m > 9223372036854775807u128 {
            FX_MAX
        } else {
            m as i64
        }
    }
}

/// Saturating fixed-point addition.
pub fn fx_add(a: i64, b: i64) -> (r: i64)
    ensures
        r == fx_add_spec(a, b),
{
    let s: i128 = (a as i128) + (b as i128);
    if s > 9223372036854775807i128 {
        FX_MAX
    } else if s < -9223372036854775807i128 {
        FX_MIN
    } else {
        s as i64
    }
}

/// Saturating fixed-point subtraction.
pub fn fx_sub(a: i64, b: i64) -> (r: i64)
    ensures
        r == fx_sub_spec(a, b),
{
    let s: i128 = (a as i128) - (b as i128);
    if s > 9223372036854775807i128 {
        FX_MAX
    } else if s < -9223372036854775807i128 {
        FX_MIN
    } else {
        s as i64
    }
}

/// Saturating negation.
pub fn fx_neg(a: i64) -> (r: i64)
    ensures
        r == fx_neg_spec(a),
{
    if a < FX_MIN {
        FX_MAX
    } else {
        -a
    }
}

/// Saturating fixed-point multiplication: `(a * b) / 2^16`, rounded toward
/// zero.
pub fn fx_mul(a: i64, b: i64) -> (r: i64)
    ensures
        r == fx_mul_spec(a, b),
{
    let neg: bool = (a < 0) != (b < 0);
    let ma: u128 = fx_abs64(a) as u128;
    let mb: u128 = fx_abs64(b) as u128;
    proof {
        assert(ma * mb <= 0x8000000000000000u128 * 0x8000000000000000u128) by (nonlinear_arith)
            requires ma <= 0x8000000000000000u128 && mb <= 0x8000000000000000u128;
    }
    let m: u128 = ma * mb;
    let q: u128 = m / 65536;
    proof {
        lemma_abs_mul(a as int, b as int);
        assert(m == iabs((a as int) * (b as int)));
        assert(q == iabs((a as int) * (b as int)) / 65536);
        assert(q16((a as int) * (b as int)) == if (a as int) * (b as int) >= 0 { q as int } else { -(q as int) });
    }
    let r = sat_from_parts(neg, q);
    proof {
        if (a as int) * (b as int) == 0 {
            assert(q == 0);
        }
    }
    r
}

/// Saturating fixed-point division: `(a * 2^16) / b`, rounded toward zero;
/// zero when the divisor is zero.
pub fn fx_div(a: i64, b: i64) -> (r: i64)
    ensures
        r == fx_div_spec(a, b),
{
    if b == 0 {
        return 0;
    }
    let neg: bool = (a < 0) != (b < 0);
    let ma: u128 = fx_abs64(a) as u128;
    let mb: u128 = fx_abs64(b) as u128;
    let num: u128 = ma * 65536;
    let q: u128 = num / mb;
    proof {
        let p: int = (a as int) * 65536;
        assert(iabs(p) == iabs(a as int) * 65536);
        assert(num == iabs(p));
        assert(q == iabs(p) / iabs(b as int));
        lemma_tdiv_parts(p, b as int);
        assert((p < 0) <==> (a < 0));
        assert(tdiv(p, b as int) == if ((a < 0) != (b < 0)) && a != 0 { -(q as int) } else { q as int });
    }
    let r = sat_from_parts(neg, q);
    proof {
        if a == 0 {
            assert(q == 0);
        }
    }
    r
}

/// Truncating division equals the signed quotient of the magnitudes.
proof fn lemma_tdiv_parts(p: int, q: int)
    requires
        q != 0,
    ensures
        tdiv(p, q) == if ((p < 0) != (q < 0)) && p != 0 { -(iabs(p) / iabs(q)) } else { iabs(p) / iabs(q) },
{
    if p == 0 {
        assert(tdiv(0, q) == 0) by {
            if q > 0 {
                assert(0int / q == 0);
            } else {
                assert(0int / (-q) == 0);
            }
        }
    }
}

/// A product with a factor in `[0, 1]` cannot exceed the other factor: a
/// reflectance attenuates, never amplifies.
pub proof fn lemma_fx_mul_unit(a: i64, b: i64)
    requires
        0 <= a <= FX_ONE,
        0 <= b,
    ensures
        0 <= fx_mul_spec(a, b) <= b,
{
    assert(0 <= a * b && a * b <= 65536 * b) by (nonlinear_arith)
        requires 0 <= a <= 65536 && 0 <= b;
    vstd::arithmetic::div_mod::lemma_div_is_ordered(0, a * b, 65536);
    vstd::arithmetic::div_mod::lemma_div_is_ordered(a * b, 65536 * b, 65536);
    vstd::arithmetic::div_mod::lemma_div_multiples_vanish(b as int, 65536);
}

/// Integer square root, rounded down: the unique `r >= 0` with
/// `r * r <= n < (r + 1) * (r + 1)`.
pub open spec fn sqrt_floor(n: int) -> int
    decreases n,
{
    if n <= 0 {
        0
    } else {
        let h = sqrt_floor(n / 4);
        if (2 * h + 1) * (2 * h + 1) <= n { 2 * h + 1 } else { 2 * h }
    }
}

/// `sqrt_floor` is characterized by bracketing squares.
pub proof fn lemma_sqrt_floor(n: int)
    requires
        n >= 0,
    ensures
        sqrt_floor(n) >= 0,
        sqrt_floor(n) * sqrt_floor(n) <= n,
        n < (sqrt_floor(n) + 1) * (sqrt_floor(n) + 1),
    decreases n,
{
    if n <= 0 {
    } else {
        lemma_sqrt_floor(n / 4);
        let h = sqrt_floor(n / 4);
        assert(4 * (n / 4) <= n && n <= 4 * (n / 4) + 3);
        assert((2 * h) * (2 * h) == 4 * (h * h)) by (nonlinear_arith);
        assert(h * h <= n / 4);
        assert(4 * (h * h) <= 4 * (n / 4));
        assert(n / 4 + 1 <= (h + 1) * (h + 1));
        assert((2 * h + 2) * (2 * h + 2) == 4 * ((h + 1) * (h + 1))) by (nonlinear_arith);
        assert(n < 4 * (n / 4 + 1));
        assert(4 * (n / 4 + 1) <= 4 * ((h + 1) * (h + 1)));
    }
}

/// Any value bracketed by its own squares is the integer square root.
pub proof fn lemma_sqrt_floor_unique(n: int, r: int)
    requires
        n >= 0,
        r >= 0,
        r * r <= n,
        n < (r + 1) * (r + 1),
    ensures
        r == sqrt_floor(n),
{
    lemma_sqrt_floor(n);
    let s = sqrt_floor(n);
    if r < s {
        assert((r + 1) * (r + 1) <= s * s) by (nonlinear_arith)
            requires 0 <= r && r < s;
    }
    if s < r {
        assert((s + 1) * (s + 1) <= r * r) by (nonlinear_arith)
            requires 0 <= s && s < r;
    }
}

/// Binary-search integer square root over the full `u128` range.
pub fn isqrt_u128(n: u128) -> (r: u128)
    ensures
        r == sqrt_floor(n as int),
{
    let mut lo: u128 = 0;
    let mut hi: u128 = if n < 0xffffffffffffffffu128 { n } else { 0xffffffffffffffffu128 };
    proof {
        if n < 0xffffffffffffffffu128 {
            assert(n < (n + 1) * (n + 1)) by (nonlinear_arith);
        } else {
            assert(n < (0xffffffffffffffffu128 + 1) * (0xffffffffffffffffu128 + 1)) by (nonlinear_arith)
                requires n <= u128::MAX;
        }
    }
    while lo < hi
        invariant
            lo <= hi,
            hi <= 0xffffffffffffffffu128,
            lo * lo <= n,
            n < (hi + 1) * (hi + 1),
        decreases hi - lo,
    {
        let mid: u128 = lo + (hi - lo + 1) / 2;
        assert(lo < mid && mid <= hi);
        let quot: u128 = n / mid;
        proof {
            assert(n == (n / mid) * mid + n % mid && n % mid < mid) by (nonlinear_arith)
                requires mid > 0;
        }
        if mid <= quot {
            proof {
                assert(mid * mid <= quot * mid) by (nonlinear_arith)
                    requires mid <= quot && mid > 0;
            }
            lo = mid;
        } else {
            proof {
                assert(quot * mid + mid <= mid * mid) by (nonlinear_arith)
                    requires quot < mid && mid > 0;
            }
            hi = mid - 1;
        }
    }
    proof {
        lemma_sqrt_floor_unique(n as int, lo as int);
    }
    lo
}

/// Square root of a fixed-point value, rounded down; nonpositive inputs
/// give zero.
pub open spec fn fx_sqrt_spec(x: i64) -> i64 {
    if x <= 0 { 0 } else { sqrt_floor(x * 65536) as i64 }
}

/// The fixed-point square root is nonnegative and well within range.
pub proof fn lemma_fx_sqrt_bounds(x: i64)
    ensures
        0 <= fx_sqrt_spec(x) < 0x10000000000i64,
{
    if x > 0 {
        lemma_sqrt_floor(x * 65536);
        let r = sqrt_floor(x * 65536);
        assert(x * 65536 < 0x100000000000000000000int);
        assert(r < 0x10000000000int) by (nonlinear_arith)
            requires r >= 0 && r * r <= x * 65536 && x * 65536 < 0x100000000000000000000int;
    }
}

/// Saturating fixed-point square root.
pub fn fx_sqrt(x: i64) -> (r: i64)
    ensures
        r == fx_sqrt_spec(x),
{
    if x <= 0 {
        return 0;
    }
    let n: u128 = (x as u128) * 65536;
    let s: u128 = isqrt_u128(n);
    proof {
        lemma_sqrt_floor(n as int);
        assert(s * s <= n);
        assert(s < 0x10000000000u128) by (nonlinear_arith)
            requires s * s <= n && n < 0x100000000000000000000u128;
    }
    s as i64
}

} // verus!
