//! The trusted boundary to the pseudo-random number source.
//!
//! The rest of the library takes the drawn values as plain fixed-point
//! integers and is verified for every value in range.

use vstd::prelude::*;

verus! {

#[verifier::external_type_specification]
#[verifier::external_body]
pub struct ExStdRng(rand::rngs::StdRng);

/// Relies on rand's `SeedableRng::seed_from_u64` for `StdRng`: builds a
/// generator from a 64-bit seed.
#[verifier::external_body]
pub fn rng_from_seed(seed: u64) -> rand::rngs::StdRng {
    <rand::rngs::StdRng as rand::SeedableRng>::seed_from_u64(seed)
}

/// Relies on rand's `RngExt::random_range` over the nonempty range
/// `0..65536`: a uniform draw of one fixed-point unit, the `[0, 1)` of the
/// sampling formulas.  Nothing more is assumed of the outcome than its
/// range.
#[verifier::external_body]
pub fn rng_next_unit(rng: &mut rand::rngs::StdRng) -> (r: i64)
    ensures
        0 <= r < 65536,
{
    rand::RngExt::random_range(rng, 0i64..65536i64)
}

} // verus!
