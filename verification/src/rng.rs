//! Random number generation, backed by the `rand` crate.
//!
//! The sampler's hemisphere bounces need randomness; following the crate's
//! design of an explicitly passed, seedable source, every draw goes through
//! a [`rand::rngs::StdRng`] handed in by the caller.  Verified code reaches
//! `rand` only through the trusted wrappers below, and assumes nothing of a
//! drawn value beyond its range.

use vstd::prelude::*;

verus! {

use crate::fixed::SCALE;

#[verifier::external_type_specification]
#[verifier::external_body]
pub struct ExStdRng(rand::rngs::StdRng);

/// Relies on rand's `SeedableRng::seed_from_u64` for `StdRng`: builds a
/// generator from a 64-bit seed.
#[verifier::external_body]
pub fn rng_from_seed(seed: u64) -> rand::rngs::StdRng {
    <rand::rngs::StdRng as rand::SeedableRng>::seed_from_u64(seed)
}

/// Relies on rand's `Rng::gen_range`: returns a value in the given
/// half-open range, here `[-SCALE, SCALE)` — one coordinate of a point in
/// the unit cube.  `gen_range` panics only on an empty range; this range is
/// a nonempty constant.
#[verifier::external_body]
pub(crate) fn gen_unit_range(rng: &mut rand::rngs::StdRng) -> (r: i64)
    ensures
        -SCALE <= r < SCALE,
{
    rand::Rng::gen_range(rng, -SCALE..SCALE)
}

} // verus!
