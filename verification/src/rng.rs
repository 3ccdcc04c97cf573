//! The library's only source of randomness: a seedable generator of the rand
//! crate behind trusted declarations. Nothing is assumed of the values drawn
//! beyond the range that the documentation promises, so every caller is
//! verified for each value that can come back.
use vstd::prelude::*;
use rand::RngExt;
use rand::SeedableRng;
use rand::rngs::StdRng;

verus! {

#[verifier::external_type_specification]
#[verifier::external_body]
pub struct ExStdRng(StdRng);

/// Relies on rand's `SeedableRng::seed_from_u64`: builds a generator from a
/// 64-bit seed. Nothing is claimed of the generator's state.
#[verifier::external_body]
pub(crate) fn rng_from_seed(seed: u64) -> StdRng {
    StdRng::seed_from_u64(seed)
}

/// Relies on rand's `RngExt::random_range` over `lo..hi`: the sample lies in
/// the half-open range, and the call panics only on an empty range, which the
/// precondition rules out.
#[verifier::external_body]
pub(crate) fn sample_range(rng: &mut StdRng, lo: i64, hi: i64) -> (r: i64)
    requires
        lo < hi,
    ensures
        lo <= r < hi,
{
    rng.random_range(lo..hi)
}

} // verus!
