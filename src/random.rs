//! The random source of the policies, and the draws they make from it.
use rand::rngs::StdRng;
use rand::{Rng, SeedableRng};
use rand::seq::SliceRandom;
use vstd::prelude::*;

verus! {

#[verifier::external_type_specification]
#[verifier::external_body]
pub struct ExStdRng(StdRng);

/// Relies on rand's `SeedableRng::from_entropy` for `StdRng`: a generator seeded by
/// the operating system (which panics only where the system has no entropy to give).
#[verifier::external_body]
pub(crate) fn entropy_rng() -> StdRng {
    StdRng::from_entropy()
}

/// Relies on rand's `SeedableRng::seed_from_u64` for `StdRng`: a generator whose draws
/// follow from `seed`.
#[verifier::external_body]
pub(crate) fn seeded_rng(seed: u64) -> StdRng {
    StdRng::seed_from_u64(seed)
}

/// Relies on rand's `Rng::gen_range` on `0..bound`: a value below `bound`. It panics on
/// an empty range, which `bound > 0` rules out.
#[verifier::external_body]
pub(crate) fn draw_below(rng: &mut StdRng, bound: usize) -> (r: usize)
    requires
        bound > 0,
    ensures
        r < bound,
{
    rng.gen_range(0..bound)
}

/// Relies on rand's `SliceRandom::shuffle`: the same items, in an order that the
/// generator picks (it only swaps items).
#[verifier::external_body]
pub(crate) fn shuffle(rng: &mut StdRng, v: &mut Vec<u32>)
    ensures
        final(v)@.len() == old(v)@.len(),
        final(v)@.to_multiset() == old(v)@.to_multiset(),
{
    v.shuffle(rng)
}

} // verus!
