use rand::seq::SliceRandom;
use rand::Rng;
use rand::SeedableRng;
use rand_chacha::ChaCha8Rng;
use vstd::prelude::*;

verus! {

/// The seeded random generator the server draws all its randomness from.
#[verifier::external_type_specification]
#[verifier::external_body]
pub struct ExChaCha8Rng(ChaCha8Rng);

/// Creates the generator from a 64-bit seed (`SeedableRng::seed_from_u64`).
/// Nothing is stated of the generator's internal state.
#[verifier::external_body]
pub fn seeded_rng(seed: u64) -> ChaCha8Rng {
    ChaCha8Rng::seed_from_u64(seed)
}

/// Draws a uniformly distributed index below `bound` (`Rng::gen_range(0..bound)`).
/// Only the range of the result is stated: which value comes depends on the
/// generator's state.
#[verifier::external_body]
pub fn random_below(rng: &mut ChaCha8Rng, bound: u32) -> (r: u32)
    requires
        bound > 0,
    ensures
        r < bound,
{
    rng.gen_range(0..bound)
}

/// Draws a uniformly distributed 64-bit value (`Rng::gen::<u64>()`, one
/// `next_u64` of the generator). Nothing is stated of the value: it depends
/// on the generator's state.
#[verifier::external_body]
pub fn draw_u64(rng: &mut ChaCha8Rng) -> u64 {
    rng.gen::<u64>()
}

/// Shuffles the cells in place (`SliceRandom::shuffle`, a Fisher-Yates pass
/// of swaps). Stated: the result is a permutation of the input; which one
/// depends on the generator's state.
#[verifier::external_body]
pub fn shuffle_cells(cells: &mut Vec<usize>, rng: &mut ChaCha8Rng)
    ensures
        final(cells)@.to_multiset() == old(cells)@.to_multiset(),
{
    cells.shuffle(rng)
}

} // verus!
