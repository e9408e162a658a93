//! Trusted boundary to the random-number generator.
//!
//! All randomness in the library flows through the seeded, portable
//! ChaCha generator, so that a fixed seed reproduces the same world on
//! every machine. Each function here is believed, not verified: its
//! contract states no more than the generator's documentation promises.
use vstd::prelude::*;

use rand::Rng;
use rand::SeedableRng;
use rand::seq::SliceRandom;
use rand_chacha::ChaCha8Rng;

verus! {

#[verifier::external_type_specification]
#[verifier::external_body]
pub struct ExChaCha8Rng(ChaCha8Rng);

/// The permutation that the seeded shuffle of `s` produces. ChaCha8 is a
/// portable, documented stream cipher and the in-place shuffle draws from
/// it deterministically, so the result is a function of the seed and the
/// slice alone; no short formula states which permutation comes out.
pub uninterp spec fn shuffled_by(seed: u64, s: Seq<usize>) -> Seq<usize>;

/// Relies on `ChaCha8Rng::seed_from_u64` and `SliceRandom::shuffle`: the
/// shuffle permutes the slice in place (same elements, same multiplicity)
/// and, driven by a freshly seeded ChaCha8 stream, depends on the seed
/// and the old contents alone.
#[verifier::external_body]
pub(crate) fn seeded_shuffle(seed: u64, v: &mut Vec<usize>)
    ensures
        final(v)@ == shuffled_by(seed, old(v)@),
        final(v)@.to_multiset() == old(v)@.to_multiset(),
{
    let mut rng = ChaCha8Rng::seed_from_u64(seed);
    v.shuffle(&mut rng);
}

/// Relies on `ChaCha8Rng::seed_from_u64`: a generator in its documented
/// seeded start state. Nothing about the state is visible to proofs.
#[verifier::external_body]
pub(crate) fn rng_from_seed(seed: u64) -> ChaCha8Rng {
    ChaCha8Rng::seed_from_u64(seed)
}

/// Relies on `Rng::gen_range`: a value drawn from the half-open range.
/// The call panics on an empty range, which the precondition rules out;
/// which value comes out is not promised.
#[verifier::external_body]
pub(crate) fn gen_range_i64(rng: &mut ChaCha8Rng, lo: i64, hi: i64) -> (r: i64)
    requires
        lo < hi,
    ensures
        lo <= r < hi,
{
    rng.gen_range(lo..hi)
}

/// Relies on `Rng::gen` for `bool`: a random draw; either value may come
/// out, so nothing is promised of it.
#[verifier::external_body]
pub(crate) fn gen_bool(rng: &mut ChaCha8Rng) -> bool {
    rng.gen()
}

/// Relies on `rand::random`: an arbitrary seed from the thread-local
/// generator, used only when the caller supplies none. Nothing is
/// promised of it.
#[verifier::external_body]
pub(crate) fn random_seed() -> u64 {
    rand::random()
}

} // verus!
