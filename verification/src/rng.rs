//! The randomness source behind the piece bag: a ChaCha8 generator seeded
//! by the host. Nothing is assumed about the values drawn; everything proved
//! about the bag holds for every possible draw.

use vstd::prelude::*;

verus! {

#[verifier::external_type_specification]
#[verifier::external_body]
pub struct ExChaCha8Rng(rand_chacha::ChaCha8Rng);

/// Relies on `rand_core::SeedableRng::seed_from_u64` for
/// `rand_chacha::ChaCha8Rng`: builds a generator from a 64-bit seed.
#[verifier::external_body]
pub(crate) fn rng_from_seed(seed: u64) -> rand_chacha::ChaCha8Rng {
    <rand_chacha::ChaCha8Rng as rand_core::SeedableRng>::seed_from_u64(seed)
}

/// Relies on `rand_core::RngCore::next_u32` for
/// `rand_chacha::ChaCha8Rng`: draws the generator's next 32-bit value,
/// advancing its state. Nothing is assumed about the value drawn.
#[verifier::external_body]
pub(crate) fn next_u32(rng: &mut rand_chacha::ChaCha8Rng) -> u32 {
    rand_core::RngCore::next_u32(rng)
}

} // verus!
