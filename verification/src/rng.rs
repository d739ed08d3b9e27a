//! The engine's entropy supply.
//!
//! Scatter directions, free-flight sampling and reflectance decisions all
//! draw from a [`RandomSource`] that the caller hands in, so every
//! evaluation context owns its own stream and the verified logic only ever
//! depends on the stated range of each draw, never on a particular value.

use vstd::prelude::*;

verus! {

/// The thread-local generator of the `rand` crate, declared so that a
/// [`RandomSource`] can hold one.
#[verifier::external_type_specification]
#[verifier::external_body]
pub struct ExThreadRng(rand::rngs::ThreadRng);

/// A stream of uniformly distributed fixed-point samples.
pub struct RandomSource {
    rng: rand::rngs::ThreadRng,
}

impl RandomSource {
    /// Relies on `rand::thread_rng`: retrieves the lazily initialized
    /// thread-local generator, seeded by the system.
    #[verifier::external_body]
    pub fn new() -> (r: RandomSource) {
        RandomSource { rng: rand::thread_rng() }
    }

    /// Relies on `rand::Rng::gen_range` over an inclusive range: returns a
    /// uniform sample within the range and panics only when the range is
    /// empty.
    #[verifier::external_body]
    pub fn next_in_range(&mut self, lo: i64, hi: i64) -> (r: i64)
        requires
            lo <= hi,
        ensures
            lo <= r <= hi,
    {
        self.rng.gen_range(lo..=hi)
    }
}

} // verus!

use rand::Rng;
