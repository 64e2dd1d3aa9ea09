//! The machine's source of random bytes, from the `rand` crate.
use vstd::prelude::*;

use rand::rngs::ThreadRng;
use rand::Rng;

verus! {

#[verifier::external_type_specification]
#[verifier::external_body]
pub struct ExThreadRng(rand::rngs::ThreadRng);

/// Relies on `rand::thread_rng`: a handle to the calling thread's generator,
/// seeded from the operating system on first use (it panics only if the
/// operating system cannot supply a seed).
#[verifier::external_body]
pub(crate) fn new_rng() -> (r: ThreadRng) {
    rand::thread_rng()
}

/// Relies on `rand::Rng::gen::<u8>` on a `ThreadRng`: one byte drawn
/// uniformly; nothing is known of its value.
#[verifier::external_body]
pub(crate) fn random_byte(rng: &mut ThreadRng) -> (r: u8) {
    rng.gen::<u8>()
}

} // verus!
