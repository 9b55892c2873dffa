//! The source of chance, taken from the `rand` crate. What stands here is
//! believed, not proved.

use rand::Rng;
use vstd::prelude::*;

verus! {

/// `rand::rngs::ThreadRng`, the handle to the calling thread's generator.
/// Nothing is known of what is inside it.
#[verifier::external_type_specification]
#[verifier::external_body]
pub struct ExThreadRng(rand::rngs::ThreadRng);

/// `rand::thread_rng` hands out the calling thread's generator, seeded by
/// the system. Nothing is claimed of the handle it returns. It can fail only
/// where the system has no randomness to seed it with.
pub assume_specification[ rand::thread_rng ]() -> (rng: rand::rngs::ThreadRng)
;

/// One toss of a fair coin: `Rng::gen_ratio` with the ratio one in two, on
/// the thread's generator. Nothing is claimed of how the coin lands.
#[verifier::external_body]
pub(crate) fn toss(rng: &mut rand::rngs::ThreadRng) -> (heads: bool) {
    rng.gen_ratio(1, 2)
}

} // verus!
