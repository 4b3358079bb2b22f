//! The random source that seeds a board: the generator that the `rand` crate
//! keeps for each thread.

use vstd::prelude::*;
use rand::rngs::ThreadRng;

verus! {

/// `rand::rngs::ThreadRng`, the handle on a thread's generator. It is only
/// passed along: nothing is known of what is inside.
#[verifier::external_type_specification]
#[verifier::external_body]
pub struct ExThreadRng(rand::rngs::ThreadRng);

/// Calls `rand::thread_rng`, which hands out a handle on the generator of the
/// calling thread. Nothing is claimed of the handle. Unproved: that the call
/// returns, which it does unless the system cannot seed the generator.
#[verifier::external_body]
pub(crate) fn thread_rng() -> (rng: ThreadRng) {
    rand::thread_rng()
}

/// Calls `rand::Rng::gen_range` on a thread's generator. Unproved, and taken
/// from the crate's documentation: the number drawn is at least `low` and
/// less than `high`. Which number of that range comes is left open. The
/// crate panics unless `low < high`, so that is required.
#[verifier::external_body]
pub(crate) fn gen_range(rng: &mut ThreadRng, low: i32, high: i32) -> (draw: i32)
    requires
        low < high,
    ensures
        low <= draw < high,
{
    rand::Rng::gen_range(rng, low, high)
}

} // verus!
