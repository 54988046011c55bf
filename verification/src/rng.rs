//! The random source of the initial population.

use vstd::prelude::*;
use rand::Rng;

verus! {

/// `rand::rngs::ThreadRng`, a handle to the random number generator of the
/// current thread. Nothing is known of its state.
#[verifier::external_type_specification]
#[verifier::external_body]
pub struct ExThreadRng(rand::rngs::ThreadRng);

/// `rand::thread_rng`: hands out the generator of the current thread.
/// Nothing is claimed of the handle. The first call on a thread seeds the
/// generator from the operating system and panics where the system has no
/// entropy to give; no argument decides that.
pub assume_specification[ rand::thread_rng ]() -> (rng: rand::rngs::ThreadRng)
;

/// `Rng::gen_range` on the thread's generator, over the half-open range
/// from zero to `bound`. The call panics on an empty range, so `bound` must
/// not be zero. The sample lies below `bound`; nothing else is claimed of
/// it, and two calls may well differ.
#[verifier::external_body]
pub(crate) fn sample_below(rng: &mut rand::rngs::ThreadRng, bound: u32) -> (sample: u32)
    requires
        bound > 0,
    ensures
        sample < bound,
{
    rng.gen_range(0..bound)
}

} // verus!
