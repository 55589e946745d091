//! The random source: the thread-local generator of `rand`, and the three
//! things the generator is asked for. Nothing in this file is proved; each
//! contract states what holds of every outcome of the call.

use rand::distributions::Uniform;
use rand::rngs::ThreadRng;
use rand::seq::SliceRandom;
use rand::Rng;
use vstd::prelude::*;

verus! {

/// `rand::rngs::ThreadRng`, a handle to the thread-local generator. Its state
/// is hidden: the contracts below say nothing of it.
#[verifier::external_type_specification]
#[verifier::external_body]
pub struct ExThreadRng(ThreadRng);

/// `rand::thread_rng`: hands out the handle. Nothing is claimed of it. The
/// call aborts only when the operating system cannot seed the generator.
pub assume_specification[ rand::thread_rng ]() -> (rng: ThreadRng)
;

/// `Rng::gen_range` on the inclusive range `low..=high`: the value drawn lies
/// in the range. The call panics on an empty range, which `requires` excludes.
#[verifier::external_body]
pub(crate) fn draw_inclusive(rng: &mut ThreadRng, low: usize, high: usize) -> (drawn: usize)
    requires
        low <= high,
    ensures
        low <= drawn <= high,
{
    rng.gen_range(low..=high)
}

/// `Rng::sample` on `Uniform::new(0, bound)`: the index drawn lies below
/// `bound`. `Uniform::new` panics on an empty range, which `requires` excludes.
#[verifier::external_body]
pub(crate) fn draw_index(rng: &mut ThreadRng, bound: usize) -> (index: usize)
    requires
        0 < bound,
    ensures
        index < bound,
{
    rng.sample(Uniform::new(0, bound))
}

/// `SliceRandom::shuffle`: swaps elements of the buffer in place, so the
/// buffer afterwards holds the same characters, each as often as before.
#[verifier::external_body]
pub(crate) fn shuffle_chars(buffer: &mut Vec<char>, rng: &mut ThreadRng)
    ensures
        final(buffer)@.to_multiset() == old(buffer)@.to_multiset(),
{
    buffer.shuffle(rng)
}

} // verus!
