//! The library's source of randomness: the thread-local generator of the
//! `rand` crate. Nothing here is proved; each contract states what the
//! crate's source shows of the call it makes.

use rand::rngs::ThreadRng;
use rand::seq::SliceRandom;
use rand::Rng;
use vstd::prelude::*;

verus! {

/// `rand::rngs::ThreadRng`, a handle to the generator of the current
/// thread. Its state is not modelled: no contract speaks of what a generator
/// will produce next.
#[verifier::external_type_specification]
#[verifier::external_body]
pub struct ExThreadRng(ThreadRng);

/// `rand::thread_rng` hands out a handle to the thread's generator. Nothing
/// is claimed of the handle. The call takes no input; it panics only where
/// the operating system gives the generator no entropy to start from.
pub assume_specification[ rand::thread_rng ]() -> (rng: ThreadRng);

/// `SliceRandom::choose` on a slice: `None` when the slice is empty,
/// otherwise a reference to the element at some index of the slice. Which
/// index is left open.
#[verifier::external_body]
pub(crate) fn choose_one<'a, T>(items: &'a [T], rng: &mut ThreadRng) -> (chosen: Option<&'a T>)
    ensures
        items@.len() == 0 ==> chosen is None,
        items@.len() > 0 ==> chosen is Some && items@.contains(*chosen.unwrap()),
{
    items.choose(rng)
}

/// `Rng::gen_range` on the inclusive range `low..=high`: some value of the
/// range. The call panics on an empty range, which `requires` rules out.
#[verifier::external_body]
pub(crate) fn gen_range_inclusive(rng: &mut ThreadRng, low: usize, high: usize) -> (value: usize)
    requires
        low <= high,
    ensures
        low <= value <= high,
{
    rng.gen_range(low..=high)
}

} // verus!
