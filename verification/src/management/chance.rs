//! The random draws, which the `rand` crate makes. Verus reads none of its
//! code: what is stated here of its functions is taken on trust.

use rand::rngs::ThreadRng;
use rand::seq::SliceRandom;
use rand::Rng;
use vstd::prelude::*;

verus! {

/// `rand::rngs::ThreadRng`, the handle to the random number generator of the
/// current thread. Nothing is known of what it holds.
#[verifier::external_type_specification]
#[verifier::external_body]
pub struct ExThreadRng(rand::rngs::ThreadRng);

/// `rand::thread_rng` hands out the generator of the current thread. Nothing
/// is claimed of it.
pub assume_specification[ rand::thread_rng ]() -> (rng: ThreadRng);

/// `Rng::gen_range` on the inclusive range `low..=high`: the number drawn
/// lies in the range. The call panics on an empty range, which `low <= high`
/// rules out.
#[verifier::external_body]
pub(crate) fn gen_range_inclusive(rng: &mut ThreadRng, low: usize, high: usize) -> (drawn: usize)
    requires
        low <= high,
    ensures
        low <= drawn <= high,
{
    rng.gen_range(low..=high)
}

/// `SliceRandom::choose` on a list of numbers: one of its items, or nothing
/// if and only if the list is empty.
#[verifier::external_body]
pub(crate) fn choose_number(rng: &mut ThreadRng, numbers: &Vec<u32>) -> (chosen: Option<u32>)
    ensures
        match chosen {
            Some(number) => numbers@.contains(number),
            None => numbers@.len() == 0,
        },
{
    numbers.choose(rng).copied()
}

} // verus!
