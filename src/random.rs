//! Calls into the random number generator.
use rand::Rng;
use vstd::prelude::*;

verus! {

/// Relies on `rand::Rng::shuffle` (rand 0.4) on the thread-local generator:
/// it only swaps elements, so the result is a permutation of the input.
#[verifier::external_body]
pub(crate) fn shuffle(values: &mut Vec<usize>)
    ensures
        final(values)@.to_multiset() == old(values)@.to_multiset(),
        final(values)@.len() == old(values)@.len(),
{
    rand::thread_rng().shuffle(values.as_mut_slice());
}

/// Relies on `rand::Rng::gen::<bool>` (rand 0.4) on the thread-local
/// generator: a coin flip, of which nothing can be promised.
#[verifier::external_body]
pub(crate) fn coin_flip() -> bool {
    rand::thread_rng().gen::<bool>()
}

} // verus!
