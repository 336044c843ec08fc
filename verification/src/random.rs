//! The source of randomness: an in-place shuffle supplied by the `rand` crate.

use vstd::prelude::*;
use rand::seq::SliceRandom;

verus! {

/// Trusted: calls `rand::seq::SliceRandom::shuffle` on the vector's slice,
/// with the generator that `rand::thread_rng` returns.
///
/// The outcome is random, so the contract states only what holds of every
/// outcome: the shuffle moves items by swapping pairs of them, hence the
/// vector afterwards holds the same items, each as often as before. Nothing
/// is claimed about their order.
#[verifier::external_body]
pub(crate) fn shuffle_in_place<T>(items: &mut Vec<T>)
    ensures
        final(items)@.to_multiset() == old(items)@.to_multiset(),
{
    items.shuffle(&mut rand::thread_rng());
}

} // verus!
