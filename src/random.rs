use rand::seq::SliceRandom;
use rand::Rng;
use vstd::prelude::*;

use crate::creature::Creature;

verus! {

/// Relies on rand::Rng::gen_range on rand::thread_rng: a value drawn from
/// `0..bound` (it panics only on an empty range, which `requires` excludes).
#[verifier::external_body]
pub(crate) fn random_below(bound: u64) -> (r: u64)
    requires
        bound > 0,
    ensures
        r < bound,
{
    rand::thread_rng().gen_range(0..bound)
}

/// Relies on rand::seq::SliceRandom::shuffle with rand::thread_rng: it
/// reorders the elements in place by swaps, so the same elements remain.
#[verifier::external_body]
pub(crate) fn shuffle_creatures(creatures: &mut Vec<Creature>)
    ensures
        final(creatures)@.to_multiset() == old(creatures)@.to_multiset(),
{
    creatures.shuffle(&mut rand::thread_rng());
}

} // verus!
