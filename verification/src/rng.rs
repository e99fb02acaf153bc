//! The engine's only outside dependency: a thread-local random source. Each
//! wrapper states only what holds of every outcome, never which outcome
//! comes.

use vstd::prelude::*;

verus! {

/// Relies on rand::random::<bool>: a uniformly random boolean. Nothing can be
/// promised of the value.
#[verifier::external_body]
pub(crate) fn random_bool() -> bool {
    rand::random::<bool>()
}

/// Relies on rand::random_range over `0..n`: a uniformly random integer below
/// `n`. The call panics on an empty range, so `n` must be positive.
#[verifier::external_body]
pub(crate) fn random_below(n: usize) -> (r: usize)
    requires
        n >= 1,
    ensures
        r < n,
{
    rand::random_range(0..n)
}

/// Relies on rand::seq::SliceRandom::shuffle: permutes the slice in place, so
/// the new contents are a rearrangement of the old.
#[verifier::external_body]
pub(crate) fn shuffle(v: &mut Vec<usize>)
    ensures
        final(v)@.len() == old(v)@.len(),
        final(v)@.to_multiset() == old(v)@.to_multiset(),
{
    rand::seq::SliceRandom::shuffle(v.as_mut_slice(), &mut rand::rng())
}

} // verus!
