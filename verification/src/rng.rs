//! Trusted bindings to the random source. Nothing is promised of which value
//! comes back, only of its range or of what the call leaves in place, so every
//! caller is verified for all outcomes.

use vstd::prelude::*;
use rand::Rng;
use rand::seq::SliceRandom;

verus! {

/// Relies on rand::Rng::gen_range: a uniformly drawn index strictly below
/// the bound.
#[verifier::external_body]
pub(crate) fn rand_below(n: usize) -> (r: usize)
    requires
        n > 0,
    ensures
        r < n,
{
    rand::thread_rng().gen_range(0..n)
}

/// Relies on rand::seq::SliceRandom::shuffle: an in-place uniform permutation
/// of the slice, so the elements afterwards are the elements before.
#[verifier::external_body]
pub(crate) fn shuffle_usizes(v: &mut Vec<usize>)
    ensures
        final(v)@.to_multiset() == old(v)@.to_multiset(),
{
    v.as_mut_slice().shuffle(&mut rand::thread_rng())
}

} // verus!
