//! The engine's randomness source: thin trusted wrappers around `rand`.

use vstd::prelude::*;

use rand::seq::SliceRandom;
use rand::Rng;

use crate::upgrade::Upgrade;

verus! {

/// Relies on rand's `thread_rng` and `Rng::gen_range`: a draw from the
/// half-open range `0..n` is uniform and always below `n`. `gen_range`
/// panics on an empty range, so `n` must be positive.
#[verifier::external_body]
pub(crate) fn random_below(n: u32) -> (r: u32)
    requires
        n > 0,
    ensures
        r < n,
{
    rand::thread_rng().gen_range(0..n)
}

/// Relies on rand's `SliceRandom::choose_multiple`: it chooses the asked
/// number of elements without repetition, so drawing as many elements as
/// the slice holds yields every element exactly once — a permutation of
/// the input, in an order the documentation leaves open.
#[verifier::external_body]
pub(crate) fn choose_three(all: &Vec<Upgrade>) -> (r: Vec<Upgrade>)
    requires
        all@.len() == 3,
    ensures
        r@.to_multiset() == all@.to_multiset(),
{
    all.choose_multiple(&mut rand::thread_rng(), 3).cloned().collect()
}

} // verus!
