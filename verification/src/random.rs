//! Trusted boundary to the process random number generator, used only when
//! a game runs in real-random mode. Deterministic mode never calls these.
//! Nothing is assumed of which values come back beyond their ranges and
//! distinctness: every caller is verified for every admissible outcome.

use vstd::prelude::*;

verus! {

/// Relies on rand::seq::index::sample: exactly `amount` distinct indices
/// drawn from `0..length` without replacement, in random order. The call
/// panics when `amount > length`, so that input is excluded here.
#[verifier::external_body]
pub fn sample_indices(length: usize, amount: usize) -> (r: Vec<usize>)
    requires
        amount <= length,
    ensures
        r@.len() == amount,
        forall|i: int| 0 <= i < r@.len() ==> #[trigger] r@[i] < length,
        forall|i: int, j: int| 0 <= i < j < r@.len() ==> r@[i] != r@[j],
{
    rand::seq::index::sample(&mut rand::thread_rng(), length, amount).into_vec()
}

/// Relies on rand::Rng::gen_range: a value uniformly drawn from the given
/// half-open range. The call panics on an empty range, so `length` must be
/// positive.
#[verifier::external_body]
pub fn random_index(length: usize) -> (r: usize)
    requires
        length > 0,
    ensures
        r < length,
{
    rand::Rng::gen_range(&mut rand::thread_rng(), 0..length)
}

} // verus!
