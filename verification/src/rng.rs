//! The one source of randomness the library draws on.

use vstd::prelude::*;

verus! {

/// Relies on `rand::rng()` and `RngExt::random_range`: returns an index
/// drawn uniformly below `n`. The call panics only on an empty range,
/// which `n >= 1` rules out; nothing more can be promised of a random
/// value than its bound.
#[verifier::external_body]
pub(crate) fn random_below(n: usize) -> (r: usize)
    requires
        n >= 1,
    ensures
        r < n,
{
    rand::RngExt::random_range(&mut rand::rng(), 0..n)
}

} // verus!
