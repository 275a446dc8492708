//! Randomness drawn from the thread-local generator.
use rand::Rng;
use vstd::prelude::*;

verus! {

/// Relies on `rand::Rng::gen_range` on `rand::thread_rng()`: for the half-open range
/// `min..max` it returns some value in it, and it panics on an empty range.
#[verifier::external_body]
pub(crate) fn usize(min: usize, max: usize) -> (r: usize)
    requires
        min < max,
    ensures
        min <= r < max,
{
    rand::thread_rng().gen_range(min..max)
}

} // verus!
