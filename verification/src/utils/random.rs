//! Random numbers.

use vstd::prelude::*;
use rand::Rng;

verus! {

/// Draws a number from `0 .. n` with the thread's generator of the `rand`
/// crate (`rand::thread_rng`, then `Rng::gen_range`). The draw panics on an
/// empty range, so `n` must be positive; all that is known of the result is
/// that it lies in the range.
#[verifier::external_body]
pub(crate) fn random_below(n: u64) -> (r: u64)
    requires
        n > 0,
    ensures
        r < n,
{
    rand::thread_rng().gen_range(0..n)
}

} // verus!
