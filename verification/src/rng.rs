//! Trusted wrappers around the random number generator. Nothing can be
//! promised about which value comes back, only that it lies in the requested
//! range; every function that consumes such a value is verified for all
//! values in that range.

use vstd::prelude::*;
use rand::Rng;

verus! {

/// Relies on rand::Rng::gen_range over `0..len`: the sample lies in the
/// half-open range, and the call panics only on an empty range, which the
/// precondition rules out.
#[verifier::external_body]
pub fn rand_index(len: usize) -> (r: usize)
    requires
        1 <= len,
    ensures
        r < len,
{
    rand::thread_rng().gen_range(0..len)
}

/// Relies on rand::Rng::gen_range over `lo..hi`: the sample lies in the
/// half-open range, and the call panics only on an empty range, which the
/// precondition rules out.
#[verifier::external_body]
pub fn rand_i64_between(lo: i64, hi: i64) -> (r: i64)
    requires
        lo < hi,
    ensures
        lo <= r < hi,
{
    rand::thread_rng().gen_range(lo..hi)
}

} // verus!
