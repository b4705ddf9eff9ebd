//! Trusted wrappers around the process-wide random number generator.
//!
//! Nothing can be promised about which value comes back, only that it lies
//! in the requested range; every caller is verified for all such values.

use vstd::prelude::*;

verus! {

/// Relies on rand::Rng::gen_range over `0..n`: a value below `n`.
/// gen_range panics on an empty range, which the precondition rules out.
#[verifier::external_body]
pub(crate) fn rand_below(n: usize) -> (r: usize)
    requires
        1 <= n,
    ensures
        r < n,
{
    rand::Rng::gen_range(&mut rand::thread_rng(), 0..n)
}

/// Relies on rand::Rng::gen_range over `lo..hi`: a value in `[lo, hi)`.
/// gen_range panics on an empty range, which the precondition rules out.
#[verifier::external_body]
pub(crate) fn rand_range_i64(lo: i64, hi: i64) -> (r: i64)
    requires
        lo < hi,
    ensures
        lo <= r < hi,
{
    rand::Rng::gen_range(&mut rand::thread_rng(), lo..hi)
}

/// Relies on rand::Rng::gen_ratio: true with probability
/// `numerator / denominator`. gen_ratio panics when the denominator is
/// zero or the ratio exceeds one, which the precondition rules out.
#[verifier::external_body]
pub(crate) fn rand_ratio(numerator: u32, denominator: u32) -> bool
    requires
        0 < denominator,
        numerator <= denominator,
{
    rand::Rng::gen_ratio(&mut rand::thread_rng(), numerator, denominator)
}

} // verus!
