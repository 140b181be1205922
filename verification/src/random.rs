//! Randomness, behind trusted wrappers. Every draw is independent per call;
//! callers state only what holds of every outcome.

use vstd::prelude::*;

verus! {

/// Relies on rand's `Rng::gen_range` over `0..n` (uniform over the range,
/// panicking only on an empty one, which the precondition rules out).
#[verifier::external_body]
pub(crate) fn rand_index(n: usize) -> (r: usize)
    requires
        n > 0,
    ensures
        r < n,
{
    rand::Rng::gen_range(&mut rand::thread_rng(), 0..n)
}

/// Relies on rand's `Rng::gen_range` over `lo..=hi` (uniform over the
/// inclusive range, panicking only on an empty one, which the precondition
/// rules out).
#[verifier::external_body]
pub(crate) fn rand_between(lo: u64, hi: u64) -> (r: u64)
    requires
        lo <= hi,
    ensures
        lo <= r <= hi,
{
    rand::Rng::gen_range(&mut rand::thread_rng(), lo..=hi)
}

/// Relies on rand's `Rng::gen_ratio`: true with probability
/// `numerator / denominator`. It panics when the denominator is zero or the
/// ratio exceeds one, which the precondition rules out; nothing can be
/// promised of the value drawn.
#[verifier::external_body]
pub(crate) fn rand_ratio(numerator: u32, denominator: u32) -> bool
    requires
        0 < denominator,
        numerator <= denominator,
{
    rand::Rng::gen_ratio(&mut rand::thread_rng(), numerator, denominator)
}

} // verus!
