//! Random draws. A single trusted primitive hands out one uniform machine
//! integer; every other draw the simulation needs is built on it in
//! verified code. Nothing beyond the range bound is assumed of a draw:
//! callers must hold for every outcome.

use vstd::prelude::*;

verus! {

/// Relies on rand::random_range over `0..n`, a uniform draw below `n` from
/// the thread-local generator. It panics only on an empty range, which the
/// precondition rules out.
#[verifier::external_body]
fn rng_below(n: u64) -> (r: u64)
    requires
        n >= 1,
    ensures
        r < n,
{
    rand::random_range(0..n)
}

/// A uniform draw in the half-open interval `[lo, hi)`.
pub fn rand_i64_range(lo: i64, hi: i64) -> (r: i64)
    requires
        lo < hi,
        hi - lo <= 0x4000_0000_0000_0000,
    ensures
        lo <= r < hi,
{
    let span: u64 = (hi - lo) as u64;
    let d = rng_below(span);
    lo + (d as i64)
}

/// A Bernoulli trial with probability `ppm` parts per million. The
/// deterministic edges are pinned: a probability at or below zero never
/// fires, one at or above a million always does.
pub fn bernoulli_ppm(ppm: i64) -> (r: bool)
    ensures
        ppm <= 0 ==> !r,
        ppm >= 1_000_000 ==> r,
{
    if ppm <= 0 {
        false
    } else if ppm >= 1_000_000 {
        true
    } else {
        let d = rng_below(1_000_000);
        d < (ppm as u64)
    }
}

} // verus!
