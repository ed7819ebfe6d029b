//! The random draws behind every selection axis.
//!
//! All randomness enters through `random_below`; nothing is assumed of a
//! draw beyond its range, so every caller's contract holds for every
//! outcome.

use vstd::prelude::*;

verus! {

/// Relies on fastrand::usize: a draw from `[0, n)` out of the process-wide
/// generator; the range is non-empty, so the call cannot panic.
#[verifier::external_body]
pub fn random_below(n: usize) -> (r: usize)
    requires
        n > 0,
    ensures
        r < n,
{
    fastrand::usize(..n)
}

/// One draw that succeeds with probability `num / den`: certain when
/// `num >= den`, impossible when `num == 0`.
pub fn chance(num: usize, den: usize) -> (r: bool)
    requires
        den > 0,
    ensures
        num == 0 ==> !r,
        num >= den ==> r,
{
    let d = random_below(den);
    d < num
}

} // verus!
