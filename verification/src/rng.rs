//! Trusted access to the process random-number generator, used for weight
//! initialisation and noise injection.

use vstd::prelude::*;

verus! {

/// Relies on rand::thread_rng and rand::Rng::gen_range over `lo..hi`:
/// the result lies in `[lo, hi)`; the call panics only on an empty range,
/// which the precondition rules out.
#[verifier::external_body]
pub(crate) fn rand_i32_range(lo: i32, hi: i32) -> (r: i32)
    requires
        lo < hi,
    ensures
        lo <= r < hi,
{
    rand::Rng::gen_range(&mut rand::thread_rng(), lo..hi)
}

/// Relies on rand::thread_rng and rand::Rng::gen_range over `0..n`:
/// the result lies below `n`; the call panics only on an empty range,
/// which the precondition rules out.
#[verifier::external_body]
pub(crate) fn rand_u32_below(n: u32) -> (r: u32)
    requires
        n > 0,
    ensures
        r < n,
{
    rand::Rng::gen_range(&mut rand::thread_rng(), 0..n)
}

} // verus!
