use vstd::prelude::*;

verus! {

/// `rand::random_range(0..bound)`: a value drawn by the thread-local
/// generator from `0..bound`; `rand` panics on an empty range, hence
/// `bound > 0`. Which value comes back is left to chance.
#[verifier::external_body]
fn random_below(bound: u64) -> (r: u64)
    requires
        bound > 0,
    ensures
        r < bound,
{
    rand::random_range(0..bound)
}

/// A random delay, in milliseconds, below `max_ms`, used to make readers and
/// writers of shared state overlap.
pub fn pick_sleep_time_ms(max_ms: u64) -> (ms: u64)
    requires
        max_ms > 0,
    ensures
        ms < max_ms,
{
    random_below(max_ms)
}

} // verus!
