//! What the library takes from the machine: random numbers and the time.

use rand::Rng;
use vstd::prelude::*;

verus! {

/// A point in time: whole seconds since the Unix epoch and the nanoseconds
/// within that second.
#[derive(Clone, Copy, Debug, PartialEq, Eq, Structural)]
pub struct Timestamp {
    pub secs: i64,
    pub nanos: u32,
}

/// Draws a number below `bound` with `rand::Rng::gen_range` on the thread's
/// generator. Trusted: the draw lies in `0..bound`. Which number comes is
/// left open; `gen_range` panics on an empty range, hence the `requires`.
#[verifier::external_body]
pub(crate) fn random_below(bound: usize) -> (n: usize)
    requires
        bound > 0,
    ensures
        n < bound,
{
    rand::thread_rng().gen_range(0..bound)
}

/// Reads the clock with `chrono::Utc::now` and keeps its seconds and
/// nanoseconds. Nothing is claimed of the time that comes back.
#[verifier::external_body]
pub(crate) fn now() -> (t: Timestamp) {
    let t = chrono::Utc::now();
    Timestamp { secs: t.timestamp(), nanos: t.timestamp_subsec_nanos() }
}

} // verus!
