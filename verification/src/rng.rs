//! Randomness for the engine: the reproduction-interval draw and the
//! randomized spawn-placement order. All randomness enters through one
//! trusted wrapper; everything done with the drawn numbers is verified.

use vstd::prelude::*;
use rand::Rng;

verus! {

/// Inclusive lower bound of a pawn's reproduction interval, in
/// milli-time-units.
pub const SPAWN_INTERVAL_MIN_MS: u64 = 2800;

/// Exclusive upper bound of a pawn's reproduction interval, in
/// milli-time-units.
pub const SPAWN_INTERVAL_MAX_MS: u64 = 3200;

/// Relies on rand::Rng::gen_range over `0..n`: the sample lies within the
/// given half-open range, which is non-empty because `n > 0`.
#[verifier::external_body]
fn random_below(n: u64) -> (r: u64)
    requires
        n > 0,
    ensures
        r < n,
{
    rand::thread_rng().gen_range(0..n)
}

/// Draw a pawn's reproduction interval. Every draw lies in
/// `[SPAWN_INTERVAL_MIN_MS, SPAWN_INTERVAL_MAX_MS)`.
pub fn sample_spawn_interval() -> (r: u64)
    ensures
        SPAWN_INTERVAL_MIN_MS <= r < SPAWN_INTERVAL_MAX_MS,
{
    SPAWN_INTERVAL_MIN_MS + random_below(SPAWN_INTERVAL_MAX_MS - SPAWN_INTERVAL_MIN_MS)
}

/// Pick a random index below `n`: used to draw the next candidate neighbor
/// without replacement, so simultaneous spawns do not all prefer the same
/// direction.
pub fn random_index(n: usize) -> (r: usize)
    requires
        n > 0,
    ensures
        r < n,
{
    random_below(n as u64) as usize
}

} // verus!
