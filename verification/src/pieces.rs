//! Piece data and the pure steps of the two lifecycle state machines.
//!
//! Time is measured in milli-time-units (one thousandth of the reference
//! time-unit), so the fixed durations and the flight arithmetic stay in
//! exact integers.

use vstd::prelude::*;
use crate::Faction;

verus! {

/// Time a newly created piece spends settling in its spawn animation before
/// it becomes interactive.
pub const SETTLE_MS: u64 = 1200;

/// Time a pawn spends in its reproduction animation before returning to idle.
pub const ACTION_MS: u64 = 1500;

/// Time a merged-away pawn keeps flying toward the promotion tile before it
/// is destroyed and the promotion materializes.
pub const MERGE_MS: u64 = 500;

/// A flight step completes when progress reaches one, i.e. this many
/// thousandths.
pub const PROGRESS_ONE: u64 = 1000;

/// Initial flight speed: one tile per time-unit, in thousandths.
pub const SPEED_START: u64 = 1000;

/// Saturating sum of two durations.
pub open spec fn sat_add(a: u64, b: u64) -> u64 {
    if a + b > u64::MAX { u64::MAX } else { (a + b) as u64 }
}

/// Saturating sum of two durations.
pub fn saturating_add(a: u64, b: u64) -> (r: u64)
    ensures
        r == sat_add(a, b),
{
    if a > u64::MAX - b {
        u64::MAX
    } else {
        a + b
    }
}

/// Pawn lifecycle states.
#[derive(Clone, Copy, Debug, PartialEq, Eq, Structural)]
pub enum PawnState {
    /// Settling into existence for `SETTLE_MS`.
    Spawning { elapsed_ms: u64 },
    /// The steady state.
    Idle,
    /// Playing the reproduction animation for `ACTION_MS`.
    Acting { elapsed_ms: u64 },
    /// Consumed by a combination: flying toward the promotion tile for
    /// `MERGE_MS`, no longer registered or occupying.
    MergedAway { elapsed_ms: u64 },
    /// Destroyed.
    Gone,
}

/// A pawn: faction, current tile, lifecycle state, and its repeating
/// reproduction timer.
#[derive(Clone, Copy, Debug, PartialEq, Eq, Structural)]
pub struct PawnPiece {
    pub faction: Faction,
    pub tile: usize,
    pub state: PawnState,
    /// Reproduction interval, drawn once per pawn.
    pub interval_ms: u64,
    /// Time accumulated toward the next reproduction.
    pub timer_ms: u64,
}

/// The pawn stands on the board: it is registered and occupies its tile.
pub open spec fn pawn_present(s: PawnState) -> bool {
    s is Spawning || s is Idle || s is Acting
}

/// Bishop lifecycle states.
#[derive(Clone, Copy, Debug, PartialEq, Eq, Structural)]
pub enum BishopState {
    /// Settling into existence for `SETTLE_MS`.
    Spawning { elapsed_ms: u64 },
    /// Awaiting a direction choice.
    Idle,
    /// Flying along direction `dir`, `progress_milli` thousandths through
    /// the current step, accelerating at `speed_milli` thousandths of a tile
    /// per time-unit. Not registered and not occupying while in flight.
    Flying { dir: usize, progress_milli: u64, speed_milli: u64 },
    /// Destroyed: flew off the board or into an enemy-held tile.
    Gone,
}

/// A bishop: faction, current tile and lifecycle state.
#[derive(Clone, Copy, Debug, PartialEq, Eq, Structural)]
pub struct BishopPiece {
    pub faction: Faction,
    pub tile: usize,
    pub state: BishopState,
}

/// The bishop stands on the board: it is registered and occupies its tile.
pub open spec fn bishop_present(s: BishopState) -> bool {
    s is Spawning || s is Idle
}

/// One animation-timer step of a pawn's state: settling completes after
/// `SETTLE_MS`, the reproduction animation after `ACTION_MS`, and a
/// merged-away pawn is destroyed after `MERGE_MS`. Idle and destroyed states
/// are fixed points.
pub open spec fn spec_pawn_anim_step(s: PawnState, dt: u64) -> PawnState {
    match s {
        PawnState::Spawning { elapsed_ms } => {
            if sat_add(elapsed_ms, dt) >= SETTLE_MS {
                PawnState::Idle
            } else {
                PawnState::Spawning { elapsed_ms: sat_add(elapsed_ms, dt) }
            }
        },
        PawnState::Idle => PawnState::Idle,
        PawnState::Acting { elapsed_ms } => {
            if sat_add(elapsed_ms, dt) >= ACTION_MS {
                PawnState::Idle
            } else {
                PawnState::Acting { elapsed_ms: sat_add(elapsed_ms, dt) }
            }
        },
        PawnState::MergedAway { elapsed_ms } => {
            if sat_add(elapsed_ms, dt) >= MERGE_MS {
                PawnState::Gone
            } else {
                PawnState::MergedAway { elapsed_ms: sat_add(elapsed_ms, dt) }
            }
        },
        PawnState::Gone => PawnState::Gone,
    }
}

/// One animation-timer step of a pawn's state.
pub fn pawn_anim_step(s: PawnState, dt: u64) -> (r: PawnState)
    ensures
        r == spec_pawn_anim_step(s, dt),
{
    match s {
        PawnState::Spawning { elapsed_ms } => {
            let e = saturating_add(elapsed_ms, dt);
            if e >= SETTLE_MS { PawnState::Idle } else { PawnState::Spawning { elapsed_ms: e } }
        },
        PawnState::Idle => PawnState::Idle,
        PawnState::Acting { elapsed_ms } => {
            let e = saturating_add(elapsed_ms, dt);
            if e >= ACTION_MS { PawnState::Idle } else { PawnState::Acting { elapsed_ms: e } }
        },
        PawnState::MergedAway { elapsed_ms } => {
            let e = saturating_add(elapsed_ms, dt);
            if e >= MERGE_MS { PawnState::Gone } else { PawnState::MergedAway { elapsed_ms: e } }
        },
        PawnState::Gone => PawnState::Gone,
    }
}

/// A pawn's reproduction timer fires this tick: the pawn still stands on the
/// board and its accumulated time reaches its interval. A merged-away or
/// destroyed pawn never fires.
pub open spec fn spec_timer_fires(p: PawnPiece, dt: u64) -> bool {
    pawn_present(p.state) && sat_add(p.timer_ms, dt) >= p.interval_ms
}

/// The reproduction timer's accumulated time after a tick: it grows while
/// the pawn stands on the board and wraps back below the interval when it
/// fires (the timer repeats rather than firing once).
pub open spec fn spec_timer_after(p: PawnPiece, dt: u64) -> u64 {
    if !pawn_present(p.state) {
        p.timer_ms
    } else if spec_timer_fires(p, dt) {
        if p.interval_ms == 0 { 0 } else { sat_add(p.timer_ms, dt) % p.interval_ms }
    } else {
        sat_add(p.timer_ms, dt)
    }
}

/// One animation-timer step of a bishop's state: settling completes after
/// `SETTLE_MS`; idle, flying and destroyed states are not timer-driven.
pub open spec fn spec_bishop_anim_step(s: BishopState, dt: u64) -> BishopState {
    match s {
        BishopState::Spawning { elapsed_ms } => {
            if sat_add(elapsed_ms, dt) >= SETTLE_MS {
                BishopState::Idle
            } else {
                BishopState::Spawning { elapsed_ms: sat_add(elapsed_ms, dt) }
            }
        },
        _ => s,
    }
}

/// One animation-timer step of a bishop's state.
pub fn bishop_anim_step(s: BishopState, dt: u64) -> (r: BishopState)
    ensures
        r == spec_bishop_anim_step(s, dt),
{
    match s {
        BishopState::Spawning { elapsed_ms } => {
            let e = saturating_add(elapsed_ms, dt);
            if e >= SETTLE_MS { BishopState::Idle } else { BishopState::Spawning { elapsed_ms: e } }
        },
        _ => s,
    }
}

/// Flight progress after a tick: progress grows by `speed · dt`, saturating.
pub open spec fn spec_flight_progress(progress: u64, speed: u64, dt: u64) -> u64 {
    let total = progress + (speed * dt) / 1000;
    if total > u64::MAX { u64::MAX } else { total as u64 }
}

/// Flight speed after a tick: speed itself grows by `dt`, saturating, so the
/// flight accelerates.
pub open spec fn spec_flight_speed(speed: u64, dt: u64) -> u64 {
    sat_add(speed, dt)
}

/// Advance a flight by one tick: returns the new progress and speed.
pub fn advance_flight(progress: u64, speed: u64, dt: u64) -> (r: (u64, u64))
    ensures
        r.0 == spec_flight_progress(progress, speed, dt),
        r.1 == spec_flight_speed(speed, dt),
{
    proof {
        assert(speed as int * dt as int <= 0xffff_ffff_ffff_ffff * 0xffff_ffff_ffff_ffff)
            by (nonlinear_arith)
            requires
                0 <= speed as int <= 0xffff_ffff_ffff_ffff,
                0 <= dt as int <= 0xffff_ffff_ffff_ffff;
    }
    let inc: u128 = (speed as u128 * dt as u128) / 1000;
    let total: u128 = progress as u128 + inc;
    let new_progress: u64 = if total > u64::MAX as u128 { u64::MAX } else { total as u64 };
    (new_progress, saturating_add(speed, dt))
}

} // verus!
