//! Rule engine for a real-time hex-grid strategy board game: axial hex
//! coordinates, board occupancy bookkeeping, ray-based path computation,
//! pawn and bishop lifecycle state machines, and the geometric pattern
//! matcher that promotes groups of pawns into bishops.

use vstd::prelude::*;

pub mod bishop;
pub mod board;
pub mod engine;
pub mod events;
pub mod hex;
pub mod input;
pub mod matcher;
pub mod pawn;
pub mod pieces;
pub mod registry;
pub mod rng;
pub mod selection;

verus! {

/// One of the two opposing sides a piece or a tile occupancy belongs to.
#[derive(Clone, Copy, Debug, PartialEq, Eq, Structural)]
pub enum Faction {
    Blue,
    Red,
}

impl Faction {
    /// The opposing side.
    pub fn opponent(self) -> (r: Faction)
        ensures
            r == self.spec_opponent(),
    {
        match self {
            Faction::Blue => Faction::Red,
            Faction::Red => Faction::Blue,
        }
    }

    pub open spec fn spec_opponent(self) -> Faction {
        match self {
            Faction::Blue => Faction::Red,
            Faction::Red => Faction::Blue,
        }
    }
}

} // verus!
