//! The engine's event boundary: abstract input events consumed from the
//! input collaborator and abstract output events emitted toward the
//! rendering/animation collaborator.

use vstd::prelude::*;
use crate::Faction;

verus! {

/// Mouse-like button carried by press and release events.
#[derive(Clone, Copy, Debug, PartialEq, Eq, Structural)]
pub enum Button {
    Primary,
    Secondary,
}

/// Abstract input events; tiles are referred to by their identity.
#[derive(Clone, Copy, Debug, PartialEq, Eq, Structural)]
pub enum InputEvent {
    TileHoverBegan { tile: usize },
    TileHoverEnded { tile: usize },
    TilePressed { tile: usize, button: Button },
    TileReleased { button: Button },
}

/// Visual style a tile can be asked to take.
#[derive(Clone, Copy, Debug, PartialEq, Eq, Structural)]
pub enum Style {
    Neutral,
    Blue,
    Red,
    Path,
    Highlight,
}

/// Which kind of piece an output event speaks about.
#[derive(Clone, Copy, Debug, PartialEq, Eq, Structural)]
pub enum PieceKind {
    Pawn,
    Bishop,
}

/// Animation clips the renderer is asked to play.
#[derive(Clone, Copy, Debug, PartialEq, Eq, Structural)]
pub enum Clip {
    Spawn,
    Idle,
    Action,
    Still,
}

/// Abstract output events toward the rendering collaborator. A piece is
/// identified by its kind and its index in the engine's piece list of that
/// kind.
#[derive(Clone, Copy, Debug, PartialEq, Eq, Structural)]
pub enum OutputEvent {
    SetTileStyle { tile: usize, style: Style },
    PieceCreated { kind: PieceKind, piece: usize, faction: Faction, tile: usize },
    /// A flying piece moved: it stands between `tile` and the next tile in
    /// direction `dir`, `progress_milli` thousandths of the way across.
    PieceMoved { kind: PieceKind, piece: usize, tile: usize, dir: usize, progress_milli: u64 },
    PieceAnimationRequested { kind: PieceKind, piece: usize, clip: Clip },
    PieceDestroyed { kind: PieceKind, piece: usize },
    /// A matched combination asks for a bishop of `faction` at `tile` once
    /// the merge animation completes.
    PromotionRequested { faction: Faction, tile: usize },
}

/// The style a tile should show for its current occupancy.
pub fn occupancy_style(o: Option<Faction>) -> (s: Style)
    ensures
        s == spec_occupancy_style(o),
{
    match o {
        Some(Faction::Blue) => Style::Blue,
        Some(Faction::Red) => Style::Red,
        None => Style::Neutral,
    }
}

pub open spec fn spec_occupancy_style(o: Option<Faction>) -> Style {
    match o {
        Some(Faction::Blue) => Style::Blue,
        Some(Faction::Red) => Style::Red,
        None => Style::Neutral,
    }
}

} // verus!
