//! Bishop lifecycle systems: directional attack-path exposure over the
//! shared ray-cast, launch into flight, the accelerating per-tick flight
//! step with its edge and collision rules, and path cancellation.

use vstd::prelude::*;
use crate::board::Board;
use crate::engine::Engine;
use crate::events::{OutputEvent, PieceKind, Clip, Style, occupancy_style, spec_occupancy_style};
use crate::hex::{HexCoord, ray_point, direction, lemma_ray_point_props};
use crate::pieces::{
    BishopPiece, BishopState, bishop_present, pawn_present, bishop_anim_step, spec_bishop_anim_step,
    advance_flight, spec_flight_progress, spec_flight_speed, PROGRESS_ONE, SPEED_START,
};
use crate::registry::RegEntry;
use crate::Faction;

verus! {

/// A bishop after one tick. A settling bishop settles; a flying bishop
/// advances its progress and, when a step completes, checks the destination:
/// off the board it is destroyed, into an enemy-held tile it is destroyed
/// (the occupant is unaffected), otherwise it moves one tile onward and
/// keeps flying — it never stops on empty or allied territory.
pub open spec fn spec_bishop_step(e: Engine, b: BishopPiece, dt: u64) -> BishopPiece {
    match b.state {
        BishopState::Flying { dir, progress_milli, speed_milli } => {
            let p2 = spec_flight_progress(progress_milli, speed_milli, dt);
            let s2 = spec_flight_speed(speed_milli, dt);
            if p2 < PROGRESS_ONE {
                BishopPiece {
                    state: BishopState::Flying { dir, progress_milli: p2, speed_milli: s2 },
                    ..b
                }
            } else {
                let dest = ray_point(e.board.spec_coord_at(b.tile as int), dir as int, 1);
                if !e.board.valid_coord(dest) {
                    BishopPiece { state: BishopState::Gone, ..b }
                } else if e.board.occ@[e.board.spec_tile_id(dest)] == Some(
                    b.faction.spec_opponent(),
                ) {
                    BishopPiece { state: BishopState::Gone, ..b }
                } else {
                    BishopPiece {
                        tile: e.board.spec_tile_id(dest) as usize,
                        state: BishopState::Flying { dir, progress_milli: 0, speed_milli: s2 },
                        ..b
                    }
                }
            }
        },
        _ => BishopPiece { state: spec_bishop_anim_step(b.state, dt), ..b },
    }
}

/// A bishop whose completed step would leave the board is destroyed on that
/// step attempt.
pub proof fn lemma_flight_off_edge_destroys(e: Engine, b: BishopPiece, dt: u64)
    requires
        b.state matches BishopState::Flying { dir, progress_milli, speed_milli } && {
            &&& spec_flight_progress(progress_milli, speed_milli, dt) >= PROGRESS_ONE
            &&& !e.board.valid_coord(
                ray_point(e.board.spec_coord_at(b.tile as int), dir as int, 1),
            )
        },
    ensures
        spec_bishop_step(e, b, dt).state is Gone,
{
}

/// A bishop whose completed step lands on a tile held by the opposing
/// faction is destroyed; nothing else changes, so the occupant is
/// unaffected.
pub proof fn lemma_flight_into_enemy_destroys(e: Engine, b: BishopPiece, dt: u64)
    requires
        b.state matches BishopState::Flying { dir, progress_milli, speed_milli } && {
            &&& spec_flight_progress(progress_milli, speed_milli, dt) >= PROGRESS_ONE
            &&& e.board.valid_coord(ray_point(e.board.spec_coord_at(b.tile as int), dir as int, 1))
            &&& e.board.occ@[e.board.spec_tile_id(
                ray_point(e.board.spec_coord_at(b.tile as int), dir as int, 1),
            )] == Some(b.faction.spec_opponent())
        },
    ensures
        spec_bishop_step(e, b, dt).state is Gone,
{
}

/// The sequence is the concatenation of the six rays cast from `origin` for
/// `owner`, in direction order.
pub open spec fn six_ray_union(b: Board, owner: Faction, origin: HexCoord, s: Seq<usize>) -> bool {
    exists|
        s0: Seq<usize>,
        s1: Seq<usize>,
        s2: Seq<usize>,
        s3: Seq<usize>,
        s4: Seq<usize>,
        s5: Seq<usize>,
    |
        {
            &&& b.is_ray(owner, origin, 0, s0)
            &&& b.is_ray(owner, origin, 1, s1)
            &&& b.is_ray(owner, origin, 2, s2)
            &&& b.is_ray(owner, origin, 3, s3)
            &&& b.is_ray(owner, origin, 4, s4)
            &&& b.is_ray(owner, origin, 5, s5)
            &&& s == s0 + s1 + s2 + s3 + s4 + s5
        }
}

/// The engine-state relation of the bishop-movement phase: every bishop
/// advanced pointwise by `spec_bishop_step` against the phase's starting
/// state, nothing else changed.
pub open spec fn spec_bishops_phase(pre: Engine, dt: u64, post: Engine) -> bool {
    &&& post.wf()
    &&& post.board == pre.board
    &&& post.player == pre.player
    &&& post.pawns@ == pre.pawns@
    &&& post.pawn_reg.at@ == pre.pawn_reg.at@
    &&& post.bishop_reg.at@ == pre.bishop_reg.at@
    &&& post.promotions@ == pre.promotions@
    &&& post.session == pre.session
    &&& post.control == pre.control
    &&& post.bishops@.len() == pre.bishops@.len()
    &&& forall|i: int|
        0 <= i < pre.bishops@.len() ==> post.bishops@[i] == spec_bishop_step(
            pre,
            #[trigger] pre.bishops@[i],
            dt,
        )
}

impl Engine {
    /// Advance every bishop by one tick: settling completes, and flying
    /// bishops accelerate, step, and resolve edge and collision rules. No
    /// occupancy, registry or other engine state changes — a flying bishop
    /// vacated its tile when it launched, and an enemy it crashes into is
    /// left untouched.
    pub fn advance_bishops(&mut self, dt: u64, out: &mut Vec<OutputEvent>)
        requires
            old(self).wf(),
        ensures
            final(self).wf(),
            final(self).board == old(self).board,
            final(self).player == old(self).player,
            final(self).pawns@ == old(self).pawns@,
            final(self).pawn_reg.at@ == old(self).pawn_reg.at@,
            final(self).bishop_reg.at@ == old(self).bishop_reg.at@,
            final(self).promotions@ == old(self).promotions@,
            final(self).session == old(self).session,
            final(self).control == old(self).control,
            final(self).bishops@.len() == old(self).bishops@.len(),
            forall|i: int|
                0 <= i < old(self).bishops@.len()
                    ==> final(self).bishops@[i] == spec_bishop_step(
                    *old(self),
                    #[trigger] old(self).bishops@[i],
                    dt,
                ),
            spec_bishops_phase(*old(self), dt, *final(self)),
            final(out)@.len() >= old(out)@.len(),
            final(out)@.subrange(0, old(out)@.len() as int) == old(out)@,
    {
        let mut i: usize = 0;
        let n = self.bishops.len();
        while i < n
            invariant
                old(self).wf(),
                n == old(self).bishops@.len(),
                i <= n,
                self.board == old(self).board,
                self.player == old(self).player,
                self.pawns@ == old(self).pawns@,
                self.pawn_reg.at@ == old(self).pawn_reg.at@,
                self.bishop_reg.at@ == old(self).bishop_reg.at@,
                self.promotions@ == old(self).promotions@,
                self.session == old(self).session,
                self.control == old(self).control,
                self.bishops@.len() == n,
                forall|j: int|
                    0 <= j < i ==> self.bishops@[j] == spec_bishop_step(
                        *old(self),
                        #[trigger] old(self).bishops@[j],
                        dt,
                    ),
                forall|j: int| i <= j < n ==> self.bishops@[j] == #[trigger] old(self).bishops@[j],
                out@.len() >= old(out)@.len(),
                out@.subrange(0, old(out)@.len() as int) == old(out)@,
            decreases n - i,
        {
            let b = self.bishops[i];
            match b.state {
                BishopState::Flying { dir, progress_milli, speed_milli } => {
                    proof {
                        assert(old(self).bishop_link_ok(i as int));
                    }
                    let (p2, s2) = advance_flight(progress_milli, speed_milli, dt);
                    if p2 < PROGRESS_ONE {
                        self.bishops[i] = BishopPiece {
                            state: BishopState::Flying {
                                dir,
                                progress_milli: p2,
                                speed_milli: s2,
                            },
                            ..b
                        };
                        out.push(
                            OutputEvent::PieceMoved {
                                kind: PieceKind::Bishop,
                                piece: i,
                                tile: b.tile,
                                dir,
                                progress_milli: p2,
                            },
                        );
                    } else {
                        let c = self.board.coord_of(b.tile).unwrap();
                        let d = direction(dir);
                        assert(c.bounded(crate::board::MAX_RADIUS as int));
                        proof {
                            lemma_ray_point_props(c, dir as int, 0);
                        }
                        let dest = c.add(d);
                        let outcome: Option<usize> = match self.board.tile_at(dest) {
                            Some(t2) => {
                                let enemy_here: bool = match self.board.occupant(t2) {
                                    Some(f) => f == b.faction.opponent(),
                                    None => false,
                                };
                                if enemy_here {
                                    None
                                } else {
                                    Some(t2)
                                }
                            },
                            None => None,
                        };
                        match outcome {
                            Some(t2) => {
                                self.bishops[i] = BishopPiece {
                                    tile: t2,
                                    state: BishopState::Flying {
                                        dir,
                                        progress_milli: 0,
                                        speed_milli: s2,
                                    },
                                    ..b
                                };
                                out.push(
                                    OutputEvent::PieceMoved {
                                        kind: PieceKind::Bishop,
                                        piece: i,
                                        tile: t2,
                                        dir,
                                        progress_milli: 0,
                                    },
                                );
                            },
                            None => {
                                self.bishops[i] = BishopPiece {
                                    state: BishopState::Gone,
                                    ..b
                                };
                                out.push(
                                    OutputEvent::PieceDestroyed {
                                        kind: PieceKind::Bishop,
                                        piece: i,
                                    },
                                );
                            },
                        }
                    }
                },
                _ => {
                    let ns = bishop_anim_step(b.state, dt);
                    match (b.state, ns) {
                        (BishopState::Spawning { .. }, BishopState::Idle) => {
                            out.push(
                                OutputEvent::PieceAnimationRequested {
                                    kind: PieceKind::Bishop,
                                    piece: i,
                                    clip: Clip::Idle,
                                },
                            );
                        },
                        _ => {},
                    }
                    self.bishops[i] = BishopPiece { state: ns, ..b };
                },
            }
            proof {
                assert(self.bishops@[i as int] == spec_bishop_step(
                    *old(self),
                    old(self).bishops@[i as int],
                    dt,
                ));
            }
            i += 1;
        }
        proof {
            Self::lemma_bishop_tick_preserves_wf(*old(self), *self, dt);
        }
    }

    /// Advancing every bishop pointwise by `spec_bishop_step` preserves the
    /// engine invariant: settling and idling bishops stay registered where
    /// they are, and a flying bishop only ever moves to a tile the board
    /// really has.
    proof fn lemma_bishop_tick_preserves_wf(pre: Engine, post: Engine, dt: u64)
        requires
            pre.wf(),
            post.board == pre.board,
            post.pawns@ == pre.pawns@,
            post.pawn_reg.at@ == pre.pawn_reg.at@,
            post.bishop_reg.at@ == pre.bishop_reg.at@,
            post.promotions@ == pre.promotions@,
            post.session == pre.session,
            post.control == pre.control,
            post.bishops@.len() == pre.bishops@.len(),
            forall|i: int|
                0 <= i < pre.bishops@.len()
                    ==> post.bishops@[i] == spec_bishop_step(pre, #[trigger] pre.bishops@[i], dt),
        ensures
            post.wf(),
    {
        assert forall|t: int| 0 <= t < post.slots() implies #[trigger] post.tile_link_ok(t) by {
            assert(pre.tile_link_ok(t));
        };
        assert forall|i: int| 0 <= i < post.pawns@.len() implies #[trigger] post.pawn_link_ok(
            i,
        ) by {
            assert(pre.pawn_link_ok(i));
        };
        assert forall|i: int| 0 <= i < post.bishops@.len() implies #[trigger] post.bishop_link_ok(
            i,
        ) by {
            assert(pre.bishop_link_ok(i));
            let b = pre.bishops@[i];
            if b.state is Flying {
                let dir = b.state->Flying_dir;
                let progress_milli = b.state->Flying_progress_milli;
                let speed_milli = b.state->Flying_speed_milli;
                let p2 = spec_flight_progress(progress_milli, speed_milli, dt);
                if p2 >= PROGRESS_ONE {
                    let dest = ray_point(pre.board.spec_coord_at(b.tile as int), dir as int, 1);
                    if pre.board.valid_coord(dest) {
                        pre.board.lemma_tile_id_bijection(dest);
                        assert(pre.board.slot_count() <= 2001 * 2001) by (nonlinear_arith)
                            requires pre.board.side() <= 2001;
                    }
                }
            }
        };
    }

    /// Expose the bishop's selectable path: cast the shared ray in all six
    /// directions from its tile, highlight the union, and take the bishop as
    /// the current direction-choice target.
    pub fn expose_bishop_paths(&mut self, bi: usize, out: &mut Vec<OutputEvent>)
        requires
            old(self).wf(),
            bi < old(self).bishops@.len(),
            bishop_present(old(self).bishops@[bi as int].state),
        ensures
            final(self).wf(),
            final(self).board.radius == old(self).board.radius,
            final(self).board.occ@ == old(self).board.occ@,
            final(self).player == old(self).player,
            final(self).pawns@ == old(self).pawns@,
            final(self).pawn_reg.at@ == old(self).pawn_reg.at@,
            final(self).bishops@ == old(self).bishops@,
            final(self).bishop_reg.at@ == old(self).bishop_reg.at@,
            final(self).promotions@ == old(self).promotions@,
            final(self).session == old(self).session,
            final(self).control == Some(bi),
            six_ray_union(
                old(self).board,
                old(self).bishops@[bi as int].faction,
                old(self).board.spec_coord_at(old(self).bishops@[bi as int].tile as int),
                final(self).board.path@,
            ),
            // Every tile of the exposed path is asked to show the path style.
            final(out)@.len() == old(out)@.len() + final(self).board.path@.len(),
            final(out)@.subrange(0, old(out)@.len() as int) == old(out)@,
            forall|k: int|
                0 <= k < final(self).board.path@.len() ==> final(out)@[old(out)@.len() + k]
                    == (OutputEvent::SetTileStyle {
                    tile: final(self).board.path@[k],
                    style: Style::Path,
                }),
    {
        let b = self.bishops[bi];
        proof {
            assert(old(self).bishop_link_ok(bi as int));
            assert(old(self).tile_link_ok(b.tile as int));
        }
        let c = self.board.coord_of(b.tile).unwrap();
        let mut tiles = self.board.cast_ray(c, 0, b.faction);
        let ghost g0 = tiles@;
        let mut r1 = self.board.cast_ray(c, 1, b.faction);
        let ghost g1 = r1@;
        tiles.append(&mut r1);
        let mut r2 = self.board.cast_ray(c, 2, b.faction);
        let ghost g2 = r2@;
        tiles.append(&mut r2);
        let mut r3 = self.board.cast_ray(c, 3, b.faction);
        let ghost g3 = r3@;
        tiles.append(&mut r3);
        let mut r4 = self.board.cast_ray(c, 4, b.faction);
        let ghost g4 = r4@;
        tiles.append(&mut r4);
        let mut r5 = self.board.cast_ray(c, 5, b.faction);
        let ghost g5 = r5@;
        tiles.append(&mut r5);
        proof {
            assert(tiles@ =~= g0 + g1 + g2 + g3 + g4 + g5);
        }
        let mut j: usize = 0;
        while j < tiles.len()
            invariant
                j <= tiles@.len(),
                forall|k: int|
                    0 <= k < tiles@.len() ==> old(self).board.is_tile_id(
                        (#[trigger] tiles@[k]) as int,
                    ),
                out@.len() == old(out)@.len() + j,
                out@.subrange(0, old(out)@.len() as int) == old(out)@,
                forall|k: int|
                    0 <= k < j ==> out@[old(out)@.len() + k] == (OutputEvent::SetTileStyle {
                        tile: tiles@[k],
                        style: Style::Path,
                    }),
            decreases tiles@.len() - j,
        {
            out.push(OutputEvent::SetTileStyle { tile: tiles[j], style: Style::Path });
            j += 1;
        }
        self.board.highlight_path(tiles);
        self.control = Some(bi);
        proof {
            assert(six_ray_union(
                old(self).board,
                old(self).bishops@[bi as int].faction,
                old(self).board.spec_coord_at(old(self).bishops@[bi as int].tile as int),
                self.board.path@,
            )) by {
                assert(self.board.path@ == g0 + g1 + g2 + g3 + g4 + g5);
            };
            assert forall|t: int| 0 <= t < self.slots() implies #[trigger] self.tile_link_ok(t) by {
                assert(old(self).tile_link_ok(t));
            };
            assert forall|i: int| 0 <= i < self.pawns@.len() implies #[trigger] self.pawn_link_ok(
                i,
            ) by {
                assert(old(self).pawn_link_ok(i));
            };
            assert forall|i: int| 0 <= i < self.bishops@.len() implies #[trigger] self
                .bishop_link_ok(i) by {
                assert(old(self).bishop_link_ok(i));
            };
        }
    }

    /// Launch an idle bishop along direction `dir`: it vacates its tile and
    /// leaves the registry immediately — it can no longer be retargeted —
    /// and starts flying.
    pub fn launch_bishop(&mut self, bi: usize, dir: usize, out: &mut Vec<OutputEvent>)
        requires
            old(self).wf(),
            bi < old(self).bishops@.len(),
            old(self).bishops@[bi as int].state is Idle,
            dir < 6,
        ensures
            final(self).wf(),
            final(self).board.radius == old(self).board.radius,
            final(self).player == old(self).player,
            final(self).pawns@ == old(self).pawns@,
            final(self).pawn_reg.at@ == old(self).pawn_reg.at@,
            final(self).promotions@ == old(self).promotions@,
            final(self).session == old(self).session,
            final(self).control == old(self).control,
            final(self).board.path@ == old(self).board.path@,
            final(self).bishops@ == old(self).bishops@.update(
                bi as int,
                (BishopPiece {
                    state: BishopState::Flying {
                        dir,
                        progress_milli: 0u64,
                        speed_milli: SPEED_START,
                    },
                    ..old(self).bishops@[bi as int]
                }),
            ),
            final(self).bishop_reg.at@ == old(self).bishop_reg.at@.update(
                old(self).bishops@[bi as int].tile as int,
                None::<RegEntry>,
            ),
            final(self).board.occ@ == old(self).board.occ@.update(
                old(self).bishops@[bi as int].tile as int,
                None::<Faction>,
            ),
            final(out)@ == old(out)@.push(
                (OutputEvent::SetTileStyle {
                    tile: old(self).bishops@[bi as int].tile,
                    style: Style::Neutral,
                }),
            ),
    {
        let b = self.bishops[bi];
        proof {
            assert(old(self).bishop_link_ok(bi as int));
            assert(old(self).tile_link_ok(b.tile as int));
            assert(old(self).bishops.len() == old(self).bishops@.len());
        }
        self.bishops[bi] = BishopPiece {
            state: BishopState::Flying { dir, progress_milli: 0, speed_milli: SPEED_START },
            ..b
        };
        self.bishop_reg.remove(b.tile);
        self.board.vacate(b.tile);
        out.push(OutputEvent::SetTileStyle { tile: b.tile, style: Style::Neutral });
        proof {
            assert forall|t: int| 0 <= t < self.slots() implies #[trigger] self.tile_link_ok(t) by {
                assert(old(self).tile_link_ok(t));
                if t != b.tile as int && old(self).pawn_reg.spec_at(t) is Some {
                    let e2 = old(self).pawn_reg.spec_at(t)->Some_0;
                    assert(old(self).pawn_link_ok(e2.piece as int));
                }
            };
            assert forall|i: int| 0 <= i < self.pawns@.len() implies #[trigger] self.pawn_link_ok(
                i,
            ) by {
                assert(old(self).pawn_link_ok(i));
                if pawn_present(self.pawns@[i].state) {
                    assert(old(self).tile_link_ok(old(self).pawns@[i].tile as int));
                }
            };
            assert forall|i: int| 0 <= i < self.bishops@.len() implies #[trigger] self
                .bishop_link_ok(i) by {
                assert(old(self).bishop_link_ok(i));
                if i != bi as int && bishop_present(self.bishops@[i].state) {
                    assert(self.bishops@[i] == old(self).bishops@[i]);
                    assert(old(self).bishops@[i].tile != b.tile) by {
                        if old(self).bishops@[i].tile == b.tile {
                            assert(old(self).bishop_reg.spec_at(b.tile as int) == Some(
                                (RegEntry {
                                    piece: i as usize,
                                    faction: old(self).bishops@[i].faction,
                                }),
                            ));
                        }
                    };
                }
            };
        }
    }

    /// Clear any exposed path: drop the direction-choice target, restore
    /// every highlighted tile's style to whatever its occupancy is right now
    /// — not the state at highlight time — and clear the highlight set.
    /// Cancelling with no path exposed is a no-op.
    pub fn cancel_path(&mut self, out: &mut Vec<OutputEvent>)
        requires
            old(self).wf(),
        ensures
            final(self).wf(),
            final(self).board.radius == old(self).board.radius,
            final(self).board.occ@ == old(self).board.occ@,
            final(self).player == old(self).player,
            final(self).pawns@ == old(self).pawns@,
            final(self).pawn_reg.at@ == old(self).pawn_reg.at@,
            final(self).bishops@ == old(self).bishops@,
            final(self).bishop_reg.at@ == old(self).bishop_reg.at@,
            final(self).promotions@ == old(self).promotions@,
            final(self).session == old(self).session,
            final(self).control is None,
            final(self).board.path@.len() == 0,
            final(out)@.len() == old(out)@.len() + old(self).board.path@.len(),
            final(out)@.subrange(0, old(out)@.len() as int) == old(out)@,
            forall|k: int|
                0 <= k < old(self).board.path@.len() ==> final(out)@[old(out)@.len() + k]
                    == (OutputEvent::SetTileStyle {
                    tile: old(self).board.path@[k],
                    style: spec_occupancy_style(
                        old(self).board.occ@[old(self).board.path@[k] as int],
                    ),
                }),
    {
        let n = self.board.path.len();
        let mut j: usize = 0;
        while j < n
            invariant
                old(self).wf(),
                *self == *old(self),
                n == old(self).board.path@.len(),
                j <= n,
                out@.len() == old(out)@.len() + j,
                out@.subrange(0, old(out)@.len() as int) == old(out)@,
                forall|k: int|
                    0 <= k < j ==> out@[old(out)@.len() + k] == (OutputEvent::SetTileStyle {
                        tile: old(self).board.path@[k],
                        style: spec_occupancy_style(
                            old(self).board.occ@[old(self).board.path@[k] as int],
                        ),
                    }),
            decreases n - j,
        {
            let t = self.board.path[j];
            let o = self.board.occupant(t);
            out.push(OutputEvent::SetTileStyle { tile: t, style: occupancy_style(o) });
            j += 1;
        }
        self.board.clear_path();
        self.control = None;
        proof {
            assert forall|t: int| 0 <= t < self.slots() implies #[trigger] self.tile_link_ok(t) by {
                assert(old(self).tile_link_ok(t));
            };
            assert forall|i: int| 0 <= i < self.pawns@.len() implies #[trigger] self.pawn_link_ok(
                i,
            ) by {
                assert(old(self).pawn_link_ok(i));
            };
            assert forall|i: int| 0 <= i < self.bishops@.len() implies #[trigger] self
                .bishop_link_ok(i) by {
                assert(old(self).bishop_link_ok(i));
            };
        }
    }
}

} // verus!
