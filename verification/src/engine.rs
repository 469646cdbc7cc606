//! The engine: explicitly owned board, piece lists and registries, threaded
//! through the per-tick systems in a fixed, deterministic order. All state
//! mutation happens here; collaborators only submit input events and read
//! the emitted output events.

use vstd::prelude::*;
use crate::board::{Board, MAX_RADIUS};
use crate::hex::{ray_point, direction, lemma_ray_point_props};
use crate::pieces::{
    PawnPiece, PawnState, BishopPiece, BishopState, pawn_present, bishop_present,
};
use crate::registry::{PieceRegistry, RegEntry};
use crate::rng::{sample_spawn_interval, random_index, SPAWN_INTERVAL_MIN_MS, SPAWN_INTERVAL_MAX_MS};
use crate::selection::SelectionSession;
use crate::Faction;

verus! {

/// A pending promotion: a matched combination asks for a bishop of
/// `faction` at `tile` once the merge animation completes.
#[derive(Clone, Copy, Debug, PartialEq, Eq, Structural)]
pub struct Promotion {
    pub faction: Faction,
    pub tile: usize,
    pub elapsed_ms: u64,
}

/// The whole engine state.
pub struct Engine {
    pub board: Board,
    /// The faction the local selector acts for.
    pub player: Faction,
    pub pawns: Vec<PawnPiece>,
    pub bishops: Vec<BishopPiece>,
    pub pawn_reg: PieceRegistry,
    pub bishop_reg: PieceRegistry,
    pub session: SelectionSession,
    /// The bishop currently awaiting a direction choice, if any.
    pub control: Option<usize>,
    pub promotions: Vec<Promotion>,
}

impl Engine {
    pub open spec fn slots(&self) -> int {
        self.board.slot_count()
    }

    /// The occupancy the registries imply for a tile.
    pub open spec fn reg_occ(&self, t: int) -> Option<Faction> {
        match self.pawn_reg.spec_at(t) {
            Some(e) => Some(e.faction),
            None => match self.bishop_reg.spec_at(t) {
                Some(e) => Some(e.faction),
                None => None,
            },
        }
    }

    /// Per-tile consistency: a registered piece exists, stands exactly
    /// there, is of the registered faction and in an on-board state; the two
    /// registries never share a tile; and the board's occupancy is exactly
    /// what the registries imply.
    pub open spec fn tile_link_ok(&self, t: int) -> bool {
        &&& (self.pawn_reg.spec_at(t) matches Some(e) ==> {
            &&& self.board.is_tile_id(t)
            &&& e.piece < self.pawns@.len()
            &&& self.pawns@[e.piece as int].tile == t
            &&& self.pawns@[e.piece as int].faction == e.faction
            &&& pawn_present(self.pawns@[e.piece as int].state)
            &&& self.bishop_reg.spec_at(t) is None
        })
        &&& (self.bishop_reg.spec_at(t) matches Some(e) ==> {
            &&& self.board.is_tile_id(t)
            &&& e.piece < self.bishops@.len()
            &&& self.bishops@[e.piece as int].tile == t
            &&& self.bishops@[e.piece as int].faction == e.faction
            &&& bishop_present(self.bishops@[e.piece as int].state)
        })
        &&& self.board.occ@[t] == self.reg_occ(t)
    }

    /// Per-pawn consistency: a pawn standing on the board is registered at
    /// its own tile.
    pub open spec fn pawn_link_ok(&self, i: int) -> bool {
        pawn_present(self.pawns@[i].state) ==> {
            &&& 0 <= self.pawns@[i].tile < self.slots()
            &&& self.pawn_reg.spec_at(self.pawns@[i].tile as int) == Some(
                RegEntry { piece: i as usize, faction: self.pawns@[i].faction },
            )
        }
    }

    /// Per-bishop consistency: a bishop standing on the board is registered
    /// at its own tile; a flying bishop has a valid direction and sits on a
    /// real tile even though it occupies nothing.
    pub open spec fn bishop_link_ok(&self, i: int) -> bool {
        &&& (bishop_present(self.bishops@[i].state) ==> {
            &&& 0 <= self.bishops@[i].tile < self.slots()
            &&& self.bishop_reg.spec_at(self.bishops@[i].tile as int) == Some(
                RegEntry { piece: i as usize, faction: self.bishops@[i].faction },
            )
        })
        &&& (self.bishops@[i].state matches BishopState::Flying { dir, .. } ==> {
            &&& dir < 6
            &&& self.board.is_tile_id(self.bishops@[i].tile as int)
        })
    }

    /// Engine well-formedness: the board is well formed, the registries
    /// cover it, and board, registries and piece lists are mutually
    /// consistent.
    pub open spec fn wf(&self) -> bool {
        &&& self.board.wf()
        &&& self.pawn_reg.len() == self.slots()
        &&& self.bishop_reg.len() == self.slots()
        &&& forall|t: int| 0 <= t < self.slots() ==> #[trigger] self.tile_link_ok(t)
        &&& forall|i: int| 0 <= i < self.pawns@.len() ==> #[trigger] self.pawn_link_ok(i)
        &&& forall|i: int| 0 <= i < self.bishops@.len() ==> #[trigger] self.bishop_link_ok(i)
        &&& forall|j: int|
            0 <= j < self.promotions@.len()
                ==> self.board.is_tile_id((#[trigger] self.promotions@[j]).tile as int)
        &&& (self.control matches Some(b) ==> b < self.bishops@.len())
        &&& forall|j: int|
            0 <= j < self.session.hovered@.len()
                ==> self.board.is_tile_id((#[trigger] self.session.hovered@[j]) as int)
        &&& (self.session.pressed ==> self.board.is_tile_id(self.session.base as int))
    }

    /// The tiles held by faction `f`.
    pub open spec fn occupied_tiles(&self, f: Faction) -> Set<int> {
        Set::new(|t: int| 0 <= t < self.slots() && self.board.occ@[t] == Some(f))
    }

    /// A tile's identity appears in at most one of the blue-occupied and
    /// red-occupied sets: the two sets are disjoint at every instant.
    pub proof fn lemma_occupancy_exclusive(&self)
        requires
            self.wf(),
        ensures
            self.occupied_tiles(Faction::Blue).disjoint(self.occupied_tiles(Faction::Red)),
    {
        assert forall|t: int|
            self.occupied_tiles(Faction::Blue).contains(t)
                implies !self.occupied_tiles(Faction::Red).contains(t) by {};
    }

    /// The three cross-component consistency quantifiers hold of any engine
    /// value that keeps the occupancy, the piece lists and the registries of
    /// a well-formed one, whatever happened to its session, control, path or
    /// pending promotions.
    pub proof fn lemma_links_carry_over(pre: Engine, post: Engine)
        requires
            pre.wf(),
            post.board.radius == pre.board.radius,
            post.board.occ@ == pre.board.occ@,
            post.pawns@ == pre.pawns@,
            post.bishops@ == pre.bishops@,
            post.pawn_reg.at@ == pre.pawn_reg.at@,
            post.bishop_reg.at@ == pre.bishop_reg.at@,
        ensures
            forall|t: int| 0 <= t < post.slots() ==> #[trigger] post.tile_link_ok(t),
            forall|i: int| 0 <= i < post.pawns@.len() ==> #[trigger] post.pawn_link_ok(i),
            forall|i: int| 0 <= i < post.bishops@.len() ==> #[trigger] post.bishop_link_ok(i),
    {
        assert forall|t: int| 0 <= t < post.slots() implies #[trigger] post.tile_link_ok(t) by {
            assert(pre.tile_link_ok(t));
        };
        assert forall|i: int| 0 <= i < post.pawns@.len() implies #[trigger] post.pawn_link_ok(
            i,
        ) by {
            assert(pre.pawn_link_ok(i));
        };
        assert forall|i: int| 0 <= i < post.bishops@.len() implies #[trigger] post.bishop_link_ok(
            i,
        ) by {
            assert(pre.bishop_link_ok(i));
        };
    }

    /// A pawn standing on the board always stands on a tile marked occupied
    /// by its own faction.
    pub proof fn lemma_pawn_occupancy_agrees(&self, i: int)
        requires
            self.wf(),
            0 <= i < self.pawns@.len(),
            pawn_present(self.pawns@[i].state),
        ensures
            self.board.occ@[self.pawns@[i].tile as int] == Some(self.pawns@[i].faction),
    {
        assert(self.pawn_link_ok(i));
        assert(self.tile_link_ok(self.pawns@[i].tile as int));
    }

    /// A bishop standing on the board always stands on a tile marked
    /// occupied by its own faction; only a bishop mid-flight occupies
    /// nothing.
    pub proof fn lemma_bishop_occupancy_agrees(&self, i: int)
        requires
            self.wf(),
            0 <= i < self.bishops@.len(),
            bishop_present(self.bishops@[i].state),
        ensures
            self.board.occ@[self.bishops@[i].tile as int] == Some(self.bishops@[i].faction),
    {
        assert(self.bishop_link_ok(i));
        assert(self.tile_link_ok(self.bishops@[i].tile as int));
    }

    /// A fresh engine: an empty board of the given radius, no pieces, no
    /// session, nothing pending.
    pub fn new(radius: usize, player: Faction) -> (e: Engine)
        requires
            1 <= radius <= MAX_RADIUS,
        ensures
            e.wf(),
            e.board.radius == radius,
            e.player == player,
            e.board.all_empty(),
            e.pawns@.len() == 0,
            e.bishops@.len() == 0,
            e.promotions@.len() == 0,
            !e.session.pressed,
            e.session.hovered@.len() == 0,
            e.board.path@.len() == 0,
            e.control is None,
    {
        let board = Board::new(radius);
        let slots = board.occ.len();
        Engine {
            board,
            player,
            pawns: Vec::new(),
            bishops: Vec::new(),
            pawn_reg: PieceRegistry::new(slots),
            bishop_reg: PieceRegistry::new(slots),
            session: SelectionSession::new(),
            control: None,
            promotions: Vec::new(),
        }
    }

    /// Create a pawn of `faction` with the given reproduction interval on
    /// `tile`. Succeeds exactly when `tile` is a free tile; otherwise the
    /// engine is unchanged (`NotFound` degrades to a no-op).
    pub fn spawn_pawn_with_interval(
        &mut self,
        tile: usize,
        faction: Faction,
        interval_ms: u64,
    ) -> (created: Option<usize>)
        requires
            old(self).wf(),
        ensures
            final(self).wf(),
            final(self).board.radius == old(self).board.radius,
            final(self).player == old(self).player,
            match created {
                Some(i) => {
                    &&& old(self).board.is_tile_id(tile as int)
                    &&& old(self).board.occ@[tile as int] is None
                    &&& i == old(self).pawns@.len()
                    &&& final(self).pawns@ == old(self).pawns@.push(
                        PawnPiece {
                            faction,
                            tile,
                            state: PawnState::Spawning { elapsed_ms: 0 },
                            interval_ms,
                            timer_ms: 0,
                        },
                    )
                    &&& final(self).board.occ@ == old(self).board.occ@.update(
                        tile as int,
                        Some(faction),
                    )
                    &&& final(self).pawn_reg.at@ == old(self).pawn_reg.at@.update(
                        tile as int,
                        Some(RegEntry { piece: i, faction }),
                    )
                    &&& final(self).bishops@ == old(self).bishops@
                    &&& final(self).bishop_reg.at@ == old(self).bishop_reg.at@
                    &&& final(self).promotions@ == old(self).promotions@
                    &&& final(self).session == old(self).session
                    &&& final(self).control == old(self).control
                    &&& final(self).board.path@ == old(self).board.path@
                },
                None => {
                    &&& !(old(self).board.is_tile_id(tile as int)
                        && old(self).board.occ@[tile as int] is None)
                    &&& *final(self) == *old(self)
                },
            },
    {
        let on_board = match self.board.coord_of(tile) {
            Some(_) => true,
            None => false,
        };
        if !on_board {
            return None;
        }
        let occ = self.board.occupant(tile);
        if occ.is_some() {
            return None;
        }
        proof {
            assert(old(self).tile_link_ok(tile as int));
        }
        let idx = self.pawns.len();
        self.pawns.push(
            PawnPiece {
                faction,
                tile,
                state: PawnState::Spawning { elapsed_ms: 0 },
                interval_ms,
                timer_ms: 0,
            },
        );
        self.board.occupy(tile, faction);
        self.pawn_reg.insert(tile, idx, faction);
        proof {
            assert forall|t: int| 0 <= t < self.slots() implies #[trigger] self.tile_link_ok(t) by {
                assert(old(self).tile_link_ok(t));
            };
            assert forall|i: int| 0 <= i < self.pawns@.len() implies #[trigger] self.pawn_link_ok(
                i,
            ) by {
                if i < old(self).pawns@.len() {
                    assert(old(self).pawn_link_ok(i));
                    if pawn_present(self.pawns@[i].state) {
                        assert(self.pawns@[i] == old(self).pawns@[i]);
                        assert(old(self).pawns@[i].tile != tile) by {
                            if old(self).pawns@[i].tile == tile {
                                assert(old(self).tile_link_ok(tile as int));
                            }
                        };
                    }
                }
            };
            assert forall|i: int| 0 <= i < self.bishops@.len() implies #[trigger] self
                .bishop_link_ok(i) by {
                assert(old(self).bishop_link_ok(i));
                if bishop_present(self.bishops@[i].state) {
                    assert(old(self).tile_link_ok(old(self).bishops@[i].tile as int));
                }
            };
        }
        Some(idx)
    }

    /// Create a pawn of `faction` on `tile` with a freshly drawn
    /// reproduction interval. Succeeds exactly when `tile` is a free tile.
    pub fn spawn_pawn(&mut self, tile: usize, faction: Faction) -> (created: Option<usize>)
        requires
            old(self).wf(),
        ensures
            final(self).wf(),
            final(self).board.radius == old(self).board.radius,
            final(self).player == old(self).player,
            match created {
                Some(i) => {
                    &&& old(self).board.is_tile_id(tile as int)
                    &&& old(self).board.occ@[tile as int] is None
                    &&& i == old(self).pawns@.len()
                    &&& final(self).pawns@.len() == old(self).pawns@.len() + 1
                    &&& forall|j: int|
                        0 <= j < old(self).pawns@.len()
                            ==> final(self).pawns@[j] == #[trigger] old(self).pawns@[j]
                    &&& final(self).pawns@[i as int].faction == faction
                    &&& final(self).pawns@[i as int].tile == tile
                    &&& final(self).pawns@[i as int].state == (PawnState::Spawning {
                        elapsed_ms: 0u64,
                    })
                    &&& final(self).pawns@[i as int].timer_ms == 0
                    &&& SPAWN_INTERVAL_MIN_MS <= final(self).pawns@[i as int].interval_ms
                        < SPAWN_INTERVAL_MAX_MS
                    &&& final(self).board.occ@ == old(self).board.occ@.update(
                        tile as int,
                        Some(faction),
                    )
                    &&& final(self).pawn_reg.at@ == old(self).pawn_reg.at@.update(
                        tile as int,
                        Some(RegEntry { piece: i, faction }),
                    )
                    &&& final(self).bishops@ == old(self).bishops@
                    &&& final(self).bishop_reg.at@ == old(self).bishop_reg.at@
                    &&& final(self).promotions@ == old(self).promotions@
                    &&& final(self).session == old(self).session
                    &&& final(self).control == old(self).control
                    &&& final(self).board.path@ == old(self).board.path@
                },
                None => {
                    &&& !(old(self).board.is_tile_id(tile as int)
                        && old(self).board.occ@[tile as int] is None)
                    &&& *final(self) == *old(self)
                },
            },
    {
        let interval = sample_spawn_interval();
        self.spawn_pawn_with_interval(tile, faction, interval)
    }

    /// Create a bishop of `faction` on `tile`, settling in. Succeeds exactly
    /// when `tile` is a free tile; otherwise the engine is unchanged.
    pub fn spawn_bishop_at(&mut self, tile: usize, faction: Faction) -> (created: Option<usize>)
        requires
            old(self).wf(),
        ensures
            final(self).wf(),
            final(self).board.radius == old(self).board.radius,
            final(self).player == old(self).player,
            match created {
                Some(i) => {
                    &&& old(self).board.is_tile_id(tile as int)
                    &&& old(self).board.occ@[tile as int] is None
                    &&& i == old(self).bishops@.len()
                    &&& final(self).bishops@ == old(self).bishops@.push(
                        BishopPiece { faction, tile, state: BishopState::Spawning { elapsed_ms: 0 } },
                    )
                    &&& final(self).board.occ@ == old(self).board.occ@.update(
                        tile as int,
                        Some(faction),
                    )
                    &&& final(self).bishop_reg.at@ == old(self).bishop_reg.at@.update(
                        tile as int,
                        Some(RegEntry { piece: i, faction }),
                    )
                    &&& final(self).pawns@ == old(self).pawns@
                    &&& final(self).pawn_reg.at@ == old(self).pawn_reg.at@
                    &&& final(self).promotions@ == old(self).promotions@
                    &&& final(self).session == old(self).session
                    &&& final(self).control == old(self).control
                    &&& final(self).board.path@ == old(self).board.path@
                },
                None => {
                    &&& !(old(self).board.is_tile_id(tile as int)
                        && old(self).board.occ@[tile as int] is None)
                    &&& *final(self) == *old(self)
                },
            },
    {
        let on_board = match self.board.coord_of(tile) {
            Some(_) => true,
            None => false,
        };
        if !on_board {
            return None;
        }
        let occ = self.board.occupant(tile);
        if occ.is_some() {
            return None;
        }
        proof {
            assert(old(self).tile_link_ok(tile as int));
        }
        let idx = self.bishops.len();
        self.bishops.push(
            BishopPiece { faction, tile, state: BishopState::Spawning { elapsed_ms: 0 } },
        );
        self.board.occupy(tile, faction);
        self.bishop_reg.insert(tile, idx, faction);
        proof {
            assert forall|t: int| 0 <= t < self.slots() implies #[trigger] self.tile_link_ok(t) by {
                assert(old(self).tile_link_ok(t));
            };
            assert forall|i: int| 0 <= i < self.pawns@.len() implies #[trigger] self.pawn_link_ok(
                i,
            ) by {
                assert(old(self).pawn_link_ok(i));
                if pawn_present(self.pawns@[i].state) {
                    assert(old(self).tile_link_ok(old(self).pawns@[i].tile as int));
                }
            };
            assert forall|i: int| 0 <= i < self.bishops@.len() implies #[trigger] self
                .bishop_link_ok(i) by {
                if i < old(self).bishops@.len() {
                    assert(old(self).bishop_link_ok(i));
                    if bishop_present(self.bishops@[i].state) {
                        assert(self.bishops@[i] == old(self).bishops@[i]);
                        assert(old(self).bishops@[i].tile != tile) by {
                            if old(self).bishops@[i].tile == tile {
                                assert(old(self).tile_link_ok(tile as int));
                            }
                        };
                    }
                }
            };
        }
        Some(idx)
    }

    /// Neighbor `i` of the tile is on the board and free.
    pub open spec fn spawn_candidate_free(&self, origin_t: int, i: int) -> bool {
        let n = ray_point(self.board.spec_coord_at(origin_t), i, 1);
        self.board.valid_coord(n) && self.board.occ@[self.board.spec_tile_id(n)] is None
    }

    /// Search the six neighbors of `origin` in a randomized
    /// without-replacement order for one that exists on the board and is
    /// unoccupied by either faction. Returns such a neighbor's tile exactly
    /// when one exists; `None` exactly when no neighbor qualifies.
    pub fn pick_spawn_tile(&self, origin: usize) -> (r: Option<usize>)
        requires
            self.wf(),
            self.board.is_tile_id(origin as int),
        ensures
            match r {
                Some(t) => exists|i: int|
                    0 <= i < 6 && #[trigger] self.spawn_candidate_free(origin as int, i)
                        && t == self.board.spec_tile_id(
                        ray_point(self.board.spec_coord_at(origin as int), i, 1),
                    ) && self.board.is_tile_id(t as int)
                        && self.board.occ@[t as int] is None,
                None => forall|i: int|
                    0 <= i < 6 ==> !#[trigger] self.spawn_candidate_free(origin as int, i),
            },
    {
        let oc = self.board.coord_of(origin).unwrap();
        let mut cands: Vec<usize> = Vec::new();
        cands.push(0);
        cands.push(1);
        cands.push(2);
        cands.push(3);
        cands.push(4);
        cands.push(5);
        proof {
            assert forall|i: int| 0 <= i < 6 implies #[trigger] cands@.contains(i as usize) by {
                assert(cands@[i] == i as usize);
            };
        }
        loop
            invariant
                self.wf(),
                self.board.is_tile_id(origin as int),
                oc == self.board.spec_coord_at(origin as int),
                self.board.valid_coord(oc),
                forall|k: int| 0 <= k < cands@.len() ==> #[trigger] cands@[k] < 6,
                forall|i: int|
                    0 <= i < 6 ==> (cands@.contains(i as usize) || !#[trigger] self
                        .spawn_candidate_free(origin as int, i)),
            decreases cands@.len(),
        {
            if cands.len() == 0 {
                return None;
            }
            let j = random_index(cands.len());
            let dir_i = cands[j];
            let d = direction(dir_i);
            assert(oc.bounded(MAX_RADIUS as int));
            proof {
                lemma_ray_point_props(oc, dir_i as int, 0);
            }
            let n = oc.add(d);
            assert(n == ray_point(oc, dir_i as int, 1));
            match self.board.tile_at(n) {
                Some(t) => {
                    let o = self.board.occupant(t);
                    if o.is_none() {
                        assert(self.spawn_candidate_free(origin as int, dir_i as int));
                        return Some(t);
                    }
                },
                None => {},
            }
            proof {
                assert(!self.spawn_candidate_free(origin as int, dir_i as int));
            }
            let ghost old_cands = cands@;
            cands.remove(j);
            proof {
                assert forall|i: int|
                    0 <= i < 6 implies (cands@.contains(i as usize) || !#[trigger] self
                        .spawn_candidate_free(origin as int, i)) by {
                    if old_cands.contains(i as usize) && i != dir_i as int {
                        let k = choose|k: int| 0 <= k < old_cands.len() && old_cands[k] == i as usize;
                        if k < j {
                            assert(cands@[k] == i as usize);
                            assert(cands@.contains(i as usize));
                        } else if k > j {
                            assert(cands@[k - 1] == i as usize);
                            assert(cands@.contains(i as usize));
                        } else {
                            assert(false);
                        }
                    }
                };
            }
        }
    }
}

} // verus!
