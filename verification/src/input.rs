//! Input dispatch and selection resolution: the single dispatcher that
//! routes press, hover and release events by current engine state, and the
//! combination resolution that consumes a finalized selection.

use vstd::prelude::*;
use crate::engine::{Engine, Promotion};
use crate::events::{
    OutputEvent, InputEvent, Button, Style, occupancy_style, spec_occupancy_style,
};
use crate::hex::{HexCoord, spec_on_axis};
use crate::matcher::{
    match_combination, combo_match, combo_matches_at, spec_template, TEMPLATE_COUNT,
};
use crate::pieces::{PawnState, PawnPiece, BishopState, BishopPiece, SPEED_START};
use crate::bishop::{six_ray_union, spec_bishops_phase};
use crate::pawn::{spec_pawns_phase, spec_materialize_step, spec_materialized_all, spec_promotions_phase};
use crate::registry::RegEntry;
use crate::selection::contains_tile;

verus! {

impl Engine {
    /// The idle bishop of the selector's faction standing on the tile, if
    /// there is one: the piece a press on that tile targets.
    pub open spec fn idle_allied_bishop_at(&self, t: int) -> Option<usize> {
        match self.bishop_reg.spec_at(t) {
            Some(e) => if e.faction == self.player && self.bishops@[e.piece as int].state is Idle {
                Some(e.piece)
            } else {
                None
            },
            None => None,
        }
    }

    /// The tile currently holds a pawn of the selector's faction.
    pub open spec fn allied_pawn_at(&self, t: int) -> bool {
        match self.pawn_reg.spec_at(t) {
            Some(e) => e.faction == self.player,
            None => false,
        }
    }

    /// The coordinates of the swept tiles that currently hold an allied
    /// pawn, in sweep order: the input the combination matcher judges.
    pub open spec fn spec_filtered(&self, hov: Seq<usize>) -> Seq<HexCoord>
        decreases hov.len(),
    {
        if hov.len() == 0 {
            Seq::empty()
        } else {
            let rest = self.spec_filtered(hov.drop_last());
            if self.allied_pawn_at(hov.last() as int) {
                rest.push(self.board.spec_coord_at(hov.last() as int))
            } else {
                rest
            }
        }
    }

    /// Every filtered coordinate is a board coordinate whose tile holds an
    /// allied pawn.
    pub proof fn lemma_filtered_elements(&self, hov: Seq<usize>)
        requires
            self.wf(),
            forall|j: int| 0 <= j < hov.len() ==> self.board.is_tile_id((#[trigger] hov[j]) as int),
        ensures
            forall|k: int|
                0 <= k < self.spec_filtered(hov).len() ==> {
                    &&& self.board.valid_coord(#[trigger] self.spec_filtered(hov)[k])
                    &&& self.allied_pawn_at(
                        self.board.spec_tile_id(self.spec_filtered(hov)[k]),
                    )
                },
        decreases hov.len(),
    {
        if hov.len() > 0 {
            self.lemma_filtered_elements(hov.drop_last());
            let f = self.spec_filtered(hov);
            let rest = self.spec_filtered(hov.drop_last());
            if self.allied_pawn_at(hov.last() as int) {
                let t = hov.last();
                assert(self.board.is_tile_id(hov[hov.len() - 1] as int));
                self.board.lemma_tile_id_inverse(t as int);
            }
            assert forall|k: int| 0 <= k < f.len() implies {
                &&& self.board.valid_coord(#[trigger] f[k])
                &&& self.allied_pawn_at(self.board.spec_tile_id(f[k]))
            } by {
                if k < rest.len() {
                    assert(f[k] == rest[k]);
                    assert(self.board.valid_coord(rest[k]));
                } else {
                    assert(f[k] == f.last());
                }
            };
        }
    }

    /// Filter a finalized selection down to the coordinates currently
    /// holding an allied pawn.
    fn filter_selection(&self, hovered: &Vec<usize>) -> (r: Vec<HexCoord>)
        requires
            self.wf(),
            forall|j: int|
                0 <= j < hovered@.len() ==> self.board.is_tile_id((#[trigger] hovered@[j]) as int),
        ensures
            r@ == self.spec_filtered(hovered@),
    {
        let mut r: Vec<HexCoord> = Vec::new();
        let mut j: usize = 0;
        while j < hovered.len()
            invariant
                self.wf(),
                j <= hovered@.len(),
                forall|jj: int|
                    0 <= jj < hovered@.len() ==> self.board.is_tile_id(
                        (#[trigger] hovered@[jj]) as int,
                    ),
                r@ == self.spec_filtered(hovered@.take(j as int)),
            decreases hovered@.len() - j,
        {
            let t = hovered[j];
            proof {
                assert(hovered@.take(j as int + 1).drop_last() =~= hovered@.take(j as int));
                assert(hovered@.take(j as int + 1).last() == t);
            }
            let allied = match self.pawn_reg.piece_at(t) {
                Some(e) => e.faction == self.player,
                None => false,
            };
            if allied {
                let c = self.board.coord_of(t).unwrap();
                r.push(c);
            }
            j += 1;
        }
        proof {
            assert(hovered@.take(hovered@.len() as int) =~= hovered@);
        }
        r
    }

    /// Resolve a finalized selection: filter it to allied pawns and check
    /// the eighteen templates anchored at the base. On a match with a free
    /// base tile, the two matched pawns are merged away and a promotion for
    /// the base tile becomes pending; otherwise nothing changes and the
    /// selection is simply forgotten.
    #[verifier::rlimit(100)]
    pub fn resolve_selection(&mut self, base: usize, hovered: &Vec<usize>, out: &mut Vec<OutputEvent>)
        requires
            old(self).wf(),
            old(self).board.is_tile_id(base as int),
            forall|j: int|
                0 <= j < hovered@.len() ==> old(self).board.is_tile_id(
                    (#[trigger] hovered@[j]) as int,
                ),
        ensures
            final(self).wf(),
            final(self).board.radius == old(self).board.radius,
            final(self).player == old(self).player,
            final(self).bishops@ == old(self).bishops@,
            final(self).bishop_reg.at@ == old(self).bishop_reg.at@,
            final(self).session == old(self).session,
            final(self).control == old(self).control,
            final(self).pawns@.len() == old(self).pawns@.len(),
            ({
                let filtered = old(self).spec_filtered(hovered@);
                let basec = old(self).board.spec_coord_at(base as int);
                if !combo_match(basec, filtered) || !(old(self).board.occ@[base as int] is None) {
                    *final(self) == *old(self)
                } else {
                    exists|m: int|
                        0 <= m < TEMPLATE_COUNT && #[trigger] combo_matches_at(basec, filtered, m)
                            && {
                            let t1 = old(self).board.spec_tile_id(spec_template(basec, m).0);
                            let t2 = old(self).board.spec_tile_id(spec_template(basec, m).1);
                            let p1 = old(self).pawn_reg.spec_at(t1)->Some_0.piece as int;
                            let p2 = old(self).pawn_reg.spec_at(t2)->Some_0.piece as int;
                            &&& old(self).pawn_reg.spec_at(t1) is Some
                            &&& old(self).pawn_reg.spec_at(t2) is Some
                            &&& final(self).promotions@ == old(self).promotions@.push(
                                (Promotion {
                                    faction: old(self).player,
                                    tile: base,
                                    elapsed_ms: 0u64,
                                }),
                            )
                            &&& final(self).board.occ@ == old(self).board.occ@.update(
                                t1,
                                None::<crate::Faction>,
                            ).update(t2, None::<crate::Faction>)
                            &&& final(self).pawn_reg.at@ == old(self).pawn_reg.at@.update(
                                t1,
                                None::<RegEntry>,
                            ).update(t2, None::<RegEntry>)
                            &&& final(self).pawns@ == old(self).pawns@.update(
                                p1,
                                (PawnPiece {
                                    state: PawnState::MergedAway { elapsed_ms: 0u64 },
                                    ..old(self).pawns@[p1]
                                }),
                            ).update(
                                p2,
                                (PawnPiece {
                                    state: PawnState::MergedAway { elapsed_ms: 0u64 },
                                    ..old(self).pawns@[p2]
                                }),
                            )
                        }
                }
            }),
            // A failed or base-blocked selection emits nothing; a match
            // emits the merge visuals and ends with the promotion request.
            ({
                let filtered = old(self).spec_filtered(hovered@);
                let basec = old(self).board.spec_coord_at(base as int);
                if !combo_match(basec, filtered) || !(old(self).board.occ@[base as int] is None) {
                    final(out)@ == old(out)@
                } else {
                    &&& final(out)@.len() == old(out)@.len() + 5
                    &&& final(out)@.subrange(0, old(out)@.len() as int) == old(out)@
                    &&& final(out)@[final(out)@.len() - 1] == (OutputEvent::PromotionRequested {
                        faction: old(self).player,
                        tile: base,
                    })
                }
            }),
    {
        let filtered = self.filter_selection(hovered);
        let basec = self.board.coord_of(base).unwrap();
        assert(basec.bounded(crate::hex::COORD_LIMIT as int - 2));
        let m = match match_combination(basec, &filtered) {
            Some(m) => m,
            None => {
                return;
            },
        };
        if self.board.occupant(base).is_some() {
            proof {
                assert(!(old(self).board.occ@[base as int] is None));
            }
            return;
        }
        proof {
            self.lemma_filtered_elements(hovered@);
        }
        let t = crate::matcher::template(basec, m);
        let ghost fs = self.spec_filtered(hovered@);
        proof {
            assert(fs[0] == t.0 && fs[1] == t.1 || fs[0] == t.1 && fs[1] == t.0);
            assert(self.board.valid_coord(t.0) && self.board.valid_coord(t.1));
        }
        let t1 = self.board.tile_at(t.0).unwrap();
        let t2 = self.board.tile_at(t.1).unwrap();
        proof {
            assert(self.allied_pawn_at(t1 as int));
            assert(self.allied_pawn_at(t2 as int));
            assert(t.0 != t.1);
            assert(t1 != t2) by {
                self.board.lemma_tile_id_bijection(t.0);
                self.board.lemma_tile_id_bijection(t.1);
            };
        }
        let ghost p1 = self.pawn_reg.spec_at(t1 as int)->Some_0.piece as int;
        let ghost p2 = self.pawn_reg.spec_at(t2 as int)->Some_0.piece as int;
        proof {
            assert(old(self).tile_link_ok(t1 as int));
            assert(old(self).tile_link_ok(t2 as int));
            assert(p1 != p2);
        }
        self.merge_pawn_at(t1, out);
        proof {
            assert(self.pawn_reg.spec_at(t2 as int) == old(self).pawn_reg.spec_at(t2 as int));
        }
        let ghost mid = *self;
        self.merge_pawn_at(t2, out);
        proof {
            assert(self.board.occ@ =~= old(self).board.occ@.update(
                t1 as int,
                None::<crate::Faction>,
            ).update(t2 as int, None::<crate::Faction>));
            assert(self.pawn_reg.at@ =~= old(self).pawn_reg.at@.update(
                t1 as int,
                None::<RegEntry>,
            ).update(t2 as int, None::<RegEntry>));
            assert(self.pawns@ =~= old(self).pawns@.update(
                p1,
                (PawnPiece {
                    state: PawnState::MergedAway { elapsed_ms: 0u64 },
                    ..old(self).pawns@[p1]
                }),
            ).update(
                p2,
                (PawnPiece {
                    state: PawnState::MergedAway { elapsed_ms: 0u64 },
                    ..old(self).pawns@[p2]
                }),
            ));
        }
        let ghost prev = *self;
        self.promotions.push(Promotion { faction: self.player, tile: base, elapsed_ms: 0 });
        out.push(OutputEvent::PromotionRequested { faction: self.player, tile: base });
        proof {
            assert forall|tt: int| 0 <= tt < self.slots() implies #[trigger] self.tile_link_ok(
                tt,
            ) by {
                assert(prev.tile_link_ok(tt));
            };
            assert forall|i: int| 0 <= i < self.pawns@.len() implies #[trigger] self.pawn_link_ok(
                i,
            ) by {
                assert(prev.pawn_link_ok(i));
            };
            assert forall|i: int| 0 <= i < self.bishops@.len() implies #[trigger] self
                .bishop_link_ok(i) by {
                assert(prev.bishop_link_ok(i));
            };
            assert(combo_matches_at(
                old(self).board.spec_coord_at(base as int),
                old(self).spec_filtered(hovered@),
                m as int,
            ));
            assert forall|j: int|
                0 <= j < self.promotions@.len()
                    implies self.board.is_tile_id((#[trigger] self.promotions@[j]).tile as int) by {
            };
        }
    }

    /// A press on `tile` while bishop `b` awaits its direction launches it:
    /// the target is still idle, the pressed tile is on the exposed path,
    /// and it lies on one of the six rays out of the bishop.
    pub open spec fn spec_press_launches(&self, b: int, tile: int) -> bool {
        &&& self.board.is_tile_id(tile)
        &&& self.bishops@[b].state is Idle
        &&& self.board.path@.contains(tile as usize)
        &&& exists|i: int|
            0 <= i < 6 && #[trigger] spec_on_axis(
                self.board.spec_coord_at(self.bishops@[b].tile as int),
                self.board.spec_coord_at(tile),
                i,
            )
    }

    /// The engine-state relation one primary press establishes, routed by
    /// current state: a press while a bishop awaits its direction either
    /// launches it along the clicked ray and clears the path, or only
    /// cancels; a press on an idle allied bishop exposes its paths; any
    /// other press on a tile begins a selection session; a press off the
    /// board with nothing pending is ignored.
    pub open spec fn spec_press_step(pre: Engine, tile: usize, post: Engine) -> bool {
        &&& (pre.control is Some ==> {
            &&& post.control is None
            &&& post.board.path@.len() == 0
            &&& post.session == pre.session
            &&& post.pawns@ == pre.pawns@
            &&& post.pawn_reg.at@ == pre.pawn_reg.at@
            &&& post.promotions@ == pre.promotions@
        })
        &&& (pre.control matches Some(b) ==> (pre.spec_press_launches(b as int, tile as int)
            ==> exists|i: int|
            0 <= i < 6 && #[trigger] spec_on_axis(
                pre.board.spec_coord_at(pre.bishops@[b as int].tile as int),
                pre.board.spec_coord_at(tile as int),
                i,
            ) && post.bishops@ == pre.bishops@.update(
                b as int,
                (BishopPiece {
                    state: BishopState::Flying {
                        dir: i as usize,
                        progress_milli: 0u64,
                        speed_milli: SPEED_START,
                    },
                    ..pre.bishops@[b as int]
                }),
            ) && post.board.occ@ == pre.board.occ@.update(
                pre.bishops@[b as int].tile as int,
                None::<crate::Faction>,
            ) && post.bishop_reg.at@ == pre.bishop_reg.at@.update(
                pre.bishops@[b as int].tile as int,
                None::<RegEntry>,
            )))
        &&& (pre.control matches Some(b) ==> (!pre.spec_press_launches(b as int, tile as int)
            ==> {
            &&& post.bishops@ == pre.bishops@
            &&& post.board.occ@ == pre.board.occ@
            &&& post.bishop_reg.at@ == pre.bishop_reg.at@
        }))
        &&& ((pre.control is None && pre.board.is_tile_id(tile as int)
            && pre.idle_allied_bishop_at(tile as int) is Some) ==> {
            &&& post.control == pre.idle_allied_bishop_at(tile as int)
            &&& post.session == pre.session
            &&& post.board.occ@ == pre.board.occ@
            &&& post.pawns@ == pre.pawns@
            &&& post.bishops@ == pre.bishops@
            &&& post.pawn_reg.at@ == pre.pawn_reg.at@
            &&& post.bishop_reg.at@ == pre.bishop_reg.at@
            &&& post.promotions@ == pre.promotions@
            &&& six_ray_union(
                pre.board,
                pre.bishops@[pre.idle_allied_bishop_at(tile as int)->Some_0 as int].faction,
                pre.board.spec_coord_at(
                    pre.bishops@[pre.idle_allied_bishop_at(tile as int)->Some_0 as int].tile as int,
                ),
                post.board.path@,
            )
        })
        &&& ((pre.control is None && pre.board.is_tile_id(tile as int)
            && pre.idle_allied_bishop_at(tile as int) is None) ==> {
            &&& post.session.pressed
            &&& post.session.base == tile
            &&& post.session.hovered@ =~= seq![tile]
            &&& post.board == pre.board
            &&& post.pawns@ == pre.pawns@
            &&& post.bishops@ == pre.bishops@
            &&& post.pawn_reg.at@ == pre.pawn_reg.at@
            &&& post.bishop_reg.at@ == pre.bishop_reg.at@
            &&& post.promotions@ == pre.promotions@
            &&& post.control == pre.control
        })
        &&& ((pre.control is None && !pre.board.is_tile_id(tile as int)) ==> post == pre)
    }

    /// Route a press by current state; see `spec_press_step` for the cases.
    fn press_tile(&mut self, tile: usize, out: &mut Vec<OutputEvent>)
        requires
            old(self).wf(),
        ensures
            final(self).wf(),
            final(self).board.radius == old(self).board.radius,
            final(self).player == old(self).player,
            final(self).pawns@.len() == old(self).pawns@.len(),
            final(self).bishops@.len() == old(self).bishops@.len(),
            Self::spec_press_step(*old(self), tile, *final(self)),
            final(out)@.len() >= old(out)@.len(),
            final(out)@.subrange(0, old(out)@.len() as int) == old(out)@,
    {
        let valid = self.board.coord_of(tile);
        match self.control {
            Some(bi) => {
                let mut launch_dir: Option<usize> = None;
                match valid {
                    Some(c) => {
                        let b = self.bishops[bi];
                        let idle = match b.state {
                            BishopState::Idle => true,
                            _ => false,
                        };
                        if idle && contains_tile(&self.board.path, tile) {
                            proof {
                                assert(self.bishop_link_ok(bi as int));
                                assert(self.tile_link_ok(b.tile as int));
                            }
                            let bc = self.board.coord_of(b.tile).unwrap();
                            assert(bc.bounded(crate::board::MAX_RADIUS as int));
                            assert(c.bounded(crate::board::MAX_RADIUS as int));
                            launch_dir = crate::hex::direction_toward(bc, c);
                        }
                    },
                    None => {},
                }
                match launch_dir {
                    Some(di) => {
                        self.launch_bishop(bi, di, out);
                        self.cancel_path(out);
                        proof {
                            assert(Self::spec_press_step(*old(self), tile, *self)) by {
                                assert(spec_on_axis(
                                    old(self).board.spec_coord_at(
                                        old(self).bishops@[bi as int].tile as int,
                                    ),
                                    old(self).board.spec_coord_at(tile as int),
                                    di as int,
                                ));
                            };
                        }
                    },
                    None => {
                        self.cancel_path(out);
                    },
                }
            },
            None => {
                match valid {
                    Some(_) => {
                        let mut exposed = false;
                        match self.bishop_reg.piece_at(tile) {
                            Some(entry) => {
                                if entry.faction == self.player {
                                    proof {
                                        assert(self.tile_link_ok(tile as int));
                                    }
                                    let idle = match self.bishops[entry.piece].state {
                                        BishopState::Idle => true,
                                        _ => false,
                                    };
                                    if idle {
                                        self.expose_bishop_paths(entry.piece, out);
                                        exposed = true;
                                    }
                                }
                            },
                            None => {},
                        }
                        if !exposed {
                            self.session.press(tile);
                            out.push(OutputEvent::SetTileStyle { tile, style: Style::Path });
                            proof {
                                Engine::lemma_links_carry_over(*old(self), *self);
                            }
                        }
                    },
                    None => {},
                }
            },
        }
    }

    /// Filtering a selection depends only on the pawn registry, the player
    /// and the board geometry, never on the session or anything else.
    pub proof fn lemma_filtered_unchanged(a: Engine, b: Engine, hov: Seq<usize>)
        requires
            b.pawn_reg.at@ == a.pawn_reg.at@,
            b.player == a.player,
            b.board.radius == a.board.radius,
        ensures
            b.spec_filtered(hov) == a.spec_filtered(hov),
        decreases hov.len(),
    {
        if hov.len() > 0 {
            Self::lemma_filtered_unchanged(a, b, hov.drop_last());
        }
    }

    /// The engine-state relation a primary release while pressed
    /// establishes: the session is finalized and cleared, and the engine
    /// resolves the selection `(base, hovered)` exactly as
    /// `resolve_selection` does — no change on a failed match or a blocked
    /// base, and the two matched pawns merged away with a pending promotion
    /// otherwise.
    pub open spec fn spec_release_step(pre: Engine, post: Engine) -> bool {
        let hov = pre.session.hovered@;
        let base = pre.session.base;
        let filtered = pre.spec_filtered(hov);
        let basec = pre.board.spec_coord_at(base as int);
        &&& !post.session.pressed
        &&& post.session.hovered@.len() == 0
        &&& post.bishops@ == pre.bishops@
        &&& post.bishop_reg.at@ == pre.bishop_reg.at@
        &&& post.control == pre.control
        &&& post.pawns@.len() == pre.pawns@.len()
        &&& if !combo_match(basec, filtered) || !(pre.board.occ@[base as int] is None) {
            &&& post.board.occ@ == pre.board.occ@
            &&& post.board.path@ == pre.board.path@
            &&& post.pawns@ == pre.pawns@
            &&& post.pawn_reg.at@ == pre.pawn_reg.at@
            &&& post.promotions@ == pre.promotions@
        } else {
            exists|m: int|
                0 <= m < TEMPLATE_COUNT && #[trigger] combo_matches_at(basec, filtered, m) && {
                    let t1 = pre.board.spec_tile_id(spec_template(basec, m).0);
                    let t2 = pre.board.spec_tile_id(spec_template(basec, m).1);
                    let p1 = pre.pawn_reg.spec_at(t1)->Some_0.piece as int;
                    let p2 = pre.pawn_reg.spec_at(t2)->Some_0.piece as int;
                    &&& pre.pawn_reg.spec_at(t1) is Some
                    &&& pre.pawn_reg.spec_at(t2) is Some
                    &&& post.promotions@ == pre.promotions@.push(
                        (Promotion { faction: pre.player, tile: base, elapsed_ms: 0u64 }),
                    )
                    &&& post.board.occ@ == pre.board.occ@.update(
                        t1,
                        None::<crate::Faction>,
                    ).update(t2, None::<crate::Faction>)
                    &&& post.pawn_reg.at@ == pre.pawn_reg.at@.update(
                        t1,
                        None::<RegEntry>,
                    ).update(t2, None::<RegEntry>)
                    &&& post.pawns@ == pre.pawns@.update(
                        p1,
                        (PawnPiece {
                            state: PawnState::MergedAway { elapsed_ms: 0u64 },
                            ..pre.pawns@[p1]
                        }),
                    ).update(
                        p2,
                        (PawnPiece {
                            state: PawnState::MergedAway { elapsed_ms: 0u64 },
                            ..pre.pawns@[p2]
                        }),
                    )
                }
        }
    }

    /// The engine-state relation one input event establishes: the whole
    /// per-event contract of `handle_input`, usable in the per-tick
    /// composition. Hovers only touch the session; presses advance per
    /// `spec_press_step`; a primary release while pressed advances per
    /// `spec_release_step`; everything else changes nothing.
    pub open spec fn spec_input_step(pre: Engine, ev: InputEvent, post: Engine) -> bool {
        &&& post.wf()
        &&& post.board.radius == pre.board.radius
        &&& post.player == pre.player
        &&& post.pawns@.len() == pre.pawns@.len()
        &&& post.bishops@.len() == pre.bishops@.len()
        &&& match ev {
            InputEvent::TileHoverBegan { tile } => {
                if pre.session.pressed && pre.board.is_tile_id(tile as int) {
                    &&& post.board == pre.board
                    &&& post.pawns@ == pre.pawns@
                    &&& post.bishops@ == pre.bishops@
                    &&& post.pawn_reg.at@ == pre.pawn_reg.at@
                    &&& post.bishop_reg.at@ == pre.bishop_reg.at@
                    &&& post.promotions@ == pre.promotions@
                    &&& post.control == pre.control
                    &&& post.session.pressed
                    &&& post.session.base == pre.session.base
                    &&& post.session.hovered@ == (if pre.session.hovered@.contains(tile) {
                        pre.session.hovered@
                    } else {
                        pre.session.hovered@.push(tile)
                    })
                } else {
                    post == pre
                }
            },
            InputEvent::TileHoverEnded { .. } => post == pre,
            InputEvent::TilePressed { tile, button } => {
                if button == Button::Primary {
                    Engine::spec_press_step(pre, tile, post)
                } else {
                    post == pre
                }
            },
            InputEvent::TileReleased { button } => {
                if button == Button::Primary && pre.session.pressed {
                    Engine::spec_release_step(pre, post)
                } else {
                    post == pre
                }
            },
        }
    }

    /// Consume one abstract input event: hover bookkeeping and highlight
    /// requests, press dispatch, and release finalization with combination
    /// resolution and style restoration against current occupancy.
    pub fn handle_input(&mut self, ev: InputEvent, out: &mut Vec<OutputEvent>)
        requires
            old(self).wf(),
        ensures
            final(self).wf(),
            final(self).board.radius == old(self).board.radius,
            final(self).player == old(self).player,
            final(self).pawns@.len() == old(self).pawns@.len(),
            final(self).bishops@.len() == old(self).bishops@.len(),
            Self::spec_input_step(*old(self), ev, *final(self)),
            // Only events are ever appended.
            final(out)@.len() >= old(out)@.len(),
            final(out)@.subrange(0, old(out)@.len() as int) == old(out)@,
            // A hover entering a tile asks for the path style during a
            // press and the highlight style otherwise.
            ev matches InputEvent::TileHoverBegan { tile } ==> final(out)@ == (if old(
                self,
            ).board.is_tile_id(tile as int) {
                old(out)@.push(
                    (OutputEvent::SetTileStyle {
                        tile,
                        style: if old(self).session.pressed { Style::Path } else { Style::Highlight },
                    }),
                )
            } else {
                old(out)@
            }),
            // A hover leaving a tile restores it: path style while swept or
            // on the exposed path, else the style of its current occupancy.
            ev matches InputEvent::TileHoverEnded { tile } ==> final(out)@ == (if old(
                self,
            ).board.is_tile_id(tile as int) {
                old(out)@.push(
                    (OutputEvent::SetTileStyle {
                        tile,
                        style: if (old(self).session.pressed && old(self).session.hovered@.contains(
                            tile,
                        )) || old(self).board.path@.contains(tile) {
                            Style::Path
                        } else {
                            spec_occupancy_style(old(self).board.occ@[tile as int])
                        },
                    }),
                )
            } else {
                old(out)@
            }),
            // A primary release restores every swept tile to the style of
            // its occupancy as of release time, after the resolution.
            ev matches InputEvent::TileReleased { button } ==> ((button == Button::Primary
                && old(self).session.pressed) ==> {
                &&& final(out)@.len() >= old(out)@.len() + old(self).session.hovered@.len()
                &&& forall|k: int|
                    0 <= k < old(self).session.hovered@.len() ==> final(out)@[final(out)@.len()
                        - old(self).session.hovered@.len() + k] == (OutputEvent::SetTileStyle {
                        tile: old(self).session.hovered@[k],
                        style: spec_occupancy_style(
                            final(self).board.occ@[old(self).session.hovered@[k] as int],
                        ),
                    })
            }),
    {
        match ev {
            InputEvent::TileHoverBegan { tile } => {
                match self.board.coord_of(tile) {
                    Some(_) => {
                        if self.session.pressed {
                            self.session.hover(tile);
                            out.push(OutputEvent::SetTileStyle { tile, style: Style::Path });
                            proof {
                                Engine::lemma_links_carry_over(*old(self), *self);
                            }
                        } else {
                            out.push(OutputEvent::SetTileStyle { tile, style: Style::Highlight });
                        }
                    },
                    None => {},
                }
            },
            InputEvent::TileHoverEnded { tile } => {
                match self.board.coord_of(tile) {
                    Some(_) => {
                        let in_selection = self.session.pressed && self.session.contains(tile);
                        let in_path = contains_tile(&self.board.path, tile);
                        if in_selection || in_path {
                            out.push(OutputEvent::SetTileStyle { tile, style: Style::Path });
                        } else {
                            let o = self.board.occupant(tile);
                            out.push(
                                OutputEvent::SetTileStyle { tile, style: occupancy_style(o) },
                            );
                        }
                    },
                    None => {},
                }
            },
            InputEvent::TilePressed { tile, button } => {
                if button == Button::Primary {
                    self.press_tile(tile, out);
                }
            },
            InputEvent::TileReleased { button } => {
                if button == Button::Primary && self.session.pressed {
                    let (base, hovered) = self.session.release();
                    proof {
                        Engine::lemma_links_carry_over(*old(self), *self);
                    }
                    let ghost mid = *self;
                    self.resolve_selection(base, &hovered, out);
                    proof {
                        Self::lemma_filtered_unchanged(*old(self), mid, hovered@);
                    }
                    let ghost s_res = *self;
                    let ghost out_res = out@;
                    // Restore every swept tile's style to its true current
                    // occupancy, which the resolution may just have changed.
                    let mut j: usize = 0;
                    while j < hovered.len()
                        invariant
                            *self == s_res,
                            self.wf(),
                            self.board.radius == old(self).board.radius,
                            j <= hovered@.len(),
                            forall|k: int|
                                0 <= k < hovered@.len() ==> old(self).board.is_tile_id(
                                    (#[trigger] hovered@[k]) as int,
                                ),
                            out@.len() == out_res.len() + j,
                            out@.subrange(0, out_res.len() as int) == out_res,
                            forall|k: int|
                                0 <= k < j ==> out@[out_res.len() + k] == (OutputEvent::SetTileStyle {
                                    tile: hovered@[k],
                                    style: spec_occupancy_style(
                                        self.board.occ@[hovered@[k] as int],
                                    ),
                                }),
                        decreases hovered@.len() - j,
                    {
                        let t = hovered[j];
                        let o = self.board.occupant(t);
                        out.push(OutputEvent::SetTileStyle { tile: t, style: occupancy_style(o) });
                        j += 1;
                    }
                    proof {
                        assert(out@.subrange(0, old(out)@.len() as int) =~= old(out)@);
                    }
                }
            },
        }
    }

    /// `tr` witnesses the batch of input events applied in order: it lists
    /// the engine states before and after each event, and every consecutive
    /// pair advances exactly per `spec_input_step`.
    pub open spec fn spec_input_trace_ok(
        pre: Engine,
        evs: Seq<InputEvent>,
        tr: Seq<Engine>,
        post: Engine,
    ) -> bool {
        &&& tr.len() == evs.len() + 1
        &&& tr[0] == pre
        &&& tr[evs.len() as int] == post
        &&& forall|i: int|
            0 <= i < evs.len() ==> Engine::spec_input_step(tr[i], #[trigger] evs[i], tr[i + 1])
    }

    /// The batch of input events applied in order, each step advancing the
    /// engine exactly per `spec_input_step`.
    pub open spec fn spec_inputs_applied(pre: Engine, evs: Seq<InputEvent>, post: Engine) -> bool {
        exists|tr: Seq<Engine>| Self::spec_input_trace_ok(pre, evs, tr, post)
    }

    /// One frame of the engine: consume the batch of input events, then run
    /// the per-tick systems in their fixed, deterministic order — input and
    /// selection resolution (a combination resolves before any timer
    /// ticks), then pawn timers, bishop movement and pending promotions,
    /// then spawn-request materialization — and emit the resulting output
    /// events for the rendering collaborator.
    pub fn tick(&mut self, dt: u64, inputs: &Vec<InputEvent>) -> (out: Vec<OutputEvent>)
        requires
            old(self).wf(),
        ensures
            final(self).wf(),
            final(self).board.radius == old(self).board.radius,
            final(self).player == old(self).player,
            old(self).pawns@.len() <= final(self).pawns@.len(),
            old(self).bishops@.len() <= final(self).bishops@.len(),
            // The frame is exactly the fixed order of systems: the inputs
            // applied in order (with any combination resolved on release),
            // then the pawn timers, then bishop movement, then pending
            // promotions, then one spawn materialization per fired pawn in
            // increasing index order. In particular the timers see the
            // post-resolution state, so a pawn merged away by this frame's
            // inputs cannot also reproduce in it.
            exists|s1: Engine, s2: Engine, s3: Engine, s4: Engine, fired: Seq<usize>|
                #![auto]
                {
                    &&& Self::spec_inputs_applied(*old(self), inputs@, s1)
                    &&& spec_pawns_phase(s1, dt, s2, fired)
                    &&& spec_bishops_phase(s2, dt, s3)
                    &&& spec_promotions_phase(s3, dt, s4)
                    &&& spec_materialized_all(s4, fired, *final(self))
                },
    {
        let mut out: Vec<OutputEvent> = Vec::new();
        let ghost mut itrace: Seq<Engine> = seq![*old(self)];
        let mut i: usize = 0;
        while i < inputs.len()
            invariant
                self.wf(),
                self.board.radius == old(self).board.radius,
                self.player == old(self).player,
                old(self).pawns@.len() <= self.pawns@.len(),
                old(self).bishops@.len() <= self.bishops@.len(),
                i <= inputs@.len(),
                Self::spec_input_trace_ok(*old(self), inputs@.take(i as int), itrace, *self),
            decreases inputs@.len() - i,
        {
            let ghost prev = *self;
            let ghost prev_trace = itrace;
            let ev = inputs[i];
            self.handle_input(ev, &mut out);
            proof {
                itrace = itrace.push(*self);
                assert forall|j: int|
                    0 <= j < i + 1 implies Engine::spec_input_step(
                        itrace[j],
                        #[trigger] inputs@.take(i as int + 1)[j],
                        itrace[j + 1],
                    ) by {
                    if j < i {
                        assert(Engine::spec_input_step(
                            prev_trace[j],
                            inputs@.take(i as int)[j],
                            prev_trace[j + 1],
                        ));
                    } else {
                        assert(itrace[j] == prev && itrace[j + 1] == *self);
                        assert(Engine::spec_input_step(prev, ev, *self));
                    }
                };
            }
            i += 1;
        }
        proof {
            assert(inputs@.take(inputs@.len() as int) =~= inputs@);
        }
        let ghost s1 = *self;
        let reqs = self.advance_pawns(dt, &mut out);
        let ghost s2 = *self;
        self.advance_bishops(dt, &mut out);
        let ghost s3 = *self;
        self.advance_promotions(dt, &mut out);
        let ghost s4 = *self;
        let ghost mut mtrace: Seq<Engine> = seq![s4];
        let mut k: usize = 0;
        while k < reqs.len()
            invariant
                self.wf(),
                self.board.radius == old(self).board.radius,
                self.player == old(self).player,
                old(self).pawns@.len() <= self.pawns@.len(),
                old(self).bishops@.len() <= self.bishops@.len(),
                k <= reqs@.len(),
                Self::spec_input_trace_ok(*old(self), inputs@, itrace, s1),
                spec_pawns_phase(s1, dt, s2, reqs@),
                spec_bishops_phase(s2, dt, s3),
                spec_promotions_phase(s3, dt, s4),
                crate::pawn::spec_materialize_trace_ok(s4, reqs@.take(k as int), mtrace, *self),
            decreases reqs@.len() - k,
        {
            let ghost prev = *self;
            let ghost prev_trace = mtrace;
            let origin = reqs[k];
            self.materialize_spawn_request(origin, &mut out);
            proof {
                mtrace = mtrace.push(*self);
                assert forall|j: int|
                    0 <= j < k + 1 implies spec_materialize_step(
                        mtrace[j],
                        #[trigger] reqs@.take(k as int + 1)[j],
                        mtrace[j + 1],
                    ) by {
                    if j < k {
                        assert(spec_materialize_step(
                            prev_trace[j],
                            reqs@.take(k as int)[j],
                            prev_trace[j + 1],
                        ));
                    } else {
                        assert(mtrace[j] == prev && mtrace[j + 1] == *self);
                        assert(spec_materialize_step(prev, origin, *self));
                    }
                };
            }
            k += 1;
        }
        proof {
            assert(reqs@.take(reqs@.len() as int) =~= reqs@);
            assert(crate::pawn::spec_materialize_trace_ok(s4, reqs@, mtrace, *self));
            assert(Self::spec_input_trace_ok(*old(self), inputs@, itrace, s1));
        }
        out
    }
}

} // verus!
