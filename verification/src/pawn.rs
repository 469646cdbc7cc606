//! Pawn lifecycle systems: the per-tick animation and reproduction timers,
//! materialization of spawn requests with randomized placement, the
//! merged-away transition, and completion of pending promotions.

use vstd::prelude::*;
use crate::engine::{Engine, Promotion};
use crate::events::{OutputEvent, PieceKind, Clip, Style};
use crate::pieces::{
    PawnPiece, PawnState, BishopPiece, BishopState, pawn_present, bishop_present, pawn_anim_step,
    spec_pawn_anim_step, spec_timer_fires, spec_timer_after, saturating_add, sat_add, MERGE_MS,
};
use crate::registry::RegEntry;
use crate::rng::{SPAWN_INTERVAL_MIN_MS, SPAWN_INTERVAL_MAX_MS};
use crate::hex::ray_point;
use crate::Faction;

verus! {

/// A whole pawn after one tick of its animation and reproduction timers.
pub open spec fn spec_pawn_tick(p: PawnPiece, dt: u64) -> PawnPiece {
    PawnPiece {
        state: spec_pawn_anim_step(p.state, dt),
        timer_ms: spec_timer_after(p, dt),
        ..p
    }
}

/// The pending promotions after one tick: each advances by `dt`, and those
/// reaching the merge duration leave the list (they materialize or are
/// dropped), keeping their order.
pub open spec fn spec_promos_after(ps: Seq<Promotion>, dt: u64) -> Seq<Promotion>
    decreases ps.len(),
{
    if ps.len() == 0 {
        Seq::empty()
    } else {
        let rest = spec_promos_after(ps.drop_last(), dt);
        let p = ps.last();
        if sat_add(p.elapsed_ms, dt) < MERGE_MS {
            rest.push(Promotion { elapsed_ms: sat_add(p.elapsed_ms, dt), ..p })
        } else {
            rest
        }
    }
}

/// One promotion applied to the (occupancy, bishop list, bishop registry)
/// triple: a promotion whose merge duration completes materializes a
/// settling bishop when its tile is free at that point, and is dropped as
/// stale when the tile has been taken; one still short of the duration
/// changes nothing here.
pub open spec fn spec_promotion_step(
    p: Promotion,
    dt: u64,
    st: (Seq<Option<Faction>>, Seq<BishopPiece>, Seq<Option<RegEntry>>),
) -> (Seq<Option<Faction>>, Seq<BishopPiece>, Seq<Option<RegEntry>>) {
    if sat_add(p.elapsed_ms, dt) >= MERGE_MS && st.0[p.tile as int] is None {
        (
            st.0.update(p.tile as int, Some(p.faction)),
            st.1.push(
                BishopPiece {
                    faction: p.faction,
                    tile: p.tile,
                    state: BishopState::Spawning { elapsed_ms: 0u64 },
                },
            ),
            st.2.update(
                p.tile as int,
                Some(RegEntry { piece: st.1.len() as usize, faction: p.faction }),
            ),
        )
    } else {
        st
    }
}

/// The pending promotions applied to the occupancy, bishop list and bishop
/// registry in list order, each seeing the state its predecessors left.
pub open spec fn spec_promotions_fold(
    ps: Seq<Promotion>,
    dt: u64,
    st: (Seq<Option<Faction>>, Seq<BishopPiece>, Seq<Option<RegEntry>>),
) -> (Seq<Option<Faction>>, Seq<BishopPiece>, Seq<Option<RegEntry>>)
    decreases ps.len(),
{
    if ps.len() == 0 {
        st
    } else {
        spec_promotion_step(ps.last(), dt, spec_promotions_fold(ps.drop_last(), dt, st))
    }
}

/// The engine-state relation of the pawn-timer phase: every pawn advanced
/// pointwise by `spec_pawn_tick`, nothing else changed, and `fired` exactly
/// the increasing list of indices whose reproduction timer fired.
pub open spec fn spec_pawns_phase(pre: Engine, dt: u64, post: Engine, fired: Seq<usize>) -> bool {
    &&& post.wf()
    &&& post.board == pre.board
    &&& post.player == pre.player
    &&& post.pawn_reg.at@ == pre.pawn_reg.at@
    &&& post.bishop_reg.at@ == pre.bishop_reg.at@
    &&& post.bishops@ == pre.bishops@
    &&& post.promotions@ == pre.promotions@
    &&& post.session == pre.session
    &&& post.control == pre.control
    &&& post.pawns@.len() == pre.pawns@.len()
    &&& forall|i: int|
        0 <= i < pre.pawns@.len() ==> post.pawns@[i] == spec_pawn_tick(
            #[trigger] pre.pawns@[i],
            dt,
        )
    &&& forall|k: int|
        0 <= k < fired.len() ==> #[trigger] fired[k] < pre.pawns@.len() && spec_timer_fires(
            pre.pawns@[fired[k] as int],
            dt,
        )
    &&& forall|i: int|
        0 <= i < pre.pawns@.len() && spec_timer_fires(#[trigger] pre.pawns@[i], dt)
            ==> fired.contains(i as usize)
    &&& forall|k1: int, k2: int| 0 <= k1 < k2 < fired.len() ==> fired[k1] < fired[k2]
}

/// The engine-state relation of materializing one spawn request from pawn
/// `origin`: a stale or placeless request is dropped without any change; a
/// standing origin with a free neighbor always yields one settling pawn on
/// such a neighbor and sends the origin acting.
pub open spec fn spec_materialize_step(pre: Engine, origin: usize, post: Engine) -> bool {
    &&& post.wf()
    &&& post.board.radius == pre.board.radius
    &&& post.player == pre.player
    &&& post.bishops@ == pre.bishops@
    &&& post.bishop_reg.at@ == pre.bishop_reg.at@
    &&& post.promotions@ == pre.promotions@
    &&& post.session == pre.session
    &&& post.control == pre.control
    &&& pre.pawns@.len() <= post.pawns@.len() <= pre.pawns@.len() + 1
    &&& forall|i: int|
        0 <= i < pre.pawns@.len() ==> {
            &&& (#[trigger] post.pawns@[i]).tile == pre.pawns@[i].tile
            &&& post.pawns@[i].faction == pre.pawns@[i].faction
            &&& post.pawns@[i].interval_ms == pre.pawns@[i].interval_ms
        }
    &&& (origin >= pre.pawns@.len() || !pawn_present(pre.pawns@[origin as int].state) || (forall|
        i: int,
    |
        0 <= i < 6 ==> !#[trigger] pre.spawn_candidate_free(
            pre.pawns@[origin as int].tile as int,
            i,
        ))) ==> post == pre
    &&& (origin < pre.pawns@.len() && pawn_present(pre.pawns@[origin as int].state) && (exists|
        i: int,
    |
        0 <= i < 6 && #[trigger] pre.spawn_candidate_free(
            pre.pawns@[origin as int].tile as int,
            i,
        ))) ==> post.pawns@.len() == pre.pawns@.len() + 1
    &&& post.pawns@.len() == pre.pawns@.len() + 1 ==> {
        &&& origin < pre.pawns@.len()
        &&& pawn_present(pre.pawns@[origin as int].state)
        &&& post.pawns@[origin as int].state == (PawnState::Acting { elapsed_ms: 0u64 })
        &&& {
            let newp = post.pawns@[pre.pawns@.len() as int];
            &&& newp.faction == pre.pawns@[origin as int].faction
            &&& newp.state == (PawnState::Spawning { elapsed_ms: 0u64 })
            &&& SPAWN_INTERVAL_MIN_MS <= newp.interval_ms < SPAWN_INTERVAL_MAX_MS
            &&& pre.board.occ@[newp.tile as int] is None
            &&& post.board.occ@ == pre.board.occ@.update(newp.tile as int, Some(newp.faction))
            &&& exists|i: int|
                0 <= i < 6 && #[trigger] pre.spawn_candidate_free(
                    pre.pawns@[origin as int].tile as int,
                    i,
                ) && newp.tile == pre.board.spec_tile_id(
                    ray_point(
                        pre.board.spec_coord_at(pre.pawns@[origin as int].tile as int),
                        i,
                        1,
                    ),
                )
        }
    }
}

/// `tr` witnesses the spawn requests materialized in order: it lists the
/// engine states before and after each request, and every consecutive pair
/// advances exactly per `spec_materialize_step`.
pub open spec fn spec_materialize_trace_ok(
    pre: Engine,
    fired: Seq<usize>,
    tr: Seq<Engine>,
    post: Engine,
) -> bool {
    &&& tr.len() == fired.len() + 1
    &&& tr[0] == pre
    &&& tr[fired.len() as int] == post
    &&& forall|j: int|
        0 <= j < fired.len() ==> spec_materialize_step(tr[j], #[trigger] fired[j], tr[j + 1])
}

/// The spawn requests materialized in order, each step seeing the state its
/// predecessors left.
pub open spec fn spec_materialized_all(pre: Engine, fired: Seq<usize>, post: Engine) -> bool {
    exists|tr: Seq<Engine>| spec_materialize_trace_ok(pre, fired, tr, post)
}

/// The engine-state relation of the promotion phase: the pending list
/// advances by `spec_promos_after`, and occupancy, bishop list and bishop
/// registry advance by the materialization fold.
pub open spec fn spec_promotions_phase(pre: Engine, dt: u64, post: Engine) -> bool {
    &&& post.wf()
    &&& post.board.radius == pre.board.radius
    &&& post.player == pre.player
    &&& post.pawns@ == pre.pawns@
    &&& post.pawn_reg.at@ == pre.pawn_reg.at@
    &&& post.session == pre.session
    &&& post.control == pre.control
    &&& post.promotions@ == spec_promos_after(pre.promotions@, dt)
    &&& ({
        let st = spec_promotions_fold(
            pre.promotions@,
            dt,
            (pre.board.occ@, pre.bishops@, pre.bishop_reg.at@),
        );
        &&& post.board.occ@ == st.0
        &&& post.bishops@ == st.1
        &&& post.bishop_reg.at@ == st.2
    })
}

impl Engine {
    /// Advance every pawn's animation state and reproduction timer by `dt`
    /// and collect the indices, in increasing order, of the pawns whose
    /// timer fires this tick. Settling completes, reproduction animations
    /// finish, and merged-away pawns whose merge duration elapses are
    /// destroyed. No occupancy or registry entry changes.
    pub fn advance_pawns(&mut self, dt: u64, out: &mut Vec<OutputEvent>) -> (reqs: Vec<usize>)
        requires
            old(self).wf(),
        ensures
            final(self).wf(),
            final(self).board == old(self).board,
            final(self).player == old(self).player,
            final(self).pawn_reg.at@ == old(self).pawn_reg.at@,
            final(self).bishop_reg.at@ == old(self).bishop_reg.at@,
            final(self).bishops@ == old(self).bishops@,
            final(self).promotions@ == old(self).promotions@,
            final(self).session == old(self).session,
            final(self).control == old(self).control,
            final(self).pawns@.len() == old(self).pawns@.len(),
            forall|i: int|
                0 <= i < old(self).pawns@.len()
                    ==> final(self).pawns@[i] == spec_pawn_tick(#[trigger] old(self).pawns@[i], dt),
            forall|k: int|
                0 <= k < reqs@.len() ==> #[trigger] reqs@[k] < old(self).pawns@.len()
                    && spec_timer_fires(old(self).pawns@[reqs@[k] as int], dt),
            forall|i: int|
                0 <= i < old(self).pawns@.len() && spec_timer_fires(
                    #[trigger] old(self).pawns@[i],
                    dt,
                ) ==> reqs@.contains(i as usize),
            forall|k1: int, k2: int| 0 <= k1 < k2 < reqs@.len() ==> reqs@[k1] < reqs@[k2],
            spec_pawns_phase(*old(self), dt, *final(self), reqs@),
            final(out)@.len() >= old(out)@.len(),
            final(out)@.subrange(0, old(out)@.len() as int) == old(out)@,
    {
        let mut reqs: Vec<usize> = Vec::new();
        let mut i: usize = 0;
        let n = self.pawns.len();
        while i < n
            invariant
                old(self).wf(),
                n == old(self).pawns@.len(),
                i <= n,
                self.board == old(self).board,
                self.player == old(self).player,
                self.pawn_reg.at@ == old(self).pawn_reg.at@,
                self.bishop_reg.at@ == old(self).bishop_reg.at@,
                self.bishops@ == old(self).bishops@,
                self.promotions@ == old(self).promotions@,
                self.session == old(self).session,
                self.control == old(self).control,
                self.pawns@.len() == n,
                forall|j: int|
                    0 <= j < i ==> self.pawns@[j] == spec_pawn_tick(
                        #[trigger] old(self).pawns@[j],
                        dt,
                    ),
                forall|j: int| i <= j < n ==> self.pawns@[j] == #[trigger] old(self).pawns@[j],
                forall|k: int|
                    0 <= k < reqs@.len() ==> #[trigger] reqs@[k] < i && spec_timer_fires(
                        old(self).pawns@[reqs@[k] as int],
                        dt,
                    ),
                forall|j: int|
                    0 <= j < i && spec_timer_fires(#[trigger] old(self).pawns@[j], dt)
                        ==> reqs@.contains(j as usize),
                forall|k1: int, k2: int| 0 <= k1 < k2 < reqs@.len() ==> reqs@[k1] < reqs@[k2],
                out@.len() >= old(out)@.len(),
                out@.subrange(0, old(out)@.len() as int) == old(out)@,
            decreases n - i,
        {
            let p = self.pawns[i];
            let new_state = pawn_anim_step(p.state, dt);
            let stands = match p.state {
                PawnState::Spawning { .. } => true,
                PawnState::Idle => true,
                PawnState::Acting { .. } => true,
                _ => false,
            };
            let acc = saturating_add(p.timer_ms, dt);
            let fires = stands && acc >= p.interval_ms;
            let new_timer = if !stands {
                p.timer_ms
            } else if fires {
                if p.interval_ms == 0 { 0 } else { acc % p.interval_ms }
            } else {
                acc
            };
            if fires {
                let ghost old_reqs = reqs@;
                reqs.push(i);
                proof {
                    assert forall|j: int|
                        0 <= j < i + 1 && spec_timer_fires(#[trigger] old(self).pawns@[j], dt)
                            implies reqs@.contains(j as usize) by {
                        if j < i {
                            assert(old_reqs.contains(j as usize));
                            let k = choose|k: int|
                                0 <= k < old_reqs.len() && old_reqs[k] == j as usize;
                            assert(reqs@[k] == j as usize);
                        } else {
                            assert(reqs@[reqs@.len() - 1] == i);
                        }
                    };
                }
            }
            // Emit the transition's visual requests.
            match (p.state, new_state) {
                (PawnState::Spawning { .. }, PawnState::Idle) => {
                    out.push(
                        OutputEvent::PieceAnimationRequested {
                            kind: PieceKind::Pawn,
                            piece: i,
                            clip: Clip::Idle,
                        },
                    );
                },
                (PawnState::Acting { .. }, PawnState::Idle) => {
                    out.push(
                        OutputEvent::PieceAnimationRequested {
                            kind: PieceKind::Pawn,
                            piece: i,
                            clip: Clip::Idle,
                        },
                    );
                },
                (PawnState::MergedAway { .. }, PawnState::Gone) => {
                    out.push(OutputEvent::PieceDestroyed { kind: PieceKind::Pawn, piece: i });
                },
                _ => {},
            }
            self.pawns[i] = PawnPiece { state: new_state, timer_ms: new_timer, ..p };
            proof {
                assert(self.pawns@[i as int] == spec_pawn_tick(old(self).pawns@[i as int], dt));
            }
            i += 1;
        }
        proof {
            Self::lemma_pawn_tick_preserves_wf(*old(self), *self, dt);
        }
        reqs
    }

    /// Advancing every pawn pointwise by `spec_pawn_tick` preserves the
    /// engine invariant: the tick never moves a pawn, never changes its
    /// faction, and keeps standing pawns standing.
    proof fn lemma_pawn_tick_preserves_wf(pre: Engine, post: Engine, dt: u64)
        requires
            pre.wf(),
            post.board == pre.board,
            post.pawn_reg.at@ == pre.pawn_reg.at@,
            post.bishop_reg.at@ == pre.bishop_reg.at@,
            post.bishops@ == pre.bishops@,
            post.promotions@ == pre.promotions@,
            post.session == pre.session,
            post.control == pre.control,
            post.pawns@.len() == pre.pawns@.len(),
            forall|i: int|
                0 <= i < pre.pawns@.len()
                    ==> post.pawns@[i] == spec_pawn_tick(#[trigger] pre.pawns@[i], dt),
        ensures
            post.wf(),
    {
        assert forall|t: int| 0 <= t < post.slots() implies #[trigger] post.tile_link_ok(t) by {
            assert(pre.tile_link_ok(t));
        };
        assert forall|i: int| 0 <= i < post.pawns@.len() implies #[trigger] post.pawn_link_ok(
            i,
        ) by {
            assert(pre.pawn_link_ok(i));
        };
        assert forall|i: int| 0 <= i < post.bishops@.len() implies #[trigger] post.bishop_link_ok(
            i,
        ) by {
            assert(pre.bishop_link_ok(i));
        };
        assert forall|j: int|
            0 <= j < post.promotions@.len()
                implies post.board.is_tile_id((#[trigger] post.promotions@[j]).tile as int) by {
            assert(pre.board.is_tile_id((pre.promotions@[j]).tile as int));
        };
        assert forall|j: int|
            0 <= j < post.session.hovered@.len()
                implies post.board.is_tile_id((#[trigger] post.session.hovered@[j]) as int) by {
            assert(pre.board.is_tile_id((pre.session.hovered@[j]) as int));
        };
    }

    /// Materialize one spawn request from the pawn at index `origin`: search
    /// the six neighbors in randomized order for a free tile, create a new
    /// pawn of the same faction there, and send the origin pawn into its
    /// reproduction animation. A request whose origin no longer stands on
    /// the board, or whose origin has no free neighbor, is dropped silently.
    pub fn materialize_spawn_request(&mut self, origin: usize, out: &mut Vec<OutputEvent>)
        requires
            old(self).wf(),
        ensures
            final(self).wf(),
            final(self).board.radius == old(self).board.radius,
            final(self).player == old(self).player,
            final(self).bishops@ == old(self).bishops@,
            final(self).bishop_reg.at@ == old(self).bishop_reg.at@,
            final(self).promotions@ == old(self).promotions@,
            final(self).session == old(self).session,
            final(self).control == old(self).control,
            old(self).pawns@.len() <= final(self).pawns@.len() <= old(self).pawns@.len() + 1,
            forall|i: int|
                0 <= i < old(self).pawns@.len() ==> {
                    &&& (#[trigger] final(self).pawns@[i]).tile == old(self).pawns@[i].tile
                    &&& final(self).pawns@[i].faction == old(self).pawns@[i].faction
                    &&& final(self).pawns@[i].interval_ms == old(self).pawns@[i].interval_ms
                },
            // A dropped request changes nothing.
            (origin >= old(self).pawns@.len() || !pawn_present(old(self).pawns@[origin as int].state)
                || (forall|i: int|
                0 <= i < 6 ==> !#[trigger] old(self).spawn_candidate_free(
                    old(self).pawns@[origin as int].tile as int,
                    i,
                ))) ==> *final(self) == *old(self),
            // Success is owed: a standing origin with a free neighbor always
            // materializes. The randomness decides only which neighbor.
            (origin < old(self).pawns@.len() && pawn_present(old(self).pawns@[origin as int].state)
                && (exists|i: int|
                0 <= i < 6 && #[trigger] old(self).spawn_candidate_free(
                    old(self).pawns@[origin as int].tile as int,
                    i,
                ))) ==> final(self).pawns@.len() == old(self).pawns@.len() + 1,
            // A materialized request creates one settling pawn on a
            // previously free neighbor tile and sends the origin acting.
            final(self).pawns@.len() == old(self).pawns@.len() + 1 ==> {
                &&& origin < old(self).pawns@.len()
                &&& pawn_present(old(self).pawns@[origin as int].state)
                &&& final(self).pawns@[origin as int].state == (PawnState::Acting {
                    elapsed_ms: 0u64,
                })
                &&& {
                    let newp = final(self).pawns@[old(self).pawns@.len() as int];
                    &&& newp.faction == old(self).pawns@[origin as int].faction
                    &&& newp.state == (PawnState::Spawning { elapsed_ms: 0u64 })
                    &&& SPAWN_INTERVAL_MIN_MS <= newp.interval_ms < SPAWN_INTERVAL_MAX_MS
                    &&& old(self).board.occ@[newp.tile as int] is None
                    &&& final(self).board.occ@ == old(self).board.occ@.update(
                        newp.tile as int,
                        Some(newp.faction),
                    )
                    // The new pawn stands on one of the six neighbors of
                    // the origin.
                    &&& exists|i: int|
                        0 <= i < 6 && #[trigger] old(self).spawn_candidate_free(
                            old(self).pawns@[origin as int].tile as int,
                            i,
                        ) && newp.tile == old(self).board.spec_tile_id(
                            ray_point(
                                old(self).board.spec_coord_at(
                                    old(self).pawns@[origin as int].tile as int,
                                ),
                                i,
                                1,
                            ),
                        )
                }
            },
            spec_materialize_step(*old(self), origin, *final(self)),
            final(out)@.len() >= old(out)@.len(),
            final(out)@.subrange(0, old(out)@.len() as int) == old(out)@,
    {
        if origin >= self.pawns.len() {
            return;
        }
        let p = self.pawns[origin];
        let stands = match p.state {
            PawnState::Spawning { .. } => true,
            PawnState::Idle => true,
            PawnState::Acting { .. } => true,
            _ => false,
        };
        if !stands {
            return;
        }
        proof {
            assert(old(self).pawn_link_ok(origin as int));
            assert(old(self).tile_link_ok(p.tile as int));
        }
        let target = match self.pick_spawn_tile(p.tile) {
            Some(t) => t,
            None => {
                return;
            },
        };
        let created = self.spawn_pawn(target, p.faction);
        proof {
            assert(created is Some);
        }
        let ghost mid = *self;
        let new_idx = self.pawns.len() - 1;
        out.push(
            OutputEvent::PieceCreated {
                kind: PieceKind::Pawn,
                piece: new_idx,
                faction: p.faction,
                tile: target,
            },
        );
        out.push(
            OutputEvent::SetTileStyle {
                tile: target,
                style: crate::events::occupancy_style(Some(p.faction)),
            },
        );
        // The origin performs its reproduction animation.
        let p2 = self.pawns[origin];
        self.pawns[origin] = PawnPiece { state: PawnState::Acting { elapsed_ms: 0 }, ..p2 };
        out.push(
            OutputEvent::PieceAnimationRequested {
                kind: PieceKind::Pawn,
                piece: origin,
                clip: Clip::Action,
            },
        );
        proof {
            assert forall|t: int| 0 <= t < self.slots() implies #[trigger] self.tile_link_ok(t) by {
                assert(mid.tile_link_ok(t));
            };
            assert forall|i: int| 0 <= i < self.pawns@.len() implies #[trigger] self.pawn_link_ok(
                i,
            ) by {
                assert(mid.pawn_link_ok(i));
            };
            assert forall|i: int| 0 <= i < self.bishops@.len() implies #[trigger] self
                .bishop_link_ok(i) by {
                assert(mid.bishop_link_ok(i));
            };
        }
    }

    /// Send the registered pawn standing on tile `t` into its merged-away
    /// flight: it leaves the registry and its tile immediately and will be
    /// destroyed when the merge duration elapses.
    pub fn merge_pawn_at(&mut self, t: usize, out: &mut Vec<OutputEvent>)
        requires
            old(self).wf(),
            old(self).board.is_tile_id(t as int),
            old(self).pawn_reg.spec_at(t as int) is Some,
        ensures
            final(self).wf(),
            final(self).board.radius == old(self).board.radius,
            final(self).player == old(self).player,
            final(self).bishops@ == old(self).bishops@,
            final(self).bishop_reg.at@ == old(self).bishop_reg.at@,
            final(self).promotions@ == old(self).promotions@,
            final(self).session == old(self).session,
            final(self).control == old(self).control,
            final(self).board.path@ == old(self).board.path@,
            final(self).pawn_reg.at@ == old(self).pawn_reg.at@.update(t as int, None::<RegEntry>),
            final(self).board.occ@ == old(self).board.occ@.update(t as int, None::<crate::Faction>),
            final(self).pawns@ == old(self).pawns@.update(
                old(self).pawn_reg.spec_at(t as int)->Some_0.piece as int,
                PawnPiece {
                    state: PawnState::MergedAway { elapsed_ms: 0u64 },
                    ..old(self).pawns@[old(self).pawn_reg.spec_at(t as int)->Some_0.piece as int]
                },
            ),
            final(out)@ == old(out)@.push(
                (OutputEvent::SetTileStyle { tile: t, style: Style::Neutral }),
            ).push(
                (OutputEvent::PieceAnimationRequested {
                    kind: PieceKind::Pawn,
                    piece: old(self).pawn_reg.spec_at(t as int)->Some_0.piece,
                    clip: Clip::Still,
                }),
            ),
    {
        proof {
            assert(old(self).tile_link_ok(t as int));
        }
        let e = self.pawn_reg.piece_at(t).unwrap();
        let p = self.pawns[e.piece];
        self.pawns[e.piece] = PawnPiece { state: PawnState::MergedAway { elapsed_ms: 0 }, ..p };
        self.pawn_reg.remove(t);
        self.board.vacate(t);
        out.push(OutputEvent::SetTileStyle { tile: t, style: Style::Neutral });
        out.push(
            OutputEvent::PieceAnimationRequested {
                kind: PieceKind::Pawn,
                piece: e.piece,
                clip: Clip::Still,
            },
        );
        proof {
            assert forall|tt: int| 0 <= tt < self.slots() implies #[trigger] self.tile_link_ok(
                tt,
            ) by {
                assert(old(self).tile_link_ok(tt));
                if tt != t as int && old(self).pawn_reg.spec_at(tt) is Some {
                    let e2 = old(self).pawn_reg.spec_at(tt)->Some_0;
                    assert(old(self).pawn_link_ok(e2.piece as int));
                }
            };
            assert forall|i: int| 0 <= i < self.pawns@.len() implies #[trigger] self.pawn_link_ok(
                i,
            ) by {
                assert(old(self).pawn_link_ok(i));
                assert(old(self).pawns.len() == old(self).pawns@.len());
                if i != e.piece as int && pawn_present(self.pawns@[i].state) {
                    assert(self.pawns@[i] == old(self).pawns@[i]);
                    assert(old(self).pawns@[i].tile != t) by {
                        if old(self).pawns@[i].tile == t {
                            assert(old(self).pawn_reg.spec_at(t as int) == Some(
                                RegEntry { piece: i as usize, faction: old(self).pawns@[i].faction },
                            ));
                        }
                    };
                }
            };
            assert forall|i: int| 0 <= i < self.bishops@.len() implies #[trigger] self
                .bishop_link_ok(i) by {
                assert(old(self).bishop_link_ok(i));
                if bishop_present(self.bishops@[i].state) {
                    assert(old(self).tile_link_ok(old(self).bishops@[i].tile as int));
                }
            };
        }
    }

    /// Advance every pending promotion by `dt`. A promotion whose merge
    /// duration completes materializes a bishop at its tile when that tile
    /// is still free; a stale promotion whose tile has been taken in the
    /// meantime is dropped silently. The rest stay pending with their
    /// elapsed time advanced.
    #[verifier::rlimit(60)]
    pub fn advance_promotions(&mut self, dt: u64, out: &mut Vec<OutputEvent>)
        requires
            old(self).wf(),
        ensures
            final(self).wf(),
            final(self).board.radius == old(self).board.radius,
            final(self).player == old(self).player,
            final(self).pawns@ == old(self).pawns@,
            final(self).pawn_reg.at@ == old(self).pawn_reg.at@,
            final(self).session == old(self).session,
            final(self).control == old(self).control,
            old(self).bishops@.len() <= final(self).bishops@.len(),
            forall|i: int|
                0 <= i < old(self).bishops@.len()
                    ==> final(self).bishops@[i] == #[trigger] old(self).bishops@[i],
            // Every new bishop settles in.
            forall|i: int|
                old(self).bishops@.len() <= i < final(self).bishops@.len()
                    ==> (#[trigger] final(self).bishops@[i]).state == (BishopState::Spawning {
                    elapsed_ms: 0u64,
                }),
            // Exactly the promotions still short of the merge duration stay,
            // in order, with their elapsed time advanced.
            final(self).promotions@ == spec_promos_after(old(self).promotions@, dt),
            // Each matured promotion whose tile is free at its point of
            // processing yields a settling bishop there; stale ones vanish.
            ({
                let st = spec_promotions_fold(
                    old(self).promotions@,
                    dt,
                    (old(self).board.occ@, old(self).bishops@, old(self).bishop_reg.at@),
                );
                &&& final(self).board.occ@ == st.0
                &&& final(self).bishops@ == st.1
                &&& final(self).bishop_reg.at@ == st.2
            }),
            spec_promotions_phase(*old(self), dt, *final(self)),
            final(out)@.len() >= old(out)@.len(),
            final(out)@.subrange(0, old(out)@.len() as int) == old(out)@,
    {
        let mut remaining: Vec<Promotion> = Vec::new();
        let n = self.promotions.len();
        let mut k: usize = 0;
        while k < n
            invariant
                self.wf(),
                k <= n,
                self.board.radius == old(self).board.radius,
                self.player == old(self).player,
                self.pawns@ == old(self).pawns@,
                self.pawn_reg.at@ == old(self).pawn_reg.at@,
                self.session == old(self).session,
                self.control == old(self).control,
                self.promotions@ == old(self).promotions@,
                n == old(self).promotions@.len(),
                old(self).bishops@.len() <= self.bishops@.len(),
                forall|i: int|
                    0 <= i < old(self).bishops@.len()
                        ==> self.bishops@[i] == #[trigger] old(self).bishops@[i],
                forall|i: int|
                    old(self).bishops@.len() <= i < self.bishops@.len()
                        ==> (#[trigger] self.bishops@[i]).state == (BishopState::Spawning {
                        elapsed_ms: 0u64,
                    }),
                remaining@ == spec_promos_after(old(self).promotions@.take(k as int), dt),
                (self.board.occ@, self.bishops@, self.bishop_reg.at@) == spec_promotions_fold(
                    old(self).promotions@.take(k as int),
                    dt,
                    (old(self).board.occ@, old(self).bishops@, old(self).bishop_reg.at@),
                ),
                forall|j: int|
                    0 <= j < remaining@.len()
                        ==> self.board.is_tile_id((#[trigger] remaining@[j]).tile as int),
                out@.len() >= old(out)@.len(),
                out@.subrange(0, old(out)@.len() as int) == old(out)@,
            decreases n - k,
        {
            let pr = self.promotions[k];
            proof {
                assert(old(self).promotions@.take(k as int + 1).drop_last() =~= old(
                    self,
                ).promotions@.take(k as int));
                assert(old(self).promotions@.take(k as int + 1).last() == pr);
            }
            let e = saturating_add(pr.elapsed_ms, dt);
            if e >= MERGE_MS {
                let created = self.spawn_bishop_at(pr.tile, pr.faction);
                match created {
                    Some(b) => {
                        out.push(
                            OutputEvent::PieceCreated {
                                kind: PieceKind::Bishop,
                                piece: b,
                                faction: pr.faction,
                                tile: pr.tile,
                            },
                        );
                        out.push(
                            OutputEvent::SetTileStyle {
                                tile: pr.tile,
                                style: crate::events::occupancy_style(Some(pr.faction)),
                            },
                        );
                    },
                    None => {},
                }
            } else {
                remaining.push(Promotion { elapsed_ms: e, ..pr });
            }
            k += 1;
        }
        proof {
            assert(old(self).promotions@.take(n as int) =~= old(self).promotions@);
        }
        let ghost prev = *self;
        self.promotions = remaining;
        proof {
            assert forall|t: int| 0 <= t < self.slots() implies #[trigger] self.tile_link_ok(t) by {
                assert(prev.tile_link_ok(t));
            };
            assert forall|i: int| 0 <= i < self.pawns@.len() implies #[trigger] self.pawn_link_ok(
                i,
            ) by {
                assert(prev.pawn_link_ok(i));
            };
            assert forall|i: int| 0 <= i < self.bishops@.len() implies #[trigger] self
                .bishop_link_ok(i) by {
                assert(prev.bishop_link_ok(i));
            };
        }
    }
}

} // verus!
