use hexchess::engine::Engine;
use hexchess::events::{InputEvent, OutputEvent, Button, Style};
use hexchess::hex::HexCoord;
use hexchess::pieces::{PawnState, BishopState};
use hexchess::rng::sample_spawn_interval;
use hexchess::Faction;

fn coord(q: i64, r: i64) -> HexCoord {
    HexCoord { q, r }
}

fn tile(e: &Engine, q: i64, r: i64) -> usize {
    e.board.tile_at(coord(q, r)).unwrap()
}

fn occupied_count(e: &Engine, f: Faction) -> usize {
    e.board.occ.iter().filter(|o| **o == Some(f)).count()
}

#[test]
fn spawn_interval_sampling_stays_in_range() {
    for _ in 0..10_000 {
        let v = sample_spawn_interval();
        assert!((2800..3200).contains(&v), "sampled {v}");
    }
}

#[test]
fn spawn_pawn_rejects_bad_tiles() {
    let mut e = Engine::new(2, Faction::Blue);
    let t = tile(&e, 0, 0);
    assert!(e.spawn_pawn_with_interval(t, Faction::Blue, 3000).is_some());
    // Occupied tile: dropped, nothing changes.
    assert_eq!(e.spawn_pawn_with_interval(t, Faction::Red, 3000), None);
    // An index that is no tile: dropped.
    assert_eq!(e.spawn_pawn_with_interval(9999, Faction::Blue, 3000), None);
    assert_eq!(e.pawns.len(), 1);
    assert_eq!(occupied_count(&e, Faction::Blue), 1);
    assert_eq!(occupied_count(&e, Faction::Red), 0);
}

#[test]
fn reproduction_after_one_tick() {
    // Board radius 2, a blue pawn at the centre with its interval
    // forced to zero: one tick later a second blue pawn stands on one of the
    // six neighbors, the original pawn acts, and exactly two tiles are
    // blue-occupied.
    let mut e = Engine::new(2, Faction::Blue);
    assert_eq!(e.board.tile_count(), 19);
    let center = tile(&e, 0, 0);
    e.spawn_pawn_with_interval(center, Faction::Blue, 0).unwrap();
    let out = e.tick(100, &Vec::new());
    assert_eq!(e.pawns.len(), 2);
    assert!(matches!(e.pawns[0].state, PawnState::Acting { .. }));
    assert!(matches!(e.pawns[1].state, PawnState::Spawning { .. }));
    let child = e.pawns[1].tile;
    let cc = e.board.coord_of(child).unwrap();
    let neighbors = [(1, 0), (-1, 0), (0, 1), (0, -1), (1, -1), (-1, 1)];
    assert!(neighbors.contains(&(cc.q, cc.r)));
    assert_eq!(e.pawns[1].faction, Faction::Blue);
    assert_eq!(occupied_count(&e, Faction::Blue), 2);
    assert!(out.iter().any(|ev| matches!(
        ev,
        OutputEvent::PieceCreated { faction: Faction::Blue, .. }
    )));
}

#[test]
fn reproduction_is_dropped_when_no_neighbor_is_free() {
    let mut e = Engine::new(2, Faction::Blue);
    let center = tile(&e, 0, 0);
    e.spawn_pawn_with_interval(center, Faction::Blue, 0).unwrap();
    for (q, r) in [(1, 0), (-1, 0), (0, 1), (0, -1), (1, -1), (-1, 1)] {
        let t = tile(&e, q, r);
        e.spawn_pawn_with_interval(t, Faction::Red, 100_000).unwrap();
    }
    let before = e.pawns.len();
    e.tick(100, &Vec::new());
    assert_eq!(e.pawns.len(), before);
}

#[test]
fn placement_takes_the_only_free_neighbor() {
    let mut e = Engine::new(2, Faction::Blue);
    let center = tile(&e, 0, 0);
    e.spawn_pawn_with_interval(center, Faction::Blue, 0).unwrap();
    // Block five of the six neighbors; only (0, -1) stays free.
    for (q, r) in [(1, 0), (-1, 0), (0, 1), (1, -1), (-1, 1)] {
        let t = tile(&e, q, r);
        e.spawn_pawn_with_interval(t, Faction::Red, 100_000).unwrap();
    }
    let free = tile(&e, 0, -1);
    assert_eq!(e.pick_spawn_tile(center), Some(free));
    e.tick(50, &Vec::new());
    let child = e.pawns.last().unwrap();
    assert_eq!(child.tile, free);
    assert_eq!(child.faction, Faction::Blue);
}

#[test]
fn selection_of_template_pair_promotes() {
    // Sweep (1,0) and (2,0), both holding blue pawns, from the empty base
    // (0,0): a promotion for blue at the base is requested, both pawns merge
    // away, and they are destroyed after the merge duration.
    let mut e = Engine::new(2, Faction::Blue);
    let t1 = tile(&e, 1, 0);
    let t2 = tile(&e, 2, 0);
    let base = tile(&e, 0, 0);
    e.spawn_pawn_with_interval(t1, Faction::Blue, 100_000).unwrap();
    e.spawn_pawn_with_interval(t2, Faction::Blue, 100_000).unwrap();
    let inputs = vec![
        InputEvent::TilePressed { tile: base, button: Button::Primary },
        InputEvent::TileHoverBegan { tile: t1 },
        InputEvent::TileHoverBegan { tile: t2 },
        InputEvent::TileReleased { button: Button::Primary },
    ];
    let out = e.tick(0, &inputs);
    assert!(out.iter().any(|ev| matches!(
        ev,
        OutputEvent::PromotionRequested { faction: Faction::Blue, tile } if *tile == base
    )));
    assert!(matches!(e.pawns[0].state, PawnState::MergedAway { .. }));
    assert!(matches!(e.pawns[1].state, PawnState::MergedAway { .. }));
    assert_eq!(occupied_count(&e, Faction::Blue), 0);
    assert_eq!(e.promotions.len(), 1);

    // After the merge duration the pawns are gone and the bishop stands at
    // the base.
    e.tick(500, &Vec::new());
    assert!(matches!(e.pawns[0].state, PawnState::Gone));
    assert!(matches!(e.pawns[1].state, PawnState::Gone));
    assert_eq!(e.bishops.len(), 1);
    assert_eq!(e.bishops[0].tile, base);
    assert_eq!(e.bishops[0].faction, Faction::Blue);
    assert!(matches!(e.bishops[0].state, BishopState::Spawning { .. }));
    assert_eq!(occupied_count(&e, Faction::Blue), 1);
    assert!(e.promotions.is_empty());
}

#[test]
fn selection_without_match_changes_nothing() {
    let mut e = Engine::new(2, Faction::Blue);
    let t1 = tile(&e, 1, 0);
    let base = tile(&e, 0, 0);
    e.spawn_pawn_with_interval(t1, Faction::Blue, 100_000).unwrap();
    let inputs = vec![
        InputEvent::TilePressed { tile: base, button: Button::Primary },
        InputEvent::TileHoverBegan { tile: t1 },
        InputEvent::TileReleased { button: Button::Primary },
    ];
    e.tick(0, &inputs);
    assert!(matches!(e.pawns[0].state, PawnState::Spawning { .. }));
    assert!(e.promotions.is_empty());
    assert_eq!(occupied_count(&e, Faction::Blue), 1);
}

#[test]
fn selection_with_occupied_base_changes_nothing() {
    let mut e = Engine::new(2, Faction::Blue);
    let t1 = tile(&e, 1, 0);
    let t2 = tile(&e, 2, 0);
    let base = tile(&e, 0, 0);
    e.spawn_pawn_with_interval(t1, Faction::Blue, 100_000).unwrap();
    e.spawn_pawn_with_interval(t2, Faction::Blue, 100_000).unwrap();
    e.spawn_pawn_with_interval(base, Faction::Red, 100_000).unwrap();
    let inputs = vec![
        InputEvent::TilePressed { tile: base, button: Button::Primary },
        InputEvent::TileHoverBegan { tile: t1 },
        InputEvent::TileHoverBegan { tile: t2 },
        InputEvent::TileReleased { button: Button::Primary },
    ];
    e.tick(0, &inputs);
    assert!(e.promotions.is_empty());
    assert_eq!(occupied_count(&e, Faction::Blue), 2);
    assert_eq!(occupied_count(&e, Faction::Red), 1);
}

fn settle_bishop_at(e: &mut Engine, t: usize) -> usize {
    let b = e.spawn_bishop_at(t, Faction::Blue).unwrap();
    // Let the settle duration elapse so the bishop becomes idle.
    e.tick(1200, &Vec::new());
    assert!(matches!(e.bishops[b].state, BishopState::Idle));
    b
}

#[test]
fn bishop_flying_off_the_edge_is_destroyed() {
    // From the edge tile (R, 0) in direction (1, 0) the very next step
    // leaves the board: the bishop is destroyed on that step attempt and no
    // occupancy entry appears anywhere.
    let mut e = Engine::new(2, Faction::Blue);
    let edge = tile(&e, 2, 0);
    let b = settle_bishop_at(&mut e, edge);
    let mut out = Vec::new();
    e.launch_bishop(b, 0, &mut out);
    assert_eq!(occupied_count(&e, Faction::Blue), 0);
    // One second: progress reaches one and the step is attempted.
    let out = e.tick(1000, &Vec::new());
    assert!(matches!(e.bishops[b].state, BishopState::Gone));
    assert!(out.iter().any(|ev| matches!(ev, OutputEvent::PieceDestroyed { .. })));
    assert_eq!(occupied_count(&e, Faction::Blue), 0);
    assert_eq!(occupied_count(&e, Faction::Red), 0);
}

#[test]
fn bishop_flying_into_enemy_is_destroyed_and_enemy_unaffected() {
    let mut e = Engine::new(2, Faction::Blue);
    let start = tile(&e, 0, 0);
    let red_tile = tile(&e, 1, 0);
    let b = settle_bishop_at(&mut e, start);
    e.spawn_pawn_with_interval(red_tile, Faction::Red, 100_000).unwrap();
    let mut out = Vec::new();
    e.launch_bishop(b, 0, &mut out);
    e.tick(1000, &Vec::new());
    assert!(matches!(e.bishops[b].state, BishopState::Gone));
    // The red piece at the destination is unaffected.
    assert_eq!(e.board.occupant(red_tile), Some(Faction::Red));
    assert!(matches!(e.pawns[0].state, PawnState::Spawning { .. } | PawnState::Idle));
    assert_eq!(occupied_count(&e, Faction::Red), 1);
}

#[test]
fn bishop_keeps_flying_over_empty_and_allied_tiles() {
    let mut e = Engine::new(3, Faction::Blue);
    let start = tile(&e, -3, 0);
    let b = settle_bishop_at(&mut e, start);
    let mut out = Vec::new();
    e.launch_bishop(b, 0, &mut out);
    // Each one-second tick completes at least one step at starting speed.
    e.tick(1000, &Vec::new());
    let after_one = e.board.coord_of(e.bishops[b].tile).unwrap();
    assert_eq!((after_one.q, after_one.r), (-2, 0));
    assert!(matches!(e.bishops[b].state, BishopState::Flying { .. }));
}

#[test]
fn clicking_a_bishop_exposes_paths_and_clicking_a_path_tile_launches() {
    let mut e = Engine::new(2, Faction::Blue);
    let start = tile(&e, 0, 0);
    let b = settle_bishop_at(&mut e, start);
    // Press the bishop's tile: all six rays are highlighted.
    e.tick(
        0,
        &vec![InputEvent::TilePressed { tile: start, button: Button::Primary }],
    );
    assert_eq!(e.control, Some(b));
    assert_eq!(e.board.path.len(), 12);
    // Press an exposed tile along (1, 0): the bishop launches that way and
    // the path clears.
    let target = tile(&e, 2, 0);
    e.tick(
        0,
        &vec![InputEvent::TilePressed { tile: target, button: Button::Primary }],
    );
    assert_eq!(e.control, None);
    assert!(e.board.path.is_empty());
    assert!(matches!(e.bishops[b].state, BishopState::Flying { dir: 0, .. }));
    assert_eq!(occupied_count(&e, Faction::Blue), 0);
}

#[test]
fn clicking_away_cancels_the_exposed_path() {
    let mut e = Engine::new(2, Faction::Blue);
    let start = tile(&e, 0, 0);
    let b = settle_bishop_at(&mut e, start);
    e.tick(
        0,
        &vec![InputEvent::TilePressed { tile: start, button: Button::Primary }],
    );
    assert_eq!(e.control, Some(b));
    // A press off every ray cancels: path cleared, bishop stays idle.
    let away = tile(&e, 1, 1);
    let out = e.tick(
        0,
        &vec![InputEvent::TilePressed { tile: away, button: Button::Primary }],
    );
    assert_eq!(e.control, None);
    assert!(e.board.path.is_empty());
    assert!(matches!(e.bishops[b].state, BishopState::Idle));
    // The cancelled tiles are restored to their current occupancy style.
    assert!(out.iter().any(|ev| matches!(ev, OutputEvent::SetTileStyle { .. })));
}

#[test]
fn merged_pawn_does_not_reproduce() {
    // A pawn that merges away in the same tick its timer would fire must
    // not spawn: merge resolution runs before the timers.
    let mut e = Engine::new(2, Faction::Blue);
    let t1 = tile(&e, 1, 0);
    let t2 = tile(&e, 2, 0);
    let base = tile(&e, 0, 0);
    e.spawn_pawn_with_interval(t1, Faction::Blue, 0).unwrap();
    e.spawn_pawn_with_interval(t2, Faction::Blue, 100_000).unwrap();
    let inputs = vec![
        InputEvent::TilePressed { tile: base, button: Button::Primary },
        InputEvent::TileHoverBegan { tile: t1 },
        InputEvent::TileHoverBegan { tile: t2 },
        InputEvent::TileReleased { button: Button::Primary },
    ];
    e.tick(100, &inputs);
    // Both pawns merged; the zero-interval pawn spawned nothing.
    assert_eq!(e.pawns.len(), 2);
    assert!(matches!(e.pawns[0].state, PawnState::MergedAway { .. }));
    assert_eq!(occupied_count(&e, Faction::Blue), 0);
}

#[test]
fn sweeping_a_tile_twice_still_promotes() {
    // The session accumulates each tile once, so re-hovering a tile does
    // not spoil the exact-count rule.
    let mut e = Engine::new(2, Faction::Blue);
    let t1 = tile(&e, 1, 0);
    let t2 = tile(&e, 2, 0);
    let base = tile(&e, 0, 0);
    e.spawn_pawn_with_interval(t1, Faction::Blue, 100_000).unwrap();
    e.spawn_pawn_with_interval(t2, Faction::Blue, 100_000).unwrap();
    let inputs = vec![
        InputEvent::TilePressed { tile: base, button: Button::Primary },
        InputEvent::TileHoverBegan { tile: t1 },
        InputEvent::TileHoverBegan { tile: t1 },
        InputEvent::TileHoverBegan { tile: t2 },
        InputEvent::TileHoverBegan { tile: t1 },
        InputEvent::TileReleased { button: Button::Primary },
    ];
    e.tick(0, &inputs);
    assert_eq!(e.promotions.len(), 1);
    assert!(matches!(e.pawns[0].state, PawnState::MergedAway { .. }));
    assert!(matches!(e.pawns[1].state, PawnState::MergedAway { .. }));
}

#[test]
fn non_primary_press_changes_nothing() {
    let mut e = Engine::new(2, Faction::Blue);
    let t1 = tile(&e, 1, 0);
    e.spawn_pawn_with_interval(t1, Faction::Blue, 100_000).unwrap();
    let out = e.tick(
        0,
        &vec![InputEvent::TilePressed { tile: t1, button: Button::Secondary }],
    );
    assert!(!e.session.pressed);
    assert!(e.promotions.is_empty());
    assert_eq!(occupied_count(&e, Faction::Blue), 1);
    assert!(out.is_empty());
}

#[test]
fn hover_end_restores_by_priority() {
    let mut e = Engine::new(2, Faction::Blue);
    let red_tile = tile(&e, 1, 0);
    let empty_tile = tile(&e, 0, 1);
    e.spawn_pawn_with_interval(red_tile, Faction::Red, 100_000).unwrap();
    // Leaving an occupied tile restores its occupancy style; leaving an
    // empty one restores neutral.
    let out = e.tick(
        0,
        &vec![
            InputEvent::TileHoverEnded { tile: red_tile },
            InputEvent::TileHoverEnded { tile: empty_tile },
        ],
    );
    assert_eq!(out.len(), 2);
    assert!(matches!(
        out[0],
        OutputEvent::SetTileStyle { tile, style: Style::Red } if tile == red_tile
    ));
    assert!(matches!(
        out[1],
        OutputEvent::SetTileStyle { tile, style: Style::Neutral } if tile == empty_tile
    ));
    // While a selection sweeps a tile, leaving it keeps the path style.
    let base = tile(&e, 0, 0);
    let out = e.tick(
        0,
        &vec![
            InputEvent::TilePressed { tile: base, button: Button::Primary },
            InputEvent::TileHoverBegan { tile: empty_tile },
            InputEvent::TileHoverEnded { tile: empty_tile },
        ],
    );
    assert!(matches!(
        out.last().unwrap(),
        OutputEvent::SetTileStyle { tile, style: Style::Path } if *tile == empty_tile
    ));
}
