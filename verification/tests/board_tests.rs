use hexchess::board::Board;
use hexchess::hex::{HexCoord, direction, direction_toward};
use hexchess::Faction;

fn coord(q: i64, r: i64) -> HexCoord {
    HexCoord { q, r }
}

#[test]
fn tile_and_coord_are_inverse_inside_radius() {
    let board = Board::new(10);
    for q in -10i64..=10 {
        for r in -10i64..=10 {
            let c = coord(q, r);
            let dist = q.abs().max(r.abs()).max((q + r).abs());
            match board.tile_at(c) {
                Some(t) => {
                    assert!(dist <= 10);
                    assert_eq!(board.coord_of(t), Some(c));
                }
                None => {
                    assert!(dist > 10);
                }
            }
        }
    }
}

#[test]
fn tile_at_outside_radius_is_none() {
    let board = Board::new(3);
    assert_eq!(board.tile_at(coord(4, 0)), None);
    assert_eq!(board.tile_at(coord(0, -4)), None);
    assert_eq!(board.tile_at(coord(2, 2)), None);
    assert_eq!(board.tile_at(coord(-2, -2)), None);
    assert!(board.tile_at(coord(2, 1)).is_some());
}

#[test]
fn coord_of_non_tile_is_none() {
    let board = Board::new(2);
    // Slot (0, 0) of the 5x5 grid decodes to (-2, -2), which is off the hexagon.
    assert_eq!(board.coord_of(0), None);
    // An index beyond the grid is no tile either.
    assert_eq!(board.coord_of(25), None);
}

#[test]
fn tile_count_formula() {
    assert_eq!(Board::new(2).tile_count(), 19);
    assert_eq!(Board::new(10).tile_count(), 331);
}

#[test]
fn ray_on_empty_board_spans_radius() {
    let board = Board::new(4);
    for dir in 0..6 {
        let ray = board.cast_ray(coord(0, 0), dir, Faction::Blue);
        assert_eq!(ray.len(), 4, "direction {dir}");
        // The first step is the neighbor one step out.
        let d = direction(dir);
        assert_eq!(ray[0], board.tile_at(coord(d.q, d.r)).unwrap());
    }
}

#[test]
fn ray_from_edge_tile_is_empty() {
    let board = Board::new(4);
    // The edge tile in each direction: four steps out from the centre.
    for dir in 0..6 {
        let d = direction(dir);
        let edge = coord(4 * d.q, 4 * d.r);
        assert!(board.tile_at(edge).is_some());
        let ray = board.cast_ray(edge, dir, Faction::Blue);
        assert_eq!(ray.len(), 0, "direction {dir}");
    }
}

#[test]
fn ray_stops_before_enemy_but_not_before_ally() {
    let mut board = Board::new(4);
    let ally = board.tile_at(coord(1, 0)).unwrap();
    let enemy = board.tile_at(coord(3, 0)).unwrap();
    board.occupy(ally, Faction::Blue);
    board.occupy(enemy, Faction::Red);
    let ray = board.cast_ray(coord(0, 0), 0, Faction::Blue);
    // Steps (1,0) and (2,0) are included; (3,0) is enemy-held and excluded.
    assert_eq!(
        ray,
        vec![
            board.tile_at(coord(1, 0)).unwrap(),
            board.tile_at(coord(2, 0)).unwrap(),
        ]
    );
    // For the red owner the blue pawn is the enemy instead.
    let ray_red = board.cast_ray(coord(0, 0), 0, Faction::Red);
    assert_eq!(ray_red.len(), 0);
}

#[test]
fn occupy_and_vacate_update_occupancy() {
    let mut board = Board::new(2);
    let t = board.tile_at(coord(1, -1)).unwrap();
    assert_eq!(board.occupant(t), None);
    board.occupy(t, Faction::Red);
    assert_eq!(board.occupant(t), Some(Faction::Red));
    board.vacate(t);
    assert_eq!(board.occupant(t), None);
}

#[test]
fn highlight_and_clear_path() {
    let mut board = Board::new(2);
    let t0 = board.tile_at(coord(0, 0)).unwrap();
    let t1 = board.tile_at(coord(1, 0)).unwrap();
    board.highlight_path(vec![t0, t1]);
    assert_eq!(board.path, vec![t0, t1]);
    // Highlighting the same tiles again changes nothing.
    board.highlight_path(vec![t0, t1]);
    assert_eq!(board.path, vec![t0, t1]);
    board.clear_path();
    assert!(board.path.is_empty());
    // Clearing an empty path is a no-op.
    board.clear_path();
    assert!(board.path.is_empty());
}

#[test]
fn direction_toward_finds_axis() {
    let base = coord(0, 0);
    assert_eq!(direction_toward(base, coord(3, 0)), Some(0));
    assert_eq!(direction_toward(base, coord(-2, 0)), Some(1));
    assert_eq!(direction_toward(base, coord(0, 5)), Some(2));
    assert_eq!(direction_toward(base, coord(0, -1)), Some(3));
    assert_eq!(direction_toward(base, coord(2, -2)), Some(4));
    assert_eq!(direction_toward(base, coord(-3, 3)), Some(5));
    assert_eq!(direction_toward(base, base), None);
    assert_eq!(direction_toward(base, coord(1, 1)), None);
    assert_eq!(direction_toward(coord(2, -1), coord(2, 2)), Some(2));
}
