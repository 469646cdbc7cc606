use hexchess::hex::HexCoord;
use hexchess::matcher::{match_combination, template, TEMPLATE_COUNT};

fn coord(q: i64, r: i64) -> HexCoord {
    HexCoord { q, r }
}

#[test]
fn every_template_pair_matches() {
    let base = coord(0, 0);
    for i in 0..TEMPLATE_COUNT {
        let (c1, c2) = template(base, i);
        let found = match_combination(base, &vec![c1, c2]);
        assert!(found.is_some(), "template {i}");
        // The same pair in the other sweep order matches too.
        assert!(match_combination(base, &vec![c2, c1]).is_some(), "template {i} reversed");
    }
}

#[test]
fn templates_anchor_at_the_base() {
    let base = coord(2, -1);
    // First template: one and two steps along (1, 0).
    assert_eq!(template(base, 0), (coord(3, -1), coord(4, -1)));
    // A pair valid at one base is not valid at another.
    let (c1, c2) = template(coord(0, 0), 0);
    assert_eq!(match_combination(base, &vec![c1, c2]), None);
}

#[test]
fn single_coordinate_fails() {
    let base = coord(0, 0);
    for i in 0..TEMPLATE_COUNT {
        let (c1, _) = template(base, i);
        assert_eq!(match_combination(base, &vec![c1]), None, "template {i}");
    }
}

#[test]
fn four_coordinates_fail_even_with_a_valid_pair_inside() {
    let base = coord(0, 0);
    let (c1, c2) = template(base, 0);
    let sel = vec![c1, c2, coord(0, 1), coord(-1, 0)];
    assert_eq!(match_combination(base, &sel), None);
}

#[test]
fn unrelated_pair_fails() {
    let base = coord(0, 0);
    // Two opposite neighbors form no template arm.
    assert_eq!(match_combination(base, &vec![coord(1, 0), coord(-1, 0)]), None);
    // A neighbor plus a far tile fails too.
    assert_eq!(match_combination(base, &vec![coord(1, 0), coord(3, 0)]), None);
}

#[test]
fn duplicate_coordinate_fails() {
    let base = coord(0, 0);
    let (c1, _) = template(base, 0);
    assert_eq!(match_combination(base, &vec![c1, c1]), None);
}
