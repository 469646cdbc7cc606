//! The combination matcher: decides whether a finalized selection of allied
//! pawns forms one of the eighteen fixed geometric promotion templates
//! anchored at the selection's base coordinate.
//!
//! Each template steps one hex from the base in a primary direction and one
//! further hex in that direction or one of its two adjacent directions: six
//! rotations with three arm variants each.

use vstd::prelude::*;
use crate::hex::{HexCoord, COORD_LIMIT};

verus! {

/// Number of fixed promotion templates.
pub const TEMPLATE_COUNT: usize = 18;

/// The two offsets, relative to the base coordinate, that template `i` asks
/// to be held by allied pawns.
pub open spec fn spec_template_offset(i: int) -> (HexCoord, HexCoord) {
    if i == 0 { (HexCoord { q: 1i64, r: 0i64 }, HexCoord { q: 2i64, r: 0i64 }) }
    else if i == 1 { (HexCoord { q: 1i64, r: 0i64 }, HexCoord { q: 1i64, r: 1i64 }) }
    else if i == 2 { (HexCoord { q: 1i64, r: 0i64 }, HexCoord { q: 2i64, r: -1i64 }) }
    else if i == 3 { (HexCoord { q: -1i64, r: 0i64 }, HexCoord { q: -2i64, r: 0i64 }) }
    else if i == 4 { (HexCoord { q: -1i64, r: 0i64 }, HexCoord { q: -2i64, r: 1i64 }) }
    else if i == 5 { (HexCoord { q: -1i64, r: 0i64 }, HexCoord { q: -1i64, r: -1i64 }) }
    else if i == 6 { (HexCoord { q: 0i64, r: -1i64 }, HexCoord { q: 0i64, r: -2i64 }) }
    else if i == 7 { (HexCoord { q: 0i64, r: -1i64 }, HexCoord { q: -1i64, r: -1i64 }) }
    else if i == 8 { (HexCoord { q: 0i64, r: -1i64 }, HexCoord { q: 1i64, r: -2i64 }) }
    else if i == 9 { (HexCoord { q: 0i64, r: 1i64 }, HexCoord { q: 0i64, r: 2i64 }) }
    else if i == 10 { (HexCoord { q: 0i64, r: 1i64 }, HexCoord { q: 1i64, r: 1i64 }) }
    else if i == 11 { (HexCoord { q: 0i64, r: 1i64 }, HexCoord { q: -1i64, r: 2i64 }) }
    else if i == 12 { (HexCoord { q: 1i64, r: -1i64 }, HexCoord { q: 2i64, r: -2i64 }) }
    else if i == 13 { (HexCoord { q: 1i64, r: -1i64 }, HexCoord { q: 1i64, r: -2i64 }) }
    else if i == 14 { (HexCoord { q: 1i64, r: -1i64 }, HexCoord { q: 2i64, r: -1i64 }) }
    else if i == 15 { (HexCoord { q: -1i64, r: 1i64 }, HexCoord { q: -2i64, r: 2i64 }) }
    else if i == 16 { (HexCoord { q: -1i64, r: 1i64 }, HexCoord { q: -1i64, r: 2i64 }) }
    else { (HexCoord { q: -1i64, r: 1i64 }, HexCoord { q: -2i64, r: 1i64 }) }
}

/// The two board coordinates template `i` asks for when anchored at `base`.
pub open spec fn spec_template(base: HexCoord, i: int) -> (HexCoord, HexCoord) {
    (base.spec_add(spec_template_offset(i).0), base.spec_add(spec_template_offset(i).1))
}

/// The selection `s` matches template `i` at `base`: the selection holds
/// exactly the template's two coordinates, in either order.
pub open spec fn combo_matches_at(base: HexCoord, s: Seq<HexCoord>, i: int) -> bool {
    let c1 = spec_template(base, i).0;
    let c2 = spec_template(base, i).1;
    s.len() == 2 && ((s[0] == c1 && s[1] == c2) || (s[0] == c2 && s[1] == c1))
}

/// The selection matches some template at `base`.
pub open spec fn combo_match(base: HexCoord, s: Seq<HexCoord>) -> bool {
    exists|i: int| 0 <= i < TEMPLATE_COUNT && combo_matches_at(base, s, i)
}

/// The two offsets of template `i`.
fn template_offset(i: usize) -> (o: (HexCoord, HexCoord))
    requires
        i < TEMPLATE_COUNT,
    ensures
        o == spec_template_offset(i as int),
        o.0.bounded(2),
        o.1.bounded(2),
{
    if i == 0 { (HexCoord { q: 1, r: 0 }, HexCoord { q: 2, r: 0 }) }
    else if i == 1 { (HexCoord { q: 1, r: 0 }, HexCoord { q: 1, r: 1 }) }
    else if i == 2 { (HexCoord { q: 1, r: 0 }, HexCoord { q: 2, r: -1 }) }
    else if i == 3 { (HexCoord { q: -1, r: 0 }, HexCoord { q: -2, r: 0 }) }
    else if i == 4 { (HexCoord { q: -1, r: 0 }, HexCoord { q: -2, r: 1 }) }
    else if i == 5 { (HexCoord { q: -1, r: 0 }, HexCoord { q: -1, r: -1 }) }
    else if i == 6 { (HexCoord { q: 0, r: -1 }, HexCoord { q: 0, r: -2 }) }
    else if i == 7 { (HexCoord { q: 0, r: -1 }, HexCoord { q: -1, r: -1 }) }
    else if i == 8 { (HexCoord { q: 0, r: -1 }, HexCoord { q: 1, r: -2 }) }
    else if i == 9 { (HexCoord { q: 0, r: 1 }, HexCoord { q: 0, r: 2 }) }
    else if i == 10 { (HexCoord { q: 0, r: 1 }, HexCoord { q: 1, r: 1 }) }
    else if i == 11 { (HexCoord { q: 0, r: 1 }, HexCoord { q: -1, r: 2 }) }
    else if i == 12 { (HexCoord { q: 1, r: -1 }, HexCoord { q: 2, r: -2 }) }
    else if i == 13 { (HexCoord { q: 1, r: -1 }, HexCoord { q: 1, r: -2 }) }
    else if i == 14 { (HexCoord { q: 1, r: -1 }, HexCoord { q: 2, r: -1 }) }
    else if i == 15 { (HexCoord { q: -1, r: 1 }, HexCoord { q: -2, r: 2 }) }
    else if i == 16 { (HexCoord { q: -1, r: 1 }, HexCoord { q: -1, r: 2 }) }
    else { (HexCoord { q: -1, r: 1 }, HexCoord { q: -2, r: 1 }) }
}

/// The two board coordinates template `i` asks for when anchored at `base`.
pub fn template(base: HexCoord, i: usize) -> (t: (HexCoord, HexCoord))
    requires
        i < TEMPLATE_COUNT,
        base.bounded(COORD_LIMIT as int - 2),
    ensures
        t == spec_template(base, i as int),
{
    let o = template_offset(i);
    (base.add(o.0), base.add(o.1))
}

/// Search the eighteen templates for one whose two coordinates are exactly
/// the selection. Returns the index of the first matching template; `None`
/// exactly when no template matches, in particular whenever the selection
/// does not hold exactly two coordinates.
pub fn match_combination(base: HexCoord, sel: &Vec<HexCoord>) -> (r: Option<usize>)
    requires
        base.bounded(COORD_LIMIT as int - 2),
    ensures
        match r {
            Some(i) => i < TEMPLATE_COUNT && combo_matches_at(base, sel@, i as int),
            None => !combo_match(base, sel@),
        },
{
    if sel.len() != 2 {
        return None;
    }
    let a = sel[0];
    let b = sel[1];
    let mut i: usize = 0;
    while i < TEMPLATE_COUNT
        invariant
            i <= TEMPLATE_COUNT,
            base.bounded(COORD_LIMIT as int - 2),
            sel@.len() == 2,
            a == sel@[0],
            b == sel@[1],
            forall|j: int| 0 <= j < i ==> !combo_matches_at(base, sel@, j),
        decreases TEMPLATE_COUNT - i,
    {
        let t = template(base, i);
        if (a == t.0 && b == t.1) || (a == t.1 && b == t.0) {
            return Some(i);
        }
        i += 1;
    }
    None
}

/// A selection holding exactly the two coordinates of any one template, in
/// either order, matches.
pub proof fn lemma_template_pair_matches(base: HexCoord, s: Seq<HexCoord>, i: int)
    requires
        0 <= i < TEMPLATE_COUNT,
        s.len() == 2,
        (s[0] == spec_template(base, i).0 && s[1] == spec_template(base, i).1)
            || (s[0] == spec_template(base, i).1 && s[1] == spec_template(base, i).0),
    ensures
        combo_match(base, s),
{
    assert(combo_matches_at(base, s, i));
}

/// A selection that does not hold exactly two coordinates never matches:
/// one held template coordinate is too few, and four selected coordinates
/// are too many even if two of them form a valid pair.
pub proof fn lemma_wrong_count_never_matches(base: HexCoord, s: Seq<HexCoord>)
    requires
        s.len() != 2,
    ensures
        !combo_match(base, s),
{
}

} // verus!
