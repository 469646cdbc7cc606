//! The board: the hex-shaped set of tiles of a configured radius, the
//! coordinate <-> tile-identity bijection, per-tile faction occupancy, the
//! highlighted path set, and the shared ray-cast primitive.

use vstd::prelude::*;
use vstd::arithmetic::div_mod::{lemma_fundamental_div_mod, lemma_fundamental_div_mod_converse};
use crate::hex::{
    HexCoord, spec_direction, direction, ray_point, axis_gain, lemma_axis_gain_within_dist,
    lemma_ray_point_props, lemma_ray_point_compose, lemma_ray_point_dist,
};
use crate::Faction;

verus! {

/// Largest supported board radius; keeps every tile-id and coordinate
/// computation comfortably inside the fixed-width integer types.
pub const MAX_RADIUS: usize = 1000;

/// The board. Tiles exist for every coordinate within hex distance `radius`
/// of the centre and are identified by their index into a `(2·radius + 1)`
/// square grid of slots; slots whose coordinate lies outside the hexagon are
/// never tiles and stay unoccupied.
pub struct Board {
    pub radius: usize,
    /// Which faction, if any, holds each slot.
    pub occ: Vec<Option<Faction>>,
    /// The currently highlighted path tiles.
    pub path: Vec<usize>,
}

impl Board {
    /// Width of the square slot grid that the hexagon is embedded in.
    pub open spec fn side(&self) -> int {
        2 * self.radius + 1
    }

    /// Number of slots, tiles and non-tiles together.
    pub open spec fn slot_count(&self) -> int {
        self.side() * self.side()
    }

    /// The coordinate lies on the board: within hex distance `radius`.
    pub open spec fn valid_coord(&self, c: HexCoord) -> bool {
        c.spec_dist() <= self.radius
    }

    /// The tile identity assigned to a coordinate.
    pub open spec fn spec_tile_id(&self, c: HexCoord) -> int {
        (c.q + self.radius) + (c.r + self.radius) * self.side()
    }

    /// The coordinate a slot index decodes to.
    pub open spec fn spec_coord_at(&self, t: int) -> HexCoord {
        HexCoord {
            q: (t % self.side() - self.radius) as i64,
            r: (t / self.side() - self.radius) as i64,
        }
    }

    /// `t` is the identity of an actual tile.
    pub open spec fn is_tile_id(&self, t: int) -> bool {
        0 <= t < self.slot_count() && self.valid_coord(self.spec_coord_at(t))
    }

    /// Well-formedness: the slot vector covers the grid, non-tile slots are
    /// never occupied, and the highlighted path holds only tile identities.
    pub open spec fn wf(&self) -> bool {
        &&& 1 <= self.radius <= MAX_RADIUS
        &&& self.occ@.len() == self.slot_count()
        &&& forall|t: int|
            0 <= t < self.slot_count() && !self.is_tile_id(t) ==> (#[trigger] self.occ@[t]) is None
        &&& forall|j: int|
            0 <= j < self.path@.len() ==> self.is_tile_id((#[trigger] self.path@[j]) as int)
    }

    /// No tile is occupied by either faction.
    pub open spec fn all_empty(&self) -> bool {
        forall|t: int| 0 <= t < self.occ@.len() ==> self.occ@[t] is None
    }

    /// Encoding a coordinate on the board yields a tile identity that decodes
    /// back to the same coordinate.
    pub proof fn lemma_tile_id_bijection(&self, c: HexCoord)
        requires
            self.wf(),
            self.valid_coord(c),
        ensures
            self.is_tile_id(self.spec_tile_id(c)),
            self.spec_coord_at(self.spec_tile_id(c)) == c,
    {
        let s = self.side();
        let a = c.q + self.radius;
        let b = c.r + self.radius;
        assert(0 <= a < s && 0 <= b < s);
        assert(b * s <= (s - 1) * s && (s - 1) * s == s * s - s) by (nonlinear_arith)
            requires b <= s - 1 && s >= 1;
        assert(0 <= b * s) by (nonlinear_arith)
            requires b >= 0 && s >= 1;
        lemma_fundamental_div_mod_converse(a + b * s, s, b, a);
    }

    /// Decoding a tile identity and re-encoding the coordinate is the
    /// identity, so the two lookups agree in both directions.
    pub proof fn lemma_tile_id_inverse(&self, t: int)
        requires
            self.wf(),
            self.is_tile_id(t),
        ensures
            self.spec_tile_id(self.spec_coord_at(t)) == t,
    {
        let s = self.side();
        lemma_fundamental_div_mod(t, s);
        assert(0 <= t % s < s);
        assert(t / s < s) by (nonlinear_arith)
            requires t < s * s && s >= 1 && t == s * (t / s) + t % s && t % s >= 0;
        assert(t / s >= 0) by (nonlinear_arith)
            requires t >= 0 && s >= 1 && t == s * (t / s) + t % s && t % s < s;
        assert((t / s) * s == s * (t / s)) by (nonlinear_arith);
    }

    /// Create an empty board of the given radius with no path highlighted.
    pub fn new(radius: usize) -> (b: Board)
        requires
            1 <= radius <= MAX_RADIUS,
        ensures
            b.wf(),
            b.radius == radius,
            b.all_empty(),
            b.path@.len() == 0,
    {
        let side = 2 * radius + 1;
        assert(side * side <= 2001 * 2001) by (nonlinear_arith)
            requires side <= 2001;
        let slots = side * side;
        let mut occ: Vec<Option<Faction>> = Vec::new();
        let mut i: usize = 0;
        while i < slots
            invariant
                i <= slots,
                occ@.len() == i,
                forall|j: int| 0 <= j < i ==> occ@[j] is None,
            decreases slots - i,
        {
            occ.push(None);
            i += 1;
        }
        Board { radius, occ, path: Vec::new() }
    }

    /// Number of tiles on the board: `3·R² + 3·R + 1`.
    pub fn tile_count(&self) -> (n: usize)
        requires
            self.wf(),
        ensures
            n == 3 * self.radius * self.radius + 3 * self.radius + 1,
    {
        assert(3 * self.radius * self.radius + 3 * self.radius + 1 <= 3_004_001) by (nonlinear_arith)
            requires self.radius <= 1000;
        3 * self.radius * self.radius + 3 * self.radius + 1
    }

    /// O(1) lookup from coordinate to tile identity; `None` exactly when the
    /// coordinate lies outside the board.
    pub fn tile_at(&self, c: HexCoord) -> (r: Option<usize>)
        requires
            self.wf(),
        ensures
            match r {
                Some(t) => self.valid_coord(c) && t == self.spec_tile_id(c)
                    && self.is_tile_id(t as int),
                None => !self.valid_coord(c),
            },
    {
        let rad = self.radius as i64;
        if c.q < -rad || c.q > rad || c.r < -rad || c.r > rad {
            return None;
        }
        let d = c.dist();
        if d > rad {
            return None;
        }
        let side = 2 * rad + 1;
        proof {
            assert(0 <= (c.r + rad) * side <= 2000 * 2001) by (nonlinear_arith)
                requires
                    0 <= c.r + rad <= 2000,
                    1 <= side <= 2001;
        }
        let t = (c.q + rad) + (c.r + rad) * side;
        proof {
            self.lemma_tile_id_bijection(c);
            assert(self.slot_count() <= 2001 * 2001) by (nonlinear_arith)
                requires self.side() <= 2001;
        }
        Some(t as usize)
    }

    /// O(1) lookup from tile identity to coordinate; `None` exactly when the
    /// index is not the identity of a tile.
    pub fn coord_of(&self, t: usize) -> (r: Option<HexCoord>)
        requires
            self.wf(),
        ensures
            match r {
                Some(c) => self.is_tile_id(t as int) && c == self.spec_coord_at(t as int)
                    && self.valid_coord(c),
                None => !self.is_tile_id(t as int),
            },
    {
        let side = 2 * self.radius + 1;
        assert(side * side <= 2001 * 2001) by (nonlinear_arith)
            requires side <= 2001;
        let slots = side * side;
        if t >= slots {
            return None;
        }
        proof {
            let ti = t as int;
            let si = side as int;
            lemma_fundamental_div_mod(ti, si);
            assert(ti / si < si) by (nonlinear_arith)
                requires
                    ti < si * si,
                    si >= 1,
                    ti == si * (ti / si) + ti % si,
                    ti % si >= 0;
        }
        let q = (t % side) as i64 - self.radius as i64;
        let r = (t / side) as i64 - self.radius as i64;
        let c = HexCoord { q, r };
        let d = c.dist();
        if d > self.radius as i64 {
            None
        } else {
            Some(c)
        }
    }

    /// The faction currently holding a slot, if any.
    pub fn occupant(&self, t: usize) -> (o: Option<Faction>)
        requires
            self.wf(),
            t < self.slot_count(),
        ensures
            o == self.occ@[t as int],
    {
        self.occ[t]
    }

    /// Mark a free tile as held by `f`. Occupying a tile the opposing faction
    /// still holds is a caller error, which the precondition rules out.
    pub fn occupy(&mut self, t: usize, f: Faction)
        requires
            old(self).wf(),
            old(self).is_tile_id(t as int),
            old(self).occ@[t as int] is None,
        ensures
            final(self).wf(),
            final(self).radius == old(self).radius,
            final(self).occ@ == old(self).occ@.update(t as int, Some(f)),
            final(self).path@ == old(self).path@,
    {
        self.occ[t] = Some(f);
    }

    /// Mark a tile as held by nobody.
    pub fn vacate(&mut self, t: usize)
        requires
            old(self).wf(),
            old(self).is_tile_id(t as int),
        ensures
            final(self).wf(),
            final(self).radius == old(self).radius,
            final(self).occ@ == old(self).occ@.update(t as int, None::<Faction>),
            final(self).path@ == old(self).path@,
    {
        self.occ[t] = None;
    }

    /// Replace the highlighted path with the given tiles. Highlighting the
    /// same tiles twice leaves the board unchanged.
    pub fn highlight_path(&mut self, tiles: Vec<usize>)
        requires
            old(self).wf(),
            forall|j: int| 0 <= j < tiles@.len() ==> old(self).is_tile_id((#[trigger] tiles@[j]) as int),
        ensures
            final(self).wf(),
            final(self).radius == old(self).radius,
            final(self).occ@ == old(self).occ@,
            final(self).path@ == tiles@,
    {
        self.path = tiles;
    }

    /// Clear the highlighted path; clearing an empty path is a no-op.
    pub fn clear_path(&mut self)
        requires
            old(self).wf(),
        ensures
            final(self).wf(),
            final(self).radius == old(self).radius,
            final(self).occ@ == old(self).occ@,
            final(self).path@.len() == 0,
    {
        self.path.clear();
    }

    /// The `k`-th step out of `origin` along direction `i` lands on the board
    /// and not on a tile held by `owner`'s opponent.
    pub open spec fn step_clear(&self, owner: Faction, origin: HexCoord, i: int, k: int) -> bool {
        let p = ray_point(origin, i, k);
        self.valid_coord(p) && self.occ@[self.spec_tile_id(p)] != Some(owner.spec_opponent())
    }

    /// The first `n` steps of the ray are all clear.
    pub open spec fn ray_clear(&self, owner: Faction, origin: HexCoord, i: int, n: int) -> bool {
        forall|k: int| 1 <= k <= n ==> #[trigger] self.step_clear(owner, origin, i, k)
    }

    /// `s` is exactly the ray cast from `origin` along direction `i` for
    /// `owner`: the tile identities of the consecutive steps starting one step
    /// out, every listed step clear, and the next step off the board or held
    /// by the opposing faction.
    pub open spec fn is_ray(&self, owner: Faction, origin: HexCoord, i: int, s: Seq<usize>) -> bool {
        &&& forall|j: int|
            0 <= j < s.len() ==> #[trigger] s[j] == self.spec_tile_id(ray_point(origin, i, j + 1))
        &&& self.ray_clear(owner, origin, i, s.len() as int)
        &&& !self.step_clear(owner, origin, i, s.len() as int + 1)
    }

    /// Walk the tiles from one step out of `origin` along direction `dir`,
    /// stopping before the first tile held by `owner`'s opponent and at the
    /// board edge. The one shared primitive behind path exposure for every
    /// direction.
    pub fn cast_ray(&self, origin: HexCoord, dir: usize, owner: Faction) -> (ray: Vec<usize>)
        requires
            self.wf(),
            self.valid_coord(origin),
            dir < 6,
        ensures
            self.is_ray(owner, origin, dir as int, ray@),
            ray@.len() <= 2 * self.radius,
            forall|j: int| 0 <= j < ray@.len() ==> self.is_tile_id(#[trigger] ray@[j] as int),
    {
        let d = direction(dir);
        let opp = owner.opponent();
        let mut ray: Vec<usize> = Vec::new();
        assert(origin.bounded(self.radius as int));
        proof {
            lemma_ray_point_props(origin, dir as int, 0);
        }
        let mut c = origin.add(d);
        let mut k: usize = 1;
        loop
            invariant
                self.wf(),
                self.valid_coord(origin),
                origin.bounded(MAX_RADIUS as int),
                dir < 6,
                d == spec_direction(dir as int),
                opp == owner.spec_opponent(),
                1 <= k <= 2 * self.radius + 1,
                c == ray_point(origin, dir as int, k as int),
                ray@.len() == k - 1,
                forall|j: int|
                    0 <= j < ray@.len()
                        ==> #[trigger] ray@[j] == self.spec_tile_id(ray_point(origin, dir as int, j + 1)),
                forall|j: int| 0 <= j < ray@.len() ==> self.is_tile_id(#[trigger] ray@[j] as int),
                self.ray_clear(owner, origin, dir as int, k as int - 1),
            ensures
                self.is_ray(owner, origin, dir as int, ray@),
                ray@.len() <= 2 * self.radius,
                forall|j: int| 0 <= j < ray@.len() ==> self.is_tile_id(#[trigger] ray@[j] as int),
            decreases 2 * self.radius + 1 - k,
        {
            let blocked: bool = match self.tile_at(c) {
                Some(t) => {
                    let enemy_here: bool = match self.occupant(t) {
                        Some(f) => f == opp,
                        None => false,
                    };
                    if enemy_here {
                        true
                    } else {
                        ray.push(t);
                        proof {
                            assert(self.step_clear(owner, origin, dir as int, k as int));
                            lemma_axis_gain_within_dist(dir as int, c);
                            lemma_axis_gain_within_dist(dir as int, origin);
                            lemma_ray_point_props(origin, dir as int, k as int);
                            assert(axis_gain(dir as int, c) == axis_gain(dir as int, origin) + k);
                            assert(k <= 2 * self.radius);
                        }
                        c = c.add(d);
                        k += 1;
                        false
                    }
                },
                None => true,
            };
            if blocked {
                proof {
                    assert(!self.step_clear(owner, origin, dir as int, k as int));
                    assert(ray@.len() + 1 == k as int);
                }
                break;
            }
        }
        ray
    }

    /// On an empty board, a ray cast from the centre spans the whole radius:
    /// exactly `radius` tiles, from one step out to the edge.
    pub proof fn lemma_ray_full_span_from_center(
        &self,
        owner: Faction,
        i: int,
        s: Seq<usize>,
    )
        requires
            self.wf(),
            self.all_empty(),
            0 <= i < 6,
            self.is_ray(owner, HexCoord { q: 0, r: 0 }, i, s),
        ensures
            s.len() == self.radius,
    {
        let o = HexCoord { q: 0i64, r: 0i64 };
        let n = s.len() as int;
        if n > self.radius {
            lemma_ray_point_dist(i, self.radius + 1);
            assert(self.step_clear(owner, o, i, self.radius + 1));
            assert(false);
        }
        lemma_ray_point_dist(i, n + 1);
        let p = ray_point(o, i, n + 1);
        if self.valid_coord(p) {
            self.lemma_tile_id_bijection(p);
            assert(self.occ@[self.spec_tile_id(p)] is None);
            assert(self.step_clear(owner, o, i, n + 1));
            assert(false);
        }
        assert(n + 1 > self.radius);
    }

    /// A ray cast along direction `i` from the edge tile in that same
    /// direction is empty: the very first step already leaves the board.
    pub proof fn lemma_ray_empty_at_edge(&self, owner: Faction, i: int, s: Seq<usize>)
        requires
            self.wf(),
            0 <= i < 6,
            self.is_ray(owner, ray_point(HexCoord { q: 0, r: 0 }, i, self.radius as int), i, s),
        ensures
            s.len() == 0,
    {
        let o = HexCoord { q: 0i64, r: 0i64 };
        let edge = ray_point(o, i, self.radius as int);
        if s.len() >= 1 {
            assert(self.step_clear(owner, edge, i, 1));
            lemma_ray_point_compose(o, i, self.radius as int, 1);
            lemma_ray_point_dist(i, self.radius + 1);
            assert(false);
        }
    }
}

} // verus!
