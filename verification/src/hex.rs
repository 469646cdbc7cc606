//! Axial hex coordinates: value arithmetic, the six unit directions, and the
//! hex distance that defines the board's hexagonal region.

use vstd::prelude::*;

verus! {

/// Coordinates the engine works with stay well inside this bound, so that
/// component arithmetic (sums, distances, small offsets) never overflows i64.
pub const COORD_LIMIT: i64 = 0x1000_0000;

/// An axial hex coordinate: column `q` and row `r`.
/// Equality, hashing and addition are component-wise.
#[derive(Clone, Copy, Debug, PartialEq, Eq, Hash, Structural)]
pub struct HexCoord {
    pub q: i64,
    pub r: i64,
}

impl HexCoord {
    /// Both components lie within `m` in absolute value.
    pub open spec fn bounded(self, m: int) -> bool {
        -m <= self.q <= m && -m <= self.r <= m
    }

    /// Component-wise sum, as a mathematical value.
    pub open spec fn spec_add(self, other: HexCoord) -> HexCoord {
        HexCoord { q: (self.q + other.q) as i64, r: (self.r + other.r) as i64 }
    }

    /// Component-wise addition.
    pub fn add(self, other: HexCoord) -> (s: HexCoord)
        requires
            self.bounded(COORD_LIMIT as int),
            other.bounded(COORD_LIMIT as int),
        ensures
            s.q == self.q + other.q,
            s.r == self.r + other.r,
            s == self.spec_add(other),
    {
        HexCoord { q: self.q + other.q, r: self.r + other.r }
    }

    /// Hex distance from the origin: the number of unit steps needed to reach
    /// this coordinate, `max(|q|, |r|, |q + r|)`.
    pub open spec fn spec_dist(self) -> int {
        let a = abs_int(self.q as int);
        let b = abs_int(self.r as int);
        let c = abs_int(self.q + self.r);
        max3(a, b, c)
    }

    /// Hex distance from the origin.
    pub fn dist(self) -> (d: i64)
        requires
            self.bounded(COORD_LIMIT as int),
        ensures
            d == self.spec_dist(),
            d >= 0,
    {
        let a = abs_i64(self.q);
        let b = abs_i64(self.r);
        let c = abs_i64(self.q + self.r);
        let m = if a >= b { a } else { b };
        if m >= c { m } else { c }
    }
}

pub open spec fn abs_int(x: int) -> int {
    if x >= 0 { x } else { -x }
}

pub open spec fn max3(a: int, b: int, c: int) -> int {
    if a >= b && a >= c { a } else if b >= c { b } else { c }
}

fn abs_i64(x: i64) -> (r: i64)
    requires
        -COORD_LIMIT - COORD_LIMIT <= x <= COORD_LIMIT + COORD_LIMIT,
    ensures
        r == abs_int(x as int),
{
    if x >= 0 { x } else { -x }
}

/// The six unit directions, in the order shared by ray casting, spawn
/// placement and the pattern matcher.
pub open spec fn spec_direction(i: int) -> HexCoord {
    if i == 0 { HexCoord { q: 1i64, r: 0i64 } }
    else if i == 1 { HexCoord { q: -1i64, r: 0i64 } }
    else if i == 2 { HexCoord { q: 0i64, r: 1i64 } }
    else if i == 3 { HexCoord { q: 0i64, r: -1i64 } }
    else if i == 4 { HexCoord { q: 1i64, r: -1i64 } }
    else { HexCoord { q: -1i64, r: 1i64 } }
}

/// The `i`-th of the six unit directions.
pub fn direction(i: usize) -> (d: HexCoord)
    requires
        i < 6,
    ensures
        d == spec_direction(i as int),
        d.bounded(1),
{
    if i == 0 { HexCoord { q: 1, r: 0 } }
    else if i == 1 { HexCoord { q: -1, r: 0 } }
    else if i == 2 { HexCoord { q: 0, r: 1 } }
    else if i == 3 { HexCoord { q: 0, r: -1 } }
    else if i == 4 { HexCoord { q: 1, r: -1 } }
    else { HexCoord { q: -1, r: 1 } }
}

/// The coordinate reached from `origin` after `k` unit steps in direction `i`.
pub open spec fn ray_point(origin: HexCoord, i: int, k: int) -> HexCoord {
    let d = spec_direction(i);
    HexCoord { q: (origin.q + k * d.q) as i64, r: (origin.r + k * d.r) as i64 }
}

/// Every unit direction has hex distance 1 from the origin, so `k` steps from
/// the origin land exactly at hex distance `k`.
pub proof fn lemma_ray_point_dist(i: int, k: int)
    requires
        0 <= i < 6,
        0 <= k <= COORD_LIMIT as int,
    ensures
        ray_point(HexCoord { q: 0, r: 0 }, i, k).spec_dist() == k,
{
    let d = spec_direction(i);
    assert(k * 1 == k) by (nonlinear_arith);
    assert(k * -1 == -k) by (nonlinear_arith);
    assert(k * 0 == 0) by (nonlinear_arith);
}

/// The progress of a ray along its own axis: the coordinate component that
/// grows by exactly one with each step in direction `i`.
pub open spec fn axis_gain(i: int, c: HexCoord) -> int {
    if i == 0 || i == 4 { c.q as int }
    else if i == 1 { -(c.q as int) }
    else if i == 2 || i == 5 { c.r as int }
    else { -(c.r as int) }
}

/// On any coordinate the axis progress is bounded by the hex distance.
pub proof fn lemma_axis_gain_within_dist(i: int, c: HexCoord)
    requires
        0 <= i < 6,
    ensures
        -c.spec_dist() <= axis_gain(i, c) <= c.spec_dist(),
{
}

/// Stepping along a fixed direction: each step moves the axis progress by one,
/// keeps the coordinate bounded, and agrees with component-wise addition.
pub proof fn lemma_ray_point_props(origin: HexCoord, i: int, k: int)
    requires
        0 <= i < 6,
        origin.bounded(0x100_0000),
        0 <= k <= 0x100_0000,
    ensures
        ray_point(origin, i, k).bounded(0x200_0000),
        axis_gain(i, ray_point(origin, i, k)) == axis_gain(i, origin) + k,
        ray_point(origin, i, k).spec_add(spec_direction(i)) == ray_point(origin, i, k + 1),
        k == 0 ==> ray_point(origin, i, k) == origin,
{
    assert(k * 1 == k && k * -1 == -k && k * 0 == 0) by (nonlinear_arith);
    assert((k + 1) * 1 == k + 1 && (k + 1) * -1 == -(k + 1) && (k + 1) * 0 == 0)
        by (nonlinear_arith);
}

/// Walking `a` steps and then `b` more lands where `a + b` steps land.
pub proof fn lemma_ray_point_compose(origin: HexCoord, i: int, a: int, b: int)
    requires
        0 <= i < 6,
        origin.bounded(0x100_0000),
        0 <= a,
        0 <= b,
        a + b <= 0x100_0000,
    ensures
        ray_point(ray_point(origin, i, a), i, b) == ray_point(origin, i, a + b),
{
    assert(a * 1 == a && a * -1 == -a && a * 0 == 0) by (nonlinear_arith);
    assert(b * 1 == b && b * -1 == -b && b * 0 == 0) by (nonlinear_arith);
    assert((a + b) * 1 == a + b && (a + b) * -1 == -(a + b) && (a + b) * 0 == 0)
        by (nonlinear_arith);
}

/// `target` lies on the ray out of `base` along direction `i`: some positive
/// number of unit steps in that direction reaches it.
pub open spec fn spec_on_axis(base: HexCoord, target: HexCoord, i: int) -> bool {
    exists|k: int| 1 <= k <= COORD_LIMIT as int && target == #[trigger] ray_point(base, i, k)
}

/// If the clicked coordinate lies on one of the six rays out of `base`, the
/// index of that ray's direction; `None` when it lies on no ray (including
/// when it equals `base`).
pub fn direction_toward(base: HexCoord, target: HexCoord) -> (r: Option<usize>)
    requires
        base.bounded(COORD_LIMIT as int / 2),
        target.bounded(COORD_LIMIT as int / 2),
    ensures
        match r {
            Some(i) => i < 6 && spec_on_axis(base, target, i as int),
            None => forall|i: int| 0 <= i < 6 ==> !spec_on_axis(base, target, i),
        },
{
    let dq = target.q - base.q;
    let dr = target.r - base.r;
    let res: Option<usize> = if dr == 0 && dq > 0 {
        Some(0)
    } else if dr == 0 && dq < 0 {
        Some(1)
    } else if dq == 0 && dr > 0 {
        Some(2)
    } else if dq == 0 && dr < 0 {
        Some(3)
    } else if dq > 0 && dr == -dq {
        Some(4)
    } else if dq < 0 && dr == -dq {
        Some(5)
    } else {
        None
    };
    proof {
        let dqi = target.q - base.q;
        let dri = target.r - base.r;
        match res {
            Some(i) => {
                let k: int = if i == 0 { dqi } else if i == 1 { -dqi }
                    else if i == 2 { dri } else if i == 3 { -dri }
                    else if i == 4 { dqi } else { -dqi };
                assert(k * 1 == k && k * -1 == -k && k * 0 == 0) by (nonlinear_arith);
                assert(target == ray_point(base, i as int, k));
            },
            None => {
                assert forall|i: int, k: int| 0 <= i < 6 && 1 <= k <= COORD_LIMIT as int implies target != #[trigger] ray_point(base, i, k) by {
                    assert(k * 1 == k && k * -1 == -k && k * 0 == 0) by (nonlinear_arith);
                    if i == 0 {
                        assert(ray_point(base, 0, k).r == base.r);
                        assert(ray_point(base, 0, k).q == base.q + k);
                    } else if i == 1 {
                        assert(ray_point(base, 1, k).r == base.r);
                        assert(ray_point(base, 1, k).q == base.q - k);
                    } else if i == 2 {
                        assert(ray_point(base, 2, k).q == base.q);
                        assert(ray_point(base, 2, k).r == base.r + k);
                    } else if i == 3 {
                        assert(ray_point(base, 3, k).q == base.q);
                        assert(ray_point(base, 3, k).r == base.r - k);
                    } else if i == 4 {
                        assert(ray_point(base, 4, k).q == base.q + k);
                        assert(ray_point(base, 4, k).r == base.r - k);
                    } else {
                        assert(ray_point(base, 5, k).q == base.q - k);
                        assert(ray_point(base, 5, k).r == base.r + k);
                    }
                }
            },
        }
    }
    res
}

} // verus!
