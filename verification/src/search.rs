//! Integer searches for the hitresult split that lies closest to a target
//! accuracy.
//!
//! A candidate `x` is judged by `|goal - unit * x|`: `goal` is the target
//! accuracy numerator minus the fixed part of the candidate's numerator,
//! both scaled to a common denominator, and `unit` is what one more unit of
//! `x` adds. Only the floor and the ceiling of `goal / unit` (clamped to
//! `0..=max`) are tried.
use vstd::prelude::*;

verus! {

/// Absolute value.
pub open spec fn abs(v: int) -> int {
    if v < 0 {
        -v
    } else {
        v
    }
}

/// Distance of candidate `x` to the goal.
pub open spec fn dist_at(goal: int, unit: int, x: int) -> int {
    abs(goal - unit * x)
}

/// `floor(goal / unit)`, or 0 where that is negative.
pub open spec fn floor_pos(goal: int, unit: int) -> int {
    if goal <= 0 {
        0
    } else {
        goal / unit
    }
}

/// `ceil(goal / unit)`, or 0 where that is negative.
pub open spec fn ceil_pos(goal: int, unit: int) -> int {
    if goal <= 0 {
        0
    } else {
        (goal + unit - 1) / unit
    }
}

pub open spec fn min_int(a: int, b: int) -> int {
    if a <= b {
        a
    } else {
        b
    }
}

/// Lowest candidate tried: the floor of `goal / unit`, clamped to `0..=max`.
pub open spec fn window_lo(goal: int, unit: int, max: int) -> int {
    min_int(max, floor_pos(goal, unit))
}

/// Highest candidate tried: the ceiling of `goal / unit`, clamped to `0..=max`.
pub open spec fn window_hi(goal: int, unit: int, max: int) -> int {
    min_int(max, ceil_pos(goal, unit))
}

/// `x` is the first candidate of `lo..=hi` at the least distance to the goal.
pub open spec fn is_first_closest(goal: int, unit: int, lo: int, hi: int, x: int) -> bool {
    &&& lo <= x <= hi
    &&& forall|y: int| lo <= y <= hi ==> dist_at(goal, unit, x) <= #[trigger] dist_at(goal, unit, y)
    &&& forall|y: int| lo <= y < x ==> dist_at(goal, unit, x) < #[trigger] dist_at(goal, unit, y)
}

/// The first candidate of `lo..=hi` at the least distance to the goal.
pub open spec fn first_closest(goal: int, unit: int, lo: int, hi: int) -> int {
    choose|x: int| is_first_closest(goal, unit, lo, hi, x)
}

/// The candidate that the search over the window picks.
pub open spec fn closest_in_window(goal: int, unit: int, max: int) -> int {
    first_closest(goal, unit, window_lo(goal, unit, max), window_hi(goal, unit, max))
}

/// At most one candidate is the first closest one.
pub proof fn lemma_first_closest_unique(goal: int, unit: int, lo: int, hi: int, x: int, y: int)
    requires
        is_first_closest(goal, unit, lo, hi, x),
        is_first_closest(goal, unit, lo, hi, y),
    ensures
        x == y,
{
    if x < y {
        assert(dist_at(goal, unit, y) < dist_at(goal, unit, x));
        assert(dist_at(goal, unit, x) <= dist_at(goal, unit, y));
    } else if y < x {
        assert(dist_at(goal, unit, x) < dist_at(goal, unit, y));
        assert(dist_at(goal, unit, y) <= dist_at(goal, unit, x));
    }
}

/// A witness of the first-closest property is what `first_closest` names.
pub proof fn lemma_first_closest_is(goal: int, unit: int, lo: int, hi: int, x: int)
    requires
        is_first_closest(goal, unit, lo, hi, x),
    ensures
        first_closest(goal, unit, lo, hi) == x,
{
    let c = first_closest(goal, unit, lo, hi);
    assert(is_first_closest(goal, unit, lo, hi, c));
    lemma_first_closest_unique(goal, unit, lo, hi, c, x);
}

/// Every non-empty range has a first closest candidate.
pub proof fn lemma_first_closest_exists(goal: int, unit: int, lo: int, hi: int)
    requires
        lo <= hi,
    ensures
        is_first_closest(goal, unit, lo, hi, first_closest(goal, unit, lo, hi)),
    decreases hi - lo,
{
    if lo == hi {
        assert(is_first_closest(goal, unit, lo, hi, lo));
    } else {
        lemma_first_closest_exists(goal, unit, lo, hi - 1);
        let x = first_closest(goal, unit, lo, hi - 1);
        if dist_at(goal, unit, hi) < dist_at(goal, unit, x) {
            assert(is_first_closest(goal, unit, lo, hi, hi));
        } else {
            assert(is_first_closest(goal, unit, lo, hi, x));
        }
    }
}

/// The window is never empty.
pub proof fn lemma_window_ordered(goal: int, unit: int, max: int)
    requires
        unit > 0,
        max >= 0,
    ensures
        0 <= window_lo(goal, unit, max) <= window_hi(goal, unit, max) <= max,
{
    if goal > 0 {
        vstd::arithmetic::div_mod::lemma_div_is_ordered(goal, goal + unit - 1, unit);
        vstd::arithmetic::div_mod::lemma_div_pos_is_pos(goal, unit);
    }
}

/// `unit * floor_pos(goal, unit)` does not pass the goal, and
/// `unit * ceil_pos(goal, unit)` is not below it.
proof fn lemma_floor_ceil(goal: int, unit: int)
    requires
        unit > 0,
    ensures
        goal > 0 ==> unit * floor_pos(goal, unit) <= goal,
        goal > 0 ==> unit * ceil_pos(goal, unit) >= goal,
{
    if goal > 0 {
        vstd::arithmetic::div_mod::lemma_fundamental_div_mod(goal, unit);
        vstd::arithmetic::div_mod::lemma_fundamental_div_mod(goal + unit - 1, unit);
    }
}

/// The window holds the first closest candidate of the whole range
/// `0..=max`: searching the window is as good as searching everything.
pub proof fn lemma_window_is_global(goal: int, unit: int, max: int)
    requires
        unit > 0,
        max >= 0,
    ensures
        is_first_closest(goal, unit, 0, max, closest_in_window(goal, unit, max)),
{
    let lo = window_lo(goal, unit, max);
    let hi = window_hi(goal, unit, max);
    lemma_window_ordered(goal, unit, max);
    lemma_first_closest_exists(goal, unit, lo, hi);
    lemma_floor_ceil(goal, unit);
    let x = closest_in_window(goal, unit, max);
    assert forall|y: int| 0 <= y <= max implies dist_at(goal, unit, x) <= #[trigger] dist_at(
        goal,
        unit,
        y,
    ) && (y < x ==> dist_at(goal, unit, x) < dist_at(goal, unit, y)) by {
        if y < lo {
            let f = floor_pos(goal, unit);
            assert(lo <= f);
            assert(unit * lo <= unit * f) by (nonlinear_arith)
                requires
                    unit > 0,
                    lo <= f,
            ;
            assert(unit * lo <= goal);
            assert(unit * y < unit * lo) by (nonlinear_arith)
                requires
                    unit > 0,
                    y < lo,
            ;
            assert(dist_at(goal, unit, x) <= dist_at(goal, unit, lo));
        } else if y > hi {
            let c = ceil_pos(goal, unit);
            assert(hi == c);
            assert(hi == 0 || unit * hi >= goal);
            assert(unit * y > unit * hi) by (nonlinear_arith)
                requires
                    unit > 0,
                    y > hi,
            ;
            assert(unit * hi >= 0) by (nonlinear_arith)
                requires
                    unit > 0,
                    hi >= 0,
            ;
            assert(dist_at(goal, unit, x) <= dist_at(goal, unit, hi));
        } else {
            assert(dist_at(goal, unit, x) <= dist_at(goal, unit, y));
        }
    }
}

/// Bounds under which the exec searches cannot overflow.
pub open spec fn search_bounds(goal: int, unit: int) -> bool {
    &&& -0x4000_0000_0000_0000_0000_0000_0000 < goal < 0x4000_0000_0000_0000_0000_0000_0000
    &&& 0 < unit < 0x1_0000_0000_0000_0000_00
}

fn exec_dist(goal: i128, unit: i128, x: u32) -> (d: i128)
    requires
        search_bounds(goal as int, unit as int),
    ensures
        d == dist_at(goal as int, unit as int, x as int),
        0 <= d < 0x1_0000_0000_0000_0000_0000_0000_0000,
{
    assert(0 <= unit * x <= 0x1_0000_0000_0000_0000_00 * 0x1_0000_0000) by (nonlinear_arith)
        requires
            0 < unit < 0x1_0000_0000_0000_0000_00,
            0 <= x < 0x1_0000_0000,
    ;
    let v = goal - unit * (x as i128);
    if v < 0 {
        -v
    } else {
        v
    }
}

/// Lower and upper end of the window of `goal / unit`, clamped to `0..=max`.
pub fn window(goal: i128, unit: i128, max: u32) -> (w: (u32, u32))
    requires
        search_bounds(goal as int, unit as int),
    ensures
        w.0 == window_lo(goal as int, unit as int, max as int),
        w.1 == window_hi(goal as int, unit as int, max as int),
        w.0 <= w.1 <= max,
{
    if goal <= 0 {
        (0, 0)
    } else {
        let fl = goal / unit;
        let ce = (goal + unit - 1) / unit;
        proof {
            vstd::arithmetic::div_mod::lemma_div_is_ordered(
                goal as int,
                (goal + unit - 1) as int,
                unit as int,
            );
        }
        let lo = if fl > max as i128 {
            max
        } else {
            fl as u32
        };
        let hi = if ce > max as i128 {
            max
        } else {
            ce as u32
        };
        (lo, hi)
    }
}

/// The first candidate of the window whose distance to the goal is least.
pub fn closest_count(goal: i128, unit: i128, max: u32) -> (x: u32)
    requires
        search_bounds(goal as int, unit as int),
    ensures
        x == closest_in_window(goal as int, unit as int, max as int),
        x <= max,
{
    let (lo, hi) = window(goal, unit, max);
    let ghost g = goal as int;
    let ghost u = unit as int;
    let mut best = lo;
    let mut best_d = exec_dist(goal, unit, lo);
    let mut x: u64 = lo as u64 + 1;
    while x <= hi as u64
        invariant
            search_bounds(g, u),
            g == goal,
            u == unit,
            lo <= hi <= max,
            lo < x <= hi as int + 1,
            is_first_closest(g, u, lo as int, x - 1, best as int),
            best_d == dist_at(g, u, best as int),
        decreases hi as int + 1 - x,
    {
        let d = exec_dist(goal, unit, x as u32);
        if d < best_d {
            best = x as u32;
            best_d = d;
        }
        x = x + 1;
    }
    proof {
        lemma_first_closest_is(g, u, lo as int, hi as int, best as int);
    }
    best
}

/// `(a, b)` is a candidate of the two-level search: `a` in the window of
/// `goal / ua` over `0..=max`, then `b` in the window of what is left of the
/// goal over `0..=max - a`.
pub open spec fn pair_candidate(goal: int, ua: int, ub: int, max: int, a: int, b: int) -> bool {
    &&& window_lo(goal, ua, max) <= a <= window_hi(goal, ua, max)
    &&& window_lo(goal - ua * a, ub, max - a) <= b <= window_hi(goal - ua * a, ub, max - a)
}

/// Distance of the candidate pair `(a, b)` to the goal: `|goal - ua * a - ub * b|`.
pub open spec fn pair_dist(goal: int, ua: int, ub: int, a: int, b: int) -> int {
    dist_at(goal - ua * a, ub, b)
}

/// `(a2, b2)` comes before `(a, b)` in the order in which the search tries pairs.
pub open spec fn lex_before(a2: int, b2: int, a: int, b: int) -> bool {
    a2 < a || (a2 == a && b2 < b)
}

/// `(a, b)` is the first pair, in search order, among the candidates whose
/// first component is at most `lim`, at the least distance to the goal.
pub open spec fn is_first_closest_pair_upto(
    goal: int,
    ua: int,
    ub: int,
    max: int,
    lim: int,
    a: int,
    b: int,
) -> bool {
    &&& pair_candidate(goal, ua, ub, max, a, b)
    &&& a <= lim
    &&& forall|a2: int, b2: int|
        pair_candidate(goal, ua, ub, max, a2, b2) && a2 <= lim ==> pair_dist(goal, ua, ub, a, b)
            <= #[trigger] pair_dist(goal, ua, ub, a2, b2)
    &&& forall|a2: int, b2: int|
        pair_candidate(goal, ua, ub, max, a2, b2) && lex_before(a2, b2, a, b) ==> pair_dist(
            goal,
            ua,
            ub,
            a,
            b,
        ) < #[trigger] pair_dist(goal, ua, ub, a2, b2)
}

/// `(a, b)` is the first candidate pair, in search order, at the least
/// distance to the goal.
pub open spec fn is_first_closest_pair(goal: int, ua: int, ub: int, max: int, a: int, b: int) -> bool {
    is_first_closest_pair_upto(goal, ua, ub, max, window_hi(goal, ua, max), a, b)
}

/// The pair that the two-level search picks.
pub open spec fn closest_pair(goal: int, ua: int, ub: int, max: int) -> (int, int) {
    choose|a: int, b: int| is_first_closest_pair(goal, ua, ub, max, a, b)
}

/// At most one pair is the first closest one.
pub proof fn lemma_first_closest_pair_unique(
    goal: int,
    ua: int,
    ub: int,
    max: int,
    a: int,
    b: int,
    a2: int,
    b2: int,
)
    requires
        is_first_closest_pair(goal, ua, ub, max, a, b),
        is_first_closest_pair(goal, ua, ub, max, a2, b2),
    ensures
        a == a2 && b == b2,
{
    if lex_before(a2, b2, a, b) {
        assert(pair_dist(goal, ua, ub, a, b) < pair_dist(goal, ua, ub, a2, b2));
        assert(pair_dist(goal, ua, ub, a2, b2) <= pair_dist(goal, ua, ub, a, b));
    } else if lex_before(a, b, a2, b2) {
        assert(pair_dist(goal, ua, ub, a2, b2) < pair_dist(goal, ua, ub, a, b));
        assert(pair_dist(goal, ua, ub, a, b) <= pair_dist(goal, ua, ub, a2, b2));
    }
}

/// A witness of the first-closest-pair property is what `closest_pair` names.
pub proof fn lemma_closest_pair_is(goal: int, ua: int, ub: int, max: int, a: int, b: int)
    requires
        is_first_closest_pair(goal, ua, ub, max, a, b),
    ensures
        closest_pair(goal, ua, ub, max) == (a, b),
{
    let c = closest_pair(goal, ua, ub, max);
    assert(is_first_closest_pair(goal, ua, ub, max, c.0, c.1));
    lemma_first_closest_pair_unique(goal, ua, ub, max, c.0, c.1, a, b);
}

/// The two-level search over first components up to `lim` has a first
/// closest pair.
proof fn lemma_pair_upto_exists(goal: int, ua: int, ub: int, max: int, lim: int) -> (r: (int, int))
    requires
        ua > 0,
        ub > 0,
        max >= 0,
        window_lo(goal, ua, max) <= lim <= window_hi(goal, ua, max),
    ensures
        is_first_closest_pair_upto(goal, ua, ub, max, lim, r.0, r.1),
    decreases lim - window_lo(goal, ua, max),
{
    lemma_window_ordered(goal, ua, max);
    let ig = goal - ua * lim;
    let (l, h) = (window_lo(ig, ub, max - lim), window_hi(ig, ub, max - lim));
    lemma_window_ordered(ig, ub, max - lim);
    lemma_first_closest_exists(ig, ub, l, h);
    let b = first_closest(ig, ub, l, h);
    if lim == window_lo(goal, ua, max) {
        assert forall|a2: int, b2: int|
            pair_candidate(goal, ua, ub, max, a2, b2) && a2 <= lim implies pair_dist(
                goal,
                ua,
                ub,
                lim,
                b,
            ) <= #[trigger] pair_dist(goal, ua, ub, a2, b2) by {
            assert(dist_at(ig, ub, b) <= dist_at(ig, ub, b2));
        }
        assert forall|a2: int, b2: int|
            pair_candidate(goal, ua, ub, max, a2, b2) && lex_before(
                a2,
                b2,
                lim,
                b,
            ) implies pair_dist(goal, ua, ub, lim, b) < #[trigger] pair_dist(goal, ua, ub, a2, b2) by {
            assert(dist_at(ig, ub, b) < dist_at(ig, ub, b2));
        }
        (lim, b)
    } else {
        let prev = lemma_pair_upto_exists(goal, ua, ub, max, lim - 1);
        if pair_dist(goal, ua, ub, lim, b) < pair_dist(goal, ua, ub, prev.0, prev.1) {
            assert forall|a2: int, b2: int|
                pair_candidate(goal, ua, ub, max, a2, b2) && a2 <= lim implies pair_dist(
                    goal,
                    ua,
                    ub,
                    lim,
                    b,
                ) <= #[trigger] pair_dist(goal, ua, ub, a2, b2) by {
                if a2 == lim {
                    assert(dist_at(ig, ub, b) <= dist_at(ig, ub, b2));
                }
            }
            assert forall|a2: int, b2: int|
                pair_candidate(goal, ua, ub, max, a2, b2) && lex_before(
                    a2,
                    b2,
                    lim,
                    b,
                ) implies pair_dist(goal, ua, ub, lim, b) < #[trigger] pair_dist(
                    goal,
                    ua,
                    ub,
                    a2,
                    b2,
                ) by {
                if a2 == lim {
                    assert(dist_at(ig, ub, b) < dist_at(ig, ub, b2));
                }
            }
            (lim, b)
        } else {
            assert forall|a2: int, b2: int|
                pair_candidate(goal, ua, ub, max, a2, b2) && a2 <= lim implies pair_dist(
                    goal,
                    ua,
                    ub,
                    prev.0,
                    prev.1,
                ) <= #[trigger] pair_dist(goal, ua, ub, a2, b2) by {
                if a2 == lim {
                    assert(dist_at(ig, ub, b) <= dist_at(ig, ub, b2));
                }
            }
            prev
        }
    }
}

/// Every two-level search has a first closest pair.
pub proof fn lemma_closest_pair_exists(goal: int, ua: int, ub: int, max: int)
    requires
        ua > 0,
        ub > 0,
        max >= 0,
    ensures
        is_first_closest_pair(
            goal,
            ua,
            ub,
            max,
            closest_pair(goal, ua, ub, max).0,
            closest_pair(goal, ua, ub, max).1,
        ),
{
    lemma_window_ordered(goal, ua, max);
    let r = lemma_pair_upto_exists(goal, ua, ub, max, window_hi(goal, ua, max));
    lemma_closest_pair_is(goal, ua, ub, max, r.0, r.1);
}

/// `(a, b)` is any split of at most `max` objects: `a` of the first kind, `b`
/// of the second.
pub open spec fn full_candidate(max: int, a: int, b: int) -> bool {
    0 <= a <= max && 0 <= b <= max - a
}

/// `(a, b)` is the first pair, in search order, among all splits whose first
/// component is at most `lim`, at the least distance to the goal.
pub open spec fn is_first_closest_full_upto(
    goal: int,
    ua: int,
    ub: int,
    max: int,
    lim: int,
    a: int,
    b: int,
) -> bool {
    &&& full_candidate(max, a, b)
    &&& a <= lim
    &&& forall|a2: int, b2: int|
        full_candidate(max, a2, b2) && a2 <= lim ==> pair_dist(goal, ua, ub, a, b)
            <= #[trigger] pair_dist(goal, ua, ub, a2, b2)
    &&& forall|a2: int, b2: int|
        full_candidate(max, a2, b2) && lex_before(a2, b2, a, b) ==> pair_dist(goal, ua, ub, a, b)
            < #[trigger] pair_dist(goal, ua, ub, a2, b2)
}

/// `(a, b)` is the first split of all, in search order, at the least distance
/// to the goal: what an exhaustive search would pick.
pub open spec fn is_first_closest_full(goal: int, ua: int, ub: int, max: int, a: int, b: int) -> bool {
    is_first_closest_full_upto(goal, ua, ub, max, max, a, b)
}

/// The split that an exhaustive search would pick.
pub open spec fn closest_pair_full(goal: int, ua: int, ub: int, max: int) -> (int, int) {
    choose|a: int, b: int| is_first_closest_full(goal, ua, ub, max, a, b)
}

proof fn lemma_full_upto_exists(goal: int, ua: int, ub: int, max: int, lim: int) -> (r: (int, int))
    requires
        ub > 0,
        0 <= lim <= max,
    ensures
        is_first_closest_full_upto(goal, ua, ub, max, lim, r.0, r.1),
    decreases lim,
{
    let ig = goal - ua * lim;
    lemma_first_closest_exists(ig, ub, 0, max - lim);
    let b = first_closest(ig, ub, 0, max - lim);
    if lim == 0 {
        assert forall|a2: int, b2: int|
            full_candidate(max, a2, b2) && a2 <= lim implies pair_dist(goal, ua, ub, lim, b)
            <= #[trigger] pair_dist(goal, ua, ub, a2, b2) by {
            assert(dist_at(ig, ub, b) <= dist_at(ig, ub, b2));
        }
        assert forall|a2: int, b2: int|
            full_candidate(max, a2, b2) && lex_before(a2, b2, lim, b) implies pair_dist(
                goal,
                ua,
                ub,
                lim,
                b,
            ) < #[trigger] pair_dist(goal, ua, ub, a2, b2) by {
            assert(dist_at(ig, ub, b) < dist_at(ig, ub, b2));
        }
        (lim, b)
    } else {
        let prev = lemma_full_upto_exists(goal, ua, ub, max, lim - 1);
        if pair_dist(goal, ua, ub, lim, b) < pair_dist(goal, ua, ub, prev.0, prev.1) {
            assert forall|a2: int, b2: int|
                full_candidate(max, a2, b2) && a2 <= lim implies pair_dist(goal, ua, ub, lim, b)
                <= #[trigger] pair_dist(goal, ua, ub, a2, b2) by {
                if a2 == lim {
                    assert(dist_at(ig, ub, b) <= dist_at(ig, ub, b2));
                }
            }
            assert forall|a2: int, b2: int|
                full_candidate(max, a2, b2) && lex_before(a2, b2, lim, b) implies pair_dist(
                    goal,
                    ua,
                    ub,
                    lim,
                    b,
                ) < #[trigger] pair_dist(goal, ua, ub, a2, b2) by {
                if a2 == lim {
                    assert(dist_at(ig, ub, b) < dist_at(ig, ub, b2));
                }
            }
            (lim, b)
        } else {
            assert forall|a2: int, b2: int|
                full_candidate(max, a2, b2) && a2 <= lim implies pair_dist(
                    goal,
                    ua,
                    ub,
                    prev.0,
                    prev.1,
                ) <= #[trigger] pair_dist(goal, ua, ub, a2, b2) by {
                if a2 == lim {
                    assert(dist_at(ig, ub, b) <= dist_at(ig, ub, b2));
                }
            }
            prev
        }
    }
}

/// An exhaustive search over all splits has a first closest split.
pub proof fn lemma_closest_pair_full_exists(goal: int, ua: int, ub: int, max: int)
    requires
        ub > 0,
        max >= 0,
    ensures
        is_first_closest_full(
            goal,
            ua,
            ub,
            max,
            closest_pair_full(goal, ua, ub, max).0,
            closest_pair_full(goal, ua, ub, max).1,
        ),
{
    let r = lemma_full_upto_exists(goal, ua, ub, max, max);
    assert(is_first_closest_full(goal, ua, ub, max, r.0, r.1));
    let c = closest_pair_full(goal, ua, ub, max);
    assert(is_first_closest_full(goal, ua, ub, max, c.0, c.1));
}

/// Distance of the weighted count `k` to the goal.
pub open spec fn kdist(goal: int, u: int, k: int) -> int {
    abs(goal - u * k)
}

proof fn lemma_pair_dist_k(goal: int, u: int, a: int, b: int)
    ensures
        pair_dist(goal, 5 * u, u, a, b) == kdist(goal, u, 5 * a + b),
{
    assert((5 * u) * a + u * b == u * (5 * a + b)) by (nonlinear_arith);
}

proof fn lemma_mul_lt(u: int, x: int, y: int)
    requires
        u > 0,
        x < y,
    ensures
        u * x < u * y,
{
    assert(u * x < u * y) by (nonlinear_arith)
        requires
            u > 0,
            x < y,
    ;
}

/// The first closest `b` of the inner search at `a`, over all of `0..=max - a`.
pub open spec fn inner_pick(goal: int, u: int, max: int, a: int) -> int {
    closest_in_window(goal - (5 * u) * a, u, max - a)
}

proof fn lemma_inner_pick(goal: int, u: int, max: int, a: int)
    requires
        u > 0,
        0 <= a <= max,
    ensures
        is_first_closest(goal - (5 * u) * a, u, 0, max - a, inner_pick(goal, u, max, a)),
        is_first_closest(
            goal - (5 * u) * a,
            u,
            window_lo(goal - (5 * u) * a, u, max - a),
            window_hi(goal - (5 * u) * a, u, max - a),
            inner_pick(goal, u, max, a),
        ),
{
    let ig = goal - (5 * u) * a;
    lemma_window_is_global(ig, u, max - a);
    lemma_window_ordered(ig, u, max - a);
    lemma_first_closest_exists(ig, u, window_lo(ig, u, max - a), window_hi(ig, u, max - a));
}

/// Below the window, no first component does better than the window's lowest
/// one, and where it does as well it reaches the same weighted count.
proof fn lemma_below_window(goal: int, u: int, max: int, a: int)
    requires
        u > 0,
        max >= 0,
        0 <= a < window_lo(goal, 5 * u, max),
    ensures
        ({
            let lo = window_lo(goal, 5 * u, max);
            let ka = 5 * a + inner_pick(goal, u, max, a);
            let kl = 5 * lo + inner_pick(goal, u, max, lo);
            kdist(goal, u, ka) > kdist(goal, u, kl) || ka == kl
        }),
{
    let lo = window_lo(goal, 5 * u, max);
    lemma_window_ordered(goal, 5 * u, max);
    lemma_floor_ceil(goal, 5 * u);
    let f = floor_pos(goal, 5 * u);
    assert(goal > 0);
    assert(lo <= f);
    assert((5 * u) * lo <= (5 * u) * f) by (nonlinear_arith)
        requires
            u > 0,
            lo <= f,
    ;
    assert(u * (5 * lo) <= goal) by (nonlinear_arith)
        requires
            (5 * u) * lo <= goal,
    ;
    lemma_inner_pick(goal, u, max, a);
    lemma_inner_pick(goal, u, max, lo);
    let ba = inner_pick(goal, u, max, a);
    let bl = inner_pick(goal, u, max, lo);
    let ka = 5 * a + ba;
    let kl = 5 * lo + bl;
    let iga = goal - (5 * u) * a;
    let igl = goal - (5 * u) * lo;
    lemma_pair_dist_k(goal, u, a, ba);
    lemma_pair_dist_k(goal, u, lo, bl);
    assert(dist_at(iga, u, ba) == kdist(goal, u, ka));
    assert(dist_at(igl, u, bl) == kdist(goal, u, kl));
    if lo == max {
        assert(bl == 0);
        assert(ka < 5 * max);
        lemma_mul_lt(u, ka, 5 * lo);
    } else if ka < 5 * lo {
        lemma_mul_lt(u, ka, 5 * lo);
        lemma_pair_dist_k(goal, u, lo, 0);
        assert(dist_at(igl, u, 0) == kdist(goal, u, 5 * lo));
        assert(dist_at(igl, u, bl) <= dist_at(igl, u, 0));
    } else {
        let b1 = ka - 5 * lo;
        assert(0 <= b1 <= max - lo);
        lemma_pair_dist_k(goal, u, lo, b1);
        assert(dist_at(igl, u, b1) == kdist(goal, u, ka));
        assert(dist_at(igl, u, bl) <= dist_at(igl, u, b1));
        if kdist(goal, u, ka) == kdist(goal, u, kl) {
            if ka < kl {
                assert(dist_at(igl, u, bl) < dist_at(igl, u, b1));
            } else if kl < ka {
                let b2 = kl - 5 * a;
                assert(0 <= b2 < ba);
                lemma_pair_dist_k(goal, u, a, b2);
                assert(dist_at(iga, u, b2) == kdist(goal, u, kl));
                assert(dist_at(iga, u, ba) < dist_at(iga, u, b2));
            }
        }
    }
}

/// Above the window, every first component does worse than the window's
/// highest one.
proof fn lemma_above_window(goal: int, u: int, max: int, a: int)
    requires
        u > 0,
        window_hi(goal, 5 * u, max) < a <= max,
    ensures
        ({
            let hi = window_hi(goal, 5 * u, max);
            kdist(goal, u, 5 * a + inner_pick(goal, u, max, a)) > kdist(
                goal,
                u,
                5 * hi + inner_pick(goal, u, max, hi),
            )
        }),
{
    let hi = window_hi(goal, 5 * u, max);
    lemma_window_ordered(goal, 5 * u, max);
    lemma_floor_ceil(goal, 5 * u);
    assert(hi == ceil_pos(goal, 5 * u));
    assert((5 * u) * hi == u * (5 * hi)) by (nonlinear_arith);
    assert(u * (5 * hi) >= goal);
    lemma_inner_pick(goal, u, max, a);
    lemma_inner_pick(goal, u, max, hi);
    let ba = inner_pick(goal, u, max, a);
    let bh = inner_pick(goal, u, max, hi);
    let ka = 5 * a + ba;
    lemma_mul_lt(u, 5 * hi, ka);
    let igh = goal - (5 * u) * hi;
    lemma_pair_dist_k(goal, u, hi, 0);
    lemma_pair_dist_k(goal, u, hi, bh);
    assert(dist_at(igh, u, bh) <= dist_at(igh, u, 0));
}

/// The two-level window search reaches the same weighted count `5 * a + b` as
/// an exhaustive search over all splits, where the first kind weighs five
/// times the second (`ua == 5 * ub`).
pub proof fn lemma_window_pair_matches_full(goal: int, u: int, max: int)
    requires
        u > 0,
        max >= 0,
    ensures
        ({
            let w = closest_pair(goal, 5 * u, u, max);
            let f = closest_pair_full(goal, 5 * u, u, max);
            5 * w.0 + w.1 == 5 * f.0 + f.1
        }),
{
    let ua = 5 * u;
    lemma_closest_pair_exists(goal, ua, u, max);
    lemma_closest_pair_full_exists(goal, ua, u, max);
    lemma_window_ordered(goal, ua, max);
    let (af, bf) = closest_pair(goal, ua, u, max);
    let (ab, bb) = closest_pair_full(goal, ua, u, max);
    let lo = window_lo(goal, ua, max);
    let hi = window_hi(goal, ua, max);
    // The window pick's second component is the inner first closest one.
    lemma_inner_pick(goal, u, max, af);
    let igf = goal - ua * af;
    assert(is_first_closest(
        igf,
        u,
        window_lo(igf, u, max - af),
        window_hi(igf, u, max - af),
        bf,
    )) by {
        assert forall|y: int|
            window_lo(igf, u, max - af) <= y <= window_hi(igf, u, max - af) implies dist_at(
            igf,
            u,
            bf,
        ) <= #[trigger] dist_at(igf, u, y) by {
            assert(pair_candidate(goal, ua, u, max, af, y));
            assert(pair_dist(goal, ua, u, af, bf) <= pair_dist(goal, ua, u, af, y));
        }
        assert forall|y: int|
            window_lo(igf, u, max - af) <= y < bf implies dist_at(igf, u, bf) < #[trigger] dist_at(
            igf,
            u,
            y,
        ) by {
            assert(pair_candidate(goal, ua, u, max, af, y));
            assert(pair_dist(goal, ua, u, af, bf) < pair_dist(goal, ua, u, af, y));
        }
    }
    lemma_first_closest_unique(
        igf,
        u,
        window_lo(igf, u, max - af),
        window_hi(igf, u, max - af),
        bf,
        inner_pick(goal, u, max, af),
    );
    // The exhaustive pick's second component is the inner first closest one.
    lemma_inner_pick(goal, u, max, ab);
    let igb = goal - ua * ab;
    assert(is_first_closest(igb, u, 0, max - ab, bb)) by {
        assert forall|y: int| 0 <= y <= max - ab implies dist_at(igb, u, bb) <= #[trigger] dist_at(
            igb,
            u,
            y,
        ) by {
            assert(full_candidate(max, ab, y));
            assert(pair_dist(goal, ua, u, ab, bb) <= pair_dist(goal, ua, u, ab, y));
        }
        assert forall|y: int| 0 <= y < bb implies dist_at(igb, u, bb) < #[trigger] dist_at(
            igb,
            u,
            y,
        ) by {
            assert(full_candidate(max, ab, y));
            assert(pair_dist(goal, ua, u, ab, bb) < pair_dist(goal, ua, u, ab, y));
        }
    }
    lemma_first_closest_unique(igb, u, 0, max - ab, bb, inner_pick(goal, u, max, ab));
    lemma_pair_dist_k(goal, u, af, bf);
    lemma_pair_dist_k(goal, u, ab, bb);
    if ab < lo {
        lemma_below_window(goal, u, max, ab);
        let bl = inner_pick(goal, u, max, lo);
        lemma_inner_pick(goal, u, max, lo);
        lemma_pair_dist_k(goal, u, lo, bl);
        assert(full_candidate(max, lo, bl));
        assert(pair_dist(goal, ua, u, ab, bb) <= pair_dist(goal, ua, u, lo, bl));
        if af != lo {
            assert(pair_candidate(goal, ua, u, max, lo, bl));
            assert(pair_dist(goal, ua, u, af, bf) < pair_dist(goal, ua, u, lo, bl));
            assert(full_candidate(max, af, bf));
            assert(pair_dist(goal, ua, u, ab, bb) <= pair_dist(goal, ua, u, af, bf));
        }
    } else if ab > hi {
        lemma_above_window(goal, u, max, ab);
        let bh = inner_pick(goal, u, max, hi);
        lemma_inner_pick(goal, u, max, hi);
        lemma_pair_dist_k(goal, u, hi, bh);
        assert(full_candidate(max, hi, bh));
        assert(pair_dist(goal, ua, u, ab, bb) <= pair_dist(goal, ua, u, hi, bh));
    } else {
        assert(pair_candidate(goal, ua, u, max, ab, bb));
        assert(is_first_closest_pair(goal, ua, u, max, ab, bb)) by {
            assert forall|a2: int, b2: int|
                pair_candidate(goal, ua, u, max, a2, b2) && a2 <= hi implies pair_dist(
                    goal,
                    ua,
                    u,
                    ab,
                    bb,
                ) <= #[trigger] pair_dist(goal, ua, u, a2, b2) by {
                lemma_window_ordered(goal - ua * a2, u, max - a2);
                assert(full_candidate(max, a2, b2));
            }
            assert forall|a2: int, b2: int|
                pair_candidate(goal, ua, u, max, a2, b2) && lex_before(
                    a2,
                    b2,
                    ab,
                    bb,
                ) implies pair_dist(goal, ua, u, ab, bb) < #[trigger] pair_dist(
                    goal,
                    ua,
                    u,
                    a2,
                    b2,
                ) by {
                lemma_window_ordered(goal - ua * a2, u, max - a2);
                assert(full_candidate(max, a2, b2));
            }
        }
        lemma_first_closest_pair_unique(goal, ua, u, max, af, bf, ab, bb);
    }
}

/// Bounds under which the two-level search cannot overflow.
pub open spec fn pair_search_bounds(goal: int, ua: int, ub: int) -> bool {
    &&& -0x1000_0000_0000_0000_0000_0000_0000 < goal < 0x1000_0000_0000_0000_0000_0000_0000
    &&& 0 < ua < 0x1_0000_0000_0000_0000_00
    &&& 0 < ub < 0x1_0000_0000_0000_0000_00
}

proof fn lemma_inner_bounds(goal: int, ua: int, ub: int, a: int)
    requires
        pair_search_bounds(goal, ua, ub),
        0 <= a < 0x1_0000_0000,
    ensures
        search_bounds(goal - ua * a, ub),
{
    assert(0 <= ua * a <= 0x1_0000_0000_0000_0000_00 * 0x1_0000_0000) by (nonlinear_arith)
        requires
            0 < ua < 0x1_0000_0000_0000_0000_00,
            0 <= a < 0x1_0000_0000,
    ;
}

/// The first pair, in search order, of the two-level window whose distance to
/// the goal is least.
pub fn closest_pair_count(goal: i128, ua: i128, ub: i128, max: u32) -> (r: (u32, u32))
    requires
        pair_search_bounds(goal as int, ua as int, ub as int),
    ensures
        (r.0 as int, r.1 as int) == closest_pair(goal as int, ua as int, ub as int, max as int),
        r.0 as int + r.1 as int <= max,
{
    let ghost g = goal as int;
    let ghost u = ua as int;
    let ghost v = ub as int;
    let ghost m = max as int;
    proof {
        assert(search_bounds(g, u));
    }
    let (lo, hi) = window(goal, ua, max);
    proof {
        lemma_inner_bounds(g, u, v, lo as int);
    }
    let mut best_a = lo;
    let mut best_b = closest_count(goal - ua * (lo as i128), ub, max - lo);
    proof {
        let (l, h) = (window_lo(g - u * lo, v, m - lo), window_hi(g - u * lo, v, m - lo));
        lemma_window_ordered(g - u * lo, v, m - lo);
        lemma_first_closest_exists(g - u * lo, v, l, h);
        assert forall|a2: int, b2: int|
            pair_candidate(g, u, v, m, a2, b2) && a2 <= lo implies pair_dist(
                g,
                u,
                v,
                lo as int,
                best_b as int,
            ) <= #[trigger] pair_dist(g, u, v, a2, b2) by {
            assert(dist_at(g - u * lo, v, best_b as int) <= dist_at(g - u * lo, v, b2));
        }
        assert forall|a2: int, b2: int|
            pair_candidate(g, u, v, m, a2, b2) && lex_before(
                a2,
                b2,
                lo as int,
                best_b as int,
            ) implies pair_dist(g, u, v, lo as int, best_b as int) < #[trigger] pair_dist(
                g,
                u,
                v,
                a2,
                b2,
            ) by {
            assert(dist_at(g - u * lo, v, best_b as int) < dist_at(g - u * lo, v, b2));
        }
    }
    let mut best_d = exec_dist(goal - ua * (lo as i128), ub, best_b);
    let mut a: u64 = lo as u64 + 1;
    while a <= hi as u64
        invariant
            pair_search_bounds(g, u, v),
            search_bounds(g, u),
            g == goal,
            u == ua,
            v == ub,
            m == max,
            lo == window_lo(g, u, m),
            hi == window_hi(g, u, m),
            lo <= hi <= max,
            lo < a <= hi as int + 1,
            is_first_closest_pair_upto(g, u, v, m, a - 1, best_a as int, best_b as int),
            best_d == pair_dist(g, u, v, best_a as int, best_b as int),
        decreases hi as int + 1 - a,
    {
        let ai = a as u32;
        proof {
            lemma_inner_bounds(g, u, v, ai as int);
        }
        let inner = goal - ua * (ai as i128);
        let b = closest_count(inner, ub, max - ai);
        let d = exec_dist(inner, ub, b);
        proof {
            let (l, h) = (window_lo(g - u * ai, v, m - ai), window_hi(g - u * ai, v, m - ai));
            lemma_window_ordered(g - u * ai, v, m - ai);
            lemma_first_closest_exists(g - u * ai, v, l, h);
        }
        if d < best_d {
            proof {
                assert forall|a2: int, b2: int|
                    pair_candidate(g, u, v, m, a2, b2) && a2 <= ai implies pair_dist(
                        g,
                        u,
                        v,
                        ai as int,
                        b as int,
                    ) <= #[trigger] pair_dist(g, u, v, a2, b2) by {
                    if a2 == ai {
                        assert(dist_at(g - u * ai, v, b as int) <= dist_at(g - u * ai, v, b2));
                    }
                }
                assert forall|a2: int, b2: int|
                    pair_candidate(g, u, v, m, a2, b2) && lex_before(
                        a2,
                        b2,
                        ai as int,
                        b as int,
                    ) implies pair_dist(g, u, v, ai as int, b as int) < #[trigger] pair_dist(
                        g,
                        u,
                        v,
                        a2,
                        b2,
                    ) by {
                    if a2 == ai {
                        assert(dist_at(g - u * ai, v, b as int) < dist_at(g - u * ai, v, b2));
                    }
                }
            }
            best_a = ai;
            best_b = b;
            best_d = d;
        } else {
            proof {
                assert forall|a2: int, b2: int|
                    pair_candidate(g, u, v, m, a2, b2) && a2 <= ai implies pair_dist(
                        g,
                        u,
                        v,
                        best_a as int,
                        best_b as int,
                    ) <= #[trigger] pair_dist(g, u, v, a2, b2) by {
                    if a2 == ai {
                        assert(dist_at(g - u * ai, v, b as int) <= dist_at(g - u * ai, v, b2));
                    }
                }
            }
        }
        a = a + 1;
    }
    proof {
        lemma_closest_pair_is(g, u, v, m, best_a as int, best_b as int);
    }
    (best_a, best_b)
}

} // verus!
