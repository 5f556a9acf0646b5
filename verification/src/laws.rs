//! Laws of the hitresult generation.
use vstd::prelude::*;

use crate::performance::{
    rebalance, sat_sub, Accuracy, HitObjectCounts, HitResultPriority, OsuPerformance,
};
use crate::score_state::{NoComboState, OsuScoreOrigin, OsuScoreState};
use crate::search::{
    abs, closest_in_window, closest_pair, closest_pair_full, dist_at, full_candidate,
    lemma_closest_pair_exists, lemma_closest_pair_full_exists, lemma_first_closest_exists,
    lemma_window_is_global, lemma_window_ordered, lemma_window_pair_matches_full, lex_before,
    pair_candidate, pair_dist, window_hi, window_lo,
};

verus! {

/// The generated counts stay within the non-missed objects and, with the
/// misses, account for every covered object.
pub open spec fn counts_fit(perf: OsuPerformance, attrs: HitObjectCounts) -> bool {
    let (a, b, c) = perf.counts_for(attrs);
    let nr = perf.remaining_for(attrs);
    &&& 0 <= a <= nr
    &&& 0 <= b <= nr
    &&& 0 <= c <= nr
    &&& a + b + c + perf.misses_for(attrs) >= perf.n_objects_for(attrs)
}

proof fn lemma_window_pick(goal: int, unit: int, max: int)
    requires
        unit > 0,
        max >= 0,
    ensures
        0 <= closest_in_window(goal, unit, max) <= max,
{
    lemma_window_ordered(goal, unit, max);
    lemma_first_closest_exists(goal, unit, window_lo(goal, unit, max), window_hi(goal, unit, max));
}

proof fn lemma_counts_fit(perf: OsuPerformance, attrs: HitObjectCounts)
    requires
        perf.generation_ok(attrs),
    ensures
        counts_fit(perf, attrs),
{
    let nr = perf.remaining_for(attrs);
    let n0 = perf.n_objects_for(attrs);
    assert(0 <= nr <= n0);
    match perf.acc {
        None => {},
        Some(acc) => {
            let ad = acc.denominator as int;
            let (c300, c100, c50) = perf.given_for(attrs);
            let sav = perf.slider_acc_for(attrs);
            let ms = perf.misses_for(attrs);
            if perf.n300 is Some && perf.n100 is Some && perf.n50 is Some {
            } else if perf.n300 is Some && perf.n100 is Some {
            } else if perf.n300 is Some && perf.n50 is Some {
            } else if perf.n100 is Some && perf.n50 is Some {
            } else if perf.n300 is Some {
                let nr2 = nr - c300;
                lemma_window_pick(perf.goal_for(attrs, acc, 50 * nr2 + 300 * c300 + sav), 50 * ad, nr2);
            } else if perf.n100 is Some {
                let nr2 = nr - c100;
                lemma_window_pick(perf.goal_for(attrs, acc, 50 * nr2 + 100 * c100 + sav), 250 * ad, nr2);
            } else if perf.n50 is Some {
                let nr2 = nr - c50;
                lemma_window_pick(
                    perf.goal_for(attrs, acc, 100 * n0 + sav - 100 * ms - 50 * c50),
                    200 * ad,
                    nr2,
                );
            } else {
                let goal = perf.goal_for(attrs, acc, 50 * nr + sav);
                lemma_closest_pair_exists(goal, 250 * ad, 50 * ad, nr);
                let (a, b) = closest_pair(goal, 250 * ad, 50 * ad, nr);
                assert(pair_candidate(goal, 250 * ad, 50 * ad, nr, a, b));
                lemma_window_ordered(goal, 250 * ad, nr);
                lemma_window_ordered(goal - 250 * ad * a, 50 * ad, nr - a);
                assert(0 <= a && 0 <= b && a + b <= nr);
                let c = nr - a - b;
                assert(4 * (c / 4) <= c);
            }
        },
    }
}

/// Every generated state stays within the map: no more misses than covered
/// objects, no hitresult count beyond the non-missed objects, all counts
/// together account for every covered object, the combo does not exceed the
/// map's maximum combo minus the misses, and slider judgements stay within
/// what the map has (and are 0 on osu!stable).
pub proof fn law_generated_state_bounds(perf: OsuPerformance, attrs: HitObjectCounts)
    requires
        perf.generation_ok(attrs),
    ensures
        ({
            let s = perf.generated_state(attrs);
            let n0 = perf.n_objects_for(attrs);
            &&& n0 <= perf.passed_objects && n0 <= attrs.n_objects_spec()
            &&& s.misses <= n0
            &&& s.n300 + s.misses <= n0
            &&& s.n100 + s.misses <= n0
            &&& s.n50 + s.misses <= n0
            &&& s.total_hits_spec() >= n0
            &&& s.max_combo <= sat_sub(attrs.max_combo as int, s.misses as int)
            &&& s.slider_end_hits <= attrs.n_sliders
            &&& s.large_tick_hits <= attrs.n_sliders + attrs.n_large_ticks
            &&& perf.lazer && !perf.classic ==> s.large_tick_hits <= attrs.n_large_ticks
            &&& !perf.lazer ==> s.slider_end_hits == 0 && s.large_tick_hits == 0
        }),
{
    lemma_counts_fit(perf, attrs);
}

/// Generating hitresults a second time, from the parameters that the first
/// generation filled in, gives the same state and leaves the parameters as
/// they are.
pub proof fn law_generate_state_idempotent(perf: OsuPerformance, attrs: HitObjectCounts)
    requires
        perf.generation_ok(attrs),
    ensures
        ({
            let s = perf.generated_state(attrs);
            let again = perf.with_state(s);
            &&& again.generation_ok(attrs)
            &&& again.generated_state(attrs) == s
            &&& again.with_state(again.generated_state(attrs)) == again
        }),
{
    lemma_counts_fit(perf, attrs);
    let s = perf.generated_state(attrs);
    let again = perf.with_state(s);
    assert(again.n_objects_for(attrs) == perf.n_objects_for(attrs));
    assert(again.misses_for(attrs) == perf.misses_for(attrs));
    assert(again.given_for(attrs) == perf.counts_for(attrs));
    assert(again.unaccounted_for(attrs) == 0);
    assert(again.counts_for(attrs) == perf.counts_for(attrs));
    assert(again.generated_state(attrs) == s);
}

/// How far the accuracy of `st` is from the target `acc`, cross-multiplied:
/// `|acc - accuracy(st)|` scaled by `acc.denominator * accuracy_denominator(st)`.
/// Among states with the same accuracy denominator it orders them by their
/// distance to the target.
pub open spec fn accuracy_gap(acc: Accuracy, st: NoComboState, origin: OsuScoreOrigin) -> int {
    abs(acc.numerator * st.accuracy_denominator(origin) - acc.denominator
        * st.accuracy_numerator(origin))
}

/// `st` is at most as far from the target as every state in `cands`, and
/// strictly closer than the states in `earlier`.
pub open spec fn closest_among(
    acc: Accuracy,
    origin: OsuScoreOrigin,
    st: NoComboState,
    cand: spec_fn(int) -> NoComboState,
    max: int,
    first: int,
) -> bool {
    forall|y: int|
        0 <= y <= max ==> accuracy_gap(acc, st, origin) <= #[trigger] accuracy_gap(
            acc,
            cand(y),
            origin,
        ) && (y < first ==> accuracy_gap(acc, st, origin) < accuracy_gap(acc, cand(y), origin))
}

proof fn lemma_gap_is_dist(an: int, ad: int, den: int, base: int, k: int, y: int)
    ensures
        abs(an * den - ad * (base + k * y)) == dist_at(an * den - ad * base, k * ad, y),
{
    assert(ad * (base + k * y) == ad * base + (k * ad) * y) by (nonlinear_arith);
}

/// With a target accuracy and only the 300s given, the 100s and 50s are the
/// split of the remaining objects whose accuracy is closest to the target,
/// and among equally close splits the one with the fewest 100s.
pub proof fn law_closest_split_given_n300(perf: OsuPerformance, attrs: HitObjectCounts)
    requires
        perf.generation_ok(attrs),
        perf.acc is Some,
        perf.n300 is Some,
        perf.n100 is None,
        perf.n50 is None,
    ensures
        ({
            let s = perf.generated_state(attrs);
            closest_among(
                perf.acc->0,
                perf.origin_for(attrs),
                s.no_combo_spec(),
                |y: int|
                    NoComboState { n100: y as u32, n50: (s.n100 + s.n50 - y) as u32, ..s.no_combo_spec() },
                s.n100 + s.n50,
                s.n100 as int,
            )
        }),
{
    lemma_counts_fit(perf, attrs);
    let acc = perf.acc->0;
    let ad = acc.denominator as int;
    let s = perf.generated_state(attrs);
    let origin = perf.origin_for(attrs);
    let (c300, c100, c50) = perf.given_for(attrs);
    let nr2 = perf.remaining_for(attrs) - c300;
    let sav = perf.slider_acc_for(attrs);
    let base = 50 * nr2 + 300 * c300 + sav;
    let goal = perf.goal_for(attrs, acc, base);
    let den = perf.acc_denominator_for(attrs);
    lemma_window_is_global(goal, 50 * ad, nr2);
    let cand = |y: int|
        NoComboState { n100: y as u32, n50: (s.n100 + s.n50 - y) as u32, ..s.no_combo_spec() };
    assert forall|y: int| 0 <= y <= nr2 implies #[trigger] accuracy_gap(acc, cand(y), origin) == dist_at(
        goal,
        50 * ad,
        y,
    ) by {
        assert(cand(y).accuracy_denominator(origin) == den);
        assert(cand(y).accuracy_numerator(origin) == base + 50 * y);
        lemma_gap_is_dist(acc.numerator as int, ad, den, base, 50, y);
    }
    assert(cand(s.n100 as int) == s.no_combo_spec());
}

/// With a target accuracy and only the 100s given, the 300s and 50s are the
/// split of the remaining objects whose accuracy is closest to the target,
/// and among equally close splits the one with the fewest 300s.
pub proof fn law_closest_split_given_n100(perf: OsuPerformance, attrs: HitObjectCounts)
    requires
        perf.generation_ok(attrs),
        perf.acc is Some,
        perf.n300 is None,
        perf.n100 is Some,
        perf.n50 is None,
    ensures
        ({
            let s = perf.generated_state(attrs);
            closest_among(
                perf.acc->0,
                perf.origin_for(attrs),
                s.no_combo_spec(),
                |y: int|
                    NoComboState { n300: y as u32, n50: (s.n300 + s.n50 - y) as u32, ..s.no_combo_spec() },
                s.n300 + s.n50,
                s.n300 as int,
            )
        }),
{
    lemma_counts_fit(perf, attrs);
    let acc = perf.acc->0;
    let ad = acc.denominator as int;
    let s = perf.generated_state(attrs);
    let origin = perf.origin_for(attrs);
    let (c300, c100, c50) = perf.given_for(attrs);
    let nr2 = perf.remaining_for(attrs) - c100;
    let sav = perf.slider_acc_for(attrs);
    let base = 50 * nr2 + 100 * c100 + sav;
    let goal = perf.goal_for(attrs, acc, base);
    let den = perf.acc_denominator_for(attrs);
    lemma_window_is_global(goal, 250 * ad, nr2);
    let cand = |y: int|
        NoComboState { n300: y as u32, n50: (s.n300 + s.n50 - y) as u32, ..s.no_combo_spec() };
    assert forall|y: int| 0 <= y <= nr2 implies #[trigger] accuracy_gap(acc, cand(y), origin) == dist_at(
        goal,
        250 * ad,
        y,
    ) by {
        assert(cand(y).accuracy_denominator(origin) == den);
        assert(cand(y).accuracy_numerator(origin) == base + 250 * y);
        lemma_gap_is_dist(acc.numerator as int, ad, den, base, 250, y);
    }
    assert(cand(s.n300 as int) == s.no_combo_spec());
}

/// With a target accuracy and only the 50s given, the 300s and 100s are the
/// split of the remaining objects whose accuracy is closest to the target,
/// and among equally close splits the one with the fewest 300s.
pub proof fn law_closest_split_given_n50(perf: OsuPerformance, attrs: HitObjectCounts)
    requires
        perf.generation_ok(attrs),
        perf.acc is Some,
        perf.n300 is None,
        perf.n100 is None,
        perf.n50 is Some,
    ensures
        ({
            let s = perf.generated_state(attrs);
            closest_among(
                perf.acc->0,
                perf.origin_for(attrs),
                s.no_combo_spec(),
                |y: int|
                    NoComboState { n300: y as u32, n100: (s.n300 + s.n100 - y) as u32, ..s.no_combo_spec() },
                s.n300 + s.n100,
                s.n300 as int,
            )
        }),
{
    lemma_counts_fit(perf, attrs);
    let acc = perf.acc->0;
    let ad = acc.denominator as int;
    let s = perf.generated_state(attrs);
    let origin = perf.origin_for(attrs);
    let (c300, c100, c50) = perf.given_for(attrs);
    let n0 = perf.n_objects_for(attrs);
    let ms = perf.misses_for(attrs);
    let nr2 = perf.remaining_for(attrs) - c50;
    let sav = perf.slider_acc_for(attrs);
    let base = 100 * n0 + sav - 100 * ms - 50 * c50;
    let goal = perf.goal_for(attrs, acc, base);
    let den = perf.acc_denominator_for(attrs);
    lemma_window_is_global(goal, 200 * ad, nr2);
    let cand = |y: int|
        NoComboState { n300: y as u32, n100: (s.n300 + s.n100 - y) as u32, ..s.no_combo_spec() };
    assert forall|y: int| 0 <= y <= nr2 implies #[trigger] accuracy_gap(acc, cand(y), origin) == dist_at(
        goal,
        200 * ad,
        y,
    ) by {
        assert(cand(y).accuracy_denominator(origin) == den);
        assert(cand(y).accuracy_numerator(origin) == base + 200 * y);
        lemma_gap_is_dist(acc.numerator as int, ad, den, base, 200, y);
    }
    assert(cand(s.n300 as int) == s.no_combo_spec());
}

/// `(x + d * m) / d == x / d + m` for a positive divisor.
proof fn lemma_div_add_multiple(x: int, d: int, m: int)
    requires
        d > 0,
    ensures
        (x + d * m) / d == x / d + m,
{
    vstd::arithmetic::div_mod::lemma_fundamental_div_mod(x, d);
    vstd::arithmetic::div_mod::lemma_mod_bound(x, d);
    assert(d * (x / d) + d * m == d * (x / d + m)) by (nonlinear_arith);
    vstd::arithmetic::div_mod::lemma_fundamental_div_mod_converse(
        x + d * m,
        d,
        x / d + m,
        x % d,
    );
}

/// Rebalancing only depends on the split's weighted count `5 * a + b`:
/// splits of equal accuracy end up the same.
proof fn lemma_rebalance_canonical(p: HitResultPriority, nr: int, a1: int, b1: int, a2: int, b2: int)
    requires
        full_candidate(nr, a1, b1),
        full_candidate(nr, a2, b2),
        5 * a1 + b1 == 5 * a2 + b2,
    ensures
        rebalance(p, a1, b1, nr - a1 - b1) == rebalance(p, a2, b2, nr - a2 - b2),
{
    let k = 5 * a1 + b1;
    let x = nr - k;
    match p {
        HitResultPriority::BestCase => {
            lemma_div_add_multiple(x, 4, a1);
            lemma_div_add_multiple(x, 4, a2);
            assert(nr - a1 - b1 == x + 4 * a1);
            assert(nr - a2 - b2 == x + 4 * a2);
        },
        HitResultPriority::WorstCase => {
            lemma_div_add_multiple(k, 5, -a1);
            lemma_div_add_multiple(k, 5, -a2);
            assert(b1 == k + 5 * (-a1));
            assert(b2 == k + 5 * (-a2));
        },
    }
}

/// The split `(a, b, nr - a - b)` of the non-missed objects into 300s, 100s
/// and 50s, with the misses and slider judgements of `s`.
pub open spec fn split_state(s: OsuScoreState, a: int, b: int, nr: int) -> NoComboState {
    NoComboState { n300: a as u32, n100: b as u32, n50: (nr - a - b) as u32, ..s.no_combo_spec() }
}

/// `(a, b)` is what an exhaustive search over all splits of `nr` objects
/// finds: the split whose accuracy is closest to the target, the first one in
/// order of 300s and then 100s among equally close splits.
pub open spec fn is_closest_split(
    acc: Accuracy,
    origin: OsuScoreOrigin,
    s: OsuScoreState,
    nr: int,
    a: int,
    b: int,
) -> bool {
    &&& full_candidate(nr, a, b)
    &&& forall|a2: int, b2: int|
        full_candidate(nr, a2, b2) ==> accuracy_gap(acc, split_state(s, a, b, nr), origin)
            <= #[trigger] accuracy_gap(acc, split_state(s, a2, b2, nr), origin)
    &&& forall|a2: int, b2: int|
        full_candidate(nr, a2, b2) && lex_before(a2, b2, a, b) ==> accuracy_gap(
            acc,
            split_state(s, a, b, nr),
            origin,
        ) < #[trigger] accuracy_gap(acc, split_state(s, a2, b2, nr), origin)
}

/// With a target accuracy and none of the 300s, 100s and 50s given, the
/// generated counts are those that an exhaustive search over all splits of the
/// non-missed objects finds closest to the target, rebalanced by priority:
/// searching only around the target loses nothing.
pub proof fn law_closest_split_nothing_given(perf: OsuPerformance, attrs: HitObjectCounts)
    requires
        perf.generation_ok(attrs),
        perf.acc is Some,
        perf.n300 is None,
        perf.n100 is None,
        perf.n50 is None,
    ensures
        ({
            let s = perf.generated_state(attrs);
            let nr = perf.remaining_for(attrs);
            exists|a: int, b: int|
                is_closest_split(perf.acc->0, perf.origin_for(attrs), s, nr, a, b) && (
                s.n300 as int,
                s.n100 as int,
                s.n50 as int,
            ) == rebalance(perf.hitresult_priority, a, b, nr - a - b)
        }),
{
    lemma_counts_fit(perf, attrs);
    let acc = perf.acc->0;
    let ad = acc.denominator as int;
    let an = acc.numerator as int;
    let s = perf.generated_state(attrs);
    let origin = perf.origin_for(attrs);
    let nr = perf.remaining_for(attrs);
    let sav = perf.slider_acc_for(attrs);
    let base = 50 * nr + sav;
    let goal = perf.goal_for(attrs, acc, base);
    let den = perf.acc_denominator_for(attrs);
    let u = 50 * ad;
    assert(250 * ad == 5 * u);
    lemma_closest_pair_exists(goal, 5 * u, u, nr);
    lemma_closest_pair_full_exists(goal, 5 * u, u, nr);
    lemma_window_pair_matches_full(goal, u, nr);
    let (af, bf) = closest_pair(goal, 5 * u, u, nr);
    let (ab, bb) = closest_pair_full(goal, 5 * u, u, nr);
    lemma_window_ordered(goal, 5 * u, nr);
    assert(pair_candidate(goal, 5 * u, u, nr, af, bf));
    lemma_window_ordered(goal - (5 * u) * af, u, nr - af);
    assert(full_candidate(nr, af, bf));
    lemma_rebalance_canonical(perf.hitresult_priority, nr, af, bf, ab, bb);
    assert forall|a2: int, b2: int| full_candidate(nr, a2, b2) implies #[trigger] accuracy_gap(
        acc,
        split_state(s, a2, b2, nr),
        origin,
    ) == pair_dist(goal, 5 * u, u, a2, b2) by {
        let st = split_state(s, a2, b2, nr);
        assert(st.accuracy_denominator(origin) == den);
        assert(st.accuracy_numerator(origin) == base + 250 * a2 + 50 * b2);
        assert(ad * (base + 250 * a2 + 50 * b2) == ad * base + (5 * u) * a2 + u * b2)
            by (nonlinear_arith)
            requires
                u == 50 * ad,
        ;
    }
    assert(is_closest_split(acc, origin, s, nr, ab, bb));
}


/// With a target accuracy and none of the 300s, 100s and 50s given, the
/// priority only decides how the closest split is spread over 300s, 100s and
/// 50s: both priorities give states of the same accuracy, and the same total.
pub proof fn law_priority_keeps_accuracy(perf: OsuPerformance, attrs: HitObjectCounts)
    requires
        perf.generation_ok(attrs),
        perf.acc is Some,
        perf.n300 is None,
        perf.n100 is None,
        perf.n50 is None,
    ensures
        ({
            let best = OsuPerformance { hitresult_priority: HitResultPriority::BestCase, ..perf };
            let worst = OsuPerformance { hitresult_priority: HitResultPriority::WorstCase, ..perf };
            let sb = best.generated_state(attrs).no_combo_spec();
            let sw = worst.generated_state(attrs).no_combo_spec();
            let origin = perf.origin_for(attrs);
            &&& sb.accuracy_numerator(origin) == sw.accuracy_numerator(origin)
            &&& sb.accuracy_denominator(origin) == sw.accuracy_denominator(origin)
        }),
{
    let best = OsuPerformance { hitresult_priority: HitResultPriority::BestCase, ..perf };
    let worst = OsuPerformance { hitresult_priority: HitResultPriority::WorstCase, ..perf };
    lemma_counts_fit(best, attrs);
    lemma_counts_fit(worst, attrs);
    let acc = perf.acc->0;
    let ad = acc.denominator as int;
    let nr = perf.remaining_for(attrs);
    let goal = perf.goal_for(attrs, acc, 50 * nr + perf.slider_acc_for(attrs));
    assert(best.goal_for(attrs, acc, 50 * nr + best.slider_acc_for(attrs)) == goal);
    assert(worst.goal_for(attrs, acc, 50 * nr + worst.slider_acc_for(attrs)) == goal);
    lemma_closest_pair_exists(goal, 250 * ad, 50 * ad, nr);
    let (a, b) = closest_pair(goal, 250 * ad, 50 * ad, nr);
    lemma_window_ordered(goal, 250 * ad, nr);
    lemma_window_ordered(goal - (250 * ad) * a, 50 * ad, nr - a);
    assert(full_candidate(nr, a, b));
    let (b3, b1, b5) = rebalance(HitResultPriority::BestCase, a, b, nr - a - b);
    let (w3, w1, w5) = rebalance(HitResultPriority::WorstCase, a, b, nr - a - b);
    assert(best.counts_for(attrs) == (b3, b1, b5));
    assert(worst.counts_for(attrs) == (w3, w1, w5));
    assert(300 * b3 + 100 * b1 + 50 * b5 == 300 * w3 + 100 * w1 + 50 * w5);
    assert(b3 + b1 + b5 == w3 + w1 + w5);
}

/// Objects that a score covers: its passed objects, but no more than the
/// map's circles, sliders and spinners together.
pub open spec fn covered_objects(perf: OsuPerformance, attrs: HitObjectCounts) -> int {
    let all = attrs.n_circles + attrs.n_sliders + attrs.n_spinners;
    if perf.passed_objects <= all {
        perf.passed_objects as int
    } else {
        all
    }
}

/// A count as the score gave it, capped at `cap`; 0 where it was not given.
pub open spec fn kept(o: Option<u32>, cap: int) -> int {
    match o {
        Some(n) => if n <= cap {
            n as int
        } else {
            cap
        },
        None => 0,
    }
}

/// Objects that the given counts and the misses leave unaccounted.
pub open spec fn unaccounted(perf: OsuPerformance, attrs: HitObjectCounts) -> int {
    let n0 = covered_objects(perf, attrs);
    let ms = kept(perf.misses, n0);
    let nr = n0 - ms;
    let given = kept(perf.n300, nr) + kept(perf.n100, nr) + kept(perf.n50, nr) + ms;
    if given <= n0 {
        n0 - given
    } else {
        0
    }
}

/// The helper quantities above agree with the ones the generation reads.
proof fn lemma_inputs(perf: OsuPerformance, attrs: HitObjectCounts)
    ensures
        covered_objects(perf, attrs) == perf.n_objects_for(attrs),
        kept(perf.misses, covered_objects(perf, attrs)) == perf.misses_for(attrs),
        perf.given_for(attrs) == (
            kept(perf.n300, perf.remaining_for(attrs)),
            kept(perf.n100, perf.remaining_for(attrs)),
            kept(perf.n50, perf.remaining_for(attrs)),
        ),
        unaccounted(perf, attrs) == perf.unaccounted_for(attrs),
{
}

/// Counts of the generated state: with the misses they judge every covered
/// object, or exactly the given counts where those are more.
proof fn lemma_counts_total(perf: OsuPerformance, attrs: HitObjectCounts)
    requires
        perf.generation_ok(attrs),
    ensures
        ({
            let (a, b, c) = perf.counts_for(attrs);
            let (g300, g100, g50) = perf.given_for(attrs);
            let n0 = perf.n_objects_for(attrs);
            let given = g300 + g100 + g50 + perf.misses_for(attrs);
            a + b + c + perf.misses_for(attrs) == if given <= n0 {
                n0
            } else {
                given
            }
        }),
{
    lemma_counts_fit(perf, attrs);
    lemma_inputs(perf, attrs);
    let nr = perf.remaining_for(attrs);
    match perf.acc {
        None => {},
        Some(acc) => {
            if perf.n300 is Some && perf.n100 is Some && perf.n50 is Some {
            } else if perf.n300 is Some && perf.n100 is Some {
            } else if perf.n300 is Some && perf.n50 is Some {
            } else if perf.n100 is Some && perf.n50 is Some {
            } else if perf.n300 is Some || perf.n100 is Some || perf.n50 is Some {
            } else {
                let ad = acc.denominator as int;
                let goal = perf.goal_for(attrs, acc, 50 * nr + perf.slider_acc_for(attrs));
                lemma_closest_pair_exists(goal, 250 * ad, 50 * ad, nr);
                lemma_window_ordered(goal, 250 * ad, nr);
                let (a, b) = closest_pair(goal, 250 * ad, 50 * ad, nr);
                lemma_window_ordered(goal - 250 * ad * a, 50 * ad, nr - a);
            }
        },
    }
}

/// Every generated state keeps what the score gave: its misses (capped at
/// the covered objects) and each given 300, 100 and 50 count (capped at the
/// non-missed objects), with or without a target accuracy. The one exception
/// is a score that gives all three counts: the objects they leave unaccounted
/// are added to the 300s under best-case priority and to the 50s under worst
/// case. Together with the misses the counts judge exactly the covered
/// objects, or the given counts where those are more.
pub proof fn law_given_counts_kept(perf: OsuPerformance, attrs: HitObjectCounts)
    requires
        perf.generation_ok(attrs),
    ensures
        ({
            let s = perf.generated_state(attrs);
            let n0 = covered_objects(perf, attrs);
            let ms = kept(perf.misses, n0);
            let nr = n0 - ms;
            let k300 = kept(perf.n300, nr);
            let k100 = kept(perf.n100, nr);
            let k50 = kept(perf.n50, nr);
            let all_given = perf.n300 is Some && perf.n100 is Some && perf.n50 is Some;
            let best = perf.hitresult_priority == HitResultPriority::BestCase;
            &&& s.misses == ms
            &&& s.total_hits_spec() == if k300 + k100 + k50 + ms <= n0 {
                n0
            } else {
                k300 + k100 + k50 + ms
            }
            &&& perf.n300 is Some && !(all_given && best) ==> s.n300 == k300
            &&& perf.n100 is Some ==> s.n100 == k100
            &&& perf.n50 is Some && !(all_given && !best) ==> s.n50 == k50
            &&& all_given && best ==> s.n300 == k300 + unaccounted(perf, attrs)
            &&& all_given && !best ==> s.n50 == k50 + unaccounted(perf, attrs)
        }),
{
    lemma_counts_fit(perf, attrs);
    lemma_inputs(perf, attrs);
    lemma_counts_total(perf, attrs);
}

/// Without a target accuracy, the objects left unaccounted go to the first
/// count that the score did not give, in priority order (300s, 100s, 50s for
/// best case; 50s, 100s, 300s for worst case), or onto the 300s (best case)
/// or 50s (worst case) where all three were given; every other count is what
/// the score gave, capped, and 0 where it gave none.
pub proof fn law_fill_without_accuracy(perf: OsuPerformance, attrs: HitObjectCounts)
    requires
        perf.generation_ok(attrs),
        perf.acc is None,
    ensures
        ({
            let s = perf.generated_state(attrs);
            let n0 = covered_objects(perf, attrs);
            let nr = n0 - kept(perf.misses, n0);
            let k300 = kept(perf.n300, nr);
            let k100 = kept(perf.n100, nr);
            let k50 = kept(perf.n50, nr);
            let rest = unaccounted(perf, attrs);
            match perf.hitresult_priority {
                HitResultPriority::BestCase => if perf.n300 is None {
                    s.n300 == rest && s.n100 == k100 && s.n50 == k50
                } else if perf.n100 is None {
                    s.n300 == k300 && s.n100 == rest && s.n50 == k50
                } else if perf.n50 is None {
                    s.n300 == k300 && s.n100 == k100 && s.n50 == rest
                } else {
                    s.n300 == k300 + rest && s.n100 == k100 && s.n50 == k50
                },
                HitResultPriority::WorstCase => if perf.n50 is None {
                    s.n300 == k300 && s.n100 == k100 && s.n50 == rest
                } else if perf.n100 is None {
                    s.n300 == k300 && s.n100 == rest && s.n50 == k50
                } else if perf.n300 is None {
                    s.n300 == rest && s.n100 == k100 && s.n50 == k50
                } else {
                    s.n300 == k300 && s.n100 == k100 && s.n50 == k50 + rest
                },
            }
        }),
{
    lemma_counts_fit(perf, attrs);
    lemma_inputs(perf, attrs);
}

/// A score that gives its 300s, 100s and 50s gets the same state whether or
/// not it also gives a target accuracy: the given counts decide.
pub proof fn law_all_given_ignores_accuracy(perf: OsuPerformance, attrs: HitObjectCounts)
    requires
        perf.generation_ok(attrs),
        perf.n300 is Some,
        perf.n100 is Some,
        perf.n50 is Some,
    ensures
        (OsuPerformance { acc: None, ..perf }).generated_state(attrs) == perf.generated_state(
            attrs,
        ),
{
    let plain = OsuPerformance { acc: None, ..perf };
    lemma_inputs(perf, attrs);
    lemma_inputs(plain, attrs);
    assert(plain.counts_for(attrs) == perf.counts_for(attrs));
}

/// Without a target accuracy (or with all three counts given), worst-case
/// priority never gives more 300s, nor fewer 50s, than best-case priority on
/// the same score.
pub proof fn law_worst_case_no_better(perf: OsuPerformance, attrs: HitObjectCounts)
    requires
        perf.generation_ok(attrs),
        perf.acc is None || (perf.n300 is Some && perf.n100 is Some && perf.n50 is Some),
    ensures
        ({
            let best = OsuPerformance { hitresult_priority: HitResultPriority::BestCase, ..perf };
            let worst = OsuPerformance { hitresult_priority: HitResultPriority::WorstCase, ..perf };
            &&& worst.generated_state(attrs).n300 <= best.generated_state(attrs).n300
            &&& worst.generated_state(attrs).n50 >= best.generated_state(attrs).n50
        }),
{
    let best = OsuPerformance { hitresult_priority: HitResultPriority::BestCase, ..perf };
    let worst = OsuPerformance { hitresult_priority: HitResultPriority::WorstCase, ..perf };
    lemma_counts_fit(best, attrs);
    lemma_counts_fit(worst, attrs);
    lemma_inputs(best, attrs);
    lemma_inputs(worst, attrs);
}

/// An osu!stable score counts no slider judgements for accuracy, whatever its
/// mods: its origin is `Stable`, its slider judgements are 0, and whether the
/// mods hold classic changes nothing of the generated state.
pub proof fn law_stable_ignores_slider_judgements(perf: OsuPerformance, attrs: HitObjectCounts)
    requires
        perf.generation_ok(attrs),
        !perf.lazer,
    ensures
        perf.origin_for(attrs) == OsuScoreOrigin::Stable,
        perf.origin_for(attrs).max_slider_acc_value() == 0,
        perf.generated_state(attrs).slider_end_hits == 0,
        perf.generated_state(attrs).large_tick_hits == 0,
        (OsuPerformance { classic: !perf.classic, ..perf }).generated_state(attrs)
            == perf.generated_state(attrs),
{
    let other = OsuPerformance { classic: !perf.classic, ..perf };
    assert(other.origin_for(attrs) == perf.origin_for(attrs));
    assert(other.slider_acc_for(attrs) == perf.slider_acc_for(attrs));
    assert(other.acc_denominator_for(attrs) == perf.acc_denominator_for(attrs));
    assert(other.counts_for(attrs) == perf.counts_for(attrs));
}

/// A count as the score gave it, capped at `cap`; `cap` itself where it was
/// not given.
pub open spec fn kept_or_all(o: Option<u32>, cap: int) -> int {
    match o {
        Some(n) => if n <= cap {
            n as int
        } else {
            cap
        },
        None => cap,
    }
}

/// The generated combo is the given combo, capped at the map's maximum combo
/// minus the misses (that cap where no combo was given). On osu!lazer the
/// slider end hits are the given ones capped at the sliders, and the large
/// tick hits the given ones capped at the large ticks, plus the slider heads
/// with classic (all of them where none were given).
pub proof fn law_combo_and_slider_judgements_kept(perf: OsuPerformance, attrs: HitObjectCounts)
    requires
        perf.generation_ok(attrs),
    ensures
        ({
            let s = perf.generated_state(attrs);
            let ms = kept(perf.misses, covered_objects(perf, attrs));
            let combo_cap = if attrs.max_combo >= ms {
                attrs.max_combo - ms
            } else {
                0
            };
            &&& s.max_combo == kept_or_all(perf.combo, combo_cap)
            &&& perf.lazer ==> s.slider_end_hits == kept_or_all(
                perf.slider_end_hits,
                attrs.n_sliders as int,
            )
            &&& perf.lazer && !perf.classic ==> s.large_tick_hits == kept_or_all(
                perf.large_tick_hits,
                attrs.n_large_ticks as int,
            )
            &&& perf.lazer && perf.classic ==> s.large_tick_hits == kept_or_all(
                perf.large_tick_hits,
                attrs.n_sliders + attrs.n_large_ticks,
            )
        }),
{
    lemma_inputs(perf, attrs);
}

} // verus!
