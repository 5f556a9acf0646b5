use ccv3_pp::performance::{Accuracy, HitObjectCounts, HitResultPriority, OsuPerformance};
use ccv3_pp::score_state::{NoComboState, OsuScoreOrigin, OsuScoreState};

const N_OBJECTS: u32 = 601;
const N_SLIDERS: u32 = 293;
const N_SLIDER_TICKS: u32 = 15;
const MAX_COMBO: u32 = 909;

fn attrs() -> HitObjectCounts {
    HitObjectCounts {
        max_combo: MAX_COMBO,
        n_circles: 307,
        n_sliders: N_SLIDERS,
        n_spinners: 1,
        n_large_ticks: N_SLIDER_TICKS,
    }
}

#[test]
fn hitresults_n300_n100_misses_best() {
    let state = OsuPerformance::new()
        .combo(500)
        .lazer(true)
        .n300(300)
        .n100(20)
        .misses(2)
        .hitresult_priority(HitResultPriority::BestCase)
        .generate_state(&attrs());

    let expected = OsuScoreState {
        max_combo: 500,
        large_tick_hits: N_SLIDER_TICKS,
        slider_end_hits: N_SLIDERS,
        n300: 300,
        n100: 20,
        n50: 279,
        misses: 2,
    };

    assert_eq!(state, expected);
}

#[test]
fn hitresults_n300_n50_misses_best() {
    let state = OsuPerformance::new()
        .lazer(false)
        .combo(500)
        .n300(300)
        .n50(10)
        .misses(2)
        .hitresult_priority(HitResultPriority::BestCase)
        .generate_state(&attrs());

    let expected = OsuScoreState {
        max_combo: 500,
        large_tick_hits: 0,
        slider_end_hits: 0,
        n300: 300,
        n100: 289,
        n50: 10,
        misses: 2,
    };

    assert_eq!(state, expected);
}

#[test]
fn hitresults_n50_misses_worst() {
    let state = OsuPerformance::new()
        .lazer(true)
        .combo(500)
        .n50(10)
        .misses(2)
        .hitresult_priority(HitResultPriority::WorstCase)
        .generate_state(&attrs());

    let expected = OsuScoreState {
        max_combo: 500,
        large_tick_hits: N_SLIDER_TICKS,
        slider_end_hits: N_SLIDERS,
        n300: 0,
        n100: 589,
        n50: 10,
        misses: 2,
    };

    assert_eq!(state, expected);
}

#[test]
fn hitresults_n300_n100_n50_misses_worst() {
    let state = OsuPerformance::new()
        .lazer(false)
        .combo(500)
        .n300(300)
        .n100(50)
        .n50(10)
        .misses(2)
        .hitresult_priority(HitResultPriority::WorstCase)
        .generate_state(&attrs());

    let expected = OsuScoreState {
        max_combo: 500,
        large_tick_hits: 0,
        slider_end_hits: 0,
        n300: 300,
        n100: 50,
        n50: 249,
        misses: 2,
    };

    assert_eq!(state, expected);
}

fn accuracy_of(state: &NoComboState, origin: OsuScoreOrigin) -> f64 {
    let (num, den) = state.accuracy_parts(origin);
    if den == 0 {
        0.0
    } else {
        num as f64 / den as f64
    }
}

/// Checks all hitresult combinations and returns the state whose accuracy
/// matches `acc` best, shaped as the generation shapes it.
#[allow(clippy::too_many_arguments)]
fn brute_force_best(
    lazer: bool,
    classic: bool,
    acc: f64,
    large_tick_hits: Option<u32>,
    slider_end_hits: Option<u32>,
    n300: Option<u32>,
    n100: Option<u32>,
    n50: Option<u32>,
    misses: u32,
    best_case: bool,
) -> OsuScoreState {
    let misses = misses.min(N_OBJECTS);
    let (origin, slider_end_hits, large_tick_hits) = match (lazer, classic) {
        (false, _) => (OsuScoreOrigin::Stable, 0, 0),
        (true, false) => (
            OsuScoreOrigin::WithSliderAcc {
                max_large_ticks: N_SLIDER_TICKS,
                max_slider_ends: N_SLIDERS,
            },
            slider_end_hits.map_or(N_SLIDERS, |n| n.min(N_SLIDERS)),
            large_tick_hits.map_or(N_SLIDER_TICKS, |n| n.min(N_SLIDER_TICKS)),
        ),
        (true, true) => (
            OsuScoreOrigin::WithoutSliderAcc {
                max_large_ticks: N_SLIDERS + N_SLIDER_TICKS,
                max_slider_ends: N_SLIDERS,
            },
            slider_end_hits.map_or(N_SLIDERS, |n| n.min(N_SLIDERS)),
            large_tick_hits.map_or(N_SLIDERS + N_SLIDER_TICKS, |n| {
                n.min(N_SLIDERS + N_SLIDER_TICKS)
            }),
        ),
    };
    let mut best_state = OsuScoreState {
        misses,
        slider_end_hits,
        large_tick_hits,
        ..Default::default()
    };
    let mut best_dist = f64::INFINITY;
    let n_remaining = N_OBJECTS - misses;
    let (min_n300, max_n300) = match (n300, n100, n50) {
        (Some(n300), ..) => (n_remaining.min(n300), n_remaining.min(n300)),
        (None, Some(n100), Some(n50)) => (
            n_remaining.saturating_sub(n100 + n50),
            n_remaining.saturating_sub(n100 + n50),
        ),
        (None, ..) => (
            0,
            n_remaining.saturating_sub(n100.unwrap_or(0) + n50.unwrap_or(0)),
        ),
    };
    for new300 in min_n300..=max_n300 {
        let (min_n100, max_n100) = match (n100, n50) {
            (Some(n100), _) => (n_remaining.min(n100), n_remaining.min(n100)),
            (None, Some(n50)) => (
                n_remaining.saturating_sub(new300 + n50),
                n_remaining.saturating_sub(new300 + n50),
            ),
            (None, None) => (0, n_remaining - new300),
        };
        for new100 in min_n100..=max_n100 {
            let new50 = match n50 {
                Some(n50) => n_remaining.min(n50),
                None => n_remaining.saturating_sub(new300 + new100),
            };
            let state = NoComboState {
                n300: new300,
                n100: new100,
                n50: new50,
                misses,
                large_tick_hits,
                slider_end_hits,
            };
            let curr_dist = (acc - accuracy_of(&state, origin)).abs();
            if curr_dist < best_dist {
                best_dist = curr_dist;
                best_state.n300 = new300;
                best_state.n100 = new100;
                best_state.n50 = new50;
            }
        }
    }
    if best_state.n300 + best_state.n100 + best_state.n50 < n_remaining {
        let remaining = n_remaining - (best_state.n300 + best_state.n100 + best_state.n50);
        if best_case {
            best_state.n300 += remaining;
        } else {
            best_state.n50 += remaining;
        }
    }
    if n300.is_none() && n100.is_none() && n50.is_none() {
        if best_case {
            let n = best_state.n300.min(best_state.n50 / 4);
            best_state.n300 -= n;
            best_state.n100 += 5 * n;
            best_state.n50 -= 4 * n;
        } else {
            let n = best_state.n100 / 5;
            best_state.n300 += n;
            best_state.n100 -= 5 * n;
            best_state.n50 += 4 * n;
        }
    }
    best_state
}

fn accuracy_from_fraction(acc: f64) -> Accuracy {
    let den: u64 = 1 << 32;
    Accuracy::new((acc.clamp(0.0, 1.0) * den as f64).round() as u64, den)
}

#[allow(clippy::too_many_arguments)]
fn check_against_brute_force(
    lazer: bool,
    classic: bool,
    acc: f64,
    large_tick_hits: Option<u32>,
    slider_end_hits: Option<u32>,
    n300: Option<u32>,
    n100: Option<u32>,
    n50: Option<u32>,
    n_misses: Option<u32>,
    best_case: bool,
) {
    let priority = if best_case {
        HitResultPriority::BestCase
    } else {
        HitResultPriority::WorstCase
    };
    let mut perf = OsuPerformance::new()
        .accuracy(accuracy_from_fraction(acc))
        .lazer(lazer)
        .hitresult_priority(priority);
    perf.classic = lazer && classic;
    if let Some(n) = large_tick_hits {
        perf = perf.n_large_ticks(n);
    }
    if let Some(n) = slider_end_hits {
        perf = perf.n_slider_ends(n);
    }
    if let Some(n) = n300 {
        perf = perf.n300(n);
    }
    if let Some(n) = n100 {
        perf = perf.n100(n);
    }
    if let Some(n) = n50 {
        perf = perf.n50(n);
    }
    if let Some(n) = n_misses {
        perf = perf.misses(n);
    }
    let first = perf.generate_state(&attrs());
    let state = perf.generate_state(&attrs());
    assert_eq!(first, state);

    let mut expected = brute_force_best(
        lazer,
        classic,
        acc,
        large_tick_hits,
        slider_end_hits,
        n300,
        n100,
        n50,
        n_misses.unwrap_or(0),
        best_case,
    );
    expected.max_combo = MAX_COMBO.saturating_sub(n_misses.map_or(0, |n| n.min(N_OBJECTS)));
    assert_eq!(state, expected);
}

#[test]
fn hitresults_match_brute_force() {
    let accs = [0.0, 0.123456, 0.5, 0.7777, 0.91234, 0.953217, 0.98765, 0.9991, 1.0];
    let counts = [None, Some(0), Some(17), Some(250), Some(700)];
    let mut i = 0usize;
    for &acc in &accs {
        for &lazer in &[false, true] {
            for &classic in &[false, true] {
                for &best_case in &[false, true] {
                    for k in 0..6 {
                        i += 1;
                        let pick = |s: usize| counts[(i * 7 + s * 3 + k) % counts.len()];
                        check_against_brute_force(
                            lazer,
                            classic,
                            acc,
                            pick(1),
                            pick(2),
                            if k % 2 == 0 { pick(3) } else { None },
                            if k % 3 == 0 { pick(4) } else { None },
                            if k >= 4 { pick(5) } else { None },
                            pick(6).map(|n| n % 40),
                            best_case,
                        );
                    }
                }
            }
        }
    }
}

#[test]
fn hitresults_no_acc_nothing_given_best_is_all_300s() {
    let state = OsuPerformance::new().misses(5).generate_state(&attrs());
    assert_eq!(state.n300, N_OBJECTS - 5);
    assert_eq!((state.n100, state.n50, state.misses), (0, 0, 5));
    assert_eq!(state.max_combo, MAX_COMBO - 5);
}

#[test]
fn hitresults_no_acc_nothing_given_worst_is_all_50s() {
    let state = OsuPerformance::new()
        .hitresult_priority(HitResultPriority::WorstCase)
        .generate_state(&attrs());
    assert_eq!((state.n300, state.n100, state.n50, state.misses), (0, 0, N_OBJECTS, 0));
}

#[test]
fn hitresults_passed_objects_limit() {
    let state = OsuPerformance::new()
        .passed_objects(100)
        .misses(1000)
        .combo(2000)
        .generate_state(&attrs());
    assert_eq!(state.misses, 100);
    assert_eq!(state.n300, 0);
    assert_eq!(state.max_combo, MAX_COMBO - 100);
}

#[test]
fn hitresults_generation_is_idempotent() {
    let mut perf = OsuPerformance::new()
        .accuracy(Accuracy::new(9, 10))
        .n100(40)
        .misses(3);
    let first = perf.generate_state(&attrs());
    let second = perf.generate_state(&attrs());
    assert_eq!(first, second);
}

#[test]
fn hitresults_full_acc_with_n300_given() {
    // 100% accuracy with the 300s given: the remaining objects become 100s
    // and 50s as close to 100% as possible, i.e. all 100s.
    let state = OsuPerformance::new()
        .lazer(false)
        .accuracy(Accuracy::new(1, 1))
        .n300(500)
        .generate_state(&attrs());
    assert_eq!((state.n300, state.n100, state.n50), (500, 101, 0));
}

#[test]
fn hitresults_state_round_trips() {
    let given = OsuScoreState {
        max_combo: 400,
        large_tick_hits: 10,
        slider_end_hits: 200,
        n300: 550,
        n100: 40,
        n50: 8,
        misses: 3,
    };
    let state = OsuPerformance::new().state(given).generate_state(&attrs());
    assert_eq!(state, given);
}

#[test]
fn accuracy_parts_stable() {
    let state = NoComboState {
        n300: 10,
        n100: 2,
        n50: 1,
        misses: 1,
        large_tick_hits: 5,
        slider_end_hits: 5,
    };
    assert_eq!(state.accuracy_parts(OsuScoreOrigin::Stable), (3250, 4200));
    let with_slider = OsuScoreOrigin::WithSliderAcc { max_large_ticks: 4, max_slider_ends: 6 };
    assert_eq!(state.accuracy_parts(with_slider), (3250 + 750 + 120, 4200 + 900 + 120));
    let without = OsuScoreOrigin::WithoutSliderAcc { max_large_ticks: 4, max_slider_ends: 6 };
    assert_eq!(state.accuracy_parts(without), (3250 + 120 + 50, 4200 + 120 + 60));
}

#[test]
fn accuracy_new_clamps() {
    let a = Accuracy::new(7, 5);
    assert_eq!((a.numerator, a.denominator), (5, 5));
}

#[test]
fn hitresults_priority_keeps_accuracy() {
    for (num, den) in [(9u64, 10u64), (2, 3), (955, 1000), (1, 2)] {
        let best = OsuPerformance::new()
            .accuracy(Accuracy::new(num, den))
            .misses(4)
            .hitresult_priority(HitResultPriority::BestCase);
        let worst = best.hitresult_priority(HitResultPriority::WorstCase);
        let origin = best.origin(&attrs());
        let sb = best.clone().generate_state(&attrs());
        let sw = worst.clone().generate_state(&attrs());
        assert_eq!(sb.accuracy_parts(origin), sw.accuracy_parts(origin));
        assert_eq!(sb.total_hits(), sw.total_hits());
        assert!(sb.n300 <= sw.n300);
    }
}
