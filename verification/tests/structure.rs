use ccv3_pp::aim_rx::AimRxEvaluator;
use ccv3_pp::difficulty::{DifficultyObjectLinks, DifficultyValues};
use ccv3_pp::mods::{GameMods, AP, DT, HD, NC, NF, RX};
use ccv3_pp::performance::{
    n_large_tick_miss, n_slider_ends_dropped, total_imperfect_hits, HitObjectCounts,
};
use ccv3_pp::ranks::rank_positions;
use ccv3_pp::score_state::OsuScoreState;

#[test]
fn difficulty_objects_link_predecessors() {
    let links = DifficultyValues::create_difficulty_objects(usize::MAX, 4);
    assert_eq!(
        links,
        vec![
            DifficultyObjectLinks { idx: 0, curr: 1, last: 0, last_last: None },
            DifficultyObjectLinks { idx: 1, curr: 2, last: 1, last_last: Some(0) },
            DifficultyObjectLinks { idx: 2, curr: 3, last: 2, last_last: Some(1) },
        ]
    );
}

#[test]
fn difficulty_objects_empty_without_objects_or_passes() {
    assert!(DifficultyValues::create_difficulty_objects(0, 10).is_empty());
    assert!(DifficultyValues::create_difficulty_objects(5, 0).is_empty());
    assert!(DifficultyValues::create_difficulty_objects(5, 1).is_empty());
}

#[test]
fn difficulty_values_process_passed_objects_minus_one() {
    let d = DifficultyValues::calculate(3, 10);
    assert_eq!(d.diff_objects.len(), 9);
    assert_eq!(d.n_processed, 2);
    let d = DifficultyValues::calculate(usize::MAX, 10);
    assert_eq!(d.n_processed, 9);
    let d = DifficultyValues::calculate(0, 10);
    assert_eq!((d.diff_objects.len(), d.n_processed), (0, 0));
}

#[test]
fn aim_rx_lookback_stops_at_map_start() {
    assert_eq!(AimRxEvaluator::lookback(3, AimRxEvaluator::ANGLE_WINDOW), vec![2, 1, 0]);
    assert_eq!(AimRxEvaluator::lookback(10, 6), vec![9, 8, 7, 6, 5, 4]);
    assert_eq!(AimRxEvaluator::lookback(0, 6), Vec::<usize>::new());
}

#[test]
fn aim_rx_previous_and_history() {
    assert_eq!(AimRxEvaluator::previous(5, 0), Some(4));
    assert_eq!(AimRxEvaluator::previous(5, 4), Some(0));
    assert_eq!(AimRxEvaluator::previous(5, 5), None);
    assert!(AimRxEvaluator::has_history(2, false, false));
    assert!(!AimRxEvaluator::has_history(1, false, false));
    assert!(!AimRxEvaluator::has_history(7, true, false));
    assert!(!AimRxEvaluator::has_history(7, false, true));
}

#[test]
fn mods_flags() {
    let mods = GameMods { bits: NF | HD | NC | RX, blinds: false, traceable: true, classic: false };
    assert!(mods.nf() && mods.hd() && mods.dt() && mods.rx() && mods.tc());
    assert!(!mods.ap() && !mods.hr() && !mods.bl() && !mods.fl());
    let mods = GameMods { bits: DT | AP, ..GameMods::default() };
    assert!(mods.dt() && mods.ap());
    assert!(mods.no_slider_head_acc(false));
    assert!(!mods.no_slider_head_acc(true));
    assert!(GameMods { classic: true, ..mods }.no_slider_head_acc(true));
}

#[test]
fn ranks_are_stable_positions() {
    assert_eq!(rank_positions(&vec![30, 10, 20, 10]), vec![3, 0, 2, 1]);
    assert_eq!(rank_positions(&vec![]), Vec::<usize>::new());
    assert_eq!(rank_positions(&vec![5, 5, 5]), vec![0, 1, 2]);
}

#[test]
fn counting_helpers() {
    let attrs = HitObjectCounts {
        max_combo: 100,
        n_circles: 50,
        n_sliders: 20,
        n_spinners: 1,
        n_large_ticks: 9,
    };
    let state = OsuScoreState {
        max_combo: 80,
        large_tick_hits: 7,
        slider_end_hits: 18,
        n300: 60,
        n100: 5,
        n50: 3,
        misses: 3,
    };
    assert_eq!(n_slider_ends_dropped(&attrs, &state), 2);
    assert_eq!(n_large_tick_miss(&attrs, &state), 2);
    assert_eq!(total_imperfect_hits(&state), 11);
    assert_eq!(state.total_hits(), 71);
}
