use ccv3_pp::mods::{GameMods, HD};
use ccv3_pp::performance::{HitObjectCounts, OsuPerformance};
use ccv3_pp::score_state::OsuScoreOrigin;
use rosu_map::section::general::GameMode;

#[test]
fn try_mode_keeps_osu() {
    let calc = OsuPerformance::new().combo(500).misses(2);
    assert_eq!(calc.try_mode(GameMode::Osu), Ok(calc));
}

#[test]
fn try_mode_refuses_other_modes_without_a_map() {
    let calc = OsuPerformance::new().n300(100).n100(3);
    assert_eq!(calc.try_mode(GameMode::Taiko), Err(calc));
    assert_eq!(calc.try_mode(GameMode::Catch), Err(calc));
    assert_eq!(calc.try_mode(GameMode::Mania), Err(calc));
}

#[test]
fn mode_or_ignore_leaves_calculator_unchanged() {
    let calc = OsuPerformance::new().n50(7).lazer(false);
    for mode in [GameMode::Osu, GameMode::Taiko, GameMode::Catch, GameMode::Mania] {
        assert_eq!(calc.mode_or_ignore(mode), calc);
    }
}

#[test]
fn classic_mod_moves_slider_accuracy_to_ticks() {
    let attrs = HitObjectCounts {
        max_combo: 909,
        n_circles: 307,
        n_sliders: 293,
        n_spinners: 1,
        n_large_ticks: 15,
    };
    let classic = GameMods { bits: HD, blinds: false, traceable: false, classic: true };
    let calc = OsuPerformance::new().mods(classic);
    assert!(calc.classic);
    assert_eq!(
        calc.origin(&attrs),
        OsuScoreOrigin::WithoutSliderAcc { max_large_ticks: 308, max_slider_ends: 293 }
    );
    let plain = OsuPerformance::new().mods(GameMods { classic: false, ..classic });
    assert_eq!(
        plain.origin(&attrs),
        OsuScoreOrigin::WithSliderAcc { max_large_ticks: 15, max_slider_ends: 293 }
    );
    assert_eq!(plain.lazer(false).origin(&attrs), OsuScoreOrigin::Stable);
}
