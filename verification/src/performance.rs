//! Hitresult generation of the osu!standard performance calculator.
use vstd::prelude::*;

use rosu_map::section::general::GameMode;

use crate::mods::GameMods;
use crate::score_state::{min_nat, NoComboState, OsuScoreOrigin, OsuScoreState};
use crate::search::{closest_count, closest_in_window, closest_pair, closest_pair_count};

verus! {

/// How missing hitresults are filled in.
#[derive(Clone, Copy, Debug, PartialEq, Eq, Structural)]
pub enum HitResultPriority {
    /// Prefer good hitresults (300s over 100s over 50s).
    BestCase,
    /// Prefer bad hitresults (50s over 100s over 300s).
    WorstCase,
}

impl HitResultPriority {
    /// The priority used when none is given: [`HitResultPriority::BestCase`].
    pub fn default_priority() -> (p: HitResultPriority)
        ensures
            p == HitResultPriority::BestCase,
    {
        HitResultPriority::BestCase
    }
}

/// A target accuracy, `numerator / denominator`, between 0 and 1.
#[derive(Clone, Copy, Debug, PartialEq, Eq, Structural)]
pub struct Accuracy {
    pub numerator: u64,
    pub denominator: u64,
}

impl Accuracy {
    /// The fraction is well formed: a positive denominator and a value of at most 1.
    pub open spec fn wf(self) -> bool {
        self.denominator > 0 && self.numerator <= self.denominator
    }

    /// The accuracy `numerator / denominator`, clamped to at most 1.
    pub fn new(numerator: u64, denominator: u64) -> (a: Accuracy)
        requires
            denominator > 0,
        ensures
            a.wf(),
            a.denominator == denominator,
            a.numerator == min_nat(numerator as int, denominator as int),
    {
        let numerator = if numerator < denominator {
            numerator
        } else {
            denominator
        };
        Accuracy { numerator, denominator }
    }
}

/// What the hitresult generation reads of a map's difficulty attributes.
#[derive(Clone, Copy, Debug, Default, PartialEq, Eq, Structural)]
pub struct HitObjectCounts {
    /// Maximum combo of the map.
    pub max_combo: u32,
    /// Amount of circles.
    pub n_circles: u32,
    /// Amount of sliders.
    pub n_sliders: u32,
    /// Amount of spinners.
    pub n_spinners: u32,
    /// Amount of slider ticks and repeats.
    pub n_large_ticks: u32,
}

impl HitObjectCounts {
    /// Amount of hit objects.
    pub open spec fn n_objects_spec(self) -> int {
        self.n_circles + self.n_sliders + self.n_spinners
    }
}

/// `Some(n)` capped at `cap`, and 0 for `None`.
pub open spec fn opt_clip(o: Option<u32>, cap: int) -> int {
    match o {
        Some(n) => min_nat(n as int, cap),
        None => 0,
    }
}

/// `Some(n)` capped at `cap`, and `cap` for `None`.
pub open spec fn opt_clip_or(o: Option<u32>, cap: int) -> int {
    match o {
        Some(n) => min_nat(n as int, cap),
        None => cap,
    }
}

/// `a - b`, or 0 where that is negative.
pub open spec fn sat_sub(a: int, b: int) -> int {
    if a >= b {
        a - b
    } else {
        0
    }
}

/// Rebalance 300s, 100s and 50s of equal accuracy by priority: best case
/// trades four 50s and a 300 for five 100s as often as possible, worst case
/// trades five 100s for a 300 and four 50s as often as possible.
pub open spec fn rebalance(priority: HitResultPriority, a: int, b: int, c: int) -> (int, int, int) {
    match priority {
        HitResultPriority::BestCase => {
            let n = min_nat(a, c / 4);
            (a - n, b + 5 * n, c - 4 * n)
        },
        HitResultPriority::WorstCase => {
            let n = b / 5;
            (a + n, b - 5 * n, c + 4 * n)
        },
    }
}

/// The score parameters that hitresults are generated from.
#[derive(Clone, Copy, Debug, PartialEq, Eq)]
pub struct OsuPerformance {
    /// Target accuracy, if one was given.
    pub acc: Option<Accuracy>,
    /// Maximum combo of the play.
    pub combo: Option<u32>,
    /// Amount of "large tick" hits.
    pub large_tick_hits: Option<u32>,
    /// Amount of hit slider ends.
    pub slider_end_hits: Option<u32>,
    pub n300: Option<u32>,
    pub n100: Option<u32>,
    pub n50: Option<u32>,
    pub misses: Option<u32>,
    /// How missing hitresults are filled in.
    pub hitresult_priority: HitResultPriority,
    /// Whether the score was set on osu!lazer.
    pub lazer: bool,
    /// Whether the mods contain classic with slider head accuracy turned off.
    pub classic: bool,
    /// Amount of passed objects for partial plays.
    pub passed_objects: u32,
}

impl OsuPerformance {
    /// Parameters with nothing given: best-case priority, an osu!lazer score,
    /// no classic mod, and every object passed.
    pub fn new() -> (p: OsuPerformance)
        ensures
            p == (OsuPerformance {
                acc: None,
                combo: None,
                large_tick_hits: None,
                slider_end_hits: None,
                n300: None,
                n100: None,
                n50: None,
                misses: None,
                hitresult_priority: HitResultPriority::BestCase,
                lazer: true,
                classic: false,
                passed_objects: u32::MAX,
            }),
    {
        OsuPerformance {
            acc: None,
            combo: None,
            large_tick_hits: None,
            slider_end_hits: None,
            n300: None,
            n100: None,
            n50: None,
            misses: None,
            hitresult_priority: HitResultPriority::default_priority(),
            lazer: true,
            classic: false,
            passed_objects: u32::MAX,
        }
    }

    /// Specify the mods; of them, the generation reads whether classic turns
    /// slider head accuracy off.
    pub fn mods(self, mods: GameMods) -> (p: OsuPerformance)
        ensures
            p == (OsuPerformance { classic: mods.classic, ..self }),
    {
        OsuPerformance { classic: mods.classic, ..self }
    }

    /// Specify the max combo of the play.
    pub fn combo(self, combo: u32) -> (p: OsuPerformance)
        ensures
            p == (OsuPerformance { combo: Some(combo), ..self }),
    {
        OsuPerformance { combo: Some(combo), ..self }
    }

    /// Specify how hitresults should be generated.
    pub fn hitresult_priority(self, priority: HitResultPriority) -> (p: OsuPerformance)
        ensures
            p == (OsuPerformance { hitresult_priority: priority, ..self }),
    {
        OsuPerformance { hitresult_priority: priority, ..self }
    }

    /// Whether the score was set on osu!lazer (`true`) or osu!stable.
    pub fn lazer(self, lazer: bool) -> (p: OsuPerformance)
        ensures
            p == (OsuPerformance { lazer, ..self }),
    {
        OsuPerformance { lazer, ..self }
    }

    /// Specify the amount of "large tick" hits.
    pub fn n_large_ticks(self, n_large_ticks: u32) -> (p: OsuPerformance)
        ensures
            p == (OsuPerformance { large_tick_hits: Some(n_large_ticks), ..self }),
    {
        OsuPerformance { large_tick_hits: Some(n_large_ticks), ..self }
    }

    /// Specify the amount of hit slider ends.
    pub fn n_slider_ends(self, n_slider_ends: u32) -> (p: OsuPerformance)
        ensures
            p == (OsuPerformance { slider_end_hits: Some(n_slider_ends), ..self }),
    {
        OsuPerformance { slider_end_hits: Some(n_slider_ends), ..self }
    }

    /// Specify the amount of 300s of a play.
    pub fn n300(self, n300: u32) -> (p: OsuPerformance)
        ensures
            p == (OsuPerformance { n300: Some(n300), ..self }),
    {
        OsuPerformance { n300: Some(n300), ..self }
    }

    /// Specify the amount of 100s of a play.
    pub fn n100(self, n100: u32) -> (p: OsuPerformance)
        ensures
            p == (OsuPerformance { n100: Some(n100), ..self }),
    {
        OsuPerformance { n100: Some(n100), ..self }
    }

    /// Specify the amount of 50s of a play.
    pub fn n50(self, n50: u32) -> (p: OsuPerformance)
        ensures
            p == (OsuPerformance { n50: Some(n50), ..self }),
    {
        OsuPerformance { n50: Some(n50), ..self }
    }

    /// Specify the amount of misses of a play.
    pub fn misses(self, n_misses: u32) -> (p: OsuPerformance)
        ensures
            p == (OsuPerformance { misses: Some(n_misses), ..self }),
    {
        OsuPerformance { misses: Some(n_misses), ..self }
    }

    /// Amount of passed objects for partial plays, e.g. a fail.
    pub fn passed_objects(self, passed_objects: u32) -> (p: OsuPerformance)
        ensures
            p == (OsuPerformance { passed_objects, ..self }),
    {
        OsuPerformance { passed_objects, ..self }
    }

    /// Specify the target accuracy; it is used to generate matching hitresults.
    pub fn accuracy(self, acc: Accuracy) -> (p: OsuPerformance)
        ensures
            p == (OsuPerformance { acc: Some(acc), ..self }),
    {
        OsuPerformance { acc: Some(acc), ..self }
    }

    /// Provide every hitresult and the combo through an [`OsuScoreState`].
    pub fn state(self, state: OsuScoreState) -> (p: OsuPerformance)
        ensures
            p == self.with_state(state),
    {
        OsuPerformance {
            combo: Some(state.max_combo),
            large_tick_hits: Some(state.large_tick_hits),
            slider_end_hits: Some(state.slider_end_hits),
            n300: Some(state.n300),
            n100: Some(state.n100),
            n50: Some(state.n50),
            misses: Some(state.misses),
            ..self
        }
    }

    /// Amount of objects that the score covers.
    pub open spec fn n_objects_for(self, attrs: HitObjectCounts) -> int {
        min_nat(self.passed_objects as int, attrs.n_objects_spec())
    }

    /// Misses of the generated state.
    pub open spec fn misses_for(self, attrs: HitObjectCounts) -> int {
        opt_clip(self.misses, self.n_objects_for(attrs))
    }

    /// Objects that are not misses.
    pub open spec fn remaining_for(self, attrs: HitObjectCounts) -> int {
        self.n_objects_for(attrs) - self.misses_for(attrs)
    }

    /// How slider judgements count for accuracy.
    pub open spec fn origin_for(self, attrs: HitObjectCounts) -> OsuScoreOrigin {
        if !self.lazer {
            OsuScoreOrigin::Stable
        } else if !self.classic {
            OsuScoreOrigin::WithSliderAcc {
                max_large_ticks: attrs.n_large_ticks,
                max_slider_ends: attrs.n_sliders,
            }
        } else {
            OsuScoreOrigin::WithoutSliderAcc {
                max_large_ticks: (attrs.n_sliders + attrs.n_large_ticks) as u32,
                max_slider_ends: attrs.n_sliders,
            }
        }
    }

    /// Slider end hits of the generated state.
    pub open spec fn slider_end_hits_for(self, attrs: HitObjectCounts) -> int {
        if !self.lazer {
            0
        } else {
            opt_clip_or(self.slider_end_hits, attrs.n_sliders as int)
        }
    }

    /// Large tick hits of the generated state.
    pub open spec fn large_tick_hits_for(self, attrs: HitObjectCounts) -> int {
        if !self.lazer {
            0
        } else if !self.classic {
            opt_clip_or(self.large_tick_hits, attrs.n_large_ticks as int)
        } else {
            opt_clip_or(self.large_tick_hits, attrs.n_sliders + attrs.n_large_ticks)
        }
    }

    /// Accuracy points of the generated slider judgements.
    pub open spec fn slider_acc_for(self, attrs: HitObjectCounts) -> int {
        self.origin_for(attrs).slider_acc_value(
            self.large_tick_hits_for(attrs),
            self.slider_end_hits_for(attrs),
        )
    }

    /// Accuracy denominator of any state that judges every covered object.
    pub open spec fn acc_denominator_for(self, attrs: HitObjectCounts) -> int {
        300 * self.n_objects_for(attrs) + self.origin_for(attrs).max_slider_acc_value()
    }

    /// Distance goal of a search: target accuracy points minus `base`, both
    /// over the common denominator `acc.denominator * acc_denominator_for`.
    pub open spec fn goal_for(self, attrs: HitObjectCounts, acc: Accuracy, base: int) -> int {
        acc.numerator * self.acc_denominator_for(attrs) - acc.denominator * base
    }

    /// The given amount of 300s, 100s, 50s, capped at the non-missed objects.
    pub open spec fn given_for(self, attrs: HitObjectCounts) -> (int, int, int) {
        let nr = self.remaining_for(attrs);
        (opt_clip(self.n300, nr), opt_clip(self.n100, nr), opt_clip(self.n50, nr))
    }

    /// Objects not yet accounted for by the given counts and the misses.
    pub open spec fn unaccounted_for(self, attrs: HitObjectCounts) -> int {
        let (c300, c100, c50) = self.given_for(attrs);
        sat_sub(self.n_objects_for(attrs), c300 + c100 + c50 + self.misses_for(attrs))
    }

    /// 300s, 100s and 50s when no accuracy is given: the unaccounted objects
    /// go to the first count that was not given, in priority order, or else
    /// onto the best (or worst) count.
    pub open spec fn counts_without_acc(self, attrs: HitObjectCounts) -> (int, int, int) {
        let (c300, c100, c50) = self.given_for(attrs);
        let rem = self.unaccounted_for(attrs);
        match self.hitresult_priority {
            HitResultPriority::BestCase => if self.n300 is None {
                (rem, c100, c50)
            } else if self.n100 is None {
                (c300, rem, c50)
            } else if self.n50 is None {
                (c300, c100, rem)
            } else {
                (c300 + rem, c100, c50)
            },
            HitResultPriority::WorstCase => if self.n50 is None {
                (c300, c100, rem)
            } else if self.n100 is None {
                (c300, rem, c50)
            } else if self.n300 is None {
                (rem, c100, c50)
            } else {
                (c300, c100, c50 + rem)
            },
        }
    }

    /// 300s, 100s and 50s when a target accuracy is given.
    pub open spec fn counts_with_acc(self, attrs: HitObjectCounts, acc: Accuracy) -> (
        int,
        int,
        int,
    ) {
        let n0 = self.n_objects_for(attrs);
        let ms = self.misses_for(attrs);
        let nr = self.remaining_for(attrs);
        let (c300, c100, c50) = self.given_for(attrs);
        let sav = self.slider_acc_for(attrs);
        let ad = acc.denominator as int;
        if self.n300 is Some && self.n100 is Some && self.n50 is Some {
            let rem = self.unaccounted_for(attrs);
            match self.hitresult_priority {
                HitResultPriority::BestCase => (c300 + rem, c100, c50),
                HitResultPriority::WorstCase => (c300, c100, c50 + rem),
            }
        } else if self.n300 is Some && self.n100 is Some {
            (c300, c100, sat_sub(n0, c300 + c100 + ms))
        } else if self.n300 is Some && self.n50 is Some {
            (c300, sat_sub(n0, c300 + c50 + ms), c50)
        } else if self.n100 is Some && self.n50 is Some {
            (sat_sub(n0, c100 + c50 + ms), c100, c50)
        } else if self.n300 is Some {
            // 100s and 50s split the rest; each 100 adds 50 points over a 50.
            let nr2 = nr - c300;
            let goal = self.goal_for(attrs, acc, 50 * nr2 + 300 * c300 + sav);
            let x = closest_in_window(goal, 50 * ad, nr2);
            (c300, x, nr2 - x)
        } else if self.n100 is Some {
            // 300s and 50s split the rest; each 300 adds 250 points over a 50.
            let nr2 = nr - c100;
            let goal = self.goal_for(attrs, acc, 50 * nr2 + 100 * c100 + sav);
            let x = closest_in_window(goal, 250 * ad, nr2);
            (x, c100, nr2 - x)
        } else if self.n50 is Some {
            // 300s and 100s split the rest; each 300 adds 200 points over a 100.
            let nr2 = nr - c50;
            let goal = self.goal_for(attrs, acc, 100 * n0 + sav - 100 * ms - 50 * c50);
            let x = closest_in_window(goal, 200 * ad, nr2);
            (x, nr2 - x, c50)
        } else {
            // 300s first (each adds 250 over a 50), then 100s (each adds 50 over a 50).
            let goal = self.goal_for(attrs, acc, 50 * nr + sav);
            let (a, b) = closest_pair(goal, 250 * ad, 50 * ad, nr);
            rebalance(self.hitresult_priority, a, b, nr - a - b)
        }
    }

    /// 300s, 100s and 50s of the generated state.
    pub open spec fn counts_for(self, attrs: HitObjectCounts) -> (int, int, int) {
        match self.acc {
            Some(acc) => self.counts_with_acc(attrs, acc),
            None => self.counts_without_acc(attrs),
        }
    }

    /// Maximum combo of the generated state: the given combo, capped at the
    /// map's maximum combo minus the misses.
    pub open spec fn combo_for(self, attrs: HitObjectCounts) -> int {
        opt_clip_or(self.combo, sat_sub(attrs.max_combo as int, self.misses_for(attrs)))
    }

    /// The score state that [`OsuPerformance::generate_state`] produces.
    pub open spec fn generated_state(self, attrs: HitObjectCounts) -> OsuScoreState {
        let (n300, n100, n50) = self.counts_for(attrs);
        OsuScoreState {
            max_combo: self.combo_for(attrs) as u32,
            large_tick_hits: self.large_tick_hits_for(attrs) as u32,
            slider_end_hits: self.slider_end_hits_for(attrs) as u32,
            n300: n300 as u32,
            n100: n100 as u32,
            n50: n50 as u32,
            misses: self.misses_for(attrs) as u32,
        }
    }

    /// The parameters after they were filled in with the generated state.
    pub open spec fn with_state(self, s: OsuScoreState) -> OsuPerformance {
        OsuPerformance {
            combo: Some(s.max_combo),
            large_tick_hits: Some(s.large_tick_hits),
            slider_end_hits: Some(s.slider_end_hits),
            n300: Some(s.n300),
            n100: Some(s.n100),
            n50: Some(s.n50),
            misses: Some(s.misses),
            ..self
        }
    }

    /// What `generate_state` needs: a well formed accuracy, and the classic
    /// maximum of large ticks fitting in a `u32`.
    pub open spec fn generation_ok(self, attrs: HitObjectCounts) -> bool {
        &&& self.acc matches Some(a) ==> a.wf()
        &&& self.lazer && self.classic ==> attrs.n_sliders + attrs.n_large_ticks <= u32::MAX
    }
}

/// `Some(n)` capped at `cap`, and 0 for `None`.
fn clip(o: Option<u32>, cap: u32) -> (r: u32)
    ensures
        r == opt_clip(o, cap as int),
        r <= cap,
{
    match o {
        Some(n) => if n < cap {
            n
        } else {
            cap
        },
        None => 0,
    }
}

/// `Some(n)` capped at `cap`, and `cap` for `None`.
fn clip_or(o: Option<u32>, cap: u32) -> (r: u32)
    ensures
        r == opt_clip_or(o, cap as int),
        r <= cap,
{
    match o {
        Some(n) => if n < cap {
            n
        } else {
            cap
        },
        None => cap,
    }
}

/// `a - b`, or 0 where that is negative.
fn sat_sub_u64(a: u64, b: u64) -> (r: u64)
    ensures
        r == sat_sub(a as int, b as int),
{
    if a >= b {
        a - b
    } else {
        0
    }
}

/// Search goal `acc.numerator * denom - acc.denominator * base`.
fn goal_of(acc: Accuracy, denom: u64, base: u64) -> (g: i128)
    requires
        acc.wf(),
        denom < 0x400_0000_0000,
        base < 0x400_0000_0000,
    ensures
        g == acc.numerator * denom - acc.denominator * base,
        -0x400_0000_0000_0000_0000_0000_0000 <= g <= 0x400_0000_0000_0000_0000_0000_0000,
{
    let an = acc.numerator as i128;
    let ad = acc.denominator as i128;
    assert(0 <= an * denom <= 0x1_0000_0000_0000_0000 * 0x400_0000_0000) by (nonlinear_arith)
        requires
            0 <= an < 0x1_0000_0000_0000_0000,
            0 <= denom < 0x400_0000_0000,
    ;
    assert(0 <= ad * base <= 0x1_0000_0000_0000_0000 * 0x400_0000_0000) by (nonlinear_arith)
        requires
            0 <= ad < 0x1_0000_0000_0000_0000,
            0 <= base < 0x400_0000_0000,
    ;
    an * (denom as i128) - ad * (base as i128)
}

/// Values that every branch of the hitresult generation reads.
struct Setup {
    n_objects: u32,
    misses: u32,
    n_remaining: u32,
    c300: u32,
    c100: u32,
    c50: u32,
    rem: u64,
    slider_acc: u64,
    denom: u64,
}

impl OsuPerformance {
    /// `st` holds the values that the specification derives from `self` and `attrs`.
    spec fn setup_ok(self, attrs: HitObjectCounts, st: Setup) -> bool {
        &&& st.n_objects == self.n_objects_for(attrs)
        &&& st.misses == self.misses_for(attrs)
        &&& st.n_remaining == self.remaining_for(attrs)
        &&& (st.c300 as int, st.c100 as int, st.c50 as int) == self.given_for(attrs)
        &&& st.rem == self.unaccounted_for(attrs)
        &&& st.slider_acc == self.slider_acc_for(attrs)
        &&& st.denom == self.acc_denominator_for(attrs)
        &&& st.n_remaining == st.n_objects - st.misses
        &&& st.c300 <= st.n_remaining && st.c100 <= st.n_remaining && st.c50 <= st.n_remaining
        &&& st.slider_acc + 300 * st.n_objects <= st.denom < 0x200_0000_0000
    }

    /// Counts of the search branches (exactly one or none of the counts given).
    fn searched_counts(&self, attrs: &HitObjectCounts, acc: Accuracy, st: &Setup) -> (r: (
        u32,
        u32,
        u32,
    ))
        requires
            self.setup_ok(*attrs, *st),
            acc.wf(),
            self.acc == Some(acc),
            !(self.n300 is Some && self.n100 is Some),
            !(self.n300 is Some && self.n50 is Some),
            !(self.n100 is Some && self.n50 is Some),
        ensures
            (r.0 as int, r.1 as int, r.2 as int) == self.counts_with_acc(*attrs, acc),
    {
        let ad = acc.denominator as i128;
        let n_remaining = st.n_remaining;
        if self.n300.is_some() {
            let nr2 = n_remaining - st.c300;
            let base = 50 * (nr2 as u64) + 300 * (st.c300 as u64) + st.slider_acc;
            let goal = goal_of(acc, st.denom, base);
            let x = closest_count(goal, 50 * ad, nr2);
            (st.c300, x, nr2 - x)
        } else if self.n100.is_some() {
            let nr2 = n_remaining - st.c100;
            let base = 50 * (nr2 as u64) + 100 * (st.c100 as u64) + st.slider_acc;
            let goal = goal_of(acc, st.denom, base);
            let x = closest_count(goal, 250 * ad, nr2);
            (x, st.c100, nr2 - x)
        } else if self.n50.is_some() {
            let nr2 = n_remaining - st.c50;
            let base = 100 * (n_remaining as u64) + st.slider_acc - 50 * (st.c50 as u64);
            let goal = goal_of(acc, st.denom, base);
            let x = closest_count(goal, 200 * ad, nr2);
            (x, nr2 - x, st.c50)
        } else {
            let base = 50 * (n_remaining as u64) + st.slider_acc;
            let goal = goal_of(acc, st.denom, base);
            let (a, b) = closest_pair_count(goal, 250 * ad, 50 * ad, n_remaining);
            let c = n_remaining - a - b;
            match self.hitresult_priority {
                HitResultPriority::BestCase => {
                    let quarter = c / 4;
                    let n = if a < quarter {
                        a
                    } else {
                        quarter
                    };
                    (a - n, b + 5 * n, c - 4 * n)
                },
                HitResultPriority::WorstCase => {
                    let n = b / 5;
                    (a + n, b - 5 * n, c + 4 * n)
                },
            }
        }
    }

    /// Counts when a target accuracy is given.
    fn counts_with_acc_exec(&self, attrs: &HitObjectCounts, acc: Accuracy, st: &Setup) -> (r: (
        u32,
        u32,
        u32,
    ))
        requires
            self.setup_ok(*attrs, *st),
            acc.wf(),
            self.acc == Some(acc),
        ensures
            (r.0 as int, r.1 as int, r.2 as int) == self.counts_with_acc(*attrs, acc),
    {
        let (c300, c100, c50) = (st.c300, st.c100, st.c50);
        let misses = st.misses as u64;
        let n_objects = st.n_objects as u64;
        if self.n300.is_some() && self.n100.is_some() && self.n50.is_some() {
            match self.hitresult_priority {
                HitResultPriority::BestCase => (c300 + st.rem as u32, c100, c50),
                HitResultPriority::WorstCase => (c300, c100, c50 + st.rem as u32),
            }
        } else if self.n300.is_some() && self.n100.is_some() {
            (c300, c100, sat_sub_u64(n_objects, c300 as u64 + c100 as u64 + misses) as u32)
        } else if self.n300.is_some() && self.n50.is_some() {
            (c300, sat_sub_u64(n_objects, c300 as u64 + c50 as u64 + misses) as u32, c50)
        } else if self.n100.is_some() && self.n50.is_some() {
            (sat_sub_u64(n_objects, c100 as u64 + c50 as u64 + misses) as u32, c100, c50)
        } else {
            self.searched_counts(attrs, acc, st)
        }
    }

    /// Counts when no accuracy is given.
    fn counts_without_acc_exec(&self, attrs: &HitObjectCounts, st: &Setup) -> (r: (
        u32,
        u32,
        u32,
    ))
        requires
            self.setup_ok(*attrs, *st),
        ensures
            (r.0 as int, r.1 as int, r.2 as int) == self.counts_without_acc(*attrs),
    {
        let (c300, c100, c50) = (st.c300, st.c100, st.c50);
        let rem = st.rem as u32;
        match self.hitresult_priority {
            HitResultPriority::BestCase => {
                if self.n300.is_none() {
                    (rem, c100, c50)
                } else if self.n100.is_none() {
                    (c300, rem, c50)
                } else if self.n50.is_none() {
                    (c300, c100, rem)
                } else {
                    (c300 + rem, c100, c50)
                }
            },
            HitResultPriority::WorstCase => {
                if self.n50.is_none() {
                    (c300, c100, rem)
                } else if self.n100.is_none() {
                    (c300, rem, c50)
                } else if self.n300.is_none() {
                    (rem, c100, c50)
                } else {
                    (c300, c100, c50 + rem)
                }
            },
        }
    }

    /// How slider judgements of the score count for accuracy.
    pub fn origin(&self, attrs: &HitObjectCounts) -> (o: OsuScoreOrigin)
        requires
            self.generation_ok(*attrs),
        ensures
            o == self.origin_for(*attrs),
    {
        self.slider_setup(attrs).0
    }

    /// Slider judgement values: origin, slider end hits, large tick hits.
    fn slider_setup(&self, attrs: &HitObjectCounts) -> (r: (OsuScoreOrigin, u32, u32))
        requires
            self.generation_ok(*attrs),
        ensures
            r.0 == self.origin_for(*attrs),
            r.1 == self.slider_end_hits_for(*attrs),
            r.2 == self.large_tick_hits_for(*attrs),
    {
        if !self.lazer {
            (OsuScoreOrigin::Stable, 0u32, 0u32)
        } else if !self.classic {
            let origin = OsuScoreOrigin::WithSliderAcc {
                max_large_ticks: attrs.n_large_ticks,
                max_slider_ends: attrs.n_sliders,
            };
            (
                origin,
                clip_or(self.slider_end_hits, attrs.n_sliders),
                clip_or(self.large_tick_hits, attrs.n_large_ticks),
            )
        } else {
            let max_large_ticks = attrs.n_sliders + attrs.n_large_ticks;
            let origin = OsuScoreOrigin::WithoutSliderAcc {
                max_large_ticks,
                max_slider_ends: attrs.n_sliders,
            };
            (
                origin,
                clip_or(self.slider_end_hits, attrs.n_sliders),
                clip_or(self.large_tick_hits, max_large_ticks),
            )
        }
    }

    /// Create the [`OsuScoreState`] that will be used for performance
    /// calculation, and fill the parameters in with it.
    pub fn generate_state(&mut self, attrs: &HitObjectCounts) -> (s: OsuScoreState)
        requires
            old(self).generation_ok(*attrs),
        ensures
            s == old(self).generated_state(*attrs),
            *final(self) == old(self).with_state(s),
    {
        let ghost this = *self;
        let n_all: u64 = attrs.n_circles as u64 + attrs.n_sliders as u64 + attrs.n_spinners as u64;
        let n_objects: u32 = if (self.passed_objects as u64) < n_all {
            self.passed_objects
        } else {
            n_all as u32
        };
        let misses = clip(self.misses, n_objects);
        let n_remaining = n_objects - misses;
        let c300 = clip(self.n300, n_remaining);
        let c100 = clip(self.n100, n_remaining);
        let c50 = clip(self.n50, n_remaining);
        let (origin, slider_end_hits, large_tick_hits) = self.slider_setup(attrs);
        let (slider_acc, max_slider_acc): (u64, u64) = match origin {
            OsuScoreOrigin::Stable => (0, 0),
            OsuScoreOrigin::WithSliderAcc { max_large_ticks, max_slider_ends } => (
                150 * (slider_end_hits as u64) + 30 * (large_tick_hits as u64),
                150 * (max_slider_ends as u64) + 30 * (max_large_ticks as u64),
            ),
            OsuScoreOrigin::WithoutSliderAcc { max_large_ticks, max_slider_ends } => (
                30 * (large_tick_hits as u64) + 10 * (slider_end_hits as u64),
                30 * (max_large_ticks as u64) + 10 * (max_slider_ends as u64),
            ),
        };
        let given = c300 as u64 + c100 as u64 + c50 as u64 + misses as u64;
        let st = Setup {
            n_objects,
            misses,
            n_remaining,
            c300,
            c100,
            c50,
            rem: sat_sub_u64(n_objects as u64, given),
            slider_acc,
            denom: 300 * (n_objects as u64) + max_slider_acc,
        };
        assert(this.setup_ok(*attrs, st));
        let (n300, n100, n50) = match self.acc {
            Some(acc) => self.counts_with_acc_exec(attrs, acc, &st),
            None => self.counts_without_acc_exec(attrs, &st),
        };
        let max_possible_combo = if attrs.max_combo >= misses {
            attrs.max_combo - misses
        } else {
            0
        };
        let max_combo = clip_or(self.combo, max_possible_combo);
        self.combo = Some(max_combo);
        self.slider_end_hits = Some(slider_end_hits);
        self.large_tick_hits = Some(large_tick_hits);
        self.n300 = Some(n300);
        self.n100 = Some(n100);
        self.n50 = Some(n50);
        self.misses = Some(misses);
        OsuScoreState {
            max_combo,
            large_tick_hits,
            slider_end_hits,
            n300,
            n100,
            n50,
            misses,
        }
    }
}

/// Amount of 100s, 50s and misses: judgements that are not perfect.
pub fn total_imperfect_hits(state: &OsuScoreState) -> (n: u64)
    ensures
        n == state.n100 + state.n50 + state.misses,
{
    state.n100 as u64 + state.n50 as u64 + state.misses as u64
}

/// Amount of slider ends that the score did not hit.
pub fn n_slider_ends_dropped(attrs: &HitObjectCounts, state: &OsuScoreState) -> (n: u32)
    requires
        state.slider_end_hits <= attrs.n_sliders,
    ensures
        n == attrs.n_sliders - state.slider_end_hits,
{
    attrs.n_sliders - state.slider_end_hits
}

/// Amount of large ticks that the score did not hit.
pub fn n_large_tick_miss(attrs: &HitObjectCounts, state: &OsuScoreState) -> (n: u32)
    requires
        state.large_tick_hits <= attrs.n_large_ticks,
    ensures
        n == attrs.n_large_ticks - state.large_tick_hits,
{
    attrs.n_large_ticks - state.large_tick_hits
}

/// The game mode type of `rosu_map`.
#[verifier::external_type_specification]
#[verifier::external_body]
pub struct ExGameMode(GameMode);

/// Whether a game mode is osu!standard (`GameMode::Osu`).
pub uninterp spec fn is_osu_mode(mode: GameMode) -> bool;

/// Tells `rosu_map`'s `GameMode::Osu` apart from the other variants (a match
/// on `rosu_map::section::general::GameMode`); `is_osu_mode` names the answer.
#[verifier::external_body]
fn mode_is_osu(mode: GameMode) -> (b: bool)
    ensures
        b == is_osu_mode(mode),
{
    match mode {
        GameMode::Osu => true,
        GameMode::Taiko | GameMode::Catch | GameMode::Mania => false,
    }
}

impl OsuPerformance {
    /// Attempt to convert the calculator to the given mode. These parameters
    /// hold no beatmap to convert, so only osu!standard itself succeeds:
    /// `Ok(self)` for `GameMode::Osu`, `Err(self)` for any other mode.
    pub fn try_mode(self, mode: GameMode) -> (r: Result<OsuPerformance, OsuPerformance>)
        ensures
            is_osu_mode(mode) ==> r == Ok::<OsuPerformance, OsuPerformance>(self),
            !is_osu_mode(mode) ==> r == Err::<OsuPerformance, OsuPerformance>(self),
    {
        if mode_is_osu(mode) {
            Ok(self)
        } else {
            Err(self)
        }
    }

    /// Attempt to convert the calculator to the given mode, keeping it as it
    /// is where that fails; with no beatmap held, it always stays as it is.
    pub fn mode_or_ignore(self, mode: GameMode) -> (p: OsuPerformance)
        ensures
            p == self,
    {
        match self.try_mode(mode) {
            Ok(p) => p,
            Err(p) => p,
        }
    }
}

} // verus!
