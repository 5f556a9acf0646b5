//! Score states and the accuracy of their hitresults.
use vstd::prelude::*;

verus! {

/// The hitresults and combo of an osu!standard score.
#[derive(Clone, Copy, Debug, Default, PartialEq, Eq, Structural)]
pub struct OsuScoreState {
    /// Maximum combo that the score has had so far.
    pub max_combo: u32,
    /// "Large tick" hits (slider ticks and repeats; with classic also slider heads).
    pub large_tick_hits: u32,
    /// Hit slider ends (slider tails, or small ticks with classic).
    pub slider_end_hits: u32,
    /// Amount of 300s.
    pub n300: u32,
    /// Amount of 100s.
    pub n100: u32,
    /// Amount of 50s.
    pub n50: u32,
    /// Amount of misses.
    pub misses: u32,
}

impl OsuScoreState {
    /// The number of judged hit objects.
    pub open spec fn total_hits_spec(self) -> int {
        self.n300 + self.n100 + self.n50 + self.misses
    }

    /// Total amount of hits, i.e. `n300 + n100 + n50 + misses`.
    pub fn total_hits(&self) -> (n: u32)
        requires
            self.total_hits_spec() <= u32::MAX,
        ensures
            n == self.total_hits_spec(),
    {
        self.n300 + self.n100 + self.n50 + self.misses
    }
}

/// Where a score comes from, which decides how slider judgements count for
/// accuracy.
#[derive(Clone, Copy, Debug, PartialEq, Eq, Structural)]
pub enum OsuScoreOrigin {
    /// osu!stable: slider judgements do not count for accuracy.
    Stable,
    /// osu!lazer without classic: slider ends weigh 150, large ticks 30.
    WithSliderAcc { max_large_ticks: u32, max_slider_ends: u32 },
    /// osu!lazer with classic: large ticks weigh 30, slider ends 10.
    WithoutSliderAcc { max_large_ticks: u32, max_slider_ends: u32 },
}

/// The smaller of two integers.
pub open spec fn min_nat(a: int, b: int) -> int {
    if a <= b {
        a
    } else {
        b
    }
}

impl OsuScoreOrigin {
    /// Accuracy points earned by slider judgements (hits are capped at their maximum).
    pub open spec fn slider_acc_value(self, large_tick_hits: int, slider_end_hits: int) -> int {
        match self {
            OsuScoreOrigin::Stable => 0,
            OsuScoreOrigin::WithSliderAcc { max_large_ticks, max_slider_ends } => 150 * min_nat(
                slider_end_hits,
                max_slider_ends as int,
            ) + 30 * min_nat(large_tick_hits, max_large_ticks as int),
            OsuScoreOrigin::WithoutSliderAcc { max_large_ticks, max_slider_ends } => 30 * min_nat(
                large_tick_hits,
                max_large_ticks as int,
            ) + 10 * min_nat(slider_end_hits, max_slider_ends as int),
        }
    }

    /// Accuracy points that slider judgements can earn at most.
    pub open spec fn max_slider_acc_value(self) -> int {
        match self {
            OsuScoreOrigin::Stable => 0,
            OsuScoreOrigin::WithSliderAcc { max_large_ticks, max_slider_ends } => 150
                * max_slider_ends + 30 * max_large_ticks,
            OsuScoreOrigin::WithoutSliderAcc { max_large_ticks, max_slider_ends } => 30
                * max_large_ticks + 10 * max_slider_ends,
        }
    }
}

/// Hitresults without combo, as candidates of the hitresult generation.
#[derive(Clone, Copy, Debug, PartialEq, Eq, Structural)]
pub struct NoComboState {
    pub n300: u32,
    pub n100: u32,
    pub n50: u32,
    pub misses: u32,
    pub large_tick_hits: u32,
    pub slider_end_hits: u32,
}

impl NoComboState {
    /// Accuracy numerator: judgement points earned.
    pub open spec fn accuracy_numerator(self, origin: OsuScoreOrigin) -> int {
        300 * self.n300 + 100 * self.n100 + 50 * self.n50 + origin.slider_acc_value(
            self.large_tick_hits as int,
            self.slider_end_hits as int,
        )
    }

    /// Accuracy denominator: judgement points that could have been earned.
    pub open spec fn accuracy_denominator(self, origin: OsuScoreOrigin) -> int {
        300 * (self.n300 + self.n100 + self.n50 + self.misses) + origin.max_slider_acc_value()
    }

    /// Numerator and denominator of the accuracy of these hitresults; the
    /// accuracy is their quotient, or 0 where the denominator is 0.
    pub fn accuracy_parts(&self, origin: OsuScoreOrigin) -> (r: (u64, u64))
        ensures
            r.0 == self.accuracy_numerator(origin),
            r.1 == self.accuracy_denominator(origin),
            r.0 <= r.1,
    {
        let mut numerator: u64 = 300 * (self.n300 as u64) + 100 * (self.n100 as u64) + 50 * (
        self.n50 as u64);
        let mut denominator: u64 = 300 * (self.n300 as u64 + self.n100 as u64 + self.n50 as u64
            + self.misses as u64);
        match origin {
            OsuScoreOrigin::Stable => {},
            OsuScoreOrigin::WithSliderAcc { max_large_ticks, max_slider_ends } => {
                let slider_end_hits = if self.slider_end_hits < max_slider_ends {
                    self.slider_end_hits
                } else {
                    max_slider_ends
                };
                let large_tick_hits = if self.large_tick_hits < max_large_ticks {
                    self.large_tick_hits
                } else {
                    max_large_ticks
                };
                numerator = numerator + 150 * (slider_end_hits as u64) + 30 * (
                large_tick_hits as u64);
                denominator = denominator + 150 * (max_slider_ends as u64) + 30 * (
                max_large_ticks as u64);
            },
            OsuScoreOrigin::WithoutSliderAcc { max_large_ticks, max_slider_ends } => {
                let large_tick_hits = if self.large_tick_hits < max_large_ticks {
                    self.large_tick_hits
                } else {
                    max_large_ticks
                };
                let slider_end_hits = if self.slider_end_hits < max_slider_ends {
                    self.slider_end_hits
                } else {
                    max_slider_ends
                };
                numerator = numerator + 30 * (large_tick_hits as u64) + 10 * (
                slider_end_hits as u64);
                denominator = denominator + 30 * (max_large_ticks as u64) + 10 * (
                max_slider_ends as u64);
            },
        }
        (numerator, denominator)
    }
}

impl OsuScoreState {
    /// The hitresults of this score without its combo.
    pub open spec fn no_combo_spec(self) -> NoComboState {
        NoComboState {
            n300: self.n300,
            n100: self.n100,
            n50: self.n50,
            misses: self.misses,
            large_tick_hits: self.large_tick_hits,
            slider_end_hits: self.slider_end_hits,
        }
    }

    /// Numerator and denominator of the score's accuracy for the given origin.
    pub fn accuracy_parts(&self, origin: OsuScoreOrigin) -> (r: (u64, u64))
        ensures
            r.0 == self.no_combo_spec().accuracy_numerator(origin),
            r.1 == self.no_combo_spec().accuracy_denominator(origin),
            r.0 <= r.1,
    {
        let state = NoComboState {
            n300: self.n300,
            n100: self.n100,
            n50: self.n50,
            misses: self.misses,
            large_tick_hits: self.large_tick_hits,
            slider_end_hits: self.slider_end_hits,
        };
        state.accuracy_parts(origin)
    }
}

} // verus!
