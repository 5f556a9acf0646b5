//! Which difficulty objects the relax aim evaluator looks at.
use vstd::prelude::*;

verus! {

/// Relax-specific aim evaluator. The strain arithmetic is floating point;
/// what stands here is the choice of the objects that it reads.
#[derive(Clone, Copy, Debug, PartialEq, Eq, Structural)]
pub struct AimRxEvaluator;

/// Index of the difficulty object `back + 1` places before the one at `idx`.
pub open spec fn previous_index(idx: int, back: int) -> Option<usize> {
    if idx >= back + 1 {
        Some((idx - back - 1) as usize)
    } else {
        None
    }
}

impl AimRxEvaluator {
    /// Number of previous difficulty objects sampled by the windowed angle
    /// and distance statistics.
    pub const ANGLE_WINDOW: usize = 6;

    /// Index of the difficulty object `back + 1` places before the one at `idx`.
    pub fn previous(idx: usize, back: usize) -> (r: Option<usize>)
        ensures
            r == previous_index(idx as int, back as int),
    {
        if back < idx {
            Some(idx - back - 1)
        } else {
            None
        }
    }

    /// The previous difficulty objects that a windowed statistic of the object
    /// at `idx` reads, nearest first: up to `window` of them, stopping at the
    /// start of the map.
    pub fn lookback(idx: usize, window: usize) -> (v: Vec<usize>)
        ensures
            v@.len() == if idx < window {
                idx
            } else {
                window
            },
            forall|j: int| 0 <= j < v@.len() ==> #[trigger] v@[j] == idx - 1 - j,
    {
        let mut v: Vec<usize> = Vec::new();
        let mut back: usize = 0;
        while back < window && back < idx
            invariant
                back <= window,
                back <= idx,
                v@.len() == back,
                forall|j: int| 0 <= j < v@.len() ==> #[trigger] v@[j] == idx - 1 - j,
            decreases window - back,
        {
            v.push(idx - back - 1);
            back = back + 1;
        }
        v
    }

    /// Whether the object at `idx` gets an aim strain at all: it needs two
    /// previous objects, and neither it nor the previous one may be a spinner.
    pub fn has_history(idx: usize, curr_is_spinner: bool, last_is_spinner: bool) -> (b: bool)
        ensures
            b == (idx >= 2 && !curr_is_spinner && !last_is_spinner),
    {
        match (Self::previous(idx, 1), Self::previous(idx, 0)) {
            (Some(_), Some(_)) => !(curr_is_spinner || last_is_spinner),
            _ => false,
        }
    }
}

} // verus!
