//! How the difficulty calculation pairs hit objects into difficulty objects
//! and how many of them the skills process.
use vstd::prelude::*;

verus! {

/// The hit objects that a difficulty object is computed from: the object it
/// judges (`curr`), the one before it (`last`) and, where there is one, the one
/// before that (`last_last`). `idx` is its position among the difficulty objects.
#[derive(Clone, Copy, Debug, PartialEq, Eq, Structural)]
pub struct DifficultyObjectLinks {
    pub idx: usize,
    pub curr: usize,
    pub last: usize,
    pub last_last: Option<usize>,
}

/// The links of the `i`-th difficulty object: hit object `i + 1` judged after
/// hit objects `i` and `i - 1`.
pub open spec fn link_at(i: int) -> DifficultyObjectLinks {
    DifficultyObjectLinks {
        idx: i as usize,
        curr: (i + 1) as usize,
        last: i as usize,
        last_last: if i >= 1 {
            Some((i - 1) as usize)
        } else {
            None
        },
    }
}

/// Objects that the score passed: the passed objects, or all objects if fewer.
pub open spec fn passed_count(take: int, n_objects: int) -> int {
    if n_objects <= take {
        n_objects
    } else {
        take
    }
}

/// The plan of the difficulty calculation over a map's hit objects.
#[derive(Clone, Debug, PartialEq, Eq)]
pub struct DifficultyValues {
    /// One difficulty object per hit object after the first.
    pub diff_objects: Vec<DifficultyObjectLinks>,
    /// How many of the difficulty objects (from the first on) the skills process.
    pub n_processed: usize,
}

impl DifficultyValues {
    /// Difficulty objects of a map with `n_objects` hit objects when `take`
    /// objects were passed: none if there are no objects or none was passed,
    /// else one for each hit object after the first, tied to its two
    /// predecessors.
    pub fn create_difficulty_objects(take: usize, n_objects: usize) -> (v: Vec<
        DifficultyObjectLinks,
    >)
        ensures
            n_objects == 0 || take == 0 ==> v@.len() == 0,
            n_objects > 0 && take > 0 ==> v@.len() == n_objects - 1,
            forall|i: int| 0 <= i < v@.len() ==> #[trigger] v@[i] == link_at(i),
    {
        let mut v: Vec<DifficultyObjectLinks> = Vec::new();
        if n_objects == 0 || take == 0 {
            return v;
        }
        let mut i: usize = 0;
        while i + 1 < n_objects
            invariant
                n_objects > 0,
                i < n_objects,
                v@.len() == i,
                forall|j: int| 0 <= j < i ==> #[trigger] v@[j] == link_at(j),
            decreases n_objects - i,
        {
            let last_last = if i >= 1 {
                Some(i - 1)
            } else {
                None
            };
            v.push(DifficultyObjectLinks { idx: i, curr: i + 1, last: i, last_last });
            i = i + 1;
        }
        v
    }

    /// Difficulty objects of the map, and how many of them the skills process:
    /// the first hit object has no difficulty object, so that is one fewer
    /// than the passed objects (or all objects, if fewer), and never negative.
    pub fn calculate(take: usize, n_objects: usize) -> (d: DifficultyValues)
        ensures
            n_objects == 0 || take == 0 ==> d.diff_objects@.len() == 0,
            n_objects > 0 && take > 0 ==> d.diff_objects@.len() == n_objects - 1,
            forall|i: int|
                0 <= i < d.diff_objects@.len() ==> #[trigger] d.diff_objects@[i] == link_at(i),
            d.n_processed == if passed_count(take as int, n_objects as int) >= 1 {
                passed_count(take as int, n_objects as int) - 1
            } else {
                0
            },
            d.n_processed <= d.diff_objects@.len(),
    {
        let diff_objects = Self::create_difficulty_objects(take, n_objects);
        let passed = if n_objects < take {
            n_objects
        } else {
            take
        };
        let n_processed = if passed >= 1 {
            passed - 1
        } else {
            0
        };
        DifficultyValues { diff_objects, n_processed }
    }
}

} // verus!
