//! How the relax miss system groups difficulty objects: the objects with a
//! positive delta time fill 4-note chunks in order, neighbouring chunks form
//! 8-note pairs, and the median of the sorted delta times sits in the middle.
use vstd::prelude::*;

verus! {

/// Number of set flags among the first `n`.
pub open spec fn count_true(flags: Seq<bool>, n: int) -> int
    decreases n,
{
    if n <= 0 {
        0
    } else {
        count_true(flags, n - 1) + if flags[n - 1] {
            1int
        } else {
            0int
        }
    }
}

/// `n` divided by four, rounded up.
pub open spec fn ceil_quarter(n: int) -> int {
    (n + 3) / 4
}

/// Which 4-note chunk each difficulty object falls into.
#[derive(Clone, Debug, PartialEq, Eq)]
pub struct ChunkPlan {
    /// The chunk of each object, `None` for an object without a positive delta time.
    pub chunk_of: Vec<Option<usize>>,
    /// Number of chunks; the last one may hold fewer than four objects.
    pub n_chunks: usize,
}

/// Group the objects whose flag in `timed` is set (a positive delta time)
/// into chunks of four, in order: the `k`-th such object goes to chunk
/// `k / 4`, and a partial chunk at the end is kept.
pub fn hardness_chunks(timed: &Vec<bool>) -> (plan: ChunkPlan)
    ensures
        plan.chunk_of@.len() == timed@.len(),
        forall|i: int|
            0 <= i < timed@.len() ==> #[trigger] plan.chunk_of@[i] == if timed@[i] {
                Some((count_true(timed@, i) / 4) as usize)
            } else {
                None::<usize>
            },
        plan.n_chunks == ceil_quarter(count_true(timed@, timed@.len() as int)),
{
    let n = timed.len();
    let mut chunk_of: Vec<Option<usize>> = Vec::new();
    let mut count: usize = 0;
    let mut i: usize = 0;
    while i < n
        invariant
            n == timed@.len(),
            i <= n,
            count <= i,
            count == count_true(timed@, i as int),
            chunk_of@.len() == i,
            forall|j: int|
                0 <= j < i ==> #[trigger] chunk_of@[j] == if timed@[j] {
                    Some((count_true(timed@, j) / 4) as usize)
                } else {
                    None::<usize>
                },
        decreases n - i,
    {
        if timed[i] {
            chunk_of.push(Some(count / 4));
            count = count + 1;
        } else {
            chunk_of.push(None);
        }
        i = i + 1;
    }
    let n_chunks = if count % 4 == 0 {
        count / 4
    } else {
        count / 4 + 1
    };
    ChunkPlan { chunk_of, n_chunks }
}

/// The 8-note pairs of `n_chunks` chunks: pair `p` joins chunk `2 * p` with
/// chunk `2 * p + 1` where that exists; the last pair of an odd number of
/// chunks holds one chunk.
pub fn chunk_pairs(n_chunks: usize) -> (pairs: Vec<(usize, Option<usize>)>)
    ensures
        pairs@.len() == (n_chunks + 1) / 2,
        forall|p: int|
            0 <= p < pairs@.len() ==> #[trigger] pairs@[p] == (
                (2 * p) as usize,
                if 2 * p + 1 < n_chunks {
                    Some((2 * p + 1) as usize)
                } else {
                    None::<usize>
                },
            ),
{
    let n_pairs = n_chunks / 2 + n_chunks % 2;
    let mut pairs: Vec<(usize, Option<usize>)> = Vec::new();
    let mut p: usize = 0;
    while p < n_pairs
        invariant
            n_pairs == (n_chunks + 1) / 2,
            p <= n_pairs,
            pairs@.len() == p,
            forall|q: int|
                0 <= q < p ==> #[trigger] pairs@[q] == (
                    (2 * q) as usize,
                    if 2 * q + 1 < n_chunks {
                        Some((2 * q + 1) as usize)
                    } else {
                        None::<usize>
                    },
                ),
        decreases n_pairs - p,
    {
        let first = 2 * p;
        let second = if first + 1 < n_chunks {
            Some(first + 1)
        } else {
            None
        };
        pairs.push((first, second));
        p = p + 1;
    }
    pairs
}

/// Positions of the median in a sorted list of `len` values: the middle
/// value for an odd length, the two middle values for an even one.
pub fn median_positions(len: usize) -> (r: (usize, usize))
    requires
        len > 0,
    ensures
        len % 2 == 1 ==> r.0 == len / 2 && r.1 == len / 2,
        len % 2 == 0 ==> r.0 == len / 2 - 1 && r.1 == len / 2,
{
    let m = len / 2;
    if len % 2 == 1 {
        (m, m)
    } else {
        (m - 1, m)
    }
}

/// Counting more flags never gives fewer set ones.
proof fn lemma_count_true_monotone(flags: Seq<bool>, i: int, j: int)
    requires
        0 <= i <= j,
    ensures
        count_true(flags, i) <= count_true(flags, j),
    decreases j - i,
{
    if i < j {
        lemma_count_true_monotone(flags, i, j - 1);
    }
}

/// No object with a positive delta time is dropped: each one lands in one of
/// the chunks, the partial chunk at the end included.
pub proof fn law_no_timed_object_dropped(timed: Seq<bool>, i: int)
    requires
        0 <= i < timed.len(),
        timed[i],
    ensures
        count_true(timed, i) / 4 < ceil_quarter(count_true(timed, timed.len() as int)),
{
    lemma_count_true_monotone(timed, i + 1, timed.len() as int);
    assert(count_true(timed, i + 1) == count_true(timed, i) + 1);
}

} // verus!
