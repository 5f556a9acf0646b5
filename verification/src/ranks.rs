//! Rank positions of values, as a stable ascending sort places them.
use vstd::prelude::*;

verus! {

/// Number of the first `n` keys that are below `v`.
pub open spec fn count_below(keys: Seq<u64>, v: u64, n: int) -> int
    decreases n,
{
    if n <= 0 {
        0
    } else {
        count_below(keys, v, n - 1) + if keys[n - 1] < v {
            1int
        } else {
            0int
        }
    }
}

/// Number of the first `n` keys that equal `v`.
pub open spec fn count_equal(keys: Seq<u64>, v: u64, n: int) -> int
    decreases n,
{
    if n <= 0 {
        0
    } else {
        count_equal(keys, v, n - 1) + if keys[n - 1] == v {
            1int
        } else {
            0int
        }
    }
}

/// Position of key `i` in a stable ascending sort: the keys below it, and the
/// equal keys that come before it.
pub open spec fn stable_rank(keys: Seq<u64>, i: int) -> int {
    count_below(keys, keys[i], keys.len() as int) + count_equal(keys, keys[i], i)
}

/// The position of every key in a stable ascending sort of `keys`.
pub fn rank_positions(keys: &Vec<u64>) -> (r: Vec<usize>)
    ensures
        r@.len() == keys@.len(),
        forall|i: int| 0 <= i < keys@.len() ==> #[trigger] r@[i] == stable_rank(keys@, i),
{
    let n = keys.len();
    let mut r: Vec<usize> = Vec::new();
    let mut i: usize = 0;
    while i < n
        invariant
            n == keys@.len(),
            i <= n,
            r@.len() == i,
            forall|j: int| 0 <= j < i ==> #[trigger] r@[j] == stable_rank(keys@, j),
        decreases n - i,
    {
        let v = keys[i];
        let mut below: usize = 0;
        let mut equal: usize = 0;
        let mut j: usize = 0;
        while j < n
            invariant
                n == keys@.len(),
                i < n,
                v == keys@[i as int],
                j <= n,
                below == count_below(keys@, v, j as int),
                equal == count_equal(keys@, v, min_usize(j, i) as int),
                below + equal <= j,
            decreases n - j,
        {
            if keys[j] < v {
                below = below + 1;
            } else if keys[j] == v && j < i {
                equal = equal + 1;
            }
            j = j + 1;
        }
        r.push(below + equal);
        i = i + 1;
    }
    r
}

pub open spec fn min_usize(a: usize, b: usize) -> usize {
    if a <= b {
        a
    } else {
        b
    }
}

proof fn lemma_counts_bounded(keys: Seq<u64>, v: u64, n: int)
    requires
        0 <= n <= keys.len(),
    ensures
        0 <= count_below(keys, v, n) <= n,
        0 <= count_equal(keys, v, n) <= n,
        count_below(keys, v, n) + count_equal(keys, v, n) <= n,
    decreases n,
{
    if n > 0 {
        lemma_counts_bounded(keys, v, n - 1);
    }
}

/// Counting below a larger value counts at least as much, and also every key
/// equal to the smaller value.
proof fn lemma_count_below_mono(keys: Seq<u64>, v: u64, w: u64, n: int)
    requires
        0 <= n <= keys.len(),
        v < w,
    ensures
        count_below(keys, v, n) + count_equal(keys, v, n) <= count_below(keys, w, n),
    decreases n,
{
    if n > 0 {
        lemma_count_below_mono(keys, v, w, n - 1);
    }
}

/// Counting equal keys over a longer prefix counts at least as much, and one
/// more where the extra prefix holds the key.
proof fn lemma_count_equal_grows(keys: Seq<u64>, v: u64, m: int, n: int)
    requires
        0 <= m <= n <= keys.len(),
    ensures
        count_equal(keys, v, m) <= count_equal(keys, v, n),
        m < n && keys[m] == v ==> count_equal(keys, v, m) < count_equal(keys, v, n),
    decreases n - m,
{
    if m < n {
        lemma_count_equal_grows(keys, v, m, n - 1);
        if m < n - 1 {
            lemma_count_equal_grows(keys, v, m + 1, n - 1);
        }
    }
}

/// Ranks order the keys: a smaller key ranks lower, and of equal keys the
/// earlier one ranks lower; every rank lies in `0..len`. So the ranks are a
/// permutation of `0..len`.
pub proof fn law_rank_order(keys: Seq<u64>, i: int, j: int)
    requires
        0 <= i < keys.len(),
        0 <= j < keys.len(),
    ensures
        0 <= stable_rank(keys, i) < keys.len(),
        keys[i] < keys[j] ==> stable_rank(keys, i) < stable_rank(keys, j),
        keys[i] == keys[j] && i < j ==> stable_rank(keys, i) < stable_rank(keys, j),
{
    let n = keys.len() as int;
    lemma_counts_bounded(keys, keys[i], n);
    lemma_counts_bounded(keys, keys[i], i);
    lemma_count_equal_grows(keys, keys[i], i, n);
    assert(count_equal(keys, keys[i], i) < count_equal(keys, keys[i], n));
    assert(stable_rank(keys, i) == count_below(keys, keys[i], n) + count_equal(keys, keys[i], i));
    if keys[i] < keys[j] {
        lemma_count_below_mono(keys, keys[i], keys[j], n);
        lemma_counts_bounded(keys, keys[j], j);
    }
    if keys[i] == keys[j] && i < j {
        lemma_count_equal_grows(keys, keys[i], i, j);
    }
}

} // verus!
