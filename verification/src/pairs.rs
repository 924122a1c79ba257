//! The order in which the unordered pairs of `n` bodies are visited: by
//! first index, then by second index, each pair once.

use vstd::prelude::*;

verus! {

/// The pairs `(i, i + 1)`, ..., `(i, i + width)`, in this order.
pub open spec fn row(i: int, width: nat) -> Seq<(int, int)> {
    Seq::new(width, |k: int| (i, i + 1 + k))
}

/// All pairs `(a, b)` with `a < upto` and `a < b < n`, ordered by `a`, then
/// by `b`.
pub open spec fn rows(n: int, upto: int) -> Seq<(int, int)>
    decreases upto,
{
    if upto <= 0 {
        Seq::empty()
    } else {
        rows(n, upto - 1) + row(upto - 1, (n - upto) as nat)
    }
}

/// The pairs visited for `n` bodies, in the order of the visit.
pub open spec fn pair_schedule(n: int) -> Seq<(int, int)> {
    rows(n, n)
}

/// The number of unordered pairs of `n` things.
pub open spec fn pair_count(n: int) -> int {
    n * (n - 1) / 2
}

/// The place of the pair `(a, b)` in the schedule for `n` bodies.
pub open spec fn pair_index(n: int, a: int, b: int) -> int {
    rows(n, a).len() + (b - a - 1)
}

/// The rows before row `upto` hold `upto * (2n - upto - 1) / 2` pairs.
pub proof fn lemma_rows_len(n: int, upto: int)
    requires
        0 <= upto <= n,
    ensures
        2 * rows(n, upto).len() == upto * (2 * n - upto - 1),
    decreases upto,
{
    if upto > 0 {
        lemma_rows_len(n, upto - 1);
        assert(rows(n, upto).len() == rows(n, upto - 1).len() + (n - upto));
        assert(upto * (2 * n - upto - 1) == (upto - 1) * (2 * n - (upto - 1) - 1) + 2 * (n - upto))
            by (nonlinear_arith);
    } else {
        assert(rows(n, upto).len() == 0);
        assert(upto * (2 * n - upto - 1) == 0) by (nonlinear_arith)
            requires
                upto == 0,
        ;
    }
}

/// The rows grow with `upto`.
pub proof fn lemma_rows_prefix(n: int, lo: int, hi: int)
    requires
        0 <= lo <= hi <= n,
    ensures
        rows(n, lo).len() <= rows(n, hi).len(),
        rows(n, lo) =~= rows(n, hi).subrange(0, rows(n, lo).len() as int),
    decreases hi - lo,
{
    if lo < hi {
        lemma_rows_prefix(n, lo, hi - 1);
    }
}

/// The schedule for `n` bodies holds `n * (n - 1) / 2` pairs.
pub proof fn lemma_schedule_len(n: int)
    requires
        0 <= n,
    ensures
        pair_schedule(n).len() == pair_count(n),
{
    lemma_rows_len(n, n);
    assert(n * (2 * n - n - 1) == n * (n - 1)) by (nonlinear_arith);
}

/// Every entry of the schedule is a pair of two different bodies, the
/// smaller index first, and stands at the place that `pair_index` gives.
pub proof fn lemma_schedule_entry(n: int, k: int)
    requires
        0 <= n,
        0 <= k < pair_schedule(n).len(),
    ensures
        0 <= pair_schedule(n)[k].0 < pair_schedule(n)[k].1 < n,
        pair_index(n, pair_schedule(n)[k].0, pair_schedule(n)[k].1) == k,
{
    lemma_rows_entry(n, n, k);
}

/// The same for the rows before row `upto`.
pub proof fn lemma_rows_entry(n: int, upto: int, k: int)
    requires
        0 <= upto <= n,
        0 <= k < rows(n, upto).len(),
    ensures
        0 <= rows(n, upto)[k].0 < upto,
        rows(n, upto)[k].0 < rows(n, upto)[k].1 < n,
        pair_index(n, rows(n, upto)[k].0, rows(n, upto)[k].1) == k,
    decreases upto,
{
    if k < rows(n, upto - 1).len() {
        lemma_rows_entry(n, upto - 1, k);
    }
}

/// Every unordered pair of two different bodies stands in the schedule, at
/// the place that `pair_index` gives.
pub proof fn lemma_schedule_holds(n: int, a: int, b: int)
    requires
        0 <= a < b < n,
    ensures
        0 <= pair_index(n, a, b) < pair_schedule(n).len(),
        pair_schedule(n)[pair_index(n, a, b)] == (a, b),
{
    lemma_rows_prefix(n, a + 1, n);
    assert(rows(n, a + 1) == rows(n, a) + row(a, (n - a - 1) as nat));
    let k = pair_index(n, a, b);
    assert(rows(n, a + 1)[k] == (a, b));
    assert(rows(n, n).subrange(0, rows(n, a + 1).len() as int)[k] == rows(n, n)[k]);
}

/// Pair coverage: the schedule for `n` bodies has `n * (n - 1) / 2` entries,
/// each is a pair `(a, b)` with `a < b < n`, no pair stands in it twice, and
/// every such pair stands in it.
pub proof fn lemma_schedule_covers_each_pair_once(n: int)
    requires
        0 <= n,
    ensures
        pair_schedule(n).len() == pair_count(n),
        forall|k: int|
            0 <= k < pair_schedule(n).len() ==> 0 <= (#[trigger] pair_schedule(n)[k]).0
                < pair_schedule(n)[k].1 < n,
        forall|k: int, l: int|
            0 <= k < pair_schedule(n).len() && 0 <= l < pair_schedule(n).len()
                && #[trigger] pair_schedule(n)[k] == #[trigger] pair_schedule(n)[l] ==> k == l,
        forall|a: int, b: int|
            0 <= a < b < n ==> 0 <= #[trigger] pair_index(n, a, b) < pair_schedule(n).len()
                && pair_schedule(n)[pair_index(n, a, b)] == (a, b),
{
    lemma_schedule_len(n);
    assert forall|k: int| 0 <= k < pair_schedule(n).len() implies 0 <= (#[trigger] pair_schedule(
        n,
    )[k]).0 < pair_schedule(n)[k].1 < n by {
        lemma_schedule_entry(n, k);
    }
    assert forall|k: int, l: int|
        0 <= k < pair_schedule(n).len() && 0 <= l < pair_schedule(n).len()
            && #[trigger] pair_schedule(n)[k] == #[trigger] pair_schedule(n)[l] implies k == l by {
        lemma_schedule_entry(n, k);
        lemma_schedule_entry(n, l);
    }
    assert forall|a: int, b: int| 0 <= a < b < n implies 0 <= #[trigger] pair_index(n, a, b)
        < pair_schedule(n).len() && pair_schedule(n)[pair_index(n, a, b)] == (a, b) by {
        lemma_schedule_holds(n, a, b);
    }
}

} // verus!
