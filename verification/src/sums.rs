//! Finite sums over integer ranges, used to state the moment and block
//! statistics that the metric engines accumulate.

use vstd::prelude::*;

verus! {

/// Sum of `f(k)` over the half-open range `[lo, hi)`.
pub open spec fn sum_range(f: spec_fn(int) -> int, lo: int, hi: int) -> int
    decreases hi - lo,
{
    if hi <= lo {
        0
    } else {
        sum_range(f, lo, hi - 1) + f(hi - 1)
    }
}

/// A sum splits at any point of its range.
pub proof fn lemma_sum_range_split(f: spec_fn(int) -> int, lo: int, mid: int, hi: int)
    requires
        lo <= mid <= hi,
    ensures
        sum_range(f, lo, hi) == sum_range(f, lo, mid) + sum_range(f, mid, hi),
    decreases hi - mid,
{
    if mid < hi {
        lemma_sum_range_split(f, lo, mid, hi - 1);
    }
}

/// A sum of nonnegative terms is nonnegative.
pub proof fn lemma_sum_range_nonneg(f: spec_fn(int) -> int, lo: int, hi: int)
    requires
        forall|k: int| lo <= k < hi ==> #[trigger] f(k) >= 0,
    ensures
        sum_range(f, lo, hi) >= 0,
    decreases hi - lo,
{
    if lo < hi {
        lemma_sum_range_nonneg(f, lo, hi - 1);
    }
}

} // verus!
