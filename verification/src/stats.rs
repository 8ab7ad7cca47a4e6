//! Order statistics of latency samples: sorting, and the sample at a rank
//! (the p99 of a latency history, or any percentile whose rank the caller
//! has worked out).

use vstd::prelude::*;
use vstd::relations::{sorted_by, total_ordering};
use vstd::seq_lib::lemma_sorted_unique;

verus! {

broadcast use vstd::seq_lib::group_to_multiset_ensures;

/// The usual order on samples.
pub open spec fn sample_le() -> spec_fn(u64, u64) -> bool {
    |a: u64, b: u64| a <= b
}

/// The samples in ascending order.
pub open spec fn sorted_samples(s: Seq<u64>) -> Seq<u64> {
    s.sort_by(sample_le())
}

/// The rank of the 99th percentile among `len` samples: `len * 99 / 100`,
/// at most the last rank. For up to 1000 samples this is the rank that
/// `(len as f64 * 0.99) as usize` gives.
pub open spec fn p99_rank(len: nat) -> int {
    let r = len * 99 / 100;
    if r < len { r as int } else { len - 1 }
}

proof fn lemma_sample_le_total()
    ensures
        total_ordering(sample_le()),
{
}

/// Inserts `x` into the sorted `out`, keeping it sorted.
fn insert_sorted(out: &mut Vec<u64>, x: u64)
    requires
        sorted_by(old(out)@, sample_le()),
    ensures
        sorted_by(final(out)@, sample_le()),
        final(out)@.to_multiset() == old(out)@.to_multiset().insert(x),
{
    let n = out.len();
    let mut p: usize = 0;
    while p < n && out[p] <= x
        invariant
            p <= n,
            n == out@.len(),
            out@ == old(out)@,
            forall|k: int| 0 <= k < p ==> out@[k] <= x,
        decreases n - p,
    {
        p = p + 1;
    }
    let ghost before = out@;
    proof {
        assert forall|k: int| p <= k < n implies x < before[k] by {
            assert(sample_le()(before[p as int], before[k]));
        }
    }
    out.insert(p, x);
    proof {
        let after = out@;
        assert(after == before.insert(p as int, x));
        assert forall|i: int, j: int| 0 <= i < j < after.len() implies #[trigger] sample_le()(after[i], after[j]) by {
            if j < p {
                assert(sample_le()(before[i], before[j]));
            } else if j == p {
                assert(after[i] == before[i]);
            } else if i < p {
                assert(after[j] == before[j - 1]);
                assert(before[i] <= x);
            } else if i == p {
                assert(after[j] == before[j - 1]);
            } else {
                assert(sample_le()(before[i - 1], before[j - 1]));
            }
        }
    }
}

/// The samples in ascending order.
pub fn sort_samples(v: &[u64]) -> (r: Vec<u64>)
    ensures
        r@ == sorted_samples(v@),
{
    let n = v.len();
    let mut out: Vec<u64> = Vec::new();
    let mut i: usize = 0;
    while i < n
        invariant
            i <= n,
            n == v@.len(),
            sorted_by(out@, sample_le()),
            out@.to_multiset() == v@.take(i as int).to_multiset(),
        decreases n - i,
    {
        insert_sorted(&mut out, v[i]);
        proof {
            assert(v@.take(i + 1) =~= v@.take(i as int).push(v@[i as int]));
        }
        i = i + 1;
    }
    proof {
        assert(v@.take(n as int) =~= v@);
        v@.lemma_sort_by_ensures(sample_le());
        lemma_sample_le_total();
        lemma_sorted_unique(out@, sorted_samples(v@), sample_le());
    }
    out
}

/// The sample of rank `rank` (counted from zero, in ascending order); the
/// largest sample when `rank` is past the end; nothing when there are no
/// samples.
pub fn sample_at_rank(v: &[u64], rank: usize) -> (r: Option<u64>)
    ensures
        v@.len() == 0 ==> r is None,
        v@.len() > 0 ==> r == Some(sorted_samples(v@)[
            if rank < v@.len() { rank as int } else { v@.len() - 1 }
        ]),
{
    if v.len() == 0 {
        return None;
    }
    let sorted = sort_samples(v);
    proof {
        v@.lemma_sort_by_ensures(sample_le());
        assert(sorted@.len() == v@.len()) by {
            assert(sorted@.to_multiset().len() == v@.to_multiset().len());
        }
    }
    let idx = if rank < sorted.len() { rank } else { sorted.len() - 1 };
    Some(sorted[idx])
}

/// The 99th percentile of the samples: the sample of rank `p99_rank`.
pub fn p99(v: &[u64]) -> (r: Option<u64>)
    ensures
        v@.len() == 0 ==> r is None,
        v@.len() > 0 ==> r == Some(sorted_samples(v@)[p99_rank(v@.len())]),
{
    let n = v.len();
    if n == 0 {
        return None;
    }
    let rank: usize = (n / 100) * 99 + (n % 100) * 99 / 100;
    proof {
        assert((n / 100) * 99 + (n % 100) * 99 / 100 == n * 99 / 100) by (nonlinear_arith)
            requires n >= 1;
        assert(n * 99 / 100 < n) by (nonlinear_arith)
            requires n >= 1;
    }
    sample_at_rank(v, rank)
}

/// The sorted samples are in ascending order and are the samples
/// themselves: so the sample of any rank is one of the samples, and no
/// sample of a lower rank is larger.
pub proof fn lemma_sorted_samples(s: Seq<u64>)
    ensures
        sorted_samples(s).len() == s.len(),
        sorted_samples(s).to_multiset() == s.to_multiset(),
        forall|i: int, j: int| 0 <= i <= j < s.len() ==> sorted_samples(s)[i] <= sorted_samples(s)[j],
        forall|i: int| 0 <= i < s.len() ==> s.contains(#[trigger] sorted_samples(s)[i]),
{
    s.lemma_sort_by_ensures(sample_le());
    let t = sorted_samples(s);
    assert(t.len() == s.len()) by {
        assert(t.to_multiset().len() == s.to_multiset().len());
    }
    assert forall|i: int, j: int| 0 <= i <= j < s.len() implies t[i] <= t[j] by {
        if i < j {
            assert(sample_le()(t[i], t[j]));
        }
    }
    assert forall|i: int| 0 <= i < s.len() implies s.contains(#[trigger] t[i]) by {
        assert(t.to_multiset().contains(t[i]));
    }
}

} // verus!
