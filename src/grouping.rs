use vstd::prelude::*;
use vstd::relations::total_ordering;
use vstd::seq_lib::{lemma_sorted_unique, group_to_multiset_ensures};
use crate::normalize::RATIO_SCALE;

verus! {

/// Largest gap between neighbouring sorted ratios that keeps them in one
/// cluster: a quarter of `RATIO_SCALE`.
pub const CLUSTER_GAP: i64 = 2968560;

/// Which values may extend the top cluster.
#[derive(Debug, Clone, Copy, PartialEq, Eq, Structural)]
pub enum Grouping {
    /// Closeness to the previous value alone.
    Relative,
    /// Closeness, and the value itself at least one (the victory threshold).
    Floored,
}

/// The descending order on ratios.
pub open spec fn descending(a: i64, b: i64) -> bool {
    a >= b
}

/// The ratios sorted from best to worst.
pub open spec fn sorted_desc(s: Seq<i64>) -> Seq<i64> {
    s.sort_by(|a: i64, b: i64| descending(a, b))
}

/// Does `v`, following `prev` in the sorted order, extend the cluster?
pub open spec fn joins(prev: i64, v: i64, grouping: Grouping) -> bool {
    &&& prev - v <= CLUSTER_GAP
    &&& (grouping == Grouping::Relative || v >= RATIO_SCALE)
}

/// The value that the `j`-th sorted value is compared with: its predecessor,
/// or itself at the top.
pub open spec fn prev_of(s: Seq<i64>, j: int) -> i64 {
    if j == 0 {
        s[0]
    } else {
        s[j - 1]
    }
}

/// The first `k` sorted values all extend the cluster.
pub open spec fn chain_holds(s: Seq<i64>, k: int, grouping: Grouping) -> bool {
    forall|j: int| 0 <= j < k ==> joins(#[trigger] prev_of(s, j), s[j], grouping)
}

/// `size` is the length of the top cluster of the sorted values `s`, and
/// `boundary` the first value that broke the chain (the last value when
/// none did).
pub open spec fn is_impunity(s: Seq<i64>, size: int, boundary: i64, grouping: Grouping) -> bool {
    &&& 0 <= size <= s.len()
    &&& chain_holds(s, size, grouping)
    &&& size < s.len() ==> !joins(prev_of(s, size), s[size], grouping)
    &&& boundary == if size < s.len() {
        s[size]
    } else {
        s[s.len() - 1]
    }
}

/// Is the sequence ordered from largest to smallest?
pub open spec fn is_desc(s: Seq<i64>) -> bool {
    forall|a: int, b: int| 0 <= a < b < s.len() ==> #[trigger] s[a] >= #[trigger] s[b]
}

/// Descending order is a total order.
pub proof fn lemma_descending_total()
    ensures
        total_ordering(|a: i64, b: i64| descending(a, b)),
{
}

/// Sorts the ratios from best to worst.
pub fn sort_descending(v: &Vec<i64>) -> (r: Vec<i64>)
    ensures
        r@ == sorted_desc(v@),
{
    broadcast use group_to_multiset_ensures;

    let mut out: Vec<i64> = Vec::new();
    let mut i: usize = 0;
    while i < v.len()
        invariant
            i <= v@.len(),
            is_desc(out@),
            out@.to_multiset() == v@.subrange(0, i as int).to_multiset(),
        decreases v@.len() - i,
    {
        let x = v[i];
        let mut pos: usize = 0;
        while pos < out.len() && out[pos] >= x
            invariant
                pos <= out@.len(),
                forall|j: int| 0 <= j < pos ==> out@[j] >= x,
            decreases out@.len() - pos,
        {
            pos = pos + 1;
        }
        let ghost before = out@;
        proof {
            assert forall|j: int| pos <= j < before.len() implies before[j] < x by {
                if j > pos {
                    assert(before[pos as int] >= before[j]);
                }
            }
        }
        out.insert(pos, x);
        proof {
            assert(v@.subrange(0, i + 1) =~= v@.subrange(0, i as int).push(x));
            vstd::seq_lib::to_multiset_insert(before, pos as int, x);
            vstd::seq_lib::to_multiset_build(v@.subrange(0, i as int), x);
            assert(out@ == before.insert(pos as int, x));
            assert(v@.subrange(0, i as int).push(x).to_multiset() == v@.subrange(
                0,
                i as int,
            ).to_multiset().insert(x));
            assert forall|a: int, b: int| 0 <= a < b < out@.len() implies #[trigger] out@[a]
                >= #[trigger] out@[b] by {
                if b < pos {
                    assert(before[a] >= before[b]);
                } else if a > pos {
                    assert(before[a - 1] >= before[b - 1]);
                } else if a < pos && b > pos {
                    assert(before[a] >= before[b - 1]);
                }
            }
        }
        i = i + 1;
    }
    proof {
        let leq = |a: i64, b: i64| descending(a, b);
        assert(v@.subrange(0, v@.len() as int) =~= v@);
        lemma_descending_total();
        assert forall|a: int, b: int| 0 <= a < b < out@.len() implies #[trigger] leq(
            out@[a],
            out@[b],
        ) by {
            assert(out@[a] >= out@[b]);
        }
        v@.lemma_sort_by_ensures(leq);
        lemma_sorted_unique(out@, sorted_desc(v@), leq);
    }
    out
}

/// Size of the top cluster and the first ratio outside it.
pub fn impunity(ratios: &Vec<i64>, grouping: Grouping) -> (r: (usize, i64))
    requires
        ratios@.len() >= 1,
    ensures
        is_impunity(sorted_desc(ratios@), r.0 as int, r.1, grouping),
{
    broadcast use group_to_multiset_ensures;

    let sorted = sort_descending(ratios);
    proof {
        lemma_descending_total();
        ratios@.lemma_sort_by_ensures(|a: i64, b: i64| descending(a, b));
        assert(sorted@.to_multiset().len() == ratios@.to_multiset().len());
    }
    let n = sorted.len();
    let mut prev: i64 = sorted[0];
    let mut size: usize = 0;
    while size < n && (prev as i128) - (sorted[size] as i128) <= CLUSTER_GAP as i128 && (
    grouping == Grouping::Relative || sorted[size] >= RATIO_SCALE)
        invariant
            n == sorted@.len(),
            n >= 1,
            size <= n,
            prev == prev_of(sorted@, size as int),
            chain_holds(sorted@, size as int, grouping),
        decreases n - size,
    {
        prev = sorted[size];
        size = size + 1;
    }
    let boundary = if size < n {
        sorted[size]
    } else {
        sorted[n - 1]
    };
    (size, boundary)
}

} // verus!
verus! {

/// Sorting keeps the length.
pub proof fn lemma_sorted_len(s: Seq<i64>)
    ensures
        sorted_desc(s).len() == s.len(),
{
    broadcast use vstd::seq_lib::group_to_multiset_ensures;

    lemma_descending_total();
    s.lemma_sort_by_ensures(|a: i64, b: i64| descending(a, b));
    assert(sorted_desc(s).to_multiset().len() == s.to_multiset().len());
}

} // verus!
