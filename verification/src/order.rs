//! Sorting of text lengths, and the extrema and the median that follow from
//! their order.

use vstd::prelude::*;
use vstd::seq_lib::{lemma_multiset_commutative, lemma_sorted_unique, to_multiset_build};
use crate::stats::ints;

verus! {

/// Whether no number of `s` is greater than one that stands behind it.
pub open spec fn ascending(s: Seq<int>) -> bool {
    forall|i: int, j: int| 0 <= i < j < s.len() ==> s[i] <= s[j]
}

/// Whether `sorted` holds the numbers of `s`, each as often as `s` does, in
/// ascending order.
pub open spec fn is_sorting_of(sorted: Seq<int>, s: Seq<int>) -> bool {
    &&& ascending(sorted)
    &&& sorted.to_multiset() =~= s.to_multiset()
}

/// The median of `s`: the middle number of `s` in ascending order, and of
/// the two middle numbers the upper one where `s` has an even count.
pub open spec fn median(s: Seq<int>) -> int
    recommends
        s.len() > 0,
{
    s.sort()[s.len() as int / 2]
}

/// A sequence has one sorting only, the one that `sort` gives.
pub proof fn lemma_sorting_unique(sorted: Seq<int>, s: Seq<int>)
    requires
        is_sorting_of(sorted, s),
    ensures
        sorted == s.sort(),
        sorted.len() == s.len(),
{
    let leq = |x: int, y: int| x <= y;
    s.lemma_sort_ensures();
    lemma_sorted_unique(sorted, s.sort(), leq);
    sorted.to_multiset_ensures();
    s.to_multiset_ensures();
}

/// A number of `s` that none of `s` is less than is the minimum of `s`, and
/// one that none is greater than is its maximum.
pub proof fn lemma_extrema(s: Seq<int>, low: int, high: int)
    requires
        s.contains(low),
        s.contains(high),
        forall|i: int| 0 <= i < s.len() ==> low <= #[trigger] s[i] && s[i] <= high,
    ensures
        s.min() == low,
        s.max() == high,
{
    s.min_ensures();
    s.max_ensures();
}

/// Merges two ascending vectors into one.
fn merge(left: &Vec<usize>, right: &Vec<usize>) -> (out: Vec<usize>)
    requires
        ascending(ints(left@)),
        ascending(ints(right@)),
    ensures
        ascending(ints(out@)),
        ints(out@).to_multiset() =~= ints(left@).to_multiset().add(ints(right@).to_multiset()),
{
    let mut out: Vec<usize> = Vec::new();
    let mut i: usize = 0;
    let mut j: usize = 0;
    proof {
        broadcast use vstd::seq_lib::group_to_multiset_ensures;
    }
    while i < left.len() || j < right.len()
        invariant
            i <= left.len(),
            j <= right.len(),
            ascending(ints(left@)),
            ascending(ints(right@)),
            ascending(ints(out@)),
            ints(out@).to_multiset() =~= ints(left@).take(i as int).to_multiset().add(
                ints(right@).take(j as int).to_multiset(),
            ),
            forall|k: int| 0 <= k < out@.len() && i < left@.len() ==> out@[k] <= left@[i as int],
            forall|k: int| 0 <= k < out@.len() && j < right@.len() ==> out@[k] <= right@[j as int],
        decreases left.len() - i + right.len() - j,
    {
        let from_left = if i < left.len() && j < right.len() {
            left[i] <= right[j]
        } else {
            i < left.len()
        };
        let ghost before = out@;
        if from_left {
            let x = left[i];
            out.push(x);
            proof {
                assert(ints(out@) =~= ints(before).push(x as int));
                assert(ints(left@).take(i + 1) =~= ints(left@).take(i as int).push(x as int));
                to_multiset_build(ints(before), x as int);
                to_multiset_build(ints(left@).take(i as int), x as int);
                assert forall|k: int| 0 <= k < out@.len() && i + 1 < left@.len() implies out@[k]
                    <= left@[i + 1] by {
                    assert(ints(left@)[i as int] <= ints(left@)[i + 1]);
                }
            }
            i = i + 1;
        } else {
            let x = right[j];
            out.push(x);
            proof {
                assert(ints(out@) =~= ints(before).push(x as int));
                assert(ints(right@).take(j + 1) =~= ints(right@).take(j as int).push(x as int));
                to_multiset_build(ints(before), x as int);
                to_multiset_build(ints(right@).take(j as int), x as int);
                assert forall|k: int| 0 <= k < out@.len() && j + 1 < right@.len() implies out@[k]
                    <= right@[j + 1] by {
                    assert(ints(right@)[j as int] <= ints(right@)[j + 1]);
                }
            }
            j = j + 1;
        }
    }
    proof {
        assert(ints(left@).take(i as int) =~= ints(left@));
        assert(ints(right@).take(j as int) =~= ints(right@));
    }
    out
}

/// Sorts the numbers of `lengths` between `lo` and `hi` into a new vector.
fn sort_range(lengths: &[usize], lo: usize, hi: usize) -> (out: Vec<usize>)
    requires
        lo <= hi <= lengths@.len(),
    ensures
        is_sorting_of(ints(out@), ints(lengths@).subrange(lo as int, hi as int)),
    decreases hi - lo,
{
    let ghost range = ints(lengths@).subrange(lo as int, hi as int);
    if hi - lo <= 1 {
        let mut out: Vec<usize> = Vec::new();
        if hi - lo == 1 {
            out.push(lengths[lo]);
        }
        assert(ints(out@) =~= range);
        out
    } else {
        let mid = lo + (hi - lo) / 2;
        let left = sort_range(lengths, lo, mid);
        let right = sort_range(lengths, mid, hi);
        let out = merge(&left, &right);
        proof {
            let first = ints(lengths@).subrange(lo as int, mid as int);
            let second = ints(lengths@).subrange(mid as int, hi as int);
            assert(range =~= first + second);
            lemma_multiset_commutative(first, second);
        }
        out
    }
}

/// The numbers of `lengths` in ascending order.
pub fn sorted(lengths: &[usize]) -> (out: Vec<usize>)
    ensures
        ints(out@) == ints(lengths@).sort(),
        out@.len() == lengths@.len(),
{
    let out = sort_range(lengths, 0, lengths.len());
    proof {
        assert(ints(lengths@).subrange(0, lengths@.len() as int) =~= ints(lengths@));
        lemma_sorting_unique(ints(out@), ints(lengths@));
    }
    out
}

/// The least and the greatest number of `lengths`, or `None` where there is
/// none.
pub fn extrema(lengths: &[usize]) -> (bounds: Option<(usize, usize)>)
    ensures
        bounds is None <==> lengths@.len() == 0,
        bounds is Some ==> bounds->Some_0.0 == ints(lengths@).min() && bounds->Some_0.1 == ints(
            lengths@,
        ).max(),
{
    if lengths.len() == 0 {
        return None;
    }
    let mut low: usize = lengths[0];
    let mut high: usize = lengths[0];
    let mut i: usize = 1;
    while i < lengths.len()
        invariant
            1 <= i <= lengths@.len(),
            exists|k: int| 0 <= k < i && lengths@[k] == low,
            exists|k: int| 0 <= k < i && lengths@[k] == high,
            forall|k: int| 0 <= k < i ==> low <= #[trigger] lengths@[k] && lengths@[k] <= high,
        decreases lengths@.len() - i,
    {
        let x = lengths[i];
        if x < low {
            low = x;
        }
        if x > high {
            high = x;
        }
        i = i + 1;
    }
    proof {
        let s = ints(lengths@);
        let k_low = choose|k: int| 0 <= k < i && lengths@[k] == low;
        let k_high = choose|k: int| 0 <= k < i && lengths@[k] == high;
        assert(s[k_low] == low as int);
        assert(s[k_high] == high as int);
        assert(forall|k: int|
            0 <= k < s.len() ==> low as int <= #[trigger] s[k] && s[k] <= high as int);
        lemma_extrema(s, low as int, high as int);
    }
    Some((low, high))
}

/// The median of `lengths`, or `None` where there is none.
pub fn median_of(lengths: &[usize]) -> (middle: Option<usize>)
    ensures
        middle is None <==> lengths@.len() == 0,
        middle is Some ==> middle->Some_0 == median(ints(lengths@)),
{
    if lengths.len() == 0 {
        return None;
    }
    let in_order = sorted(lengths);
    Some(in_order[lengths.len() / 2])
}

} // verus!
