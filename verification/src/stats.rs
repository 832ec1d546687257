//! Summary statistics over a collection of measured sizes.

use crate::ratio::Ratio;
use vstd::prelude::*;
use vstd::relations::{sorted_by, total_ordering};
use vstd::seq_lib::{lemma_multiset_commutative, lemma_sorted_unique, to_multiset_build};

verus! {

/// Total, extremes, mean and median of a non-empty collection of sizes.
#[derive(Clone, Copy, Debug, PartialEq, Eq, Structural)]
pub struct SizeStats {
    /// Number of sizes summarised.
    pub count: usize,
    /// Sum of all sizes.
    pub total: u128,
    /// Smallest size.
    pub min: u64,
    /// Largest size.
    pub max: u64,
    /// `total / count`.
    pub average: Ratio,
    /// The middle size, or the mean of the two middle sizes.
    pub median: Ratio,
}

/// Why no statistics could be computed.
#[derive(Clone, Copy, Debug, PartialEq, Eq, Structural)]
pub enum StatsError {
    /// There was no measurement to summarise.
    EmptyInput,
}

/// Sum of all sizes.
pub open spec fn sum(s: Seq<u64>) -> nat
    decreases s.len(),
{
    if s.len() == 0 {
        0
    } else {
        sum(s.drop_last()) + s.last() as nat
    }
}

/// No size is followed by a smaller one.
pub open spec fn ascending(s: Seq<u64>) -> bool {
    forall|i: int, j: int| 0 <= i < j < s.len() ==> s[i] <= s[j]
}

/// The order on sizes used for sorting.
pub open spec fn size_leq() -> spec_fn(u64, u64) -> bool {
    |a: u64, b: u64| a <= b
}

/// The sizes of `s` arranged in ascending order.
pub open spec fn sorted_sizes(s: Seq<u64>) -> Seq<u64> {
    s.sort_by(size_leq())
}

/// The median of an ascending, non-empty sequence.
pub open spec fn median_of(sorted: Seq<u64>) -> Ratio {
    let mid = (sorted.len() / 2) as int;
    if sorted.len() % 2 == 0 {
        Ratio { num: (sorted[mid - 1] + sorted[mid]) as u128, den: 2 }
    } else {
        Ratio { num: sorted[mid] as u128, den: 1 }
    }
}

/// The statistics of a non-empty sequence of sizes.
pub open spec fn stats_of(s: Seq<u64>) -> SizeStats {
    let sorted = sorted_sizes(s);
    SizeStats {
        count: s.len() as usize,
        total: sum(s) as u128,
        min: sorted[0],
        max: sorted[sorted.len() - 1],
        average: Ratio { num: sum(s) as u128, den: s.len() as u128 },
        median: median_of(sorted),
    }
}

proof fn lemma_size_leq_total()
    ensures
        total_ordering(size_leq()),
{
}

proof fn lemma_ascending_is_sorted_by(s: Seq<u64>)
    ensures
        ascending(s) <==> sorted_by(s, size_leq()),
{
    if ascending(s) {
        assert forall|i: int, j: int| 0 <= i < j < s.len() implies #[trigger] size_leq()(
            s[i],
            s[j],
        ) by {}
    }
    if sorted_by(s, size_leq()) {
        assert forall|i: int, j: int| 0 <= i < j < s.len() implies s[i] <= s[j] by {
            assert(size_leq()(s[i], s[j]));
        }
    }
}

/// `sorted_sizes(s)` is ascending and holds exactly the sizes of `s`, each as often as `s` does.
pub proof fn lemma_sorted_sizes(s: Seq<u64>)
    ensures
        ascending(sorted_sizes(s)),
        sorted_sizes(s).to_multiset() == s.to_multiset(),
        sorted_sizes(s).len() == s.len(),
{
    lemma_size_leq_total();
    s.lemma_sort_by_ensures(size_leq());
    lemma_ascending_is_sorted_by(sorted_sizes(s));
    vstd::seq_lib::to_multiset_len(s);
    vstd::seq_lib::to_multiset_len(sorted_sizes(s));
}

/// An ascending rearrangement of `s` is `sorted_sizes(s)`: there is only one.
pub proof fn lemma_sorted_sizes_unique(s: Seq<u64>, t: Seq<u64>)
    requires
        ascending(t),
        t.to_multiset() == s.to_multiset(),
    ensures
        t == sorted_sizes(s),
{
    lemma_size_leq_total();
    lemma_sorted_sizes(s);
    lemma_ascending_is_sorted_by(t);
    lemma_ascending_is_sorted_by(sorted_sizes(s));
    lemma_sorted_unique(t, sorted_sizes(s), size_leq());
}

/// The sum of `n` sizes is at most `n` times the largest 64-bit value.
proof fn lemma_sum_bound(s: Seq<u64>)
    ensures
        sum(s) <= s.len() * u64::MAX,
    decreases s.len(),
{
    if s.len() > 0 {
        lemma_sum_bound(s.drop_last());
        assert((s.len() - 1) * u64::MAX + u64::MAX == s.len() * u64::MAX) by (nonlinear_arith);
    }
}

/// If every size lies in `[lo, hi]`, the sum lies in `[len * lo, len * hi]`.
proof fn lemma_sum_between(s: Seq<u64>, lo: int, hi: int)
    requires
        forall|i: int| 0 <= i < s.len() ==> lo <= #[trigger] s[i] <= hi,
    ensures
        s.len() * lo <= sum(s) <= s.len() * hi,
    decreases s.len(),
{
    if s.len() > 0 {
        let t = s.drop_last();
        assert forall|i: int| 0 <= i < t.len() implies lo <= #[trigger] t[i] <= hi by {
            assert(t[i] == s[i]);
        }
        lemma_sum_between(t, lo, hi);
        assert((s.len() - 1) * lo + lo == s.len() * lo) by (nonlinear_arith);
        assert((s.len() - 1) * hi + hi == s.len() * hi) by (nonlinear_arith);
    } else {
        assert(s.len() * lo == 0) by (nonlinear_arith)
            requires
                s.len() == 0,
        ;
        assert(s.len() * hi == 0) by (nonlinear_arith)
            requires
                s.len() == 0,
        ;
    }
}

/// Every size of `s` occurs in `sorted_sizes(s)`, and the other way round.
proof fn lemma_sorted_same_elements(s: Seq<u64>)
    ensures
        forall|i: int| 0 <= i < s.len() ==> sorted_sizes(s).contains(#[trigger] s[i]),
        forall|i: int|
            0 <= i < sorted_sizes(s).len() ==> s.contains(#[trigger] sorted_sizes(s)[i]),
{
    lemma_sorted_sizes(s);
    let t = sorted_sizes(s);
    assert forall|i: int| 0 <= i < s.len() implies t.contains(#[trigger] s[i]) by {
        assert(s.contains(s[i]));
        vstd::seq_lib::to_multiset_contains(s, s[i]);
        vstd::seq_lib::to_multiset_contains(t, s[i]);
    }
    assert forall|i: int| 0 <= i < t.len() implies s.contains(#[trigger] t[i]) by {
        assert(t.contains(t[i]));
        vstd::seq_lib::to_multiset_contains(s, t[i]);
        vstd::seq_lib::to_multiset_contains(t, t[i]);
    }
}

/// What the statistics of a non-empty collection are worth: the extremes are
/// sizes of the collection and bound all of them, the mean and the median lie
/// between the extremes, and the total is the sum.
pub proof fn lemma_stats_bounds(s: Seq<u64>)
    requires
        0 < s.len() <= usize::MAX,
    ensures
        stats_of(s).total == sum(s),
        s.contains(stats_of(s).min),
        s.contains(stats_of(s).max),
        forall|i: int| 0 <= i < s.len() ==> stats_of(s).min <= #[trigger] s[i] <= stats_of(s).max,
        stats_of(s).min <= stats_of(s).max,
        stats_of(s).average.wf(),
        stats_of(s).average.at_least(stats_of(s).min as int),
        stats_of(s).average.at_most(stats_of(s).max as int),
        stats_of(s).median.wf(),
        stats_of(s).median.at_least(stats_of(s).min as int),
        stats_of(s).median.at_most(stats_of(s).max as int),
{
    lemma_sorted_sizes(s);
    lemma_sorted_same_elements(s);
    lemma_sum_bound(s);
    let t = sorted_sizes(s);
    let st = stats_of(s);
    let last = t.len() - 1;
    assert(s.len() * u64::MAX <= usize::MAX * u64::MAX) by (nonlinear_arith)
        requires
            s.len() <= usize::MAX,
    ;
    assert(st.total == sum(s));
    assert(s.contains(t[0]));
    assert(s.contains(t[last]));
    assert forall|i: int| 0 <= i < s.len() implies st.min <= #[trigger] s[i] <= st.max by {
        assert(t.contains(s[i]));
        let k = choose|k: int| 0 <= k < t.len() && t[k] == s[i];
        assert(t[0] <= t[k] <= t[last]);
    }
    lemma_sum_between(s, st.min as int, st.max as int);
    assert(st.min as int * s.len() == s.len() * st.min as int) by (nonlinear_arith);
    assert(st.max as int * s.len() == s.len() * st.max as int) by (nonlinear_arith);
    let mid = (t.len() / 2) as int;
    if t.len() % 2 == 0 {
        assert(t[0] <= t[mid - 1] <= t[last]);
        assert(t[0] <= t[mid] <= t[last]);
    } else {
        assert(t[0] <= t[mid] <= t[last]);
    }
}

/// The statistics of a single size: everything equals that size.
pub proof fn lemma_stats_of_one(x: u64)
    ensures
        stats_of(seq![x]).count == 1,
        stats_of(seq![x]).total == x,
        stats_of(seq![x]).min == x,
        stats_of(seq![x]).max == x,
        stats_of(seq![x]).average == (Ratio { num: x as u128, den: 1 }),
        stats_of(seq![x]).median == (Ratio { num: x as u128, den: 1 }),
        stats_of(seq![x]).average.is_int(x as int),
        stats_of(seq![x]).median.is_int(x as int),
{
    let s = seq![x];
    assert(ascending(s));
    lemma_sorted_sizes_unique(s, s);
    assert(s.drop_last() =~= Seq::<u64>::empty());
    assert(sum(s.drop_last()) == 0);
    assert(sum(s) == x);
    let st = stats_of(s);
    assert(st.average.den == 1 && st.median.den == 1);
    assert(x as int * st.average.den == x) by (nonlinear_arith)
        requires
            st.average.den == 1,
    ;
    assert(x as int * st.median.den == x) by (nonlinear_arith)
        requires
            st.median.den == 1,
    ;
}

/// Merges two ascending lists into one.
fn merge(left: &Vec<u64>, right: &Vec<u64>) -> (out: Vec<u64>)
    requires
        ascending(left@),
        ascending(right@),
        left.len() + right.len() <= usize::MAX,
    ensures
        ascending(out@),
        out@.to_multiset() == left@.to_multiset().add(right@.to_multiset()),
        out.len() == left.len() + right.len(),
{
    broadcast use vstd::multiset::group_multiset_axioms;

    let mut out: Vec<u64> = Vec::new();
    let mut i: usize = 0;
    let mut j: usize = 0;
    proof {
        let none = Seq::<u64>::empty();
        assert(left@.take(0) =~= none);
        assert(right@.take(0) =~= none);
        assert(out@ =~= none + none);
        lemma_multiset_commutative(none, none);
    }
    while i < left.len() || j < right.len()
        invariant
            i <= left.len(),
            j <= right.len(),
            left.len() + right.len() <= usize::MAX,
            ascending(left@),
            ascending(right@),
            out.len() == i + j,
            ascending(out@),
            out@.to_multiset() == left@.take(i as int).to_multiset().add(
                right@.take(j as int).to_multiset(),
            ),
            forall|k: int| 0 <= k < out.len() && i < left.len() ==> out@[k] <= left@[i as int],
            forall|k: int| 0 <= k < out.len() && j < right.len() ==> out@[k] <= right@[j as int],
        decreases left.len() - i + right.len() - j,
    {
        let ghost before = out@;
        let from_left: bool = if i < left.len() && j < right.len() {
            left[i] <= right[j]
        } else {
            i < left.len()
        };
        if from_left {
            let x: u64 = left[i];
            out.push(x);
            proof {
                assert(left@.take(i + 1) =~= left@.take(i as int).push(x));
                to_multiset_build(left@.take(i as int), x);
                to_multiset_build(before, x);
                assert(out@.to_multiset() =~= left@.take(i + 1).to_multiset().add(
                    right@.take(j as int).to_multiset(),
                ));
            }
            i = i + 1;
        } else {
            let x: u64 = right[j];
            out.push(x);
            proof {
                assert(right@.take(j + 1) =~= right@.take(j as int).push(x));
                to_multiset_build(right@.take(j as int), x);
                to_multiset_build(before, x);
                assert(out@.to_multiset() =~= left@.take(i as int).to_multiset().add(
                    right@.take(j + 1).to_multiset(),
                ));
            }
            j = j + 1;
        }
    }
    proof {
        assert(left@.take(left.len() as int) =~= left@);
        assert(right@.take(right.len() as int) =~= right@);
    }
    out
}

/// Arranges the sizes at positions `lo` to `hi - 1` in ascending order.
fn sort_range(sizes: &Vec<u64>, lo: usize, hi: usize) -> (out: Vec<u64>)
    requires
        lo <= hi <= sizes.len(),
    ensures
        ascending(out@),
        out@.to_multiset() == sizes@.subrange(lo as int, hi as int).to_multiset(),
        out.len() == hi - lo,
    decreases hi - lo,
{
    if hi - lo <= 1 {
        let mut out: Vec<u64> = Vec::new();
        if lo < hi {
            out.push(sizes[lo]);
        }
        assert(out@ =~= sizes@.subrange(lo as int, hi as int));
        out
    } else {
        let mid: usize = lo + (hi - lo) / 2;
        let left: Vec<u64> = sort_range(sizes, lo, mid);
        let right: Vec<u64> = sort_range(sizes, mid, hi);
        proof {
            let a = sizes@.subrange(lo as int, mid as int);
            let b = sizes@.subrange(mid as int, hi as int);
            assert(sizes@.subrange(lo as int, hi as int) =~= a + b);
            lemma_multiset_commutative(a, b);
        }
        merge(&left, &right)
    }
}

/// Arranges sizes in ascending order.
pub fn sort_sizes(sizes: &Vec<u64>) -> (sorted: Vec<u64>)
    ensures
        sorted@ == sorted_sizes(sizes@),
        ascending(sorted@),
        sorted@.to_multiset() == sizes@.to_multiset(),
        sorted.len() == sizes.len(),
{
    let sorted: Vec<u64> = sort_range(sizes, 0, sizes.len());
    proof {
        assert(sizes@.subrange(0, sizes.len() as int) =~= sizes@);
        lemma_sorted_sizes_unique(sizes@, sorted@);
    }
    sorted
}

/// Adds up all sizes.
pub fn total_size(sizes: &Vec<u64>) -> (total: u128)
    ensures
        total == sum(sizes@),
{
    let mut total: u128 = 0;
    let mut i: usize = 0;
    proof {
        assert(sizes@.take(0) =~= Seq::<u64>::empty());
    }
    while i < sizes.len()
        invariant
            i <= sizes.len(),
            total == sum(sizes@.take(i as int)),
        decreases sizes.len() - i,
    {
        proof {
            let next = sizes@.take(i + 1);
            assert(next.drop_last() =~= sizes@.take(i as int));
            assert(next.last() == sizes@[i as int]);
            lemma_sum_bound(next);
            assert(next.len() * u64::MAX <= usize::MAX * u64::MAX) by (nonlinear_arith)
                requires
                    next.len() <= usize::MAX,
            ;
        }
        total = total + sizes[i] as u128;
        i = i + 1;
    }
    proof {
        assert(sizes@.take(sizes.len() as int) =~= sizes@);
    }
    total
}

/// Summarises a collection of sizes.
///
/// Fails with `EmptyInput` exactly when there is nothing to summarise.
pub fn aggregate(sizes: &Vec<u64>) -> (r: Result<SizeStats, StatsError>)
    ensures
        sizes@.len() == 0 <==> r == Err::<SizeStats, StatsError>(StatsError::EmptyInput),
        sizes@.len() > 0 <==> r == Ok::<SizeStats, StatsError>(stats_of(sizes@)),
        r matches Ok(stats) ==> {
            &&& stats.count == sizes@.len()
            &&& stats.total == sum(sizes@)
            &&& stats.min <= stats.max
            &&& forall|i: int| 0 <= i < sizes@.len() ==> stats.min <= #[trigger] sizes@[i] <= stats.max
            &&& stats.average.at_least(stats.min as int) && stats.average.at_most(stats.max as int)
            &&& stats.median.at_least(stats.min as int) && stats.median.at_most(stats.max as int)
        },
{
    let count: usize = sizes.len();
    if count == 0 {
        return Err(StatsError::EmptyInput);
    }
    proof {
        lemma_stats_bounds(sizes@);
    }
    let sorted: Vec<u64> = sort_sizes(sizes);
    let total: u128 = total_size(sizes);
    let mid: usize = count / 2;
    let median: Ratio = if count % 2 == 0 {
        Ratio { num: sorted[mid - 1] as u128 + sorted[mid] as u128, den: 2 }
    } else {
        Ratio { num: sorted[mid] as u128, den: 1 }
    };
    Ok(
        SizeStats {
            count,
            total,
            min: sorted[0],
            max: sorted[count - 1],
            average: Ratio { num: total, den: count as u128 },
            median,
        },
    )
}

} // verus!
