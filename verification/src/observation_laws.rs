//! What holds of the order in which observations are read, and of the sets
//! that cannot be read at all.

use vstd::prelude::*;
use vstd::seq_lib::to_multiset_build;
use crate::observation::Observation;
use crate::observation::ascending;
use crate::observation::keeps_ties;
use crate::observation::lemma_kept_came_from;
use crate::observation::lemma_with_expiry_absent;
use crate::observation::lemma_with_expiry_concat;
use crate::observation::lemma_with_expiry_single;
use crate::observation::single_expiry;
use crate::observation::stably_sorted;
use crate::observation::with_expiry;

verus! {

/// The first observation of a sequence heads the observations of its expiry,
/// and dropping it drops it from those and from no others.
proof fn lemma_drop_first(s: Seq<Observation>, expiry: u64)
    requires
        s.len() > 0,
    ensures
        s[0].expiry == expiry ==> with_expiry(s, expiry).len() > 0 && with_expiry(s, expiry)[0]
            == s[0] && with_expiry(s.drop_first(), expiry) == with_expiry(s, expiry).drop_first(),
        s[0].expiry != expiry ==> with_expiry(s.drop_first(), expiry) == with_expiry(s, expiry),
{
    let rest = s.drop_first();
    assert(s =~= seq![s[0]] + rest);
    lemma_with_expiry_concat(seq![s[0]], rest, expiry);
    lemma_with_expiry_single(s[0], expiry);
    assert(Seq::<Observation>::empty() + with_expiry(rest, expiry) =~= with_expiry(rest, expiry));
}

/// Two ascending sequences that agree on the observations of every expiry,
/// order included, are one sequence.
proof fn lemma_ascending_ties_agree(a: Seq<Observation>, b: Seq<Observation>)
    requires
        ascending(a),
        ascending(b),
        keeps_ties(a, b),
    ensures
        a == b,
    decreases a.len(),
{
    if a.len() == 0 {
        if b.len() > 0 {
            let e = b[0].expiry;
            lemma_drop_first(b, e);
            lemma_with_expiry_absent(a, e);
        }
    } else {
        let e0 = a[0].expiry;
        lemma_drop_first(a, e0);
        lemma_kept_came_from(b, e0, 0);
        let e1 = b[0].expiry;
        lemma_drop_first(b, e1);
        lemma_kept_came_from(a, e1, 0);
        let a_rest = a.drop_first();
        let b_rest = b.drop_first();
        assert forall|expiry: u64| #[trigger]
            with_expiry(a_rest, expiry) == with_expiry(b_rest, expiry) by {
            lemma_drop_first(a, expiry);
            lemma_drop_first(b, expiry);
        }
        lemma_ascending_ties_agree(a_rest, b_rest);
        assert(b =~= seq![b[0]] + b_rest);
    }
}

/// A set of observations has one stable sort: whatever produced two of them,
/// they are equal, so a fit reads a given set in one order only.
pub proof fn lemma_stable_sort_unique(
    first: Seq<Observation>,
    second: Seq<Observation>,
    given: Seq<Observation>,
)
    requires
        stably_sorted(first, given),
        stably_sorted(second, given),
    ensures
        first == second,
{
    lemma_ascending_ties_agree(first, second);
}

/// An observation stands in a sequence as often as it stands among the
/// observations of its expiry.
proof fn lemma_count_within_expiry(s: Seq<Observation>, o: Observation)
    ensures
        s.to_multiset().count(o) == with_expiry(s, o.expiry).to_multiset().count(o),
    decreases s.len(),
{
    reveal(Seq::filter);
    if s.len() > 0 {
        let front = s.drop_last();
        let last = s.last();
        lemma_count_within_expiry(front, o);
        assert(s =~= front.push(last));
        to_multiset_build(front, last);
        if last.expiry == o.expiry {
            to_multiset_build(with_expiry(front, o.expiry), last);
        }
    }
}

/// Sorting rearranges: the sorted sequence holds each observation as often as
/// the given one, and so has its length.
pub proof fn lemma_keeps_ties_rearranges(arranged: Seq<Observation>, given: Seq<Observation>)
    requires
        keeps_ties(arranged, given),
    ensures
        arranged.to_multiset() == given.to_multiset(),
        arranged.len() == given.len(),
{
    assert forall|o: Observation|
        arranged.to_multiset().count(o) == given.to_multiset().count(o) by {
        lemma_count_within_expiry(arranged, o);
        lemma_count_within_expiry(given, o);
    }
    arranged.to_multiset_ensures();
    given.to_multiset_ensures();
}

/// The sum of the expiries.
pub open spec fn expiry_sum(s: Seq<Observation>) -> int
    decreases s.len(),
{
    if s.len() == 0 {
        0
    } else {
        expiry_sum(s.drop_last()) + s.last().expiry
    }
}

/// The sum, over the observations, of the square of `count * expiry - total`.
pub open spec fn squared_deviations(s: Seq<Observation>, count: int, total: int) -> int
    decreases s.len(),
{
    if s.len() == 0 {
        0
    } else {
        squared_deviations(s.drop_last(), count, total) + (count * s.last().expiry - total) * (count
            * s.last().expiry - total)
    }
}

/// The population variance of the expiries, times the cube of their number:
/// with `n` expiries of sum `t`, the mean is `t / n`, an expiry `x` lies
/// `(n * x - t) / n` from it, and the variance is the mean of the squares of
/// these distances.
pub open spec fn scaled_variance(s: Seq<Observation>) -> int {
    squared_deviations(s, s.len() as int, expiry_sum(s))
}

/// A sum of squares is zero exactly when every term is.
proof fn lemma_squared_deviations_zero(s: Seq<Observation>, count: int, total: int)
    ensures
        squared_deviations(s, count, total) >= 0,
        squared_deviations(s, count, total) == 0 <==> forall|i: int|
            0 <= i < s.len() ==> count * (#[trigger] s[i]).expiry == total,
    decreases s.len(),
{
    if s.len() > 0 {
        let front = s.drop_last();
        let d = count * s.last().expiry - total;
        lemma_squared_deviations_zero(front, count, total);
        assert(d * d >= 0 && (d * d == 0 <==> d == 0)) by (nonlinear_arith);
        if squared_deviations(s, count, total) == 0 {
            assert forall|i: int| 0 <= i < s.len() implies count * (#[trigger] s[i]).expiry
                == total by {
                if i < front.len() {
                    assert(front[i] == s[i]);
                }
            }
        }
    }
}

/// Observations of one expiry sum to that expiry times their number.
proof fn lemma_sum_of_single_expiry(s: Seq<Observation>, expiry: u64)
    requires
        forall|i: int| 0 <= i < s.len() ==> (#[trigger] s[i]).expiry == expiry,
    ensures
        expiry_sum(s) == s.len() * expiry,
    decreases s.len(),
{
    if s.len() > 0 {
        lemma_sum_of_single_expiry(s.drop_last(), expiry);
        assert((s.len() - 1) * expiry + expiry == s.len() * expiry) by (nonlinear_arith);
    }
}

/// The expiries have variance zero exactly when they are all the same: the
/// sets that [`crate::observation::has_single_expiry`] finds are those whose
/// standard deviation is zero, where normalizing an expiry would divide by
/// zero.
pub proof fn lemma_zero_variance_is_single_expiry(s: Seq<Observation>)
    ensures
        scaled_variance(s) == 0 <==> single_expiry(s),
{
    let count = s.len() as int;
    let total = expiry_sum(s);
    lemma_squared_deviations_zero(s, count, total);
    if single_expiry(s) {
        if s.len() > 0 {
            lemma_sum_of_single_expiry(s, s[0].expiry);
        }
    }
    if scaled_variance(s) == 0 {
        assert forall|i: int, j: int| 0 <= i < s.len() && 0 <= j < s.len() implies s[i].expiry
            == s[j].expiry by {
            let xi = s[i].expiry as int;
            let xj = s[j].expiry as int;
            assert(xi == xj) by (nonlinear_arith)
                requires
                    count * xi == count * xj,
                    count > 0,
            ;
        }
    }
}

} // verus!
