//! Market observations and the order in which a fit reads them.

use vstd::prelude::*;
use crate::binary64::Binary64;

verus! {

/// One quoted implied volatility: the expiry it was quoted for, in seconds
/// since the Unix epoch, and the volatility as a fraction.
#[derive(Clone, Copy, Debug, PartialEq, Eq, Structural)]
pub struct Observation {
    pub expiry: u64,
    pub implied_volatility: Binary64,
}

/// The observations of `s` quoted for `expiry`, in the order they have in `s`.
pub open spec fn with_expiry(s: Seq<Observation>, expiry: u64) -> Seq<Observation> {
    s.filter(|o: Observation| o.expiry == expiry)
}

/// No observation is followed by one of an earlier expiry.
pub open spec fn ascending(s: Seq<Observation>) -> bool {
    forall|i: int, j: int| 0 <= i < j < s.len() ==> s[i].expiry <= s[j].expiry
}

/// `arranged` holds the observations of `given`, and those of one expiry stand
/// in the order they had in `given`.
pub open spec fn keeps_ties(arranged: Seq<Observation>, given: Seq<Observation>) -> bool {
    forall|expiry: u64| #[trigger] with_expiry(arranged, expiry) == with_expiry(given, expiry)
}

/// `arranged` is `given` sorted by expiry, ties in the order given.
pub open spec fn stably_sorted(arranged: Seq<Observation>, given: Seq<Observation>) -> bool {
    ascending(arranged) && keeps_ties(arranged, given)
}

/// Every observation is quoted for one and the same expiry.
pub open spec fn single_expiry(s: Seq<Observation>) -> bool {
    forall|i: int, j: int| 0 <= i < s.len() && 0 <= j < s.len() ==> s[i].expiry == s[j].expiry
}

/// Filtering by expiry goes through concatenation.
pub(crate) proof fn lemma_with_expiry_concat(a: Seq<Observation>, b: Seq<Observation>, expiry: u64)
    ensures
        with_expiry(a + b, expiry) == with_expiry(a, expiry) + with_expiry(b, expiry),
{
    Seq::filter_distributes_over_add(a, b, |o: Observation| o.expiry == expiry);
}

/// Filtering a single observation keeps it or drops it.
pub(crate) proof fn lemma_with_expiry_single(o: Observation, expiry: u64)
    ensures
        with_expiry(seq![o], expiry) == if o.expiry == expiry {
            seq![o]
        } else {
            Seq::<Observation>::empty()
        },
{
    let pred = |x: Observation| x.expiry == expiry;
    let s = seq![o];
    reveal_with_fuel(Seq::filter, 2);
    assert(s.filter(pred) =~= if o.expiry == expiry {
        seq![o]
    } else {
        Seq::<Observation>::empty()
    });
}

/// A sequence that holds no observation of `expiry` filters to nothing.
pub(crate) proof fn lemma_with_expiry_absent(s: Seq<Observation>, expiry: u64)
    requires
        forall|i: int| 0 <= i < s.len() ==> s[i].expiry != expiry,
    ensures
        with_expiry(s, expiry) == Seq::<Observation>::empty(),
{
    if with_expiry(s, expiry).len() > 0 {
        lemma_kept_came_from(s, expiry, 0);
    }
}

/// Each observation that the filter keeps stands somewhere in the sequence.
pub(crate) proof fn lemma_kept_came_from(s: Seq<Observation>, expiry: u64, k: int)
    requires
        0 <= k < with_expiry(s, expiry).len(),
    ensures
        exists|i: int| 0 <= i < s.len() && s[i] == with_expiry(s, expiry)[k] && s[i].expiry == expiry,
    decreases s.len(),
{
    reveal(Seq::filter);
    if s.len() > 0 && k < with_expiry(s.drop_last(), expiry).len() {
        lemma_kept_came_from(s.drop_last(), expiry, k);
    }
}

/// The place where `o` is inserted: behind every observation that is not
/// later than it, before every one that is.
fn insertion_point(sorted: &Vec<Observation>, o: Observation) -> (at: usize)
    requires
        ascending(sorted@),
    ensures
        at <= sorted.len(),
        forall|i: int| 0 <= i < at ==> sorted@[i].expiry <= o.expiry,
        forall|i: int| at <= i < sorted.len() ==> sorted@[i].expiry > o.expiry,
{
    let mut at: usize = sorted.len();
    while at > 0 && sorted[at - 1].expiry > o.expiry
        invariant
            at <= sorted.len(),
            ascending(sorted@),
            forall|i: int| at <= i < sorted.len() ==> sorted@[i].expiry > o.expiry,
        decreases at,
    {
        at = at - 1;
    }
    at
}

/// Inserting `o` at its insertion point appends it to the observations of its
/// own expiry and leaves those of every other expiry as they were.
proof fn lemma_insert_keeps_ties(s: Seq<Observation>, at: int, o: Observation, expiry: u64)
    requires
        0 <= at <= s.len(),
        forall|i: int| at <= i < s.len() ==> s[i].expiry > o.expiry,
    ensures
        with_expiry(s.insert(at, o), expiry) == if expiry == o.expiry {
            with_expiry(s, expiry).push(o)
        } else {
            with_expiry(s, expiry)
        },
{
    let head = s.subrange(0, at);
    let tail = s.subrange(at, s.len() as int);
    assert(s =~= head + tail);
    assert(s.insert(at, o) =~= head + seq![o] + tail);
    lemma_with_expiry_concat(head, tail, expiry);
    lemma_with_expiry_concat(head + seq![o], tail, expiry);
    lemma_with_expiry_concat(head, seq![o], expiry);
    lemma_with_expiry_single(o, expiry);
    if expiry == o.expiry {
        lemma_with_expiry_absent(tail, expiry);
        assert(with_expiry(head, expiry) + seq![o] + Seq::<Observation>::empty() =~= (
        with_expiry(head, expiry) + Seq::<Observation>::empty()).push(o));
    } else {
        assert(with_expiry(head, expiry) + Seq::<Observation>::empty() + with_expiry(tail, expiry)
            =~= with_expiry(head, expiry) + with_expiry(tail, expiry));
    }
}

/// The observations sorted by expiry, earliest first. Observations of one
/// expiry keep the order they were given in.
pub fn sort_by_expiry(observations: &Vec<Observation>) -> (sorted: Vec<Observation>)
    ensures
        stably_sorted(sorted@, observations@),
        sorted@.len() == observations@.len(),
{
    let mut sorted: Vec<Observation> = Vec::new();
    let mut taken: usize = 0;
    proof {
        assert(sorted@ =~= observations@.take(0));
    }
    while taken < observations.len()
        invariant
            taken <= observations.len(),
            sorted@.len() == taken,
            stably_sorted(sorted@, observations@.take(taken as int)),
        decreases observations.len() - taken,
    {
        let o: Observation = observations[taken];
        let at: usize = insertion_point(&sorted, o);
        proof {
            let before = sorted@;
            let read = observations@.take(taken as int);
            assert(observations@.take(taken + 1) =~= read + seq![o]);
            assert forall|expiry: u64| #[trigger]
                with_expiry(before.insert(at as int, o), expiry) == with_expiry(
                    observations@.take(taken + 1),
                    expiry,
                ) by {
                lemma_insert_keeps_ties(before, at as int, o, expiry);
                lemma_with_expiry_concat(read, seq![o], expiry);
                lemma_with_expiry_single(o, expiry);
                assert(with_expiry(read, expiry) + Seq::<Observation>::empty() =~= with_expiry(
                    read,
                    expiry,
                ));
            }
        }
        sorted.insert(at, o);
        taken = taken + 1;
    }
    assert(observations@.take(taken as int) =~= observations@);
    sorted
}

/// Whether every observation is quoted for the same expiry.
pub fn has_single_expiry(observations: &Vec<Observation>) -> (r: bool)
    ensures
        r == single_expiry(observations@),
{
    let mut at: usize = 1;
    while at < observations.len()
        invariant
            1 <= at,
            forall|i: int|
                0 <= i < at && i < observations.len() ==> (#[trigger] observations@[i]).expiry
                    == observations@[0].expiry,
        decreases observations.len() - at,
    {
        if observations[at].expiry != observations[0].expiry {
            return false;
        }
        at = at + 1;
    }
    true
}

} // verus!
