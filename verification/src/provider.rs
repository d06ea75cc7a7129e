//! What a market data provider owes the fit: for each expiry one implied
//! volatility, that of the quote whose strike lies closest to the target
//! among the quotes that carry a volatility.

use vstd::prelude::*;
use crate::binary64::Binary64;

verus! {

/// The encoding of the largest finite number. A quote is considered only
/// where its distance from the target is below it.
pub const LARGEST_FINITE_BITS: u64 = 0x7fef_ffff_ffff_ffff;

/// One row of an option chain: how far its strike lies from the target
/// strike, and the implied volatility it quotes.
#[derive(Clone, Copy, Debug, PartialEq, Eq, Structural)]
pub struct Quote {
    pub distance: Binary64,
    pub implied_volatility: Binary64,
}

/// The quote can be chosen: its volatility is above zero and its distance is
/// a number below the largest finite one.
pub open spec fn usable(quote: Quote) -> bool {
    quote.implied_volatility.positive() && quote.distance.below(
        Binary64 { bits: LARGEST_FINITE_BITS },
    )
}

/// The quote at `index` is the closest: it is usable, no usable quote lies
/// nearer the target, and none at the same distance stands before it.
pub open spec fn closest(quotes: Seq<Quote>, index: int) -> bool {
    &&& 0 <= index < quotes.len()
    &&& usable(quotes[index])
    &&& forall|other: int|
        0 <= other < quotes.len() && usable(#[trigger] quotes[other]) ==> {
            ||| quotes[index].distance.rank() < quotes[other].distance.rank()
            ||| (quotes[index].distance.rank() == quotes[other].distance.rank() && index <= other)
        }
}

/// Some quote is usable.
pub open spec fn any_usable(quotes: Seq<Quote>) -> bool {
    exists|index: int| 0 <= index < quotes.len() && usable(#[trigger] quotes[index])
}

/// The index of the usable quote nearest the target, the first of several at
/// the same distance; `None` where no quote is usable.
pub fn closest_quote(quotes: &Vec<Quote>) -> (r: Option<usize>)
    ensures
        r is Some <==> any_usable(quotes@),
        r matches Some(index) ==> closest(quotes@, index as int),
{
    let bound = Binary64::from_bits(LARGEST_FINITE_BITS);
    let mut best: Option<usize> = None;
    let mut at: usize = 0;
    while at < quotes.len()
        invariant
            at <= quotes@.len(),
            bound.bits == LARGEST_FINITE_BITS,
            best is Some <==> any_usable(quotes@.take(at as int)),
            best matches Some(index) ==> closest(quotes@.take(at as int), index as int),
        decreases quotes@.len() - at,
    {
        let quote: Quote = quotes[at];
        let offered: bool = quote.implied_volatility.is_positive() && quote.distance.lt(bound);
        let taken: bool = offered && match best {
            None => true,
            Some(index) => quote.distance.ranks_below(quotes[index].distance),
        };
        proof {
            let seen = quotes@.take(at as int);
            let next = quotes@.take(at + 1);
            assert(next[at as int] == quotes@[at as int]);
            assert forall|other: int| 0 <= other < at implies next[other] == seen[other] by {}
            if any_usable(seen) {
                let w = choose|w: int| 0 <= w < seen.len() && usable(#[trigger] seen[w]);
                assert(usable(next[w]));
            }
            if any_usable(next) {
                let w = choose|w: int| 0 <= w < next.len() && usable(#[trigger] next[w]);
                assert(w < at ==> usable(seen[w]));
            }
        }
        if taken {
            best = Some(at);
        }
        at = at + 1;
    }
    assert(quotes@.take(at as int) =~= quotes@);
    best
}

/// An option chain has at most one closest quote.
pub proof fn lemma_closest_unique(quotes: Seq<Quote>, first: int, second: int)
    requires
        closest(quotes, first),
        closest(quotes, second),
    ensures
        first == second,
{
}

} // verus!
