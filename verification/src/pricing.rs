//! Pricing requests: which are accepted, and when an option pays.
//!
//! Both pricers, the closed form and the simulation, accept the same
//! requests: [`PricingRequest::validate`] is the one test, and a request that
//! fails it is priced by neither.

use vstd::prelude::*;
use vstd::string::StrSliceExecFns;
use crate::binary64::Binary64;

verus! {

/// The right that an option gives: to buy at the strike, or to sell at it.
#[derive(Clone, Copy, Debug, PartialEq, Eq, Structural)]
pub enum OptionKind {
    Call,
    Put,
}

/// Why a request was not priced.
#[derive(Clone, Copy, Debug, PartialEq, Eq, Structural)]
pub enum PricingError {
    /// The spot, the strike, the time to maturity or the volatility is not
    /// above zero.
    InvalidPricingInput,
}

/// One valuation: the spot and strike prices, the time to maturity in years,
/// the annual risk-free rate and the volatility as fractions, and the kind.
#[derive(Clone, Copy, Debug, PartialEq, Eq, Structural)]
pub struct PricingRequest {
    pub spot: Binary64,
    pub strike: Binary64,
    pub time_to_maturity: Binary64,
    pub rate: Binary64,
    pub volatility: Binary64,
    pub kind: OptionKind,
}

/// The state of the market when the observations were taken: the spot price
/// of the underlying and the annual risk-free rate as a fraction.
#[derive(Clone, Copy, Debug, PartialEq, Eq, Structural)]
pub struct MarketSnapshot {
    pub spot_price: Binary64,
    pub risk_free_rate: Binary64,
}

/// The number of seconds in a year of 365.25 days, by which a time to expiry
/// in seconds is divided to give years.
pub const SECONDS_PER_YEAR: u64 = 31_557_600;

/// The name "call".
pub open spec fn call_name() -> Seq<char> {
    seq!['c', 'a', 'l', 'l']
}

/// The name "put".
pub open spec fn put_name() -> Seq<char> {
    seq!['p', 'u', 't']
}

impl OptionKind {
    /// The kind that `name` names, if it names one.
    pub open spec fn named(name: Seq<char>) -> Option<OptionKind> {
        if name == call_name() {
            Some(OptionKind::Call)
        } else if name == put_name() {
            Some(OptionKind::Put)
        } else {
            None
        }
    }

    /// The option pays at the price `price`: a call where the price is above
    /// the strike, a put where it is below. The payoff is then their
    /// distance, and zero otherwise.
    pub open spec fn in_the_money(self, price: Binary64, strike: Binary64) -> bool {
        match self {
            OptionKind::Call => strike.below(price),
            OptionKind::Put => price.below(strike),
        }
    }

    /// The kind named "call" or "put"; no other name is one.
    pub fn from_name(name: &str) -> (r: Option<OptionKind>)
        ensures
            r == OptionKind::named(name@),
    {
        let length: usize = name.unicode_len();
        if length == 4 {
            if name.get_char(0) == 'c' && name.get_char(1) == 'a' && name.get_char(2) == 'l'
                && name.get_char(3) == 'l' {
                assert(name@ =~= call_name());
                Some(OptionKind::Call)
            } else {
                None
            }
        } else if length == 3 {
            if name.get_char(0) == 'p' && name.get_char(1) == 'u' && name.get_char(2) == 't' {
                assert(name@ =~= put_name());
                Some(OptionKind::Put)
            } else {
                None
            }
        } else {
            None
        }
    }

    /// Whether the option pays at the price `price`.
    pub fn exercised(self, price: Binary64, strike: Binary64) -> (r: bool)
        ensures
            r == self.in_the_money(price, strike),
    {
        match self {
            OptionKind::Call => strike.lt(price),
            OptionKind::Put => price.lt(strike),
        }
    }
}

impl PricingRequest {
    /// The request can be priced: the spot, the strike, the time to maturity
    /// and the volatility are all above zero. The formulas divide by the
    /// volatility times the root of the time, and take the logarithm of spot
    /// over strike.
    pub open spec fn priceable(self) -> bool {
        &&& self.spot.positive()
        &&& self.strike.positive()
        &&& self.time_to_maturity.positive()
        &&& self.volatility.positive()
    }

    /// Accepts the requests that can be priced and rejects every other. A
    /// value that is zero, below zero or no number is never replaced by
    /// another.
    pub fn validate(&self) -> (r: Result<(), PricingError>)
        ensures
            r is Ok <==> self.priceable(),
            r is Err ==> r matches Err(PricingError::InvalidPricingInput),
    {
        if self.spot.is_positive() && self.strike.is_positive()
            && self.time_to_maturity.is_positive() && self.volatility.is_positive() {
            Ok(())
        } else {
            Err(PricingError::InvalidPricingInput)
        }
    }
}

impl MarketSnapshot {
    /// The request to value, in this market, an option of the given strike,
    /// time to maturity, volatility and kind.
    pub fn request(
        &self,
        strike: Binary64,
        time_to_maturity: Binary64,
        volatility: Binary64,
        kind: OptionKind,
    ) -> (r: PricingRequest)
        ensures
            r == (PricingRequest {
                spot: self.spot_price,
                strike,
                time_to_maturity,
                rate: self.risk_free_rate,
                volatility,
                kind,
            }),
    {
        PricingRequest {
            spot: self.spot_price,
            strike,
            time_to_maturity,
            rate: self.risk_free_rate,
            volatility,
            kind,
        }
    }
}

/// The seconds left from `now` until `expiry`, both in seconds since the Unix
/// epoch; zero once the expiry has passed.
pub fn seconds_to_expiry(expiry: u64, now: u64) -> (r: u64)
    ensures
        expiry > now ==> r == expiry - now,
        expiry <= now ==> r == 0,
{
    if expiry > now {
        expiry - now
    } else {
        0
    }
}

} // verus!
