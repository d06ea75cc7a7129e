//! The fit of the reciprocal model `iv(x) = a + b / (normalize(x) + c)`.
//!
//! A fit runs in three steps. [`prepare`] rejects the observation sets that
//! cannot be fitted and puts the others in reading order. The caller then
//! solves one least-squares problem for each shape `c` of the grid and reports
//! each as a [`Solve`]. [`conclude`] picks the solve of least residual and
//! builds the [`FittedCurve`].
//!
//! A fit that fails gives an error and no curve: no default and no average of
//! the observations stands in for the curve that could not be fitted.

use vstd::prelude::*;
use crate::binary64::Binary64;
use crate::binary64::INFINITY_BITS;
use crate::observation::Observation;
use crate::observation::has_single_expiry;
use crate::observation_laws::lemma_stable_sort_unique;
use crate::observation::single_expiry;
use crate::observation::sort_by_expiry;
use crate::observation::stably_sorted;

verus! {

/// Why a fit produced no curve.
#[derive(Clone, Copy, Debug, PartialEq, Eq, Structural)]
pub enum FitError {
    /// Fewer than [`MINIMUM_OBSERVATIONS`] observations were given.
    InsufficientData,
    /// The observations do not determine a curve: they share one expiry, the
    /// spread of the expiries is not above zero, or no shape of the grid gave
    /// a solution.
    DegenerateFit,
}

/// The least number of observations that can be fitted: two parameters and a
/// degree of freedom to judge them by.
pub const MINIMUM_OBSERVATIONS: usize = 3;

/// The number of shapes in the grid: `c` runs from 0.01 to 9.99 in steps of
/// 0.01. The shape at index `i` is `(i + 1) / 100`.
pub const SHAPE_CANDIDATES: usize = 999;

/// What the least-squares solve for one shape gave.
#[derive(Clone, Copy, Debug, PartialEq, Eq, Structural)]
pub enum Solve {
    /// The normal equations were singular: this shape has no solution.
    Singular,
    /// The coefficients, and the sum of squared residuals they leave.
    Solved { a: Binary64, b: Binary64, residual: Binary64 },
}

/// A solved shape: the shape in hundredths, from 1 to 999, its coefficients
/// and its residual.
#[derive(Clone, Copy, Debug, PartialEq, Eq, Structural)]
pub struct Candidate {
    pub c_hundredths: u16,
    pub a: Binary64,
    pub b: Binary64,
    pub residual: Binary64,
}

/// The parameters of a curve.
#[derive(Clone, Copy, Debug, PartialEq, Eq, Structural)]
pub struct Parameters {
    pub x_mean: Binary64,
    pub x_std: Binary64,
    pub a: Binary64,
    pub b: Binary64,
    pub c_hundredths: u16,
}

/// A curve that can be evaluated: the spread `x_std` is above zero and the
/// shape lies in the grid.
#[derive(Clone, Copy, Debug, PartialEq, Eq)]
pub struct FittedCurve {
    parameters: Parameters,
}

/// The observations can be fitted: there are enough of them and they span
/// more than one expiry.
pub open spec fn fittable(observations: Seq<Observation>) -> bool {
    observations.len() >= MINIMUM_OBSERVATIONS && !single_expiry(observations)
}

/// A solve can win: it has a solution whose residual is a number below
/// infinity.
pub open spec fn eligible(outcome: Solve) -> bool {
    outcome matches Solve::Solved { residual, .. } && residual.below(
        Binary64 { bits: INFINITY_BITS },
    )
}

/// The candidate that the solve at `index` of the grid stands for.
pub open spec fn candidate_at(outcomes: Seq<Solve>, index: int) -> Candidate
    recommends
        0 <= index < outcomes.len(),
        outcomes[index] is Solved,
{
    Candidate {
        c_hundredths: (index + 1) as u16,
        a: outcomes[index]->a,
        b: outcomes[index]->b,
        residual: outcomes[index]->residual,
    }
}

/// `first` is taken before `second`: its residual is smaller, or the
/// residuals are the same number and its shape is smaller.
pub open spec fn precedes(first: Candidate, second: Candidate) -> bool {
    first.residual.rank() < second.residual.rank() || (first.residual.rank()
        == second.residual.rank() && first.c_hundredths < second.c_hundredths)
}

/// The solve at `index` wins: it is eligible, no eligible solve has a smaller
/// residual, and none of the same residual has a smaller shape.
pub open spec fn wins(outcomes: Seq<Solve>, index: int) -> bool {
    &&& 0 <= index < outcomes.len()
    &&& eligible(outcomes[index])
    &&& forall|other: int|
        0 <= other < outcomes.len() && eligible(#[trigger] outcomes[other]) ==> {
            ||| outcomes[index]->residual.rank() < outcomes[other]->residual.rank()
            ||| (outcomes[index]->residual.rank() == outcomes[other]->residual.rank() && index
                <= other)
        }
}

/// Some solve of the grid is eligible.
pub open spec fn any_eligible(outcomes: Seq<Solve>) -> bool {
    exists|index: int| 0 <= index < outcomes.len() && eligible(#[trigger] outcomes[index])
}

/// The reduction of two partial results to one.
pub open spec fn preferred(first: Option<Candidate>, second: Option<Candidate>) -> Option<
    Candidate,
> {
    match (first, second) {
        (None, _) => second,
        (_, None) => first,
        (Some(x), Some(y)) => if precedes(y, x) {
            second
        } else {
            first
        },
    }
}

/// The parameters are those of a curve that can be evaluated.
pub open spec fn evaluable(parameters: Parameters) -> bool {
    parameters.x_std.positive() && 1 <= parameters.c_hundredths <= SHAPE_CANDIDATES
}

/// `parameters` are what the fit gives for these statistics and solves: the
/// spread is above zero, and the shape and the coefficients are those of the
/// solve that wins.
pub open spec fn fitted(
    x_mean: Binary64,
    x_std: Binary64,
    outcomes: Seq<Solve>,
    parameters: Parameters,
) -> bool {
    let index = parameters.c_hundredths - 1;
    &&& x_std.positive()
    &&& wins(outcomes, index)
    &&& parameters == (Parameters {
        x_mean,
        x_std,
        a: outcomes[index]->a,
        b: outcomes[index]->b,
        c_hundredths: parameters.c_hundredths,
    })
}

/// Rejects the observation sets that cannot be fitted and sorts the others by
/// expiry, ties in the order given.
///
/// Fewer than three observations are `InsufficientData`. Three or more that
/// share one expiry are `DegenerateFit`: their standard deviation is zero and
/// no expiry can be normalized.
pub fn prepare(observations: &Vec<Observation>) -> (r: Result<Vec<Observation>, FitError>)
    ensures
        observations@.len() < MINIMUM_OBSERVATIONS ==> r matches Err(FitError::InsufficientData),
        observations@.len() >= MINIMUM_OBSERVATIONS && single_expiry(observations@) ==> r matches Err(
            FitError::DegenerateFit,
        ),
        fittable(observations@) ==> (r matches Ok(sorted) && stably_sorted(sorted@, observations@)
            && sorted@.len() == observations@.len()),
{
    if observations.len() < MINIMUM_OBSERVATIONS {
        Err(FitError::InsufficientData)
    } else if has_single_expiry(observations) {
        Err(FitError::DegenerateFit)
    } else {
        Ok(sort_by_expiry(observations))
    }
}

/// Reduces two partial results of a search to one: the candidate of smaller
/// residual, and of two with the same residual the one of smaller shape. The
/// first is kept where neither is taken before the other.
pub fn prefer(first: Option<Candidate>, second: Option<Candidate>) -> (r: Option<Candidate>)
    ensures
        r == preferred(first, second),
{
    match (first, second) {
        (None, _) => second,
        (_, None) => first,
        (Some(x), Some(y)) => {
            if y.residual.ranks_below(x.residual) || (y.residual.ranks_with(x.residual)
                && y.c_hundredths < x.c_hundredths) {
                second
            } else {
                first
            }
        },
    }
}

/// The winner of the grid search: the eligible solve of least residual, and
/// of several with that residual the one of smallest shape. `DegenerateFit`
/// where no solve is eligible.
pub fn select(outcomes: &Vec<Solve>) -> (r: Result<Candidate, FitError>)
    requires
        outcomes@.len() == SHAPE_CANDIDATES,
    ensures
        r is Ok <==> any_eligible(outcomes@),
        r is Err ==> r matches Err(FitError::DegenerateFit),
        r matches Ok(best) ==> wins(outcomes@, best.c_hundredths - 1) && best == candidate_at(
            outcomes@,
            best.c_hundredths - 1,
        ),
{
    let mut best: Option<Candidate> = None;
    let mut index: usize = 0;
    while index < outcomes.len()
        invariant
            index <= outcomes@.len() == SHAPE_CANDIDATES,
            best is Some <==> any_eligible(outcomes@.take(index as int)),
            best matches Some(c) ==> wins(outcomes@.take(index as int), c.c_hundredths - 1) && c
                == candidate_at(outcomes@, c.c_hundredths - 1),
        decreases outcomes@.len() - index,
    {
        let offered: Option<Candidate> = match outcomes[index] {
            Solve::Singular => None,
            Solve::Solved { a, b, residual } => {
                if residual.lt(Binary64::from_bits(INFINITY_BITS)) {
                    Some(Candidate { c_hundredths: (index + 1) as u16, a, b, residual })
                } else {
                    None
                }
            },
        };
        let merged: Option<Candidate> = prefer(best, offered);
        proof {
            let seen = outcomes@.take(index as int);
            let next = outcomes@.take(index + 1);
            assert forall|other: int| 0 <= other < index implies next[other] == seen[other] by {}
            if any_eligible(seen) {
                let w = choose|w: int| 0 <= w < seen.len() && eligible(#[trigger] seen[w]);
                assert(eligible(next[w]));
            }
            if any_eligible(next) {
                let w = choose|w: int| 0 <= w < next.len() && eligible(#[trigger] next[w]);
                assert(w < index ==> eligible(seen[w]));
            }
        }
        best = merged;
        index = index + 1;
    }
    assert(outcomes@.take(index as int) =~= outcomes@);
    match best {
        Some(c) => Ok(c),
        None => Err(FitError::DegenerateFit),
    }
}

impl FittedCurve {
    #[verifier::type_invariant]
    spec fn well_formed(self) -> bool {
        evaluable(self.parameters)
    }

    /// The parameters of the curve.
    pub closed spec fn view(self) -> Parameters {
        self.parameters
    }

    /// The curve with the given parameters, where they can be evaluated.
    pub fn new(parameters: Parameters) -> (r: Option<FittedCurve>)
        ensures
            r is Some <==> evaluable(parameters),
            r matches Some(curve) ==> curve@ == parameters,
    {
        if parameters.x_std.is_positive() && 1 <= parameters.c_hundredths
            && parameters.c_hundredths as usize <= SHAPE_CANDIDATES {
            Some(FittedCurve { parameters })
        } else {
            None
        }
    }

    /// The parameters of the curve. They can be evaluated: dividing by
    /// `x_std` divides by a number above zero.
    pub fn parameters(&self) -> (r: Parameters)
        ensures
            r == self@,
            evaluable(r),
    {
        proof {
            use_type_invariant(self);
        }
        self.parameters
    }

    /// The volatility that the curve reads where the model gives `raw`: the
    /// value of `a + b / (normalize(x) + c)` itself where it is above zero,
    /// and zero otherwise. The fit leaves the model free to go below zero
    /// away from the observations; only a reading clamps it.
    pub fn volatility(&self, raw: Binary64) -> (r: Binary64)
        ensures
            r.non_negative(),
            raw.positive() ==> r == raw,
            !raw.positive() ==> r.bits == 0,
    {
        raw.floor_at_zero()
    }
}

/// Builds the curve from the statistics of the expiries and the solves of the
/// grid: the coefficients and the shape are those of the winner.
///
/// `DegenerateFit` where `x_std` is not above zero or where no solve is
/// eligible.
pub fn conclude(x_mean: Binary64, x_std: Binary64, outcomes: &Vec<Solve>) -> (r: Result<
    FittedCurve,
    FitError,
>)
    requires
        outcomes@.len() == SHAPE_CANDIDATES,
    ensures
        r is Ok <==> x_std.positive() && any_eligible(outcomes@),
        r is Err ==> r matches Err(FitError::DegenerateFit),
        r matches Ok(curve) ==> fitted(x_mean, x_std, outcomes@, curve@),
{
    if !x_std.is_positive() {
        return Err(FitError::DegenerateFit);
    }
    match select(outcomes) {
        Err(e) => Err(e),
        Ok(best) => {
            let parameters = Parameters {
                x_mean,
                x_std,
                a: best.a,
                b: best.b,
                c_hundredths: best.c_hundredths,
            };
            Ok(FittedCurve { parameters })
        },
    }
}

/// A grid has at most one winner: two searches over the same solves end on
/// the same shape and so on the same coefficients.
pub proof fn lemma_winner_unique(outcomes: Seq<Solve>, first: int, second: int)
    requires
        wins(outcomes, first),
        wins(outcomes, second),
    ensures
        first == second,
        candidate_at(outcomes, first) == candidate_at(outcomes, second),
{
}

/// A fit is reproducible: the observations have one reading order, and the
/// statistics and solves computed from it give one curve.
pub proof fn lemma_fit_reproducible(
    given: Seq<Observation>,
    first_order: Seq<Observation>,
    second_order: Seq<Observation>,
    x_mean: Binary64,
    x_std: Binary64,
    outcomes: Seq<Solve>,
    first_curve: Parameters,
    second_curve: Parameters,
)
    requires
        stably_sorted(first_order, given),
        stably_sorted(second_order, given),
        fitted(x_mean, x_std, outcomes, first_curve),
        fitted(x_mean, x_std, outcomes, second_curve),
    ensures
        first_order == second_order,
        first_curve == second_curve,
{
    lemma_stable_sort_unique(first_order, second_order, given);
    lemma_winner_unique(outcomes, first_curve.c_hundredths - 1, second_curve.c_hundredths - 1);
}

/// Reducing is associative: partial results can be merged in any grouping.
pub proof fn lemma_prefer_associative(
    first: Option<Candidate>,
    second: Option<Candidate>,
    third: Option<Candidate>,
)
    ensures
        preferred(preferred(first, second), third) == preferred(first, preferred(second, third)),
{
}

/// Reducing is commutative on candidates of different shapes, as those of one
/// grid are: partial results can be merged in any order.
pub proof fn lemma_prefer_commutative(first: Option<Candidate>, second: Option<Candidate>)
    requires
        first matches Some(x) ==> (second matches Some(y) ==> x.c_hundredths != y.c_hundredths),
    ensures
        preferred(first, second) == preferred(second, first),
{
}

/// Reducing never invents a candidate, and no operand is taken before the
/// result.
pub proof fn lemma_prefer_least(first: Option<Candidate>, second: Option<Candidate>)
    ensures
        preferred(first, second) == first || preferred(first, second) == second,
        preferred(first, second) is None <==> first is None && second is None,
        preferred(first, second) matches Some(best) ==> {
            &&& first matches Some(x) ==> !precedes(x, best)
            &&& second matches Some(y) ==> !precedes(y, best)
        },
{
}

} // verus!
