//! The plan of a Monte Carlo valuation.
//!
//! A valuation draws one terminal price for each sample and averages the
//! payoffs. For a chart it may also walk a few whole paths step by step.
//! The two are separate: the paths take no draw from the samples, and the
//! number of samples that are averaged does not depend on the paths.

use vstd::prelude::*;
use crate::pricing::PricingError;
use crate::pricing::PricingRequest;

verus! {

/// The most paths that are walked for a chart.
pub const DIAGNOSTIC_PATHS: usize = 50;

/// The number of steps of each path; a path holds one price more, its start.
pub const PATH_STEPS: usize = 100;

/// What a valuation simulates.
#[derive(Clone, Copy, Debug, PartialEq, Eq, Structural)]
pub struct SimulationPlan {
    /// The number of terminal prices that are drawn and averaged.
    pub sample_count: usize,
    /// The number of paths walked for the chart.
    pub path_count: usize,
    /// The number of steps of each path.
    pub path_steps: usize,
}

impl SimulationPlan {
    /// The plan for `sample_count` samples.
    pub open spec fn of(sample_count: usize) -> SimulationPlan {
        SimulationPlan {
            sample_count,
            path_count: if sample_count < DIAGNOSTIC_PATHS {
                sample_count
            } else {
                DIAGNOSTIC_PATHS
            },
            path_steps: PATH_STEPS,
        }
    }
}

/// Plans the valuation of `request` with `sample_count` samples: as many
/// paths as samples, up to [`DIAGNOSTIC_PATHS`], of [`PATH_STEPS`] steps each.
///
/// A request that the closed form would reject is rejected here.
pub fn plan(request: &PricingRequest, sample_count: usize) -> (r: Result<
    SimulationPlan,
    PricingError,
>)
    requires
        sample_count > 0,
    ensures
        r is Ok <==> request.priceable(),
        r is Err ==> r matches Err(PricingError::InvalidPricingInput),
        r matches Ok(p) ==> p == SimulationPlan::of(sample_count),
{
    match request.validate() {
        Err(e) => Err(e),
        Ok(_) => {
            let path_count: usize = if sample_count < DIAGNOSTIC_PATHS {
                sample_count
            } else {
                DIAGNOSTIC_PATHS
            };
            Ok(SimulationPlan { sample_count, path_count, path_steps: PATH_STEPS })
        },
    }
}

} // verus!
