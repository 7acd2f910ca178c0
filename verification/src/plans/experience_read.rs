//! Reading the allocation-relevant facts out of an account's retail
//! experience: how much past failures weigh, whether the held stock is stuck,
//! and how far equity has fallen from its peak.
use vstd::prelude::*;

use super::allocation::{div_round_half_even, AllocationExperience};
use super::candidates::clamp;
use crate::ids::{Money, StockCode};
use crate::rounding::{lemma_round_half_even_within, round_half_even};

verus! {

/// A read of the experience state that the state refused, with its reason.
#[derive(Debug, PartialEq, Eq)]
pub struct ExperienceError {
    pub reason: String,
}

impl Clone for ExperienceError {
    fn clone(&self) -> (r: Self)
        ensures
            r == *self,
    {
        ExperienceError { reason: self.reason.clone() }
    }
}

/// The position an account holds in the stock being budgeted, with the
/// experience state's answer to whether that position is stuck.
#[derive(Debug)]
pub struct ExperienceHolding {
    pub code: StockCode,
    pub cost: Money,
    pub long_stuck: Result<bool, ExperienceError>,
}

/// What the experience state answered as of the budgeting moment.
#[derive(Debug)]
pub struct ExperienceReadRequest {
    pub failure_influence: Result<u16, ExperienceError>,
    pub equity: Money,
    pub holding: Option<ExperienceHolding>,
    /// Whether the state observed a drawdown of `equity` from its peak.
    pub drawdown_observed: bool,
    pub peak_equity: Option<Money>,
}

/// The decline from `peak` to `equity` in basis points of `peak`, rounded half
/// to even and kept within `0..=10000`.
pub open spec fn spec_drawdown_bp(peak: int, equity: int) -> int {
    clamp(round_half_even((peak - equity) * 10_000, peak), 0, 10_000)
}

/// The request's inputs to the drawdown are usable: a peak that the state
/// reports alongside an observed drawdown is positive.
pub open spec fn read_request_ok(request: ExperienceReadRequest) -> bool {
    request.drawdown_observed && request.peak_equity is Some ==> request.peak_equity->Some_0.cents > 0
}

/// What `read_allocation_experience` returns.
pub open spec fn spec_read_allocation_experience(request: ExperienceReadRequest) -> Result<
    AllocationExperience,
    ExperienceError,
> {
    match request.failure_influence {
        Err(e) => Err(e),
        Ok(influence) => {
            let stuck: Result<bool, ExperienceError> = match request.holding {
                None => Ok(false),
                Some(h) => h.long_stuck,
            };
            match stuck {
                Err(e) => Err(e),
                Ok(long_stuck) => Ok(
                    AllocationExperience {
                        failure_influence: influence,
                        long_stuck,
                        drawdown_bp: if request.drawdown_observed && request.peak_equity is Some {
                            Some(
                                spec_drawdown_bp(
                                    request.peak_equity->Some_0.cents as int,
                                    request.equity.cents as int,
                                ) as u32,
                            )
                        } else {
                            None
                        },
                    },
                ),
            }
        },
    }
}

fn drawdown_bp(peak: Money, equity: Money) -> (r: u32)
    requires
        peak.cents > 0,
    ensures
        r == spec_drawdown_bp(peak.cents as int, equity.cents as int),
{
    let p = peak.cents() as i128;
    let decline = p - equity.cents() as i128;
    proof {
        assert(-0x1_0000_0000_0000_0000_0000_0000 <= decline * 10_000 <= 0x1_0000_0000_0000_0000_0000_0000)
            by (nonlinear_arith)
            requires
                -0x1_0000_0000_0000_0000 <= decline <= 0x1_0000_0000_0000_0000,
        ;
    }
    let rounded = div_round_half_even(decline * 10_000, p);
    let clamped = if rounded < 0 {
        0
    } else if rounded > 10_000 {
        10_000
    } else {
        rounded
    };
    clamped as u32
}

pub fn read_allocation_experience(request: &ExperienceReadRequest) -> (r: Result<AllocationExperience, ExperienceError>)
    requires
        read_request_ok(*request),
    ensures
        r == spec_read_allocation_experience(*request),
{
    let failure_influence = match &request.failure_influence {
        Ok(v) => *v,
        Err(e) => {
            return Err(e.clone());
        },
    };
    let long_stuck = match &request.holding {
        None => false,
        Some(holding) => match &holding.long_stuck {
            Ok(b) => *b,
            Err(e) => {
                return Err(e.clone());
            },
        },
    };
    let drawdown = if request.drawdown_observed {
        match request.peak_equity {
            Some(peak) => Some(drawdown_bp(peak, request.equity)),
            None => None,
        }
    } else {
        None
    };
    Ok(AllocationExperience { failure_influence, long_stuck, drawdown_bp: drawdown })
}

} // verus!
