//! Soft budgeting of one account's authoritative cash across its plans.
use vstd::prelude::*;

use crate::ids::{Money, PlanId, Side, StockCode};
use crate::rounding::{
    half_even_ok, lemma_half_even_from_parts, lemma_half_even_neg, lemma_round_half_even_is,
    round_half_even, tdiv,
};

verus! {

#[derive(Clone, Copy, Debug, PartialEq, Eq, Structural)]
pub struct AllocationPolicy {
    pub version: u16,
    pub normal_cash_reserve_bp: u32,
    pub stressed_cash_reserve_bp: u32,
    pub risk_drawdown_threshold_bp: u32,
}

#[derive(Clone, Copy, Debug, PartialEq, Eq, Structural)]
pub struct AllocationFunds {
    pub cash: Money,
    pub frozen_cash: Money,
    pub equity: Money,
}

#[derive(Clone, Copy, Debug, Default, PartialEq, Eq, Structural)]
pub struct AllocationExperience {
    pub failure_influence: u16,
    pub long_stuck: bool,
    pub drawdown_bp: Option<u32>,
}

#[derive(Clone, Copy, Debug, PartialEq, Eq, Structural)]
pub enum AllocationClass {
    RiskReduction,
    ExistingPlan,
    NewOpportunity,
}

#[derive(Debug, PartialEq, Eq)]
pub struct AllocationRequest {
    pub plan_id: PlanId,
    pub code: StockCode,
    pub side: Side,
    pub class: AllocationClass,
    pub confidence_bp: u32,
    /// Unsubmitted buy gross only.
    pub requested_cash: Money,
    /// Incremental fees of this unsubmitted portion, minimum commission included.
    pub fee_reserve: Money,
    pub requested_sell_qty: u32,
    pub sellable_qty: u32,
    pub experience: AllocationExperience,
}

#[derive(Clone, Copy, Debug, PartialEq, Eq, Structural)]
pub enum AllocationConstraint {
    CashReserve,
    InsufficientAvailableCash,
    InventoryUnavailable,
}

#[derive(Debug, PartialEq, Eq)]
pub struct AllocationGrant {
    pub plan_id: PlanId,
    pub code: StockCode,
    pub allocated_cash: Money,
    pub constraint: Option<AllocationConstraint>,
}

#[derive(Debug, PartialEq, Eq)]
pub struct AllocationResult {
    pub grants: Vec<AllocationGrant>,
    pub available_cash: Money,
    pub cash_reserve: Money,
    pub total_allocated: Money,
}

#[derive(Clone, Debug, PartialEq, Eq)]
pub enum AllocationError {
    UnsupportedPolicyVersion { version: u16 },
    InvalidPolicy,
    NegativeMoney { field: &'static str, cents: i64 },
    FrozenCashExceedsCash { cash_cents: i64, frozen_cents: i64 },
    InvalidConfidence { plan_id: PlanId, confidence_bp: u32 },
    DuplicatePlanRequest { plan_id: PlanId },
    InvalidRequestShape { plan_id: PlanId, side: Side },
    FeeReserveExceedsAvailableCash { plan_id: PlanId, fee_cents: i64, available_cents: i64 },
    ArithmeticOverflow { step: &'static str },
}

pub open spec fn spec_alloc_policy_error(p: AllocationPolicy) -> Option<AllocationError> {
    if p.version != 1 {
        Some(AllocationError::UnsupportedPolicyVersion { version: p.version })
    } else if p.normal_cash_reserve_bp > 10_000 || p.stressed_cash_reserve_bp > 10_000
        || p.stressed_cash_reserve_bp < p.normal_cash_reserve_bp || p.risk_drawdown_threshold_bp > 10_000 {
        Some(AllocationError::InvalidPolicy)
    } else {
        None
    }
}

impl AllocationPolicy {
    pub fn new(
        version: u16,
        normal_cash_reserve_bp: u32,
        stressed_cash_reserve_bp: u32,
        risk_drawdown_threshold_bp: u32,
    ) -> (r: Result<Self, AllocationError>)
        ensures
            ({
                let p = AllocationPolicy {
                    version,
                    normal_cash_reserve_bp,
                    stressed_cash_reserve_bp,
                    risk_drawdown_threshold_bp,
                };
                r == (match spec_alloc_policy_error(p) {
                    Some(e) => Err(e),
                    None => Ok(p),
                })
            }),
    {
        let policy = AllocationPolicy {
            version,
            normal_cash_reserve_bp,
            stressed_cash_reserve_bp,
            risk_drawdown_threshold_bp,
        };
        policy.validate()?;
        Ok(policy)
    }

    /// The default policy: version 1, 10% normal and 30% stressed reserve, 20% drawdown.
    pub fn default_policy() -> (p: AllocationPolicy)
        ensures
            p == (AllocationPolicy {
                version: 1,
                normal_cash_reserve_bp: 1_000,
                stressed_cash_reserve_bp: 3_000,
                risk_drawdown_threshold_bp: 2_000,
            }),
            spec_alloc_policy_error(p) is None,
    {
        AllocationPolicy {
            version: 1,
            normal_cash_reserve_bp: 1_000,
            stressed_cash_reserve_bp: 3_000,
            risk_drawdown_threshold_bp: 2_000,
        }
    }

    pub fn validate(self) -> (r: Result<(), AllocationError>)
        ensures
            r == (match spec_alloc_policy_error(self) {
                Some(e) => Err(e),
                None => Ok(()),
            }),
    {
        if self.version != 1 {
            return Err(AllocationError::UnsupportedPolicyVersion { version: self.version });
        }
        if self.normal_cash_reserve_bp > 10_000 || self.stressed_cash_reserve_bp > 10_000
            || self.stressed_cash_reserve_bp < self.normal_cash_reserve_bp
            || self.risk_drawdown_threshold_bp > 10_000 {
            return Err(AllocationError::InvalidPolicy);
        }
        Ok(())
    }
}

/// Magnitude bound under which the rounding helpers are free of overflow.
pub open spec fn small_ratio(n: int, d: int) -> bool {
    -0x1_0000_0000_0000_0000_0000_0000_0000 <= n <= 0x1_0000_0000_0000_0000_0000_0000_0000 && 0 < d
        <= 0x1_0000_0000_0000_0000_0000_0000_0000
}

/// Rounds `numerator / denominator` half to even, from the truncating quotient and remainder.
pub fn div_round_half_even(numerator: i128, denominator: i128) -> (r: i128)
    requires
        small_ratio(numerator as int, denominator as int),
    ensures
        r == round_half_even(numerator as int, denominator as int),
{
    let quotient = numerator / denominator;
    let remainder = numerator % denominator;
    let abs_rem = if remainder < 0 {
        -remainder
    } else {
        remainder
    };
    let sign: i128 = if numerator > 0 {
        1
    } else if numerator < 0 {
        -1
    } else {
        0
    };
    proof {
        let n = numerator as int;
        let d = denominator as int;
        assert(quotient == tdiv(n, d));
        let m = if n >= 0 { n } else { -n };
        lemma_half_even_from_parts(m, d);
        vstd::arithmetic::div_mod::lemma_fundamental_div_mod(m, d);
        assert(abs_rem == m % d);
        assert(0 <= m / d <= m) by {
            vstd::arithmetic::div_mod::lemma_div_pos_is_pos(m, d);
            vstd::arithmetic::div_mod::lemma_div_is_ordered_by_denominator(m, 1, d);
        }
    }
    let result = if abs_rem * 2 < denominator {
        quotient
    } else if abs_rem * 2 > denominator {
        quotient + sign
    } else if quotient % 2 != 0 {
        quotient + sign
    } else {
        quotient
    };
    proof {
        let n = numerator as int;
        let d = denominator as int;
        let m = if n >= 0 { n } else { -n };
        let q = m / d;
        let rem = m % d;
        let rm = if 2 * rem < d {
            q
        } else if 2 * rem > d {
            q + 1
        } else if q % 2 != 0 {
            q + 1
        } else {
            q
        };
        if n >= 0 {
            if n == 0 {
                assert(q == 0) by {
                    assert(m == 0);
                }
            }
            assert(result == rm);
            lemma_round_half_even_is(n, d, rm);
        } else {
            assert(quotient == -q);
            assert((-q) % 2 != 0 <==> q % 2 != 0);
            assert(result == -rm);
            lemma_half_even_neg(m, d, rm);
            assert(-m == n);
            lemma_round_half_even_is(n, d, -rm);
        }
    }
    result
}

pub open spec fn spec_funds_error(f: AllocationFunds) -> Option<AllocationError> {
    if f.cash.cents < 0 {
        Some(AllocationError::NegativeMoney { field: "cash", cents: f.cash.cents })
    } else if f.frozen_cash.cents < 0 {
        Some(AllocationError::NegativeMoney { field: "frozen cash", cents: f.frozen_cash.cents })
    } else if f.equity.cents < 0 {
        Some(AllocationError::NegativeMoney { field: "equity", cents: f.equity.cents })
    } else if f.frozen_cash.cents > f.cash.cents {
        Some(AllocationError::FrozenCashExceedsCash { cash_cents: f.cash.cents, frozen_cents: f.frozen_cash.cents })
    } else {
        None
    }
}

pub fn validate_funds(funds: &AllocationFunds) -> (r: Result<(), AllocationError>)
    ensures
        r == (match spec_funds_error(*funds) {
            Some(e) => Err(e),
            None => Ok(()),
        }),
{
    if funds.cash.cents() < 0 {
        return Err(AllocationError::NegativeMoney { field: "cash", cents: funds.cash.cents() });
    }
    if funds.frozen_cash.cents() < 0 {
        return Err(AllocationError::NegativeMoney { field: "frozen cash", cents: funds.frozen_cash.cents() });
    }
    if funds.equity.cents() < 0 {
        return Err(AllocationError::NegativeMoney { field: "equity", cents: funds.equity.cents() });
    }
    if funds.frozen_cash.cents() > funds.cash.cents() {
        return Err(
            AllocationError::FrozenCashExceedsCash {
                cash_cents: funds.cash.cents(),
                frozen_cents: funds.frozen_cash.cents(),
            },
        );
    }
    Ok(())
}

/// A buy requests positive cash and no shares; a sell requests shares and no cash.
pub open spec fn spec_request_error(r: AllocationRequest) -> Option<AllocationError> {
    if r.confidence_bp > 10_000 {
        Some(AllocationError::InvalidConfidence { plan_id: r.plan_id, confidence_bp: r.confidence_bp })
    } else if r.requested_cash.cents < 0 {
        Some(AllocationError::NegativeMoney { field: "requested cash", cents: r.requested_cash.cents })
    } else if r.fee_reserve.cents < 0 {
        Some(AllocationError::NegativeMoney { field: "fee reserve", cents: r.fee_reserve.cents })
    } else if !(match r.side {
        Side::Buy => r.requested_cash.cents > 0 && r.requested_sell_qty == 0 && r.sellable_qty == 0,
        Side::Sell => r.requested_cash.cents == 0 && r.requested_sell_qty > 0,
    }) {
        Some(AllocationError::InvalidRequestShape { plan_id: r.plan_id, side: r.side })
    } else {
        None
    }
}

pub fn validate_request(request: &AllocationRequest) -> (r: Result<(), AllocationError>)
    ensures
        r == (match spec_request_error(*request) {
            Some(e) => Err(e),
            None => Ok(()),
        }),
{
    if request.confidence_bp > 10_000 {
        return Err(
            AllocationError::InvalidConfidence {
                plan_id: request.plan_id,
                confidence_bp: request.confidence_bp,
            },
        );
    }
    if request.requested_cash.cents() < 0 {
        return Err(
            AllocationError::NegativeMoney { field: "requested cash", cents: request.requested_cash.cents() },
        );
    }
    if request.fee_reserve.cents() < 0 {
        return Err(AllocationError::NegativeMoney { field: "fee reserve", cents: request.fee_reserve.cents() });
    }
    let valid = match request.side {
        Side::Buy => request.requested_cash.cents() > 0 && request.requested_sell_qty == 0
            && request.sellable_qty == 0,
        Side::Sell => request.requested_cash.cents() == 0 && request.requested_sell_qty > 0,
    };
    if !valid {
        return Err(AllocationError::InvalidRequestShape { plan_id: request.plan_id, side: request.side });
    }
    Ok(())
}

/// Risk reduction (or a sell out of a long-stuck position) first, then
/// existing plans, then new opportunities.
pub open spec fn spec_priority(r: AllocationRequest) -> int {
    if r.class == AllocationClass::RiskReduction || (r.side == Side::Sell && r.experience.long_stuck) {
        0
    } else {
        match r.class {
            AllocationClass::RiskReduction => 0,
            AllocationClass::ExistingPlan => 1,
            AllocationClass::NewOpportunity => 2,
        }
    }
}

pub fn priority(request: &AllocationRequest) -> (p: u8)
    ensures
        p == spec_priority(*request),
{
    if request.class == AllocationClass::RiskReduction || (request.side == Side::Sell
        && request.experience.long_stuck) {
        0
    } else {
        match request.class {
            AllocationClass::RiskReduction => 0,
            AllocationClass::ExistingPlan => 1,
            AllocationClass::NewOpportunity => 2,
        }
    }
}

/// Confidence lowered by 1000 bp per unit of failure influence, floored at zero.
pub open spec fn spec_effective_confidence(r: AllocationRequest) -> int {
    let penalty = r.experience.failure_influence * 1000;
    if r.confidence_bp >= penalty {
        r.confidence_bp - penalty
    } else {
        0
    }
}

pub fn effective_confidence(request: &AllocationRequest) -> (c: u32)
    ensures
        c == spec_effective_confidence(*request),
{
    request.confidence_bp.saturating_sub(request.experience.failure_influence as u32 * 1_000)
}

/// Serving order: priority, then higher effective confidence, then plan id.
pub open spec fn serves_before(a: AllocationRequest, b: AllocationRequest) -> bool {
    spec_priority(a) < spec_priority(b) || (spec_priority(a) == spec_priority(b) && (
    spec_effective_confidence(a) > spec_effective_confidence(b) || (spec_effective_confidence(a)
        == spec_effective_confidence(b) && a.plan_id.0 < b.plan_id.0)))
}

fn serves_before_exec(a: &AllocationRequest, b: &AllocationRequest) -> (r: bool)
    ensures
        r == serves_before(*a, *b),
{
    let pa = priority(a);
    let pb = priority(b);
    let ca = effective_confidence(a);
    let cb = effective_confidence(b);
    pa < pb || (pa == pb && (ca > cb || (ca == cb && a.plan_id.0 < b.plan_id.0)))
}

/// The amount granted to one request with `remaining` cash left and a cash
/// reserve, and the binding constraint when the grant falls short.
pub open spec fn spec_grant(r: AllocationRequest, remaining: int, reserve: int) -> (int, Option<AllocationConstraint>) {
    match r.side {
        Side::Sell => if r.requested_sell_qty > r.sellable_qty {
            (0, Some(AllocationConstraint::InventoryUnavailable))
        } else {
            let fee = if r.fee_reserve.cents <= remaining {
                r.fee_reserve.cents as int
            } else {
                remaining
            };
            (fee, if fee < r.fee_reserve.cents {
                Some(AllocationConstraint::InsufficientAvailableCash)
            } else {
                None
            })
        },
        Side::Buy => {
            let deployable = if remaining - reserve > 0 {
                remaining - reserve
            } else {
                0
            };
            let requested = r.requested_cash.cents + r.fee_reserve.cents;
            let candidate = if requested <= deployable {
                requested
            } else {
                deployable
            };
            let allocated = if candidate > r.fee_reserve.cents {
                candidate
            } else {
                0
            };
            (allocated, if allocated == requested {
                None
            } else if remaining <= reserve {
                Some(AllocationConstraint::CashReserve)
            } else {
                Some(AllocationConstraint::InsufficientAvailableCash)
            })
        },
    }
}

/// Cash left after serving the first `k` requests of `ordered`.
pub open spec fn remaining_after(ordered: Seq<AllocationRequest>, available: int, reserve: int, k: int) -> int
    decreases k,
{
    if k <= 0 {
        available
    } else {
        let before = remaining_after(ordered, available, reserve, k - 1);
        before - spec_grant(ordered[k - 1], before, reserve).0
    }
}

/// The first invalid request, checked in request order: duplicates, fields,
/// then a fee reserve beyond the available cash.
pub open spec fn spec_request_list_error(requests: Seq<AllocationRequest>, available: int, k: int) -> Option<
    AllocationError,
>
    decreases requests.len() - k,
{
    if k < 0 || k >= requests.len() {
        None
    } else if exists|j: int| 0 <= j < k && (#[trigger] requests[j]).plan_id == requests[k].plan_id {
        Some(AllocationError::DuplicatePlanRequest { plan_id: requests[k].plan_id })
    } else if spec_request_error(requests[k]) is Some {
        spec_request_error(requests[k])
    } else if requests[k].fee_reserve.cents > available {
        Some(
            AllocationError::FeeReserveExceedsAvailableCash {
                plan_id: requests[k].plan_id,
                fee_cents: requests[k].fee_reserve.cents,
                available_cents: available as i64,
            },
        )
    } else {
        spec_request_list_error(requests, available, k + 1)
    }
}

/// Some request reports a drawdown at or beyond the risk threshold.
pub open spec fn spec_stressed(requests: Seq<AllocationRequest>, policy: AllocationPolicy) -> bool {
    exists|j: int|
        0 <= j < requests.len() && ((#[trigger] requests[j]).experience.drawdown_bp matches Some(d) && d
            >= policy.risk_drawdown_threshold_bp)
}

/// The cash reserve: the reserve ratio of equity, rounded half to even and
/// clamped to the available cash.
pub open spec fn spec_reserve(funds: AllocationFunds, requests: Seq<AllocationRequest>, policy: AllocationPolicy) -> int {
    let bp = if spec_stressed(requests, policy) {
        policy.stressed_cash_reserve_bp
    } else {
        policy.normal_cash_reserve_bp
    };
    let raw = round_half_even(funds.equity.cents * bp, 10_000);
    let available = funds.cash.cents - funds.frozen_cash.cents;
    if raw < 0 {
        0
    } else if raw > available {
        available
    } else {
        raw
    }
}

/// `order` lists every request position exactly once, in serving order.
pub open spec fn serving_order(requests: Seq<AllocationRequest>, order: Seq<int>) -> bool {
    &&& order.len() == requests.len()
    &&& forall|k: int| 0 <= k < order.len() ==> 0 <= #[trigger] order[k] < requests.len()
    &&& forall|a: int, b: int|
        0 <= a < b < order.len() ==> serves_before(requests[#[trigger] order[a]], requests[#[trigger] order[b]])
}

/// Requests served in `order`.
pub open spec fn ordered_requests(requests: Seq<AllocationRequest>, order: Seq<int>) -> Seq<AllocationRequest> {
    order.map_values(|i: int| requests[i])
}

/// Buy request totals fit the cents counter.
pub open spec fn totals_fit(requests: Seq<AllocationRequest>) -> bool {
    forall|j: int|
        0 <= j < requests.len() && (#[trigger] requests[j]).side == Side::Buy ==> requests[j].requested_cash.cents
            + requests[j].fee_reserve.cents <= i64::MAX
}

/// Positions of the requests in serving order (repeatedly selecting the first remaining one).
fn serving_order_exec(requests: &Vec<AllocationRequest>) -> (order: Vec<usize>)
    requires
        forall|a: int, b: int|
            0 <= a < b < requests@.len() ==> (#[trigger] requests@[a]).plan_id != (#[trigger] requests@[b]).plan_id,
    ensures
        serving_order(requests@, order@.map_values(|i: usize| i as int)),
{
    let n = requests.len();
    let mut rest: Vec<usize> = Vec::new();
    let mut t: usize = 0;
    while t < n
        invariant
            n == requests@.len(),
            t <= n,
            rest@.len() == t,
            forall|k: int| 0 <= k < t ==> (#[trigger] rest@[k]) == k,
        decreases n - t,
    {
        rest.push(t);
        t = t + 1;
    }
    let mut order: Vec<usize> = Vec::new();
    while rest.len() > 0
        invariant
            n == requests@.len(),
            order@.len() + rest@.len() == n,
            forall|a: int, b: int|
                0 <= a < b < requests@.len() ==> (#[trigger] requests@[a]).plan_id != (#[trigger] requests@[b]).plan_id,
            forall|k: int| 0 <= k < order@.len() ==> (#[trigger] order@[k]) < n,
            forall|k: int| 0 <= k < rest@.len() ==> (#[trigger] rest@[k]) < n,
            forall|a: int, b: int| 0 <= a < b < rest@.len() ==> (#[trigger] rest@[a]) != (#[trigger] rest@[b]),
            forall|a: int, b: int|
                0 <= a < b < order@.len() ==> serves_before(
                    requests@[#[trigger] order@[a] as int],
                    requests@[#[trigger] order@[b] as int],
                ),
            forall|a: int, b: int|
                0 <= a < order@.len() && 0 <= b < rest@.len() ==> serves_before(
                    requests@[#[trigger] order@[a] as int],
                    requests@[#[trigger] rest@[b] as int],
                ),
        decreases rest@.len(),
    {
        let mut best: usize = 0;
        let mut j: usize = 1;
        while j < rest.len()
            invariant
                n == requests@.len(),
                0 <= best < j <= rest@.len(),
                forall|k: int| 0 <= k < rest@.len() ==> (#[trigger] rest@[k]) < n,
                forall|a: int, b: int| 0 <= a < b < rest@.len() ==> (#[trigger] rest@[a]) != (#[trigger] rest@[b]),
                forall|a: int, b: int|
                    0 <= a < b < requests@.len() ==> (#[trigger] requests@[a]).plan_id != (#[trigger] requests@[b]).plan_id,
                forall|m: int|
                    0 <= m < j && m != best ==> serves_before(
                        requests@[rest@[best as int] as int],
                        requests@[#[trigger] rest@[m] as int],
                    ),
            decreases rest@.len() - j,
        {
            let cand = rest[j];
            let cur = rest[best];
            proof {
                assert(rest@[j as int] != rest@[best as int]);
                assert(requests@[cand as int].plan_id != requests@[cur as int].plan_id);
            }
            if serves_before_exec(&requests[cand], &requests[cur]) {
                proof {
                    assert forall|m: int| 0 <= m < j + 1 && m != j implies serves_before(
                        requests@[rest@[j as int] as int],
                        requests@[#[trigger] rest@[m] as int],
                    ) by {
                        if m != best {
                            lemma_serves_before_trans(
                                requests@[cand as int],
                                requests@[cur as int],
                                requests@[rest@[m] as int],
                            );
                        }
                    }
                }
                best = j;
            } else {
                proof {
                    lemma_serves_before_total(requests@[cand as int], requests@[cur as int]);
                }
            }
            j = j + 1;
        }
        let ghost old_order = order@;
        let ghost old_rest = rest@;
        let chosen = rest.remove(best);
        order.push(chosen);
        proof {
            assert forall|k: int| 0 <= k < rest@.len() implies (#[trigger] rest@[k]) < n by {
                if k < best {
                    assert(rest@[k] == old_rest[k]);
                } else {
                    assert(rest@[k] == old_rest[k + 1]);
                }
            }
            assert forall|a: int, b: int| 0 <= a < b < rest@.len() implies (#[trigger] rest@[a]) != (#[trigger] rest@[b]) by {
                let a0 = if a < best { a } else { a + 1 };
                let b0 = if b < best { b } else { b + 1 };
                assert(rest@[a] == old_rest[a0]);
                assert(rest@[b] == old_rest[b0]);
            }
            assert forall|k: int| 0 <= k < order@.len() implies (#[trigger] order@[k]) < n by {
                if k < old_order.len() {
                    assert(order@[k] == old_order[k]);
                }
            }
            assert forall|a: int, b: int| 0 <= a < b < order@.len() implies serves_before(
                requests@[#[trigger] order@[a] as int],
                requests@[#[trigger] order@[b] as int],
            ) by {
                assert(order@[a] == old_order[a]);
                if b == order@.len() - 1 {
                    assert(order@[b] == old_rest[best as int]);
                } else {
                    assert(order@[b] == old_order[b]);
                }
            }
            assert forall|a: int, b: int| 0 <= a < order@.len() && 0 <= b < rest@.len() implies serves_before(
                requests@[#[trigger] order@[a] as int],
                requests@[#[trigger] rest@[b] as int],
            ) by {
                let b0 = if b < best { b } else { b + 1 };
                assert(rest@[b] == old_rest[b0]);
                assert(b0 != best);
                if a == order@.len() - 1 {
                    assert(order@[a] == old_rest[best as int]);
                } else {
                    assert(order@[a] == old_order[a]);
                }
            }
        }
    }
    proof {
        let ord = order@.map_values(|i: usize| i as int);
        assert forall|a: int, b: int| 0 <= a < b < ord.len() implies serves_before(
            requests@[#[trigger] ord[a]],
            requests@[#[trigger] ord[b]],
        ) by {
            assert(serves_before(requests@[order@[a] as int], requests@[order@[b] as int]));
        }
    }
    order
}

proof fn lemma_serves_before_trans(a: AllocationRequest, b: AllocationRequest, c: AllocationRequest)
    requires
        serves_before(a, b),
        serves_before(b, c),
    ensures
        serves_before(a, c),
{
}

proof fn lemma_serves_before_total(a: AllocationRequest, b: AllocationRequest)
    requires
        a.plan_id != b.plan_id,
        !serves_before(a, b),
    ensures
        serves_before(b, a),
{
}

/// Why allocation is refused before any cash is granted, if it is.
pub open spec fn spec_pre_error(funds: AllocationFunds, requests: Seq<AllocationRequest>, policy: AllocationPolicy) -> Option<
    AllocationError,
> {
    if spec_alloc_policy_error(policy) is Some {
        spec_alloc_policy_error(policy)
    } else if spec_funds_error(funds) is Some {
        spec_funds_error(funds)
    } else {
        spec_request_list_error(requests, funds.cash.cents - funds.frozen_cash.cents, 0)
    }
}

/// The grants follow the serving order, each computed from the cash left by the earlier ones.
pub open spec fn grants_match(
    ordered: Seq<AllocationRequest>,
    grants: Seq<AllocationGrant>,
    available: int,
    reserve: int,
) -> bool {
    &&& grants.len() == ordered.len()
    &&& forall|k: int|
        0 <= k < grants.len() ==> {
            let g = #[trigger] grants[k];
            let expected = spec_grant(ordered[k], remaining_after(ordered, available, reserve, k), reserve);
            &&& g.plan_id == ordered[k].plan_id
            &&& g.code == ordered[k].code
            &&& g.allocated_cash.cents == expected.0
            &&& g.constraint == expected.1
        }
}

/// Every request is valid and its fee reserve fits the available cash.
pub open spec fn requests_valid(requests: Seq<AllocationRequest>, available: int) -> bool {
    forall|j: int|
        0 <= j < requests.len() ==> spec_request_error(#[trigger] requests[j]) is None && requests[j].fee_reserve.cents
            <= available
}

fn has_plan_before(requests: &Vec<AllocationRequest>, k: usize, plan_id: PlanId) -> (r: bool)
    requires
        k <= requests@.len(),
    ensures
        r == exists|j: int| 0 <= j < k && (#[trigger] requests@[j]).plan_id == plan_id,
{
    let mut j: usize = 0;
    while j < k
        invariant
            j <= k <= requests@.len(),
            forall|q: int| 0 <= q < j ==> (#[trigger] requests@[q]).plan_id != plan_id,
        decreases k - j,
    {
        if requests[j].plan_id == plan_id {
            return true;
        }
        j = j + 1;
    }
    false
}

/// Grants never exceed the cash still left, so the cash left stays between
/// zero and the available cash and only decreases.
pub proof fn lemma_remaining_bounds(ordered: Seq<AllocationRequest>, available: int, reserve: int, k: int)
    requires
        0 <= available,
        0 <= reserve,
        0 <= k <= ordered.len(),
        requests_valid(ordered, available),
        totals_fit(ordered),
    ensures
        0 <= remaining_after(ordered, available, reserve, k) <= available,
        k < ordered.len() ==> 0 <= spec_grant(ordered[k], remaining_after(ordered, available, reserve, k), reserve).0
            <= remaining_after(ordered, available, reserve, k),
    decreases k,
{
    if k > 0 {
        lemma_remaining_bounds(ordered, available, reserve, k - 1);
    }
    if k < ordered.len() {
        assert(spec_request_error(ordered[k]) is None);
    }
}

pub fn allocate_soft_budgets(funds: &AllocationFunds, requests: &Vec<AllocationRequest>, policy: &AllocationPolicy) -> (r:
    Result<AllocationResult, AllocationError>)
    ensures
        match r {
            Err(e) => if spec_pre_error(*funds, requests@, *policy) is Some {
                spec_pre_error(*funds, requests@, *policy) == Some(e)
            } else {
                !totals_fit(requests@) && e == AllocationError::ArithmeticOverflow { step: "request total" }
            },
            Ok(res) => {
                let available = funds.cash.cents - funds.frozen_cash.cents;
                let reserve = spec_reserve(*funds, requests@, *policy);
                &&& spec_pre_error(*funds, requests@, *policy) is None
                &&& totals_fit(requests@)
                &&& res.available_cash.cents == available
                &&& res.cash_reserve.cents == reserve
                &&& 0 <= res.total_allocated.cents <= available
                &&& exists|order: Seq<int>|
                    serving_order(requests@, order) && grants_match(
                        #[trigger] ordered_requests(requests@, order),
                        res.grants@,
                        available,
                        reserve,
                    ) && res.total_allocated.cents == available - remaining_after(
                        ordered_requests(requests@, order),
                        available,
                        reserve,
                        requests@.len() as int,
                    )
            },
        },
{
    policy.validate()?;
    validate_funds(funds)?;
    let available_cents = funds.cash.cents() - funds.frozen_cash.cents();
    let ghost avail = available_cents as int;
    let n = requests.len();
    let mut k: usize = 0;
    while k < n
        invariant
            n == requests@.len(),
            k <= n,
            spec_alloc_policy_error(*policy) is None,
            spec_funds_error(*funds) is None,
            available_cents == funds.cash.cents - funds.frozen_cash.cents,
            avail == available_cents as int,
            spec_request_list_error(requests@, avail, 0) == spec_request_list_error(requests@, avail, k as int),
            forall|a: int, b: int| 0 <= a < b < k ==> (#[trigger] requests@[a]).plan_id != (#[trigger] requests@[b]).plan_id,
            forall|j: int| 0 <= j < k ==> spec_request_error(#[trigger] requests@[j]) is None && requests@[j].fee_reserve.cents
                <= available_cents,
        decreases n - k,
    {
        let request = &requests[k];
        if has_plan_before(requests, k, request.plan_id) {
            proof {
                let j = choose|j: int| 0 <= j < k && (#[trigger] requests@[j]).plan_id == requests@[k as int].plan_id;
                assert(requests@[j].plan_id == requests@[k as int].plan_id);
            }
            return Err(AllocationError::DuplicatePlanRequest { plan_id: request.plan_id });
        }
        validate_request(request)?;
        if request.fee_reserve.cents() > available_cents {
            return Err(
                AllocationError::FeeReserveExceedsAvailableCash {
                    plan_id: request.plan_id,
                    fee_cents: request.fee_reserve.cents(),
                    available_cents,
                },
            );
        }
        k = k + 1;
    }
    proof {
        assert(spec_request_list_error(requests@, avail, n as int) is None);
    }
    // The total of every buy request must fit the counter.
    let mut k: usize = 0;
    while k < n
        invariant
            n == requests@.len(),
            k <= n,
            spec_pre_error(*funds, requests@, *policy) is None,
            forall|j: int| 0 <= j < n ==> spec_request_error(#[trigger] requests@[j]) is None,
            forall|j: int|
                0 <= j < k && (#[trigger] requests@[j]).side == Side::Buy ==> requests@[j].requested_cash.cents
                    + requests@[j].fee_reserve.cents <= i64::MAX,
        decreases n - k,
    {
        if requests[k].side == Side::Buy && requests[k].requested_cash.cents().checked_add(
            requests[k].fee_reserve.cents(),
        ).is_none() {
            proof {
                assert(requests@[k as int].side == Side::Buy);
            }
            return Err(AllocationError::ArithmeticOverflow { step: "request total" });
        }
        k = k + 1;
    }
    let mut stressed = false;
    let mut k: usize = 0;
    while k < n
        invariant
            n == requests@.len(),
            k <= n,
            stressed == exists|j: int|
                0 <= j < k && ((#[trigger] requests@[j]).experience.drawdown_bp matches Some(d) && d
                    >= policy.risk_drawdown_threshold_bp),
        decreases n - k,
    {
        let hit = match requests[k].experience.drawdown_bp {
            Some(d) => d >= policy.risk_drawdown_threshold_bp,
            None => false,
        };
        if hit {
            stressed = true;
        }
        k = k + 1;
    }
    let reserve_bp = if stressed {
        policy.stressed_cash_reserve_bp
    } else {
        policy.normal_cash_reserve_bp
    };
    let equity = funds.equity.cents() as i128;
    let bp = reserve_bp as i128;
    proof {
        assert(0 <= equity <= i64::MAX);
        assert(0 <= bp <= 10_000);
        assert(0 <= equity * bp <= 0x1_0000_0000_0000_0000_0000) by (nonlinear_arith)
            requires
                0 <= equity <= i64::MAX,
                0 <= bp <= 10_000,
        ;
    }
    let raw = div_round_half_even(equity * bp, 10_000);
    let reserve_cents: i64 = if raw < 0 {
        0
    } else if raw > available_cents as i128 {
        available_cents
    } else {
        raw as i64
    };
    let order = serving_order_exec(requests);
    let ghost ord = order@.map_values(|i: usize| i as int);
    let ghost ordered = ordered_requests(requests@, ord);
    let ghost res_v = reserve_cents as int;
    proof {
        assert forall|j: int| 0 <= j < ordered.len() implies spec_request_error(#[trigger] ordered[j]) is None
            && ordered[j].fee_reserve.cents <= avail by {
            assert(ordered[j] == requests@[ord[j]]);
        }
        assert forall|j: int| 0 <= j < ordered.len() && (#[trigger] ordered[j]).side == Side::Buy implies ordered[j].requested_cash.cents
            + ordered[j].fee_reserve.cents <= i64::MAX by {
            assert(ordered[j] == requests@[ord[j]]);
        }
    }
    let mut remaining: i64 = available_cents;
    let mut grants: Vec<AllocationGrant> = Vec::new();
    let mut k: usize = 0;
    while k < n
        invariant
            n == requests@.len(),
            ordered.len() == n,
            ord.len() == n,
            order@.len() == n,
            forall|q: int| 0 <= q < n ==> (#[trigger] ord[q]) == order@[q] as int && order@[q] < n,
            forall|q: int| 0 <= q < n ==> (#[trigger] ordered[q]) == requests@[ord[q]],
            k <= n,
            0 <= avail,
            0 <= res_v <= avail,
            reserve_cents == res_v,
            requests_valid(ordered, avail),
            totals_fit(ordered),
            remaining == remaining_after(ordered, avail, res_v, k as int),
            grants@.len() == k,
            forall|q: int|
                0 <= q < k ==> {
                    let g = #[trigger] grants@[q];
                    let expected = spec_grant(ordered[q], remaining_after(ordered, avail, res_v, q), res_v);
                    &&& g.plan_id == ordered[q].plan_id
                    &&& g.code == ordered[q].code
                    &&& g.allocated_cash.cents == expected.0
                    &&& g.constraint == expected.1
                },
        decreases n - k,
    {
        proof {
            lemma_remaining_bounds(ordered, avail, res_v, k as int);
            assert(ordered[k as int] == requests@[order@[k as int] as int]);
        }
        let request = &requests[order[k]];
        let fee = request.fee_reserve.cents();
        let (allocated, constraint): (i64, Option<AllocationConstraint>) = match request.side {
            Side::Sell => if request.requested_sell_qty > request.sellable_qty {
                (0, Some(AllocationConstraint::InventoryUnavailable))
            } else {
                let granted = if fee <= remaining {
                    fee
                } else {
                    remaining
                };
                (granted, if granted < fee {
                    Some(AllocationConstraint::InsufficientAvailableCash)
                } else {
                    None
                })
            },
            Side::Buy => {
                let deployable = if remaining - reserve_cents > 0 {
                    remaining - reserve_cents
                } else {
                    0
                };
                let requested = request.requested_cash.cents() + fee;
                let candidate = if requested <= deployable {
                    requested
                } else {
                    deployable
                };
                let granted = if candidate > fee {
                    candidate
                } else {
                    0
                };
                (granted, if granted == requested {
                    None
                } else if remaining <= reserve_cents {
                    Some(AllocationConstraint::CashReserve)
                } else {
                    Some(AllocationConstraint::InsufficientAvailableCash)
                })
            },
        };
        proof {
            assert((allocated as int, constraint) == spec_grant(ordered[k as int], remaining as int, res_v));
        }
        remaining = remaining - allocated;
        grants.push(
            AllocationGrant {
                plan_id: request.plan_id,
                code: request.code.clone(),
                allocated_cash: Money::from_cents(allocated),
                constraint,
            },
        );
        k = k + 1;
    }
    proof {
        lemma_remaining_bounds(ordered, avail, res_v, n as int);
        assert(serving_order(requests@, ord));
        assert(grants_match(ordered, grants@, avail, res_v));
        assert(res_v == spec_reserve(*funds, requests@, *policy));
    }
    let total_allocated = available_cents - remaining;
    Ok(
        AllocationResult {
            grants,
            available_cash: Money::from_cents(available_cents),
            cash_reserve: Money::from_cents(reserve_cents),
            total_allocated: Money::from_cents(total_allocated),
        },
    )
}

} // verus!
