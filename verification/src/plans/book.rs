//! The plan book: every plan ever opened, in plan-id order, plus the index of
//! the non-terminal plans. At most one non-terminal plan exists per account
//! and stock; plan ids are allocated monotonically and never reused.
use vstd::prelude::*;

use super::revision::{
    apply_revision, at_day, end_of_trading_day, expire, pause, resume, spec_child_accepted,
    spec_child_canceled, spec_day_end, spec_event_check, spec_excess_fill, spec_expire,
    spec_observe, spec_pause, spec_real_fill, spec_resume, spec_revision, spec_terminate,
    PlanRevision,
};
use super::state::{
    plan_days_fit, spec_is_terminal, spec_plan_from_open, PauseReason, PlanOpen, PlanPolicy,
    PlanStatus, ResumeReason, TerminationReason, TradingPlan,
};
use super::validation::{
    spec_validate_open, spec_validate_policy, validate_open, validate_policy, PlanError,
    SaveInconsistency,
};
use crate::code_order::{has_code, insert_code, sorted_codes};
use crate::ids::{AccountId, Money, OrderId, PlanId, StockCode};

verus! {

/// The only input of the plan state machine. Acceptance and fills are
/// distinct events: an accepted order never advances the fill.
#[derive(Copy, Clone, Debug, PartialEq, Eq, Structural)]
pub enum PlanEvent {
    ObservedNoChange { trading_day: u64 },
    ChildOrderAccepted { order_id: OrderId, trading_day: u64 },
    ChildOrderCanceled { order_id: OrderId, trading_day: u64 },
    ChildOrderFilled { order_id: OrderId, qty: u32, child_complete: bool, trading_day: u64 },
    ChildOrderExcessFilled { order_id: OrderId, qty: u32, trading_day: u64 },
    Revised { revision: PlanRevision },
    Paused { reason: PauseReason, trading_day: u64 },
    Resumed { reason: ResumeReason, trading_day: u64 },
    Terminated { reason: TerminationReason, trading_day: u64 },
    Expired { trading_day: u64 },
    TradingDayEnded { trading_day: u64 },
}

/// One transition: the plan after the attempt and the outcome (the status on success).
pub open spec fn spec_step(plan: TradingPlan, event: PlanEvent, policy: PlanPolicy) -> (
    TradingPlan,
    Result<PlanStatus, PlanError>,
) {
    let (after, r) = match event {
        PlanEvent::ObservedNoChange { trading_day } => spec_observe(plan, trading_day),
        PlanEvent::ChildOrderAccepted { order_id, trading_day } => spec_child_accepted(
            plan,
            order_id,
            trading_day,
        ),
        PlanEvent::ChildOrderCanceled { order_id, trading_day } => spec_child_canceled(
            plan,
            order_id,
            trading_day,
        ),
        PlanEvent::ChildOrderFilled { order_id, qty, child_complete, trading_day } => spec_real_fill(
            plan,
            order_id,
            qty,
            child_complete,
            trading_day,
        ),
        PlanEvent::ChildOrderExcessFilled { order_id, qty, trading_day } => spec_excess_fill(
            plan,
            order_id,
            qty,
            trading_day,
        ),
        PlanEvent::Revised { revision } => spec_revision(plan, revision, policy),
        PlanEvent::Paused { reason, trading_day } => spec_pause(plan, reason, trading_day),
        PlanEvent::Resumed { reason, trading_day } => spec_resume(plan, reason, trading_day),
        PlanEvent::Terminated { reason, trading_day } => spec_terminate(plan, reason, trading_day),
        PlanEvent::Expired { trading_day } => spec_expire(plan, trading_day),
        PlanEvent::TradingDayEnded { trading_day } => spec_day_end(plan, trading_day),
    };
    match r {
        Ok(_) => (after, Ok(after.status)),
        Err(e) => (after, Err(e)),
    }
}

/// Identity and creation fields of a plan never change through a transition,
/// the event day never moves backwards, a terminal plan never changes, and
/// the review baseline stays between creation and the last event.
pub proof fn lemma_step_frame(plan: TradingPlan, event: PlanEvent, policy: PlanPolicy)
    requires
        plan_days_fit(plan),
    ensures
        spec_step(plan, event, policy).0.plan_id == plan.plan_id,
        spec_step(plan, event, policy).0.account == plan.account,
        spec_step(plan, event, policy).0.code == plan.code,
        spec_step(plan, event, policy).0.created_trading_day == plan.created_trading_day,
        spec_step(plan, event, policy).0.horizon_trading_days == plan.horizon_trading_days,
        spec_step(plan, event, policy).0.review.last_review_price == plan.review.last_review_price,
        spec_step(plan, event, policy).0.last_event_trading_day >= plan.last_event_trading_day,
        spec_step(plan, event, policy).1 is Ok ==> spec_step(plan, event, policy).0.review.last_review_trading_day
            == plan.review.last_review_trading_day || spec_step(plan, event, policy).0.review.last_review_trading_day
            == spec_step(plan, event, policy).0.last_event_trading_day,
        spec_step(plan, event, policy).1 is Err ==> spec_step(plan, event, policy).0.review
            == plan.review && spec_step(plan, event, policy).0.last_event_trading_day
            == plan.last_event_trading_day,
        spec_is_terminal(plan.status) ==> spec_step(plan, event, policy).0 == plan && spec_step(
            plan,
            event,
            policy,
        ).1 is Err,
{
    match event {
        PlanEvent::ObservedNoChange { .. } => {},
        PlanEvent::ChildOrderAccepted { .. } => {},
        PlanEvent::ChildOrderCanceled { .. } => {},
        PlanEvent::ChildOrderFilled { .. } => {},
        PlanEvent::ChildOrderExcessFilled { .. } => {},
        PlanEvent::Revised { revision } => {
            let c = super::validation::spec_classify_revision(plan, revision, policy);
            if c is Ok {
                let o = c->Ok_0;
                match o {
                    super::validation::RevisionOutcome::Forward => {},
                    super::validation::RevisionOutcome::ReverseRestart => {},
                    super::validation::RevisionOutcome::CompleteNow => {},
                    super::validation::RevisionOutcome::Terminate(_) => {},
                }
            }
        },
        PlanEvent::Paused { .. } => {},
        PlanEvent::Resumed { .. } => {},
        PlanEvent::Terminated { .. } => {},
        PlanEvent::Expired { .. } => {},
        PlanEvent::TradingDayEnded { .. } => {},
    }
}

/// Abstract state of the plan book.
pub struct PlanBookView {
    pub policy: PlanPolicy,
    pub next_plan_seq: u64,
    pub plans: Seq<TradingPlan>,
    pub active: Seq<PlanId>,
}

/// Plan ids strictly increase along the sequence.
pub open spec fn ids_increasing(plans: Seq<TradingPlan>) -> bool {
    forall|i: int, j: int|
        0 <= i < j < plans.len() ==> (#[trigger] plans[i]).plan_id.0 < (#[trigger] plans[j]).plan_id.0
}

/// Two plans belong to the same account and stock.
pub open spec fn same_key(a: TradingPlan, b: TradingPlan) -> bool {
    a.account == b.account && a.code@ == b.code@
}

/// The saved review baseline of a plan is consistent.
pub open spec fn review_baseline_ok(plan: TradingPlan) -> bool {
    &&& (plan.review.last_review_price matches Some(p) ==> p.cents > 0)
    &&& plan.created_trading_day <= plan.review.last_review_trading_day
    &&& plan.review.last_review_trading_day <= plan.last_event_trading_day
}

/// At most one non-terminal plan per account and stock.
pub open spec fn one_active_per_key(plans: Seq<TradingPlan>) -> bool {
    forall|i: int, j: int|
        0 <= i < plans.len() && 0 <= j < plans.len() && i != j && !spec_is_terminal(
            (#[trigger] plans[i]).status,
        ) && !spec_is_terminal((#[trigger] plans[j]).status) ==> !same_key(plans[i], plans[j])
}

/// Plan ids of an index strictly increase.
pub open spec fn index_increasing(active: Seq<PlanId>) -> bool {
    forall|a: int, b: int| 0 <= a < b < active.len() ==> (#[trigger] active[a]).0 < (#[trigger] active[b]).0
}

/// Some non-terminal plan carries this id.
pub open spec fn live_id(plans: Seq<TradingPlan>, id: PlanId) -> bool {
    exists|i: int| 0 <= i < plans.len() && (#[trigger] plans[i]).plan_id == id && !spec_is_terminal(plans[i].status)
}

/// The index lists exactly the ids of the non-terminal plans, in id order.
pub open spec fn index_matches(plans: Seq<TradingPlan>, active: Seq<PlanId>) -> bool {
    &&& index_increasing(active)
    &&& forall|k: int| 0 <= k < active.len() ==> live_id(plans, #[trigger] active[k])
    &&& forall|i: int|
        0 <= i < plans.len() && !spec_is_terminal((#[trigger] plans[i]).status) ==> active.contains(
            plans[i].plan_id,
        )
}

/// A plan that is kept in the book: its days fit and its review baseline is valid.
pub open spec fn plan_ok(plan: TradingPlan) -> bool {
    review_baseline_ok(plan)
}

/// The plan with this id, if the book has it, has a last valid day the day
/// counter can hold; every event on a plan reads that day.
pub open spec fn named_plan_fits(plans: Seq<TradingPlan>, id: PlanId) -> bool {
    match plan_index(plans, id) {
        Some(i) => plan_days_fit(plans[i]),
        None => true,
    }
}

/// Well-formedness of a plan book.
pub open spec fn book_wf(v: PlanBookView) -> bool {
    &&& spec_validate_policy(v.policy) is None
    &&& ids_increasing(v.plans)
    &&& forall|i: int| 0 <= i < v.plans.len() ==> (#[trigger] v.plans[i]).plan_id.0 < v.next_plan_seq
    &&& forall|i: int| 0 <= i < v.plans.len() ==> plan_ok(#[trigger] v.plans[i])
    &&& one_active_per_key(v.plans)
    &&& index_matches(v.plans, v.active)
}

/// Some non-terminal plan of the book belongs to this account and stock.
pub open spec fn has_active_key(plans: Seq<TradingPlan>, account: AccountId, code: Seq<char>) -> bool {
    exists|i: int|
        0 <= i < plans.len() && !spec_is_terminal((#[trigger] plans[i]).status) && plans[i].account
            == account && plans[i].code@ == code
}

/// Position of the plan with this id, if any.
pub open spec fn plan_index(plans: Seq<TradingPlan>, id: PlanId) -> Option<int> {
    if exists|i: int| 0 <= i < plans.len() && (#[trigger] plans[i]).plan_id == id {
        Some(choose|i: int| 0 <= i < plans.len() && (#[trigger] plans[i]).plan_id == id)
    } else {
        None
    }
}

/// The plan book.
#[derive(Clone, Debug, PartialEq, Eq)]
pub struct PlanBook {
    policy: PlanPolicy,
    next_plan_seq: u64,
    plans: Vec<TradingPlan>,
    active: Vec<PlanId>,
}

impl View for PlanBook {
    type V = PlanBookView;

    closed spec fn view(&self) -> PlanBookView {
        PlanBookView {
            policy: self.policy,
            next_plan_seq: self.next_plan_seq,
            plans: self.plans@,
            active: self.active@,
        }
    }
}

/// Two strictly increasing id sequences with the same members are equal.
proof fn lemma_increasing_same_members(a: Seq<PlanId>, b: Seq<PlanId>)
    requires
        index_increasing(a),
        index_increasing(b),
        forall|x: PlanId| a.contains(x) <==> b.contains(x),
    ensures
        a == b,
    decreases a.len(),
{
    if a.len() == 0 {
        if b.len() > 0 {
            assert(b.contains(b[0]));
        }
    } else if b.len() == 0 {
        assert(a.contains(a[0]));
    } else {
        let la = a.last();
        let lb = b.last();
        assert(a.contains(la));
        assert(b.contains(lb));
        let ia = choose|i: int| 0 <= i < a.len() && a[i] == lb;
        let ib = choose|i: int| 0 <= i < b.len() && b[i] == la;
        assert(la.0 >= lb.0) by {
            if ia < a.len() - 1 {
                assert(a[ia].0 < a[a.len() - 1].0);
            }
        }
        assert(lb.0 >= la.0) by {
            if ib < b.len() - 1 {
                assert(b[ib].0 < b[b.len() - 1].0);
            }
        }
        let a2 = a.drop_last();
        let b2 = b.drop_last();
        assert forall|x: PlanId| a2.contains(x) implies b2.contains(x) by {
            let k = choose|k: int| 0 <= k < a2.len() && a2[k] == x;
            assert(a[k] == x);
            assert(x.0 < la.0);
            assert(b.contains(x));
            let m = choose|m: int| 0 <= m < b.len() && b[m] == x;
            assert(m != b.len() - 1);
            assert(b2[m] == x);
        }
        assert forall|x: PlanId| b2.contains(x) implies a2.contains(x) by {
            let k = choose|k: int| 0 <= k < b2.len() && b2[k] == x;
            assert(b[k] == x);
            assert(x.0 < lb.0);
            assert(a.contains(x));
            let m = choose|m: int| 0 <= m < a.len() && a[m] == x;
            assert(m != a.len() - 1);
            assert(a2[m] == x);
        }
        lemma_increasing_same_members(a2, b2);
        assert(a == a2.push(la));
        assert(b == b2.push(lb));
    }
}

/// A review: records the facts actually observed by one plan; never reserves assets.
pub open spec fn spec_review(plan: TradingPlan, day: u64, price: Money, acquired_count: u32) -> (
    TradingPlan,
    Result<(), PlanError>,
) {
    if spec_event_check(plan, "review", day, false) is Some {
        (plan, Err(spec_event_check(plan, "review", day, false).unwrap()))
    } else if price.cents <= 0 {
        (
            plan,
            Err(
                PlanError::SaveInconsistent {
                    detail: SaveInconsistency::NonPositiveReviewPrice { plan_id: plan.plan_id },
                },
            ),
        )
    } else {
        (
            TradingPlan {
                review: super::state::ReviewConditions {
                    last_review_trading_day: day,
                    last_review_price: Some(price),
                    last_review_acquired_count: acquired_count,
                    ..plan.review
                },
                ..at_day(plan, day)
            },
            Ok(()),
        )
    }
}

/// Why opening a plan is refused, if it is: invalid fields, a live plan for
/// the same account and stock, or an exhausted id sequence.
pub open spec fn spec_create_error(v: PlanBookView, open: PlanOpen) -> Option<PlanError> {
    create_error_in(v.next_plan_seq, v.plans, open)
}

/// Why a plan cannot open in a book with these plans and this next id, if it cannot.
pub open spec fn create_error_in(next_plan_seq: u64, plans: Seq<TradingPlan>, open: PlanOpen) -> Option<PlanError> {
    if spec_validate_open(open) is Some {
        spec_validate_open(open)
    } else if has_active_key(plans, open.account, open.code@) {
        Some(PlanError::DuplicateActivePlan { account: open.account, code: open.code })
    } else if next_plan_seq == u64::MAX {
        Some(PlanError::PlanSequenceExhausted)
    } else {
        None
    }
}

/// `q` is a later state of plan `p`: same identity and horizon, a terminal
/// plan stays as it is, and a valid plan stays valid.
pub open spec fn evolved(p: TradingPlan, q: TradingPlan) -> bool {
    &&& q.plan_id == p.plan_id
    &&& q.account == p.account
    &&& q.code == p.code
    &&& q.created_trading_day == p.created_trading_day
    &&& q.horizon_trading_days == p.horizon_trading_days
    &&& spec_is_terminal(p.status) ==> q == p
    &&& plan_ok(p) ==> plan_ok(q)
}

/// A transition result is a later state of the plan.
proof fn lemma_step_evolves(p: TradingPlan, event: PlanEvent, policy: PlanPolicy)
    requires
        plan_days_fit(p),
    ensures
        evolved(p, spec_step(p, event, policy).0),
{
    lemma_step_frame(p, event, policy);
}

proof fn lemma_evolved_trans(p: TradingPlan, q: TradingPlan, r: TradingPlan)
    requires
        evolved(p, q),
        evolved(q, r),
    ensures
        evolved(p, r),
{
}

/// Replacing one plan by a later state of it keeps the book well formed,
/// given the index is adjusted when the plan became terminal.
proof fn lemma_update_keeps_book(v: PlanBookView, i: int, p2: TradingPlan)
    requires
        book_wf(v),
        0 <= i < v.plans.len(),
        evolved(v.plans[i], p2),
    ensures
        ({
            let plans2 = v.plans.update(i, p2);
            &&& ids_increasing(plans2)
            &&& forall|j: int| 0 <= j < plans2.len() ==> (#[trigger] plans2[j]).plan_id.0 < v.next_plan_seq
            &&& forall|j: int| 0 <= j < plans2.len() ==> plan_ok(#[trigger] plans2[j])
            &&& one_active_per_key(plans2)
            &&& !spec_is_terminal(p2.status) ==> index_matches(plans2, v.active)
        }),
{
    let p = v.plans[i];
    assert(plan_ok(p));
    let plans2 = v.plans.update(i, p2);
    assert(plan_ok(p2));
    assert forall|a: int, b: int| 0 <= a < b < plans2.len() implies (#[trigger] plans2[a]).plan_id.0
        < (#[trigger] plans2[b]).plan_id.0 by {
        assert(v.plans[a].plan_id.0 < v.plans[b].plan_id.0);
    }
    assert forall|j: int| 0 <= j < plans2.len() implies plan_ok(#[trigger] plans2[j]) by {
        assert(plan_ok(v.plans[j]));
    }
    assert forall|j: int| 0 <= j < plans2.len() implies (#[trigger] plans2[j]).plan_id.0
        < v.next_plan_seq by {
        assert(v.plans[j].plan_id.0 < v.next_plan_seq);
    }
    assert forall|a: int, b: int|
        0 <= a < plans2.len() && 0 <= b < plans2.len() && a != b && !spec_is_terminal(
            (#[trigger] plans2[a]).status,
        ) && !spec_is_terminal((#[trigger] plans2[b]).status) implies !same_key(plans2[a], plans2[b]) by {
        assert(!spec_is_terminal(v.plans[a].status));
        assert(!spec_is_terminal(v.plans[b].status));
    }
    if !spec_is_terminal(p2.status) {
        assert(!spec_is_terminal(p.status));
        assert forall|k: int| 0 <= k < v.active.len() implies live_id(plans2, #[trigger] v.active[k]) by {
            assert(live_id(v.plans, v.active[k]));
            let j = choose|j: int|
                0 <= j < v.plans.len() && (#[trigger] v.plans[j]).plan_id == v.active[k]
                    && !spec_is_terminal(v.plans[j].status);
            assert(plans2[j].plan_id == v.active[k]);
        }
        assert forall|j: int|
            0 <= j < plans2.len() && !spec_is_terminal((#[trigger] plans2[j]).status) implies v.active.contains(
            plans2[j].plan_id,
        ) by {
            assert(!spec_is_terminal(v.plans[j].status));
        }
    }
}

/// After a plan became terminal, removing its id keeps the index exact.
proof fn lemma_index_after_removal(
    plans: Seq<TradingPlan>,
    active: Seq<PlanId>,
    i: int,
    p2: TradingPlan,
    pos: int,
)
    requires
        ids_increasing(plans),
        index_matches(plans, active),
        0 <= i < plans.len(),
        p2.plan_id == plans[i].plan_id,
        spec_is_terminal(p2.status),
        0 <= pos < active.len(),
        active[pos] == plans[i].plan_id,
    ensures
        index_matches(plans.update(i, p2), active.remove(pos)),
{
    let plans2 = plans.update(i, p2);
    let active2 = active.remove(pos);
    assert forall|a: int, b: int| 0 <= a < b < active2.len() implies (#[trigger] active2[a]).0
        < (#[trigger] active2[b]).0 by {
        let a0 = if a < pos { a } else { a + 1 };
        let b0 = if b < pos { b } else { b + 1 };
        assert(active2[a] == active[a0]);
        assert(active2[b] == active[b0]);
    }
    assert forall|k: int| 0 <= k < active2.len() implies live_id(plans2, #[trigger] active2[k]) by {
        let k0 = if k < pos { k } else { k + 1 };
        assert(active2[k] == active[k0]);
        assert(active[k0] != active[pos]) by {
            if k0 < pos {
                assert(active[k0].0 < active[pos].0);
            } else {
                assert(active[pos].0 < active[k0].0);
            }
        }
        assert(live_id(plans, active[k0]));
        let j = choose|j: int|
            0 <= j < plans.len() && (#[trigger] plans[j]).plan_id == active[k0]
                && !spec_is_terminal(plans[j].status);
        assert(j != i);
        assert(plans2[j] == plans[j]);
    }
    assert forall|j: int|
        0 <= j < plans2.len() && !spec_is_terminal((#[trigger] plans2[j]).status) implies active2.contains(
        plans2[j].plan_id,
    ) by {
        assert(j != i);
        assert(plans2[j] == plans[j]);
        assert(active.contains(plans[j].plan_id));
        let k = choose|k: int| 0 <= k < active.len() && active[k] == plans[j].plan_id;
        assert(plans[j].plan_id != plans[i].plan_id) by {
            if j < i {
                assert(plans[j].plan_id.0 < plans[i].plan_id.0);
            } else {
                assert(plans[i].plan_id.0 < plans[j].plan_id.0);
            }
        }
        assert(k != pos);
        if k < pos {
            assert(active2[k] == active[k]);
        } else {
            assert(active2[k - 1] == active[k]);
        }
    }
}

/// Position of a live plan of this account and stock, scanning the given plans.
fn find_active_in(plans: &Vec<TradingPlan>, account: AccountId, code: &StockCode) -> (r: Option<usize>)
    ensures
        match r {
            Some(i) => i < plans@.len() && !spec_is_terminal(plans@[i as int].status)
                && plans@[i as int].account == account && plans@[i as int].code@ == code@,
            None => !has_active_key(plans@, account, code@),
        },
{
    let mut i: usize = 0;
    while i < plans.len()
        invariant
            i <= plans@.len(),
            forall|k: int|
                0 <= k < i ==> !(!spec_is_terminal((#[trigger] plans@[k]).status) && plans@[k].account
                    == account && plans@[k].code@ == code@),
        decreases plans@.len() - i,
    {
        let p = &plans[i];
        if !p.is_terminal() && p.account == account && p.code.same_as(code) {
            return Some(i);
        }
        i = i + 1;
    }
    None
}

impl PlanBook {
    pub closed spec fn wf(&self) -> bool {
        book_wf(self@)
    }

    /// Every well-formed book satisfies the well-formedness of its view.
    pub proof fn lemma_wf(&self)
        requires
            self.wf(),
        ensures
            book_wf(self@),
    {
    }

    /// Builds an empty book with an explicit policy; the policy is validated at once.
    pub fn new(policy: PlanPolicy) -> (r: Result<PlanBook, PlanError>)
        ensures
            match r {
                Ok(book) => book.wf() && book@.policy == policy && book@.next_plan_seq == 0
                    && book@.plans.len() == 0 && book@.active.len() == 0,
                Err(e) => spec_validate_policy(policy) == Some(e),
            },
            r is Ok <==> spec_validate_policy(policy) is None,
    {
        validate_policy(&policy)?;
        Ok(PlanBook { policy, next_plan_seq: 0, plans: Vec::new(), active: Vec::new() })
    }

    /// The book with the default policy.
    pub fn default_book() -> (book: PlanBook)
        ensures
            book.wf(),
            book@.policy.reverse_revision_threshold_bp == 2000,
            book@.policy.review_signal_delta_bp == 1000,
            book@.policy.review_price_change_bp == 200,
            book@.next_plan_seq == 0,
            book@.plans.len() == 0,
            book@.active.len() == 0,
    {
        PlanBook {
            policy: PlanPolicy::default_policy(),
            next_plan_seq: 0,
            plans: Vec::new(),
            active: Vec::new(),
        }
    }

    pub fn policy(&self) -> (p: &PlanPolicy)
        ensures
            *p == self@.policy,
    {
        &self.policy
    }

    pub fn next_plan_seq(&self) -> (n: u64)
        ensures
            n == self@.next_plan_seq,
    {
        self.next_plan_seq
    }

    /// Position of a plan id in the book.
    fn find_index(&self, plan_id: PlanId) -> (r: Option<usize>)
        ensures
            match r {
                Some(i) => i < self@.plans.len() && self@.plans[i as int].plan_id == plan_id,
                None => forall|i: int|
                    0 <= i < self@.plans.len() ==> (#[trigger] self@.plans[i]).plan_id != plan_id,
            },
    {
        let mut i: usize = 0;
        while i < self.plans.len()
            invariant
                i <= self.plans@.len(),
                forall|k: int| 0 <= k < i ==> (#[trigger] self.plans@[k]).plan_id != plan_id,
            decreases self.plans@.len() - i,
        {
            if self.plans[i].plan_id == plan_id {
                return Some(i);
            }
            i = i + 1;
        }
        None
    }

    /// Looks a plan up by id; an unknown id is a typed error, never a silent empty value.
    pub fn plan(&self, plan_id: PlanId) -> (r: Result<&TradingPlan, PlanError>)
        ensures
            match r {
                Ok(p) => exists|i: int|
                    0 <= i < self@.plans.len() && (#[trigger] self@.plans[i]) == *p && p.plan_id
                        == plan_id,
                Err(e) => e == PlanError::UnknownPlan { plan_id } && forall|i: int|
                    0 <= i < self@.plans.len() ==> (#[trigger] self@.plans[i]).plan_id != plan_id,
            },
    {
        match self.find_index(plan_id) {
            Some(i) => Ok(&self.plans[i]),
            None => Err(PlanError::UnknownPlan { plan_id }),
        }
    }

    /// Ids of all plans ever opened, ascending.
    pub fn plan_ids(&self) -> (ids: Vec<PlanId>)
        ensures
            ids@.len() == self@.plans.len(),
            forall|i: int| 0 <= i < ids@.len() ==> ids@[i] == (#[trigger] self@.plans[i]).plan_id,
    {
        let mut ids: Vec<PlanId> = Vec::new();
        let mut i: usize = 0;
        while i < self.plans.len()
            invariant
                i <= self.plans@.len(),
                ids@.len() == i,
                forall|k: int| 0 <= k < i ==> ids@[k] == (#[trigger] self.plans@[k]).plan_id,
            decreases self.plans@.len() - i,
        {
            ids.push(self.plans[i].plan_id);
            i = i + 1;
        }
        ids
    }

    /// Ids of the non-terminal plans, ascending.
    pub fn active_plan_ids(&self) -> (ids: Vec<PlanId>)
        ensures
            ids@ == self@.active,
    {
        let mut ids: Vec<PlanId> = Vec::new();
        let mut i: usize = 0;
        while i < self.active.len()
            invariant
                i <= self.active@.len(),
                ids@ == self.active@.take(i as int),
            decreases self.active@.len() - i,
        {
            ids.push(self.active[i]);
            i = i + 1;
            assert(ids@ == self.active@.take(i as int));
        }
        assert(self.active@.take(self.active@.len() as int) == self.active@);
        ids
    }

    /// Ids of the non-terminal plans of one account, ascending.
    pub fn active_plan_ids_for_account(&self, account: AccountId) -> (ids: Vec<PlanId>)
        requires
            self.wf(),
        ensures
            index_increasing(ids@),
            forall|x: PlanId|
                ids@.contains(x) <==> exists|i: int|
                    0 <= i < self@.plans.len() && (#[trigger] self@.plans[i]).plan_id == x
                        && !spec_is_terminal(self@.plans[i].status) && self@.plans[i].account
                        == account,
    {
        let mut ids: Vec<PlanId> = Vec::new();
        let mut i: usize = 0;
        while i < self.plans.len()
            invariant
                self.wf(),
                i <= self.plans@.len(),
                index_increasing(ids@),
                forall|k: int| 0 <= k < ids@.len() ==> (#[trigger] ids@[k]).0 < self.next_plan_seq,
                i < self.plans@.len() ==> forall|k: int|
                    0 <= k < ids@.len() ==> (#[trigger] ids@[k]).0 < self.plans@[i as int].plan_id.0,
                forall|x: PlanId|
                    ids@.contains(x) <==> exists|j: int|
                        0 <= j < i && (#[trigger] self.plans@[j]).plan_id == x
                            && !spec_is_terminal(self.plans@[j].status) && self.plans@[j].account
                            == account,
            decreases self.plans@.len() - i,
        {
            let p = &self.plans[i];
            let keep = p.account == account && !p.is_terminal();
            proof {
                assert(self.plans@[i as int] == *p);
            }
            let ghost before = ids@;
            if keep {
                ids.push(p.plan_id);
            }
            let ghost prev = i;
            i = i + 1;
            proof {
                assert forall|x: PlanId|
                    ids@.contains(x) <==> exists|j: int|
                        0 <= j < i && (#[trigger] self.plans@[j]).plan_id == x
                            && !spec_is_terminal(self.plans@[j].status) && self.plans@[j].account
                            == account by {
                    if ids@.contains(x) {
                        let k = choose|k: int| 0 <= k < ids@.len() && ids@[k] == x;
                        if keep && k == ids@.len() - 1 {
                            assert(self.plans@[prev as int].plan_id == x);
                        } else {
                            assert(before[k] == x);
                            assert(before.contains(x));
                        }
                    }
                    if exists|j: int|
                        0 <= j < i && (#[trigger] self.plans@[j]).plan_id == x
                            && !spec_is_terminal(self.plans@[j].status) && self.plans@[j].account
                            == account {
                        let j = choose|j: int|
                            0 <= j < i && (#[trigger] self.plans@[j]).plan_id == x
                                && !spec_is_terminal(self.plans@[j].status) && self.plans@[j].account
                                == account;
                        if j == prev {
                            assert(keep);
                            assert(ids@[ids@.len() - 1] == x);
                        } else {
                            assert(before.contains(x));
                            let k = choose|k: int| 0 <= k < before.len() && before[k] == x;
                            assert(ids@[k] == x);
                        }
                    }
                }
                if i < self.plans@.len() {
                    assert forall|k: int| 0 <= k < ids@.len() implies (#[trigger] ids@[k]).0
                        < self.plans@[i as int].plan_id.0 by {
                        assert(self.plans@[prev as int].plan_id.0 < self.plans@[i as int].plan_id.0);
                    }
                }
            }
        }
        ids
    }
}

impl PlanBook {
    /// The live plan of an account and stock, if any.
    pub fn active_plan(&self, account: AccountId, code: &StockCode) -> (r: Option<&TradingPlan>)
        requires
            self.wf(),
        ensures
            match r {
                Some(p) => exists|i: int|
                    0 <= i < self@.plans.len() && (#[trigger] self@.plans[i]) == *p
                        && !spec_is_terminal(p.status) && p.account == account && p.code@ == code@,
                None => !has_active_key(self@.plans, account, code@),
            },
    {
        match find_active_in(&self.plans, account, code) {
            Some(i) => Some(&self.plans[i]),
            None => None,
        }
    }

    /// Opens a new plan. A live plan for the same account and stock is refused;
    /// otherwise a fresh id is allocated.
    pub fn create(&mut self, open: PlanOpen) -> (r: Result<PlanId, PlanError>)
        requires
            old(self).wf(),
            open.created_trading_day + open.horizon_trading_days <= u64::MAX + 1,
        ensures
            final(self).wf(),
            match r {
                Ok(id) => spec_create_error(old(self)@, open) is None && id == PlanId(
                    old(self)@.next_plan_seq,
                ) && final(self)@.policy == old(self)@.policy && final(self)@.next_plan_seq
                    == old(self)@.next_plan_seq + 1 && final(self)@.plans == old(self)@.plans.push(
                    spec_plan_from_open(id, open, old(self)@.policy),
                ) && final(self)@.active == old(self)@.active.push(id),
                Err(e) => spec_create_error(old(self)@, open) == Some(e) && final(self)@ == old(
                    self,
                )@,
            },
    {
        validate_open(&open)?;
        if find_active_in(&self.plans, open.account, &open.code).is_some() {
            return Err(PlanError::DuplicateActivePlan { account: open.account, code: open.code });
        }
        if self.next_plan_seq == u64::MAX {
            return Err(PlanError::PlanSequenceExhausted);
        }
        let plan_id = PlanId(self.next_plan_seq);
        let plan = TradingPlan::from_open(plan_id, open, &self.policy)?;
        let ghost old_v = self@;
        proof {
            assert(plan_ok(plan));
        }
        self.plans.push(plan);
        self.active.push(plan_id);
        self.next_plan_seq = self.next_plan_seq + 1;
        proof {
            let v = self@;
            assert(v.plans.len() == old_v.plans.len() + 1);
            assert forall|a: int, b: int| 0 <= a < b < v.plans.len() implies (#[trigger] v.plans[a]).plan_id.0
                < (#[trigger] v.plans[b]).plan_id.0 by {
                if b == v.plans.len() - 1 {
                    assert(old_v.plans[a].plan_id.0 < old_v.next_plan_seq);
                } else {
                    assert(old_v.plans[a].plan_id.0 < old_v.plans[b].plan_id.0);
                }
            }
            assert forall|j: int| 0 <= j < v.plans.len() implies (#[trigger] v.plans[j]).plan_id.0
                < v.next_plan_seq by {
                if j < old_v.plans.len() {
                    assert(old_v.plans[j].plan_id.0 < old_v.next_plan_seq);
                }
            }
            assert forall|j: int| 0 <= j < v.plans.len() implies plan_ok(#[trigger] v.plans[j]) by {
                if j < old_v.plans.len() {
                    assert(plan_ok(old_v.plans[j]));
                }
            }
            assert forall|a: int, b: int|
                0 <= a < v.plans.len() && 0 <= b < v.plans.len() && a != b && !spec_is_terminal(
                    (#[trigger] v.plans[a]).status,
                ) && !spec_is_terminal((#[trigger] v.plans[b]).status) implies !same_key(
                v.plans[a],
                v.plans[b],
            ) by {
                let n = old_v.plans.len() as int;
                if a == n {
                    assert(old_v.plans[b] == v.plans[b]);
                } else if b == n {
                    assert(old_v.plans[a] == v.plans[a]);
                } else {
                    assert(old_v.plans[a] == v.plans[a]);
                    assert(old_v.plans[b] == v.plans[b]);
                }
            }
            assert forall|a: int, b: int| 0 <= a < b < v.active.len() implies (#[trigger] v.active[a]).0
                < (#[trigger] v.active[b]).0 by {
                if b == v.active.len() - 1 {
                    assert(live_id(old_v.plans, old_v.active[a]));
                    let j = choose|j: int|
                        0 <= j < old_v.plans.len() && (#[trigger] old_v.plans[j]).plan_id
                            == old_v.active[a] && !spec_is_terminal(old_v.plans[j].status);
                    assert(old_v.plans[j].plan_id.0 < old_v.next_plan_seq);
                } else {
                    assert(old_v.active[a].0 < old_v.active[b].0);
                }
            }
            assert forall|k: int| 0 <= k < v.active.len() implies live_id(v.plans, #[trigger] v.active[k]) by {
                if k == v.active.len() - 1 {
                    assert(v.plans[v.plans.len() - 1].plan_id == v.active[k]);
                } else {
                    assert(live_id(old_v.plans, old_v.active[k]));
                    let j = choose|j: int|
                        0 <= j < old_v.plans.len() && (#[trigger] old_v.plans[j]).plan_id
                            == old_v.active[k] && !spec_is_terminal(old_v.plans[j].status);
                    assert(v.plans[j] == old_v.plans[j]);
                }
            }
            assert forall|j: int|
                0 <= j < v.plans.len() && !spec_is_terminal((#[trigger] v.plans[j]).status) implies v.active.contains(
                v.plans[j].plan_id,
            ) by {
                if j == v.plans.len() - 1 {
                    assert(v.active[v.active.len() - 1] == plan_id);
                } else {
                    assert(v.plans[j] == old_v.plans[j]);
                    assert(old_v.active.contains(old_v.plans[j].plan_id));
                    let k = choose|k: int|
                        0 <= k < old_v.active.len() && old_v.active[k] == old_v.plans[j].plan_id;
                    assert(v.active[k] == old_v.active[k]);
                }
            }
        }
        Ok(plan_id)
    }

    /// One transition of one plan.
    pub fn apply_to_plan(plan: &mut TradingPlan, event: PlanEvent, policy: &PlanPolicy) -> (r: Result<
        PlanStatus,
        PlanError,
    >)
        requires
            plan_days_fit(*old(plan)),
        ensures
            (*final(plan), r) == spec_step(*old(plan), event, *policy),
    {
        match event {
            PlanEvent::ObservedNoChange { trading_day } => plan.observe_no_change(trading_day)?,
            PlanEvent::ChildOrderAccepted { order_id, trading_day } => plan.record_child_order_accepted(
                order_id,
                trading_day,
            )?,
            PlanEvent::ChildOrderCanceled { order_id, trading_day } => plan.record_child_order_canceled(
                order_id,
                trading_day,
            )?,
            PlanEvent::ChildOrderFilled { order_id, qty, child_complete, trading_day } => plan.record_real_fill(
                order_id,
                qty,
                child_complete,
                trading_day,
            )?,
            PlanEvent::ChildOrderExcessFilled { order_id, qty, trading_day } => plan.record_excess_fill(
                order_id,
                qty,
                trading_day,
            )?,
            PlanEvent::Revised { revision } => apply_revision(plan, &revision, policy)?,
            PlanEvent::Paused { reason, trading_day } => pause(plan, reason, trading_day)?,
            PlanEvent::Resumed { reason, trading_day } => resume(plan, reason, trading_day)?,
            PlanEvent::Terminated { reason, trading_day } => plan.terminate(reason, trading_day)?,
            PlanEvent::Expired { trading_day } => expire(plan, trading_day)?,
            PlanEvent::TradingDayEnded { trading_day } => end_of_trading_day(plan, trading_day)?,
        }
        Ok(plan.status)
    }

    /// Removes one plan id from the index of live plans, if present.
    fn remove_active_index(&mut self, plan_id: PlanId) -> (pos: Option<usize>)
        ensures
            final(self).policy == old(self).policy,
            final(self).next_plan_seq == old(self).next_plan_seq,
            final(self).plans == old(self).plans,
            match pos {
                Some(p) => p < old(self).active@.len() && old(self).active@[p as int] == plan_id
                    && final(self).active@ == old(self).active@.remove(p as int),
                None => final(self).active@ == old(self).active@ && !old(self).active@.contains(plan_id),
            },
    {
        let mut k: usize = 0;
        while k < self.active.len()
            invariant
                k <= self.active@.len(),
                self.policy == old(self).policy,
                self.next_plan_seq == old(self).next_plan_seq,
                self.plans == old(self).plans,
                self.active == old(self).active,
                forall|j: int| 0 <= j < k ==> self.active@[j] != plan_id,
            decreases self.active@.len() - k,
        {
            if self.active[k] == plan_id {
                self.active.remove(k);
                return Some(k);
            }
            k = k + 1;
        }
        None
    }

    /// Replaces the plan at `i` by a later state of it and keeps the index exact.
    fn store_plan(&mut self, i: usize, plan: TradingPlan)
        requires
            old(self).wf(),
            i < old(self)@.plans.len(),
            evolved(old(self)@.plans[i as int], plan),
        ensures
            final(self).wf(),
            final(self)@.policy == old(self)@.policy,
            final(self)@.next_plan_seq == old(self)@.next_plan_seq,
            final(self)@.plans == old(self)@.plans.update(i as int, plan),
    {
        let ghost v = self@;
        proof {
            lemma_update_keeps_book(v, i as int, plan);
        }
        let id = plan.plan_id;
        let terminal = plan.is_terminal();
        self.plans.set(i, plan);
        if terminal {
            let pos = self.remove_active_index(id);
            proof {
                match pos {
                    Some(p) => {
                        lemma_index_after_removal(v.plans, v.active, i as int, plan, p as int);
                    },
                    None => {
                        let p0 = v.plans[i as int];
                        assert(spec_is_terminal(p0.status)) by {
                            if !spec_is_terminal(p0.status) {
                                assert(v.active.contains(p0.plan_id));
                            }
                        }
                        assert(plan == p0);
                        assert(v.plans.update(i as int, plan) == v.plans);
                    },
                }
            }
        }
    }

    /// Applies one event to one plan: a pure (state, event) transition that
    /// returns the status after the event.
    pub fn apply(&mut self, plan_id: PlanId, event: PlanEvent) -> (r: Result<PlanStatus, PlanError>)
        requires
            old(self).wf(),
            named_plan_fits(old(self)@.plans, plan_id),
        ensures
            final(self).wf(),
            final(self)@.policy == old(self)@.policy,
            final(self)@.next_plan_seq == old(self)@.next_plan_seq,
            match plan_index(old(self)@.plans, plan_id) {
                None => r == Err::<PlanStatus, PlanError>(PlanError::UnknownPlan { plan_id })
                    && final(self)@ == old(self)@,
                Some(i) => r == spec_step(old(self)@.plans[i], event, old(self)@.policy).1
                    && final(self)@.plans == old(self)@.plans.update(
                    i,
                    spec_step(old(self)@.plans[i], event, old(self)@.policy).0,
                ),
            },
    {
        let i = match self.find_index(plan_id) {
            Some(i) => i,
            None => {
                return Err(PlanError::UnknownPlan { plan_id });
            },
        };
        proof {
            let v = self@;
            assert(exists|j: int| 0 <= j < v.plans.len() && (#[trigger] v.plans[j]).plan_id == plan_id);
            let c = choose|j: int| 0 <= j < v.plans.len() && (#[trigger] v.plans[j]).plan_id == plan_id;
            if c != i {
                if c < i {
                    assert(v.plans[c].plan_id.0 < v.plans[i as int].plan_id.0);
                } else {
                    assert(v.plans[i as int].plan_id.0 < v.plans[c].plan_id.0);
                }
            }
            assert(plan_index(v.plans, plan_id) == Some(i as int));
            assert(plan_ok(v.plans[i as int]));
        }
        let mut plan = self.plans[i].clone();
        let r = Self::apply_to_plan(&mut plan, event, &self.policy);
        proof {
            lemma_step_evolves(self@.plans[i as int], event, self@.policy);
        }
        self.store_plan(i, plan);
        r
    }
}

/// The saved entries of a plan sequence: each plan keyed by its own id.
pub open spec fn spec_save_entries(plans: Seq<TradingPlan>) -> Seq<(PlanId, TradingPlan)> {
    plans.map_values(|p: TradingPlan| (p.plan_id, p))
}

/// The plans of the first `k` saved entries.
pub open spec fn entry_plans(entries: Seq<(PlanId, TradingPlan)>, k: int) -> Seq<TradingPlan> {
    entries.take(k).map_values(|e: (PlanId, TradingPlan)| e.1)
}

/// The first inconsistency of saved entry `k`, checked in order: key, key
/// order, review baseline, id bound, a second live plan for a key.
pub open spec fn entry_error(entries: Seq<(PlanId, TradingPlan)>, next_plan_seq: u64, k: int) -> Option<
    PlanError,
> {
    let key = entries[k].0;
    let plan = entries[k].1;
    if plan.plan_id != key {
        Some(
            PlanError::SaveInconsistent {
                detail: SaveInconsistency::KeyMismatch { key, plan_id: plan.plan_id },
            },
        )
    } else if k > 0 && entries[k - 1].0.0 >= key.0 {
        Some(PlanError::SaveInconsistent { detail: SaveInconsistency::KeysNotAscending { key } })
    } else if !review_baseline_ok(plan) {
        Some(
            PlanError::SaveInconsistent {
                detail: SaveInconsistency::InvalidReviewBaseline { plan_id: key },
            },
        )
    } else if key.0 >= next_plan_seq {
        Some(
            PlanError::SaveInconsistent {
                detail: SaveInconsistency::IdNotBelowNextSeq { plan_id: key, next_plan_seq },
            },
        )
    } else if !spec_is_terminal(plan.status) && has_active_key(
        entry_plans(entries, k),
        plan.account,
        plan.code@,
    ) {
        Some(
            PlanError::SaveInconsistent {
                detail: SaveInconsistency::TwoActivePlans { account: plan.account, code: plan.code },
            },
        )
    } else {
        None
    }
}

/// The first inconsistency among the entries from `k` on.
pub open spec fn first_entry_error(entries: Seq<(PlanId, TradingPlan)>, next_plan_seq: u64, k: int) -> Option<
    PlanError,
>
    decreases entries.len() - k,
{
    if k < 0 || k >= entries.len() {
        None
    } else if entry_error(entries, next_plan_seq, k) is Some {
        entry_error(entries, next_plan_seq, k)
    } else {
        first_entry_error(entries, next_plan_seq, k + 1)
    }
}

/// Why restoring a book from saved parts is refused, if it is.
pub open spec fn spec_from_parts_error(
    policy: PlanPolicy,
    next_plan_seq: u64,
    entries: Seq<(PlanId, TradingPlan)>,
) -> Option<PlanError> {
    if spec_validate_policy(policy) is Some {
        spec_validate_policy(policy)
    } else {
        first_entry_error(entries, next_plan_seq, 0)
    }
}

proof fn lemma_entry_plans_push(entries: Seq<(PlanId, TradingPlan)>, k: int)
    requires
        0 <= k < entries.len(),
    ensures
        entry_plans(entries, k + 1) == entry_plans(entries, k).push(entries[k].1),
        entry_plans(entries, k).len() == k,
{
    assert(entry_plans(entries, k + 1) =~= entry_plans(entries, k).push(entries[k].1));
}

/// No saved entry of a well-formed book is inconsistent.
proof fn lemma_saved_entries_consistent(v: PlanBookView, k: int)
    requires
        book_wf(v),
        0 <= k <= v.plans.len(),
    ensures
        first_entry_error(spec_save_entries(v.plans), v.next_plan_seq, k) is None,
    decreases v.plans.len() - k,
{
    let entries = spec_save_entries(v.plans);
    if k < v.plans.len() {
        assert(entry_plans(entries, k) =~= v.plans.take(k));
        let plan = v.plans[k];
        assert(entries[k] == (plan.plan_id, plan));
        assert(plan_ok(plan));
        assert(plan.plan_id.0 < v.next_plan_seq);
        if k > 0 {
            assert(entries[k - 1] == (v.plans[k - 1].plan_id, v.plans[k - 1]));
            assert(v.plans[k - 1].plan_id.0 < plan.plan_id.0);
        }
        if !spec_is_terminal(plan.status) && has_active_key(
            entry_plans(entries, k),
            plan.account,
            plan.code@,
        ) {
            let prefix = entry_plans(entries, k);
            let j = choose|j: int|
                0 <= j < prefix.len() && !spec_is_terminal((#[trigger] prefix[j]).status)
                    && prefix[j].account == plan.account && prefix[j].code@ == plan.code@;
            assert(prefix[j] == v.plans[j]);
            assert(!same_key(v.plans[j], v.plans[k]));
        }
        assert(entry_error(entries, v.next_plan_seq, k) is None);
        lemma_saved_entries_consistent(v, k + 1);
    }
}

/// Saving a well-formed book and restoring it gives the same book: the
/// restore raises no inconsistency, and any well-formed book with the same
/// policy, sequence and plans has exactly the same index of live plans.
pub proof fn law_save_restore_round_trip(v: PlanBookView, w: PlanBookView)
    requires
        book_wf(v),
    ensures
        spec_from_parts_error(v.policy, v.next_plan_seq, spec_save_entries(v.plans)) is None,
        entry_plans(spec_save_entries(v.plans), v.plans.len() as int) == v.plans,
        book_wf(w) && w.policy == v.policy && w.next_plan_seq == v.next_plan_seq && w.plans == v.plans
            ==> w == v,
{
    lemma_saved_entries_consistent(v, 0);
    assert(entry_plans(spec_save_entries(v.plans), v.plans.len() as int) =~= v.plans);
    if book_wf(w) && w.policy == v.policy && w.next_plan_seq == v.next_plan_seq && w.plans == v.plans {
        assert forall|x: PlanId| w.active.contains(x) <==> v.active.contains(x) by {
            if w.active.contains(x) {
                let k = choose|k: int| 0 <= k < w.active.len() && w.active[k] == x;
                assert(live_id(w.plans, w.active[k]));
                let i = choose|i: int|
                    0 <= i < w.plans.len() && (#[trigger] w.plans[i]).plan_id == x
                        && !spec_is_terminal(w.plans[i].status);
                assert(v.active.contains(v.plans[i].plan_id));
            }
            if v.active.contains(x) {
                let k = choose|k: int| 0 <= k < v.active.len() && v.active[k] == x;
                assert(live_id(v.plans, v.active[k]));
                let i = choose|i: int|
                    0 <= i < v.plans.len() && (#[trigger] v.plans[i]).plan_id == x
                        && !spec_is_terminal(v.plans[i].status);
                assert(w.active.contains(w.plans[i].plan_id));
            }
        }
        lemma_increasing_same_members(w.active, v.active);
    }
}

impl PlanBook {
    /// The parts a save keeps: policy, next sequence and the plans keyed by id.
    pub fn save_parts(&self) -> (r: (PlanPolicy, u64, Vec<(PlanId, TradingPlan)>))
        ensures
            r.0 == self@.policy,
            r.1 == self@.next_plan_seq,
            r.2@ == spec_save_entries(self@.plans),
    {
        let mut entries: Vec<(PlanId, TradingPlan)> = Vec::new();
        let mut i: usize = 0;
        while i < self.plans.len()
            invariant
                i <= self.plans@.len(),
                entries@ == spec_save_entries(self.plans@).take(i as int),
            decreases self.plans@.len() - i,
        {
            let p = self.plans[i].clone();
            entries.push((p.plan_id, p));
            i = i + 1;
            assert(entries@ =~= spec_save_entries(self.plans@).take(i as int));
        }
        assert(spec_save_entries(self.plans@).take(self.plans@.len() as int) =~= spec_save_entries(
            self.plans@,
        ));
        (self.policy, self.next_plan_seq, entries)
    }

    /// Restores a book from saved parts: rebuilds the index of live plans and
    /// rejects inconsistent state explicitly. Several plans may share an
    /// account and stock, but at most one of them may be non-terminal. The
    /// entries come in ascending key order, as a map by id saves them.
    pub fn from_parts(policy: PlanPolicy, next_plan_seq: u64, entries: Vec<(PlanId, TradingPlan)>) -> (r:
        Result<PlanBook, PlanError>)
        ensures
            match r {
                Ok(book) => spec_from_parts_error(policy, next_plan_seq, entries@) is None && book.wf()
                    && book@.policy == policy && book@.next_plan_seq == next_plan_seq && book@.plans
                    == entry_plans(entries@, entries@.len() as int),
                Err(e) => spec_from_parts_error(policy, next_plan_seq, entries@) == Some(e),
            },
    {
        validate_policy(&policy)?;
        let mut plans: Vec<TradingPlan> = Vec::new();
        let mut active: Vec<PlanId> = Vec::new();
        let mut k: usize = 0;
        while k < entries.len()
            invariant
                k <= entries@.len(),
                spec_validate_policy(policy) is None,
                plans@ == entry_plans(entries@, k as int),
                first_entry_error(entries@, next_plan_seq, 0) == first_entry_error(
                    entries@,
                    next_plan_seq,
                    k as int,
                ),
                book_wf(PlanBookView { policy, next_plan_seq, plans: plans@, active: active@ }),
                k > 0 ==> forall|j: int|
                    0 <= j < plans@.len() ==> (#[trigger] plans@[j]).plan_id.0 <= entries@[k - 1].0.0,
            decreases entries@.len() - k,
        {
            proof {
                lemma_entry_plans_push(entries@, k as int);
            }
            let key = entries[k].0;
            let plan = entries[k].1.clone();
            if plan.plan_id != key {
                return Err(
                    PlanError::SaveInconsistent {
                        detail: SaveInconsistency::KeyMismatch { key, plan_id: plan.plan_id },
                    },
                );
            }
            if k > 0 && entries[k - 1].0.0 >= key.0 {
                return Err(PlanError::SaveInconsistent { detail: SaveInconsistency::KeysNotAscending { key } });
            }
            let price_ok = match plan.review.last_review_price {
                Some(price) => price.cents() > 0,
                None => true,
            };
            if !price_ok || plan.review.last_review_trading_day < plan.created_trading_day
                || plan.review.last_review_trading_day > plan.last_event_trading_day {
                return Err(
                    PlanError::SaveInconsistent {
                        detail: SaveInconsistency::InvalidReviewBaseline { plan_id: key },
                    },
                );
            }
            if key.0 >= next_plan_seq {
                return Err(
                    PlanError::SaveInconsistent {
                        detail: SaveInconsistency::IdNotBelowNextSeq { plan_id: key, next_plan_seq },
                    },
                );
            }
            let live = !plan.is_terminal();
            if live && find_active_in(&plans, plan.account, &plan.code).is_some() {
                return Err(
                    PlanError::SaveInconsistent {
                        detail: SaveInconsistency::TwoActivePlans {
                            account: plan.account,
                            code: plan.code,
                        },
                    },
                );
            }
            let ghost old_plans = plans@;
            let ghost old_active = active@;
            proof {
                assert(entry_error(entries@, next_plan_seq, k as int) is None);
                assert(plan_ok(plan));
            }
            plans.push(plan);
            if live {
                active.push(key);
            }
            k = k + 1;
            proof {
                let v = PlanBookView { policy, next_plan_seq, plans: plans@, active: active@ };
                let n = old_plans.len() as int;
                assert forall|a: int, b: int| 0 <= a < b < plans@.len() implies (#[trigger] plans@[a]).plan_id.0
                    < (#[trigger] plans@[b]).plan_id.0 by {
                    if b == n {
                        assert(old_plans[a].plan_id.0 <= entries@[n - 1].0.0);
                    } else {
                        assert(old_plans[a].plan_id.0 < old_plans[b].plan_id.0);
                    }
                }
                assert forall|j: int| 0 <= j < plans@.len() implies (#[trigger] plans@[j]).plan_id.0
                    < next_plan_seq by {
                    if j < n {
                        assert(old_plans[j].plan_id.0 < next_plan_seq);
                    }
                }
                assert forall|j: int| 0 <= j < plans@.len() implies plan_ok(#[trigger] plans@[j]) by {
                    if j < n {
                        assert(plan_ok(old_plans[j]));
                    }
                }
                assert forall|a: int, b: int|
                    0 <= a < plans@.len() && 0 <= b < plans@.len() && a != b && !spec_is_terminal(
                        (#[trigger] plans@[a]).status,
                    ) && !spec_is_terminal((#[trigger] plans@[b]).status) implies !same_key(
                    plans@[a],
                    plans@[b],
                ) by {
                    if a == n {
                        assert(old_plans[b] == plans@[b]);
                    } else if b == n {
                        assert(old_plans[a] == plans@[a]);
                    } else {
                        assert(old_plans[a] == plans@[a]);
                        assert(old_plans[b] == plans@[b]);
                    }
                }
                assert forall|a: int, b: int| 0 <= a < b < active@.len() implies (#[trigger] active@[a]).0
                    < (#[trigger] active@[b]).0 by {
                    if live && b == active@.len() - 1 {
                        assert(live_id(old_plans, old_active[a]));
                        let j = choose|j: int|
                            0 <= j < old_plans.len() && (#[trigger] old_plans[j]).plan_id
                                == old_active[a] && !spec_is_terminal(old_plans[j].status);
                        assert(old_plans[j].plan_id.0 <= entries@[n - 1].0.0);
                    } else {
                        assert(old_active[a].0 < old_active[b].0);
                    }
                }
                assert forall|q: int| 0 <= q < active@.len() implies live_id(plans@, #[trigger] active@[q]) by {
                    if live && q == active@.len() - 1 {
                        assert(plans@[n].plan_id == active@[q]);
                    } else {
                        assert(live_id(old_plans, old_active[q]));
                        let j = choose|j: int|
                            0 <= j < old_plans.len() && (#[trigger] old_plans[j]).plan_id
                                == old_active[q] && !spec_is_terminal(old_plans[j].status);
                        assert(plans@[j] == old_plans[j]);
                    }
                }
                assert forall|j: int|
                    0 <= j < plans@.len() && !spec_is_terminal((#[trigger] plans@[j]).status) implies active@.contains(
                    plans@[j].plan_id,
                ) by {
                    if j == n {
                        assert(active@[active@.len() - 1] == key);
                    } else {
                        assert(plans@[j] == old_plans[j]);
                        assert(old_active.contains(old_plans[j].plan_id));
                        let q = choose|q: int| 0 <= q < old_active.len() && old_active[q] == old_plans[j].plan_id;
                        assert(active@[q] == old_active[q]);
                    }
                }
                assert forall|j: int| 0 <= j < plans@.len() implies (#[trigger] plans@[j]).plan_id.0
                    <= entries@[k - 1].0.0 by {
                    if j < n {
                        assert(old_plans[j].plan_id.0 <= entries@[n - 1].0.0);
                        assert(entries@[n - 1].0.0 < entries@[n].0.0) by {
                            if n > 0 {
                            }
                        }
                    }
                }
                assert(book_wf(v));
            }
        }
        Ok(PlanBook { policy, next_plan_seq, plans, active })
    }
}

/// One event of a batch on the working plans. `touched` holds the positions
/// already staged by earlier events of the batch. A fact naming an unknown
/// plan, or a plan that was terminal before the batch, is invalid; a fact
/// after a completion earlier in the batch is consumed without a transition.
pub open spec fn batch_event(
    plans: Seq<TradingPlan>,
    touched: Set<int>,
    ev: (PlanId, PlanEvent),
    policy: PlanPolicy,
) -> Result<(Seq<TradingPlan>, Set<int>, Option<PlanStatus>), PlanError> {
    match plan_index(plans, ev.0) {
        None => Err(PlanError::UnknownPlan { plan_id: ev.0 }),
        Some(i) => if !touched.contains(i) && spec_is_terminal(plans[i].status) {
            Err(
                PlanError::InvalidTransition {
                    plan_id: ev.0,
                    from: plans[i].status,
                    event: "pending routed fact",
                },
            )
        } else if spec_is_terminal(plans[i].status) {
            Ok((plans, touched.insert(i), None))
        } else {
            match spec_step(plans[i], ev.1, policy).1 {
                Err(e) => Err(e),
                Ok(status) => Ok(
                    (
                        plans.update(i, spec_step(plans[i], ev.1, policy).0),
                        touched.insert(i),
                        Some(status),
                    ),
                ),
            }
        },
    }
}

/// The first `n` events of a batch applied in order to the working plans.
pub open spec fn batch_prefix(
    plans: Seq<TradingPlan>,
    events: Seq<(PlanId, PlanEvent)>,
    n: int,
    policy: PlanPolicy,
) -> Result<(Seq<TradingPlan>, Set<int>, Seq<Option<PlanStatus>>), PlanError>
    decreases n,
{
    if n <= 0 {
        Ok((plans, Set::empty(), Seq::empty()))
    } else {
        match batch_prefix(plans, events, n - 1, policy) {
            Err(e) => Err(e),
            Ok(state) => match batch_event(state.0, state.1, events[n - 1], policy) {
                Err(e) => Err(e),
                Ok(next) => Ok((next.0, next.1, state.2.push(next.2))),
            },
        }
    }
}

impl PlanBook {
    /// Records the facts actually observed by one plan; never reserves assets.
    pub fn record_review(&mut self, plan_id: PlanId, trading_day: u64, price: Money, acquired_count: u32) -> (r:
        Result<(), PlanError>)
        requires
            old(self).wf(),
            named_plan_fits(old(self)@.plans, plan_id),
        ensures
            final(self).wf(),
            final(self)@.policy == old(self)@.policy,
            final(self)@.next_plan_seq == old(self)@.next_plan_seq,
            final(self)@.active == old(self)@.active,
            match plan_index(old(self)@.plans, plan_id) {
                None => r == Err::<(), PlanError>(PlanError::UnknownPlan { plan_id }) && final(self)@
                    == old(self)@,
                Some(i) => r == spec_review(old(self)@.plans[i], trading_day, price, acquired_count).1
                    && final(self)@.plans == old(self)@.plans.update(
                    i,
                    spec_review(old(self)@.plans[i], trading_day, price, acquired_count).0,
                ),
            },
    {
        let i = match self.find_index(plan_id) {
            Some(i) => i,
            None => {
                return Err(PlanError::UnknownPlan { plan_id });
            },
        };
        let ghost v = self@;
        proof {
            assert(exists|j: int| 0 <= j < v.plans.len() && (#[trigger] v.plans[j]).plan_id == plan_id);
            let c = choose|j: int| 0 <= j < v.plans.len() && (#[trigger] v.plans[j]).plan_id == plan_id;
            if c != i {
                if c < i {
                    assert(v.plans[c].plan_id.0 < v.plans[i as int].plan_id.0);
                } else {
                    assert(v.plans[i as int].plan_id.0 < v.plans[c].plan_id.0);
                }
            }
            assert(plan_ok(v.plans[i as int]));
        }
        let mut plan = self.plans[i].clone();
        plan.ensure_event_allowed("review", trading_day, false)?;
        if price.cents() <= 0 {
            return Err(
                PlanError::SaveInconsistent {
                    detail: SaveInconsistency::NonPositiveReviewPrice { plan_id: plan.plan_id },
                },
            );
        }
        plan.review.last_review_trading_day = trading_day;
        plan.review.last_review_price = Some(price);
        plan.review.last_review_acquired_count = acquired_count;
        plan.last_event_trading_day = trading_day;
        proof {
            assert(plan == spec_review(v.plans[i as int], trading_day, price, acquired_count).0);
            assert(evolved(v.plans[i as int], plan));
            lemma_update_keeps_book(v, i as int, plan);
        }
        self.plans.set(i, plan);
        Ok(())
    }

    /// Applies a batch of routed facts atomically. Only the plans touched by
    /// the batch are staged; a failed transition publishes none of them.
    pub fn apply_active_events_atomically(&mut self, events: &Vec<(PlanId, PlanEvent)>) -> (r: Result<
        Vec<Option<PlanStatus>>,
        PlanError,
    >)
        requires
            old(self).wf(),
            forall|e: int| 0 <= e < events@.len() ==> named_plan_fits(old(self)@.plans, #[trigger] events@[e].0),
        ensures
            final(self).wf(),
            final(self)@.policy == old(self)@.policy,
            final(self)@.next_plan_seq == old(self)@.next_plan_seq,
            match batch_prefix(old(self)@.plans, events@, events@.len() as int, old(self)@.policy) {
                Err(e) => r == Err::<Vec<Option<PlanStatus>>, PlanError>(e) && final(self)@ == old(self)@,
                Ok(state) => r is Ok && r->Ok_0@ == state.2 && final(self)@.plans == state.0,
            },
    {
        let ghost v = self@;
        let mut staged: Vec<(usize, TradingPlan)> = Vec::new();
        let mut outcomes: Vec<Option<PlanStatus>> = Vec::new();
        let ghost mut work: Seq<TradingPlan> = v.plans;
        let ghost mut touched: Set<int> = Set::empty();
        let mut k: usize = 0;
        while k < events.len()
            invariant
                self@ == v,
                book_wf(v),
                k <= events@.len(),
                work.len() == v.plans.len(),
                batch_prefix(v.plans, events@, k as int, v.policy) == Ok::<
                    (Seq<TradingPlan>, Set<int>, Seq<Option<PlanStatus>>),
                    PlanError,
                >((work, touched, outcomes@)),
                forall|a: int, b: int|
                    0 <= a < b < staged@.len() ==> (#[trigger] staged@[a]).0 != (#[trigger] staged@[b]).0,
                forall|a: int| 0 <= a < staged@.len() ==> (#[trigger] staged@[a]).0 < v.plans.len(),
                forall|a: int| 0 <= a < staged@.len() ==> work[(#[trigger] staged@[a]).0 as int] == staged@[a].1,
                forall|j: int| touched.contains(j) <==> exists|a: int| 0 <= a < staged@.len() && (#[trigger] staged@[a]).0 == j,
                forall|j: int| 0 <= j < work.len() && !touched.contains(j) ==> work[j] == v.plans[j],
                forall|j: int| 0 <= j < work.len() ==> evolved(v.plans[j], #[trigger] work[j]),
                forall|e: int| 0 <= e < events@.len() ==> named_plan_fits(v.plans, #[trigger] events@[e].0),
            decreases events@.len() - k,
        {
            let plan_id = events[k].0;
            let event = events[k].1;
            let i = match self.find_index(plan_id) {
                Some(i) => i,
                None => {
                    proof {
                        assert forall|j: int| 0 <= j < work.len() implies (#[trigger] work[j]).plan_id != plan_id by {
                            assert(evolved(v.plans[j], work[j]));
                        }
                        assert(plan_index(work, plan_id) is None);
                        assert(batch_prefix(v.plans, events@, k + 1, v.policy) == Err::<
                            (Seq<TradingPlan>, Set<int>, Seq<Option<PlanStatus>>),
                            PlanError,
                        >(PlanError::UnknownPlan { plan_id }));
                        lemma_batch_err_sticks(v.plans, events@, k + 1, events@.len() as int, v.policy);
                    }
                    return Err(PlanError::UnknownPlan { plan_id });
                },
            };
            proof {
                assert(evolved(v.plans[i as int], work[i as int]));
                assert(work[i as int].plan_id == plan_id);
                assert(exists|j: int| 0 <= j < work.len() && (#[trigger] work[j]).plan_id == plan_id);
                let c = choose|j: int| 0 <= j < work.len() && (#[trigger] work[j]).plan_id == plan_id;
                assert(evolved(v.plans[c], work[c]));
                if c != i {
                    if c < i {
                        assert(v.plans[c].plan_id.0 < v.plans[i as int].plan_id.0);
                    } else {
                        assert(v.plans[i as int].plan_id.0 < v.plans[c].plan_id.0);
                    }
                }
                assert(plan_index(work, plan_id) == Some(i as int));
                assert(v.plans[i as int].plan_id == plan_id);
                assert(plan_index(v.plans, plan_id) == Some(i as int)) by {
                    let c2 = choose|j: int| 0 <= j < v.plans.len() && (#[trigger] v.plans[j]).plan_id == plan_id;
                    if c2 != i {
                        if c2 < i {
                            assert(v.plans[c2].plan_id.0 < v.plans[i as int].plan_id.0);
                        } else {
                            assert(v.plans[i as int].plan_id.0 < v.plans[c2].plan_id.0);
                        }
                    }
                }
                assert(named_plan_fits(v.plans, events@[k as int].0));
                assert(plan_days_fit(v.plans[i as int]));
            }
            let found_at = find_staged(&staged, i);
            let found = found_at.is_some();
            let mut s: usize = match found_at {
                Some(x) => x,
                None => 0,
            };
            let ghost staged_before = staged@;
            if !found {
                proof {
                    assert(!touched.contains(i as int)) by {
                        if touched.contains(i as int) {
                            let a = choose|a: int| 0 <= a < staged@.len() && (#[trigger] staged@[a]).0 == i as int;
                            assert(staged@[a].0 != i);
                        }
                    }
                    assert(work[i as int] == v.plans[i as int]);
                }
                if self.plans[i].is_terminal() {
                    let from = self.plans[i].status;
                    proof {
                        assert(batch_prefix(v.plans, events@, k + 1, v.policy) == Err::<
                            (Seq<TradingPlan>, Set<int>, Seq<Option<PlanStatus>>),
                            PlanError,
                        >(PlanError::InvalidTransition { plan_id, from, event: "pending routed fact" }));
                        lemma_batch_err_sticks(v.plans, events@, k + 1, events@.len() as int, v.policy);
                    }
                    return Err(PlanError::InvalidTransition { plan_id, from, event: "pending routed fact" });
                }
                staged.push((i, self.plans[i].clone()));
                s = staged.len() - 1;
            }
            let mut plan = staged[s].1.clone();
            proof {
                assert(staged@[s as int].0 == i);
                assert(work[i as int] == plan);
            }
            if plan.is_terminal() {
                outcomes.push(None);
            } else {
                proof {
                    assert(plan_ok(v.plans[i as int]));
                    assert(plan_ok(plan));
                }
                let step = Self::apply_to_plan(&mut plan, event, &self.policy);
                match step {
                    Err(e) => {
                        proof {
                            lemma_batch_err_sticks(v.plans, events@, k + 1, events@.len() as int, v.policy);
                        }
                        return Err(e);
                    },
                    Ok(status) => {
                        proof {
                            lemma_step_evolves(work[i as int], event, v.policy);
                            lemma_evolved_trans(v.plans[i as int], work[i as int], plan);
                            work = work.update(i as int, plan);
                        }
                        staged.set(s, (i, plan));
                        outcomes.push(Some(status));
                    },
                }
            }
            proof {
                assert(staged@[s as int].0 == i);
                assert forall|j: int| touched.insert(i as int).contains(j) <==> exists|a: int|
                    0 <= a < staged@.len() && (#[trigger] staged@[a]).0 == j by {
                    if touched.insert(i as int).contains(j) {
                        if j == i as int {
                            assert(staged@[s as int].0 == j);
                        } else {
                            assert(touched.contains(j));
                            let a = choose|a: int| 0 <= a < staged_before.len() && (#[trigger] staged_before[a]).0 == j;
                            assert(staged@[a] == staged_before[a]);
                        }
                    }
                    if exists|a: int| 0 <= a < staged@.len() && (#[trigger] staged@[a]).0 == j {
                        let a = choose|a: int| 0 <= a < staged@.len() && (#[trigger] staged@[a]).0 == j;
                        if a < staged_before.len() && j != i as int {
                            assert(staged_before[a].0 == staged@[a].0);
                            assert(touched.contains(j));
                        }
                    }
                }
                touched = touched.insert(i as int);
            }
            k = k + 1;
        }
        let mut t: usize = 0;
        while t < staged.len()
            invariant
                self.wf(),
                self@.policy == v.policy,
                self@.next_plan_seq == v.next_plan_seq,
                t <= staged@.len(),
                work.len() == v.plans.len(),
                self@.plans.len() == v.plans.len(),
                forall|a: int, b: int|
                    0 <= a < b < staged@.len() ==> (#[trigger] staged@[a]).0 != (#[trigger] staged@[b]).0,
                forall|a: int| 0 <= a < staged@.len() ==> (#[trigger] staged@[a]).0 < v.plans.len(),
                forall|a: int| 0 <= a < staged@.len() ==> work[(#[trigger] staged@[a]).0 as int] == staged@[a].1,
                forall|j: int| touched.contains(j) <==> exists|a: int| 0 <= a < staged@.len() && (#[trigger] staged@[a]).0 == j,
                forall|j: int| 0 <= j < work.len() && !touched.contains(j) ==> work[j] == v.plans[j],
                forall|j: int| 0 <= j < work.len() ==> evolved(v.plans[j], #[trigger] work[j]),
                forall|j: int|
                    0 <= j < work.len() ==> (#[trigger] self@.plans[j]) == (if exists|a: int|
                        0 <= a < t && (#[trigger] staged@[a]).0 == j {
                        work[j]
                    } else {
                        v.plans[j]
                    }),
            decreases staged@.len() - t,
        {
            let i = staged[t].0;
            let plan = staged[t].1.clone();
            proof {
                let j = i as int;
                assert(!(exists|a: int| 0 <= a < t && (#[trigger] staged@[a]).0 == j)) by {
                    if exists|a: int| 0 <= a < t && (#[trigger] staged@[a]).0 == j {
                        let a = choose|a: int| 0 <= a < t && (#[trigger] staged@[a]).0 == j;
                        assert(staged@[a].0 != staged@[t as int].0);
                    }
                }
                assert(self@.plans[j] == v.plans[j]);
                assert(evolved(v.plans[j], work[j]));
            }
            let ghost before = self@.plans;
            self.store_plan(i, plan);
            t = t + 1;
            proof {
                assert forall|j: int| 0 <= j < work.len() implies (#[trigger] self@.plans[j]) == (if exists|a: int|
                    0 <= a < t && (#[trigger] staged@[a]).0 == j {
                    work[j]
                } else {
                    v.plans[j]
                }) by {
                    if j == i as int {
                        assert(staged@[t - 1].0 == j);
                    } else {
                        assert(self@.plans[j] == before[j]);
                        if exists|a: int| 0 <= a < t && (#[trigger] staged@[a]).0 == j {
                            let a = choose|a: int| 0 <= a < t && (#[trigger] staged@[a]).0 == j;
                            assert(a != t - 1);
                        }
                    }
                }
            }
        }
        proof {
            assert(self@.plans =~= work) by {
                assert forall|j: int| 0 <= j < work.len() implies self@.plans[j] == work[j] by {
                    if exists|a: int| 0 <= a < staged@.len() && (#[trigger] staged@[a]).0 == j {
                    } else {
                        assert(!touched.contains(j));
                    }
                }
            }
        }
        Ok(outcomes)
    }
}

/// Position of a staged entry for plan position `i`.
fn find_staged(staged: &Vec<(usize, TradingPlan)>, i: usize) -> (r: Option<usize>)
    ensures
        match r {
            Some(s) => s < staged@.len() && staged@[s as int].0 == i,
            None => forall|a: int| 0 <= a < staged@.len() ==> (#[trigger] staged@[a]).0 != i,
        },
{
    let mut s: usize = 0;
    while s < staged.len()
        invariant
            s <= staged@.len(),
            forall|a: int| 0 <= a < s ==> (#[trigger] staged@[a]).0 != i,
        decreases staged@.len() - s,
    {
        if staged[s].0 == i {
            return Some(s);
        }
        s = s + 1;
    }
    None
}

/// Once a batch prefix fails, every longer prefix fails the same way.
proof fn lemma_batch_err_sticks(
    plans: Seq<TradingPlan>,
    events: Seq<(PlanId, PlanEvent)>,
    n: int,
    m: int,
    policy: PlanPolicy,
)
    requires
        0 <= n <= m,
        batch_prefix(plans, events, n, policy) is Err,
    ensures
        batch_prefix(plans, events, m, policy) == batch_prefix(plans, events, n, policy),
    decreases m - n,
{
    if n < m {
        lemma_batch_err_sticks(plans, events, n, m - 1, policy);
    }
}

/// Account ids strictly increasing.
pub open spec fn accounts_increasing(s: Seq<AccountId>) -> bool {
    forall|i: int, j: int| 0 <= i < j < s.len() ==> (#[trigger] s[i]).0 < (#[trigger] s[j]).0
}

/// Some non-terminal plan of the book belongs to this account.
pub open spec fn has_active_account(plans: Seq<TradingPlan>, account: AccountId) -> bool {
    exists|i: int| 0 <= i < plans.len() && !spec_is_terminal((#[trigger] plans[i]).status) && plans[i].account == account
}

/// Adds an account to a strictly increasing list unless it is there.
fn insert_account(v: &mut Vec<AccountId>, a: AccountId)
    requires
        accounts_increasing(old(v)@),
    ensures
        accounts_increasing(final(v)@),
        forall|x: AccountId| #[trigger] final(v)@.contains(x) <==> (old(v)@.contains(x) || x == a),
{
    let mut p: usize = 0;
    while p < v.len() && v[p].0 < a.0
        invariant
            0 <= p <= v@.len(),
            accounts_increasing(v@),
            v@ == old(v)@,
            forall|i: int| 0 <= i < p ==> (#[trigger] v@[i]).0 < a.0,
        decreases v@.len() - p,
    {
        p += 1;
    }
    if p < v.len() && v[p].0 == a.0 {
        assert(v@[p as int] == a);
        return ;
    }
    let ghost before = v@;
    v.insert(p, a);
    proof {
        let after = v@;
        assert(after =~= before.insert(p as int, a));
        assert forall|x: AccountId| #[trigger] after.contains(x) <==> (before.contains(x) || x == a) by {
            if before.contains(x) {
                let k = choose|k: int| 0 <= k < before.len() && before[k] == x;
                if k < p {
                    assert(after[k] == x);
                } else {
                    assert(after[k + 1] == x);
                }
            }
            if x == a {
                assert(after[p as int] == x);
            }
            if after.contains(x) {
                let k = choose|k: int| 0 <= k < after.len() && after[k] == x;
                if k < p {
                    assert(before[k] == x);
                } else if k > p {
                    assert(before[k - 1] == x);
                }
            }
        }
    }
}

impl PlanBook {
    /// The stocks on which an account has a live plan, in code order.
    pub fn active_codes(&self, account: AccountId) -> (codes: Vec<StockCode>)
        ensures
            sorted_codes(codes@),
            forall|x: Seq<char>| #[trigger] has_code(codes@, x) <==> has_active_key(self@.plans, account, x),
    {
        let mut out: Vec<StockCode> = Vec::new();
        let mut i: usize = 0;
        while i < self.plans.len()
            invariant
                0 <= i <= self.plans@.len(),
                sorted_codes(out@),
                forall|x: Seq<char>| #[trigger]
                    has_code(out@, x) <==> has_active_key(self.plans@.take(i as int), account, x),
            decreases self.plans@.len() - i,
        {
            let p = &self.plans[i];
            let ghost prev = out@;
            if p.account == account && !p.is_terminal() {
                insert_code(&mut out, &p.code);
            }
            proof {
                let t = self.plans@.take(i + 1);
                let u = self.plans@.take(i as int);
                assert forall|x: Seq<char>| #[trigger]
                    has_code(out@, x) <==> has_active_key(t, account, x) by {
                    if has_active_key(u, account, x) {
                        let k = choose|k: int|
                            0 <= k < u.len() && !spec_is_terminal((#[trigger] u[k]).status) && u[k].account
                                == account && u[k].code@ == x;
                        assert(t[k] == u[k]);
                    }
                    if has_active_key(t, account, x) {
                        let k = choose|k: int|
                            0 <= k < t.len() && !spec_is_terminal((#[trigger] t[k]).status) && t[k].account
                                == account && t[k].code@ == x;
                        if k < i {
                            assert(u[k] == t[k]);
                        }
                    }
                    if t[i as int].account == account && !spec_is_terminal(t[i as int].status) && t[i as int].code@ == x {
                        assert(t[i as int] == self.plans@[i as int]);
                    }
                    assert(has_code(prev, x) == has_active_key(u, account, x));
                }
            }
            i += 1;
        }
        assert(self.plans@.take(self.plans@.len() as int) =~= self.plans@);
        out
    }

    /// The accounts that have a live plan, in increasing id order.
    pub fn active_accounts(&self) -> (accounts: Vec<AccountId>)
        ensures
            accounts_increasing(accounts@),
            forall|a: AccountId| #[trigger] accounts@.contains(a) <==> has_active_account(self@.plans, a),
    {
        let mut out: Vec<AccountId> = Vec::new();
        let mut i: usize = 0;
        while i < self.plans.len()
            invariant
                0 <= i <= self.plans@.len(),
                accounts_increasing(out@),
                forall|a: AccountId| #[trigger] out@.contains(a) <==> has_active_account(self.plans@.take(i as int), a),
            decreases self.plans@.len() - i,
        {
            let p = &self.plans[i];
            let ghost prev = out@;
            if !p.is_terminal() {
                insert_account(&mut out, p.account);
            }
            proof {
                let t = self.plans@.take(i + 1);
                let u = self.plans@.take(i as int);
                assert forall|a: AccountId| #[trigger] out@.contains(a) <==> has_active_account(t, a) by {
                    if has_active_account(u, a) {
                        let k = choose|k: int|
                            0 <= k < u.len() && !spec_is_terminal((#[trigger] u[k]).status) && u[k].account == a;
                        assert(t[k] == u[k]);
                    }
                    if has_active_account(t, a) {
                        let k = choose|k: int|
                            0 <= k < t.len() && !spec_is_terminal((#[trigger] t[k]).status) && t[k].account == a;
                        if k < i {
                            assert(u[k] == t[k]);
                        }
                    }
                    if t[i as int].account == a && !spec_is_terminal(t[i as int].status) {
                        assert(t[i as int] == self.plans@[i as int]);
                    }
                    assert(prev.contains(a) == has_active_account(u, a));
                }
            }
            i += 1;
        }
        assert(self.plans@.take(self.plans@.len() as int) =~= self.plans@);
        out
    }
}


/// The view of a book after it opened a plan with `open` (see [`PlanBook::create`]).
pub open spec fn created_view(v: PlanBookView, open: PlanOpen) -> PlanBookView {
    PlanBookView {
        next_plan_seq: (v.next_plan_seq + 1) as u64,
        plans: v.plans.push(spec_plan_from_open(PlanId(v.next_plan_seq), open, v.policy)),
        active: v.active.push(PlanId(v.next_plan_seq)),
        ..v
    }
}

/// Plan ids are never reused: the id a create returns, the book's next id,
/// is above every plan the book holds; events and reviews leave the next id
/// as it is; so a later create returns a larger id.
pub proof fn law_later_creates_get_larger_ids(v: PlanBookView, first: PlanOpen, second: PlanOpen)
    requires
        book_wf(v),
        spec_create_error(v, first) is None,
        spec_create_error(created_view(v, first), second) is None,
    ensures
        forall|i: int| 0 <= i < v.plans.len() ==> (#[trigger] v.plans[i]).plan_id.0 < v.next_plan_seq,
        created_view(v, first).next_plan_seq > v.next_plan_seq,
        PlanId(created_view(v, first).next_plan_seq).0 > PlanId(v.next_plan_seq).0,
{
}

/// A successful event on a plan returns the plan's new status, leaves every
/// other plan as it was, and the plan is in the index of live plans exactly
/// when that status is not terminal.
pub proof fn law_applied_status_and_active_index(v: PlanBookView, w: PlanBookView, plan_id: PlanId, event: PlanEvent)
    requires
        book_wf(v),
        book_wf(w),
        plan_index(v.plans, plan_id) is Some,
        w.plans == v.plans.update(
            plan_index(v.plans, plan_id)->Some_0,
            spec_step(v.plans[plan_index(v.plans, plan_id)->Some_0], event, v.policy).0,
        ),
        spec_step(v.plans[plan_index(v.plans, plan_id)->Some_0], event, v.policy).1 is Ok,
        named_plan_fits(v.plans, plan_id),
    ensures
        ({
            let i = plan_index(v.plans, plan_id)->Some_0;
            &&& spec_step(v.plans[i], event, v.policy).1 == Ok::<PlanStatus, PlanError>(w.plans[i].status)
            &&& w.plans[i].plan_id == plan_id
            &&& forall|j: int| 0 <= j < v.plans.len() && j != i ==> #[trigger] w.plans[j] == v.plans[j]
            &&& w.active.contains(plan_id) <==> !spec_is_terminal(w.plans[i].status)
        }),
{
    let i = plan_index(v.plans, plan_id)->Some_0;
    assert(v.plans[i].plan_id == plan_id);
    assert(plan_ok(v.plans[i]));
    lemma_step_frame(v.plans[i], event, v.policy);
    assert(w.plans[i].plan_id == plan_id);
    if w.active.contains(plan_id) {
        let k = choose|k: int| 0 <= k < w.active.len() && w.active[k] == plan_id;
        assert(live_id(w.plans, w.active[k]));
        let m = choose|m: int| 0 <= m < w.plans.len() && (#[trigger] w.plans[m]).plan_id == plan_id && !spec_is_terminal(
            w.plans[m].status,
        );
        if m != i {
            if m < i {
                assert(w.plans[m].plan_id.0 < w.plans[i].plan_id.0);
            } else {
                assert(w.plans[i].plan_id.0 < w.plans[m].plan_id.0);
            }
        }
    }
}

} // verus!
