use trade_engine::ids::{AccountId, Money, MoneyError, OrderId, PlanId, Side, StockCode};
use trade_engine::plans::allocation::{AllocationClass, AllocationExperience, AllocationRequest};
use trade_engine::plans::targets::root_candidate_codes;
use trade_engine::session::execution::ParentOrderPlan;
use trade_engine::plans::state::PlanStatus;
use trade_engine::session::decision_chain::plan_allocation_request;
use trade_engine::plans::book::{PlanBook, PlanEvent};
use trade_engine::plans::candidates::SignalScore;
use trade_engine::plans::revision::{PlanRevision, RevisionReason};
use trade_engine::plans::state::{
    OpinionSource, PlanOpen, PlanOpinion, PlanTarget, TerminationReason, Urgency,
};
use trade_engine::session::events::TradingPhase;
use trade_engine::session::plan_lifecycle::{
    apply_plan_lifecycle_actions, land_restructure, plan_lifecycle_action, plan_requires_review, BeliefEntryFacts, CandidateFacts, LinkedChild, PlanLifecycleAction,
};

fn facts(score_bp: Option<i32>, held_qty: u32) -> CandidateFacts {
    CandidateFacts {
        account: AccountId(7),
        code: StockCode("600101".to_owned()),
        trading_day: 0,
        lot_size: 100,
        equity: Money::from_cents(100_000_000),
        last_price: Money::from_cents(1_000),
        held_qty,
        score: score_bp.map(|v| SignalScore::new(v).unwrap()),
        fundamental_ready: true,
        max_fraction_bp: 2_000,
        max_holdable_shares: 1_000_000,
        belief_entry: Some(BeliefEntryFacts {
            confidence_bp: 7_000,
            horizon_trading_days: 5,
        }),
        fundamental_weight_positive: true,
        active_trader: false,
        phase: TradingPhase::Continuous,
        reverse_threshold_bp: 3_000,
        linked_child: None,
        child_cancellable_now: true,
    }
}

fn opinion(score_bp: i32) -> PlanOpinion {
    PlanOpinion {
        signal_score_bp: score_bp,
        source: OpinionSource::Blended,
    }
}

fn buy_open(target: u32) -> PlanOpen {
    PlanOpen {
        account: AccountId(7),
        code: StockCode("600101".to_owned()),
        direction: Side::Buy,
        target: PlanTarget::ShareCount(target),
        opinion: opinion(4_000),
        confidence_bp: 7_000,
        urgency: Urgency::Normal,
        horizon_trading_days: 5,
        created_trading_day: 0,
    }
}

fn book_with_buy_plan(target: u32) -> (PlanBook, PlanId) {
    let mut plans = PlanBook::default_book();
    let id = plans.create(buy_open(target)).unwrap();
    (plans, id)
}

fn revision(direction: Side, target: u32, score_bp: i32, below: Option<TerminationReason>) -> PlanRevision {
    PlanRevision {
        reason: RevisionReason::SignalShift,
        trading_day: 0,
        direction,
        target: PlanTarget::ShareCount(target),
        opinion: opinion(score_bp),
        confidence_bp: 7_000,
        urgency: Urgency::Normal,
        below_filled_rationale: below,
    }
}

#[test]
fn a_positive_score_opens_a_whole_lot_buy_plan() {
    // weight 0 + 4000 * 2000 / 40000 = 200 bp of 1,000,000 yuan at 10 yuan: 2000 shares.
    let action = plan_lifecycle_action(&facts(Some(4_000), 0), None);
    assert_eq!(
        action,
        Some(PlanLifecycleAction::Create {
            open: buy_open(2_000)
        })
    );
}

#[test]
fn no_plan_opens_without_positive_equity_or_a_ready_score() {
    let mut broke = facts(Some(4_000), 0);
    broke.equity = Money::from_cents(0);
    assert_eq!(plan_lifecycle_action(&broke, None), None);
    assert_eq!(plan_lifecycle_action(&facts(None, 0), None), None);
    let mut unready = facts(Some(4_000), 0);
    unready.fundamental_ready = false;
    assert_eq!(plan_lifecycle_action(&unready, None), None);
    assert_eq!(plan_lifecycle_action(&facts(Some(0), 0), None), None);
}

#[test]
fn a_new_plan_needs_a_belief_when_fundamentals_weigh_in() {
    let mut no_belief = facts(Some(4_000), 0);
    no_belief.belief_entry = None;
    assert_eq!(plan_lifecycle_action(&no_belief, None), None);
}

#[test]
fn an_intraday_trader_opens_one_day_plans_only_in_continuous_trading() {
    let mut trader = facts(Some(4_000), 0);
    trader.active_trader = true;
    trader.phase = TradingPhase::CallAuction;
    assert_eq!(plan_lifecycle_action(&trader, None), None);
    trader.phase = TradingPhase::Continuous;
    let mut open = buy_open(2_000);
    open.horizon_trading_days = 1;
    assert_eq!(
        plan_lifecycle_action(&trader, None),
        Some(PlanLifecycleAction::Create { open })
    );
}

#[test]
fn an_unchanged_view_only_observes_the_plan() {
    let (plans, id) = book_with_buy_plan(2_000);
    let plan = plans.plan(id).unwrap();
    assert_eq!(
        plan_lifecycle_action(&facts(Some(4_000), 0), Some(plan)),
        Some(PlanLifecycleAction::Observe {
            plan_id: id,
            trading_day: 0
        })
    );
}

#[test]
fn a_stronger_score_revises_the_target() {
    // 8000 * 2000 / 40000 = 400 bp: 4000 shares.
    let (plans, id) = book_with_buy_plan(2_000);
    let plan = plans.plan(id).unwrap();
    assert_eq!(
        plan_lifecycle_action(&facts(Some(8_000), 0), Some(plan)),
        Some(PlanLifecycleAction::Revise {
            plan_id: id,
            revision: revision(Side::Buy, 4_000, 8_000, None)
        })
    );
}

#[test]
fn a_flip_across_the_threshold_restructures_after_cancelling_the_child() {
    // Holding 3000 shares (300 bp); -4000 moves the weight to 100 bp: sell 2000.
    let (plans, id) = book_with_buy_plan(2_000);
    let plan = plans.plan(id).unwrap();
    let mut f = facts(Some(-4_000), 3_000);
    f.linked_child = Some(LinkedChild {
        order_id: Some(OrderId(9)),
        remaining_qty: Some(100),
    });
    assert_eq!(
        plan_lifecycle_action(&f, Some(plan)),
        Some(PlanLifecycleAction::Restructure {
            account: AccountId(7),
            plan_id: id,
            code: StockCode("600101".to_owned()),
            child_order_id: Some(OrderId(9)),
            terminating: false,
            revision: revision(Side::Sell, 2_000, -4_000, None),
        })
    );
    f.child_cancellable_now = false;
    assert_eq!(
        plan_lifecycle_action(&f, Some(plan)),
        Some(PlanLifecycleAction::Observe {
            plan_id: id,
            trading_day: 0
        })
    );
}

#[test]
fn a_flip_short_of_the_threshold_only_observes() {
    let (plans, id) = book_with_buy_plan(2_000);
    let plan = plans.plan(id).unwrap();
    let mut f = facts(Some(-4_000), 3_000);
    f.reverse_threshold_bp = 5_000;
    assert_eq!(
        plan_lifecycle_action(&f, Some(plan)),
        Some(PlanLifecycleAction::Observe {
            plan_id: id,
            trading_day: 0
        })
    );
}

#[test]
fn a_target_below_the_filled_quantity_terminates_the_leg() {
    // 1000 filled and held (100 bp); +400 moves the weight to 120 bp: 1200 shares, 200 more.
    let (mut plans, id) = book_with_buy_plan(2_000);
    plans
        .apply(
            id,
            PlanEvent::ChildOrderAccepted {
                order_id: OrderId(1),
                trading_day: 0,
            },
        )
        .unwrap();
    plans
        .apply(
            id,
            PlanEvent::ChildOrderFilled {
                order_id: OrderId(1),
                qty: 1_000,
                child_complete: true,
                trading_day: 0,
            },
        )
        .unwrap();
    let plan = plans.plan(id).unwrap();
    assert_eq!(
        plan_lifecycle_action(&facts(Some(400), 1_000), Some(plan)),
        Some(PlanLifecycleAction::Restructure {
            account: AccountId(7),
            plan_id: id,
            code: StockCode("600101".to_owned()),
            child_order_id: None,
            terminating: true,
            revision: revision(Side::Buy, 200, 400, Some(TerminationReason::Cancelled)),
        })
    );
}

#[test]
fn an_expired_plan_gets_no_action() {
    let (plans, id) = book_with_buy_plan(2_000);
    let plan = plans.plan(id).unwrap();
    let mut f = facts(Some(8_000), 0);
    f.trading_day = 5;
    assert_eq!(plan_lifecycle_action(&f, Some(plan)), None);
}

#[test]
fn applying_actions_opens_reviews_revises_and_hands_on_restructures() {
    let mut plans = PlanBook::default_book();
    let created = plan_lifecycle_action(&facts(Some(4_000), 0), None).unwrap();
    let restructures = apply_plan_lifecycle_actions(
        vec![created],
        &vec![(Money::from_cents(1_000), 2)],
        0,
        &mut plans,
    );
    assert!(restructures.is_empty());
    let id = PlanId(0);
    let plan = plans.plan(id).unwrap();
    assert_eq!(plan.target, PlanTarget::ShareCount(2_000));
    assert_eq!(plan.review.last_review_price, Some(Money::from_cents(1_000)));
    assert_eq!(plan.review.last_review_acquired_count, 2);

    let revise = plan_lifecycle_action(&facts(Some(8_000), 0), Some(plan)).unwrap();
    let restructure = PlanLifecycleAction::Restructure {
        account: AccountId(7),
        plan_id: id,
        code: StockCode("600101".to_owned()),
        child_order_id: None,
        terminating: false,
        revision: revision(Side::Sell, 2_000, -4_000, None),
    };
    let restructures = apply_plan_lifecycle_actions(
        vec![revise, restructure.clone()],
        &vec![(Money::from_cents(1_100), 3), (Money::from_cents(1_200), 4)],
        0,
        &mut plans,
    );
    assert_eq!(restructures, vec![restructure]);
    let plan = plans.plan(id).unwrap();
    assert_eq!(plan.target, PlanTarget::ShareCount(4_000));
    assert_eq!(plan.opinion, opinion(8_000));
    assert_eq!(plan.review.last_review_price, Some(Money::from_cents(1_200)));
    assert_eq!(plan.review.last_review_acquired_count, 4);
    assert_eq!(plans.active_plan_ids(), vec![id]);
    // The same view asks for nothing more once the revision is in the book.
    assert_eq!(
        plan_lifecycle_action(&facts(Some(8_000), 0), Some(plan)),
        Some(PlanLifecycleAction::Observe {
            plan_id: id,
            trading_day: 0
        })
    );
}

#[test]
fn a_plan_is_reviewed_on_a_price_move_or_new_publications() {
    let (mut plans, id) = book_with_buy_plan(2_000);
    assert!(plan_requires_review(plans.plan(id).unwrap(), 0, Some(Money::from_cents(1_000)), 0));
    assert!(!plan_requires_review(plans.plan(id).unwrap(), 0, None, 0));
    plans.record_review(id, 0, Money::from_cents(1_000), 2).unwrap();
    let plan = plans.plan(id).unwrap();
    // 19 cents on 1000 is 190 bp, under the 200 bp minimum; 20 cents reaches it.
    assert!(!plan_requires_review(plan, 1, Some(Money::from_cents(1_019)), 2));
    assert!(!plan_requires_review(plan, 1, Some(Money::from_cents(981)), 2));
    assert!(plan_requires_review(plan, 1, Some(Money::from_cents(1_020)), 2));
    assert!(plan_requires_review(plan, 1, Some(Money::from_cents(980)), 2));
    assert!(plan_requires_review(plan, 1, Some(Money::from_cents(1_000)), 3));
    // Past the horizon (days 0..=4) nothing is due.
    assert!(!plan_requires_review(plan, 5, Some(Money::from_cents(2_000)), 9));
}

fn commission(m: Money) -> Result<Money, MoneyError> {
    Ok(Money::from_cents((m.cents() * 3 / 10_000).max(500)))
}

fn transfer_fee(m: Money) -> Result<Money, MoneyError> {
    Ok(Money::from_cents(m.cents() / 100_000))
}

#[test]
fn an_active_plan_asks_a_budget_for_its_next_child_only() {
    let (mut plans, id) = book_with_buy_plan(2_000);
    let request = plan_allocation_request(
        commission,
        transfer_fee,
        plans.plan(id).unwrap(),
        Money::from_cents(1_100),
        0,
        500,
        100,
        1_000_000,
    );
    // 500 shares at the 11 yuan upper limit: 5500 yuan, the 5 yuan minimum commission and 5 cents of transfer fee.
    assert_eq!(
        request,
        Some(AllocationRequest {
            plan_id: id,
            code: StockCode("600101".to_owned()),
            side: Side::Buy,
            class: AllocationClass::ExistingPlan,
            confidence_bp: 7_000,
            requested_cash: Money::from_cents(550_000),
            fee_reserve: Money::from_cents(505),
            requested_sell_qty: 0,
            sellable_qty: 0,
            experience: AllocationExperience {
                failure_influence: 0,
                long_stuck: false,
                drawdown_bp: None,
            },
        })
    );

    let mut sell = buy_open(300);
    sell.code = StockCode("600102".to_owned());
    sell.direction = Side::Sell;
    let sell_id = plans.create(sell).unwrap();
    let request = plan_allocation_request(
        commission,
        transfer_fee,
        plans.plan(sell_id).unwrap(),
        Money::from_cents(1_100),
        250,
        500,
        100,
        1_000_000,
    )
    .unwrap();
    // Selling everything sellable may carry the odd lot.
    assert_eq!(request.side, Side::Sell);
    assert_eq!(request.requested_sell_qty, 250);
    assert_eq!(request.requested_cash, Money::from_cents(0));

    plans
        .apply(
            id,
            PlanEvent::ChildOrderAccepted {
                order_id: OrderId(1),
                trading_day: 0,
            },
        )
        .unwrap();
    plans
        .apply(
            id,
            PlanEvent::ChildOrderFilled {
                order_id: OrderId(1),
                qty: 2_000,
                child_complete: true,
                trading_day: 0,
            },
        )
        .unwrap();
    // A plan whose target is reached asks for nothing.
    assert_eq!(
        plan_allocation_request(
            commission,
            transfer_fee,
            plans.plan(id).unwrap(),
            Money::from_cents(1_100),
            0,
            500,
            100,
            1_000_000,
        ),
        None
    );
}

fn codes(list: &[&str]) -> Vec<StockCode> {
    list.iter().map(|c| StockCode((*c).to_owned())).collect()
}

#[test]
fn a_round_covers_holdings_beliefs_live_plans_and_the_discovery() {
    let mut plans = PlanBook::default_book();
    let mut own = buy_open(100);
    own.code = StockCode("300260".to_owned());
    plans.create(own).unwrap();
    let mut other = buy_open(100);
    other.account = AccountId(8);
    other.code = StockCode("002156".to_owned());
    plans.create(other).unwrap();
    let round = root_candidate_codes(
        AccountId(7),
        &codes(&["600102"]),
        &codes(&["000812", "600102"]),
        &plans,
        Some(StockCode("600610".to_owned())),
    );
    assert_eq!(round, codes(&["000812", "300260", "600102", "600610"]));
}

fn sell_plan_request(holding_qty: u32, target_qty: u32) -> Option<AllocationRequest> {
    let mut plans = PlanBook::default_book();
    let mut open = buy_open(target_qty);
    open.code = StockCode("000812".to_owned());
    open.direction = Side::Sell;
    open.opinion = opinion(-8_000);
    open.confidence_bp = 8_000;
    let id = plans.create(open).unwrap();
    plan_allocation_request(
        commission,
        transfer_fee,
        plans.plan(id).unwrap(),
        Money::from_cents(285),
        holding_qty,
        100,
        100,
        1_000_000,
    )
}

#[test]
fn partial_sell_plan_does_not_split_or_include_the_odd_lot_remainder() {
    let request = sell_plan_request(25_500, 25_491).unwrap();
    assert_eq!(request.requested_sell_qty, 25_400);
}

#[test]
fn full_sell_plan_exits_the_available_odd_lot_in_one_order() {
    let request = sell_plan_request(25_491, 25_491).unwrap();
    assert_eq!(request.requested_sell_qty, 25_491);
}

#[test]
fn live_plan_without_position_or_belief_still_enters_root_observation() {
    let mut plans = PlanBook::default_book();
    let account = AccountId(1);
    let code = StockCode("000812".to_string());
    plans
        .create(PlanOpen {
            account,
            code: code.clone(),
            direction: Side::Buy,
            target: PlanTarget::ShareCount(100),
            opinion: PlanOpinion {
                signal_score_bp: 5_000,
                source: OpinionSource::Blended,
            },
            confidence_bp: 8_000,
            urgency: Urgency::Normal,
            horizon_trading_days: 5,
            created_trading_day: 0,
        })
        .unwrap();
    let candidates = root_candidate_codes(account, &vec![], &vec![], &plans, None);
    assert_eq!(candidates, vec![code]);
}

#[test]
fn a_target_below_the_live_child_exposure_cancels_the_child_first() {
    // The child still has 1000 shares open; a score of 1000 asks for 500 shares in all.
    let (plans, id) = book_with_buy_plan(2_000);
    let plan = plans.plan(id).unwrap();
    let mut f = facts(Some(1_000), 0);
    f.linked_child = Some(LinkedChild {
        order_id: Some(OrderId(4)),
        remaining_qty: Some(1_000),
    });
    assert_eq!(
        plan_lifecycle_action(&f, Some(plan)),
        Some(PlanLifecycleAction::Restructure {
            account: AccountId(7),
            plan_id: id,
            code: StockCode("600101".to_owned()),
            child_order_id: Some(OrderId(4)),
            terminating: false,
            revision: revision(Side::Buy, 500, 1_000, None),
        })
    );
}

fn book_with_linked_child() -> (PlanBook, PlanId, Option<ParentOrderPlan>) {
    let (mut plans, id) = book_with_buy_plan(2_000);
    plans
        .apply(
            id,
            PlanEvent::ChildOrderAccepted {
                order_id: OrderId(9),
                trading_day: 0,
            },
        )
        .unwrap();
    let parent = ParentOrderPlan {
        code: StockCode("600101".to_owned()),
        side: Side::Buy,
        target_qty: 2_000,
        filled_qty: 0,
        child_qty: 500,
        active_child_order_id: Some(OrderId(9)),
        active_child_remaining_qty: Some(500),
        linked_plan_id: Some(id),
        limit_price: Money::from_cents(1_100),
        expires_market_minute: 240,
    };
    (plans, id, Some(parent))
}

fn restructure(id: PlanId, terminating: bool, revision: PlanRevision) -> PlanLifecycleAction {
    PlanLifecycleAction::Restructure {
        account: AccountId(7),
        plan_id: id,
        code: StockCode("600101".to_owned()),
        child_order_id: Some(OrderId(9)),
        terminating,
        revision,
    }
}

#[test]
fn a_reversal_lands_after_the_child_is_released_from_plan_and_parent() {
    let (mut plans, id, mut parent) = book_with_linked_child();
    let action = restructure(id, false, revision(Side::Sell, 2_000, -4_000, None));
    assert!(land_restructure(&action, 0, &mut plans, &mut parent).is_ok());
    let plan = plans.plan(id).unwrap();
    assert_eq!(plan.direction, Side::Sell);
    assert_eq!(plan.filled_qty, 0);
    assert_eq!(plan.status, PlanStatus::Active);
    assert_eq!(plan.active_child_order_id, None);
    assert_eq!(parent.unwrap().active_child_order_id, None);
}

#[test]
fn a_terminating_restructure_ends_the_plan_and_its_parent() {
    let (mut plans, id, mut parent) = book_with_linked_child();
    plans
        .apply(
            id,
            PlanEvent::ChildOrderFilled {
                order_id: OrderId(9),
                qty: 1_000,
                child_complete: false,
                trading_day: 0,
            },
        )
        .unwrap();
    let action = restructure(id, true, revision(Side::Buy, 200, 400, Some(TerminationReason::Cancelled)));
    assert!(land_restructure(&action, 0, &mut plans, &mut parent).is_ok());
    assert_eq!(
        plans.plan(id).unwrap().status,
        PlanStatus::Terminated {
            reason: TerminationReason::Cancelled
        }
    );
    assert!(parent.is_none());
}

#[test]
fn a_refused_restructure_keeps_plan_child_and_parent() {
    let (mut plans, id, mut parent) = book_with_linked_child();
    let before = plans.clone();
    let parent_before = parent.clone();
    // The revision changes nothing: the book refuses it, and the cancellation with it.
    let unchanged = PlanRevision {
        reason: RevisionReason::SignalShift,
        trading_day: 0,
        direction: Side::Buy,
        target: PlanTarget::ShareCount(2_000),
        opinion: opinion(4_000),
        confidence_bp: 7_000,
        urgency: Urgency::Normal,
        below_filled_rationale: None,
    };
    assert!(land_restructure(&restructure(id, false, unchanged), 0, &mut plans, &mut parent).is_err());
    assert_eq!(plans, before);
    assert_eq!(parent, parent_before);
    assert_eq!(plans.plan(id).unwrap().active_child_order_id, Some(OrderId(9)));
}
