use trade_engine::ids::{AccountId, OrderId, PlanId, Side, StockCode};
use trade_engine::plans::book::{PlanBook, PlanEvent};
use trade_engine::plans::state::{
    OpinionSource, PlanOpen, PlanOpinion, PlanStatus, PlanTarget, TerminationReason, Urgency,
};
use trade_engine::plans::validation::PlanError;

fn open(code: &str) -> PlanOpen {
    PlanOpen {
        account: AccountId(1),
        code: StockCode(code.to_owned()),
        direction: Side::Buy,
        target: PlanTarget::ShareCount(100),
        opinion: PlanOpinion {
            signal_score_bp: 3_000,
            source: OpinionSource::Blended,
        },
        confidence_bp: 8_000,
        urgency: Urgency::Normal,
        horizon_trading_days: 5,
        created_trading_day: 0,
    }
}

#[test]
fn invalid_later_plan_event_does_not_commit_an_earlier_plan_transition() {
    let mut plans = PlanBook::default_book();
    let first = plans.create(open("600101")).unwrap();
    let second = plans.create(open("600102")).unwrap();
    let before = plans.clone();
    let result = plans.apply_active_events_atomically(&vec![
        (
            first,
            PlanEvent::ChildOrderAccepted {
                order_id: OrderId(1),
                trading_day: 0,
            },
        ),
        (
            second,
            PlanEvent::ChildOrderFilled {
                order_id: OrderId(2),
                qty: 100,
                child_complete: true,
                trading_day: 0,
            },
        ),
    ]);

    assert!(result.is_err());
    assert_eq!(plans, before);
}

#[test]
fn active_index_ignores_terminal_history_and_survives_a_round_trip() {
    let mut plans = PlanBook::default_book();
    let first = plans.create(open("600101")).unwrap();
    let second = plans.create(open("600102")).unwrap();
    let other = plans
        .create(PlanOpen {
            account: AccountId(2),
            ..open("600101")
        })
        .unwrap();
    plans
        .apply(
            first,
            PlanEvent::Terminated {
                reason: TerminationReason::Cancelled,
                trading_day: 0,
            },
        )
        .unwrap();
    let successor = plans.create(open("600101")).unwrap();
    assert_eq!(plans.active_plan_ids(), vec![second, other, successor]);
    assert_eq!(
        plans.active_plan_ids_for_account(AccountId(1)),
        vec![second, successor]
    );
    assert_eq!(plans.active_plan_ids_for_account(AccountId(2)), vec![other]);
    assert_eq!(
        plans.active_codes(AccountId(1)),
        vec![StockCode("600101".into()), StockCode("600102".into())]
    );
    assert_eq!(plans.plan_ids(), vec![first, second, other, successor]);

    let (policy, next_plan_seq, entries) = plans.save_parts();
    let restored = PlanBook::from_parts(policy, next_plan_seq, entries).unwrap();
    assert_eq!(restored.active_plan_ids(), vec![second, other, successor]);
    assert_eq!(
        restored.active_plan_ids_for_account(AccountId(1)),
        vec![second, successor]
    );
    assert_eq!(
        restored
            .active_plan(AccountId(1), &StockCode("600101".into()))
            .unwrap()
            .plan_id,
        successor
    );
}

#[test]
fn atomic_completion_updates_the_active_index_only_after_success() {
    let mut plans = PlanBook::default_book();
    let first = plans.create(open("600101")).unwrap();
    let second = plans.create(open("600102")).unwrap();
    let accepted = PlanEvent::ChildOrderAccepted {
        order_id: OrderId(1),
        trading_day: 0,
    };
    let filled = PlanEvent::ChildOrderFilled {
        order_id: OrderId(1),
        qty: 100,
        child_complete: true,
        trading_day: 0,
    };
    let invalid = PlanEvent::ChildOrderFilled {
        order_id: OrderId(2),
        qty: 100,
        child_complete: true,
        trading_day: 0,
    };
    assert!(plans
        .apply_active_events_atomically(&vec![(first, accepted), (first, filled), (second, invalid)])
        .is_err());
    assert_eq!(plans.active_plan_ids(), vec![first, second]);
    plans
        .apply_active_events_atomically(&vec![(first, accepted), (first, filled)])
        .unwrap();
    assert_eq!(plans.active_plan_ids(), vec![second]);
    assert_eq!(plans.plan(first).unwrap().status, PlanStatus::Completed);
}

#[test]
fn a_second_live_plan_on_the_same_account_and_stock_is_refused() {
    let mut plans = PlanBook::default_book();
    plans.create(open("600101")).unwrap();
    let before = plans.clone();
    assert!(matches!(
        plans.create(open("600101")),
        Err(PlanError::DuplicateActivePlan { .. })
    ));
    assert_eq!(plans, before);
}

#[test]
fn plan_ids_are_never_reused_after_termination() {
    let mut plans = PlanBook::default_book();
    let first = plans.create(open("600101")).unwrap();
    plans
        .apply(
            first,
            PlanEvent::Terminated {
                reason: TerminationReason::Cancelled,
                trading_day: 0,
            },
        )
        .unwrap();
    let second = plans.create(open("600101")).unwrap();
    assert!(second.0 > first.0);
    assert_eq!(plans.next_plan_seq(), second.0 + 1);
}

#[test]
fn a_terminal_plan_refuses_every_later_event() {
    let mut plans = PlanBook::default_book();
    let id = plans.create(open("600101")).unwrap();
    plans
        .apply(
            id,
            PlanEvent::Terminated {
                reason: TerminationReason::Cancelled,
                trading_day: 1,
            },
        )
        .unwrap();
    let before = plans.clone();
    assert!(plans
        .apply(id, PlanEvent::ObservedNoChange { trading_day: 2 })
        .is_err());
    assert_eq!(plans, before);
}

#[test]
fn events_may_not_go_back_in_time() {
    let mut plans = PlanBook::default_book();
    let id = plans.create(open("600101")).unwrap();
    plans
        .apply(id, PlanEvent::ObservedNoChange { trading_day: 3 })
        .unwrap();
    assert!(plans
        .apply(id, PlanEvent::ObservedNoChange { trading_day: 2 })
        .is_err());
}

#[test]
fn an_unknown_plan_id_is_reported() {
    let mut plans = PlanBook::default_book();
    assert_eq!(
        plans.apply(PlanId(42), PlanEvent::ObservedNoChange { trading_day: 0 }),
        Err(PlanError::UnknownPlan { plan_id: PlanId(42) })
    );
}

#[test]
fn active_accounts_lists_each_account_with_a_live_plan_once() {
    let mut plans = PlanBook::default_book();
    plans
        .create(PlanOpen {
            account: AccountId(7),
            ..open("600101")
        })
        .unwrap();
    plans.create(open("600102")).unwrap();
    plans.create(open("600103")).unwrap();
    assert_eq!(plans.active_accounts(), vec![AccountId(1), AccountId(7)]);
}

#[test]
fn a_saved_plan_with_an_empty_horizon_restores() {
    let mut plans = PlanBook::default_book();
    let mut later = open("600101");
    later.created_trading_day = 3;
    plans.create(later).unwrap();
    let (policy, next, mut entries) = plans.save_parts();
    entries[0].1.horizon_trading_days = 0;
    let restored = PlanBook::from_parts(policy, next, entries).unwrap();
    assert_eq!(restored.plan(PlanId(0)).unwrap().last_valid_trading_day(), 2);

    let mut from_zero = PlanBook::default_book();
    from_zero.create(open("600101")).unwrap();
    let (policy, next, mut entries) = from_zero.save_parts();
    entries[0].1.horizon_trading_days = 0;
    let restored = PlanBook::from_parts(policy, next, entries).unwrap();
    assert_eq!(restored.active_plan_ids(), vec![PlanId(0)]);
}
