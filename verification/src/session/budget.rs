//! Caps the NPCs' new limit orders to the cash each account has left once
//! its working orders and the orders planned before it in the same batch are
//! reserved: a buy shrinks to the whole lots it can afford (or drops), a sell
//! whose fees the cash cannot cover drops, and an order whose reservation
//! cannot be computed passes on to the router, which reports it.
use vstd::prelude::*;

use std::collections::BTreeMap;

use super::execution::Intent;
use crate::ids::{money_of, AccountId, Money, MoneyError, Side};

verus! {

broadcast use {vstd::laws_cmp::group_laws_cmp, vstd::std_specs::btree::group_btree_axioms};

/// A working order's claim on its owner's cash: its side, limit, open
/// quantity and the value already filled (none for an auction order).
#[derive(Clone, Copy, Debug, PartialEq, Eq, Structural)]
pub struct WorkingOrderClaim {
    pub account: AccountId,
    pub side: Side,
    pub price: Money,
    pub qty: u32,
    pub filled_value: Money,
}

/// `f` can be asked anything and gives one answer per question.
pub open spec fn answers_once<R, F: Fn(Money, u32, Money) -> R>(f: F) -> bool {
    &&& forall|p: Money, q: u32, v: Money| #[trigger] f.requires((p, q, v))
    &&& forall|p: Money, q: u32, v: Money, r1: R, r2: R|
        #![trigger f.ensures((p, q, v), r1), f.ensures((p, q, v), r2)]
        f.ensures((p, q, v), r1) && f.ensures((p, q, v), r2) ==> r1 == r2
}

/// The answer of `f` to `(p, q, v)`.
pub open spec fn answer<R, F: Fn(Money, u32, Money) -> R>(f: F, p: Money, q: u32, v: Money) -> R {
    choose|r: R| f.ensures((p, q, v), r)
}

proof fn lemma_answer<R, F: Fn(Money, u32, Money) -> R>(f: F, p: Money, q: u32, v: Money, r: R)
    requires
        answers_once(f),
        f.ensures((p, q, v), r),
    ensures
        answer(f, p, q, v) == r,
{
    let c = answer(f, p, q, v);
    assert(f.ensures((p, q, v), c));
}

/// What an account has reserved so far (nothing when it is not listed).
pub open spec fn reserved_of(reserved: Map<u64, Money>, account: AccountId) -> Money {
    if reserved.contains_key(account.0) {
        reserved[account.0]
    } else {
        Money { cents: 0 }
    }
}

/// The reservations with `amount` more for `account`; `None` on overflow.
pub open spec fn add_claim(reserved: Map<u64, Money>, account: AccountId, amount: Money) -> Option<Map<u64, Money>> {
    match money_of(reserved_of(reserved, account).cents + amount.cents) {
        Ok(total) => Some(reserved.insert(account.0, total)),
        Err(_) => None,
    }
}

/// The cash a working order holds: a buy's reservation, a sell's fees.
pub open spec fn claim_amount<B: Fn(Money, u32, Money) -> Result<Money, MoneyError>, S: Fn(Money, u32, Money) -> Result<
    Money,
    MoneyError,
>>(buy_reservation: B, sell_fee_reservation: S, c: WorkingOrderClaim) -> Result<Money, MoneyError> {
    match c.side {
        Side::Buy => answer(buy_reservation, c.price, c.qty, c.filled_value),
        Side::Sell => answer(sell_fee_reservation, c.price, c.qty, c.filled_value),
    }
}

/// The cash each account's working orders hold; `None` when a claim cannot
/// be computed or a total overflows.
pub open spec fn live_reserved<B: Fn(Money, u32, Money) -> Result<Money, MoneyError>, S: Fn(Money, u32, Money) -> Result<
    Money,
    MoneyError,
>>(buy_reservation: B, sell_fee_reservation: S, claims: Seq<WorkingOrderClaim>) -> Option<Map<u64, Money>>
    decreases claims.len(),
{
    if claims.len() == 0 {
        Some(Map::empty())
    } else {
        match live_reserved(buy_reservation, sell_fee_reservation, claims.drop_last()) {
            None => None,
            Some(m) => match claim_amount(buy_reservation, sell_fee_reservation, claims.last()) {
                Err(_) => None,
                Ok(amount) => add_claim(m, claims.last().account, amount),
            },
        }
    }
}

/// One pending intent against the reservations so far. Only limit orders of
/// accounts with known cash are capped; `None` when the cash left, a planned
/// reservation or a total cannot be computed.
pub open spec fn cap_step<
    B: Fn(Money, u32, Money) -> Result<Money, MoneyError>,
    S: Fn(Money, u32, Money) -> Result<Money, MoneyError>,
    A: Fn(Money, u32, Money) -> Result<Option<u32>, MoneyError>,
>(
    buy_reservation: B,
    sell_fee_reservation: S,
    affordable_buy_qty: A,
    cash: Map<u64, Money>,
    state: (Map<u64, Money>, Seq<(AccountId, Intent)>),
    item: (AccountId, Intent),
) -> Option<(Map<u64, Money>, Seq<(AccountId, Intent)>)> {
    let reserved = state.0;
    let planned = state.1;
    let account = item.0;
    match item.1 {
        Intent::PlaceLimit { code, side, price, qty } => if !cash.contains_key(account.0) {
            Some((reserved, planned.push(item)))
        } else {
            match money_of(cash[account.0].cents - reserved_of(reserved, account).cents) {
                Err(_) => None,
                Ok(available) => match side {
                    Side::Sell => match answer(sell_fee_reservation, price, qty, Money { cents: 0 }) {
                        Ok(required) => if required.cents <= available.cents {
                            match add_claim(reserved, account, required) {
                                Some(m) => Some((m, planned.push(item))),
                                None => None,
                            }
                        } else {
                            Some((reserved, planned))
                        },
                        Err(_) => Some((reserved, planned.push(item))),
                    },
                    Side::Buy => match answer(affordable_buy_qty, price, qty, available) {
                        Err(_) => Some((reserved, planned.push(item))),
                        Ok(None) => Some((reserved, planned)),
                        Ok(Some(q)) => match answer(buy_reservation, price, q, Money { cents: 0 }) {
                            Err(_) => None,
                            Ok(required) => match add_claim(reserved, account, required) {
                                Some(m) => Some(
                                    (m, planned.push((account, Intent::PlaceLimit { code, side, price, qty: q }))),
                                ),
                                None => None,
                            },
                        },
                    },
                },
            }
        },
        _ => Some((reserved, planned.push(item))),
    }
}

/// The pending intents capped in order.
pub open spec fn cap_fold<
    B: Fn(Money, u32, Money) -> Result<Money, MoneyError>,
    S: Fn(Money, u32, Money) -> Result<Money, MoneyError>,
    A: Fn(Money, u32, Money) -> Result<Option<u32>, MoneyError>,
>(
    buy_reservation: B,
    sell_fee_reservation: S,
    affordable_buy_qty: A,
    cash: Map<u64, Money>,
    start: Map<u64, Money>,
    pending: Seq<(AccountId, Intent)>,
) -> Option<(Map<u64, Money>, Seq<(AccountId, Intent)>)>
    decreases pending.len(),
{
    if pending.len() == 0 {
        Some((start, Seq::empty()))
    } else {
        match cap_fold(buy_reservation, sell_fee_reservation, affordable_buy_qty, cash, start, pending.drop_last()) {
            None => None,
            Some(s) => cap_step(buy_reservation, sell_fee_reservation, affordable_buy_qty, cash, s, pending.last()),
        }
    }
}

/// The capped intents, or `None` when the working orders' reservations or
/// the capping cannot be computed.
pub open spec fn spec_capped_intents<
    B: Fn(Money, u32, Money) -> Result<Money, MoneyError>,
    S: Fn(Money, u32, Money) -> Result<Money, MoneyError>,
    A: Fn(Money, u32, Money) -> Result<Option<u32>, MoneyError>,
>(
    buy_reservation: B,
    sell_fee_reservation: S,
    affordable_buy_qty: A,
    claims: Seq<WorkingOrderClaim>,
    cash: Map<u64, Money>,
    pending: Seq<(AccountId, Intent)>,
) -> Option<Seq<(AccountId, Intent)>> {
    match live_reserved(buy_reservation, sell_fee_reservation, claims) {
        None => None,
        Some(m) => match cap_fold(buy_reservation, sell_fee_reservation, affordable_buy_qty, cash, m, pending) {
            Some(s) => Some(s.1),
            None => None,
        },
    }
}

proof fn lemma_live_prefix<B: Fn(Money, u32, Money) -> Result<Money, MoneyError>, S: Fn(Money, u32, Money) -> Result<
    Money,
    MoneyError,
>>(buy_reservation: B, sell_fee_reservation: S, claims: Seq<WorkingOrderClaim>, n: int)
    requires
        0 <= n <= claims.len(),
        live_reserved(buy_reservation, sell_fee_reservation, claims) is Some,
    ensures
        live_reserved(buy_reservation, sell_fee_reservation, claims.take(n)) is Some,
    decreases claims.len() - n,
{
    if n < claims.len() {
        lemma_live_prefix(buy_reservation, sell_fee_reservation, claims, n + 1);
        assert(claims.take(n + 1).drop_last() == claims.take(n));
    } else {
        assert(claims.take(n) == claims);
    }
}

proof fn lemma_cap_prefix<
    B: Fn(Money, u32, Money) -> Result<Money, MoneyError>,
    S: Fn(Money, u32, Money) -> Result<Money, MoneyError>,
    A: Fn(Money, u32, Money) -> Result<Option<u32>, MoneyError>,
>(
    buy_reservation: B,
    sell_fee_reservation: S,
    affordable_buy_qty: A,
    cash: Map<u64, Money>,
    start: Map<u64, Money>,
    pending: Seq<(AccountId, Intent)>,
    n: int,
)
    requires
        0 <= n <= pending.len(),
        cap_fold(buy_reservation, sell_fee_reservation, affordable_buy_qty, cash, start, pending) is Some,
    ensures
        cap_fold(buy_reservation, sell_fee_reservation, affordable_buy_qty, cash, start, pending.take(n)) is Some,
    decreases pending.len() - n,
{
    if n < pending.len() {
        lemma_cap_prefix(buy_reservation, sell_fee_reservation, affordable_buy_qty, cash, start, pending, n + 1);
        assert(pending.take(n + 1).drop_last() == pending.take(n));
    } else {
        assert(pending.take(n) == pending);
    }
}

/// The amount reserved for an account so far.
fn reserved_now(reserved: &BTreeMap<u64, Money>, account: AccountId) -> (m: Money)
    ensures
        m == reserved_of(reserved@, account),
{
    match reserved.get(&account.0) {
        Some(m) => *m,
        None => Money::zero(),
    }
}

/// Caps the NPCs' pending intents to their available cash (see
/// [`spec_capped_intents`]). `claims` are the working orders, continuous
/// then auction; `cash` maps an account's id to its cash. The host hands in
/// the reservation rules: a buy order's reservation and a sell order's fee
/// reservation at a limit, quantity and filled value, and the whole-lot buy
/// quantity, at most the one asked, that a limit and the available cash
/// afford (`None` when not one lot). A working order's reservation that
/// cannot be computed, a total that overflows or cash that does not cover
/// the reservations are outside what this accepts.
pub fn cap_npc_intents_to_available_cash<
    B: Fn(Money, u32, Money) -> Result<Money, MoneyError>,
    S: Fn(Money, u32, Money) -> Result<Money, MoneyError>,
    A: Fn(Money, u32, Money) -> Result<Option<u32>, MoneyError>,
>(
    pending: Vec<(AccountId, Intent)>,
    claims: &Vec<WorkingOrderClaim>,
    cash: &BTreeMap<u64, Money>,
    buy_reservation: B,
    sell_fee_reservation: S,
    affordable_buy_qty: A,
) -> (planned: Vec<(AccountId, Intent)>)
    requires
        answers_once(buy_reservation),
        answers_once(sell_fee_reservation),
        answers_once(affordable_buy_qty),
        spec_capped_intents(
            buy_reservation,
            sell_fee_reservation,
            affordable_buy_qty,
            claims@,
            cash@,
            pending@,
        ) is Some,
    ensures
        planned@ == spec_capped_intents(
            buy_reservation,
            sell_fee_reservation,
            affordable_buy_qty,
            claims@,
            cash@,
            pending@,
        )->Some_0,
{
    let mut reserved: BTreeMap<u64, Money> = BTreeMap::new();
    let mut k: usize = 0;
    while k < claims.len()
        invariant
            0 <= k <= claims@.len(),
            answers_once(buy_reservation),
            answers_once(sell_fee_reservation),
            live_reserved(buy_reservation, sell_fee_reservation, claims@) is Some,
            live_reserved(buy_reservation, sell_fee_reservation, claims@.take(k as int)) == Some(reserved@),
        decreases claims@.len() - k,
    {
        proof {
            lemma_live_prefix(buy_reservation, sell_fee_reservation, claims@, k + 1);
            assert(claims@.take(k + 1).drop_last() == claims@.take(k as int));
            assert(claims@.take(k + 1).last() == claims@[k as int]);
        }
        let c = claims[k];
        let amount = match c.side {
            Side::Buy => buy_reservation(c.price, c.qty, c.filled_value),
            Side::Sell => sell_fee_reservation(c.price, c.qty, c.filled_value),
        };
        proof {
            match c.side {
                Side::Buy => lemma_answer(buy_reservation, c.price, c.qty, c.filled_value, amount),
                Side::Sell => lemma_answer(sell_fee_reservation, c.price, c.qty, c.filled_value, amount),
            }
        }
        let amount = match amount {
            Ok(a) => a,
            Err(_) => {
                assert(false);
                return Vec::new();
            },
        };
        let already = reserved_now(&reserved, c.account);
        match already.checked_add(amount) {
            Ok(total) => {
                reserved.insert(c.account.0, total);
            },
            Err(_) => {
                assert(false);
                return Vec::new();
            },
        }
        k += 1;
    }
    proof {
        assert(claims@.take(claims@.len() as int) == claims@);
    }
    let ghost start = reserved@;
    let mut planned: Vec<(AccountId, Intent)> = Vec::new();
    let mut i: usize = 0;
    while i < pending.len()
        invariant
            0 <= i <= pending@.len(),
            answers_once(buy_reservation),
            answers_once(sell_fee_reservation),
            answers_once(affordable_buy_qty),
            cap_fold(buy_reservation, sell_fee_reservation, affordable_buy_qty, cash@, start, pending@) is Some,
            cap_fold(buy_reservation, sell_fee_reservation, affordable_buy_qty, cash@, start, pending@.take(i as int))
                == Some((reserved@, planned@)),
        decreases pending@.len() - i,
    {
        proof {
            lemma_cap_prefix(buy_reservation, sell_fee_reservation, affordable_buy_qty, cash@, start, pending@, i + 1);
            assert(pending@.take(i + 1).drop_last() == pending@.take(i as int));
            assert(pending@.take(i + 1).last() == pending@[i as int]);
        }
        let account = pending[i].0;
        let intent = pending[i].1.clone();
        proof {
            assert((account, intent) == pending@[i as int]);
        }
        match intent {
            Intent::PlaceLimit { code, side, price, qty } => {
                let account_cash = match cash.get(&account.0) {
                    Some(m) => *m,
                    None => {
                        planned.push((account, Intent::PlaceLimit { code, side, price, qty }));
                        i += 1;
                        continue;
                    },
                };
                let already = reserved_now(&reserved, account);
                let available = match account_cash.checked_sub(already) {
                    Ok(a) => a,
                    Err(_) => {
                        assert(false);
                        return planned;
                    },
                };
                match side {
                    Side::Sell => {
                        let fee = sell_fee_reservation(price, qty, Money::zero());
                        proof {
                            lemma_answer(sell_fee_reservation, price, qty, Money { cents: 0 }, fee);
                        }
                        match fee {
                            Ok(required) => {
                                if required.cents() <= available.cents() {
                                    match already.checked_add(required) {
                                        Ok(total) => {
                                            reserved.insert(account.0, total);
                                        },
                                        Err(_) => {
                                            assert(false);
                                            return planned;
                                        },
                                    }
                                } else {
                                    i += 1;
                                    continue;
                                }
                            },
                            Err(_) => {},
                        }
                        planned.push((account, Intent::PlaceLimit { code, side, price, qty }));
                    },
                    Side::Buy => {
                        let affordable = affordable_buy_qty(price, qty, available);
                        proof {
                            lemma_answer(affordable_buy_qty, price, qty, available, affordable);
                        }
                        match affordable {
                            Err(_) => {
                                planned.push((account, Intent::PlaceLimit { code, side, price, qty }));
                            },
                            Ok(None) => {},
                            Ok(Some(q)) => {
                                let required = buy_reservation(price, q, Money::zero());
                                proof {
                                    lemma_answer(buy_reservation, price, q, Money { cents: 0 }, required);
                                }
                                let required = match required {
                                    Ok(r) => r,
                                    Err(_) => {
                                        assert(false);
                                        return planned;
                                    },
                                };
                                match already.checked_add(required) {
                                    Ok(total) => {
                                        reserved.insert(account.0, total);
                                    },
                                    Err(_) => {
                                        assert(false);
                                        return planned;
                                    },
                                }
                                planned.push((account, Intent::PlaceLimit { code, side, price, qty: q }));
                            },
                        }
                    },
                }
            },
            other => {
                planned.push((account, other));
            },
        }
        i += 1;
    }
    proof {
        assert(pending@.take(pending@.len() as int) == pending@);
    }
    planned
}


/// The whole-lot quantity that `affordable_buy_qty` answers is affordable: its
/// reservation is known and within the cash it was asked about.
pub open spec fn affordable_means_covered<
    B: Fn(Money, u32, Money) -> Result<Money, MoneyError>,
    A: Fn(Money, u32, Money) -> Result<Option<u32>, MoneyError>,
>(buy_reservation: B, affordable_buy_qty: A) -> bool {
    forall|p: Money, q: u32, v: Money|
        match #[trigger] answer(affordable_buy_qty, p, q, v) {
            Ok(Some(r)) => answer(buy_reservation, p, r, Money { cents: 0 }) matches Ok(m) && m.cents <= v.cents,
            _ => true,
        }
}

/// Capping never lets an account with known cash reserve beyond it: when its
/// reservations start within its cash and an affordable quantity is one whose
/// reservation the cash covers, they end within its cash.
pub proof fn law_capping_keeps_reservations_within_cash<
    B: Fn(Money, u32, Money) -> Result<Money, MoneyError>,
    S: Fn(Money, u32, Money) -> Result<Money, MoneyError>,
    A: Fn(Money, u32, Money) -> Result<Option<u32>, MoneyError>,
>(
    buy_reservation: B,
    sell_fee_reservation: S,
    affordable_buy_qty: A,
    cash: Map<u64, Money>,
    start: Map<u64, Money>,
    pending: Seq<(AccountId, Intent)>,
    account: AccountId,
)
    requires
        affordable_means_covered(buy_reservation, affordable_buy_qty),
        cash.contains_key(account.0),
        reserved_of(start, account).cents <= cash[account.0].cents,
        cap_fold(buy_reservation, sell_fee_reservation, affordable_buy_qty, cash, start, pending) is Some,
    ensures
        reserved_of(
            cap_fold(buy_reservation, sell_fee_reservation, affordable_buy_qty, cash, start, pending)->Some_0.0,
            account,
        ).cents <= cash[account.0].cents,
    decreases pending.len(),
{
    if pending.len() > 0 {
        let prev = cap_fold(buy_reservation, sell_fee_reservation, affordable_buy_qty, cash, start, pending.drop_last());
        law_capping_keeps_reservations_within_cash(
            buy_reservation,
            sell_fee_reservation,
            affordable_buy_qty,
            cash,
            start,
            pending.drop_last(),
            account,
        );
        let st = prev->Some_0;
        let item = pending.last();
        let reserved = st.0;
        match item.1 {
            Intent::PlaceLimit { code, side, price, qty } => {
                if cash.contains_key(item.0.0) {
                    let available = money_of(cash[item.0.0].cents - reserved_of(reserved, item.0).cents);
                    if side is Buy && available is Ok {
                        let v = available->Ok_0;
                        let af = answer(affordable_buy_qty, price, qty, v);
                        assert(af == answer(affordable_buy_qty, price, qty, v));
                    }
                }
            },
            _ => {},
        }
    }
}

} // verus!
