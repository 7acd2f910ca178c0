//! Execution bookkeeping of the session: parent orders of large accounts, the
//! intents that strategies queue, the dependencies between queued NPC intents
//! and the small predicates that reconcile desired intents with working orders.
use vstd::prelude::*;

use crate::code_order::{has_code, sorted_codes};
use crate::ids::{AccountId, Money, OrderId, PlanId, Side, StockCode};

verus! {

/// A recoverable parent order: the target and the real fills are kept apart,
/// and later children may not exceed `remaining_qty`.
#[derive(Debug, PartialEq)]
pub struct ParentOrderPlan {
    pub code: StockCode,
    pub side: Side,
    pub target_qty: u32,
    pub filled_qty: u32,
    /// Largest child quantity of one re-quote.
    pub child_qty: u32,
    /// The child now in the book or the auction queue; only its real fills advance the parent.
    pub active_child_order_id: Option<OrderId>,
    /// Unfilled quantity of that child.
    pub active_child_remaining_qty: Option<u32>,
    pub linked_plan_id: Option<PlanId>,
    pub limit_price: Money,
    pub expires_market_minute: u64,
}

impl Clone for ParentOrderPlan {
    fn clone(&self) -> (r: Self)
        ensures
            r == *self,
    {
        ParentOrderPlan {
            code: self.code.clone(),
            side: self.side,
            target_qty: self.target_qty,
            filled_qty: self.filled_qty,
            child_qty: self.child_qty,
            active_child_order_id: self.active_child_order_id,
            active_child_remaining_qty: self.active_child_remaining_qty,
            linked_plan_id: self.linked_plan_id,
            limit_price: self.limit_price,
            expires_market_minute: self.expires_market_minute,
        }
    }
}

impl ParentOrderPlan {
    /// Quantity still to be filled.
    pub fn remaining_qty(&self) -> (r: u32)
        requires
            self.filled_qty <= self.target_qty,
        ensures
            r == self.target_qty - self.filled_qty,
    {
        self.target_qty - self.filled_qty
    }
}

/// What a strategy asks the exchange to do.
#[derive(Debug, PartialEq, Eq)]
pub enum Intent {
    PlaceLimit { code: StockCode, side: Side, price: Money, qty: u32 },
    PlaceMarket { code: StockCode, side: Side, qty: u32 },
    Cancel { code: StockCode, id: OrderId },
}

impl Clone for Intent {
    fn clone(&self) -> (r: Self)
        ensures
            r == *self,
    {
        match self {
            Intent::PlaceLimit { code, side, price, qty } => Intent::PlaceLimit {
                code: code.clone(),
                side: *side,
                price: *price,
                qty: *qty,
            },
            Intent::PlaceMarket { code, side, qty } => Intent::PlaceMarket {
                code: code.clone(),
                side: *side,
                qty: *qty,
            },
            Intent::Cancel { code, id } => Intent::Cancel { code: code.clone(), id: *id },
        }
    }
}

/// The stock an intent is about.
pub open spec fn code_of(intent: Intent) -> StockCode {
    match intent {
        Intent::PlaceLimit { code, .. } => code,
        Intent::PlaceMarket { code, .. } => code,
        Intent::Cancel { code, .. } => code,
    }
}

pub fn intent_code(intent: &Intent) -> (c: &StockCode)
    ensures
        *c == code_of(*intent),
{
    match intent {
        Intent::PlaceLimit { code, .. } => code,
        Intent::PlaceMarket { code, .. } => code,
        Intent::Cancel { code, .. } => code,
    }
}

/// The stock and side of a placement; `None` for a cancellation.
pub fn intent_stock_side(intent: &Intent) -> (r: Option<(StockCode, Side)>)
    ensures
        r == (match *intent {
            Intent::PlaceLimit { code, side, .. } => Some((code, side)),
            Intent::PlaceMarket { code, side, .. } => Some((code, side)),
            Intent::Cancel { .. } => None,
        }),
{
    match intent {
        Intent::PlaceLimit { code, side, .. } => Some((code.clone(), *side)),
        Intent::PlaceMarket { code, side, .. } => Some((code.clone(), *side)),
        Intent::Cancel { .. } => None,
    }
}

/// A limit placement on `code` and `side`.
pub open spec fn spec_same_side(intent: Intent, code: Seq<char>, side: Side) -> bool {
    match intent {
        Intent::PlaceLimit { code: target, side: target_side, .. } => target@ == code && target_side == side,
        _ => false,
    }
}

pub fn same_side(intent: &Intent, code: &StockCode, side: Side) -> (r: bool)
    ensures
        r == spec_same_side(*intent, code@, side),
{
    match intent {
        Intent::PlaceLimit { code: target, side: target_side, .. } => target.same_as(code) && *target_side == side,
        _ => false,
    }
}

/// A limit placement of exactly this order.
pub open spec fn spec_is_exactly(intent: Intent, code: Seq<char>, side: Side, price: Money, qty: u32) -> bool {
    match intent {
        Intent::PlaceLimit { code: target, side: target_side, price: target_price, qty: target_qty } => target@
            == code && target_side == side && target_price == price && target_qty == qty,
        _ => false,
    }
}

fn is_exactly(intent: &Intent, code: &StockCode, side: Side, price: Money, qty: u32) -> (r: bool)
    ensures
        r == spec_is_exactly(*intent, code@, side, price, qty),
{
    match intent {
        Intent::PlaceLimit { code: target, side: target_side, price: target_price, qty: target_qty } => target.same_as(
            code,
        ) && *target_side == side && target_price.cents == price.cents && *target_qty == qty,
        _ => false,
    }
}

/// Removes the first desired intent that is exactly this order; tells whether there was one.
pub fn take_exact(desired: &mut Vec<Intent>, code: &StockCode, side: Side, price: Money, qty: u32) -> (r: bool)
    ensures
        r == (exists|i: int|
            0 <= i < old(desired)@.len() && spec_is_exactly(#[trigger] old(desired)@[i], code@, side, price, qty)),
        !r ==> final(desired)@ == old(desired)@,
        r ==> exists|i: int|
            0 <= i < old(desired)@.len() && spec_is_exactly(#[trigger] old(desired)@[i], code@, side, price, qty)
                && (forall|j: int|
                0 <= j < i ==> !spec_is_exactly(#[trigger] old(desired)@[j], code@, side, price, qty))
                && final(desired)@ == old(desired)@.remove(i),
{
    let mut i: usize = 0;
    while i < desired.len()
        invariant
            0 <= i <= desired@.len(),
            desired@ == old(desired)@,
            forall|j: int| 0 <= j < i ==> !spec_is_exactly(#[trigger] desired@[j], code@, side, price, qty),
        decreases desired@.len() - i,
    {
        if is_exactly(&desired[i], code, side, price, qty) {
            desired.remove(i);
            return true;
        }
        i += 1;
    }
    false
}

/// A placement on `code` of the other side that would trade against a resting
/// order of `resting_side` at `resting_price`.
pub open spec fn spec_crosses(intent: Intent, code: Seq<char>, resting_side: Side, resting_price: Money) -> bool {
    match intent {
        Intent::PlaceLimit { code: target, side, price, .. } => target@ == code && side != resting_side && match side {
            Side::Buy => price.cents >= resting_price.cents,
            Side::Sell => price.cents <= resting_price.cents,
        },
        Intent::PlaceMarket { code: target, side, .. } => target@ == code && side != resting_side,
        Intent::Cancel { .. } => false,
    }
}

pub fn crosses(intent: &Intent, code: &StockCode, resting_side: Side, resting_price: Money) -> (r: bool)
    ensures
        r == spec_crosses(*intent, code@, resting_side, resting_price),
{
    match intent {
        Intent::PlaceLimit { code: target, side, price, .. } => {
            if target.same_as(code) && *side != resting_side {
                match side {
                    Side::Buy => price.cents >= resting_price.cents,
                    Side::Sell => price.cents <= resting_price.cents,
                }
            } else {
                false
            }
        },
        Intent::PlaceMarket { code: target, side, .. } => target.same_as(code) && *side != resting_side,
        Intent::Cancel { .. } => false,
    }
}

/// Which working orders a reconciliation may touch.
#[derive(Debug)]
pub enum ReconcileScope {
    AllWorkingOrders,
    DesiredStockSides,
    /// The stocks the account reviewed this round, sorted.
    ReviewedStocks(Vec<StockCode>),
}

/// Whether `code` is one of the reviewed stocks of `scope`.
pub open spec fn reviews(scope: ReconcileScope, code: Seq<char>) -> bool {
    match scope {
        ReconcileScope::ReviewedStocks(stocks) => has_code(stocks@, code),
        _ => false,
    }
}

pub(crate) fn scope_reviews(scope: &ReconcileScope, code: &StockCode) -> (r: bool)
    ensures
        r == reviews(*scope, code@),
{
    match scope {
        ReconcileScope::ReviewedStocks(stocks) => {
            let mut i: usize = 0;
            while i < stocks.len()
                invariant
                    0 <= i <= stocks@.len(),
                    reviews(*scope, code@) == has_code(stocks@, code@),
                    forall|j: int| 0 <= j < i ==> (#[trigger] stocks@[j])@ != code@,
                decreases stocks@.len() - i,
            {
                if stocks[i].same_as(code) {
                    assert(stocks@[i as int]@ == code@);
                    assert(has_code(stocks@, code@));
                    return true;
                }
                i += 1;
            }
            false
        },
        _ => false,
    }
}

/// A desired intent that may stay while a non-cancelable auction order rests
/// on `code` at `side` and `price`.
pub open spec fn survives(intent: Intent, code: Seq<char>, side: Side, price: Money, reviewed: bool) -> bool {
    &&& (!reviewed || intent is Cancel || code_of(intent)@ != code)
    &&& !spec_same_side(intent, code, side)
    &&& !spec_crosses(intent, code, side, price)
}

/// The desired intents that survive, in their order.
pub open spec fn surviving(desired: Seq<Intent>, code: Seq<char>, side: Side, price: Money, reviewed: bool) -> Seq<
    Intent,
>
    decreases desired.len(),
{
    if desired.len() == 0 {
        desired
    } else {
        let rest = surviving(desired.drop_last(), code, side, price, reviewed);
        if survives(desired.last(), code, side, price, reviewed) {
            rest.push(desired.last())
        } else {
            rest
        }
    }
}

/// While a non-cancelable auction order rests, drops the desired intents that
/// would duplicate or cross it, and on a reviewed stock every placement there.
pub fn suppress_noncancelable(
    desired: &mut Vec<Intent>,
    code: &StockCode,
    side: Side,
    price: Money,
    scope: &ReconcileScope,
)
    ensures
        final(desired)@ == surviving(old(desired)@, code@, side, price, reviews(*scope, code@)),
{
    let reviewed = scope_reviews(scope, code);
    let mut kept: Vec<Intent> = Vec::new();
    let mut i: usize = 0;
    while i < desired.len()
        invariant
            0 <= i <= desired@.len(),
            desired@ == old(desired)@,
            kept@ == surviving(desired@.take(i as int), code@, side, price, reviewed),
        decreases desired@.len() - i,
    {
        let intent = &desired[i];
        let placed_here = match intent {
            Intent::Cancel { .. } => false,
            _ => intent_code(intent).same_as(code),
        };
        let keep = (!reviewed || !placed_here) && !same_side(intent, code, side) && !crosses(
            intent,
            code,
            side,
            price,
        );
        proof {
            assert(desired@.take(i + 1).drop_last() =~= desired@.take(i as int));
            assert(desired@.take(i + 1).last() == desired@[i as int]);
        }
        if keep {
            kept.push(intent.clone());
        }
        i += 1;
    }
    assert(desired@.take(desired@.len() as int) =~= desired@);
    *desired = kept;
}

/// NPC requests produced by one committed version, waiting for the next market tick.
#[derive(Debug)]
pub struct PendingNpcBatch {
    pub observed_tick: u64,
    pub observed_accounts: Vec<AccountId>,
    pub intents: Vec<(AccountId, Intent)>,
    /// Cancellation before replacement admission, by intent position.
    pub dependencies: Vec<(usize, usize)>,
}

/// Why a dependency between queued intents is refused.
#[derive(Clone, Copy, Debug, PartialEq, Eq, Structural)]
pub enum DependencyError {
    /// It must name an earlier and a later queued intent.
    NotEarlierAndLater { before: usize, after: usize },
    Duplicated { before: usize, after: usize },
    PredecessorNotCancellation { before: usize, after: usize },
    SuccessorNotPlacement { before: usize, after: usize },
    /// Both intents must belong to the same account and stock.
    DifferentAccountOrStock { before: usize, after: usize },
}

/// The error of the `i`-th dependency, given that none before it failed.
pub open spec fn dependency_error(intents: Seq<(AccountId, Intent)>, deps: Seq<(usize, usize)>, i: int) -> Option<
    DependencyError,
> {
    let (before, after) = deps[i];
    if before >= after || after >= intents.len() {
        Some(DependencyError::NotEarlierAndLater { before, after })
    } else if exists|j: int| 0 <= j < i && #[trigger] deps[j] == deps[i] {
        Some(DependencyError::Duplicated { before, after })
    } else if !(intents[before as int].1 is Cancel) {
        Some(DependencyError::PredecessorNotCancellation { before, after })
    } else if intents[after as int].1 is Cancel {
        Some(DependencyError::SuccessorNotPlacement { before, after })
    } else if intents[before as int].0 != intents[after as int].0 || code_of(intents[before as int].1)@ != code_of(
        intents[after as int].1,
    )@ {
        Some(DependencyError::DifferentAccountOrStock { before, after })
    } else {
        None
    }
}

impl PendingNpcBatch {
    /// Checks every dependency in order and reports the first one refused.
    pub fn validate_dependencies(&self) -> (r: Result<(), DependencyError>)
        ensures
            r is Ok <==> forall|i: int|
                0 <= i < self.dependencies@.len() ==> #[trigger] dependency_error(
                    self.intents@,
                    self.dependencies@,
                    i,
                ) is None,
            r is Err ==> exists|i: int|
                0 <= i < self.dependencies@.len() && dependency_error(self.intents@, self.dependencies@, i) == Some(
                    r->Err_0,
                ) && forall|j: int|
                    0 <= j < i ==> #[trigger] dependency_error(self.intents@, self.dependencies@, j) is None,
    {
        let deps = &self.dependencies;
        let intents = &self.intents;
        let mut i: usize = 0;
        while i < deps.len()
            invariant
                0 <= i <= deps@.len(),
                deps@ == self.dependencies@,
                intents@ == self.intents@,
                forall|j: int| 0 <= j < i ==> #[trigger] dependency_error(intents@, deps@, j) is None,
            decreases deps@.len() - i,
        {
            let (before, after) = deps[i];
            if before >= after || after >= intents.len() {
                assert(dependency_error(intents@, deps@, i as int) == Some(DependencyError::NotEarlierAndLater { before, after }));
                return Err(DependencyError::NotEarlierAndLater { before, after });
            }
            let mut j: usize = 0;
            while j < i
                invariant
                    0 <= j <= i < deps@.len(),
                    deps@[i as int] == (before, after),
                    before < after,
                    after < intents@.len(),
                    deps@ == self.dependencies@,
                    intents@ == self.intents@,
                    forall|m: int| 0 <= m < i ==> #[trigger] dependency_error(intents@, deps@, m) is None,
                    forall|m: int| 0 <= m < j ==> #[trigger] deps@[m] != deps@[i as int],
                decreases i - j,
            {
                let (b, a) = deps[j];
                if b == before && a == after {
                    assert(deps@[j as int] == deps@[i as int]);
                    assert(dependency_error(intents@, deps@, i as int) == Some(DependencyError::Duplicated { before, after }));
                    return Err(DependencyError::Duplicated { before, after });
                }
                j += 1;
            }
            let (before_owner, before_intent) = (&intents[before].0, &intents[before].1);
            let (after_owner, after_intent) = (&intents[after].0, &intents[after].1);
            let before_code = match before_intent {
                Intent::Cancel { code, .. } => code,
                _ => {
                    assert(dependency_error(intents@, deps@, i as int) == Some(DependencyError::PredecessorNotCancellation { before, after }));
                    return Err(DependencyError::PredecessorNotCancellation { before, after });
                },
            };
            let after_code = match after_intent {
                Intent::PlaceLimit { code, .. } => code,
                Intent::PlaceMarket { code, .. } => code,
                Intent::Cancel { .. } => {
                    assert(dependency_error(intents@, deps@, i as int) == Some(DependencyError::SuccessorNotPlacement { before, after }));
                    return Err(DependencyError::SuccessorNotPlacement { before, after });
                },
            };
            if before_owner.0 != after_owner.0 || !before_code.same_as(after_code) {
                assert(dependency_error(intents@, deps@, i as int) == Some(DependencyError::DifferentAccountOrStock { before, after }));
                return Err(DependencyError::DifferentAccountOrStock { before, after });
            }
            i += 1;
        }
        Ok(())
    }
}

} // verus!
