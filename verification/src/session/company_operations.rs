//! The seam between the company scheduler and the civil clock: every item the
//! scheduler has pending is mirrored into the clock's due queue exactly once.
use std::collections::BTreeSet;

use vstd::prelude::*;

use super::civil_clock::{insert_sorted, CivilClock, CivilClockError, ClockView, DueBusiness, DueBusinessId, DueKind};
use super::civil_date::{date_lt, spec_day_status, CivilDate};

verus! {

broadcast use {vstd::laws_cmp::group_laws_cmp, vstd::std_specs::btree::group_btree_axioms};

/// What the company scheduler will do on a due date.
#[derive(Clone, Copy, Debug, PartialEq, Eq, Structural)]
pub enum ScheduledAction {
    InterestAccrual,
    ContractMaturity,
}

/// An item pending in the company scheduler.
#[derive(Clone, Copy, Debug, PartialEq, Eq, Structural)]
pub struct ScheduledDue {
    pub id: u64,
    pub due_date: CivilDate,
    pub action: ScheduledAction,
}

/// Errors of the seam.
#[derive(Clone, Debug, PartialEq, Eq)]
pub enum CompanyOperationsSeamError {
    Clock(CivilClockError),
}

pub open spec fn spec_due_kind(action: ScheduledAction) -> DueKind {
    match action {
        ScheduledAction::InterestAccrual => DueKind::InterestAccrual,
        ScheduledAction::ContractMaturity => DueKind::ContractMaturity,
    }
}

/// The clock's due kind of a scheduled action.
pub fn due_kind_of(action: &ScheduledAction) -> (k: DueKind)
    ensures
        k == spec_due_kind(*action),
{
    match action {
        ScheduledAction::InterestAccrual => DueKind::InterestAccrual,
        ScheduledAction::ContractMaturity => DueKind::ContractMaturity,
    }
}

/// What registering an item does to a clock.
pub open spec fn spec_register(v: ClockView, due_date: CivilDate, kind: DueKind) -> Result<ClockView, CivilClockError> {
    if date_lt(due_date, v.current) {
        Err(CivilClockError::DueRegistrationInPast { kind, due_date, current: v.current })
    } else {
        match spec_day_status(v.calendar, due_date) {
            Err(e) => Err(CivilClockError::Calendar(e)),
            Ok(_) => Ok(
                ClockView {
                    calendar: v.calendar,
                    start: v.start,
                    current: v.current,
                    settled: v.settled,
                    next_seq: (v.next_seq + 1) as u32,
                    pending: insert_sorted(v.pending, DueBusiness { id: DueBusinessId(v.next_seq), due_date, kind }),
                },
            ),
        }
    }
}

/// The state of a synchronisation: the mirrored ids, the clock, and either the
/// count of items registered so far or the error that stopped it.
pub struct SyncState {
    pub mirrored: Set<u64>,
    pub clock: ClockView,
    pub outcome: Result<int, CivilClockError>,
}

/// Synchronising `pending` in order: an item whose id is not yet mirrored is
/// registered with the clock and, once registered, mirrored; the first
/// refusal stops the walk and leaves that item unmirrored, so that a later
/// synchronisation registers it.
pub open spec fn spec_sync(mirrored: Set<u64>, clock: ClockView, pending: Seq<ScheduledDue>) -> SyncState
    decreases pending.len(),
{
    if pending.len() == 0 {
        SyncState { mirrored, clock, outcome: Ok(0) }
    } else {
        let prev = spec_sync(mirrored, clock, pending.drop_last());
        let d = pending.last();
        match prev.outcome {
            Err(_) => prev,
            Ok(n) => if prev.mirrored.contains(d.id) {
                prev
            } else {
                match spec_register(prev.clock, d.due_date, spec_due_kind(d.action)) {
                    Err(e) => SyncState { mirrored: prev.mirrored, clock: prev.clock, outcome: Err(e) },
                    Ok(c) => SyncState { mirrored: prev.mirrored.insert(d.id), clock: c, outcome: Ok(n + 1) },
                }
            },
        }
    }
}

/// Once a synchronisation has stopped on an error, later items change nothing.
proof fn lemma_sync_stops(mirrored: Set<u64>, clock: ClockView, pending: Seq<ScheduledDue>, k: int)
    requires
        0 <= k <= pending.len(),
        spec_sync(mirrored, clock, pending.take(k)).outcome is Err,
    ensures
        spec_sync(mirrored, clock, pending) == spec_sync(mirrored, clock, pending.take(k)),
    decreases pending.len(),
{
    if k == pending.len() {
        assert(pending.take(k) =~= pending);
    } else {
        assert(pending.drop_last().take(k) =~= pending.take(k));
        lemma_sync_stops(mirrored, clock, pending.drop_last(), k);
    }
}


/// The ids of the scheduler's pending items.
pub open spec fn pending_ids(pending: Seq<ScheduledDue>) -> Set<u64> {
    Set::new(|id: u64| exists|i: int| 0 <= i < pending.len() && (#[trigger] pending[i]).id == id)
}

/// The mirror of the scheduler's pending items in the civil clock.
#[derive(Clone, Debug)]
pub struct CompanyOperationsClockWiring {
    mirrored: BTreeSet<u64>,
}

impl View for CompanyOperationsClockWiring {
    type V = Set<u64>;

    closed spec fn view(&self) -> Set<u64> {
        self.mirrored@
    }
}

impl CompanyOperationsClockWiring {
    pub fn new() -> (w: CompanyOperationsClockWiring)
        ensures
            w@ == Set::<u64>::empty(),
    {
        CompanyOperationsClockWiring { mirrored: BTreeSet::new() }
    }

    /// Mirrors every pending item into the clock, at the start of a game or
    /// after a restore.
    pub fn install(&mut self, clock: &mut CivilClock, pending: &Vec<ScheduledDue>) -> (r: Result<
        usize,
        CompanyOperationsSeamError,
    >)
        requires
            old(clock).wf(),
            old(clock)@.next_seq + pending@.len() < u32::MAX,
        ensures
            final(clock).wf(),
            ({
                let s = spec_sync(old(self)@, old(clock)@, pending@);
                &&& final(self)@ == s.mirrored
                &&& final(clock)@ == s.clock
                &&& match s.outcome {
                    Ok(n) => r == Ok::<usize, CompanyOperationsSeamError>(n as usize),
                    Err(e) => r == Err::<usize, CompanyOperationsSeamError>(CompanyOperationsSeamError::Clock(e)),
                }
            }),
    {
        self.sync(clock, pending)
    }

    /// Registers with the clock each pending item not mirrored yet.
    pub fn sync(&mut self, clock: &mut CivilClock, pending: &Vec<ScheduledDue>) -> (r: Result<
        usize,
        CompanyOperationsSeamError,
    >)
        requires
            old(clock).wf(),
            old(clock)@.next_seq + pending@.len() < u32::MAX,
        ensures
            final(clock).wf(),
            ({
                let s = spec_sync(old(self)@, old(clock)@, pending@);
                &&& final(self)@ == s.mirrored
                &&& final(clock)@ == s.clock
                &&& match s.outcome {
                    Ok(n) => r == Ok::<usize, CompanyOperationsSeamError>(n as usize),
                    Err(e) => r == Err::<usize, CompanyOperationsSeamError>(CompanyOperationsSeamError::Clock(e)),
                }
            }),
    {
        let ghost m0 = self@;
        let ghost c0 = clock@;
        let mut registered: usize = 0;
        let mut i: usize = 0;
        while i < pending.len()
            invariant
                0 <= i <= pending@.len(),
                m0 == old(self)@,
                c0 == old(clock)@,
                clock.wf(),
                c0.next_seq + pending@.len() < u32::MAX,
                registered <= i,
                clock@.next_seq == c0.next_seq + registered,
                ({
                    let s = spec_sync(m0, c0, pending@.take(i as int));
                    &&& self@ == s.mirrored
                    &&& clock@ == s.clock
                    &&& s.outcome == Ok::<int, CivilClockError>(registered as int)
                }),
            decreases pending@.len() - i,
        {
            let due = pending[i];
            proof {
                assert(pending@.take(i + 1).drop_last() =~= pending@.take(i as int));
                assert(pending@.take(i + 1).last() == due);
            }
            let ghost prev = spec_sync(m0, c0, pending@.take(i as int));
            if !self.mirrored.contains(&due.id) {
                let kind = due_kind_of(&due.action);
                match clock.register_due(due.due_date, kind) {
                    Err(e) => {
                        proof {
                            assert(spec_register(prev.clock, due.due_date, kind) == Err::<ClockView, CivilClockError>(e));
                            assert(spec_sync(m0, c0, pending@.take(i + 1)).outcome == Err::<int, CivilClockError>(e));
                            lemma_sync_stops(m0, c0, pending@, i + 1);
                            assert(spec_sync(m0, c0, pending@).outcome == Err::<int, CivilClockError>(e));
                        }
                        return Err(CompanyOperationsSeamError::Clock(e));
                    },
                    Ok(_) => {},
                }
                self.mirrored.insert(due.id);
                registered = registered + 1;
            }
            i += 1;
        }
        assert(pending@.take(pending@.len() as int) =~= pending@);
        Ok(registered)
    }

    /// On restore: every pending item counts as mirrored, since the restored
    /// clock already holds their earlier registrations.
    pub fn adopt_all_pending(&mut self, pending: &Vec<ScheduledDue>)
        ensures
            final(self)@ == pending_ids(pending@),
    {
        let mut ids: BTreeSet<u64> = BTreeSet::new();
        let mut i: usize = 0;
        while i < pending.len()
            invariant
                0 <= i <= pending@.len(),
                ids@ == pending_ids(pending@.take(i as int)),
            decreases pending@.len() - i,
        {
            proof {
                assert(pending_ids(pending@.take(i + 1)) =~= pending_ids(pending@.take(i as int)).insert(
                    pending@[i as int].id,
                )) by {
                    assert forall|id: u64| #[trigger]
                        pending_ids(pending@.take(i + 1)).contains(id) <==> pending_ids(
                            pending@.take(i as int),
                        ).insert(pending@[i as int].id).contains(id) by {
                        if pending_ids(pending@.take(i + 1)).contains(id) {
                            let k = choose|k: int|
                                0 <= k < pending@.take(i + 1).len() && (#[trigger] pending@.take(i + 1)[k]).id == id;
                            if k < i {
                                assert(pending@.take(i as int)[k] == pending@.take(i + 1)[k]);
                            }
                        }
                        if pending_ids(pending@.take(i as int)).contains(id) {
                            let k = choose|k: int|
                                0 <= k < pending@.take(i as int).len() && (#[trigger] pending@.take(
                                    i as int,
                                )[k]).id == id;
                            assert(pending@.take(i + 1)[k] == pending@.take(i as int)[k]);
                        }
                        if id == pending@[i as int].id {
                            assert(pending@.take(i + 1)[i as int] == pending@[i as int]);
                        }
                    }
                }
            }
            ids.insert(pending[i].id);
            i += 1;
        }
        assert(pending@.take(pending@.len() as int) =~= pending@);
        self.mirrored = ids;
    }

    /// How many ids are mirrored.
    pub fn mirrored_count(&self) -> (n: usize)
        ensures
            n == self@.len(),
    {
        self.mirrored.len()
    }

    /// Forgets the mirrored ids that are no longer pending.
    pub fn prune_dispatched(&mut self, pending: &Vec<ScheduledDue>)
        ensures
            final(self)@ == old(self)@.intersect(pending_ids(pending@)),
    {
        let mut kept: BTreeSet<u64> = BTreeSet::new();
        let mut i: usize = 0;
        while i < pending.len()
            invariant
                0 <= i <= pending@.len(),
                kept@ == self@.intersect(pending_ids(pending@.take(i as int))),
            decreases pending@.len() - i,
        {
            let id = pending[i].id;
            proof {
                assert(pending_ids(pending@.take(i + 1)) =~= pending_ids(pending@.take(i as int)).insert(id)) by {
                    assert forall|x: u64| #[trigger]
                        pending_ids(pending@.take(i + 1)).contains(x) <==> pending_ids(
                            pending@.take(i as int),
                        ).insert(id).contains(x) by {
                        if pending_ids(pending@.take(i + 1)).contains(x) {
                            let k = choose|k: int|
                                0 <= k < pending@.take(i + 1).len() && (#[trigger] pending@.take(i + 1)[k]).id == x;
                            if k < i {
                                assert(pending@.take(i as int)[k] == pending@.take(i + 1)[k]);
                            }
                        }
                        if pending_ids(pending@.take(i as int)).contains(x) {
                            let k = choose|k: int|
                                0 <= k < pending@.take(i as int).len() && (#[trigger] pending@.take(
                                    i as int,
                                )[k]).id == x;
                            assert(pending@.take(i + 1)[k] == pending@.take(i as int)[k]);
                        }
                        if x == id {
                            assert(pending@.take(i + 1)[i as int] == pending@[i as int]);
                        }
                    }
                }
            }
            if self.mirrored.contains(&id) {
                kept.insert(id);
            }
            proof {
                assert(kept@ =~= self@.intersect(pending_ids(pending@.take(i + 1))));
            }
            i += 1;
        }
        assert(pending@.take(pending@.len() as int) =~= pending@);
        self.mirrored = kept;
    }
}

/// A completed synchronisation mirrors every pending id and forgets none.
proof fn lemma_sync_mirrors_all(mirrored: Set<u64>, clock: ClockView, pending: Seq<ScheduledDue>)
    requires
        spec_sync(mirrored, clock, pending).outcome is Ok,
    ensures
        mirrored.subset_of(spec_sync(mirrored, clock, pending).mirrored),
        forall|i: int|
            0 <= i < pending.len() ==> spec_sync(mirrored, clock, pending).mirrored.contains(#[trigger] pending[i].id),
    decreases pending.len(),
{
    if pending.len() > 0 {
        let t = pending.drop_last();
        lemma_sync_mirrors_all(mirrored, clock, t);
        assert forall|i: int| 0 <= i < pending.len() implies spec_sync(mirrored, clock, pending).mirrored.contains(
            #[trigger] pending[i].id,
        ) by {
            if i < pending.len() - 1 {
                assert(t[i] == pending[i]);
            }
        }
    }
}

/// Synchronising items that are all mirrored registers nothing.
proof fn lemma_sync_all_mirrored(mirrored: Set<u64>, clock: ClockView, pending: Seq<ScheduledDue>)
    requires
        forall|i: int| 0 <= i < pending.len() ==> mirrored.contains(#[trigger] pending[i].id),
    ensures
        spec_sync(mirrored, clock, pending) == (SyncState { mirrored, clock, outcome: Ok(0) }),
    decreases pending.len(),
{
    if pending.len() > 0 {
        let t = pending.drop_last();
        assert forall|i: int| 0 <= i < t.len() implies mirrored.contains(#[trigger] t[i].id) by {
            assert(t[i] == pending[i]);
        }
        lemma_sync_all_mirrored(mirrored, clock, t);
        assert(mirrored.contains(pending[pending.len() - 1].id));
    }
}

/// Synchronising again with the same pending items registers nothing and
/// changes neither the mirror nor the clock.
pub proof fn law_sync_is_idempotent(mirrored: Set<u64>, clock: ClockView, pending: Seq<ScheduledDue>)
    requires
        spec_sync(mirrored, clock, pending).outcome is Ok,
    ensures
        ({
            let first = spec_sync(mirrored, clock, pending);
            spec_sync(first.mirrored, first.clock, pending) == (SyncState {
                mirrored: first.mirrored,
                clock: first.clock,
                outcome: Ok(0),
            })
        }),
{
    lemma_sync_mirrors_all(mirrored, clock, pending);
    let first = spec_sync(mirrored, clock, pending);
    lemma_sync_all_mirrored(first.mirrored, first.clock, pending);
}

} // verus!
