//! The civil-day clock of the session: it advances calendar days apart from
//! ticks and market minutes, and dispatches each registered due item exactly
//! once, on its date. Every day-end is validated in full before anything is
//! applied: whenever it returns an error the clock is left as it was.
use vstd::prelude::*;

use super::civil_date::{
    date_le, date_lt, lemma_key_injective, lemma_next_date, lemma_next_is_least_later, next_date, spec_day_status,
    valid_date, ymd_key, CalendarError, CivilDate, CivilDateError, DayStatus, TradingCalendar,
};

verus! {

/// Kind of a due item; amounts and postings belong to the company side.
#[derive(Clone, Copy, Debug, PartialEq, Eq, Structural)]
pub enum DueKind {
    /// Contract interest accrued per civil day.
    InterestAccrual,
    /// Settlement or callback when a contract matures.
    ContractMaturity,
}

/// Id of a due item: allocated by the clock in increasing order, never reused.
#[derive(Clone, Copy, Debug, PartialEq, Eq, PartialOrd, Ord, Hash, Structural)]
pub struct DueBusinessId(pub u32);

impl DueBusinessId {
    pub fn value(self) -> (v: u32)
        ensures
            v == self.0,
    {
        self.0
    }
}

/// A registered due item.
#[derive(Clone, Copy, Debug, PartialEq, Eq, Structural)]
pub struct DueBusiness {
    pub id: DueBusinessId,
    pub due_date: CivilDate,
    pub kind: DueKind,
}

/// The stable phase of the current civil day.
#[derive(Clone, Copy, Debug, PartialEq, Eq, Structural)]
pub enum CivilPhase {
    IntradayTrading,
    ClosedDay,
}

/// An instant of a civil day.
#[derive(Clone, Copy, Debug, PartialEq, Eq, Structural)]
pub struct CivilInstant {
    pub date: CivilDate,
    pub hour: u8,
    pub minute: u8,
    pub second: u8,
}

/// The record of one civil day-end.
#[derive(Clone, Debug, PartialEq, Eq)]
pub struct CivilDayEndReport {
    pub settled_date: CivilDate,
    /// The items due on the settled day, in registration order.
    pub dispatched_due: Vec<DueBusiness>,
    /// The 18:00 disclosure instant of the settled day.
    pub disclosure_instant: CivilInstant,
    pub next_date: CivilDate,
    pub next_status: DayStatus,
}

/// The saved state of the clock.
#[derive(Clone, Debug, PartialEq, Eq)]
pub struct CivilClockSave {
    pub current_date: CivilDate,
    /// The last settled day; `None` before the first day-end.
    pub settled_through: Option<CivilDate>,
    pub next_due_seq: u32,
    /// Pending items in ascending (due date, id) order.
    pub pending_due: Vec<DueBusiness>,
}

/// How a saved clock contradicts itself.
#[derive(Clone, Copy, Debug, PartialEq, Eq, Structural)]
pub enum ClockInconsistency {
    CurrentBeforeStart,
    /// Nothing settled yet, but the current day is not the start.
    UnsettledButMoved,
    /// The settled day is not the day before the current one.
    SettledNotDayBefore,
    DueIdNotBelowNextSeq { due: DueBusiness },
    DueBeforeCurrent { due: DueBusiness },
    /// Pending items dated before the current day.
    StaleDue { count: usize },
}

/// Civil clock errors; whenever one is returned the clock is unchanged.
#[derive(Clone, Debug, PartialEq, Eq)]
pub enum CivilClockError {
    Calendar(CalendarError),
    CivilDate(CivilDateError),
    /// The day-end would move past the last day of the calendar.
    BeyondRuntimeCeiling { next: CivilDate, ceiling: CivilDate },
    DuplicateDayEnd { date: CivilDate, settled_through: Option<CivilDate> },
    OutOfOrderDayEnd { date: CivilDate, current: CivilDate },
    /// Days must be ended one by one; skipped due items may not be lost.
    SkippedCivilDays { from: CivilDate, to: CivilDate, unprocessed: Vec<DueBusiness> },
    DueRegistrationInPast { kind: DueKind, due_date: CivilDate, current: CivilDate },
    /// Market sessions and civil days out of step.
    MarketSessionOutOfSync { date: CivilDate, completed_sessions: u32, expected_sessions: u32 },
    SaveInconsistent { detail: ClockInconsistency },
}

/// The civil clock: the trading calendar and the queue of due items; it
/// holds no market state.
#[derive(Debug)]
pub struct CivilClock {
    calendar: TradingCalendar,
    start_date: CivilDate,
    current_date: CivilDate,
    settled_through: Option<CivilDate>,
    next_due_seq: u32,
    pending: Vec<DueBusiness>,
}

/// The clock as a value.
pub struct ClockView {
    pub calendar: TradingCalendar,
    pub start: CivilDate,
    pub current: CivilDate,
    pub settled: Option<CivilDate>,
    pub next_seq: u32,
    pub pending: Seq<DueBusiness>,
}

/// What ending the civil day `date` does to a clock in state `o`, leaving it
/// in state `f` with result `r`: the day-end of the current day moves the
/// clock to the next calendar day and dispatches the day's items; each
/// refusal names its reason.
pub open spec fn end_day_outcome(
    o: ClockView,
    f: ClockView,
    date: CivilDate,
    r: Result<CivilDayEndReport, CivilClockError>,
) -> bool {
    match r {
        Ok(rep) => {
            &&& o.settled != Some(date)
            &&& date == o.current
            &&& next_date(date) is Some
            &&& !date_lt(o.calendar.last_day, next_date(date)->Some_0)
            &&& spec_day_status(o.calendar, next_date(date)->Some_0) == Ok::<DayStatus, CalendarError>(
                rep.next_status,
            )
            &&& rep.settled_date == date
            &&& rep.dispatched_due@ == dues_on(o.pending, date)
            &&& rep.disclosure_instant == CivilInstant { date, hour: 18, minute: 0, second: 0 }
            &&& rep.next_date == next_date(date)->Some_0
            &&& f.pending == dues_not_on(o.pending, date)
            &&& f.current == rep.next_date
            &&& f.settled == Some(date)
            &&& f.calendar == o.calendar
            &&& f.start == o.start
            &&& f.next_seq == o.next_seq
        },
        Err(CivilClockError::DuplicateDayEnd { date: d, settled_through }) => o.settled == Some(date) && d
            == date && settled_through == o.settled,
        Err(CivilClockError::OutOfOrderDayEnd { date: d, current }) => o.settled != Some(date) && date_lt(
            date,
            o.current,
        ) && d == date && current == o.current,
        Err(CivilClockError::SkippedCivilDays { from, to, unprocessed }) => o.settled != Some(date)
            && date_lt(o.current, date) && from == o.current && to == date && unprocessed@ == dues_before(
            o.pending,
            date,
        ),
        Err(CivilClockError::CivilDate(e)) => o.settled != Some(date) && date == o.current && next_date(
            date,
        ) is None && e == CivilDateError::BeyondWindow,
        Err(CivilClockError::BeyondRuntimeCeiling { next, ceiling }) => o.settled != Some(date) && date
            == o.current && next_date(date) == Some(next) && ceiling == o.calendar.last_day && date_lt(
            ceiling,
            next,
        ),
        Err(CivilClockError::Calendar(e)) => o.settled != Some(date) && date == o.current && next_date(
            date,
        ) is Some && !date_lt(o.calendar.last_day, next_date(date)->Some_0) && spec_day_status(
            o.calendar,
            next_date(date)->Some_0,
        ) == Err::<DayStatus, CalendarError>(e),
        Err(_) => false,
    }
}

impl View for CivilClock {
    type V = ClockView;

    closed spec fn view(&self) -> ClockView {
        ClockView {
            calendar: self.calendar,
            start: self.start_date,
            current: self.current_date,
            settled: self.settled_through,
            next_seq: self.next_due_seq,
            pending: self.pending@,
        }
    }
}

/// Queue order: by due date, then by id.
pub open spec fn due_le(a: DueBusiness, b: DueBusiness) -> bool {
    date_lt(a.due_date, b.due_date) || (ymd_key(a.due_date@) == ymd_key(b.due_date@) && a.id.0 <= b.id.0)
}

pub open spec fn sorted_due(s: Seq<DueBusiness>) -> bool {
    forall|i: int, j: int| 0 <= i < j < s.len() ==> due_le(#[trigger] s[i], #[trigger] s[j])
}

/// Where `x` goes in a sorted queue: after every item that does not come after it.
pub open spec fn insert_pos(s: Seq<DueBusiness>, x: DueBusiness) -> int
    decreases s.len(),
{
    if s.len() == 0 {
        0
    } else if due_le(s.last(), x) {
        s.len() as int
    } else {
        insert_pos(s.drop_last(), x)
    }
}

pub open spec fn insert_sorted(s: Seq<DueBusiness>, x: DueBusiness) -> Seq<DueBusiness> {
    s.insert(insert_pos(s, x), x)
}

/// `s` in queue order; items that tie keep their order.
pub open spec fn sort_due(s: Seq<DueBusiness>) -> Seq<DueBusiness>
    decreases s.len(),
{
    if s.len() == 0 {
        s
    } else {
        insert_sorted(sort_due(s.drop_last()), s.last())
    }
}

/// The items of `s` due on `d`, in order.
pub open spec fn dues_on(s: Seq<DueBusiness>, d: CivilDate) -> Seq<DueBusiness>
    decreases s.len(),
{
    if s.len() == 0 {
        s
    } else if s.last().due_date == d {
        dues_on(s.drop_last(), d).push(s.last())
    } else {
        dues_on(s.drop_last(), d)
    }
}

/// The items of `s` not due on `d`, in order.
pub open spec fn dues_not_on(s: Seq<DueBusiness>, d: CivilDate) -> Seq<DueBusiness>
    decreases s.len(),
{
    if s.len() == 0 {
        s
    } else if s.last().due_date != d {
        dues_not_on(s.drop_last(), d).push(s.last())
    } else {
        dues_not_on(s.drop_last(), d)
    }
}

/// The items of `s` due before `d`, in order.
pub open spec fn dues_before(s: Seq<DueBusiness>, d: CivilDate) -> Seq<DueBusiness>
    decreases s.len(),
{
    if s.len() == 0 {
        s
    } else if date_lt(s.last().due_date, d) {
        dues_before(s.drop_last(), d).push(s.last())
    } else {
        dues_before(s.drop_last(), d)
    }
}

/// The invariant of the clock.
pub open spec fn clock_wf(v: ClockView) -> bool {
    &&& !date_lt(v.start, v.calendar.first_day) && !date_lt(v.calendar.last_day, v.start)
    &&& valid_date(v.start)
    &&& valid_date(v.current)
    &&& date_le(v.start, v.current)
    &&& match v.settled {
        None => v.current == v.start,
        Some(s) => valid_date(s) && date_le(v.start, s) && next_date(s) == Some(v.current),
    }
    &&& sorted_due(v.pending)
    &&& forall|i: int|
        0 <= i < v.pending.len() ==> {
            &&& (#[trigger] v.pending[i]).id.0 < v.next_seq
            &&& valid_date(v.pending[i].due_date)
            &&& date_le(v.current, v.pending[i].due_date)
        }
}

proof fn lemma_due_le_transitive(a: DueBusiness, b: DueBusiness, c: DueBusiness)
    requires
        due_le(a, b),
        due_le(b, c),
    ensures
        due_le(a, c),
{
}

proof fn lemma_insert_pos(s: Seq<DueBusiness>, x: DueBusiness)
    requires
        sorted_due(s),
    ensures
        0 <= insert_pos(s, x) <= s.len(),
        forall|i: int| 0 <= i < insert_pos(s, x) ==> due_le(#[trigger] s[i], x),
        forall|i: int| insert_pos(s, x) <= i < s.len() ==> !due_le(#[trigger] s[i], x),
    decreases s.len(),
{
    if s.len() > 0 {
        let n = s.len() - 1;
        if due_le(s[n], x) {
            assert forall|i: int| 0 <= i < s.len() implies due_le(#[trigger] s[i], x) by {
                if i < n {
                    assert(due_le(s[i], s[n]));
                    lemma_due_le_transitive(s[i], s[n], x);
                }
            }
        } else {
            let t = s.drop_last();
            assert forall|i: int, j: int| 0 <= i < j < t.len() implies due_le(#[trigger] t[i], #[trigger] t[j]) by {
                assert(t[i] == s[i] && t[j] == s[j]);
            }
            lemma_insert_pos(t, x);
            let p = insert_pos(t, x);
            assert forall|i: int| 0 <= i < p implies due_le(#[trigger] s[i], x) by {
                assert(t[i] == s[i]);
            }
            assert forall|i: int| p <= i < s.len() implies !due_le(#[trigger] s[i], x) by {
                if i < n {
                    assert(t[i] == s[i]);
                }
            }
        }
    }
}

proof fn lemma_push_contains(r: Seq<DueBusiness>, a: DueBusiness)
    ensures
        forall|y: DueBusiness| #[trigger] r.push(a).contains(y) <==> r.contains(y) || y == a,
{
    assert forall|y: DueBusiness| #[trigger] r.push(a).contains(y) <==> r.contains(y) || y == a by {
        if r.contains(y) {
            let k = choose|k: int| 0 <= k < r.len() && r[k] == y;
            assert(r.push(a)[k] == y);
        }
        if y == a {
            assert(r.push(a)[r.len() as int] == y);
        }
        if r.push(a).contains(y) {
            let k = choose|k: int| 0 <= k < r.len() + 1 && r.push(a)[k] == y;
            if k < r.len() {
                assert(r[k] == y);
            }
        }
    }
}

proof fn lemma_insert_sorted(s: Seq<DueBusiness>, x: DueBusiness)
    requires
        sorted_due(s),
    ensures
        sorted_due(insert_sorted(s, x)),
        insert_sorted(s, x).len() == s.len() + 1,
        forall|y: DueBusiness| #[trigger] insert_sorted(s, x).contains(y) <==> (s.contains(y) || y == x),
{
    lemma_insert_pos(s, x);
    let p = insert_pos(s, x);
    let r = insert_sorted(s, x);
    assert forall|i: int, j: int| 0 <= i < j < r.len() implies due_le(#[trigger] r[i], #[trigger] r[j]) by {
        if j < p {
        } else if j == p {
        } else if i < p {
            assert(!due_le(s[j - 1], x));
            lemma_due_le_transitive(s[i], x, s[j - 1]);
        } else if i == p {
            assert(!due_le(s[j - 1], x));
        }
    }
    assert forall|y: DueBusiness| #[trigger] r.contains(y) <==> (s.contains(y) || y == x) by {
        if s.contains(y) {
            let k = choose|k: int| 0 <= k < s.len() && s[k] == y;
            if k < p {
                assert(r[k] == y);
            } else {
                assert(r[k + 1] == y);
            }
        }
        if y == x {
            assert(r[p] == y);
        }
        if r.contains(y) {
            let k = choose|k: int| 0 <= k < r.len() && r[k] == y;
            if k < p {
                assert(s[k] == y);
            } else if k > p {
                assert(s[k - 1] == y);
            }
        }
    }
}

/// Sorting the queue keeps exactly its items and puts them in queue order.
pub proof fn lemma_sort_due(s: Seq<DueBusiness>)
    ensures
        sorted_due(sort_due(s)),
        sort_due(s).len() == s.len(),
        forall|y: DueBusiness| #[trigger] sort_due(s).contains(y) <==> s.contains(y),
    decreases s.len(),
{
    if s.len() > 0 {
        let t = s.drop_last();
        lemma_sort_due(t);
        lemma_insert_sorted(sort_due(t), s.last());
        assert forall|y: DueBusiness| #[trigger] sort_due(s).contains(y) <==> s.contains(y) by {
            if s.contains(y) {
                let k = choose|k: int| 0 <= k < s.len() && s[k] == y;
                if k < s.len() - 1 {
                    assert(t[k] == y);
                }
            }
            if t.contains(y) {
                let k = choose|k: int| 0 <= k < t.len() && t[k] == y;
                assert(s[k] == y);
            }
        }
    }
}

proof fn lemma_dues_split(s: Seq<DueBusiness>, d: CivilDate)
    ensures
        forall|y: DueBusiness| #[trigger] dues_on(s, d).contains(y) <==> s.contains(y) && y.due_date == d,
        forall|y: DueBusiness| #[trigger] dues_not_on(s, d).contains(y) <==> s.contains(y) && y.due_date != d,
        dues_on(s, d).len() + dues_not_on(s, d).len() == s.len(),
    decreases s.len(),
{
    if s.len() > 0 {
        let t = s.drop_last();
        let a = s.last();
        lemma_dues_split(t, d);
        assert(s =~= t.push(a));
        lemma_push_contains(t, a);
        lemma_push_contains(dues_on(t, d), a);
        lemma_push_contains(dues_not_on(t, d), a);
    }
}

proof fn lemma_dues_not_on_sorted(s: Seq<DueBusiness>, d: CivilDate)
    requires
        sorted_due(s),
    ensures
        sorted_due(dues_not_on(s, d)),
    decreases s.len(),
{
    if s.len() > 0 {
        let t = s.drop_last();
        lemma_dues_not_on_sorted(t, d);
        lemma_dues_split(t, d);
        let r = dues_not_on(t, d);
        if s.last().due_date != d {
            assert forall|i: int, j: int| 0 <= i < j < r.len() + 1 implies due_le(
                #[trigger] r.push(s.last())[i],
                #[trigger] r.push(s.last())[j],
            ) by {
                if j == r.len() {
                    assert(r.contains(r[i]));
                    let k = choose|k: int| 0 <= k < t.len() && t[k] == r[i];
                    assert(s[k] == r[i]);
                }
            }
        }
    }
}

proof fn lemma_dues_before_empty(s: Seq<DueBusiness>, d: CivilDate)
    requires
        forall|i: int| 0 <= i < s.len() ==> !date_lt(#[trigger] s[i].due_date, d),
    ensures
        dues_before(s, d).len() == 0,
    decreases s.len(),
{
    if s.len() > 0 {
        lemma_dues_before_empty(s.drop_last(), d);
    }
}

/// Keeps a clock's items that satisfy a date test, in order.
fn filter_dues(s: &Vec<DueBusiness>, d: CivilDate, mode: u8) -> (r: Vec<DueBusiness>)
    requires
        mode < 3,
    ensures
        mode == 0 ==> r@ == dues_on(s@, d),
        mode == 1 ==> r@ == dues_not_on(s@, d),
        mode == 2 ==> r@ == dues_before(s@, d),
{
    let mut out: Vec<DueBusiness> = Vec::new();
    let mut i: usize = 0;
    while i < s.len()
        invariant
            0 <= i <= s@.len(),
            mode < 3,
            mode == 0 ==> out@ == dues_on(s@.take(i as int), d),
            mode == 1 ==> out@ == dues_not_on(s@.take(i as int), d),
            mode == 2 ==> out@ == dues_before(s@.take(i as int), d),
        decreases s@.len() - i,
    {
        let item = s[i];
        proof {
            assert(s@.take(i + 1).drop_last() =~= s@.take(i as int));
            assert(s@.take(i + 1).last() == item);
        }
        let keep = if mode == 0 {
            item.due_date == d
        } else if mode == 1 {
            item.due_date != d
        } else {
            item.due_date.before(&d)
        };
        if keep {
            out.push(item);
        }
        i += 1;
    }
    assert(s@.take(s@.len() as int) =~= s@);
    out
}

/// Inserts an item into a queue in queue order.
fn insert_due(s: &mut Vec<DueBusiness>, x: DueBusiness)
    ensures
        final(s)@ == insert_sorted(old(s)@, x),
{
    let mut p = s.len();
    assert(s@.take(p as int) =~= s@);
    while p > 0 && !due_le_exec(&s[p - 1], &x)
        invariant
            0 <= p <= s@.len(),
            s@ == old(s)@,
            insert_pos(s@, x) == insert_pos(s@.take(p as int), x),
        decreases p,
    {
        proof {
            assert(s@.take(p as int).drop_last() =~= s@.take(p - 1));
        }
        p -= 1;
    }
    proof {
        if p > 0 {
            assert(s@.take(p as int).last() == s@[p - 1]);
        }
        assert(s@.take(0) =~= Seq::<DueBusiness>::empty());
    }
    s.insert(p, x);
}

fn due_le_exec(a: &DueBusiness, b: &DueBusiness) -> (r: bool)
    ensures
        r == due_le(*a, *b),
{
    a.due_date.before(&b.due_date) || (!b.due_date.before(&a.due_date) && a.id.0 <= b.id.0)
}

/// A count of sessions plus `extra`, or the error that stopped the count.
pub open spec fn add_count(r: Result<int, CivilClockError>, extra: int) -> Result<u32, CivilClockError> {
    match r {
        Ok(n) => Ok((n + extra) as u32),
        Err(e) => Err(e),
    }
}

/// The number of trading days from `from` through `to`, walking day by day.
pub open spec fn sessions_through(cal: TradingCalendar, from: CivilDate, to: CivilDate) -> Result<int, CivilClockError>
    decreases ymd_key(to@) - ymd_key(from@) + 200,
    when valid_date(from)
{
    if date_lt(to, from) {
        Ok(0)
    } else {
        proof {
            lemma_next_date(from);
        }
        match spec_day_status(cal, from) {
            Err(e) => Err(CivilClockError::Calendar(e)),
            Ok(status) => match next_date(from) {
                None => Err(CivilClockError::CivilDate(CivilDateError::BeyondWindow)),
                Some(n) => {
                    match sessions_through(cal, n, to) {
                        Err(e) => Err(e),
                        Ok(c) => Ok(
                            c + if status == DayStatus::Trading {
                                1int
                            } else {
                                0int
                            },
                        ),
                    }
                },
            },
        }
    }
}

impl CivilClock {
    /// The clock invariant.
    pub open spec fn wf(&self) -> bool {
        clock_wf(self@)
    }

    /// A clock on `start_date`, which must be a day of the calendar; a closed
    /// start stays closed rather than moving to the next trading day.
    pub fn new(start_date: CivilDate, calendar: TradingCalendar) -> (r: Result<CivilClock, CivilClockError>)
        ensures
            match r {
                Ok(c) => {
                    &&& !date_lt(start_date, calendar.first_day) && !date_lt(calendar.last_day, start_date)
                    &&& c.wf()
                    &&& c@.calendar == calendar
                    &&& c@.start == start_date
                    &&& c@.current == start_date
                    &&& c@.settled is None
                    &&& c@.next_seq == 1
                    &&& c@.pending.len() == 0
                },
                Err(e) => (date_lt(start_date, calendar.first_day) || date_lt(calendar.last_day, start_date)) && e
                    == CivilClockError::Calendar(CalendarError::StartOutsideRuntime { date: start_date }),
            },
    {
        match calendar.validate_runtime_start(start_date) {
            Err(e) => {
                return Err(CivilClockError::Calendar(e));
            },
            Ok(()) => {},
        }
        start_date.check_valid();
        Ok(
            CivilClock {
                calendar,
                start_date,
                current_date: start_date,
                settled_through: None,
                next_due_seq: 1,
                pending: Vec::new(),
            },
        )
    }

    pub fn start_date(&self) -> (d: CivilDate)
        ensures
            d == self@.start,
    {
        self.start_date
    }

    pub fn current_date(&self) -> (d: CivilDate)
        ensures
            d == self@.current,
    {
        self.current_date
    }

    pub fn settled_through(&self) -> (d: Option<CivilDate>)
        ensures
            d == self@.settled,
    {
        self.settled_through
    }

    pub fn pending_due(&self) -> (p: &Vec<DueBusiness>)
        ensures
            p@ == self@.pending,
    {
        &self.pending
    }

    /// Trading day or closed day, by the calendar.
    pub fn phase(&self) -> (p: CivilPhase)
        requires
            spec_day_status(self@.calendar, self@.current) is Ok,
        ensures
            p == spec_phase(self@),
    {
        match self.calendar.day_status(self.current_date) {
            Ok(DayStatus::Trading) => CivilPhase::IntradayTrading,
            _ => CivilPhase::ClosedDay,
        }
    }

    /// Registers an item due on `due_date`, which may not be before the current
    /// day and must be a day of the calendar. Items of one kind may share a date.
    pub fn register_due(&mut self, due_date: CivilDate, kind: DueKind) -> (r: Result<DueBusiness, CivilClockError>)
        requires
            old(self).wf(),
            old(self)@.next_seq < u32::MAX,
        ensures
            final(self).wf(),
            match r {
                Ok(due) => {
                    &&& !date_lt(due_date, old(self)@.current)
                    &&& spec_day_status(old(self)@.calendar, due_date) is Ok
                    &&& due == DueBusiness { id: DueBusinessId(old(self)@.next_seq), due_date, kind }
                    &&& final(self)@.pending == insert_sorted(old(self)@.pending, due)
                    &&& final(self)@.next_seq == old(self)@.next_seq + 1
                    &&& final(self)@.calendar == old(self)@.calendar
                    &&& final(self)@.start == old(self)@.start
                    &&& final(self)@.current == old(self)@.current
                    &&& final(self)@.settled == old(self)@.settled
                },
                Err(e) => {
                    &&& final(self)@ == old(self)@
                    &&& e == if date_lt(due_date, old(self)@.current) {
                        CivilClockError::DueRegistrationInPast { kind, due_date, current: old(self)@.current }
                    } else {
                        CivilClockError::Calendar(spec_day_status(old(self)@.calendar, due_date)->Err_0)
                    }
                    &&& !date_lt(due_date, old(self)@.current) ==> spec_day_status(
                        old(self)@.calendar,
                        due_date,
                    ) is Err
                },
            },
    {
        if due_date.before(&self.current_date) {
            return Err(CivilClockError::DueRegistrationInPast { kind, due_date, current: self.current_date });
        }
        match self.calendar.day_status(due_date) {
            Err(e) => {
                return Err(CivilClockError::Calendar(e));
            },
            Ok(_) => {},
        }
        due_date.check_valid();
        let due = DueBusiness { id: DueBusinessId(self.next_due_seq), due_date, kind };
        let ghost before = self.pending@;
        proof {
            lemma_insert_sorted(before, due);
        }
        self.next_due_seq = self.next_due_seq + 1;
        insert_due(&mut self.pending, due);
        proof {
            let after = self.pending@;
            assert forall|i: int| 0 <= i < after.len() implies {
                &&& (#[trigger] after[i]).id.0 < self.next_due_seq
                &&& valid_date(after[i].due_date)
                &&& date_le(self.current_date, after[i].due_date)
            } by {
                assert(after.contains(after[i]));
                if before.contains(after[i]) {
                    let k = choose|k: int| 0 <= k < before.len() && before[k] == after[i];
                    assert(before[k].id.0 < self.next_due_seq);
                }
            }
        }
        Ok(due)
    }

    /// How many market sessions should have completed through the current
    /// day: the trading days from the start through the current day.
    pub fn completed_trading_sessions_expected(&self) -> (r: Result<u32, CivilClockError>)
        requires
            self.wf(),
        ensures
            r == add_count(sessions_through(self@.calendar, self@.start, self@.current), 0),
    {
        let mut count: u32 = 0;
        let mut cursor = self.start_date;
        let ghost total = add_count(sessions_through(self.calendar, self.start_date, self.current_date), 0);
        let ghost start_key = ymd_key(self.start_date@);
        proof {
            assert(total == add_count(sessions_through(self.calendar, cursor, self.current_date), 0));
        }
        while !self.current_date.before(&cursor)
            invariant
                valid_date(cursor),
                valid_date(self.current_date),
                valid_date(self.start_date),
                date_le(self.start_date, self.current_date),
                start_key == ymd_key(self.start_date@),
                start_key <= ymd_key(cursor@),
                count <= ymd_key(cursor@) - start_key,
                total == add_count(sessions_through(self.calendar, self.start_date, self.current_date), 0),
                total == add_count(sessions_through(self.calendar, cursor, self.current_date), count as int),
            decreases ymd_key(self.current_date@) - ymd_key(cursor@) + 200,
        {
            proof {
                lemma_next_date(cursor);
            }
            let status = match self.calendar.day_status(cursor) {
                Err(e) => {
                    return Err(CivilClockError::Calendar(e));
                },
                Ok(s) => s,
            };
            let next = match cursor.next() {
                Err(e) => {
                    return Err(CivilClockError::CivilDate(e));
                },
                Ok(n) => n,
            };
            proof {
                assert(ymd_key(self.current_date@) - ymd_key(self.start_date@) < 0x10_0000);
            }
            if status == DayStatus::Trading {
                count = count + 1;
            }
            cursor = next;
        }
        Ok(count)
    }

    /// A clock restored from a save; its state is checked in full and the
    /// pending items are put in queue order.
    pub fn from_parts(start_date: CivilDate, save: &CivilClockSave, calendar: TradingCalendar) -> (r: Result<
        CivilClock,
        CivilClockError,
    >)
        ensures
            match r {
                Ok(c) => c.wf() && c@ == restored_view(start_date, *save, calendar),
                Err(e) => restore_error(start_date, *save, calendar) == Some(e),
            },
            r is Ok <==> save_consistent(start_date, *save, calendar),
    {
        match calendar.validate_runtime_start(start_date) {
            Err(e) => {
                return Err(CivilClockError::Calendar(e));
            },
            Ok(()) => {},
        }
        start_date.check_valid();
        save.current_date.check_valid();
        if save.current_date.before(&start_date) {
            return Err(CivilClockError::SaveInconsistent { detail: ClockInconsistency::CurrentBeforeStart });
        }
        match save.settled_through {
            None => {
                if save.current_date != start_date {
                    return Err(CivilClockError::SaveInconsistent { detail: ClockInconsistency::UnsettledButMoved });
                }
            },
            Some(settled) => {
                settled.check_valid();
                let follows = match settled.next() {
                    Ok(n) => n == save.current_date,
                    Err(_) => false,
                };
                if settled.before(&start_date) || !follows {
                    return Err(
                        CivilClockError::SaveInconsistent { detail: ClockInconsistency::SettledNotDayBefore },
                    );
                }
            },
        }
        let items = &save.pending_due;
        let ghost due_error = match first_bad_due(*save, 0) {
            Some(detail) => Some(CivilClockError::SaveInconsistent { detail }),
            None => None,
        };
        assert(restore_error(start_date, *save, calendar) == due_error);
        let mut i: usize = 0;
        while i < items.len()
            invariant
                0 <= i <= items@.len(),
                items@ == save.pending_due@,
                restore_error(start_date, *save, calendar) == due_error,
                due_error == match first_bad_due(*save, 0) {
                    Some(detail) => Some(CivilClockError::SaveInconsistent { detail }),
                    None => None::<CivilClockError>,
                },
                valid_date(save.current_date),
                forall|k: int|
                    0 <= k < i ==> (#[trigger] items@[k]).id.0 < save.next_due_seq && date_le(
                        save.current_date,
                        items@[k].due_date,
                    ) && valid_date(items@[k].due_date),
            decreases items@.len() - i,
        {
            let due = items[i];
            due.due_date.check_valid();
            proof {
                lemma_first_bad_due_skip(*save, 0, i as int);
            }
            if due.id.0 >= save.next_due_seq {
                return Err(
                    CivilClockError::SaveInconsistent { detail: ClockInconsistency::DueIdNotBelowNextSeq { due } },
                );
            }
            if due.due_date.before(&save.current_date) {
                return Err(CivilClockError::SaveInconsistent { detail: ClockInconsistency::DueBeforeCurrent { due } });
            }
            i += 1;
        }
        let mut pending: Vec<DueBusiness> = Vec::new();
        let mut j: usize = 0;
        while j < items.len()
            invariant
                0 <= j <= items@.len(),
                pending@ == sort_due(items@.take(j as int)),
            decreases items@.len() - j,
        {
            proof {
                assert(items@.take(j + 1).drop_last() =~= items@.take(j as int));
                assert(items@.take(j + 1).last() == items@[j as int]);
            }
            insert_due(&mut pending, items[j]);
            j += 1;
        }
        assert(items@.take(items@.len() as int) =~= items@);
        proof {
            lemma_sort_due(items@);
            assert forall|k: int| 0 <= k < pending@.len() implies {
                &&& (#[trigger] pending@[k]).id.0 < save.next_due_seq
                &&& valid_date(pending@[k].due_date)
                &&& date_le(save.current_date, pending@[k].due_date)
            } by {
                assert(pending@.contains(pending@[k]));
                let m = choose|m: int| 0 <= m < items@.len() && items@[m] == pending@[k];
                assert(items@[m].id.0 < save.next_due_seq);
            }
        }
        Ok(
            CivilClock {
                calendar,
                start_date,
                current_date: save.current_date,
                settled_through: save.settled_through,
                next_due_seq: save.next_due_seq,
                pending,
            },
        )
    }

    /// Ends the current civil day: refuses a repeated, earlier or skipping
    /// day-end and a move past the calendar; otherwise dispatches the items due
    /// today (exactly once, in registration order), records the day as settled
    /// and moves to the next day. On any error the clock is unchanged.
    /// The clock's part of a civil day-end: the market must have completed
    /// exactly the trading sessions that the calendar expects through today;
    /// then today ends (see [`Self::end_day`]). A refusal leaves the clock as
    /// it was.
    pub fn end_civil_day(&mut self, completed_sessions: u32) -> (r: Result<CivilDayEndReport, CivilClockError>)
        requires
            old(self).wf(),
        ensures
            final(self).wf(),
            r is Err ==> final(self)@ == old(self)@,
            match add_count(sessions_through(old(self)@.calendar, old(self)@.start, old(self)@.current), 0) {
                Err(e) => r == Err::<CivilDayEndReport, CivilClockError>(e),
                Ok(expected) => if expected != completed_sessions {
                    r == Err::<CivilDayEndReport, CivilClockError>(
                        CivilClockError::MarketSessionOutOfSync {
                            date: old(self)@.current,
                            completed_sessions,
                            expected_sessions: expected,
                        },
                    )
                } else {
                    end_day_outcome(old(self)@, final(self)@, old(self)@.current, r)
                },
            },
    {
        let expected = match self.completed_trading_sessions_expected() {
            Err(e) => {
                return Err(e);
            },
            Ok(n) => n,
        };
        if expected != completed_sessions {
            return Err(
                CivilClockError::MarketSessionOutOfSync {
                    date: self.current_date,
                    completed_sessions,
                    expected_sessions: expected,
                },
            );
        }
        let today = self.current_date;
        self.end_day(today)
    }

    pub fn end_day(&mut self, date: CivilDate) -> (r: Result<CivilDayEndReport, CivilClockError>)
        requires
            old(self).wf(),
        ensures
            final(self).wf(),
            r is Err ==> final(self)@ == old(self)@,
            end_day_outcome(old(self)@, final(self)@, date, r),
    {
        match self.settled_through {
            Some(s) => {
                if s == date {
                    return Err(CivilClockError::DuplicateDayEnd { date, settled_through: self.settled_through });
                }
            },
            None => {},
        }
        if date.before(&self.current_date) {
            return Err(CivilClockError::OutOfOrderDayEnd { date, current: self.current_date });
        }
        if self.current_date.before(&date) {
            let unprocessed = filter_dues(&self.pending, date, 2);
            return Err(CivilClockError::SkippedCivilDays { from: self.current_date, to: date, unprocessed });
        }
        date.check_valid();
        proof {
            lemma_key_injective(date, self.current_date);
        }
        let next = match self.current_date.next() {
            Err(e) => {
                return Err(CivilClockError::CivilDate(e));
            },
            Ok(n) => n,
        };
        let ceiling = self.calendar.last_day;
        if ceiling.before(&next) {
            return Err(CivilClockError::BeyondRuntimeCeiling { next, ceiling });
        }
        let next_status = match self.calendar.day_status(next) {
            Err(e) => {
                return Err(CivilClockError::Calendar(e));
            },
            Ok(status) => status,
        };
        let dispatched = filter_dues(&self.pending, date, 0);
        let remaining = filter_dues(&self.pending, date, 1);
        let ghost old_pending = self.pending@;
        proof {
            lemma_next_date(date);
            lemma_dues_split(old_pending, date);
            lemma_dues_not_on_sorted(old_pending, date);
            assert forall|i: int| 0 <= i < remaining@.len() implies {
                &&& (#[trigger] remaining@[i]).id.0 < self.next_due_seq
                &&& valid_date(remaining@[i].due_date)
                &&& date_le(next, remaining@[i].due_date)
            } by {
                let item = remaining@[i];
                assert(dues_not_on(old_pending, date).contains(item));
                let k = choose|k: int| 0 <= k < old_pending.len() && old_pending[k] == item;
                assert(date_le(date, old_pending[k].due_date));
                if ymd_key(item.due_date@) == ymd_key(date@) {
                    lemma_key_injective(item.due_date, date);
                }
                lemma_next_is_least_later(date, item.due_date);
            }
        }
        self.pending = remaining;
        self.settled_through = Some(date);
        self.current_date = next;
        Ok(
            CivilDayEndReport {
                settled_date: date,
                dispatched_due: dispatched,
                disclosure_instant: CivilInstant { date, hour: 18, minute: 0, second: 0 },
                next_date: next,
                next_status,
            },
        )
    }

    /// The state to save.
    pub fn save(&self) -> (s: CivilClockSave)
        ensures
            s.current_date == self@.current,
            s.settled_through == self@.settled,
            s.next_due_seq == self@.next_seq,
            s.pending_due@ == self@.pending,
    {
        CivilClockSave {
            current_date: self.current_date,
            settled_through: self.settled_through,
            next_due_seq: self.next_due_seq,
            pending_due: self.pending.clone(),
        }
    }
}

/// The first pending item of a save, from position `k` on, that has an id
/// not below the next one or is dated before the current day.
pub open spec fn first_bad_due(save: CivilClockSave, k: int) -> Option<ClockInconsistency>
    decreases save.pending_due@.len() - k,
{
    if k < 0 || k >= save.pending_due@.len() {
        None
    } else {
        let due = save.pending_due@[k];
        if due.id.0 >= save.next_due_seq {
            Some(ClockInconsistency::DueIdNotBelowNextSeq { due })
        } else if date_lt(due.due_date, save.current_date) {
            Some(ClockInconsistency::DueBeforeCurrent { due })
        } else {
            first_bad_due(save, k + 1)
        }
    }
}

proof fn lemma_first_bad_due_skip(save: CivilClockSave, k: int, i: int)
    requires
        0 <= k <= i <= save.pending_due@.len(),
        forall|j: int|
            k <= j < i ==> (#[trigger] save.pending_due@[j]).id.0 < save.next_due_seq && !date_lt(
                save.pending_due@[j].due_date,
                save.current_date,
            ),
    ensures
        first_bad_due(save, k) == first_bad_due(save, i),
    decreases i - k,
{
    if k < i {
        lemma_first_bad_due_skip(save, k + 1, i);
    }
}

/// Why a save does not restore, checked in order.
pub open spec fn restore_error(start: CivilDate, save: CivilClockSave, cal: TradingCalendar) -> Option<
    CivilClockError,
> {
    if date_lt(start, cal.first_day) || date_lt(cal.last_day, start) {
        Some(CivilClockError::Calendar(CalendarError::StartOutsideRuntime { date: start }))
    } else if date_lt(save.current_date, start) {
        Some(CivilClockError::SaveInconsistent { detail: ClockInconsistency::CurrentBeforeStart })
    } else if save.settled_through is None && save.current_date != start {
        Some(CivilClockError::SaveInconsistent { detail: ClockInconsistency::UnsettledButMoved })
    } else if save.settled_through is Some && (date_lt(save.settled_through->Some_0, start) || next_date(
        save.settled_through->Some_0,
    ) != Some(save.current_date)) {
        Some(CivilClockError::SaveInconsistent { detail: ClockInconsistency::SettledNotDayBefore })
    } else {
        match first_bad_due(save, 0) {
            Some(detail) => Some(CivilClockError::SaveInconsistent { detail }),
            None => None,
        }
    }
}

/// A saved clock that restores: the start is a day of the calendar, the
/// current day is the start or the day after the settled day, and every
/// pending item has an id below the next one and is not dated in the past.
pub open spec fn save_consistent(start: CivilDate, save: CivilClockSave, cal: TradingCalendar) -> bool {
    &&& !date_lt(start, cal.first_day) && !date_lt(cal.last_day, start)
    &&& !date_lt(save.current_date, start)
    &&& match save.settled_through {
        None => save.current_date == start,
        Some(s) => !date_lt(s, start) && next_date(s) == Some(save.current_date),
    }
    &&& forall|k: int|
        0 <= k < save.pending_due@.len() ==> (#[trigger] save.pending_due@[k]).id.0 < save.next_due_seq && !date_lt(
            save.pending_due@[k].due_date,
            save.current_date,
        )
}

/// A sorted queue is its own sorted order.
proof fn lemma_sort_due_sorted_identity(s: Seq<DueBusiness>)
    requires
        sorted_due(s),
    ensures
        sort_due(s) == s,
    decreases s.len(),
{
    if s.len() > 0 {
        let t = s.drop_last();
        assert forall|i: int, j: int| 0 <= i < j < t.len() implies due_le(#[trigger] t[i], #[trigger] t[j]) by {
            assert(t[i] == s[i] && t[j] == s[j]);
        }
        lemma_sort_due_sorted_identity(t);
        if t.len() > 0 {
            assert(due_le(s[t.len() - 1], s[t.len() as int]));
            assert(t.last() == s[t.len() - 1]);
        }
        assert(insert_pos(t, s.last()) == t.len());
        assert(t.insert(t.len() as int, s.last()) =~= s);
    }
}

/// A day-end splits the queue: every pending item is either dispatched (it is
/// due that day) or stays pending (it is not), never both, and none is lost.
pub proof fn law_day_end_partitions_pending(pending: Seq<DueBusiness>, day: CivilDate)
    ensures
        forall|y: DueBusiness|
            #![trigger dues_on(pending, day).contains(y)]
            #![trigger dues_not_on(pending, day).contains(y)]
            pending.contains(y) <==> (dues_on(pending, day).contains(y) || dues_not_on(pending, day).contains(y)),
        forall|y: DueBusiness|
            !(#[trigger] dues_on(pending, day).contains(y) && dues_not_on(pending, day).contains(y)),
        forall|y: DueBusiness| #[trigger] dues_on(pending, day).contains(y) ==> y.due_date == day,
        dues_on(pending, day).len() + dues_not_on(pending, day).len() == pending.len(),
{
    lemma_dues_split(pending, day);
}

/// The clock that a consistent save restores to, given its start and calendar.
pub open spec fn restored_view(start: CivilDate, save: CivilClockSave, cal: TradingCalendar) -> ClockView {
    ClockView {
        calendar: cal,
        start,
        current: save.current_date,
        settled: save.settled_through,
        next_seq: save.next_due_seq,
        pending: sort_due(save.pending_due@),
    }
}

/// The phase of a clock: intraday trading on a trading day, else a closed day.
pub open spec fn spec_phase(v: ClockView) -> CivilPhase {
    if spec_day_status(v.calendar, v.current) == Ok::<DayStatus, CalendarError>(DayStatus::Trading) {
        CivilPhase::IntradayTrading
    } else {
        CivilPhase::ClosedDay
    }
}

/// Saving a well-formed clock and restoring it with the same start and
/// calendar gives back the same clock: the save is consistent, the restored
/// clock is the saved one, so saving it again gives the same save, and it
/// is in the same phase.
pub proof fn law_clock_save_round_trip(v: ClockView, save: CivilClockSave)
    requires
        clock_wf(v),
        save.current_date == v.current,
        save.settled_through == v.settled,
        save.next_due_seq == v.next_seq,
        save.pending_due@ == v.pending,
    ensures
        save_consistent(v.start, save, v.calendar),
        restored_view(v.start, save, v.calendar) == v,
        restored_view(v.start, save, v.calendar).pending == save.pending_due@,
        spec_phase(restored_view(v.start, save, v.calendar)) == spec_phase(v),
{
    lemma_sort_due_sorted_identity(v.pending);
}

} // verus!
