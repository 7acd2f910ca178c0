//! The 18:00 disclosure step of a civil day-end: which announcements and
//! which scheduled reports to publish, with the cursors that make each of
//! them go out exactly once. Same-day announcements go out once per settled
//! day; scheduled reports go out once when their instant falls in the window
//! `(published_through, disclosure instant]`.
use vstd::prelude::*;

use super::civil_clock::{CivilDayEndReport, CivilInstant};
use super::civil_date::{date_lt, ymd_key, CivilDate};
use super::events::CompanyId;

verus! {

/// A number that orders instants chronologically.
pub open spec fn instant_key(i: CivilInstant) -> int {
    ymd_key(i.date@) * 100_000 + i.hour * 3_600 + i.minute * 60 + i.second
}

pub open spec fn instant_le(a: CivilInstant, b: CivilInstant) -> bool {
    instant_key(a) <= instant_key(b)
}

/// An economic event of a company that starts on a given day.
#[derive(Clone, Copy, Debug, PartialEq, Eq, Structural)]
pub struct ShockStart {
    pub company: CompanyId,
    pub shock_index: u32,
    pub starts_on: CivilDate,
}

/// A scheduled periodic report of a company and the instant it is due.
#[derive(Clone, Copy, Debug, PartialEq, Eq, Structural)]
pub struct ScheduledSlot {
    pub company: CompanyId,
    pub fiscal_year: i32,
    pub kind_index: u8,
    pub instant: CivilInstant,
}

/// What a day-end publishes, announcements first.
#[derive(Clone, Debug, PartialEq, Eq)]
pub struct DayEndDisclosurePlan {
    pub announcements: Vec<ShockStart>,
    pub scheduled: Vec<ScheduledSlot>,
}

/// The dispatch cursors.
#[derive(Clone, Copy, Debug, PartialEq, Eq, Structural)]
pub struct DisclosureDispatch {
    /// The last scheduled instant dispatched, inclusive.
    published_through: Option<CivilInstant>,
    /// The last day whose announcements were dispatched, inclusive.
    announced_through: Option<CivilDate>,
}

/// Whether the announcements of `settled` are still to go out.
pub open spec fn announcements_due(announced_through: Option<CivilDate>, settled: CivilDate) -> bool {
    match announced_through {
        None => true,
        Some(through) => date_lt(through, settled),
    }
}

/// Whether a scheduled instant falls in the dispatch window.
pub open spec fn in_window(published_through: Option<CivilInstant>, phase: CivilInstant, at: CivilInstant) -> bool {
    &&& match published_through {
        None => true,
        Some(through) => !instant_le(at, through),
    }
    &&& instant_le(at, phase)
}

/// The shocks that start on `day`, in order.
pub open spec fn starting_on(shocks: Seq<ShockStart>, day: CivilDate) -> Seq<ShockStart>
    decreases shocks.len(),
{
    if shocks.len() == 0 {
        shocks
    } else if shocks.last().starts_on == day {
        starting_on(shocks.drop_last(), day).push(shocks.last())
    } else {
        starting_on(shocks.drop_last(), day)
    }
}

/// The slots in the window, in order.
pub open spec fn slots_in_window(slots: Seq<ScheduledSlot>, through: Option<CivilInstant>, phase: CivilInstant) -> Seq<
    ScheduledSlot,
>
    decreases slots.len(),
{
    if slots.len() == 0 {
        slots
    } else if in_window(through, phase, slots.last().instant) {
        slots_in_window(slots.drop_last(), through, phase).push(slots.last())
    } else {
        slots_in_window(slots.drop_last(), through, phase)
    }
}

/// The view of the cursors.
pub struct DispatchView {
    pub published_through: Option<CivilInstant>,
    pub announced_through: Option<CivilDate>,
}

impl View for DisclosureDispatch {
    type V = DispatchView;

    closed spec fn view(&self) -> DispatchView {
        DispatchView { published_through: self.published_through, announced_through: self.announced_through }
    }
}

fn instant_le_exec(a: &CivilInstant, b: &CivilInstant) -> (r: bool)
    ensures
        r == instant_le(*a, *b),
{
    a.date.check_valid();
    b.date.check_valid();
    let ka = (a.date.year() as i64) * 512 + (a.date.month() as i64) * 32 + (a.date.day() as i64);
    let kb = (b.date.year() as i64) * 512 + (b.date.month() as i64) * 32 + (b.date.day() as i64);
    let ta = ka * 100_000 + (a.hour as i64) * 3_600 + (a.minute as i64) * 60 + (a.second as i64);
    let tb = kb * 100_000 + (b.hour as i64) * 3_600 + (b.minute as i64) * 60 + (b.second as i64);
    ta <= tb
}

impl DisclosureDispatch {
    /// Cursors starting after the last instant published with the seeded prehistory.
    pub fn new(published_through: Option<CivilInstant>) -> (d: DisclosureDispatch)
        ensures
            d@.published_through == published_through,
            d@.announced_through is None,
    {
        DisclosureDispatch { published_through, announced_through: None }
    }

    pub fn published_through(&self) -> (p: Option<CivilInstant>)
        ensures
            p == self@.published_through,
    {
        self.published_through
    }

    pub fn announced_through(&self) -> (a: Option<CivilDate>)
        ensures
            a == self@.announced_through,
    {
        self.announced_through
    }

    /// What the day-end of `settled` publishes at `phase`: the shocks that
    /// start that day unless that day was announced already, and the
    /// scheduled reports whose instant falls in the window.
    pub fn plan_day_end(
        &self,
        settled: CivilDate,
        phase: CivilInstant,
        shocks: &Vec<ShockStart>,
        slots: &Vec<ScheduledSlot>,
    ) -> (plan: DayEndDisclosurePlan)
        ensures
            plan.announcements@ == (if announcements_due(self@.announced_through, settled) {
                starting_on(shocks@, settled)
            } else {
                Seq::<ShockStart>::empty()
            }),
            plan.scheduled@ == slots_in_window(slots@, self@.published_through, phase),
    {
        let mut announcements: Vec<ShockStart> = Vec::new();
        let due = match self.announced_through {
            None => true,
            Some(through) => through.before(&settled),
        };
        if due {
            let mut i: usize = 0;
            while i < shocks.len()
                invariant
                    0 <= i <= shocks@.len(),
                    announcements@ == starting_on(shocks@.take(i as int), settled),
                decreases shocks@.len() - i,
            {
                proof {
                    assert(shocks@.take(i + 1).drop_last() =~= shocks@.take(i as int));
                    assert(shocks@.take(i + 1).last() == shocks@[i as int]);
                }
                if shocks[i].starts_on == settled {
                    announcements.push(shocks[i]);
                }
                i += 1;
            }
            assert(shocks@.take(shocks@.len() as int) =~= shocks@);
        }
        let mut scheduled: Vec<ScheduledSlot> = Vec::new();
        let mut j: usize = 0;
        while j < slots.len()
            invariant
                0 <= j <= slots@.len(),
                scheduled@ == slots_in_window(slots@.take(j as int), self.published_through, phase),
            decreases slots@.len() - j,
        {
            proof {
                assert(slots@.take(j + 1).drop_last() =~= slots@.take(j as int));
                assert(slots@.take(j + 1).last() == slots@[j as int]);
            }
            let at = slots[j].instant;
            let after_cursor = match self.published_through {
                None => true,
                Some(through) => !instant_le_exec(&at, &through),
            };
            if after_cursor && instant_le_exec(&at, &phase) {
                scheduled.push(slots[j]);
            }
            j += 1;
        }
        assert(slots@.take(slots@.len() as int) =~= slots@);
        DayEndDisclosurePlan { announcements, scheduled }
    }

    /// The 18:00 dispatch of the day-end in `report`: plans what goes out
    /// (see [`Self::plan_day_end`]) and moves both cursors past it, so that
    /// the same day-end run again publishes nothing.
    pub fn run_day_end(
        &mut self,
        report: &CivilDayEndReport,
        shocks: &Vec<ShockStart>,
        slots: &Vec<ScheduledSlot>,
    ) -> (plan: DayEndDisclosurePlan)
        ensures
            plan.announcements@ == (if announcements_due(old(self)@.announced_through, report.settled_date) {
                starting_on(shocks@, report.settled_date)
            } else {
                Seq::<ShockStart>::empty()
            }),
            plan.scheduled@ == slots_in_window(slots@, old(self)@.published_through, report.disclosure_instant),
            final(self)@.announced_through == (if announcements_due(old(self)@.announced_through, report.settled_date) {
                Some(report.settled_date)
            } else {
                old(self)@.announced_through
            }),
            final(self)@.published_through == Some(report.disclosure_instant),
    {
        let plan = self.plan_day_end(report.settled_date, report.disclosure_instant, shocks, slots);
        self.commit_announcements(report.settled_date);
        self.commit_scheduled(report.disclosure_instant);
        plan
    }

    /// Records that the announcements of `settled` went out.
    pub fn commit_announcements(&mut self, settled: CivilDate)
        ensures
            final(self)@.announced_through == (if announcements_due(old(self)@.announced_through, settled) {
                Some(settled)
            } else {
                old(self)@.announced_through
            }),
            final(self)@.published_through == old(self)@.published_through,
    {
        let due = match self.announced_through {
            None => true,
            Some(through) => through.before(&settled),
        };
        if due {
            self.announced_through = Some(settled);
        }
    }

    /// Records that the scheduled reports through `phase` went out.
    pub fn commit_scheduled(&mut self, phase: CivilInstant)
        ensures
            final(self)@.published_through == Some(phase),
            final(self)@.announced_through == old(self)@.announced_through,
    {
        self.published_through = Some(phase);
    }
}

/// The production hook of the 18:00 disclosure phase: the stateful
/// dispatch runs in [`DisclosureDispatch::run_day_end`] at the same instant,
/// so the hook itself does nothing.
pub fn disclosure_phase_observer(_instant: CivilInstant) {
}

/// A report published at one day-end is not published again at a later one:
/// once the cursor has moved to that day-end's instant, the window of every
/// later day-end excludes it.
pub proof fn law_scheduled_report_goes_out_once(
    through: Option<CivilInstant>,
    phase: CivilInstant,
    later_phase: CivilInstant,
    at: CivilInstant,
)
    requires
        in_window(through, phase, at),
    ensures
        !in_window(Some(phase), later_phase, at),
{
}

/// Running the dispatch of a day-end a second time publishes nothing: with
/// the cursors that the first run leaves, the window of the same instant is
/// empty and the day's announcements are no longer due.
pub proof fn law_day_end_repeat_publishes_nothing(
    slots: Seq<ScheduledSlot>,
    settled: CivilDate,
    phase: CivilInstant,
)
    ensures
        slots_in_window(slots, Some(phase), phase) == Seq::<ScheduledSlot>::empty(),
        !announcements_due(Some(settled), settled),
    decreases slots.len(),
{
    if slots.len() > 0 {
        law_day_end_repeat_publishes_nothing(slots.drop_last(), settled, phase);
    }
}

/// Repeating the announcements of a day after committing them publishes nothing.
pub proof fn law_announcements_go_out_once(settled: CivilDate)
    ensures
        !announcements_due(Some(settled), settled),
{
}


/// Whether a slot falls in the dispatch window.
pub open spec fn slot_in_window(through: Option<CivilInstant>, phase: CivilInstant) -> spec_fn(ScheduledSlot) -> bool {
    |s: ScheduledSlot| in_window(through, phase, s.instant)
}

/// A day-end publishes exactly the scheduled slots whose instant comes after
/// the last one published and no later than the disclosure instant, each
/// once, in the order they are given.
pub proof fn law_day_end_publishes_the_window(slots: Seq<ScheduledSlot>, through: Option<CivilInstant>, phase: CivilInstant)
    ensures
        slots_in_window(slots, through, phase) == slots.filter(slot_in_window(through, phase)),
        forall|x: ScheduledSlot| #[trigger]
            slots_in_window(slots, through, phase).contains(x) <==> (slots.contains(x) && in_window(
                through,
                phase,
                x.instant,
            )),
    decreases slots.len(),
{
    reveal(Seq::filter);
    if slots.len() > 0 {
        law_day_end_publishes_the_window(slots.drop_last(), through, phase);
        assert(slot_in_window(through, phase)(slots.last()) == in_window(through, phase, slots.last().instant));
        assert(slots_in_window(slots, through, phase) =~= slots.filter(slot_in_window(through, phase)));
    } else {
        assert(slots_in_window(slots, through, phase) =~= slots.filter(slot_in_window(through, phase)));
    }
    slots.filter_lemma(slot_in_window(through, phase));
    assert forall|x: ScheduledSlot| #[trigger]
        slots_in_window(slots, through, phase).contains(x) <==> (slots.contains(x) && in_window(
            through,
            phase,
            x.instant,
        )) by {
        let f = slots.filter(slot_in_window(through, phase));
        if f.contains(x) {
            slots.lemma_filter_contains_rev(slot_in_window(through, phase), x);
            let k = choose|k: int| 0 <= k < f.len() && f[k] == x;
            assert(slot_in_window(through, phase)(f[k]));
        }
        if slots.contains(x) && in_window(through, phase, x.instant) {
            let k = choose|k: int| 0 <= k < slots.len() && slots[k] == x;
            assert(slot_in_window(through, phase)(slots[k]));
        }
    }
}


/// `f` can be asked any schedule question and gives one answer per question.
pub open spec fn schedule_answers_once<E, F: Fn(u8, i32, u8) -> Result<CivilInstant, E>>(f: F) -> bool {
    &&& forall|k: u8, y: i32, o: u8| #[trigger] f.requires((k, y, o))
    &&& forall|k: u8, y: i32, o: u8, r1: Result<CivilInstant, E>, r2: Result<CivilInstant, E>|
        #![trigger f.ensures((k, y, o), r1), f.ensures((k, y, o), r2)]
        f.ensures((k, y, o), r1) && f.ensures((k, y, o), r2) ==> r1 == r2
}

/// The instant `f` schedules report kind `k` of fiscal year `y` at, for a
/// company whose dates are offset by `o` days.
pub open spec fn scheduled_at<E, F: Fn(u8, i32, u8) -> Result<CivilInstant, E>>(f: F, k: u8, y: i32, o: u8) -> Result<
    CivilInstant,
    E,
> {
    choose|r: Result<CivilInstant, E>| f.ensures((k, y, o), r)
}

/// The slots of the first `k` report kinds of one company and fiscal year;
/// the first error stops them.
pub open spec fn kind_slots_spec<E, F: Fn(u8, i32, u8) -> Result<CivilInstant, E>>(
    company: CompanyId,
    offset: u8,
    fiscal_year: i32,
    k: int,
    f: F,
) -> Result<Seq<ScheduledSlot>, E>
    decreases k,
{
    if k <= 0 {
        Ok(Seq::empty())
    } else {
        match kind_slots_spec(company, offset, fiscal_year, k - 1, f) {
            Err(e) => Err(e),
            Ok(s) => match scheduled_at(f, (k - 1) as u8, fiscal_year, offset) {
                Err(e) => Err(e),
                Ok(t) => Ok(
                    s.push(ScheduledSlot { company, fiscal_year, kind_index: (k - 1) as u8, instant: t }),
                ),
            },
        }
    }
}

/// The slots of the given companies, in their order; for each, the fiscal
/// year before `year` and then `year`; for each year, every report kind.
pub open spec fn spec_scheduled_slots<E, F: Fn(u8, i32, u8) -> Result<CivilInstant, E>>(
    companies: Seq<(CompanyId, u8)>,
    kind_count: u8,
    year: i32,
    f: F,
) -> Result<Seq<ScheduledSlot>, E>
    decreases companies.len(),
{
    if companies.len() == 0 {
        Ok(Seq::empty())
    } else {
        match spec_scheduled_slots(companies.drop_last(), kind_count, year, f) {
            Err(e) => Err(e),
            Ok(s) => {
                let (c, o) = companies.last();
                match kind_slots_spec(c, o, (year - 1) as i32, kind_count as int, f) {
                    Err(e) => Err(e),
                    Ok(a) => match kind_slots_spec(c, o, year, kind_count as int, f) {
                        Err(e) => Err(e),
                        Ok(b) => Ok(s + a + b),
                    },
                }
            },
        }
    }
}

fn kind_slots<E, F: Fn(u8, i32, u8) -> Result<CivilInstant, E>>(
    company: CompanyId,
    offset: u8,
    fiscal_year: i32,
    kind_count: u8,
    f: &F,
) -> (r: Result<Vec<ScheduledSlot>, E>)
    requires
        schedule_answers_once(*f),
    ensures
        match kind_slots_spec(company, offset, fiscal_year, kind_count as int, *f) {
            Ok(s) => r matches Ok(v) && v@ == s,
            Err(e) => r matches Err(x) && x == e,
        },
{
    let mut out: Vec<ScheduledSlot> = Vec::new();
    let mut k: u8 = 0;
    while k < kind_count
        invariant
            k <= kind_count,
            schedule_answers_once(*f),
            kind_slots_spec(company, offset, fiscal_year, k as int, *f) == Ok::<Seq<ScheduledSlot>, E>(out@),
        decreases kind_count - k,
    {
        let at = f(k, fiscal_year, offset);
        proof {
            let c = scheduled_at(*f, k, fiscal_year, offset);
            assert(f.ensures((k, fiscal_year, offset), c));
        }
        match at {
            Err(e) => {
                proof {
                    lemma_kind_slots_stop(company, offset, fiscal_year, (k + 1) as int, kind_count as int, *f);
                }
                return Err(e);
            },
            Ok(t) => {
                out.push(ScheduledSlot { company, fiscal_year, kind_index: k, instant: t });
            },
        }
        k = k + 1;
    }
    Ok(out)
}

proof fn lemma_kind_slots_stop<E, F: Fn(u8, i32, u8) -> Result<CivilInstant, E>>(
    company: CompanyId,
    offset: u8,
    fiscal_year: i32,
    k: int,
    n: int,
    f: F,
)
    requires
        0 <= k <= n,
        kind_slots_spec(company, offset, fiscal_year, k, f) is Err,
    ensures
        kind_slots_spec(company, offset, fiscal_year, n, f) == kind_slots_spec(company, offset, fiscal_year, k, f),
    decreases n - k,
{
    if k < n {
        lemma_kind_slots_stop(company, offset, fiscal_year, k, n - 1, f);
    }
}

proof fn lemma_slots_stop<E, F: Fn(u8, i32, u8) -> Result<CivilInstant, E>>(
    companies: Seq<(CompanyId, u8)>,
    kind_count: u8,
    year: i32,
    n: int,
    f: F,
)
    requires
        0 <= n <= companies.len(),
        spec_scheduled_slots(companies.take(n), kind_count, year, f) is Err,
    ensures
        spec_scheduled_slots(companies, kind_count, year, f) == spec_scheduled_slots(companies.take(n), kind_count, year, f),
    decreases companies.len() - n,
{
    if n < companies.len() {
        assert(companies.drop_last().take(n) =~= companies.take(n));
        lemma_slots_stop(companies.drop_last(), kind_count, year, n, f);
    } else {
        assert(companies.take(n) =~= companies);
    }
}

/// Builds the scheduled slots that a day-end of `year` considers (see
/// [`spec_scheduled_slots`]): `companies` are the companies with their date
/// offsets, in id order, and `instant_of` the schedule, which the host
/// provides, of report kind `k` (`0..kind_count`) of a fiscal year for an
/// offset. The first refusal of the schedule is returned.
pub fn scheduled_slots<E, F: Fn(u8, i32, u8) -> Result<CivilInstant, E>>(
    companies: &Vec<(CompanyId, u8)>,
    kind_count: u8,
    year: i32,
    instant_of: F,
) -> (r: Result<Vec<ScheduledSlot>, E>)
    requires
        schedule_answers_once(instant_of),
        year > i32::MIN,
    ensures
        match spec_scheduled_slots(companies@, kind_count, year, instant_of) {
            Ok(s) => r matches Ok(v) && v@ == s,
            Err(e) => r matches Err(x) && x == e,
        },
{
    let mut out: Vec<ScheduledSlot> = Vec::new();
    let mut i: usize = 0;
    while i < companies.len()
        invariant
            0 <= i <= companies@.len(),
            schedule_answers_once(instant_of),
            year > i32::MIN,
            spec_scheduled_slots(companies@.take(i as int), kind_count, year, instant_of) == Ok::<
                Seq<ScheduledSlot>,
                E,
            >(out@),
        decreases companies@.len() - i,
    {
        proof {
            assert(companies@.take(i + 1).drop_last() =~= companies@.take(i as int));
            assert(companies@.take(i + 1).last() == companies@[i as int]);
        }
        let (c, o) = companies[i];
        let before = match kind_slots(c, o, year - 1, kind_count, &instant_of) {
            Ok(v) => v,
            Err(e) => {
                proof {
                    lemma_slots_stop(companies@, kind_count, year, i + 1, instant_of);
                }
                return Err(e);
            },
        };
        let current = match kind_slots(c, o, year, kind_count, &instant_of) {
            Ok(v) => v,
            Err(e) => {
                proof {
                    lemma_slots_stop(companies@, kind_count, year, i + 1, instant_of);
                }
                return Err(e);
            },
        };
        let mut a = before;
        let mut b = current;
        let ghost prev = out@;
        let ghost av = a@;
        let ghost bv = b@;
        out.append(&mut a);
        out.append(&mut b);
        proof {
            assert(out@ =~= prev + av + bv);
        }
        i += 1;
    }
    proof {
        assert(companies@.take(companies@.len() as int) =~= companies@);
    }
    Ok(out)
}

} // verus!
