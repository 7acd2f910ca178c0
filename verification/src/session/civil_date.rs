//! Civil dates of the proleptic Gregorian calendar within the validation
//! window 1900–2199, and a trading calendar given by its closed days.
use vstd::prelude::*;

use super::market::StockExchange;

verus! {

pub open spec fn is_leap(y: int) -> bool {
    (y % 4 == 0 && y % 100 != 0) || y % 400 == 0
}

pub open spec fn days_in_month(y: int, m: int) -> int {
    if m == 2 {
        if is_leap(y) {
            29
        } else {
            28
        }
    } else if m == 4 || m == 6 || m == 9 || m == 11 {
        30
    } else {
        31
    }
}

/// A real date inside the validation window.
pub open spec fn valid_ymd(y: int, m: int, d: int) -> bool {
    1900 <= y <= 2199 && 1 <= m <= 12 && 1 <= d <= days_in_month(y, m)
}

/// A number that orders dates chronologically.
pub open spec fn ymd_key(ymd: (int, int, int)) -> int {
    ymd.0 * 512 + ymd.1 * 32 + ymd.2
}

/// The following day, unless it leaves the validation window.
pub open spec fn spec_next_ymd(ymd: (int, int, int)) -> Option<(int, int, int)> {
    let (y, m, d) = ymd;
    if d < days_in_month(y, m) {
        Some((y, m, d + 1))
    } else if m < 12 {
        Some((y, m + 1, 1))
    } else if y < 2199 {
        Some((y + 1, 1, 1))
    } else {
        None
    }
}

/// A civil date (year, month, day).
#[derive(Clone, Copy, Debug, PartialEq, Eq, Structural)]
pub struct CivilDate {
    year: i32,
    month: u8,
    day: u8,
}

impl View for CivilDate {
    type V = (int, int, int);

    closed spec fn view(&self) -> (int, int, int) {
        (self.year as int, self.month as int, self.day as int)
    }
}

/// Why a date could not be formed.
#[derive(Clone, Copy, Debug, PartialEq, Eq, Structural)]
pub enum CivilDateError {
    /// Not a real date, or outside the 1900–2199 validation window.
    InvalidDate { year: i32, month: u8, day: u8 },
    /// 2199-12-31 has no following day inside the window.
    BeyondWindow,
}

/// A real date of the window (every value of the type is one).
pub open spec fn valid_date(d: CivilDate) -> bool {
    valid_ymd(d@.0, d@.1, d@.2)
}

/// `a` is strictly earlier than `b`.
pub open spec fn date_lt(a: CivilDate, b: CivilDate) -> bool {
    ymd_key(a@) < ymd_key(b@)
}

pub open spec fn date_le(a: CivilDate, b: CivilDate) -> bool {
    ymd_key(a@) <= ymd_key(b@)
}

/// The day after `d` as a date, if there is one.
pub closed spec fn next_date(d: CivilDate) -> Option<CivilDate> {
    match spec_next_ymd(d@) {
        Some(n) => Some(CivilDate { year: n.0 as i32, month: n.1 as u8, day: n.2 as u8 }),
        None => None,
    }
}

/// The next day has the following year, month and day, and comes later.
pub proof fn lemma_next_date(d: CivilDate)
    requires
        valid_date(d),
    ensures
        next_date(d) is Some <==> spec_next_ymd(d@) is Some,
        next_date(d) is Some ==> next_date(d)->Some_0@ == spec_next_ymd(d@)->Some_0 && date_lt(
            d,
            next_date(d)->Some_0,
        ) && valid_date(next_date(d)->Some_0) && ymd_key(next_date(d)->Some_0@) <= ymd_key(d@) + 200,
{
}

impl CivilDate {
    #[verifier::type_invariant]
    closed spec fn valid(self) -> bool {
        valid_ymd(self.year as int, self.month as int, self.day as int)
    }

    /// Every date is valid.
    pub fn check_valid(&self)
        ensures
            valid_date(*self),
    {
        proof {
            use_type_invariant(self);
        }
    }

    /// Equal views are equal dates.
    pub proof fn lemma_view_injective(a: CivilDate, b: CivilDate)
        requires
            a@ == b@,
        ensures
            a == b,
    {
    }

    pub fn from_ymd(year: i32, month: u8, day: u8) -> (r: Result<CivilDate, CivilDateError>)
        ensures
            match r {
                Ok(d) => valid_ymd(year as int, month as int, day as int) && d@ == (
                    year as int,
                    month as int,
                    day as int,
                ),
                Err(e) => !valid_ymd(year as int, month as int, day as int) && e
                    == CivilDateError::InvalidDate { year, month, day },
            },
    {
        if year < 1900 || year > 2199 || month < 1 || month > 12 || day < 1 || day > month_length(
            year,
            month,
        ) {
            return Err(CivilDateError::InvalidDate { year, month, day });
        }
        Ok(CivilDate { year, month, day })
    }

    pub fn year(&self) -> (y: i32)
        ensures
            y == self@.0,
    {
        self.year
    }

    pub fn month(&self) -> (m: u8)
        ensures
            m == self@.1,
    {
        self.month
    }

    pub fn day(&self) -> (d: u8)
        ensures
            d == self@.2,
    {
        self.day
    }

    /// The following day.
    pub fn next(&self) -> (r: Result<CivilDate, CivilDateError>)
        ensures
            match r {
                Ok(n) => spec_next_ymd(self@) == Some(n@) && next_date(*self) == Some(n),
                Err(e) => spec_next_ymd(self@) is None && next_date(*self) is None && e
                    == CivilDateError::BeyondWindow,
            },
    {
        proof {
            use_type_invariant(self);
        }
        let length = month_length(self.year, self.month);
        let n = if self.day < length {
            CivilDate { year: self.year, month: self.month, day: self.day + 1 }
        } else if self.month < 12 {
            CivilDate { year: self.year, month: self.month + 1, day: 1 }
        } else if self.year < 2199 {
            CivilDate { year: self.year + 1, month: 1, day: 1 }
        } else {
            return Err(CivilDateError::BeyondWindow);
        };
        Ok(n)
    }

    /// Strictly earlier than `other`.
    pub fn before(&self, other: &CivilDate) -> (r: bool)
        ensures
            r == date_lt(*self, *other),
    {
        (self.year as i64) * 512 + (self.month as i64) * 32 + (self.day as i64) < (other.year as i64) * 512
            + (other.month as i64) * 32 + (other.day as i64)
    }
}

/// Number of days in a month of the Gregorian calendar.
fn month_length(year: i32, month: u8) -> (n: u8)
    requires
        1900 <= year <= 2199,
    ensures
        n == days_in_month(year as int, month as int),
{
    if month == 2 {
        if (year % 4 == 0 && year % 100 != 0) || year % 400 == 0 {
            29
        } else {
            28
        }
    } else if month == 4 || month == 6 || month == 9 || month == 11 {
        30
    } else {
        31
    }
}

/// The chronological key is injective on dates.
pub proof fn lemma_key_injective(a: CivilDate, b: CivilDate)
    requires
        valid_date(a),
        valid_date(b),
        ymd_key(a@) == ymd_key(b@),
    ensures
        a == b,
{
    CivilDate::lemma_view_injective(a, b);
}

/// The next day is the first date after `d`.
pub proof fn lemma_next_is_least_later(d: CivilDate, e: CivilDate)
    requires
        valid_date(d),
        valid_date(e),
        date_lt(d, e),
    ensures
        next_date(d) is Some,
        date_lt(d, next_date(d)->Some_0),
        date_le(next_date(d)->Some_0, e),
{
}

/// Whether a day of the calendar is open for trading.
#[derive(Clone, Copy, Debug, PartialEq, Eq, Structural)]
pub enum DayStatus {
    Trading,
    Closed,
}

/// A trading calendar: its window of applicability, which is also the window
/// the session may run in, and the days in it that are closed.
#[derive(Clone, Debug, PartialEq, Eq)]
pub struct TradingCalendar {
    pub first_day: CivilDate,
    pub last_day: CivilDate,
    pub closed_days: Vec<CivilDate>,
}

/// A question the calendar cannot answer.
#[derive(Clone, Copy, Debug, PartialEq, Eq, Structural)]
pub enum CalendarError {
    /// The date lies outside the calendar's window.
    OutsideCalendar { date: CivilDate },
    /// A session may not start on this date.
    StartOutsideRuntime { date: CivilDate },
}

/// What `day_status` answers.
pub open spec fn spec_day_status(cal: TradingCalendar, date: CivilDate) -> Result<DayStatus, CalendarError> {
    if date_lt(date, cal.first_day) || date_lt(cal.last_day, date) {
        Err(CalendarError::OutsideCalendar { date })
    } else if cal.closed_days@.contains(date) {
        Ok(DayStatus::Closed)
    } else {
        Ok(DayStatus::Trading)
    }
}

impl TradingCalendar {
    pub fn day_status(&self, date: CivilDate) -> (r: Result<DayStatus, CalendarError>)
        ensures
            r == spec_day_status(*self, date),
    {
        if date.before(&self.first_day) || self.last_day.before(&date) {
            return Err(CalendarError::OutsideCalendar { date });
        }
        let mut i: usize = 0;
        while i < self.closed_days.len()
            invariant
                0 <= i <= self.closed_days@.len(),
                !(date_lt(date, self.first_day) || date_lt(self.last_day, date)),
                forall|j: int| 0 <= j < i ==> self.closed_days@[j] != date,
            decreases self.closed_days@.len() - i,
        {
            if self.closed_days[i] == date {
                assert(self.closed_days@[i as int] == date);
                return Ok(DayStatus::Closed);
            }
            i += 1;
        }
        Ok(DayStatus::Trading)
    }

    /// A session may start on any day of the calendar's window.
    pub fn validate_runtime_start(&self, start: CivilDate) -> (r: Result<(), CalendarError>)
        ensures
            r == (if date_lt(start, self.first_day) || date_lt(self.last_day, start) {
                Err(CalendarError::StartOutsideRuntime { date: start })
            } else {
                Ok(())
            }),
    {
        if start.before(&self.first_day) || self.last_day.before(&start) {
            return Err(CalendarError::StartOutsideRuntime { date: start });
        }
        Ok(())
    }
}

/// The exchange whose trading calendar a session follows.
#[derive(Clone, Copy, Debug, PartialEq, Eq, Structural)]
pub enum CalendarExchange {
    Sse,
    Szse,
}

/// A session follows the calendar of the exchange of its first stock.
pub fn session_calendar_exchange(first: StockExchange) -> (c: CalendarExchange)
    ensures
        c == (match first {
            StockExchange::Shanghai => CalendarExchange::Sse,
            StockExchange::Shenzhen => CalendarExchange::Szse,
        }),
{
    match first {
        StockExchange::Shanghai => CalendarExchange::Sse,
        StockExchange::Shenzhen => CalendarExchange::Szse,
    }
}

/// The default first day of a new game: 2030-01-01.
pub fn default_civil_start_date() -> (d: CivilDate)
    ensures
        d@ == (2030int, 1int, 1int),
{
    match CivilDate::from_ymd(2030, 1, 1) {
        Ok(d) => d,
        Err(_) => CivilDate { year: 2030, month: 1, day: 1 },
    }
}

} // verus!
