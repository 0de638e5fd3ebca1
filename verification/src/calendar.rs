//! Proleptic Gregorian calendar dates, as `chrono::NaiveDate` models them.
//!
//! A date is counted by its day number: the number of days since
//! 0001-01-01 (a Monday), negative before it.

use chrono::Datelike;
use chrono::Days;
use chrono::NaiveDate;
use vstd::prelude::*;

verus! {

/// The earliest year `chrono::NaiveDate` represents.
pub const MIN_YEAR: i32 = -262143;

/// The latest year `chrono::NaiveDate` represents.
pub const MAX_YEAR: i32 = 262142;

pub open spec fn is_leap_year(y: int) -> bool {
    (y % 4 == 0 && y % 100 != 0) || y % 400 == 0
}

pub open spec fn days_in_month(y: int, m: int) -> int {
    if m == 2 {
        if is_leap_year(y) { 29 } else { 28 }
    } else if m == 4 || m == 6 || m == 9 || m == 11 {
        30
    } else {
        31
    }
}

pub open spec fn days_in_year(y: int) -> int {
    if is_leap_year(y) { 366 } else { 365 }
}

/// Days of year `y` that come before the first of month `m`.
pub open spec fn days_before_month(y: int, m: int) -> int {
    let leap: int = if is_leap_year(y) { 1 } else { 0 };
    if m <= 1 { 0 }
    else if m == 2 { 31 }
    else if m == 3 { 59 + leap }
    else if m == 4 { 90 + leap }
    else if m == 5 { 120 + leap }
    else if m == 6 { 151 + leap }
    else if m == 7 { 181 + leap }
    else if m == 8 { 212 + leap }
    else if m == 9 { 243 + leap }
    else if m == 10 { 273 + leap }
    else if m == 11 { 304 + leap }
    else { 334 + leap }
}

/// Days from 0001-01-01 to the first of January of year `y`.
pub open spec fn days_before_year(y: int) -> int {
    let p = y - 1;
    365 * p + p / 4 - p / 100 + p / 400
}

/// A calendar date. Its fields are public so that callers can build one
/// directly; functions of this crate ask for `wf()` where they need it.
#[derive(Clone, Copy, Debug, PartialEq, Eq, Structural)]
pub struct Date {
    pub year: i32,
    pub month: u32,
    pub day: u32,
}

pub open spec fn valid_ymd(y: int, m: int, d: int) -> bool {
    &&& MIN_YEAR <= y <= MAX_YEAR
    &&& 1 <= m <= 12
    &&& 1 <= d <= days_in_month(y, m)
}

impl Date {
    /// A date that exists and lies in the range `chrono::NaiveDate` covers.
    pub open spec fn wf(self) -> bool {
        valid_ymd(self.year as int, self.month as int, self.day as int)
    }

    /// Days since 0001-01-01.
    pub open spec fn day_number(self) -> int {
        days_before_year(self.year as int) + days_before_month(self.year as int, self.month as int)
            + self.day - 1
    }

    /// 0 for Monday through 6 for Sunday.
    pub open spec fn weekday(self) -> int {
        self.day_number() % 7
    }

    /// Chronological order, which is the order of (year, month, day).
    pub open spec fn lex_before(self, other: Date) -> bool {
        ||| self.year < other.year
        ||| self.year == other.year && self.month < other.month
        ||| self.year == other.year && self.month == other.month && self.day < other.day
    }
}

pub open spec fn min_day_number() -> int {
    days_before_year(MIN_YEAR as int)
}

pub open spec fn max_day_number() -> int {
    days_before_year(MAX_YEAR as int) + 364
}


/// The year length matches the gap between the first days of consecutive years.
pub proof fn lemma_year_step(y: int)
    ensures
        days_before_year(y + 1) == days_before_year(y) + days_in_year(y),
{
    let p = y - 1;
    assert(days_before_year(y + 1) == 365 * (p + 1) + (p + 1) / 4 - (p + 1) / 100 + (p + 1) / 400);
    assert((p + 1) / 4 - p / 4 == (if y % 4 == 0 { 1int } else { 0 })) by (nonlinear_arith)
        requires p == y - 1;
    assert((p + 1) / 100 - p / 100 == (if y % 100 == 0 { 1int } else { 0 })) by (nonlinear_arith)
        requires p == y - 1;
    assert((p + 1) / 400 - p / 400 == (if y % 400 == 0 { 1int } else { 0 })) by (nonlinear_arith)
        requires p == y - 1;
    assert(y % 400 == 0 ==> y % 100 == 0 && y % 4 == 0) by (nonlinear_arith);
    assert(y % 100 == 0 ==> y % 4 == 0) by (nonlinear_arith);
}

/// The first day of a later year has a larger day number.
pub proof fn lemma_years_monotone(y1: int, y2: int)
    requires
        y1 <= y2,
    ensures
        days_before_year(y1) + 365 * (y2 - y1) <= days_before_year(y2),
    decreases y2 - y1,
{
    if y1 < y2 {
        lemma_years_monotone(y1, y2 - 1);
        lemma_year_step(y2 - 1);
    }
}

/// Within a year, a valid day precedes the first day of every later month.
proof fn lemma_months_monotone(y: int, m1: int, d1: int, m2: int)
    requires
        1 <= m1 < m2 <= 13,
        1 <= d1 <= days_in_month(y, m1),
    ensures
        days_before_month(y, m1) + d1 - 1 < (if m2 == 13 { days_in_year(y) } else {
            days_before_month(y, m2)
        }),
{
}

/// Day numbers follow the chronological order of valid dates.
pub proof fn lemma_day_number_monotone(a: Date, b: Date)
    requires
        a.wf(),
        b.wf(),
        a.lex_before(b),
    ensures
        a.day_number() < b.day_number(),
{
    if a.year < b.year {
        lemma_months_monotone(a.year as int, a.month as int, a.day as int, 13);
        lemma_year_step(a.year as int);
        lemma_years_monotone(a.year + 1, b.year as int);
    } else if a.month < b.month {
        lemma_months_monotone(a.year as int, a.month as int, a.day as int, b.month as int);
    }
}

/// Two valid dates with the same day number are the same date.
pub proof fn lemma_day_number_injective(a: Date, b: Date)
    requires
        a.wf(),
        b.wf(),
        a.day_number() == b.day_number(),
    ensures
        a == b,
{
    if a.lex_before(b) {
        lemma_day_number_monotone(a, b);
    } else if b.lex_before(a) {
        lemma_day_number_monotone(b, a);
    }
}


/// `chrono::NaiveDate::from_ymd_opt`: the date with these fields, or `None`
/// when no such date exists in chrono's range.
#[verifier::external_body]
fn naive_from_ymd_opt(year: i32, month: u32, day: u32) -> (r: Option<Date>)
    ensures
        r == (if valid_ymd(year as int, month as int, day as int) {
            Some(Date { year, month, day })
        } else {
            None
        }),
{
    match NaiveDate::from_ymd_opt(year, month, day) {
        Some(n) => Some(Date { year: n.year(), month: n.month(), day: n.day() }),
        None => None,
    }
}

/// `chrono::Datelike::with_day` on a `NaiveDate`: the same month with another
/// day, or `None` when that day does not exist in the month.
#[verifier::external_body]
fn naive_with_day(date: Date, day: u32) -> (r: Option<Date>)
    requires
        date.wf(),
    ensures
        r == (if valid_ymd(date.year as int, date.month as int, day as int) {
            Some(Date { day, ..date })
        } else {
            None
        }),
{
    let n = NaiveDate::from_ymd_opt(date.year, date.month, date.day).unwrap();
    match n.with_day(day) {
        Some(x) => Some(Date { year: x.year(), month: x.month(), day: x.day() }),
        None => None,
    }
}

/// `chrono::NaiveDate::checked_sub_days`: the date `n` days earlier, or `None`
/// when `n` exceeds `i32::MAX` or the result leaves chrono's range.
#[verifier::external_body]
fn naive_checked_sub_days(date: Date, n: u64) -> (r: Option<Date>)
    requires
        date.wf(),
    ensures
        r is None <==> (n > i32::MAX || date.day_number() - n < min_day_number()),
        r matches Some(x) ==> x.wf() && x.day_number() == date.day_number() - n,
{
    let d = NaiveDate::from_ymd_opt(date.year, date.month, date.day).unwrap();
    match d.checked_sub_days(Days::new(n)) {
        Some(x) => Some(Date { year: x.year(), month: x.month(), day: x.day() }),
        None => None,
    }
}

/// `chrono::NaiveDate::checked_add_days`: the date `n` days later, or `None`
/// when `n` exceeds `i32::MAX` or the result leaves chrono's range.
#[verifier::external_body]
fn naive_checked_add_days(date: Date, n: u64) -> (r: Option<Date>)
    requires
        date.wf(),
    ensures
        r is None <==> (n > i32::MAX || date.day_number() + n > max_day_number()),
        r matches Some(x) ==> x.wf() && x.day_number() == date.day_number() + n,
{
    let d = NaiveDate::from_ymd_opt(date.year, date.month, date.day).unwrap();
    match d.checked_add_days(Days::new(n)) {
        Some(x) => Some(Date { year: x.year(), month: x.month(), day: x.day() }),
        None => None,
    }
}

/// `chrono::Weekday::num_days_from_monday` of the date's weekday: 0 for Monday
/// through 6 for Sunday, in the proleptic Gregorian calendar where 0001-01-01
/// is a Monday.
#[verifier::external_body]
fn naive_num_days_from_monday(date: Date) -> (r: u32)
    requires
        date.wf(),
    ensures
        r == date.weekday(),
{
    NaiveDate::from_ymd_opt(date.year, date.month, date.day).unwrap().weekday().num_days_from_monday()
}

/// `chrono::Local::now().date_naive()`: today's date on the local clock.
/// Only its validity is stated: the value depends on the clock and the time zone.
#[verifier::external_body]
pub(crate) fn today_local() -> (r: Date)
    ensures
        r.wf(),
{
    let n = chrono::Local::now().date_naive();
    Date { year: n.year(), month: n.month(), day: n.day() }
}

impl Date {
    /// The date with these fields, if it exists.
    pub fn from_ymd(year: i32, month: u32, day: u32) -> (r: Option<Date>)
        ensures
            r == (if valid_ymd(year as int, month as int, day as int) {
                Some(Date { year, month, day })
            } else {
                None
            }),
    {
        naive_from_ymd_opt(year, month, day)
    }

    /// The same month with day `day`, if that day exists.
    pub fn with_day(&self, day: u32) -> (r: Option<Date>)
        requires
            self.wf(),
        ensures
            r == (if valid_ymd(self.year as int, self.month as int, day as int) {
                Some(Date { day, ..*self })
            } else {
                None
            }),
    {
        naive_with_day(*self, day)
    }

    /// The date `n` days earlier, if it lies in range.
    pub fn checked_sub_days(&self, n: u64) -> (r: Option<Date>)
        requires
            self.wf(),
        ensures
            r is None <==> (n > i32::MAX || self.day_number() - n < min_day_number()),
            r matches Some(x) ==> x.wf() && x.day_number() == self.day_number() - n,
    {
        naive_checked_sub_days(*self, n)
    }

    /// The date `n` days later, if it lies in range.
    pub fn checked_add_days(&self, n: u64) -> (r: Option<Date>)
        requires
            self.wf(),
        ensures
            r is None <==> (n > i32::MAX || self.day_number() + n > max_day_number()),
            r matches Some(x) ==> x.wf() && x.day_number() == self.day_number() + n,
    {
        naive_checked_add_days(*self, n)
    }

    /// Days since the last Monday: 0 for Monday through 6 for Sunday.
    pub fn num_days_from_monday(&self) -> (r: u32)
        requires
            self.wf(),
        ensures
            r == self.weekday(),
            r < 7,
    {
        naive_num_days_from_monday(*self)
    }

    /// Whether `self` comes strictly before `other`.
    pub fn is_before(&self, other: &Date) -> (r: bool)
        ensures
            r == self.lex_before(*other),
    {
        self.year < other.year || (self.year == other.year && (self.month < other.month || (
        self.month == other.month && self.day < other.day)))
    }
}

} // verus!
