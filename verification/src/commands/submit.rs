//! Approval periods: which dates a weekly, semi-monthly or monthly approval
//! request covers, which period the `submit` flags select, and the summary
//! of the time entries that a request would submit.

use crate::calendar::{
    days_in_month, lemma_day_number_injective, lemma_year_step, lemma_years_monotone,
    max_day_number, min_day_number, today_local, valid_ymd, Date, MAX_YEAR, MIN_YEAR,
};
use crate::models::{TimeEntry, timestamp_in_range};
use crate::text::trimmed;
use crate::time::{parse_date_gives, parse_date_on, parse_date_succeeds, DateError};
use vstd::prelude::*;

verus! {

/// The approval periods Clockify supports.
#[derive(Debug, Clone, Copy, PartialEq, Eq, Structural)]
pub enum Period {
    Weekly,
    SemiMonthly,
    Monthly,
}

pub open spec fn api_name(p: Period) -> Seq<char> {
    match p {
        Period::Weekly => "WEEKLY"@,
        Period::SemiMonthly => "SEMI_MONTHLY"@,
        Period::Monthly => "MONTHLY"@,
    }
}

pub open spec fn label_text(p: Period) -> Seq<char> {
    match p {
        Period::Weekly => "weekly"@,
        Period::SemiMonthly => "semi-monthly"@,
        Period::Monthly => "monthly"@,
    }
}

impl Period {
    /// The name the Clockify API uses for the period.
    pub fn as_api_str(self) -> (r: &'static str)
        ensures
            r@ == api_name(self),
    {
        match self {
            Period::Weekly => "WEEKLY",
            Period::SemiMonthly => "SEMI_MONTHLY",
            Period::Monthly => "MONTHLY",
        }
    }

    /// The name shown to the user (and accepted by `--period`).
    pub fn label(self) -> (r: &'static str)
        ensures
            r@ == label_text(self),
    {
        match self {
            Period::Weekly => "weekly",
            Period::SemiMonthly => "semi-monthly",
            Period::Monthly => "monthly",
        }
    }
}

/// The API names of distinct periods differ, so a request names one period.
pub proof fn lemma_api_names_distinct(p: Period, q: Period)
    requires
        p != q,
    ensures
        api_name(p) != api_name(q),
{
    reveal_strlit("WEEKLY");
    reveal_strlit("SEMI_MONTHLY");
    reveal_strlit("MONTHLY");
    assert("WEEKLY"@[0] != "SEMI_MONTHLY"@[0]);
    assert("WEEKLY"@[0] != "MONTHLY"@[0]);
    assert("SEMI_MONTHLY"@[0] != "MONTHLY"@[0]);
}

/// The arguments of `submit`.
pub struct Args {
    pub week: bool,
    pub month: bool,
    pub from: Option<String>,
    pub period: Option<Period>,
    pub resubmit: bool,
    pub yes: bool,
    pub json: bool,
}

/// The dates an approval request covers, both ends included.
#[derive(Debug, Clone, Copy, PartialEq, Eq)]
pub struct PeriodWindow {
    pub period: Period,
    pub from: Date,
    pub to: Date,
}

/// Why no period window could be chosen or summarized.
#[derive(Debug)]
pub enum SubmitError {
    /// A computed date would leave the calendar's range.
    DateOutOfRange,
    /// `--from` was given without `--period`.
    FromRequiresPeriod,
    /// Flags that select different periods were combined.
    ChooseOnePeriod,
    /// The `--from` date could not be read.
    Date(DateError),
    /// The window holds no time entries.
    NoEntries { from: Date, to: Date },
    /// A timer of the window is still running.
    RunningTimer,
    /// The window would end beyond the calendar's range.
    WindowOutOfRange,
}

/// The window of `period` starting on `from` ends on `to`.
pub open spec fn window_ends(period: Period, from: Date, to: Date) -> bool {
    match period {
        Period::Weekly => to.wf() && to.day_number() == from.day_number() + 6,
        Period::SemiMonthly => if from.day <= 15 {
            to == (Date { day: 15, ..from })
        } else {
            to == (Date { day: days_in_month(from.year as int, from.month as int) as u32, ..from })
        },
        Period::Monthly => to == (Date {
            day: days_in_month(from.year as int, from.month as int) as u32,
            ..from
        }),
    }
}

/// The window of `period` starting on `from` lies within the calendar.
pub open spec fn window_fits(period: Period, from: Date) -> bool {
    match period {
        Period::Weekly => from.day_number() + 6 <= max_day_number(),
        Period::SemiMonthly => from.day <= 15 || !(from.year == MAX_YEAR && from.month == 12),
        Period::Monthly => !(from.year == MAX_YEAR && from.month == 12),
    }
}

/// Every valid date has a day number within the calendar's range.
pub proof fn lemma_day_number_in_range(d: Date)
    requires
        d.wf(),
    ensures
        min_day_number() <= d.day_number() <= max_day_number(),
{
    lemma_years_monotone(MIN_YEAR as int, d.year as int);
    lemma_years_monotone(d.year as int, MAX_YEAR as int);
    if d.year < MAX_YEAR {
        lemma_year_step(d.year as int);
        lemma_years_monotone(d.year + 1, MAX_YEAR as int);
    }
}

/// The first day of the month after `d`'s follows the last day of `d`'s month.
proof fn lemma_month_end_then_next(d: Date, next: Date)
    requires
        d.wf(),
        next.wf(),
        next.day == 1,
        d.month < 12 ==> next.year == d.year && next.month == d.month + 1,
        d.month == 12 ==> next.year == d.year + 1 && next.month == 1,
    ensures
        (Date { day: days_in_month(d.year as int, d.month as int) as u32, ..d }).day_number() + 1
            == next.day_number(),
{
    if d.month == 12 {
        lemma_year_step(d.year as int);
    }
}

/// The last day of `date`'s month.
pub fn last_day_of_month(date: Date) -> (r: Date)
    requires
        date.wf(),
        !(date.year == MAX_YEAR && date.month == 12),
    ensures
        r == (Date { day: days_in_month(date.year as int, date.month as int) as u32, ..date }),
{
    let (year, month) = if date.month == 12 {
        (date.year + 1, 1u32)
    } else {
        (date.year, date.month + 1)
    };
    let first = Date::from_ymd(year, month, 1);
    assert(valid_ymd(year as int, month as int, 1));
    let first = first.unwrap();
    let ghost last = Date { day: days_in_month(date.year as int, date.month as int) as u32, ..date };
    proof {
        lemma_month_end_then_next(date, first);
        lemma_day_number_in_range(last);
    }
    match first.checked_sub_days(1) {
        Some(d) => {
            proof { lemma_day_number_injective(d, last); }
            d
        },
        None => date,
    }
}

/// The window of `period` that starts on `from`: a week of seven days, the
/// first or second half of a month, or the rest of the month.
pub fn window_for(period: Period, from: Date) -> (r: PeriodWindow)
    requires
        from.wf(),
        window_fits(period, from),
    ensures
        r.period == period,
        r.from == from,
        window_ends(period, from, r.to),
{
    let to = match period {
        Period::Weekly => {
            let t = from.checked_add_days(6);
            t.unwrap()
        },
        Period::SemiMonthly => {
            if from.day <= 15 {
                match from.with_day(15) {
                    Some(d) => d,
                    None => from,
                }
            } else {
                last_day_of_month(from)
            }
        },
        Period::Monthly => last_day_of_month(from),
    };
    PeriodWindow { period, from, to }
}

/// The Monday of `date`'s week.
pub fn week_start(date: Date) -> (r: Result<Date, SubmitError>)
    requires
        date.wf(),
    ensures
        r is Ok <==> date.day_number() - date.weekday() >= min_day_number(),
        r matches Ok(d) ==> d.wf() && d.day_number() == date.day_number() - date.weekday(),
        r matches Err(e) ==> e is DateOutOfRange,
{
    let back = date.num_days_from_monday();
    match date.checked_sub_days(back as u64) {
        Some(d) => Ok(d),
        None => Err(SubmitError::DateOutOfRange),
    }
}

/// The first day of `date`'s month.
pub fn month_start(date: Date) -> (r: Result<Date, SubmitError>)
    requires
        date.wf(),
    ensures
        r == Ok::<Date, SubmitError>(Date { day: 1, ..date }),
{
    match date.with_day(1) {
        Some(d) => Ok(d),
        None => Err(SubmitError::DateOutOfRange),
    }
}

/// The first day of `date`'s half of the month: the 1st or the 16th.
pub fn semi_month_start(date: Date) -> (r: Result<Date, SubmitError>)
    requires
        date.wf(),
    ensures
        r == Ok::<Date, SubmitError>(Date { day: if date.day <= 15 { 1 } else { 16 }, ..date }),
{
    if date.day <= 15 {
        month_start(date)
    } else {
        match date.with_day(16) {
            Some(d) => Ok(d),
            None => Err(SubmitError::DateOutOfRange),
        }
    }
}

/// Which window the `submit` flags ask for.
#[derive(Debug, Clone, Copy, PartialEq, Eq)]
pub enum WindowChoice {
    /// The current period of this kind, as of today.
    Current(Period),
    /// A period of this kind starting on the `--from` date.
    FromDate(Period),
    /// `--from` without `--period`.
    NeedPeriod,
    /// Flags that contradict each other.
    Conflict,
}

pub open spec fn window_choice(
    week: bool,
    month: bool,
    has_from: bool,
    period: Option<Period>,
) -> WindowChoice {
    if !week && !month && has_from && period is Some {
        WindowChoice::FromDate(period->0)
    } else if !week && !month && has_from {
        WindowChoice::NeedPeriod
    } else if week && !month && !has_from && (period is None || period == Some(Period::Weekly)) {
        WindowChoice::Current(Period::Weekly)
    } else if !week && month && !has_from && (period is None || period == Some(Period::Monthly)) {
        WindowChoice::Current(Period::Monthly)
    } else if !week && !month && !has_from {
        WindowChoice::Current(
            match period {
                Some(p) => p,
                None => Period::Monthly,
            },
        )
    } else {
        WindowChoice::Conflict
    }
}

/// The current period of kind `p` starts on `d`, as of `today`.
pub open spec fn current_start(p: Period, today: Date, d: Date) -> bool {
    match p {
        Period::Weekly => d.wf() && d.day_number() == today.day_number() - today.weekday(),
        Period::SemiMonthly => d == (Date { day: if today.day <= 15 { 1 } else { 16 }, ..today }),
        Period::Monthly => d == (Date { day: 1, ..today }),
    }
}

/// The current period of kind `p` has a start within the calendar.
pub open spec fn current_start_exists(p: Period, today: Date) -> bool {
    p == Period::Weekly ==> today.day_number() - today.weekday() >= min_day_number()
}

/// The start date of the window the flags select lies where the window fits.
pub open spec fn selection_fits(
    today: Date,
    week: bool,
    month: bool,
    from: Option<Seq<char>>,
    period: Option<Period>,
) -> bool {
    match window_choice(week, month, from is Some, period) {
        WindowChoice::Current(p) => forall|d: Date| current_start(p, today, d) ==> window_fits(p, d),
        WindowChoice::FromDate(p) => forall|d: Date|
            d.wf() && parse_date_gives(from->0, today, d) ==> window_fits(p, d),
        _ => true,
    }
}

pub open spec fn opt_view(s: Option<&str>) -> Option<Seq<char>> {
    match s {
        Some(t) => Some(t@),
        None => None,
    }
}

/// The start of the current period of kind `p`.
fn current_period_start(p: Period, today: Date) -> (r: Result<Date, SubmitError>)
    requires
        today.wf(),
    ensures
        r is Ok <==> current_start_exists(p, today),
        r matches Ok(d) ==> d.wf() && current_start(p, today, d),
        r matches Err(e) ==> e is DateOutOfRange,
{
    match p {
        Period::Weekly => week_start(today),
        Period::SemiMonthly => semi_month_start(today),
        Period::Monthly => month_start(today),
    }
}

/// The period and start date the flags select, as of `today`.
pub fn select_start(
    today: Date,
    week: bool,
    month: bool,
    from: Option<&str>,
    period: Option<Period>,
) -> (r: Result<(Period, Date), SubmitError>)
    requires
        today.wf(),
    ensures
        match window_choice(week, month, from is Some, period) {
            WindowChoice::Current(p) => (r is Ok <==> current_start_exists(p, today)) && (r matches Ok(
                (q, d),
            ) ==> q == p && d.wf() && current_start(p, today, d)) && (r matches Err(e)
                ==> e is DateOutOfRange),
            WindowChoice::FromDate(p) => (r is Ok <==> parse_date_succeeds(from->0@, today)) && (
            r matches Ok((q, d)) ==> q == p && d.wf() && parse_date_gives(from->0@, today, d)) && (
            r matches Err(e) ==> e is Date),
            WindowChoice::NeedPeriod => r matches Err(e) && e is FromRequiresPeriod,
            WindowChoice::Conflict => r matches Err(e) && e is ChooseOnePeriod,
        },
{
    let choice = if !week && !month && from.is_some() && period.is_some() {
        WindowChoice::FromDate(period.unwrap())
    } else if !week && !month && from.is_some() {
        WindowChoice::NeedPeriod
    } else if week && !month && from.is_none() && (period.is_none() || period == Some(
        Period::Weekly,
    )) {
        WindowChoice::Current(Period::Weekly)
    } else if !week && month && from.is_none() && (period.is_none() || period == Some(
        Period::Monthly,
    )) {
        WindowChoice::Current(Period::Monthly)
    } else if !week && !month && from.is_none() {
        WindowChoice::Current(
            match period {
                Some(p) => p,
                None => Period::Monthly,
            },
        )
    } else {
        WindowChoice::Conflict
    };
    assert(choice == window_choice(week, month, from is Some, period));
    match choice {
        WindowChoice::Current(p) => match current_period_start(p, today) {
            Ok(d) => Ok((p, d)),
            Err(e) => Err(e),
        },
        WindowChoice::FromDate(p) => match parse_date_on(from.unwrap(), today) {
            Ok(d) => Ok((p, d)),
            Err(e) => Err(SubmitError::Date(e)),
        },
        WindowChoice::NeedPeriod => Err(SubmitError::FromRequiresPeriod),
        WindowChoice::Conflict => Err(SubmitError::ChooseOnePeriod),
    }
}


/// Whether the window of `period` starting on `from` lies within the calendar.
pub fn fits(period: Period, from: Date) -> (r: bool)
    requires
        from.wf(),
    ensures
        r == window_fits(period, from),
{
    match period {
        Period::Weekly => from.checked_add_days(6).is_some(),
        Period::SemiMonthly => from.day <= 15 || !(from.year == MAX_YEAR && from.month == 12),
        Period::Monthly => !(from.year == MAX_YEAR && from.month == 12),
    }
}

/// The window the `submit` flags select, as of the local date `today`:
/// `--week` is this week, `--month` (or nothing) this month, `--period`
/// alone the current period of that kind, and `--from` with `--period` the
/// period of that kind starting on the given date.
#[verifier::spinoff_prover]
pub fn select_window_on(
    today: Date,
    week: bool,
    month: bool,
    from: Option<&str>,
    period: Option<Period>,
) -> (r: Result<PeriodWindow, SubmitError>)
    requires
        today.wf(),
        selection_fits(today, week, month, opt_view(from), period),
    ensures
        match window_choice(week, month, from is Some, period) {
            WindowChoice::Current(p) => (r is Ok <==> current_start_exists(p, today)) && (r matches Ok(
                w,
            ) ==> w.period == p && current_start(p, today, w.from) && window_ends(p, w.from, w.to))
                && (r matches Err(e) ==> e is DateOutOfRange),
            WindowChoice::FromDate(p) => (r is Ok <==> parse_date_succeeds(from->0@, today)) && (
            r matches Ok(w) ==> w.period == p && w.from.wf() && parse_date_gives(
                from->0@,
                today,
                w.from,
            ) && window_ends(p, w.from, w.to)) && (r matches Err(e) ==> e is Date),
            WindowChoice::NeedPeriod => r matches Err(e) && e is FromRequiresPeriod,
            WindowChoice::Conflict => r matches Err(e) && e is ChooseOnePeriod,
        },
{
    match select_start(today, week, month, from, period) {
        Ok((p, d)) => {
            proof {
                match window_choice(week, month, from is Some, period) {
                    WindowChoice::Current(q) => assert(window_fits(p, d)),
                    WindowChoice::FromDate(q) => assert(window_fits(p, d)),
                    _ => {},
                }
            }
            Ok(window_for(p, d))
        },
        Err(e) => Err(e),
    }
}

/// The window the `submit` flags select, as of today's local date. Where the
/// selected window would run past the end of the calendar (the year 262142),
/// the answer is `WindowOutOfRange`.
pub fn select_window(
    week: bool,
    month: bool,
    from: Option<&str>,
    period: Option<Period>,
) -> (r: Result<PeriodWindow, SubmitError>)
    ensures
        exists|today: Date|
            today.wf() && match window_choice(week, month, from is Some, period) {
                WindowChoice::Current(p) => (r matches Ok(w) ==> w.period == p && current_start(
                    p,
                    today,
                    w.from,
                ) && window_ends(p, w.from, w.to)) && (r matches Err(e) ==> e is DateOutOfRange
                    || e is WindowOutOfRange) && (r is Ok <==> (current_start_exists(p, today)
                    && selection_fits(today, week, month, opt_view(from), period))),
                WindowChoice::FromDate(p) => (r matches Ok(w) ==> w.period == p && w.from.wf()
                    && parse_date_gives(from->0@, today, w.from) && window_ends(p, w.from, w.to))
                    && (r matches Err(e) ==> e is Date || e is WindowOutOfRange) && (r is Ok <==> (
                parse_date_succeeds(from->0@, today) && selection_fits(
                    today,
                    week,
                    month,
                    opt_view(from),
                    period,
                ))),
                WindowChoice::NeedPeriod => r matches Err(e) && e is FromRequiresPeriod,
                WindowChoice::Conflict => r matches Err(e) && e is ChooseOnePeriod,
            },
{
    let today = today_local();
    match select_start(today, week, month, from, period) {
        Ok((p, d)) => {
            if fits(p, d) {
                proof {
                    match window_choice(week, month, from is Some, period) {
                        WindowChoice::Current(q) => {
                            assert forall|x: Date| current_start(q, today, x) implies window_fits(
                                q,
                                x,
                            ) by {
                                if q == Period::Weekly {
                                    lemma_day_number_injective(x, d);
                                }
                            }
                        },
                        WindowChoice::FromDate(q) => {
                            assert forall|x: Date|
                                x.wf() && parse_date_gives(from->0@, today, x) implies window_fits(
                                q,
                                x,
                            ) by {
                                lemma_day_number_injective(x, d);
                            }
                        },
                        _ => {},
                    }
                }
                select_window_on(today, week, month, from, period)
            } else {
                proof {
                    match window_choice(week, month, from is Some, period) {
                        WindowChoice::Current(q) => assert(!window_fits(q, d)),
                        WindowChoice::FromDate(q) => assert(!window_fits(q, d)),
                        _ => {},
                    }
                }
                Err(SubmitError::WindowOutOfRange)
            }
        },
        Err(e) => {
            proof {
                match window_choice(week, month, from is Some, period) {
                    WindowChoice::Current(q) => assert(!current_start_exists(q, today)),
                    WindowChoice::FromDate(q) => assert(!parse_date_succeeds(from->0@, today)),
                    _ => {},
                }
            }
            Err(e)
        },
    }
}


/// What a time approval request would submit.
#[derive(Debug, Clone, Copy)]
pub struct SubmissionSummary {
    pub window: PeriodWindow,
    pub entry_count: usize,
    /// Total tracked time, in seconds.
    pub total: i64,
    /// The instant the approval period starts (local midnight of `window.from`).
    pub period_start: i64,
}

/// The largest magnitude, in whole seconds, of a `chrono::TimeDelta`.
pub open spec fn max_delta_seconds() -> int {
    9223372036854775
}

/// Seconds tracked by the first `k` entries, all of them completed.
pub open spec fn total_seconds(entries: Seq<TimeEntry>, k: int) -> int
    decreases k,
{
    if k <= 0 || k > entries.len() {
        0
    } else {
        total_seconds(entries, k - 1) + (entries[k - 1].time_interval.end->0
            - entries[k - 1].time_interval.start)
    }
}

/// Adding up the entries one by one never leaves the range of a duration.
pub open spec fn sums_fit(entries: Seq<TimeEntry>) -> bool {
    forall|k: int| 0 <= k <= entries.len() ==> -max_delta_seconds() <= #[trigger] total_seconds(entries, k)
        <= max_delta_seconds()
}

pub open spec fn all_completed(entries: Seq<TimeEntry>) -> bool {
    forall|i: int| 0 <= i < entries.len() ==> !(#[trigger] entries[i]).is_running()
}

/// Counts and adds up the entries of a window before submitting it. A window
/// without entries cannot be submitted, nor one whose timer still runs.
#[verifier::spinoff_prover]
pub fn summarize_entries(window: PeriodWindow, period_start: i64, entries: &[TimeEntry]) -> (r:
    Result<SubmissionSummary, SubmitError>)
    requires
        forall|i: int| 0 <= i < entries@.len() ==> (#[trigger] entries@[i]).time_interval.wf(),
        entries@.len() > 0 && all_completed(entries@) ==> sums_fit(entries@),
    ensures
        entries@.len() == 0 ==> (r matches Err(e) && e == (SubmitError::NoEntries {
            from: window.from,
            to: window.to,
        })),
        entries@.len() > 0 && !all_completed(entries@) ==> (r matches Err(e) && e is RunningTimer),
        entries@.len() > 0 && all_completed(entries@) ==> (r matches Ok(s) && s.window == window
            && s.entry_count == entries@.len() && s.total == total_seconds(
            entries@,
            entries@.len() as int,
        ) && s.period_start == period_start),
{
    if entries.len() == 0 {
        return Err(SubmitError::NoEntries { from: window.from, to: window.to });
    }
    let mut i: usize = 0;
    while i < entries.len()
        invariant
            i <= entries@.len(),
            forall|k: int| 0 <= k < i ==> !(#[trigger] entries@[k]).is_running(),
        decreases entries@.len() - i,
    {
        if entries[i].time_interval.end.is_none() {
            return Err(SubmitError::RunningTimer);
        }
        i = i + 1;
    }
    let mut total: i64 = 0;
    let mut j: usize = 0;
    while j < entries.len()
        invariant
            j <= entries@.len(),
            all_completed(entries@),
            sums_fit(entries@),
            forall|k: int| 0 <= k < entries@.len() ==> (#[trigger] entries@[k]).time_interval.wf(),
            total == total_seconds(entries@, j as int),
        decreases entries@.len() - j,
    {
        let e = &entries[j];
        assert(!entries@[j as int].is_running());
        let end = match e.time_interval.end {
            Some(t) => t,
            None => e.time_interval.start,
        };
        assert(total_seconds(entries@, j + 1) == total + (end - e.time_interval.start));
        assert(-max_delta_seconds() <= total_seconds(entries@, j + 1) <= max_delta_seconds());
        total = total + (end - e.time_interval.start);
        j = j + 1;
    }
    Ok(SubmissionSummary { window, entry_count: entries.len(), total, period_start })
}

/// A week starts on a Monday, at most six days before the given date.
pub proof fn lemma_week_start_is_monday(date: Date, start: Date)
    requires
        date.wf(),
        start.wf(),
        start.day_number() == date.day_number() - date.weekday(),
    ensures
        start.weekday() == 0,
        date.day_number() - 6 <= start.day_number() <= date.day_number(),
{
    assert((date.day_number() - date.day_number() % 7) % 7 == 0) by (nonlinear_arith);
}

/// Every window starts on its first day and ends on or after it: a week
/// spans seven days, and a month or half-month window stays in its month.
pub proof fn lemma_window_shape(period: Period, from: Date, to: Date)
    requires
        from.wf(),
        window_ends(period, from, to),
    ensures
        to.wf(),
        from.day_number() <= to.day_number(),
        period == Period::Weekly ==> to.day_number() - from.day_number() == 6,
        period != Period::Weekly ==> to.year == from.year && to.month == from.month,
        period == Period::Monthly ==> to.day as int == days_in_month(
            from.year as int,
            from.month as int,
        ),
{
}

} // verus!
