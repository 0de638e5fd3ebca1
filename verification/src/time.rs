//! Parsing dates typed by the user and formatting durations for display.

use crate::calendar::{max_day_number, min_day_number, today_local, Date};
use crate::models::{timestamp_in_range, unix_epoch_day};
use crate::text::{
    chars_of, decimal, decimal2, decimal4, push_decimal4, push_char, push_decimal, push_decimal2, str_is, string_of_range,
    trim, trimmed,
};
use chrono::TimeZone;
use chrono::Timelike;
use chrono::Datelike;
use chrono::NaiveDate;
use vstd::prelude::*;

verus! {

#[verifier::external_type_specification]
#[verifier::external_body]
pub struct ExParseError(chrono::ParseError);

/// Why a date could not be read.
#[derive(Debug)]
pub enum DateError {
    /// The date lies outside the range of the calendar.
    OutOfRange,
    /// The (trimmed) text is neither `today`, `yesterday` nor `YYYY-MM-DD`.
    Unparsable { text: String, cause: chrono::ParseError },
}

/// What `chrono::NaiveDate::parse_from_str(s, "%Y-%m-%d")` reads from `s`, as
/// (year, month, day), or `None` when chrono rejects it.
pub uninterp spec fn parsed_ymd(s: Seq<char>) -> Option<(i32, u32, u32)>;

/// `chrono::NaiveDate::parse_from_str(s, "%Y-%m-%d")`. A date chrono returns
/// always exists and lies in its range.
#[verifier::external_body]
fn naive_parse_ymd(s: &str) -> (r: Result<Date, chrono::ParseError>)
    ensures
        r is Ok <==> parsed_ymd(s@) is Some,
        r matches Ok(d) ==> d.wf() && parsed_ymd(s@) == Some((d.year, d.month, d.day)),
{
    match NaiveDate::parse_from_str(s, "%Y-%m-%d") {
        Ok(n) => Ok(Date { year: n.year(), month: n.month(), day: n.day() }),
        Err(e) => Err(e),
    }
}

/// `parse_date` succeeds on `s` when today is `today`.
pub open spec fn parse_date_succeeds(s: Seq<char>, today: Date) -> bool {
    let t = trimmed(s);
    if t == "today"@ {
        true
    } else if t == "yesterday"@ {
        today.day_number() - 1 >= min_day_number()
    } else {
        parsed_ymd(t) is Some
    }
}

/// `parse_date` reads `s` as the date `d` when today is `today`.
pub open spec fn parse_date_gives(s: Seq<char>, today: Date, d: Date) -> bool {
    let t = trimmed(s);
    if t == "today"@ {
        d == today
    } else if t == "yesterday"@ {
        d.wf() && d.day_number() == today.day_number() - 1
    } else {
        parsed_ymd(t) == Some((d.year, d.month, d.day))
    }
}

/// Parses a date: `today`, `yesterday`, or `YYYY-MM-DD`, ignoring surrounding
/// whitespace, relative to the local date `today`.
pub fn parse_date_on(s: &str, today: Date) -> (r: Result<Date, DateError>)
    requires
        today.wf(),
    ensures
        r is Ok <==> parse_date_succeeds(s@, today),
        r matches Ok(d) ==> d.wf() && parse_date_gives(s@, today, d),
        r matches Err(DateError::OutOfRange) ==> trimmed(s@) == "yesterday"@,
        r matches Err(DateError::Unparsable { text, .. }) ==> text@ == trimmed(s@)
            && trimmed(s@) != "yesterday"@,
{
    let t = trim(s);
    if str_is(t, "today") {
        Ok(today)
    } else if str_is(t, "yesterday") {
        match today.checked_sub_days(1) {
            Some(d) => Ok(d),
            None => Err(DateError::OutOfRange),
        }
    } else {
        match naive_parse_ymd(t) {
            Ok(d) => Ok(d),
            Err(cause) => Err(DateError::Unparsable { text: t.to_owned(), cause }),
        }
    }
}

/// Parses a date: `today`, `yesterday`, or `YYYY-MM-DD`. `today` and
/// `yesterday` are read on the local clock.
pub fn parse_date(s: &str) -> (r: Result<Date, DateError>)
    ensures
        exists|today: Date|
            today.wf() && (r is Ok <==> parse_date_succeeds(s@, today)) && (r matches Ok(d)
                ==> d.wf() && parse_date_gives(s@, today, d)),
{
    let today = today_local();
    parse_date_on(s, today)
}

/// Whole minutes of a duration, never negative (chrono's `num_minutes`
/// rounds toward zero).
pub open spec fn whole_minutes(secs: int) -> int {
    if secs <= 0 { 0 } else { secs / 60 }
}

/// "1h 23m"; under an hour "23m"; sub-minute durations show as "0m".
pub open spec fn duration_text(secs: int) -> Seq<char> {
    let mins = whole_minutes(secs);
    let h = mins / 60;
    let m = mins % 60;
    if h > 0 {
        decimal(h as nat) + seq!['h', ' '] + decimal2(m as nat) + seq!['m']
    } else {
        decimal(m as nat) + seq!['m']
    }
}

/// "1h 23m 45s"; under an hour "23m 45s"; under a minute "45s".
pub open spec fn duration_secs_text(secs: int) -> Seq<char> {
    let s = if secs <= 0 { 0 } else { secs };
    let h = s / 3600;
    let m = (s % 3600) / 60;
    let sec = s % 60;
    if h > 0 {
        decimal(h as nat) + seq!['h', ' '] + decimal2(m as nat) + seq!['m', ' '] + decimal2(
            sec as nat,
        ) + seq!['s']
    } else if m > 0 {
        decimal(m as nat) + seq!['m', ' '] + decimal2(sec as nat) + seq!['s']
    } else {
        decimal(sec as nat) + seq!['s']
    }
}

/// Formats a duration given in seconds, e.g. "1h 23m".
pub fn fmt_duration(secs: i64) -> (r: String)
    ensures
        r@ == duration_text(secs as int),
{
    let mins: u64 = if secs <= 0 { 0 } else { (secs / 60) as u64 };
    let h = mins / 60;
    let m = mins % 60;
    let mut out = String::new();
    if h > 0 {
        push_decimal(&mut out, h);
        push_char(&mut out, 'h');
        push_char(&mut out, ' ');
        push_decimal2(&mut out, m);
        push_char(&mut out, 'm');
    } else {
        push_decimal(&mut out, m);
        push_char(&mut out, 'm');
    }
    proof {
        assert(whole_minutes(secs as int) == mins as int);
    }
    out
}

/// Formats a duration given in seconds with seconds shown, e.g. "1h 23m 45s",
/// for live elapsed time.
pub fn fmt_duration_secs(secs: i64) -> (r: String)
    ensures
        r@ == duration_secs_text(secs as int),
{
    let s: u64 = if secs <= 0 { 0 } else { secs as u64 };
    let h = s / 3600;
    let m = (s % 3600) / 60;
    let sec = s % 60;
    let mut out = String::new();
    if h > 0 {
        push_decimal(&mut out, h);
        push_char(&mut out, 'h');
        push_char(&mut out, ' ');
        push_decimal2(&mut out, m);
        push_char(&mut out, 'm');
        push_char(&mut out, ' ');
        push_decimal2(&mut out, sec);
        push_char(&mut out, 's');
    } else if m > 0 {
        push_decimal(&mut out, m);
        push_char(&mut out, 'm');
        push_char(&mut out, ' ');
        push_decimal2(&mut out, sec);
        push_char(&mut out, 's');
    } else {
        push_decimal(&mut out, sec);
        push_char(&mut out, 's');
    }
    out
}


/// A point in time: whole seconds since the Unix epoch, and the
/// nanoseconds past that second (chrono's leap-second notation can give
/// more than a second's worth).
#[derive(Debug, Clone, Copy, PartialEq, Eq, Structural)]
pub struct Instant {
    pub secs: i64,
    pub nanos: u32,
}

impl Instant {
    /// `self` comes strictly before `other`.
    pub open spec fn before(self, other: Instant) -> bool {
        self.secs < other.secs || (self.secs == other.secs && self.nanos < other.nanos)
    }

    /// Whether `self` comes strictly before `other`.
    pub fn is_before(&self, other: &Instant) -> (r: bool)
        ensures
            r == self.before(*other),
    {
        self.secs < other.secs || (self.secs == other.secs && self.nanos < other.nanos)
    }

    /// The start of second `secs`.
    pub fn at_second(secs: i64) -> (r: Instant)
        ensures
            r == (Instant { secs, nanos: 0 }),
    {
        Instant { secs, nanos: 0 }
    }
}

/// What `chrono::DateTime::parse_from_rfc3339` reads from `s`, as seconds
/// since the epoch and nanoseconds past them, or `None`.
pub uninterp spec fn parsed_rfc3339(s: Seq<char>) -> Option<(i64, u32)>;

/// What `chrono::NaiveTime::parse_from_str(s, "%H:%M")` reads from `s`, as
/// (hour, minute), or `None`.
pub uninterp spec fn parsed_hm(s: Seq<char>) -> Option<(u32, u32)>;

/// What `chrono::NaiveDateTime::parse_from_str(s, "%Y-%m-%d %H:%M")` reads
/// from `s`, as (year, month, day, hour, minute), or `None`.
pub uninterp spec fn parsed_ymd_hm(s: Seq<char>) -> Option<(i32, u32, u32, u32, u32)>;

/// `chrono::DateTime::parse_from_rfc3339`, converted to UTC: its
/// `timestamp` and `timestamp_subsec_nanos`. Every instant chrono returns
/// lies in its range.
#[verifier::external_body]
fn chrono_parse_rfc3339(s: &str) -> (r: Option<Instant>)
    ensures
        r is Some <==> parsed_rfc3339(s@) is Some,
        r matches Some(t) ==> parsed_rfc3339(s@) == Some((t.secs, t.nanos)) && timestamp_in_range(
            t.secs as int,
        ),
{
    match chrono::DateTime::parse_from_rfc3339(s) {
        Ok(dt) => Some(Instant { secs: dt.timestamp(), nanos: dt.timestamp_subsec_nanos() }),
        Err(_) => None,
    }
}

/// `chrono::NaiveTime::parse_from_str(s, "%H:%M")`. A time chrono returns has
/// an hour below 24 and a minute below 60.
#[verifier::external_body]
fn chrono_parse_hm(s: &str) -> (r: Option<(u32, u32)>)
    ensures
        r == parsed_hm(s@),
        r matches Some((h, m)) ==> h < 24 && m < 60,
{
    match chrono::NaiveTime::parse_from_str(s, "%H:%M") {
        Ok(t) => Some((t.hour(), t.minute())),
        Err(_) => None,
    }
}

/// `chrono::NaiveDateTime::parse_from_str(s, "%Y-%m-%d %H:%M")`. The date of
/// a value chrono returns exists and lies in its range.
#[verifier::external_body]
fn chrono_parse_ymd_hm(s: &str) -> (r: Option<(Date, u32, u32)>)
    ensures
        r is Some <==> parsed_ymd_hm(s@) is Some,
        r matches Some((d, h, m)) ==> d.wf() && h < 24 && m < 60 && parsed_ymd_hm(s@) == Some(
            (d.year, d.month, d.day, h, m),
        ),
{
    match chrono::NaiveDateTime::parse_from_str(s, "%Y-%m-%d %H:%M") {
        Ok(dt) => Some((
            Date { year: dt.year(), month: dt.month(), day: dt.day() },
            dt.hour(),
            dt.minute(),
        )),
        Err(_) => None,
    }
}

/// The wall-clock time `h:m` on `d`, counted in seconds since the Unix
/// epoch as if it were UTC.
pub open spec fn naive_seconds(d: Date, h: int, m: int) -> int {
    (d.day_number() - unix_epoch_day()) * 86400 + h * 3600 + m * 60
}

/// `t` lies less than a day away from `local`: a local time zone's offset
/// from UTC is always less than a day.
pub open spec fn within_a_day(t: int, local: int) -> bool {
    local - 86400 < t < local + 86400
}

/// `chrono::Local.from_local_datetime`: the UTC instant (whole seconds) of a
/// wall-clock time in the local time zone, the earlier one when the time
/// occurs twice, `None` when it falls into a gap. chrono subtracts the zone's
/// offset, which its `FixedOffset` keeps strictly between minus and plus a
/// day, so the instant lies less than a day from the wall-clock time read
/// as UTC; it also lies in chrono's range. Which instant it is, within that,
/// depends on the machine's time zone and is not stated.
#[verifier::external_body]
fn local_to_utc(date: Date, hour: u32, minute: u32) -> (r: Option<i64>)
    requires
        date.wf(),
        hour < 24,
        minute < 60,
    ensures
        r matches Some(t) ==> timestamp_in_range(t as int) && within_a_day(
            t as int,
            naive_seconds(date, hour as int, minute as int),
        ),
{
    let d = NaiveDate::from_ymd_opt(date.year, date.month, date.day).unwrap();
    let naive = d.and_hms_opt(hour, minute, 0).unwrap();
    match chrono::Local.from_local_datetime(&naive) {
        chrono::LocalResult::Single(dt) => Some(dt.with_timezone(&chrono::Utc).timestamp()),
        chrono::LocalResult::Ambiguous(dt, _) => Some(dt.with_timezone(&chrono::Utc).timestamp()),
        chrono::LocalResult::None => None,
    }
}

/// The forms of a point in time the user may type.
#[derive(Debug, Clone, PartialEq, Eq)]
pub enum TimeInput {
    /// A full RFC 3339 timestamp: this instant.
    Instant(Instant),
    /// `HH:MM`: today at this local time.
    Today { hour: u32, minute: u32 },
    /// `yesterday HH:MM`: yesterday at this local time.
    Yesterday { hour: u32, minute: u32 },
    /// `YYYY-MM-DD HH:MM`: this local date and time.
    At { date: Date, hour: u32, minute: u32 },
    /// None of these; the trimmed text.
    Unparsable(String),
}

pub open spec fn yesterday_prefix() -> Seq<char> {
    "yesterday "@
}

/// The form of the (trimmed) text `t`, tried in this order: RFC 3339, `HH:MM`,
/// `yesterday HH:MM`, `YYYY-MM-DD HH:MM`.
pub open spec fn time_input_of(s: Seq<char>, r: TimeInput) -> bool {
    let t = trimmed(s);
    let p = yesterday_prefix();
    let rest = trimmed(t.skip(p.len() as int));
    let after_prefix = t.len() >= p.len() && t.take(p.len() as int) == p && parsed_hm(rest) is Some;
    if parsed_rfc3339(t) is Some {
        let (secs, nanos) = parsed_rfc3339(t)->0;
        r == TimeInput::Instant(Instant { secs, nanos })
    } else if parsed_hm(t) is Some {
        let (h, m) = parsed_hm(t)->0;
        r == (TimeInput::Today { hour: h, minute: m })
    } else if after_prefix {
        let (h, m) = parsed_hm(rest)->0;
        r == (TimeInput::Yesterday { hour: h, minute: m })
    } else if parsed_ymd_hm(t) is Some {
        r matches TimeInput::At { date, hour, minute } && date.wf() && parsed_ymd_hm(t) == Some(
            (date.year, date.month, date.day, hour, minute),
        )
    } else {
        r matches TimeInput::Unparsable(text) && text@ == t
    }
}

/// Which form of a point in time `s` is written in.
#[verifier::spinoff_prover]
pub fn classify_time(s: &str) -> (r: TimeInput)
    ensures
        time_input_of(s@, r),
        r matches TimeInput::Instant(x) ==> timestamp_in_range(x.secs as int),
        r matches TimeInput::Today { hour, minute } ==> hour < 24 && minute < 60,
        r matches TimeInput::Yesterday { hour, minute } ==> hour < 24 && minute < 60,
        r matches TimeInput::At { date, hour, minute } ==> date.wf() && hour < 24 && minute < 60,
{
    let t = trim(s);
    if let Some(x) = chrono_parse_rfc3339(t) {
        return TimeInput::Instant(x);
    }
    if let Some((hour, minute)) = chrono_parse_hm(t) {
        return TimeInput::Today { hour, minute };
    }
    let cs = chars_of(t);
    let prefix = chars_of("yesterday ");
    let n = prefix.len();
    if cs.len() >= n {
        let head = string_of_range(cs.as_slice(), 0, n);
        if str_is(head.as_str(), "yesterday ") {
            let rest_all = string_of_range(cs.as_slice(), n, cs.len());
            proof {
                assert(rest_all@ == t@.skip(n as int));
            }
            let rest = trim(rest_all.as_str());
            if let Some((hour, minute)) = chrono_parse_hm(rest) {
                return TimeInput::Yesterday { hour, minute };
            }
        }
    }
    if let Some((date, hour, minute)) = chrono_parse_ymd_hm(t) {
        return TimeInput::At { date, hour, minute };
    }
    TimeInput::Unparsable(t.to_owned())
}

/// Why a point in time could not be read.
#[derive(Debug, Clone, PartialEq, Eq)]
pub enum TimeError {
    /// The text has none of the accepted forms; the trimmed text.
    Unparsable(String),
    /// Yesterday lies outside the calendar's range.
    OutOfRange,
    /// This local date and time does not exist in the local time zone
    /// (it falls into a daylight-saving gap).
    Gap { date: Date, hour: u32, minute: u32 },
}

/// What reading `s` as a point in time gives when the local date is
/// `today`: by its form, the instant or the error. `HH:MM` is read on
/// `today` and `yesterday HH:MM` on the day before (out of range where that
/// day lies before the calendar); for the local forms the local time zone
/// decides the instant, within a day of the local time read as UTC, or
/// whether the time falls into a gap (see `local_time_result`).
pub open spec fn time_parse_result_on(s: Seq<char>, today: Date, r: Result<Instant, TimeError>) -> bool {
    exists|form: TimeInput|
        time_input_of(s, form) && match form {
            TimeInput::Instant(x) => r == Ok::<Instant, TimeError>(x),
            TimeInput::Unparsable(text) => r == Err::<Instant, TimeError>(
                TimeError::Unparsable(text),
            ),
            TimeInput::Today { hour, minute } => local_time_result(today, hour, minute, r),
            TimeInput::Yesterday { hour, minute } => if today.day_number() - 1 < min_day_number() {
                r == Err::<Instant, TimeError>(TimeError::OutOfRange)
            } else {
                exists|d: Date|
                    d.wf() && d.day_number() == today.day_number() - 1
                        && #[trigger] local_time_result(d, hour, minute, r)
            },
            TimeInput::At { date, hour, minute } => local_time_result(date, hour, minute, r),
        }
}

/// What reading `s` as a point in time gives on the local clock: the result
/// of `time_parse_result_on` for the local date at the moment of reading.
pub open spec fn time_parse_result(s: Seq<char>, r: Result<Instant, TimeError>) -> bool {
    exists|today: Date| today.wf() && #[trigger] time_parse_result_on(s, today, r)
}

/// What reading the local time `hour:minute` on `d` gives: an instant less
/// than a day from that wall-clock time read as UTC, in whole seconds, or
/// the error that names the time as falling into a gap.
pub open spec fn local_time_result(d: Date, hour: u32, minute: u32, r: Result<Instant, TimeError>) -> bool {
    match r {
        Ok(t) => t.nanos == 0 && within_a_day(t.secs as int, naive_seconds(d, hour as int, minute as int)),
        Err(e) => e == (TimeError::Gap { date: d, hour, minute }),
    }
}

/// Parses a point in time: `HH:MM` (on `today`), `yesterday HH:MM` (the
/// day before `today`), `YYYY-MM-DD HH:MM`, or a full RFC 3339 timestamp;
/// local forms are read in the local time zone, to the whole second.
#[verifier::spinoff_prover]
pub fn parse_time_on(s: &str, today: Date) -> (r: Result<Instant, TimeError>)
    requires
        today.wf(),
    ensures
        time_parse_result_on(s@, today, r),
        r matches Ok(t) ==> timestamp_in_range(t.secs as int),
{
    let form = classify_time(s);
    let ghost f = form;
    let r = match form {
        TimeInput::Instant(x) => Ok(x),
        TimeInput::Unparsable(text) => Err(TimeError::Unparsable(text)),
        TimeInput::Today { hour, minute } => match local_to_utc(today, hour, minute) {
            Some(x) => Ok(Instant::at_second(x)),
            None => Err(TimeError::Gap { date: today, hour, minute }),
        },
        TimeInput::Yesterday { hour, minute } => match today.checked_sub_days(1) {
            Some(date) => {
                let r = match local_to_utc(date, hour, minute) {
                    Some(x) => Ok(Instant::at_second(x)),
                    None => Err(TimeError::Gap { date, hour, minute }),
                };
                assert(local_time_result(date, hour, minute, r));
                r
            },
            None => Err(TimeError::OutOfRange),
        },
        TimeInput::At { date, hour, minute } => match local_to_utc(date, hour, minute) {
            Some(x) => Ok(Instant::at_second(x)),
            None => Err(TimeError::Gap { date, hour, minute }),
        },
    };
    proof {
        assert(time_input_of(s@, f));
    }
    r
}

/// Parses a point in time as `parse_time_on` does, with today's date on
/// the local clock.
pub fn parse_time(s: &str) -> (r: Result<Instant, TimeError>)
    ensures
        time_parse_result(s@, r),
        r matches Ok(t) ==> timestamp_in_range(t.secs as int),
{
    let today = today_local();
    let r = parse_time_on(s, today);
    assert(time_parse_result_on(s@, today, r));
    r
}

/// What `day_range` returns, given what the local time zone makes of
/// midnight at the start of `from` (`start`) and of `end_day`, the day after
/// `to` (`end`): the instants, `None` where that midnight falls into a gap.
pub open spec fn day_range_result(
    from: Date,
    to: Date,
    start: Option<i64>,
    end_day: Date,
    end: Option<i64>,
    r: Result<(i64, i64), TimeError>,
) -> bool {
    match start {
        None => r == Err::<(i64, i64), TimeError>(TimeError::Gap { date: from, hour: 0, minute: 0 }),
        Some(s) => if to.day_number() + 1 > max_day_number() {
            r == Err::<(i64, i64), TimeError>(TimeError::OutOfRange)
        } else {
            match end {
                None => r == Err::<(i64, i64), TimeError>(
                    TimeError::Gap { date: end_day, hour: 0, minute: 0 },
                ),
                Some(e) => r == Ok::<(i64, i64), TimeError>((s, e)),
            }
        },
    }
}

/// The UTC instants that begin the local days `from` and the day after
/// `to`: the range covering `from..=to`. Where the two midnights lie is the
/// time zone's to say; whatever it says, the result follows
/// `day_range_result`.
pub fn day_range(from: Date, to: Date) -> (r: Result<(i64, i64), TimeError>)
    requires
        from.wf(),
        to.wf(),
    ensures
        exists|start: Option<i64>, end_day: Date, end: Option<i64>|
            {
                &&& (start matches Some(s) ==> timestamp_in_range(s as int) && within_a_day(
                    s as int,
                    naive_seconds(from, 0, 0),
                ))
                &&& (end matches Some(e) ==> timestamp_in_range(e as int) && within_a_day(
                    e as int,
                    naive_seconds(end_day, 0, 0),
                ))
                &&& (start is Some && to.day_number() + 1 <= max_day_number() ==> end_day.wf()
                    && end_day.day_number() == to.day_number() + 1)
                &&& #[trigger] day_range_result(from, to, start, end_day, end, r)
            },
        r matches Ok((s, e)) ==> within_a_day(s as int, naive_seconds(from, 0, 0)) && within_a_day(
            e as int,
            (to.day_number() + 1 - unix_epoch_day()) * 86400,
        ),
        r == Err::<(i64, i64), TimeError>(TimeError::OutOfRange) ==> to.day_number() + 1
            > max_day_number(),
        r matches Err(TimeError::Gap { date, hour, minute }) ==> hour == 0 && minute == 0 && (
        date == from || (date.wf() && date.day_number() == to.day_number() + 1)),
        !(r matches Err(TimeError::Unparsable(_))),
{
    let start = match local_to_utc(from, 0, 0) {
        Some(x) => x,
        None => {
            let r = Err(TimeError::Gap { date: from, hour: 0, minute: 0 });
            assert(day_range_result(from, to, None, to, None, r));
            return r;
        },
    };
    let end_day = match to.checked_add_days(1) {
        Some(d) => d,
        None => {
            let r = Err(TimeError::OutOfRange);
            assert(day_range_result(from, to, Some(start), to, None, r));
            return r;
        },
    };
    let end = match local_to_utc(end_day, 0, 0) {
        Some(x) => x,
        None => {
            let r = Err(TimeError::Gap { date: end_day, hour: 0, minute: 0 });
            assert(day_range_result(from, to, Some(start), end_day, None, r));
            return r;
        },
    };
    let r = Ok((start, end));
    assert(day_range_result(from, to, Some(start), end_day, Some(end), r));
    r
}


/// The calendar date and wall-clock time (UTC) of the instant `secs`.
pub open spec fn utc_civil(secs: int, d: Date, h: int, m: int, s: int) -> bool {
    &&& d.wf()
    &&& 0 <= h < 24
    &&& 0 <= m < 60
    &&& 0 <= s < 60
    &&& (d.day_number() - unix_epoch_day()) * 86400 + h * 3600 + m * 60 + s == secs
}

/// `chrono::DateTime::from_timestamp(secs, 0)`: the UTC date and time of an
/// instant, as chrono's documentation describes it.
#[verifier::external_body]
fn chrono_from_timestamp(secs: i64) -> (r: (Date, u32, u32, u32))
    requires
        timestamp_in_range(secs as int),
    ensures
        utc_civil(secs as int, r.0, r.1 as int, r.2 as int, r.3 as int),
{
    let dt = chrono::DateTime::from_timestamp(secs, 0).unwrap();
    (Date { year: dt.year(), month: dt.month(), day: dt.day() }, dt.hour(), dt.minute(), dt.second())
}

/// chrono's `%Y`: four digits for the years 0 to 9999, otherwise a sign and
/// at least four digits.
pub open spec fn year_text(y: int) -> Seq<char> {
    if 0 <= y <= 9999 {
        decimal4(y as nat)
    } else if y < 0 {
        seq!['-'] + decimal4((-y) as nat)
    } else {
        seq!['+'] + decimal4(y as nat)
    }
}

/// `YYYY-MM-DDTHH:MM:SSZ`.
pub open spec fn api_text(d: Date, h: int, m: int, s: int) -> Seq<char> {
    year_text(d.year as int) + seq!['-'] + decimal2(d.month as nat) + seq!['-'] + decimal2(
        d.day as nat,
    ) + seq!['T'] + decimal2(h as nat) + seq![':'] + decimal2(m as nat) + seq![':'] + decimal2(
        s as nat,
    ) + seq!['Z']
}

/// Formats an instant the way the Clockify API expects it:
/// `YYYY-MM-DDTHH:MM:SSZ` in UTC.
#[verifier::spinoff_prover]
#[verifier::rlimit(40)]
pub fn to_api(secs: i64) -> (r: String)
    requires
        timestamp_in_range(secs as int),
    ensures
        exists|d: Date, h: int, m: int, s: int|
            utc_civil(secs as int, d, h, m, s) && r@ == api_text(d, h, m, s),
{
    let (d, h, m, s) = chrono_from_timestamp(secs);
    let mut out = String::new();
    if 0 <= d.year && d.year <= 9999 {
        push_decimal4(&mut out, d.year as u64);
    } else if d.year < 0 {
        push_char(&mut out, '-');
        push_decimal4(&mut out, (-(d.year as i64)) as u64);
    } else {
        push_char(&mut out, '+');
        push_decimal4(&mut out, d.year as u64);
    }
    assert(out@ == year_text(d.year as int));
    push_char(&mut out, '-');
    push_decimal2(&mut out, d.month as u64);
    push_char(&mut out, '-');
    push_decimal2(&mut out, d.day as u64);
    push_char(&mut out, 'T');
    push_decimal2(&mut out, h as u64);
    push_char(&mut out, ':');
    push_decimal2(&mut out, m as u64);
    push_char(&mut out, ':');
    push_decimal2(&mut out, s as u64);
    push_char(&mut out, 'Z');
    assert(out@ == api_text(d, h as int, m as int, s as int));
    assert(utc_civil(secs as int, d, h as int, m as int, s as int));
    out
}

} // verus!
