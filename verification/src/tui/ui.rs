//! How the log tab lays out the week: the entries in order, under a heading
//! for each day with the time tracked on that day.

use crate::calendar::Date;
use crate::commands::report::{abs_seconds, lemma_abs_monotone};
use crate::commands::submit::max_delta_seconds;
use crate::models::{timestamp_in_range, TimeEntry};
use vstd::prelude::*;

verus! {

/// One line of the log tab.
#[derive(Debug, Clone, Copy, PartialEq, Eq)]
pub enum LogRow {
    /// An empty line between two days.
    Gap,
    /// The heading of a day, with the seconds tracked on it.
    Day { date: Date, seconds: i64 },
    /// The entry at this position of the list.
    Entry(usize),
}

/// Seconds tracked, up to `now`, by those of the first `k` entries that
/// start on `day` (`days` holds the day each entry starts on).
pub open spec fn day_seconds(entries: Seq<TimeEntry>, days: Seq<Date>, day: Date, k: int, now: int) -> int
    decreases k,
{
    if k <= 0 || k > entries.len() {
        0
    } else if days[k - 1] == day {
        day_seconds(entries, days, day, k - 1, now) + entries[k - 1].seconds_until(now)
    } else {
        day_seconds(entries, days, day, k - 1, now)
    }
}

/// Entry `i` starts on another day than the entry before it.
pub open spec fn starts_day(days: Seq<Date>, i: int) -> bool {
    i == 0 || days[i] != days[i - 1]
}

/// The rows for the first `k` entries: before an entry that starts a new
/// day, that day's heading (after a gap, unless it is the first), with the
/// time of all the entries on that day; then the entry itself.
pub open spec fn log_rows(entries: Seq<TimeEntry>, days: Seq<Date>, k: int, now: int) -> Seq<LogRow>
    decreases k,
{
    if k <= 0 {
        Seq::empty()
    } else {
        let i = k - 1;
        let day = LogRow::Day {
            date: days[i],
            seconds: day_seconds(entries, days, days[i], entries.len() as int, now) as i64,
        };
        let heading = if !starts_day(days, i) {
            Seq::empty()
        } else if i == 0 {
            seq![day]
        } else {
            seq![LogRow::Gap, day]
        };
        log_rows(entries, days, i, now) + heading + seq![LogRow::Entry(i as usize)]
    }
}

/// A day's time lies between minus and plus the sum of all the lengths.
proof fn lemma_day_bounded(entries: Seq<TimeEntry>, days: Seq<Date>, day: Date, k: int, now: int)
    requires
        0 <= k <= entries.len(),
    ensures
        -abs_seconds(entries, k, now) <= day_seconds(entries, days, day, k, now) <= abs_seconds(
            entries,
            k,
            now,
        ),
    decreases k,
{
    if k > 0 {
        lemma_day_bounded(entries, days, day, k - 1, now);
    }
}

/// The seconds tracked on `day`, running entries up to `now`.
fn day_total(entries: &[TimeEntry], days: &[Date], day: Date, now: i64) -> (r: i64)
    requires
        days@.len() == entries@.len(),
        forall|i: int| 0 <= i < entries@.len() ==> (#[trigger] entries@[i]).time_interval.wf(),
        timestamp_in_range(now as int),
        abs_seconds(entries@, entries@.len() as int, now as int) <= max_delta_seconds(),
    ensures
        r == day_seconds(entries@, days@, day, entries@.len() as int, now as int),
{
    let mut total: i64 = 0;
    let mut j: usize = 0;
    while j < entries.len()
        invariant
            j <= entries@.len(),
            days@.len() == entries@.len(),
            forall|i: int| 0 <= i < entries@.len() ==> (#[trigger] entries@[i]).time_interval.wf(),
            timestamp_in_range(now as int),
            abs_seconds(entries@, entries@.len() as int, now as int) <= max_delta_seconds(),
            total == day_seconds(entries@, days@, day, j as int, now as int),
        decreases entries@.len() - j,
    {
        if days[j] == day {
            let d = entries[j].duration_at(now);
            proof {
                lemma_day_bounded(entries@, days@, day, j + 1, now as int);
                lemma_abs_monotone(entries@, j + 1, entries@.len() as int, now as int);
            }
            total = total + d;
        }
        j = j + 1;
    }
    total
}

/// The rows of the log tab for `entries`, whose starts fall on `days` in
/// local time, and the row of the selected entry `sel` (none when there is
/// no such entry). Running entries count up to `now`.
pub fn log_layout(entries: &[TimeEntry], days: &[Date], now: i64, sel: usize) -> (r: (
    Vec<LogRow>,
    Option<usize>,
))
    requires
        days@.len() == entries@.len(),
        forall|i: int| 0 <= i < entries@.len() ==> (#[trigger] entries@[i]).time_interval.wf(),
        timestamp_in_range(now as int),
        abs_seconds(entries@, entries@.len() as int, now as int) <= max_delta_seconds(),
    ensures
        r.0@ == log_rows(entries@, days@, entries@.len() as int, now as int),
        sel < entries@.len() ==> (r.1 matches Some(p) && p < r.0@.len() && r.0@[p as int]
            == LogRow::Entry(sel)),
        sel >= entries@.len() ==> r.1 is None,
{
    let mut rows: Vec<LogRow> = Vec::new();
    let mut selected: Option<usize> = None;
    let mut i: usize = 0;
    while i < entries.len()
        invariant
            i <= entries@.len(),
            days@.len() == entries@.len(),
            forall|j: int| 0 <= j < entries@.len() ==> (#[trigger] entries@[j]).time_interval.wf(),
            timestamp_in_range(now as int),
            abs_seconds(entries@, entries@.len() as int, now as int) <= max_delta_seconds(),
            rows@ == log_rows(entries@, days@, i as int, now as int),
            sel < i ==> (selected matches Some(p) && p < rows@.len() && rows@[p as int]
                == LogRow::Entry(sel)),
            sel >= i ==> selected is None,
        decreases entries@.len() - i,
    {
        let ghost before = rows@;
        if i == 0 || days[i] != days[i - 1] {
            let seconds = day_total(entries, days, days[i], now);
            if i > 0 {
                rows.push(LogRow::Gap);
            }
            rows.push(LogRow::Day { date: days[i], seconds });
        }
        if i == sel {
            selected = Some(rows.len());
        }
        rows.push(LogRow::Entry(i));
        proof {
            assert(rows@ =~= log_rows(entries@, days@, i + 1, now as int));
            if sel < i {
                let p = selected->0;
                assert(rows@[p as int] == before[p as int]);
            }
        }
        i = i + 1;
    }
    (rows, selected)
}

} // verus!
