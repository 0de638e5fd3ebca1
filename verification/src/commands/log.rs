//! Listing time entries.

use crate::calendar::{min_day_number, today_local, Date};
use crate::commands::{date_range_on, DefaultRange, RangeError};
use vstd::prelude::*;

verus! {

/// The arguments of `log`.
pub struct Args {
    pub week: bool,
    pub from: Option<String>,
    pub to: Option<String>,
    pub limit: Option<usize>,
    pub json: bool,
}

/// The dates listed, as of `today`: `--from` through `--to` (or today),
/// else today (or, with `--week`, Monday through today).
pub fn range_on(today: Date, week: bool, from: Option<&str>, to: Option<&str>) -> (r: Result<
    (Date, Date),
    RangeError,
>)
    requires
        today.wf(),
        from is None && to is None && week ==> today.day_number() - today.weekday() >= min_day_number(),
    ensures
        crate::commands::range_outcome(today, if week { DefaultRange::ThisWeek } else { DefaultRange::Today }, crate::commands::submit::opt_view(from), crate::commands::submit::opt_view(to), r),
{
    date_range_on(today, if week { DefaultRange::ThisWeek } else { DefaultRange::Today }, from, to)
}

} // verus!
