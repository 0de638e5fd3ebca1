//! The shapes in which entries are printed for scripts and agents.

use crate::models::{timestamp_in_range, utc_now, Project, TimeEntry};
use crate::time::{api_text, to_api, utc_civil};
use crate::calendar::Date;
use vstd::prelude::*;

verus! {

/// A time entry as `--json` prints it: the same shape for every command.
#[derive(Debug, Clone, PartialEq, Eq)]
pub struct EntryRecord {
    pub id: String,
    pub description: String,
    /// The project's id and name, where the entry has a known one.
    pub project: Option<(String, String)>,
    pub start: String,
    pub end: Option<String>,
    /// Length in seconds; a running entry is measured up to now.
    pub duration_seconds: i64,
    pub running: bool,
}

/// `t` is the instant `secs` written as the API writes instants.
pub open spec fn instant_text(secs: int, t: Seq<char>) -> bool {
    exists|d: Date, h: int, m: int, s: int| utc_civil(secs, d, h, m, s) && t == api_text(d, h, m, s)
}

/// The record of `e`, under `project`, at the instant `now`: a running
/// entry is measured up to `now`.
pub fn entry_record_at(e: &TimeEntry, project: Option<&Project>, now: i64) -> (r: EntryRecord)
    requires
        e.time_interval.wf(),
        timestamp_in_range(now as int),
    ensures
        r.id == e.id,
        r.description == e.description,
        r.project == (match project {
            Some(p) => Some((p.id, p.name)),
            None => None,
        }),
        instant_text(e.time_interval.start as int, r.start@),
        match (e.time_interval.end, r.end) {
            (Some(t), Some(s)) => instant_text(t as int, s@),
            (None, None) => true,
            _ => false,
        },
        r.running == (e.time_interval.end is None),
        e.time_interval.end matches Some(t) ==> r.duration_seconds == t - e.time_interval.start,
        e.time_interval.end is None ==> r.duration_seconds == now - e.time_interval.start,
{
    let end = match e.time_interval.end {
        Some(t) => Some(to_api(t)),
        None => None,
    };
    EntryRecord {
        id: e.id.clone(),
        description: e.description.clone(),
        project: match project {
            Some(p) => Some((p.id.clone(), p.name.clone())),
            None => None,
        },
        start: to_api(e.time_interval.start),
        end,
        duration_seconds: e.duration_at(now),
        running: e.time_interval.end.is_none(),
    }
}

/// The record of `e`, under `project`, as of the current instant on the
/// clock: `entry_record_at` for that instant, so a running entry is
/// measured from its start up to the clock reading.
pub fn entry_record(e: &TimeEntry, project: Option<&Project>) -> (r: EntryRecord)
    requires
        e.time_interval.wf(),
    ensures
        r.id == e.id,
        r.description == e.description,
        r.project == (match project {
            Some(p) => Some((p.id, p.name)),
            None => None,
        }),
        instant_text(e.time_interval.start as int, r.start@),
        match (e.time_interval.end, r.end) {
            (Some(t), Some(s)) => instant_text(t as int, s@),
            (None, None) => true,
            _ => false,
        },
        r.running == (e.time_interval.end is None),
        e.time_interval.end matches Some(t) ==> r.duration_seconds == t - e.time_interval.start,
        e.time_interval.end is None ==> exists|now: int|
            timestamp_in_range(now) && r.duration_seconds == now - e.time_interval.start,
{
    let now = utc_now();
    entry_record_at(e, project, now)
}

} // verus!
