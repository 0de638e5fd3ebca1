//! Starting a timer.

use crate::commands::add::{running_entry, NewEntry};
use crate::models::{Project, Task};
use vstd::prelude::*;

verus! {

/// The arguments of `start`.
pub struct Args {
    pub description: Option<String>,
    pub project: Option<String>,
    pub no_project: bool,
    pub task: Option<String>,
    pub billable: bool,
    pub at: Option<String>,
    pub json: bool,
}

/// What `start` does, in this order.
#[derive(Debug, Clone, PartialEq, Eq)]
pub struct StartPlan {
    /// First stop whatever timer is running, ending it at this instant.
    pub stop_running_at: i64,
    /// Then create this running timer.
    pub entry: NewEntry,
}

/// Starting a timer at `start`: like the web app, it first stops any timer
/// already running, at the moment the new one starts, so that running
/// timers never overlap; then the new timer runs from `start` with the
/// given description, billability, project and task.
pub fn start_plan(
    start: i64,
    description: Option<String>,
    billable: bool,
    project: Option<&Project>,
    task: Option<&Task>,
) -> (r: StartPlan)
    ensures
        r.stop_running_at == start,
        r.entry.start == start && r.entry.end is None && r.entry.description == description
            && r.entry.billable == billable && r.entry.project_id == (match project {
            Some(p) => Some(p.id),
            None => None,
        }) && r.entry.task_id == (match task {
            Some(t) => Some(t.id),
            None => None,
        }),
{
    StartPlan { stop_running_at: start, entry: running_entry(start, description, billable, project, task) }
}

} // verus!
