//! Editing a time entry.

use crate::models::{Project, TimeEntry};
use crate::time::Instant;
use vstd::prelude::*;

verus! {

/// The arguments of `edit`.
pub struct Args {
    pub id: String,
    pub description: Option<String>,
    pub project: Option<String>,
    pub from: Option<String>,
    pub to: Option<String>,
    pub json: bool,
}

/// The full new state of an edited time entry, as sent to Clockify (an
/// update replaces the entry).
#[derive(Debug, Clone, PartialEq, Eq)]
pub struct EntryUpdate {
    pub start: i64,
    pub end: Option<i64>,
    pub description: String,
    pub project_id: Option<String>,
    pub task_id: Option<String>,
    /// Sent only when the project changes: Clockify then resets billability
    /// to the new project's default and rejects any other value.
    pub billable: Option<bool>,
}

/// Why an edit is refused.
#[derive(Debug, Clone, Copy, PartialEq, Eq)]
pub enum EditError {
    /// None of description, project, start or end was given.
    NothingToChange,
    /// The entry would end before (or when) it starts.
    EndsBeforeStart,
}

/// An edit must change something.
pub fn check_args(args: &Args) -> (r: Result<(), EditError>)
    ensures
        r is Err <==> (args.description is None && args.project is None && args.from is None
            && args.to is None),
        r matches Err(e) ==> e == EditError::NothingToChange,
{
    if args.description.is_none() && args.project.is_none() && args.from.is_none()
        && args.to.is_none() {
        Err(EditError::NothingToChange)
    } else {
        Ok(())
    }
}

fn clone_opt(s: &Option<String>) -> (r: Option<String>)
    ensures
        r == *s,
{
    match s {
        Some(t) => Some(t.clone()),
        None => None,
    }
}

fn same_opt(a: &Option<String>, b: &Option<String>) -> (r: bool)
    ensures
        r == (match (a, b) {
            (Some(x), Some(y)) => x@ == y@,
            (None, None) => true,
            _ => false,
        }),
{
    match (a, b) {
        (Some(x), Some(y)) => x.eq(y),
        (None, None) => true,
        _ => false,
    }
}

pub open spec fn opt_str_view(s: Option<String>) -> Option<Seq<char>> {
    match s {
        Some(t) => Some(t@),
        None => None,
    }
}

/// The whole seconds of an optional instant.
pub open spec fn opt_secs(t: Option<Instant>) -> Option<i64> {
    match t {
        Some(x) => Some(x.secs),
        None => None,
    }
}

/// `u` is the entry `existing` after an edit that gives `description`,
/// `new_project`, `start` and `end` (sent in whole seconds).
pub open spec fn is_merged_update(
    existing: TimeEntry,
    description: Option<String>,
    new_project: Option<Project>,
    start: Instant,
    end: Option<Instant>,
    u: EntryUpdate,
) -> bool {
    let project = match new_project {
        Some(p) => Some(p.id@),
        None => opt_str_view(existing.project_id),
    };
    let changed = project != opt_str_view(existing.project_id);
    &&& u.start == start.secs
    &&& u.end == opt_secs(end)
    &&& u.description@ == (match description {
        Some(d) => d@,
        None => existing.description@,
    })
    &&& opt_str_view(u.project_id) == project
    &&& u.task_id == (if changed { None } else { existing.task_id })
    &&& u.billable == (match new_project {
        Some(p) => if changed { Some(p.billable) } else { None },
        None => None,
    })
}

/// Merges an edit into the existing entry: a new description, project,
/// start or end replaces the old one; the task is kept only while the
/// project stays the same; billability is sent only on a project change.
pub fn entry_update(
    existing: &TimeEntry,
    description: Option<String>,
    new_project: Option<&Project>,
    start: Instant,
    end: Option<Instant>,
) -> (r: Result<EntryUpdate, EditError>)
    ensures
        (end matches Some(e) && !start.before(e)) ==> r == Err::<EntryUpdate, EditError>(
            EditError::EndsBeforeStart,
        ),
        !(end matches Some(e) && !start.before(e)) ==> (r matches Ok(u) && is_merged_update(
            *existing,
            description,
            match new_project {
                Some(p) => Some(*p),
                None => None,
            },
            start,
            end,
            u,
        )),
{
    if let Some(e) = end {
        if !start.is_before(&e) {
            return Err(EditError::EndsBeforeStart);
        }
    }
    let project_id = match new_project {
        Some(p) => Some(p.id.clone()),
        None => clone_opt(&existing.project_id),
    };
    let changed = !same_opt(&project_id, &existing.project_id);
    let billable = match new_project {
        Some(p) => if changed { Some(p.billable) } else { None },
        None => None,
    };
    let task_id = if changed { None } else { clone_opt(&existing.task_id) };
    let description = match description {
        Some(d) => d,
        None => existing.description.clone(),
    };
    let end = match end {
        Some(e) => Some(e.secs),
        None => None,
    };
    Ok(EntryUpdate { start: start.secs, end, description, project_id, task_id, billable })
}

/// Editing keeps the task only while the project stays the same, sends
/// billability only when the project changes, and leaves the project alone
/// when no new one is given.
pub proof fn lemma_task_follows_project(
    existing: TimeEntry,
    description: Option<String>,
    new_project: Option<Project>,
    start: Instant,
    end: Option<Instant>,
    u: EntryUpdate,
)
    requires
        is_merged_update(existing, description, new_project, start, end, u),
    ensures
        u.task_id is Some ==> opt_str_view(u.project_id) == opt_str_view(existing.project_id)
            && u.task_id == existing.task_id,
        u.billable is Some ==> opt_str_view(u.project_id) != opt_str_view(existing.project_id),
        new_project is None ==> opt_str_view(u.project_id) == opt_str_view(existing.project_id)
            && u.task_id == existing.task_id && u.billable is None,
{
}

} // verus!
