//! Adding a completed time entry.

use crate::models::{Project, Task};
use crate::time::Instant;
use vstd::prelude::*;

verus! {

/// The arguments of `add`.
pub struct Args {
    pub description: String,
    pub from: String,
    pub to: String,
    pub project: Option<String>,
    pub no_project: bool,
    pub task: Option<String>,
    pub billable: bool,
    pub json: bool,
}

/// Where the project of a new entry comes from.
#[derive(Debug, Clone, PartialEq, Eq)]
pub enum ProjectChoice {
    /// The project the user named.
    Named(String),
    /// No project (`--no-project`).
    NoProject,
    /// The workspace's default project, if one is set.
    Default,
}

/// `--project` wins; otherwise `--no-project` asks for none; otherwise the
/// default project is used.
pub fn project_choice(project: Option<&str>, no_project: bool) -> (r: ProjectChoice)
    ensures
        project matches Some(p) ==> (r matches ProjectChoice::Named(n) && n@ == p@),
        project is None && no_project ==> r == ProjectChoice::NoProject,
        project is None && !no_project ==> r == ProjectChoice::Default,
{
    match project {
        Some(p) => ProjectChoice::Named(p.to_owned()),
        None => if no_project { ProjectChoice::NoProject } else { ProjectChoice::Default },
    }
}

/// Why a new entry is refused.
#[derive(Debug, Clone, Copy, PartialEq, Eq)]
pub enum NewEntryError {
    /// `--to` is not after `--from`.
    EndsBeforeStart,
    /// A task was named for an entry without a project.
    TaskRequiresProject,
}

/// A task can only be named together with a project.
pub fn check_task(task: bool, project: bool) -> (r: Result<(), NewEntryError>)
    ensures
        r is Err <==> (task && !project),
        r matches Err(e) ==> e == NewEntryError::TaskRequiresProject,
{
    if task && !project {
        Err(NewEntryError::TaskRequiresProject)
    } else {
        Ok(())
    }
}

/// A time entry to create.
#[derive(Debug, Clone, PartialEq, Eq)]
pub struct NewEntry {
    pub start: i64,
    /// `None` for a running timer.
    pub end: Option<i64>,
    pub description: Option<String>,
    pub billable: bool,
    pub project_id: Option<String>,
    pub task_id: Option<String>,
}

/// The completed entry `add` creates: it must end after it starts (to the
/// nanosecond); it is sent in whole seconds.
pub fn completed_entry(
    start: Instant,
    end: Instant,
    description: String,
    billable: bool,
    project: Option<&Project>,
    task: Option<&Task>,
) -> (r: Result<NewEntry, NewEntryError>)
    ensures
        !start.before(end) ==> r == Err::<NewEntry, NewEntryError>(NewEntryError::EndsBeforeStart),
        start.before(end) ==> (r matches Ok(n) && n.start == start.secs && n.end == Some(end.secs)
            && n.description == Some(description) && n.billable == billable && n.project_id
            == (match project {
            Some(p) => Some(p.id),
            None => None,
        }) && n.task_id == (match task {
            Some(t) => Some(t.id),
            None => None,
        })),
{
    if !start.is_before(&end) {
        return Err(NewEntryError::EndsBeforeStart);
    }
    Ok(NewEntry {
        start: start.secs,
        end: Some(end.secs),
        description: Some(description),
        billable,
        project_id: match project {
            Some(p) => Some(p.id.clone()),
            None => None,
        },
        task_id: match task {
            Some(t) => Some(t.id.clone()),
            None => None,
        },
    })
}

/// The running timer `start` creates.
pub fn running_entry(
    start: i64,
    description: Option<String>,
    billable: bool,
    project: Option<&Project>,
    task: Option<&Task>,
) -> (r: NewEntry)
    ensures
        r.start == start && r.end is None && r.description == description && r.billable
            == billable && r.project_id == (match project {
            Some(p) => Some(p.id),
            None => None,
        }) && r.task_id == (match task {
            Some(t) => Some(t.id),
            None => None,
        }),
{
    NewEntry {
        start,
        end: None,
        description,
        billable,
        project_id: match project {
            Some(p) => Some(p.id.clone()),
            None => None,
        },
        task_id: match task {
            Some(t) => Some(t.id.clone()),
            None => None,
        },
    }
}

} // verus!
