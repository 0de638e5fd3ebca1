//! The state of the terminal UI between key presses and fetches: which tab,
//! week and month are shown, what has been fetched, and what a finished
//! fetch changes. Fetching and drawing are done by the caller.

use crate::calendar::{
    days_in_month, max_day_number, min_day_number, today_local, valid_ymd, Date, MAX_YEAR, MIN_YEAR,
};
use crate::commands::report::{
    abs_seconds, are_project_totals, key_seconds, lemma_abs_seconds_bound, project_totals,
    ProjectTotal,
};
use crate::commands::submit::{
    label_text, last_day_of_month, lemma_day_number_in_range, max_delta_seconds, Period,
};
use crate::config::DefaultProject;
use crate::models::{timestamp_in_range, utc_now, Project, TimeEntry, Workspace};
use crate::text::{decimal, push_decimal, push_str, str_is};
use crate::commands::edit::opt_secs;
use crate::time::{parse_time, time_parse_result, Instant, TimeError};
use crate::tui::{field_states, form_billable, form_project, form_texts, Form, FormKind};
use std::collections::HashMap;
use vstd::prelude::*;

verus! {

broadcast use vstd::std_specs::hash::group_hash_axioms;

/// The result of a fetch run in the background. `epoch` is the workspace
/// epoch the fetch was started in; errors come as their message.
pub enum Msg<A> {
    /// The entries of the week `offset` weeks from this one.
    Entries { epoch: u64, offset: i64, result: Result<Vec<TimeEntry>, String> },
    /// The entries of the month `offset` months from this one.
    MonthEntries { epoch: u64, offset: i64, result: Result<Vec<TimeEntry>, String> },
    Approvals { epoch: u64, result: Result<Vec<A>, String> },
    Projects { epoch: u64, result: Result<Vec<Project>, String> },
    Running { epoch: u64, result: Result<Option<TimeEntry>, String> },
    /// Workspaces are the same whatever the current one is: no epoch.
    Workspaces { result: Result<Vec<Workspace>, String> },
}

/// A fetch the UI asks for.
#[derive(Debug, Clone, Copy, PartialEq, Eq, Structural)]
pub enum Fetch {
    Week(i64),
    Month(i64),
}

/// The state of the UI as values.
pub struct AppView<A> {
    pub tab: usize,
    pub week_offset: i64,
    pub report_period: Period,
    pub month_offset: i64,
    pub entries: Seq<TimeEntry>,
    pub month_entries: Seq<TimeEntry>,
    pub approvals: Seq<A>,
    pub projects: Seq<Project>,
    pub workspaces: Seq<Workspace>,
    pub running: Option<TimeEntry>,
    pub loading: bool,
    pub month_loading: bool,
    pub sel_log: usize,
    pub sel_ws: usize,
    pub status: Option<(Seq<char>, bool)>,
    pub quit: bool,
    pub week_cache: Map<i64, Seq<TimeEntry>>,
    pub month_cache: Map<i64, Seq<TimeEntry>>,
    pub epoch: u64,
}

/// The state of the UI. `A` is a row of the approval list.
pub struct AppState<A> {
    pub tab: usize,
    pub week_offset: i64,
    pub report_period: Period,
    pub month_offset: i64,
    /// Entries of the shown week, oldest first.
    pub entries: Vec<TimeEntry>,
    pub month_entries: Vec<TimeEntry>,
    pub approvals: Vec<A>,
    pub projects: Vec<Project>,
    pub workspaces: Vec<Workspace>,
    pub running: Option<TimeEntry>,
    /// True while the shown week has nothing to show yet.
    pub loading: bool,
    pub month_loading: bool,
    pub sel_log: usize,
    pub sel_ws: usize,
    /// A message and whether it is an error.
    pub status: Option<(String, bool)>,
    pub quit: bool,
    pub week_cache: HashMap<i64, Vec<TimeEntry>>,
    pub month_cache: HashMap<i64, Vec<TimeEntry>>,
    /// Bumped on a workspace switch, so that answers for the old one are dropped.
    pub epoch: u64,
}

pub open spec fn status_view(s: Option<(String, bool)>) -> Option<(Seq<char>, bool)> {
    match s {
        Some((m, e)) => Some((m@, e)),
        None => None,
    }
}

pub open spec fn cache_view(m: Map<i64, Vec<TimeEntry>>) -> Map<i64, Seq<TimeEntry>> {
    m.map_values(|v: Vec<TimeEntry>| v@)
}

impl<A> View for AppState<A> {
    type V = AppView<A>;

    open spec fn view(&self) -> AppView<A> {
        AppView {
            tab: self.tab,
            week_offset: self.week_offset,
            report_period: self.report_period,
            month_offset: self.month_offset,
            entries: self.entries@,
            month_entries: self.month_entries@,
            approvals: self.approvals@,
            projects: self.projects@,
            workspaces: self.workspaces@,
            running: self.running,
            loading: self.loading,
            month_loading: self.month_loading,
            sel_log: self.sel_log,
            sel_ws: self.sel_ws,
            status: status_view(self.status),
            quit: self.quit,
            week_cache: cache_view(self.week_cache@),
            month_cache: cache_view(self.month_cache@),
            epoch: self.epoch,
        }
    }
}

impl<A> AppView<A> {
    /// The shown tab exists, no offset points into the future, and the log
    /// selection is on the list (or the list is empty).
    pub open spec fn wf(self) -> bool {
        &&& self.tab < 4
        &&& self.week_offset <= 0
        &&& self.month_offset <= 0
        &&& (self.entries.len() == 0 || self.sel_log < self.entries.len())
    }
}

/// The log selection kept on a list of `len` entries.
pub open spec fn kept_selection(sel: usize, len: nat) -> usize {
    if len == 0 {
        0
    } else if sel > len - 1 {
        (len - 1) as usize
    } else {
        sel
    }
}

/// The state after a finished fetch: answers from an earlier workspace epoch
/// are dropped; entries are cached by offset and shown if their week or
/// month is the one shown; errors become the status.
pub open spec fn applied<A>(s: AppView<A>, msg: Msg<A>) -> AppView<A> {
    match msg {
        Msg::Entries { epoch, offset, result } => if epoch != s.epoch {
            s
        } else {
            match result {
                Ok(es) => if offset == s.week_offset {
                    AppView {
                        week_cache: s.week_cache.insert(offset, es@),
                        entries: es@,
                        loading: false,
                        sel_log: kept_selection(s.sel_log, es@.len()),
                        ..s
                    }
                } else {
                    AppView { week_cache: s.week_cache.insert(offset, es@), ..s }
                },
                Err(e) => AppView {
                    loading: if offset == s.week_offset { false } else { s.loading },
                    status: Some((e@, true)),
                    ..s
                },
            }
        },
        Msg::MonthEntries { epoch, offset, result } => if epoch != s.epoch {
            s
        } else {
            match result {
                Ok(es) => if offset == s.month_offset {
                    AppView {
                        month_cache: s.month_cache.insert(offset, es@),
                        month_entries: es@,
                        month_loading: false,
                        ..s
                    }
                } else {
                    AppView { month_cache: s.month_cache.insert(offset, es@), ..s }
                },
                Err(e) => AppView {
                    month_loading: if offset == s.month_offset { false } else { s.month_loading },
                    status: Some((e@, true)),
                    ..s
                },
            }
        },
        Msg::Approvals { epoch, result } => if epoch != s.epoch {
            s
        } else {
            match result {
                Ok(rows) => AppView { approvals: rows@, ..s },
                Err(e) => AppView { status: Some((e@, true)), ..s },
            }
        },
        Msg::Projects { epoch, result } => if epoch != s.epoch {
            s
        } else {
            match result {
                Ok(ps) => AppView { projects: ps@, ..s },
                Err(e) => AppView { status: Some((e@, true)), ..s },
            }
        },
        Msg::Running { epoch, result } => if epoch != s.epoch {
            s
        } else {
            match result {
                Ok(r) => AppView { running: r, ..s },
                Err(e) => AppView { status: Some((e@, true)), ..s },
            }
        },
        Msg::Workspaces { result } => match result {
            Ok(ws) => AppView { workspaces: ws@, ..s },
            Err(e) => AppView { status: Some((e@, true)), ..s },
        },
    }
}

/// The epoch a message was fetched in, if it has one.
pub open spec fn msg_epoch<A>(msg: Msg<A>) -> Option<u64> {
    match msg {
        Msg::Entries { epoch, .. } => Some(epoch),
        Msg::MonthEntries { epoch, .. } => Some(epoch),
        Msg::Approvals { epoch, .. } => Some(epoch),
        Msg::Projects { epoch, .. } => Some(epoch),
        Msg::Running { epoch, .. } => Some(epoch),
        Msg::Workspaces { .. } => None,
    }
}

/// An answer fetched for another workspace epoch changes nothing.
pub proof fn lemma_stale_answer_ignored<A>(s: AppView<A>, msg: Msg<A>)
    requires
        msg_epoch(msg) matches Some(e) && e != s.epoch,
    ensures
        applied(s, msg) == s,
{
}

/// A finished fetch keeps the state well formed.
pub proof fn lemma_applied_keeps_wf<A>(s: AppView<A>, msg: Msg<A>)
    requires
        s.wf(),
    ensures
        applied(s, msg).wf(),
{
}

/// Entries fetched for the shown week are shown, and are in the cache for
/// that week from then on.
pub proof fn lemma_fetched_week_shown<A>(s: AppView<A>, epoch: u64, es: Vec<TimeEntry>)
    requires
        epoch == s.epoch,
    ensures
        ({
            let t = applied(
                s,
                Msg::Entries { epoch, offset: s.week_offset, result: Ok(es) },
            );
            &&& t.entries == es@
            &&& !t.loading
            &&& t.week_cache.contains_key(s.week_offset)
            &&& t.week_cache[s.week_offset] == es@
        }),
{
}

proof fn lemma_cache_insert(m: Map<i64, Vec<TimeEntry>>, k: i64, v: Vec<TimeEntry>)
    ensures
        cache_view(m.insert(k, v)) == cache_view(m).insert(k, v@),
{
    assert(cache_view(m.insert(k, v)) =~= cache_view(m).insert(k, v@));
}

fn clone_entries(v: &Vec<TimeEntry>) -> (r: Vec<TimeEntry>)
    ensures
        r@ == v@,
{
    let mut out: Vec<TimeEntry> = Vec::new();
    let mut i: usize = 0;
    while i < v.len()
        invariant
            i <= v@.len(),
            out@ == v@.take(i as int),
        decreases v@.len() - i,
    {
        out.push(v[i].clone());
        proof {
            assert(v@.take(i + 1) == v@.take(i as int).push(v@[i as int]));
        }
        i = i + 1;
    }
    proof {
        assert(v@.take(v@.len() as int) == v@);
    }
    out
}

impl<A> AppState<A> {
    /// The state the UI starts in: the log tab, this week, the monthly
    /// report, nothing fetched yet.
    pub fn new() -> (r: Self)
        ensures
            r@.wf(),
            r@.tab == 0,
            r@.week_offset == 0,
            r@.month_offset == 0,
            r@.report_period == Period::Monthly,
            r@.entries.len() == 0,
            r@.month_entries.len() == 0,
            r@.approvals.len() == 0,
            r@.projects.len() == 0,
            r@.workspaces.len() == 0,
            r@.running is None,
            r@.loading,
            r@.month_loading,
            r@.sel_log == 0,
            r@.sel_ws == 0,
            r@.status is None,
            !r@.quit,
            r@.week_cache == Map::<i64, Seq<TimeEntry>>::empty(),
            r@.month_cache == Map::<i64, Seq<TimeEntry>>::empty(),
            r@.epoch == 0,
    {
        let r = AppState {
            tab: 0,
            week_offset: 0,
            report_period: Period::Monthly,
            month_offset: 0,
            entries: Vec::new(),
            month_entries: Vec::new(),
            approvals: Vec::new(),
            projects: Vec::new(),
            workspaces: Vec::new(),
            running: None,
            loading: true,
            month_loading: true,
            sel_log: 0,
            sel_ws: 0,
            status: None,
            quit: false,
            week_cache: HashMap::new(),
            month_cache: HashMap::new(),
            epoch: 0,
        };
        proof {
            assert(cache_view(r.week_cache@) =~= Map::<i64, Seq<TimeEntry>>::empty());
            assert(cache_view(r.month_cache@) =~= Map::<i64, Seq<TimeEntry>>::empty());
        }
        r
    }

    /// Takes in a finished fetch.
    pub fn apply(&mut self, msg: Msg<A>)
        ensures
            final(self)@ == applied(old(self)@, msg),
    {
        match msg {
            Msg::Entries { epoch, offset, result } => {
                if epoch != self.epoch {
                    return ;
                }
                match result {
                    Ok(es) => {
                        let copy = clone_entries(&es);
                        proof {
                            lemma_cache_insert(self.week_cache@, offset, copy);
                        }
                        self.week_cache.insert(offset, copy);
                        if offset == self.week_offset {
                            self.entries = es;
                            self.loading = false;
                            let n = self.entries.len();
                            if n == 0 {
                                self.sel_log = 0;
                            } else if self.sel_log > n - 1 {
                                self.sel_log = n - 1;
                            }
                        }
                    },
                    Err(e) => {
                        if offset == self.week_offset {
                            self.loading = false;
                        }
                        self.status = Some((e, true));
                    },
                }
            },
            Msg::MonthEntries { epoch, offset, result } => {
                if epoch != self.epoch {
                    return ;
                }
                match result {
                    Ok(es) => {
                        let copy = clone_entries(&es);
                        proof {
                            lemma_cache_insert(self.month_cache@, offset, copy);
                        }
                        self.month_cache.insert(offset, copy);
                        if offset == self.month_offset {
                            self.month_entries = es;
                            self.month_loading = false;
                        }
                    },
                    Err(e) => {
                        if offset == self.month_offset {
                            self.month_loading = false;
                        }
                        self.status = Some((e, true));
                    },
                }
            },
            Msg::Approvals { epoch, result } => {
                if epoch != self.epoch {
                    return ;
                }
                match result {
                    Ok(rows) => self.approvals = rows,
                    Err(e) => self.status = Some((e, true)),
                }
            },
            Msg::Projects { epoch, result } => {
                if epoch != self.epoch {
                    return ;
                }
                match result {
                    Ok(ps) => self.projects = ps,
                    Err(e) => self.status = Some((e, true)),
                }
            },
            Msg::Running { epoch, result } => {
                if epoch != self.epoch {
                    return ;
                }
                match result {
                    Ok(r) => self.running = r,
                    Err(e) => self.status = Some((e, true)),
                }
            },
            Msg::Workspaces { result } => {
                match result {
                    Ok(ws) => self.workspaces = ws,
                    Err(e) => self.status = Some((e, true)),
                }
            },
        }
    }
}

/// A selection moved by `delta` on a list of `len` rows, kept on the list.
pub open spec fn moved(sel: int, len: int, delta: int) -> int {
    if sel + delta < 0 {
        0
    } else if sel + delta > len - 1 {
        len - 1
    } else {
        sel + delta
    }
}

/// A week or month offset moved by `delta`, never into the future.
pub open spec fn shifted(offset: int, delta: int) -> int {
    if offset + delta > 0 {
        0
    } else {
        offset + delta
    }
}

/// The first day of the week `offset` weeks from the one of `today`.
pub open spec fn week_monday(today: Date, offset: int) -> int {
    today.day_number() - today.weekday() + 7 * offset
}

/// `today`'s week and the week `offset` weeks from it lie in the calendar.
pub open spec fn week_fits(today: Date, offset: int) -> bool {
    &&& min_day_number() <= today.day_number() - today.weekday()
    &&& min_day_number() <= week_monday(today, offset)
    &&& week_monday(today, offset) + 6 <= max_day_number()
}

/// Months counted from January of year 0.
pub open spec fn month_index(d: Date) -> int {
    d.year * 12 + d.month - 1
}

/// The first day of month number `m`.
pub open spec fn first_of_month(m: int) -> Date {
    Date { year: (m / 12) as i32, month: (m % 12 + 1) as u32, day: 1 }
}

impl<A> AppState<A> {
    /// Moves the selection of the log (tab 0) or of the workspaces (tab 3)
    /// by `delta` rows, keeping it on the list; other tabs and empty lists
    /// are left alone.
    pub fn move_selection(&mut self, delta: i64)
        requires
            old(self)@.wf(),
            i64::MIN <= old(self).sel_log + delta <= i64::MAX,
            i64::MIN <= old(self).sel_ws + delta <= i64::MAX,
            old(self).sel_log <= i64::MAX,
            old(self).sel_ws <= i64::MAX,
        ensures
            final(self)@.wf(),
            (old(self).tab == 0 && old(self).entries@.len() > 0) ==> final(self)@ == (AppView {
                sel_log: moved(old(self).sel_log as int, old(self).entries@.len() as int, delta as int)
                    as usize,
                ..old(self)@
            }),
            (old(self).tab == 3 && old(self).workspaces@.len() > 0) ==> final(self)@ == (AppView {
                sel_ws: moved(old(self).sel_ws as int, old(self).workspaces@.len() as int, delta as int)
                    as usize,
                ..old(self)@
            }),
            !((old(self).tab == 0 && old(self).entries@.len() > 0) || (old(self).tab == 3
                && old(self).workspaces@.len() > 0)) ==> final(self)@ == old(self)@,
    {
        if self.tab == 0 && self.entries.len() > 0 {
            self.sel_log = moved_in(self.sel_log, self.entries.len(), delta);
        } else if self.tab == 3 && self.workspaces.len() > 0 {
            self.sel_ws = moved_in(self.sel_ws, self.workspaces.len(), delta);
        }
    }

    /// Shows another week (on the report tab in its monthly view, another
    /// month): `delta` weeks on, but never past this one. Returns the fetch
    /// to start, or `None` where nothing changed. A cached week is shown at
    /// once; otherwise the log empties and waits for the fetch.
    pub fn shift_week(&mut self, delta: i64) -> (r: Option<Fetch>)
        requires
            old(self)@.wf(),
            i64::MIN <= old(self).week_offset + delta,
            i64::MIN <= old(self).month_offset + delta,
        ensures
            final(self)@.wf(),
            old(self).tab > 1 ==> r is None && final(self)@ == old(self)@,
            old(self).tab == 1 && old(self).report_period == Period::Monthly ==> shifted_month(
                old(self)@,
                final(self)@,
                delta as int,
                match r {
                    Some(Fetch::Month(m)) => Some(m),
                    _ => None,
                },
            ) && (r is None || r is Some && r->0 is Month),
            old(self).tab <= 1 && !(old(self).tab == 1 && old(self).report_period == Period::Monthly)
                ==> {
                let next = shifted(old(self).week_offset as int, delta as int);
                if next == old(self).week_offset {
                    r is None && final(self)@ == old(self)@
                } else {
                    &&& r == Some(Fetch::Week(next as i64))
                    &&& final(self)@ == (AppView {
                        week_offset: next as i64,
                        sel_log: 0,
                        entries: if old(self)@.week_cache.contains_key(next as i64) {
                            old(self)@.week_cache[next as i64]
                        } else {
                            Seq::empty()
                        },
                        loading: !old(self)@.week_cache.contains_key(next as i64),
                        ..old(self)@
                    })
                }
            },
    {
        if self.tab > 1 {
            return None;
        }
        if self.tab == 1 && self.report_period == Period::Monthly {
            return match self.shift_month(delta) {
                Some(m) => Some(Fetch::Month(m)),
                None => None,
            };
        }
        let next = if self.week_offset + delta > 0 {
            0
        } else {
            self.week_offset + delta
        };
        if next == self.week_offset {
            return None;
        }
        self.week_offset = next;
        self.sel_log = 0;
        match self.week_cache.get(&next) {
            Some(cached) => {
                self.entries = clone_entries(cached);
                self.loading = false;
            },
            None => {
                self.entries = Vec::new();
                self.loading = true;
            },
        }
        Some(Fetch::Week(next))
    }

    /// Shows the month `delta` months on, never past this one; returns the
    /// month to fetch, or `None` where nothing changed.
    pub fn shift_month(&mut self, delta: i64) -> (r: Option<i64>)
        requires
            old(self)@.wf(),
            i64::MIN <= old(self).month_offset + delta,
        ensures
            final(self)@.wf(),
            shifted_month(old(self)@, final(self)@, delta as int, r),
    {
        let next = if self.month_offset + delta > 0 {
            0
        } else {
            self.month_offset + delta
        };
        if next == self.month_offset {
            return None;
        }
        self.month_offset = next;
        match self.month_cache.get(&next) {
            Some(cached) => {
                self.month_entries = clone_entries(cached);
                self.month_loading = false;
            },
            None => {
                self.month_entries = Vec::new();
                self.month_loading = true;
            },
        }
        Some(next)
    }

    /// Switches the report between weekly and monthly. Returns whether the
    /// month's entries must be fetched (they have not been yet).
    pub fn set_report_period(&mut self, period: Period) -> (r: bool)
        requires
            old(self)@.wf(),
        ensures
            final(self)@.wf(),
            period == old(self).report_period ==> !r && final(self)@ == old(self)@,
            period != old(self).report_period ==> {
                &&& r == (period == Period::Monthly && old(self)@.month_entries.len() == 0)
                &&& final(self)@ == (AppView {
                    report_period: period,
                    month_loading: if r { true } else { old(self).month_loading },
                    status: Some(("report period: "@ + label_text(period), false)),
                    ..old(self)@
                })
            },
    {
        if self.report_period == period {
            return false;
        }
        self.report_period = period;
        let fetch = period == Period::Monthly && self.month_entries.len() == 0;
        if fetch {
            self.month_loading = true;
        }
        let mut msg = String::new();
        push_str(&mut msg, "report period: ");
        push_str(&mut msg, period.label());
        self.status = Some((msg, false));
        fetch
    }

    /// Forgets the cached weeks and months after entries changed. What is
    /// shown stays until fresh data arrives; the caller fetches the shown
    /// week and month, the approvals and the running timer again.
    pub fn invalidate(&mut self)
        requires
            old(self)@.wf(),
        ensures
            final(self)@ == (AppView {
                week_cache: Map::empty(),
                month_cache: Map::empty(),
                loading: old(self)@.entries.len() == 0,
                month_loading: old(self)@.month_entries.len() == 0,
                ..old(self)@
            }),
            final(self)@.wf(),
    {
        self.week_cache.clear();
        self.month_cache.clear();
        self.loading = self.entries.len() == 0;
        self.month_loading = self.month_entries.len() == 0;
        proof {
            assert(cache_view(self.week_cache@) =~= Map::<i64, Seq<TimeEntry>>::empty());
            assert(cache_view(self.month_cache@) =~= Map::<i64, Seq<TimeEntry>>::empty());
        }
    }

    /// Starts over after a switch of workspace: a new epoch, so that answers
    /// still on their way for the old workspace are dropped, and nothing
    /// fetched kept. The caller fetches everything again.
    pub fn begin_epoch(&mut self)
        requires
            old(self)@.wf(),
            old(self).epoch < u64::MAX,
        ensures
            final(self)@ == (AppView {
                epoch: (old(self).epoch + 1) as u64,
                week_cache: Map::empty(),
                month_cache: Map::empty(),
                entries: Seq::empty(),
                month_entries: Seq::empty(),
                approvals: Seq::empty(),
                projects: Seq::empty(),
                running: None,
                loading: true,
                month_loading: true,
                ..old(self)@
            }),
            final(self)@.wf(),
    {
        self.epoch = self.epoch + 1;
        self.week_cache.clear();
        self.month_cache.clear();
        self.entries = Vec::new();
        self.month_entries = Vec::new();
        self.approvals = Vec::new();
        self.projects = Vec::new();
        self.running = None;
        self.loading = true;
        self.month_loading = true;
        proof {
            assert(cache_view(self.week_cache@) =~= Map::<i64, Seq<TimeEntry>>::empty());
            assert(cache_view(self.month_cache@) =~= Map::<i64, Seq<TimeEntry>>::empty());
        }
    }
}

/// The month view after shifting it by `delta`, and the month to fetch.
pub open spec fn shifted_month<A>(s: AppView<A>, t: AppView<A>, delta: int, r: Option<i64>) -> bool {
    let next = shifted(s.month_offset as int, delta);
    if next == s.month_offset {
        r is None && t == s
    } else {
        &&& r == Some(next as i64)
        &&& t == (AppView {
            month_offset: next as i64,
            month_entries: if s.month_cache.contains_key(next as i64) {
                s.month_cache[next as i64]
            } else {
                Seq::empty()
            },
            month_loading: !s.month_cache.contains_key(next as i64),
            ..s
        })
    }
}

fn moved_in(sel: usize, len: usize, delta: i64) -> (r: usize)
    requires
        len > 0,
        sel <= i64::MAX,
        i64::MIN <= sel + delta <= i64::MAX,
    ensures
        r == moved(sel as int, len as int, delta as int),
{
    let v: i64 = sel as i64 + delta;
    if v < 0 {
        0
    } else if v as u64 > (len - 1) as u64 {
        len - 1
    } else {
        v as usize
    }
}

/// `r` is the week `offset` weeks from the one of `today`, Monday through
/// Sunday, or `None` where that week leaves the calendar.
pub open spec fn week_result(today: Date, offset: int, r: Option<(Date, Date)>) -> bool {
    if week_fits(today, offset) {
        r matches Some((a, b)) && a.wf() && b.wf() && a.day_number() == week_monday(today, offset)
            && b.day_number() == a.day_number() + 6
    } else {
        r is None
    }
}

/// The week `offset` weeks from the one of `today`: its Monday and Sunday.
pub fn week_bounds_on(today: Date, offset: i64) -> (r: Option<(Date, Date)>)
    requires
        today.wf(),
    ensures
        week_result(today, offset as int, r),
{
    proof {
        lemma_day_number_in_range(today);
    }
    let wd = today.num_days_from_monday();
    let monday0 = match today.checked_sub_days(wd as u64) {
        Some(d) => d,
        None => return None,
    };
    if offset < -400_000_000 || offset > 400_000_000 {
        return None;
    }
    let monday = if offset < 0 {
        let n: i64 = 7 * (0 - offset);
        match monday0.checked_sub_days(n as u64) {
            Some(d) => d,
            None => return None,
        }
    } else {
        let n: i64 = 7 * offset;
        match monday0.checked_add_days(n as u64) {
            Some(d) => d,
            None => return None,
        }
    };
    proof {
        lemma_day_number_in_range(monday);
    }
    match monday.checked_add_days(6) {
        Some(sunday) => Some((monday, sunday)),
        None => None,
    }
}

/// The first of the month `offset` months from `date`'s, or `None` where
/// its year leaves the calendar.
pub fn add_months(date: Date, offset: i64) -> (r: Option<Date>)
    requires
        date.wf(),
    ensures
        ({
            let m = month_index(date) + offset;
            if MIN_YEAR <= m / 12 <= MAX_YEAR {
                r == Some(first_of_month(m))
            } else {
                r is None
            }
        }),
{
    if offset < -7_000_000 || offset > 7_000_000 {
        return None;
    }
    let m: i64 = date.year as i64 * 12 + (date.month as i64 - 1) + offset;
    let y = m.checked_div_euclid(12).unwrap();
    let mo = m.checked_rem_euclid(12).unwrap();
    if y < MIN_YEAR as i64 || y > MAX_YEAR as i64 {
        return None;
    }
    proof {
        assert(valid_ymd(y as int, mo + 1, 1));
    }
    Date::from_ymd(y as i32, (mo + 1) as u32, 1)
}

/// `r` is the month `offset` months from `today`'s, first through last
/// day, or `None` where it (or the month after it) leaves the calendar.
pub open spec fn month_result(today: Date, offset: int, r: Option<(Date, Date)>) -> bool {
    let m = month_index(today) + offset;
    if MIN_YEAR <= m / 12 <= MAX_YEAR && (m + 1) / 12 <= MAX_YEAR {
        let first = first_of_month(m);
        r == Some(
            (first, Date { day: days_in_month(first.year as int, first.month as int) as u32, ..first }),
        )
    } else {
        r is None
    }
}

/// The month `offset` months from `today`'s: its first and last day.
pub fn month_bounds_on(today: Date, offset: i64) -> (r: Option<(Date, Date)>)
    requires
        today.wf(),
    ensures
        month_result(today, offset as int, r),
{
    let first_this = today.with_day(1).unwrap();
    let first = match add_months(first_this, offset) {
        Some(d) => d,
        None => return None,
    };
    if first.year == MAX_YEAR && first.month == 12 {
        return None;
    }
    Some((first, last_day_of_month(first)))
}

/// The projects that are not archived, in order.
pub open spec fn unarchived(ps: Seq<Project>) -> Seq<Project>
    decreases ps.len(),
{
    if ps.len() == 0 {
        Seq::empty()
    } else if ps.last().archived {
        unarchived(ps.drop_last())
    } else {
        unarchived(ps.drop_last()).push(ps.last())
    }
}

/// The first of `ps` with id `id`.
pub open spec fn first_with_id(ps: Seq<Project>, id: Seq<char>, i: int) -> bool {
    &&& 0 <= i < ps.len()
    &&& ps[i].id@ == id
    &&& forall|j: int| 0 <= j < i ==> (#[trigger] ps[j]).id@ != id
}

impl<A> AppState<A> {
    /// The shown week, Monday through Sunday; `None` where it leaves the
    /// calendar.
    pub fn week_bounds(&self) -> (r: Option<(Date, Date)>)
        ensures
            exists|today: Date| today.wf() && week_result(today, self.week_offset as int, r),
    {
        let today = today_local();
        week_bounds_on(today, self.week_offset)
    }

    /// The dates the report shows: the shown month in the monthly view,
    /// else the shown week.
    pub fn report_bounds(&self) -> (r: Option<(Date, Date)>)
        ensures
            exists|today: Date|
                today.wf() && if self.report_period == Period::Monthly {
                    month_result(today, self.month_offset as int, r)
                } else {
                    week_result(today, self.week_offset as int, r)
                },
    {
        let today = today_local();
        match self.report_period {
            Period::Monthly => month_bounds_on(today, self.month_offset),
            _ => week_bounds_on(today, self.week_offset),
        }
    }

    /// The entries the report covers.
    pub fn report_entries(&self) -> (r: &Vec<TimeEntry>)
        ensures
            r@ == if self.report_period == Period::Monthly {
                self.month_entries@
            } else {
                self.entries@
            },
    {
        match self.report_period {
            Period::Monthly => &self.month_entries,
            _ => &self.entries,
        }
    }

    /// Whether the report still waits for its entries.
    pub fn report_loading(&self) -> (r: bool)
        ensures
            r == if self.report_period == Period::Monthly {
                self.month_loading
            } else {
                self.loading
            },
    {
        match self.report_period {
            Period::Monthly => self.month_loading,
            _ => self.loading,
        }
    }

    /// The projects a picker offers: those not archived.
    pub fn active_projects(&self) -> (r: Vec<&Project>)
        ensures
            r@.len() == unarchived(self.projects@).len(),
            forall|i: int| 0 <= i < r@.len() ==> *(#[trigger] r@[i]) == unarchived(self.projects@)[i],
    {
        let mut out: Vec<&Project> = Vec::new();
        let mut i: usize = 0;
        while i < self.projects.len()
            invariant
                i <= self.projects@.len(),
                out@.len() == unarchived(self.projects@.take(i as int)).len(),
                forall|k: int|
                    0 <= k < out@.len() ==> *(#[trigger] out@[k]) == unarchived(
                        self.projects@.take(i as int),
                    )[k],
            decreases self.projects@.len() - i,
        {
            proof {
                assert(self.projects@.take(i + 1).drop_last() == self.projects@.take(i as int));
            }
            if !self.projects[i].archived {
                out.push(&self.projects[i]);
            }
            i = i + 1;
        }
        proof {
            assert(self.projects@.take(self.projects@.len() as int) == self.projects@);
        }
        out
    }

    /// The project of `entry`, if it has one and it is known.
    pub fn project_of(&self, entry: &TimeEntry) -> (r: Option<&Project>)
        ensures
            match (entry.project_id, r) {
                (Some(id), Some(p)) => exists|i: int|
                    first_with_id(self.projects@, id@, i) && *p == self.projects@[i],
                (Some(id), None) => forall|j: int|
                    0 <= j < self.projects@.len() ==> (#[trigger] self.projects@[j]).id@ != id@,
                (None, r) => r is None,
            },
    {
        match &entry.project_id {
            None => None,
            Some(id) => {
                let mut i: usize = 0;
                while i < self.projects.len()
                    invariant
                        i <= self.projects@.len(),
                        entry.project_id == Some(*id),
                        forall|j: int| 0 <= j < i ==> (#[trigger] self.projects@[j]).id@ != id@,
                    decreases self.projects@.len() - i,
                {
                    if str_is(self.projects[i].id.as_str(), id.as_str()) {
                        proof {
                            assert(first_with_id(self.projects@, id@, i as int));
                            assert(exists|k: int|
                                first_with_id(self.projects@, id@, k) && self.projects@[i as int]
                                    == self.projects@[k]);
                        }
                        return Some(&self.projects[i]);
                    }
                    i = i + 1;
                }
                None
            },
        }
    }

    /// The entry selected in the log.
    pub fn selected_entry(&self) -> (r: Option<&TimeEntry>)
        ensures
            self.sel_log < self.entries@.len() ==> r == Some(&self.entries@[self.sel_log as int]),
            self.sel_log >= self.entries@.len() ==> r is None,
    {
        if self.sel_log < self.entries.len() {
            Some(&self.entries[self.sel_log])
        } else {
            None
        }
    }

    /// Where the default project stands among the projects a picker offers.
    pub fn default_project_idx(&self, default: Option<&DefaultProject>) -> (r: Option<usize>)
        ensures
            ({
                let act = unarchived(self.projects@);
                match default {
                    None => r is None,
                    Some(d) => match r {
                        Some(i) => i < act.len() && act[i as int].id@ == d.id@ && forall|j: int|
                            0 <= j < i ==> (#[trigger] act[j]).id@ != d.id@,
                        None => forall|j: int| 0 <= j < act.len() ==> (#[trigger] act[j]).id@ != d.id@,
                    },
                }
            }),
    {
        let d = match default {
            Some(d) => d,
            None => return None,
        };
        let act = self.active_projects();
        let mut i: usize = 0;
        while i < act.len()
            invariant
                i <= act@.len(),
                default == Some(d),
                act@.len() == unarchived(self.projects@).len(),
                forall|k: int| 0 <= k < act@.len() ==> *(#[trigger] act@[k]) == unarchived(self.projects@)[k],
                forall|j: int| 0 <= j < i ==> (#[trigger] unarchived(self.projects@)[j]).id@ != d.id@,
            decreases act@.len() - i,
        {
            if str_is(act[i].id.as_str(), d.id.as_str()) {
                proof {
                    assert(*act@[i as int] == unarchived(self.projects@)[i as int]);
                }
                return Some(i);
            }
            i = i + 1;
        }
        None
    }
}

/// What saving a form asks of the time-tracking service.
#[derive(Debug)]
pub enum FormRequest {
    /// Start a timer at `start`; where one is running, stop it at `start` first.
    Start {
        stop_running: bool,
        start: i64,
        description: String,
        billable: bool,
        project_id: Option<String>,
    },
    /// Add a finished entry.
    Add { start: i64, end: i64, description: String, billable: bool, project_id: Option<String> },
    /// Update entry `entry_id`. `billable` is sent only where the project
    /// changes to a known one (as that project's default); `task_id` only
    /// where the project stays.
    Edit {
        entry_id: String,
        start: i64,
        end: Option<i64>,
        description: String,
        project_id: Option<String>,
        task_id: Option<String>,
        billable: Option<bool>,
    },
}

/// Why a form could not be saved.
#[derive(Debug, Clone, PartialEq, Eq)]
pub enum FormError {
    DescriptionRequired,
    /// The end does not come after the start.
    EndNotAfterStart,
    /// The entry being edited is gone.
    EntryVanished,
    Time(TimeError),
}

pub open spec fn opt_string_view(o: Option<String>) -> Option<Seq<char>> {
    match o {
        Some(s) => Some(s@),
        None => None,
    }
}

/// The billable default of the first project with id `id`, if there is one.
pub open spec fn known_billable(ps: Seq<Project>, id: Seq<char>) -> Option<bool> {
    if exists|i: int| first_with_id(ps, id, i) {
        Some(ps[choose|i: int| first_with_id(ps, id, i)].billable)
    } else {
        None
    }
}

/// What saving a form of kind `kind` gives, from its texts, the id of the
/// picked project, its toggle, the entry it edits, whether a timer runs, the
/// known projects, the time now, and what the second and third texts read as
/// points in time.
pub open spec fn form_outcome(
    kind: FormKind,
    texts: Seq<Seq<char>>,
    project_id: Option<Seq<char>>,
    billable: bool,
    entry: Option<TimeEntry>,
    running: bool,
    projects: Seq<Project>,
    now: i64,
    from: Result<Instant, TimeError>,
    to: Result<Instant, TimeError>,
    r: Result<FormRequest, FormError>,
) -> bool {
    match kind {
        FormKind::Start => if texts[0].len() == 0 {
            r == Err::<FormRequest, FormError>(FormError::DescriptionRequired)
        } else {
            let start = if texts[1].len() == 0 {
                Ok::<i64, TimeError>(now)
            } else {
                match from {
                    Ok(x) => Ok::<i64, TimeError>(x.secs),
                    Err(e) => Err::<i64, TimeError>(e),
                }
            };
            match start {
                Err(e) => r == Err::<FormRequest, FormError>(FormError::Time(e)),
                Ok(t) => r matches Ok(
                    FormRequest::Start { stop_running, start, description, billable: b, project_id: p },
                ) && stop_running == running && start == t && description@ == texts[0] && b
                    == billable && opt_string_view(p) == project_id,
            }
        },
        FormKind::Add => if texts[0].len() == 0 {
            r == Err::<FormRequest, FormError>(FormError::DescriptionRequired)
        } else {
            match (from, to) {
                (Err(e), _) => r == Err::<FormRequest, FormError>(FormError::Time(e)),
                (Ok(_), Err(e)) => r == Err::<FormRequest, FormError>(FormError::Time(e)),
                (Ok(f), Ok(t)) => if !f.before(t) {
                    r == Err::<FormRequest, FormError>(FormError::EndNotAfterStart)
                } else {
                    r matches Ok(
                        FormRequest::Add { start, end, description, billable: b, project_id: p },
                    ) && start == f.secs && end == t.secs && description@ == texts[0] && b == billable
                        && opt_string_view(p) == project_id
                },
            }
        },
        FormKind::Edit => match entry {
            None => r == Err::<FormRequest, FormError>(FormError::EntryVanished),
            Some(ex) => match from {
                Err(e) => r == Err::<FormRequest, FormError>(FormError::Time(e)),
                Ok(f) => {
                    let end: Result<Option<Instant>, TimeError> = if texts[2].len() == 0 {
                        match ex.time_interval.end {
                            Some(e) => Ok(Some(Instant { secs: e, nanos: 0 })),
                            None => Ok(None),
                        }
                    } else {
                        match to {
                            Ok(t) => Ok(Some(t)),
                            Err(e) => Err(e),
                        }
                    };
                    match end {
                        Err(e) => r == Err::<FormRequest, FormError>(FormError::Time(e)),
                        Ok(end) => if end matches Some(e) && !f.before(e) {
                            r == Err::<FormRequest, FormError>(FormError::EndNotAfterStart)
                        } else {
                            let pid = if project_id is Some {
                                project_id
                            } else {
                                opt_string_view(ex.project_id)
                            };
                            let same = pid == opt_string_view(ex.project_id);
                            r matches Ok(
                                FormRequest::Edit {
                                    entry_id,
                                    start,
                                    end: e2,
                                    description,
                                    project_id: p,
                                    task_id,
                                    billable: b,
                                },
                            ) && entry_id@ == ex.id@ && start == f.secs && e2 == opt_secs(end) && description@
                                == texts[0] && opt_string_view(p) == pid && opt_string_view(task_id)
                                == (if same {
                                opt_string_view(ex.task_id)
                            } else {
                                None
                            }) && b == (if !same && pid is Some {
                                known_billable(projects, pid->0)
                            } else {
                                None
                            })
                        },
                    }
                },
            },
        },
    }
}

fn clone_opt(s: &Option<String>) -> (r: Option<String>)
    ensures
        r == *s,
{
    match s {
        Some(t) => Some(t.clone()),
        None => None,
    }
}

fn same_opt(a: &Option<String>, b: &Option<String>) -> (r: bool)
    ensures
        r == (opt_string_view(*a) == opt_string_view(*b)),
{
    match (a, b) {
        (Some(x), Some(y)) => str_is(x.as_str(), y.as_str()),
        (None, None) => true,
        _ => false,
    }
}

/// The billable default of the first project with id `id`.
fn billable_of(projects: &Vec<Project>, id: &str) -> (r: Option<bool>)
    ensures
        r == known_billable(projects@, id@),
{
    let mut i: usize = 0;
    while i < projects.len()
        invariant
            i <= projects@.len(),
            forall|j: int| 0 <= j < i ==> (#[trigger] projects@[j]).id@ != id@,
        decreases projects@.len() - i,
    {
        if str_is(projects[i].id.as_str(), id) {
            proof {
                assert(first_with_id(projects@, id@, i as int));
                let k = choose|k: int| first_with_id(projects@, id@, k);
                assert(k == i) by {
                    if k < i {
                    } else if k > i {
                        assert(projects@[i as int].id@ == id@);
                    }
                }
            }
            return Some(projects[i].billable);
        }
        i = i + 1;
    }
    None
}

/// Saves a form, given what its second and third texts read as (`from`,
/// `to`) and the time `now`: see `form_outcome`.
#[verifier::spinoff_prover]
pub fn form_request(
    kind: FormKind,
    texts: &Vec<String>,
    project_id: Option<String>,
    billable: bool,
    entry: &Option<TimeEntry>,
    running: bool,
    projects: &Vec<Project>,
    now: i64,
    from: Result<Instant, TimeError>,
    to: Result<Instant, TimeError>,
) -> (r: Result<FormRequest, FormError>)
    requires
        texts@.len() >= (if kind == FormKind::Start { 2int } else { 3int }),
    ensures
        form_outcome(
            kind,
            texts@.map_values(|t: String| t@),
            opt_string_view(project_id),
            billable,
            *entry,
            running,
            projects@,
            now,
            from,
            to,
            r,
        ),
{
    let ghost tv = texts@.map_values(|t: String| t@);
    proof {
        assert(tv[0] == texts@[0]@);
        assert(tv[1] == texts@[1]@);
        if kind != FormKind::Start {
            assert(tv[2] == texts@[2]@);
        }
    }
    match kind {
        FormKind::Start => {
            if texts[0].as_str().is_empty() {
                return Err(FormError::DescriptionRequired);
            }
            let start = if texts[1].as_str().is_empty() {
                now
            } else {
                match from {
                    Ok(t) => t.secs,
                    Err(e) => return Err(FormError::Time(e)),
                }
            };
            Ok(
                FormRequest::Start {
                    stop_running: running,
                    start,
                    description: texts[0].clone(),
                    billable,
                    project_id,
                },
            )
        },
        FormKind::Add => {
            if texts[0].as_str().is_empty() {
                return Err(FormError::DescriptionRequired);
            }
            let f = match from {
                Ok(t) => t,
                Err(e) => return Err(FormError::Time(e)),
            };
            let t = match to {
                Ok(t) => t,
                Err(e) => return Err(FormError::Time(e)),
            };
            if !f.is_before(&t) {
                return Err(FormError::EndNotAfterStart);
            }
            Ok(
                FormRequest::Add {
                    start: f.secs,
                    end: t.secs,
                    description: texts[0].clone(),
                    billable,
                    project_id,
                },
            )
        },
        FormKind::Edit => {
            let ex = match entry {
                Some(ex) => ex,
                None => return Err(FormError::EntryVanished),
            };
            let f = match from {
                Ok(t) => t,
                Err(e) => return Err(FormError::Time(e)),
            };
            let end = if texts[2].as_str().is_empty() {
                match ex.time_interval.end {
                    Some(e) => Some(Instant::at_second(e)),
                    None => None,
                }
            } else {
                match to {
                    Ok(t) => Some(t),
                    Err(e) => return Err(FormError::Time(e)),
                }
            };
            if let Some(e) = end {
                if !f.is_before(&e) {
                    return Err(FormError::EndNotAfterStart);
                }
            }
            let end = match end {
                Some(e) => Some(e.secs),
                None => None,
            };
            let pid = match project_id {
                Some(p) => Some(p),
                None => clone_opt(&ex.project_id),
            };
            let same = same_opt(&pid, &ex.project_id);
            let task_id = if same {
                clone_opt(&ex.task_id)
            } else {
                None
            };
            let b = if !same {
                match &pid {
                    Some(id) => billable_of(projects, id.as_str()),
                    None => None,
                }
            } else {
                None
            };
            Ok(
                FormRequest::Edit {
                    entry_id: ex.id.clone(),
                    start: f.secs,
                    end,
                    description: texts[0].clone(),
                    project_id: pid,
                    task_id,
                    billable: b,
                },
            )
        },
    }
}

/// The id of the project at `idx` among those a picker offers.
pub open spec fn picked_project_id(active: Seq<Project>, idx: Option<usize>) -> Option<Seq<char>> {
    match idx {
        Some(i) => if i < active.len() {
            Some(active[i as int].id@)
        } else {
            None
        },
        None => None,
    }
}

/// The texts a form of kind `kind` needs.
pub open spec fn texts_needed(kind: FormKind) -> int {
    if kind == FormKind::Start {
        2
    } else {
        3
    }
}

impl<A> AppState<A> {
    /// Saves `form`: reads its texts (the second and third as points in
    /// time, an empty start of a timer meaning now) and says what to ask of
    /// the service, or why it cannot be saved.
    pub fn submit_form(&self, form: &Form) -> (r: Result<FormRequest, FormError>)
        requires
            form_texts(field_states(form.fields@)).len() >= texts_needed(form.kind),
        ensures
            ({
                let fs = field_states(form.fields@);
                let texts = form_texts(fs);
                let picked = picked_project_id(unarchived(self.projects@), form_project(fs));
                let billable = form_billable(fs);
                let running = self.running is Some;
                exists|now: i64, from: Result<Instant, TimeError>, to: Result<Instant, TimeError>|
                    #![trigger form_outcome(form.kind, texts, picked, billable, form.entry, running, self.projects@, now, from, to, r)]
                    {
                        &&& timestamp_in_range(now as int)
                        &&& time_parse_result(texts[1], from)
                        &&& (texts.len() > 2 ==> time_parse_result(texts[2], to))
                        &&& form_outcome(
                            form.kind,
                            texts,
                            picked,
                            billable,
                            form.entry,
                            running,
                            self.projects@,
                            now,
                            from,
                            to,
                            r,
                        )
                    }
            }),
    {
        let (texts, idx, billable) = form.values();
        let ghost fs = field_states(form.fields@);
        proof {
            assert(texts@.map_values(|t: String| t@) =~= form_texts(fs));
        }
        let active = self.active_projects();
        let project_id = match idx {
            Some(i) => if i < active.len() {
                Some(active[i].id.clone())
            } else {
                None
            },
            None => None,
        };
        let now = utc_now();
        let from = parse_time(texts[1].as_str());
        let to = if texts.len() > 2 {
            parse_time(texts[2].as_str())
        } else {
            Err(TimeError::OutOfRange)
        };
        let r = form_request(
            form.kind,
            &texts,
            project_id,
            billable,
            &form.entry,
            self.running.is_some(),
            &self.projects,
            now,
            from,
            to,
        );
        proof {
            let texts_v = form_texts(fs);
            assert(texts@[1]@ == texts_v[1]);
            if texts_v.len() > 2 {
                assert(texts@[2]@ == texts_v[2]);
            }
            assert(opt_string_view(project_id) == picked_project_id(unarchived(self.projects@), idx))
                by {
                if let Some(i) = idx {
                    if i < active@.len() {
                        assert(*active@[i as int] == unarchived(self.projects@)[i as int]);
                    }
                }
            }
            assert(timestamp_in_range(now as int) && time_parse_result(texts_v[1], from) && (
            texts_v.len() > 2 ==> time_parse_result(texts_v[2], to)) && form_outcome(
                form.kind,
                texts_v,
                picked_project_id(unarchived(self.projects@), form_project(fs)),
                form_billable(fs),
                form.entry,
                self.running is Some,
                self.projects@,
                now,
                from,
                to,
                r,
            ));
        }
        r
    }
}

/// Whether some project of `ps` has the id `id`.
pub open spec fn known_id(ps: Seq<Project>, id: Seq<char>) -> bool {
    exists|j: int| 0 <= j < ps.len() && (#[trigger] ps[j]).id@ == id
}

/// `e` as the report groups it: under its project where that project is
/// known, else under no project.
pub open spec fn grouped_entry(e: TimeEntry, ps: Seq<Project>) -> TimeEntry {
    TimeEntry {
        project_id: match e.project_id {
            Some(id) => if known_id(ps, id@) {
                Some(id)
            } else {
                None
            },
            None => None,
        },
        ..e
    }
}

pub open spec fn grouped_entries(es: Seq<TimeEntry>, ps: Seq<Project>) -> Seq<TimeEntry> {
    es.map_values(|e: TimeEntry| grouped_entry(e, ps))
}

proof fn lemma_grouped_same_lengths(es: Seq<TimeEntry>, ps: Seq<Project>, k: int, now: int)
    requires
        0 <= k <= es.len(),
    ensures
        abs_seconds(grouped_entries(es, ps), k, now) == abs_seconds(es, k, now),
    decreases k,
{
    if k > 0 {
        lemma_grouped_same_lengths(es, ps, k - 1, now);
    }
}

impl<A> AppState<A> {
    /// The report's time per project, largest first (equal times in order
    /// of first appearance), entries of unknown projects counted under no
    /// project; a running entry counts up to `now`.
    pub fn report_totals(&self, now: i64) -> (r: Vec<ProjectTotal>)
        requires
            forall|i: int|
                0 <= i < self.report_entries_view().len() ==> (#[trigger] self.report_entries_view()[i]).time_interval.wf(),
            timestamp_in_range(now as int),
            abs_seconds(self.report_entries_view(), self.report_entries_view().len() as int, now as int)
                <= max_delta_seconds(),
        ensures
            are_project_totals(grouped_entries(self.report_entries_view(), self.projects@), now as int, r@),
    {
        let src = self.report_entries();
        let mut es: Vec<TimeEntry> = Vec::new();
        let mut i: usize = 0;
        while i < src.len()
            invariant
                i <= src@.len(),
                src@ == self.report_entries_view(),
                es@ == grouped_entries(src@.take(i as int), self.projects@),
            decreases src@.len() - i,
        {
            let e = &src[i];
            let keep = match &e.project_id {
                Some(id) => self.knows_project(id.as_str()),
                None => false,
            };
            let mut g = e.clone();
            if !keep {
                g.project_id = None;
            }
            proof {
                assert(grouped_entries(src@.take(i + 1), self.projects@) =~= grouped_entries(
                    src@.take(i as int),
                    self.projects@,
                ).push(grouped_entry(src@[i as int], self.projects@)));
            }
            es.push(g);
            i = i + 1;
        }
        proof {
            assert(src@.take(src@.len() as int) == src@);
            let ge = grouped_entries(src@, self.projects@);
            lemma_grouped_same_lengths(src@, self.projects@, src@.len() as int, now as int);
            assert forall|key: Option<Seq<char>>, k: int|
                0 <= k <= ge.len() implies -max_delta_seconds() <= #[trigger] key_seconds(
                    ge,
                    key,
                    k,
                    now as int,
                ) <= max_delta_seconds() by {
                lemma_abs_seconds_bound(ge, key, k, now as int);
            }
            assert forall|j: int| 0 <= j < es@.len() implies (#[trigger] es@[j]).time_interval.wf() by {
                assert(es@[j].time_interval == src@[j].time_interval);
            }
        }
        project_totals(es.as_slice(), now)
    }

    /// The entries the report covers, as values.
    pub open spec fn report_entries_view(&self) -> Seq<TimeEntry> {
        if self.report_period == Period::Monthly {
            self.month_entries@
        } else {
            self.entries@
        }
    }

    /// Whether a project with id `id` is known.
    fn knows_project(&self, id: &str) -> (r: bool)
        ensures
            r == known_id(self.projects@, id@),
    {
        let mut j: usize = 0;
        while j < self.projects.len()
            invariant
                j <= self.projects@.len(),
                forall|h: int| 0 <= h < j ==> (#[trigger] self.projects@[h]).id@ != id@,
            decreases self.projects@.len() - j,
        {
            if str_is(self.projects[j].id.as_str(), id) {
                return true;
            }
            j = j + 1;
        }
        false
    }
}

/// The words put before a day's heading in the log: `Today · `,
/// `Yesterday · `, or nothing.
pub open spec fn day_prefix_text(days_ago: int) -> Seq<char> {
    if days_ago == 0 {
        "Today · "@
    } else if days_ago == 1 {
        "Yesterday · "@
    } else {
        Seq::empty()
    }
}

/// The prefix of the heading of `date`'s day, as of `today`.
pub fn day_prefix(date: Date, today: Date) -> (r: &'static str)
    requires
        date.wf(),
        today.wf(),
    ensures
        r@ == day_prefix_text(today.day_number() - date.day_number()),
{
    if today == date {
        proof {
            reveal_strlit("Today · ");
        }
        return "Today · ";
    }
    proof {
        if today.day_number() == date.day_number() {
            crate::calendar::lemma_day_number_injective(today, date);
        }
        reveal_strlit("");
    }
    match date.checked_add_days(1) {
        Some(next) => if next == today {
            proof {
                reveal_strlit("Yesterday · ");
            }
            "Yesterday · "
        } else {
            proof {
                if next.day_number() == today.day_number() {
                    crate::calendar::lemma_day_number_injective(today, next);
                }
            }
            ""
        },
        None => {
            proof {
                crate::commands::submit::lemma_day_number_in_range(today);
            }
            ""
        },
    }
}

/// How a week or month `offset` periods from this one is named: `this week`,
/// `last week`, `3 weeks ago` (or the same of months).
pub open spec fn offset_label_text(offset: int, month: bool) -> Seq<char> {
    let unit: Seq<char> = if month { "month"@ } else { "week"@ };
    if offset == 0 {
        "this "@ + unit
    } else if offset == -1 {
        "last "@ + unit
    } else {
        decimal((-offset) as nat) + " "@ + unit + "s ago"@
    }
}

/// The name of the week (or, with `month`, the month) `offset` periods
/// before this one.
pub fn offset_label(offset: i64, month: bool) -> (r: String)
    requires
        i64::MIN < offset <= 0,
    ensures
        r@ == offset_label_text(offset as int, month),
{
    let unit = if month { "month" } else { "week" };
    let mut out = String::new();
    if offset == 0 {
        push_str(&mut out, "this ");
        push_str(&mut out, unit);
    } else if offset == -1 {
        push_str(&mut out, "last ");
        push_str(&mut out, unit);
    } else {
        push_decimal(&mut out, (0 - offset) as u64);
        push_str(&mut out, " ");
        push_str(&mut out, unit);
        push_str(&mut out, "s ago");
    }
    out
}

} // verus!
