use clockify::tui::{next_theme, theme_index};
use clockify::tui::app::{day_prefix, offset_label};
use clockify::calendar::Date;
use clockify::commands::submit::Period;
use clockify::config::DefaultProject;
use clockify::models::{Project, TimeEntry, TimeInterval, Workspace};
use clockify::time::{Instant, TimeError};

fn at(secs: i64) -> Instant {
    Instant::at_second(secs)
}
use clockify::tui::app::{
    add_months, form_request, month_bounds_on, week_bounds_on, AppState, Fetch, FormError,
    FormRequest, Msg,
};
use clockify::tui::{normal_key, truncate, Form, FormAction, FormKind, Key, NormalAction};
use clockify::tui::ui::{log_layout, LogRow};

fn date(y: i32, m: u32, d: u32) -> Date {
    Date::from_ymd(y, m, d).unwrap()
}

fn entry(id: &str, project: Option<&str>, start: i64, end: Option<i64>) -> TimeEntry {
    TimeEntry {
        id: id.into(),
        description: format!("entry {id}"),
        project_id: project.map(String::from),
        task_id: None,
        time_interval: TimeInterval { start, end },
    }
}

fn project(id: &str, name: &str, archived: bool, billable: bool) -> Project {
    Project {
        id: id.into(),
        name: name.into(),
        client_name: None,
        billable,
        archived,
        color: None,
    }
}

#[test]
fn stale_answers_are_dropped() {
    let mut s: AppState<()> = AppState::new();
    s.epoch = 3;
    s.apply(Msg::Entries { epoch: 2, offset: 0, result: Ok(vec![entry("a", None, 0, Some(60))]) });
    assert!(s.entries.is_empty());
    assert!(s.loading);
    s.apply(Msg::Projects { epoch: 2, result: Err("boom".into()) });
    assert!(s.status.is_none());
    s.apply(Msg::Workspaces {
        result: Ok(vec![Workspace { id: "w".into(), name: "W".into() }]),
    });
    assert_eq!(s.workspaces.len(), 1);
}

#[test]
fn fetched_week_is_shown_and_cached() {
    let mut s: AppState<()> = AppState::new();
    s.sel_log = 5;
    let es = vec![entry("a", None, 0, Some(60)), entry("b", None, 100, Some(160))];
    s.apply(Msg::Entries { epoch: 0, offset: 0, result: Ok(es) });
    assert_eq!(s.entries.len(), 2);
    assert!(!s.loading);
    assert_eq!(s.sel_log, 1);
    assert_eq!(s.week_cache.get(&0).unwrap().len(), 2);
    // Another week's answer only fills the cache.
    s.apply(Msg::Entries { epoch: 0, offset: -1, result: Ok(vec![]) });
    assert_eq!(s.entries.len(), 2);
    assert!(s.week_cache.contains_key(&-1));
    s.apply(Msg::Entries { epoch: 0, offset: 0, result: Err("offline".into()) });
    assert_eq!(s.status, Some(("offline".to_string(), true)));
}

#[test]
fn shifting_weeks_uses_the_cache_and_stops_at_this_week() {
    let mut s: AppState<()> = AppState::new();
    assert_eq!(s.shift_week(1), None);
    s.apply(Msg::Entries { epoch: 0, offset: -1, result: Ok(vec![entry("x", None, 0, Some(1))]) });
    assert_eq!(s.shift_week(-1), Some(Fetch::Week(-1)));
    assert_eq!(s.week_offset, -1);
    assert_eq!(s.entries.len(), 1);
    assert!(!s.loading);
    assert_eq!(s.shift_week(-1), Some(Fetch::Week(-2)));
    assert!(s.entries.is_empty());
    assert!(s.loading);
    s.tab = 1;
    assert_eq!(s.shift_week(-1), Some(Fetch::Month(-1)));
    assert_eq!(s.month_offset, -1);
    s.tab = 2;
    assert_eq!(s.shift_week(-1), None);
}

#[test]
fn report_period_switch_fetches_the_month_once() {
    let mut s: AppState<()> = AppState::new();
    assert!(!s.set_report_period(Period::Monthly));
    assert!(!s.set_report_period(Period::Weekly));
    assert_eq!(s.status, Some(("report period: weekly".to_string(), false)));
    assert!(s.set_report_period(Period::Monthly));
    assert!(s.month_loading);
}

#[test]
fn switching_workspace_starts_a_new_epoch() {
    let mut s: AppState<()> = AppState::new();
    s.apply(Msg::Entries { epoch: 0, offset: 0, result: Ok(vec![entry("a", None, 0, Some(1))]) });
    s.begin_epoch();
    assert_eq!(s.epoch, 1);
    assert!(s.entries.is_empty() && s.loading && s.week_cache.is_empty());
    s.apply(Msg::Entries { epoch: 0, offset: 0, result: Ok(vec![entry("a", None, 0, Some(1))]) });
    assert!(s.entries.is_empty());
}

#[test]
fn invalidating_keeps_what_is_shown() {
    let mut s: AppState<()> = AppState::new();
    s.apply(Msg::Entries { epoch: 0, offset: 0, result: Ok(vec![entry("a", None, 0, Some(1))]) });
    s.invalidate();
    assert_eq!(s.entries.len(), 1);
    assert!(!s.loading);
    assert!(s.week_cache.is_empty());
    assert!(s.month_loading);
}

#[test]
fn selection_moves_within_the_list() {
    let mut s: AppState<()> = AppState::new();
    s.apply(Msg::Entries {
        epoch: 0,
        offset: 0,
        result: Ok(vec![entry("a", None, 0, Some(1)), entry("b", None, 2, Some(3))]),
    });
    s.move_selection(-1);
    assert_eq!(s.sel_log, 0);
    s.move_selection(1);
    s.move_selection(1);
    assert_eq!(s.sel_log, 1);
    assert_eq!(s.selected_entry().unwrap().id, "b");
}

#[test]
fn weeks_and_months_around_a_day() {
    // 2026-07-09 is a Thursday.
    let today = date(2026, 7, 9);
    assert_eq!(week_bounds_on(today, 0), Some((date(2026, 7, 6), date(2026, 7, 12))));
    assert_eq!(week_bounds_on(today, -2), Some((date(2026, 6, 22), date(2026, 6, 28))));
    assert_eq!(add_months(date(2026, 1, 1), -1), Some(date(2025, 12, 1)));
    assert_eq!(add_months(date(2026, 1, 1), 13), Some(date(2027, 2, 1)));
    assert_eq!(month_bounds_on(today, 0), Some((date(2026, 7, 1), date(2026, 7, 31))));
    assert_eq!(month_bounds_on(date(2024, 3, 31), -1), Some((date(2024, 2, 1), date(2024, 2, 29))));
    assert_eq!(week_bounds_on(today, -1_000_000_000), None);
}

#[test]
fn projects_of_entries_and_pickers() {
    let mut s: AppState<()> = AppState::new();
    s.apply(Msg::Projects {
        epoch: 0,
        result: Ok(vec![
            project("p1", "Old", true, false),
            project("p2", "Backend", false, true),
            project("p3", "Frontend", false, false),
        ]),
    });
    let active = s.active_projects();
    assert_eq!(active.len(), 2);
    assert_eq!(active[0].id, "p2");
    assert_eq!(s.project_of(&entry("e", Some("p1"), 0, None)).unwrap().name, "Old");
    assert!(s.project_of(&entry("e", Some("zz"), 0, None)).is_none());
    assert!(s.project_of(&entry("e", None, 0, None)).is_none());
    let d = DefaultProject { id: "p3".into(), name: "Frontend".into() };
    assert_eq!(s.default_project_idx(Some(&d)), Some(1));
    let gone = DefaultProject { id: "p1".into(), name: "Old".into() };
    assert_eq!(s.default_project_idx(Some(&gone)), None);
    assert_eq!(s.default_project_idx(None), None);
}

#[test]
fn report_totals_group_unknown_projects_under_none() {
    let mut s: AppState<()> = AppState::new();
    s.report_period = Period::Weekly;
    s.apply(Msg::Projects { epoch: 0, result: Ok(vec![project("p1", "A", false, false)]) });
    s.apply(Msg::Entries {
        epoch: 0,
        offset: 0,
        result: Ok(vec![
            entry("a", Some("p1"), 0, Some(600)),
            entry("b", Some("gone"), 0, Some(300)),
            entry("c", None, 0, Some(1000)),
            entry("d", Some("p1"), 0, Some(600)),
        ]),
    });
    let rows = s.report_totals(1_000);
    assert_eq!(rows.len(), 2);
    assert_eq!((rows[0].project_id.as_deref(), rows[0].seconds), (None, 1300));
    assert_eq!((rows[1].project_id.as_deref(), rows[1].seconds), (Some("p1"), 1200));
}

#[test]
fn normal_keys() {
    assert_eq!(normal_key(3, Key::Tab), NormalAction::SelectTab(0));
    assert_eq!(normal_key(0, Key::BackTab), NormalAction::SelectTab(3));
    assert_eq!(normal_key(0, Key::Char('3')), NormalAction::SelectTab(2));
    assert_eq!(normal_key(1, Key::Char('m')), NormalAction::SetReportPeriod(Period::Monthly));
    assert_eq!(normal_key(0, Key::Char('m')), NormalAction::Nothing);
    assert_eq!(normal_key(3, Key::Enter), NormalAction::SwitchWorkspace);
    assert_eq!(normal_key(1, Key::Char('R')), NormalAction::ConfirmSubmit(true));
}

#[test]
fn truncation_marks_the_cut() {
    assert_eq!(truncate("hello", 10), "hello");
    assert_eq!(truncate("hello world", 5), "hell…");
    assert_eq!(truncate("héllo", 3), "hé…");
}

#[test]
fn form_keys_edit_fields_and_move_focus() {
    let mut f = Form::add(None);
    assert_eq!(f.key(Key::Char('x'), 2), FormAction::Edit);
    assert_eq!(f.key(Key::Tab, 2), FormAction::Edit);
    assert_eq!(f.focus, 1);
    f.key(Key::Left, 2);
    f.key(Key::BackTab, 2);
    assert_eq!(f.focus, 0);
    assert_eq!(f.key(Key::Enter, 2), FormAction::Submit);
    assert_eq!(f.key(Key::Esc, 2), FormAction::Cancel);
    let (texts, project, billable) = f.values();
    assert_eq!(texts, vec!["x".to_string(), String::new(), String::new()]);
    assert_eq!(project, Some(1));
    assert!(!billable);
}

fn texts(v: &[&str]) -> Vec<String> {
    v.iter().map(|s| s.to_string()).collect()
}

#[test]
fn start_form_requests() {
    let none: Option<TimeEntry> = None;
    let r = form_request(FormKind::Start, &texts(&["", ""]), None, false, &none, false, &vec![], 50, Ok(at(1)), Ok(at(2)));
    assert!(matches!(r, Err(FormError::DescriptionRequired)));
    let r = form_request(FormKind::Start, &texts(&["work", ""]), Some("p".into()), true, &none, true, &vec![], 50, Ok(at(1)), Ok(at(2)));
    match r {
        Ok(FormRequest::Start { stop_running, start, description, billable, project_id }) => {
            assert!(stop_running);
            assert_eq!(start, 50);
            assert_eq!(description, "work");
            assert!(billable);
            assert_eq!(project_id.as_deref(), Some("p"));
        }
        other => panic!("{other:?}"),
    }
    let r = form_request(FormKind::Start, &texts(&["work", "10:xx"]), None, false, &none, false, &vec![], 50, Err(TimeError::OutOfRange), Ok(at(2)));
    assert!(matches!(r, Err(FormError::Time(TimeError::OutOfRange))));
}

#[test]
fn add_form_requests_need_the_end_after_the_start() {
    let none: Option<TimeEntry> = None;
    let r = form_request(FormKind::Add, &texts(&["w", "a", "b"]), None, false, &none, false, &vec![], 0, Ok(at(100)), Ok(at(100)));
    assert!(matches!(r, Err(FormError::EndNotAfterStart)));
    let r = form_request(FormKind::Add, &texts(&["w", "a", "b"]), None, false, &none, false, &vec![], 0, Ok(at(100)), Ok(at(160)));
    assert!(matches!(r, Ok(FormRequest::Add { start: 100, end: 160, .. })));
}

#[test]
fn edit_form_keeps_the_project_and_task_unless_changed() {
    let mut ex = entry("e1", Some("p1"), 100, Some(200));
    ex.task_id = Some("t1".into());
    let existing = Some(ex);
    let projects = vec![project("p1", "A", false, false), project("p2", "B", false, true)];
    let r = form_request(FormKind::Edit, &texts(&["desc", "x", ""]), None, false, &existing, false, &projects, 0, Ok(at(50)), Err(TimeError::OutOfRange));
    match r {
        Ok(FormRequest::Edit { entry_id, start, end, project_id, task_id, billable, .. }) => {
            assert_eq!(entry_id, "e1");
            assert_eq!((start, end), (50, Some(200)));
            assert_eq!(project_id.as_deref(), Some("p1"));
            assert_eq!(task_id.as_deref(), Some("t1"));
            assert_eq!(billable, None);
        }
        other => panic!("{other:?}"),
    }
    let r = form_request(FormKind::Edit, &texts(&["desc", "x", "y"]), Some("p2".into()), false, &existing, false, &projects, 0, Ok(at(50)), Ok(at(300)));
    match r {
        Ok(FormRequest::Edit { end, project_id, task_id, billable, .. }) => {
            assert_eq!(end, Some(300));
            assert_eq!(project_id.as_deref(), Some("p2"));
            assert_eq!(task_id, None);
            assert_eq!(billable, Some(true));
        }
        other => panic!("{other:?}"),
    }
    let r = form_request(FormKind::Edit, &texts(&["d", "x", ""]), None, false, &existing, false, &projects, 0, Ok(at(250)), Ok(at(0)));
    assert!(matches!(r, Err(FormError::EndNotAfterStart)));
    let none: Option<TimeEntry> = None;
    let r = form_request(FormKind::Edit, &texts(&["d", "x", ""]), None, false, &none, false, &projects, 0, Ok(at(250)), Ok(at(0)));
    assert!(matches!(r, Err(FormError::EntryVanished)));
}

#[test]
fn submitting_a_start_form_without_description_fails() {
    let s: AppState<()> = AppState::new();
    let form = Form::start(None);
    assert!(matches!(s.submit_form(&form), Err(FormError::DescriptionRequired)));
}

#[test]
fn themes_cycle_by_name() {
    assert_eq!(theme_index("gruvbox"), 2);
    assert_eq!(theme_index("unknown"), 0);
    assert_eq!(next_theme(3), 0);
    let mut t = theme_index("dracula");
    for _ in 0..4 {
        t = next_theme(t);
    }
    assert_eq!(t, 1);
}

#[test]
fn period_labels_and_day_prefixes() {
    assert_eq!(offset_label(0, false), "this week");
    assert_eq!(offset_label(-1, true), "last month");
    assert_eq!(offset_label(-12, false), "12 weeks ago");
    let today = date(2026, 3, 1);
    assert_eq!(day_prefix(today, today), "Today · ");
    assert_eq!(day_prefix(date(2026, 2, 28), today), "Yesterday · ");
    assert_eq!(day_prefix(date(2026, 2, 27), today), "");
    assert_eq!(day_prefix(date(2026, 3, 2), today), "");
}

#[test]
fn log_groups_entries_under_their_days() {
    let es = vec![
        entry("a", None, 0, Some(600)),
        entry("b", None, 1000, Some(1600)),
        entry("c", None, 90_000, None),
        entry("d", None, 2000, Some(2300)),
    ];
    let mon = date(2026, 7, 6);
    let tue = date(2026, 7, 7);
    let days = vec![mon, mon, tue, mon];
    let (rows, selected) = log_layout(&es, &days, 90_100, 2);
    assert_eq!(
        rows,
        vec![
            LogRow::Day { date: mon, seconds: 1500 },
            LogRow::Entry(0),
            LogRow::Entry(1),
            LogRow::Gap,
            LogRow::Day { date: tue, seconds: 100 },
            LogRow::Entry(2),
            LogRow::Gap,
            LogRow::Day { date: mon, seconds: 1500 },
            LogRow::Entry(3),
        ]
    );
    assert_eq!(selected, Some(5));
    assert_eq!(log_layout(&es, &days, 90_100, 4).1, None);
    assert_eq!(log_layout(&[], &[], 0, 0), (vec![], None));
}

#[test]
fn add_forms_compare_to_the_nanosecond() {
    let none: Option<TimeEntry> = None;
    let a = Instant { secs: 100, nanos: 200 };
    let b = Instant { secs: 100, nanos: 700 };
    let r = form_request(FormKind::Add, &texts(&["w", "a", "b"]), None, false, &none, false, &vec![], 0, Ok(a), Ok(b));
    assert!(matches!(r, Ok(FormRequest::Add { start: 100, end: 100, .. })));
    let r = form_request(FormKind::Add, &texts(&["w", "a", "b"]), None, false, &none, false, &vec![], 0, Ok(b), Ok(a));
    assert_eq!(r.unwrap_err(), FormError::EndNotAfterStart);
}
