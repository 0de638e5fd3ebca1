use clockify::commands::auth::{workspace_choice, WorkspaceChoice};
use clockify::models::Workspace;
use clockify::output::entry_record;
use clockify::resolve::unique_suffix_lens;
use clockify::resolve::{entry_ref, suffix_search_range, EntryRef};
use clockify::commands::projects::project_flags;
use clockify::calendar::Date;
use clockify::commands::add::{
    check_task, completed_entry, project_choice, running_entry, NewEntryError, ProjectChoice,
};
use clockify::commands::auth::mask;
use clockify::commands::start::start_plan;
use clockify::commands::edit::{check_args, entry_update, Args as EditArgs, EditError};
use clockify::time::Instant;

fn at(secs: i64) -> Instant {
    Instant::at_second(secs)
}
use clockify::commands::expenses::{list_range, list_range_on, merge_categories, ExpenseCategory};
use clockify::commands::projects::{group_by_client, retain_listed, sort_by_name};
use clockify::commands::report::{durations_fit, project_totals, report_total};
use clockify::commands::{date_range_on, project_map, short_id, styled_id, DefaultRange, RangeError};
use clockify::models::{Project, Task, TimeEntry, TimeInterval};

fn date(y: i32, m: u32, d: u32) -> Date {
    Date::from_ymd(y, m, d).unwrap()
}

fn project(id: &str, name: &str, client: Option<&str>, archived: bool) -> Project {
    Project {
        id: id.into(),
        name: name.into(),
        client_name: client.map(String::from),
        billable: id.ends_with('b'),
        archived,
        color: None,
    }
}

fn entry(project: Option<&str>, start: i64, end: Option<i64>) -> TimeEntry {
    TimeEntry {
        id: "68b3a1d2e4f5a6b7c8d9e0f1".into(),
        description: "fixing the parser".into(),
        project_id: project.map(String::from),
        task_id: Some("t1".into()),
        time_interval: TimeInterval { start, end },
    }
}

fn category(id: &str, name: &str, archived: bool) -> ExpenseCategory {
    ExpenseCategory {
        id: id.into(),
        name: name.into(),
        archived,
        has_unit_price: false,
        price_in_cents: None,
        unit: None,
    }
}

#[test]
fn list_range_requires_from_for_to() {
    assert!(list_range(false, false, None, Some("2026-07-01")).is_err());
}

#[test]
fn listing_ranges_as_of_a_day() {
    let today = date(2026, 7, 9);
    assert_eq!(list_range_on(today, false, false, None, None).unwrap(), (today, today));
    assert_eq!(list_range_on(today, true, false, None, None).unwrap(), (date(2026, 7, 6), today));
    assert_eq!(list_range_on(today, false, true, None, None).unwrap(), (date(2026, 7, 1), today));
    assert_eq!(
        list_range_on(today, false, false, Some("2026-07-01"), Some("2026-07-03")).unwrap(),
        (date(2026, 7, 1), date(2026, 7, 3))
    );
    assert!(matches!(
        list_range_on(today, false, false, Some("2026-07-05"), Some("2026-07-03")),
        Err(RangeError::FromAfterTo)
    ));
    assert!(matches!(
        list_range_on(today, true, true, None, None),
        Err(RangeError::ChooseOneRange)
    ));
    assert_eq!(
        date_range_on(today, DefaultRange::ThisWeek, None, None).unwrap(),
        (date(2026, 7, 6), today)
    );
    assert!(matches!(
        date_range_on(today, DefaultRange::Today, None, Some("2026-07-01")),
        Err(RangeError::ToRequiresFrom)
    ));
}

#[test]
fn ids_are_shortened_for_display() {
    let id = "68b3a1d2e4f5a6b7c8d9e0f1";
    assert_eq!(styled_id(id, 4), ("d9", "e0f1"));
    assert_eq!(styled_id(id, 1), ("d9e", "0f1"));
    assert_eq!(styled_id(id, 10), ("", "b7c8d9e0f1"));
    assert_eq!(styled_id(id, 99), ("", id));
    assert_eq!(short_id(id), "d9e0f1");
    assert_eq!(short_id("abc"), "abc");
}

#[test]
fn keys_are_masked() {
    assert_eq!(mask("short"), "****");
    assert_eq!(mask("abcdefgh"), "****");
    assert_eq!(mask("abcdefghij"), "abcd…ghij");
}

#[test]
fn projects_by_id_keep_the_last_listed() {
    let map = project_map(vec![
        project("p1", "Old name", None, false),
        project("p2", "Frontend", None, false),
        project("p1", "Backend", None, false),
    ]);
    assert_eq!(map.get("p1").unwrap().name, "Backend");
    assert_eq!(map.get("p2").unwrap().name, "Frontend");
    assert!(map.get("p3").is_none());
}

#[test]
fn projects_listed_sorted_and_grouped() {
    let ps = vec![
        project("p1", "zeta", Some("Acme"), false),
        project("p2", "Alpha", None, true),
        project("p3", "beta", Some("Acme"), false),
        project("p4", "Gamma", Some(""), false),
    ];
    assert_eq!(retain_listed(&ps, false).len(), 3);
    assert_eq!(retain_listed(&ps, true).len(), 4);
    let sorted = sort_by_name(&ps);
    let names: Vec<&str> = sorted.iter().map(|p| p.name.as_str()).collect();
    assert_eq!(names, vec!["Alpha", "beta", "Gamma", "zeta"]);
    let groups = group_by_client(&retain_listed(&ps, false));
    let clients: Vec<&str> = groups.iter().map(|g| g.client.as_str()).collect();
    assert_eq!(clients, vec!["Acme", "(no client)"]);
    assert_eq!(groups[0].projects.len(), 2);
}

#[test]
fn report_totals_largest_first() {
    let es = vec![
        entry(Some("a"), 0, Some(600)),
        entry(None, 0, Some(1800)),
        entry(Some("b"), 0, Some(600)),
        entry(Some("a"), 1000, None),
    ];
    assert!(durations_fit(&es, 1600));
    let rows = project_totals(&es, 1600);
    let got: Vec<(Option<&str>, i64)> =
        rows.iter().map(|r| (r.project_id.as_deref(), r.seconds)).collect();
    assert_eq!(got, vec![(None, 1800), (Some("a"), 1200), (Some("b"), 600)]);
    let huge = vec![entry(None, -8_000_000_000_000, Some(8_000_000_000_000)); 600];
    assert!(!durations_fit(&huge, 0));
}

#[test]
fn report_rows_add_up_to_the_total() {
    let es = vec![
        entry(Some("a"), 0, Some(600)),
        entry(None, 0, Some(1800)),
        entry(Some("b"), 0, Some(600)),
        entry(Some("a"), 1000, None),
    ];
    let total = report_total(&es, 1600);
    assert_eq!(total, 600 + 1800 + 600 + 600);
    let rows = project_totals(&es, 1600);
    assert_eq!(rows.iter().map(|r| r.seconds).sum::<i64>(), total);
    assert_eq!(report_total(&[], 1600), 0);
}

#[test]
fn edits_merge_with_the_entry() {
    let args = EditArgs {
        id: "x".into(),
        description: None,
        project: None,
        from: None,
        to: None,
        json: false,
    };
    assert_eq!(check_args(&args), Err(EditError::NothingToChange));
    let existing = entry(Some("a"), 0, Some(100));
    let same = entry_update(&existing, None, None, at(10), Some(at(100))).unwrap();
    assert_eq!(same.description, "fixing the parser");
    assert_eq!(same.project_id.as_deref(), Some("a"));
    assert_eq!(same.task_id.as_deref(), Some("t1"));
    assert_eq!(same.billable, None);
    let moved = project("pb", "Billable", None, false);
    let changed =
        entry_update(&existing, Some("new".into()), Some(&moved), at(10), None).unwrap();
    assert_eq!(changed.description, "new");
    assert_eq!(changed.project_id.as_deref(), Some("pb"));
    assert_eq!(changed.task_id, None);
    assert_eq!(changed.billable, Some(true));
    assert_eq!(
        entry_update(&existing, None, None, at(100), Some(at(100))).unwrap_err(),
        EditError::EndsBeforeStart
    );
}

#[test]
fn new_entries() {
    assert_eq!(project_choice(Some("web"), true), ProjectChoice::Named("web".into()));
    assert_eq!(project_choice(None, true), ProjectChoice::NoProject);
    assert_eq!(project_choice(None, false), ProjectChoice::Default);
    assert_eq!(check_task(true, false), Err(NewEntryError::TaskRequiresProject));
    assert_eq!(check_task(true, true), Ok(()));
    let p = project("p1", "Web", None, false);
    let t = Task { id: "t9".into(), name: "Triage".into(), status: None };
    let done = completed_entry(at(0), at(90), "notes".into(), true, Some(&p), Some(&t)).unwrap();
    assert_eq!((done.start, done.end), (0, Some(90)));
    assert_eq!(done.project_id.as_deref(), Some("p1"));
    assert_eq!(done.task_id.as_deref(), Some("t9"));
    assert_eq!(
        completed_entry(at(90), at(90), "x".into(), false, None, None).unwrap_err(),
        NewEntryError::EndsBeforeStart
    );
    let run = running_entry(5, None, false, None, None);
    assert_eq!((run.start, run.end, run.project_id), (5, None, None));
}

#[test]
fn categories_merge_active_first_then_sort_by_name() {
    let active = vec![category("c2", "Taxi", false), category("c1", "meals", false)];
    let archived = vec![category("c1", "Meals (old)", true), category("c3", "Hotel", true), category("c0", "Meals", true)];
    let merged = merge_categories(&active, &archived);
    let got: Vec<(&str, &str)> = merged.iter().map(|c| (c.id.as_str(), c.name.as_str())).collect();
    assert_eq!(got, vec![("c3", "Hotel"), ("c0", "Meals"), ("c1", "meals"), ("c2", "Taxi")]);
}

#[test]
fn entry_json_completed_and_running() {
    let start = 1_783_155_600; // 2026-07-04T09:00:00Z
    let mut entry = TimeEntry {
        id: "68b3a1d2e4f5a6b7c8d9e0f1".into(),
        description: "fixing the parser".into(),
        project_id: Some("p1".into()),
        task_id: None,
        time_interval: TimeInterval { start, end: Some(start + 90 * 60) },
    };
    let project = Project {
        id: "p1".into(),
        name: "Backend".into(),
        client_name: None,
        billable: true,
        archived: false,
        color: None,
    };

    let v = entry_record(&entry, Some(&project));
    assert_eq!(v.id, "68b3a1d2e4f5a6b7c8d9e0f1");
    assert_eq!(v.project.as_ref().unwrap().1, "Backend");
    assert_eq!(v.start, "2026-07-04T09:00:00Z");
    assert_eq!(v.end.as_deref(), Some("2026-07-04T10:30:00Z"));
    assert_eq!(v.duration_seconds, 5400);
    assert!(!v.running);

    entry.time_interval.end = None;
    let v = entry_record(&entry, None);
    assert!(v.project.is_none());
    assert!(v.end.is_none());
    assert!(v.running);
}

#[test]
fn unique_suffixes_single_out_ids() {
    let ids: Vec<String> = vec!["aa1111".into(), "bb2111".into(), "ccc999".into(), "ab".into()];
    assert_eq!(unique_suffix_lens(&ids), vec![4, 4, 3, 2]);
    let same: Vec<String> = vec!["x1234".into(), "x1234".into()];
    assert_eq!(unique_suffix_lens(&same), vec![5, 5]);
}

#[test]
fn entry_references() {
    assert_eq!(entry_ref(" @ "), EntryRef::Running);
    assert_eq!(
        entry_ref("68B3A1D2E4F5A6B7C8D9E0F1"),
        EntryRef::FullId("68b3a1d2e4f5a6b7c8d9e0f1".into())
    );
    assert_eq!(entry_ref("E0F1"), EntryRef::Suffix("e0f1".into()));
    assert_eq!(entry_ref("zz"), EntryRef::Invalid);
    assert_eq!(entry_ref(""), EntryRef::Invalid);
}

#[test]
fn project_flags_in_order() {
    let mut p = project("p1", "Web", None, true);
    p.billable = false;
    assert_eq!(project_flags(&p, Some("p1")), vec!["default", "not billable", "archived"]);
    p.billable = true;
    p.archived = false;
    assert!(project_flags(&p, Some("p2")).is_empty());
}

#[test]
fn setup_offers_the_active_workspace() {
    let ws = |id: &str| Workspace { id: id.into(), name: id.to_uppercase() };
    assert_eq!(workspace_choice(&[], Some("a")), WorkspaceChoice::NoWorkspace);
    assert_eq!(workspace_choice(&[ws("a")], Some("zz")), WorkspaceChoice::Only);
    assert_eq!(workspace_choice(&[ws("a"), ws("b"), ws("c")], Some("c")), WorkspaceChoice::Ask { default: 2 });
    assert_eq!(workspace_choice(&[ws("a"), ws("b")], Some("zz")), WorkspaceChoice::Ask { default: 0 });
    assert_eq!(workspace_choice(&[ws("a"), ws("b")], None), WorkspaceChoice::Ask { default: 0 });
}

#[test]
fn starting_stops_the_running_timer_first() {
    let p = project("p1b", "Backend", None, false);
    let plan = start_plan(5_000, Some("write".to_string()), true, Some(&p), None);
    assert_eq!(plan.stop_running_at, 5_000);
    assert_eq!(plan.entry.start, 5_000);
    assert_eq!(plan.entry.end, None);
    assert_eq!(plan.entry.description.as_deref(), Some("write"));
    assert_eq!(plan.entry.project_id.as_deref(), Some("p1b"));
    assert_eq!(plan.entry.task_id, None);
}

#[test]
fn id_suffixes_are_looked_up_in_the_last_90_days() {
    assert_eq!(suffix_search_range(1_000_000_000), (1_000_000_000 - 90 * 86_400, 1_000_000_000));
}
