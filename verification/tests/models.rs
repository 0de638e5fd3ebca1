use clockify::models::{Project, TimeEntry, TimeInterval};
use clockify::resolve::{looks_like_id, pick, project, task, PickError};
use clockify::models::Task;

fn colored(color: Option<&str>) -> Project {
    Project {
        id: "p".into(),
        name: "P".into(),
        client_name: None,
        billable: false,
        archived: false,
        color: color.map(String::from),
    }
}

fn named(id: &str, name: &str, archived: bool) -> Project {
    Project { id: id.into(), name: name.into(), client_name: None, billable: false, archived, color: None }
}

#[test]
fn project_colors_are_read_from_hex() {
    assert_eq!(colored(Some("#4CAF50")).rgb(), Some((0x4c, 0xaf, 0x50)));
    assert_eq!(colored(Some("#ffffff")).rgb(), Some((255, 255, 255)));
    assert_eq!(colored(Some("4CAF50")).rgb(), None);
    assert_eq!(colored(Some("#4CAF5")).rgb(), None);
    assert_eq!(colored(Some("#4CAG50")).rgb(), None);
    assert_eq!(colored(Some("#+F+F+F")).rgb(), None);
    assert_eq!(colored(Some("#\u{e9}ABCD")).rgb(), None);
    assert_eq!(colored(None).rgb(), None);
}

#[test]
fn entry_durations() {
    let done = TimeEntry {
        id: "e".into(),
        description: String::new(),
        project_id: None,
        task_id: None,
        time_interval: TimeInterval { start: 100, end: Some(5500) },
    };
    assert_eq!(done.duration_at(0), 5400);
    assert_eq!(done.duration(), 5400);
    let running = TimeEntry { time_interval: TimeInterval { start: 100, end: None }, ..done.clone() };
    assert_eq!(running.duration_at(700), 600);
    assert!(running.duration() > 0);
}

#[test]
fn ids_are_recognized() {
    assert!(looks_like_id("68b3a1d2e4f5a6b7c8d9e0f1"));
    assert!(!looks_like_id("68b3a1d2e4f5a6b7c8d9e0f"));
    assert!(!looks_like_id("68b3a1d2e4f5a6b7c8d9e0fz"));
}

#[test]
fn picking_by_name_or_id() {
    let ps = vec![named("68b3a1d2e4f5a6b7c8d9e0f1", "Backend", false), named("68b3a1d2e4f5a6b7c8d9e0f2", "Backend tools", false), named("68b3a1d2e4f5a6b7c8d9e0f3", "Archive", true)];
    assert_eq!(pick("backend", &ps), Ok(0));
    assert_eq!(pick("tools", &ps), Ok(1));
    assert_eq!(pick("back", &ps), Err(PickError::Ambiguous(vec!["Backend".into(), "Backend tools".into()])));
    assert_eq!(pick("nothing", &ps), Err(PickError::NoMatch));
    assert_eq!(pick("68b3a1d2e4f5a6b7c8d9e0f2", &ps), Ok(1));
    assert_eq!(project(&ps, "archive").unwrap_err(), PickError::NoMatch);
    assert_eq!(project(&ps, "tools").unwrap().name, "Backend tools");
    let ts = vec![Task { id: "t1".into(), name: "Triage".into(), status: None }];
    assert_eq!(task(&ts, "tri").unwrap().id, "t1");
}

#[test]
fn clock_reads_after_the_epoch() {
    assert!(clockify::status_cache::now_unix() > 1_600_000_000);
}
