use clockify::calendar::Date;
use clockify::commands::submit::{
    last_day_of_month, month_start, select_window, select_window_on, semi_month_start,
    summarize_entries, week_start, window_for, Period, SubmitError,
};
use clockify::models::{TimeEntry, TimeInterval};

fn date(y: i32, m: u32, d: u32) -> Date {
    Date::from_ymd(y, m, d).unwrap()
}

fn entry(id: &str, start: i64, end: Option<i64>) -> TimeEntry {
    TimeEntry {
        id: id.into(),
        description: "work".into(),
        project_id: None,
        task_id: None,
        time_interval: TimeInterval { start, end },
    }
}

#[test]
fn monthly_window_starts_on_first_and_ends_on_last_day() {
    let from = date(2026, 2, 1);
    let window = window_for(Period::Monthly, from);

    assert_eq!(window.from, from);
    assert_eq!(window.to, date(2026, 2, 28));
}

#[test]
fn weekly_window_covers_seven_days() {
    let from = date(2026, 7, 6);
    let window = window_for(Period::Weekly, from);

    assert_eq!(window.to, date(2026, 7, 12));
}

#[test]
fn custom_from_requires_explicit_period() {
    assert!(select_window(false, false, Some("2026-07-01"), None).is_err());
}

#[test]
fn custom_from_with_period_is_accepted() {
    let window = select_window(false, false, Some("2026-07-01"), Some(Period::Monthly)).unwrap();

    assert_eq!(window.period, Period::Monthly);
    assert_eq!(window.from, date(2026, 7, 1));
}

#[test]
fn summary_rejects_running_entries() {
    let start = 1_782_896_400; // 2026-07-01T09:00:00Z
    let entries = vec![entry("entry", start, None)];
    let window = window_for(Period::Monthly, date(2026, 7, 1));

    assert!(summarize_entries(window, start, &entries).is_err());
}

#[test]
fn semi_monthly_windows_split_the_month() {
    let first = window_for(Period::SemiMonthly, date(2026, 2, 1));
    assert_eq!(first.to, date(2026, 2, 15));
    let second = window_for(Period::SemiMonthly, date(2026, 2, 16));
    assert_eq!(second.to, date(2026, 2, 28));
    let leap = window_for(Period::SemiMonthly, date(2024, 2, 20));
    assert_eq!(leap.to, date(2024, 2, 29));
}

#[test]
fn period_starts() {
    // 2026-07-09 is a Thursday.
    assert_eq!(week_start(date(2026, 7, 9)).unwrap(), date(2026, 7, 6));
    assert_eq!(week_start(date(2026, 7, 6)).unwrap(), date(2026, 7, 6));
    assert_eq!(month_start(date(2026, 7, 9)).unwrap(), date(2026, 7, 1));
    assert_eq!(semi_month_start(date(2026, 7, 9)).unwrap(), date(2026, 7, 1));
    assert_eq!(semi_month_start(date(2026, 7, 16)).unwrap(), date(2026, 7, 16));
    assert_eq!(last_day_of_month(date(2026, 12, 3)), date(2026, 12, 31));
    assert_eq!(last_day_of_month(date(2100, 2, 3)), date(2100, 2, 28));
}

#[test]
fn current_windows_as_of_a_given_day() {
    let today = date(2026, 7, 9);
    let w = select_window_on(today, true, false, None, None).unwrap();
    assert_eq!((w.period, w.from, w.to), (Period::Weekly, date(2026, 7, 6), date(2026, 7, 12)));
    let m = select_window_on(today, false, true, None, None).unwrap();
    assert_eq!((m.period, m.from, m.to), (Period::Monthly, date(2026, 7, 1), date(2026, 7, 31)));
    let d = select_window_on(today, false, false, None, None).unwrap();
    assert_eq!(d.period, Period::Monthly);
    assert!(matches!(
        select_window_on(today, true, true, None, None),
        Err(SubmitError::ChooseOnePeriod)
    ));
    assert!(matches!(
        select_window_on(today, false, false, Some("2026-07-01"), None),
        Err(SubmitError::FromRequiresPeriod)
    ));
    assert!(matches!(
        select_window_on(today, false, false, Some("someday"), Some(Period::Weekly)),
        Err(SubmitError::Date(_))
    ));
}

#[test]
fn summary_adds_up_completed_entries() {
    let window = window_for(Period::Monthly, date(2026, 7, 1));
    let start = 1_782_864_000; // 2026-07-01T00:00:00Z
    let entries = vec![
        entry("a", start, Some(start + 3600)),
        entry("b", start + 7200, Some(start + 9000)),
    ];
    let s = summarize_entries(window, start, &entries).unwrap();
    assert_eq!(s.entry_count, 2);
    assert_eq!(s.total, 5400);
    assert_eq!(s.period_start, start);
    assert!(matches!(
        summarize_entries(window, start, &[]),
        Err(SubmitError::NoEntries { .. })
    ));
    assert!(matches!(
        summarize_entries(window, start, &[entry("c", start, None)]),
        Err(SubmitError::RunningTimer)
    ));
}

#[test]
fn period_names() {
    assert_eq!(Period::Monthly.as_api_str(), "MONTHLY");
    assert_eq!(Period::SemiMonthly.as_api_str(), "SEMI_MONTHLY");
    assert_eq!(Period::Weekly.as_api_str(), "WEEKLY");
    assert_eq!(Period::SemiMonthly.label(), "semi-monthly");
}
