use chrono::{Days, Duration, Local, TimeZone, Utc};
use clockify::calendar::Date;
use clockify::time::{
    classify_time, day_range, fmt_duration, fmt_duration_secs, parse_date, parse_date_on,
    parse_time, parse_time_on, to_api, DateError, Instant, TimeError, TimeInput,
};

fn local(secs: i64) -> chrono::DateTime<Local> {
    Utc.timestamp_opt(secs, 0).unwrap().with_timezone(&Local)
}

fn today() -> Date {
    let n = Local::now().date_naive();
    Date::from_ymd(chrono::Datelike::year(&n), chrono::Datelike::month(&n), chrono::Datelike::day(&n))
        .unwrap()
}

#[test]
fn parses_rfc3339() {
    let dt = parse_time("2026-07-04T10:30:00Z").unwrap();
    assert_eq!(to_api(dt.secs), "2026-07-04T10:30:00Z");
}

#[test]
fn parses_hh_mm_as_today_local() {
    let dt = parse_time("10:30").unwrap();
    let local = local(dt.secs);
    assert_eq!(local.date_naive(), Local::now().date_naive());
    assert_eq!(local.format("%H:%M").to_string(), "10:30");
}

#[test]
fn parses_yesterday() {
    let dt = parse_time("yesterday 09:15").unwrap();
    let local = local(dt.secs);
    let expected = Local::now().date_naive().checked_sub_days(Days::new(1)).unwrap();
    assert_eq!(local.date_naive(), expected);
    assert_eq!(local.format("%H:%M").to_string(), "09:15");
}

#[test]
fn parses_full_date_time() {
    let dt = parse_time("2026-01-15 14:00").unwrap();
    let local = local(dt.secs);
    assert_eq!(local.format("%Y-%m-%d %H:%M").to_string(), "2026-01-15 14:00");
}

#[test]
fn rejects_garbage_time() {
    assert!(parse_time("lunchtime").is_err());
}

#[test]
fn parses_dates() {
    assert_eq!(parse_date("today").unwrap(), today());
    assert_eq!(
        parse_date("2026-07-01").unwrap(),
        Date::from_ymd(2026, 7, 1).unwrap()
    );
    assert!(parse_date("someday").is_err());
}

#[test]
fn formats_durations() {
    assert_eq!(fmt_duration(Duration::minutes(83).num_seconds()), "1h 23m");
    assert_eq!(fmt_duration(Duration::minutes(5).num_seconds()), "5m");
    assert_eq!(fmt_duration(Duration::seconds(59).num_seconds()), "0m");
    assert_eq!(fmt_duration_secs(Duration::seconds(3723).num_seconds()), "1h 02m 03s");
    assert_eq!(fmt_duration_secs(Duration::seconds(45).num_seconds()), "45s");
}

#[test]
fn day_range_covers_full_days() {
    let d = Date::from_ymd(2026, 7, 4).unwrap();
    let (start, end) = day_range(d, d).unwrap();
    assert_eq!(end - start, Duration::days(1).num_seconds());
}

#[test]
fn duration_formats_pad_and_clamp() {
    assert_eq!(fmt_duration(3600), "1h 00m");
    assert_eq!(fmt_duration(-120), "0m");
    assert_eq!(fmt_duration(36000 + 5 * 60), "10h 05m");
    assert_eq!(fmt_duration_secs(0), "0s");
    assert_eq!(fmt_duration_secs(61), "1m 01s");
    assert_eq!(fmt_duration_secs(-5), "0s");
}

#[test]
fn api_format_of_instants() {
    assert_eq!(to_api(0), "1970-01-01T00:00:00Z");
    assert_eq!(to_api(1_783_161_000), "2026-07-04T10:30:00Z");
    assert_eq!(to_api(-1), "1969-12-31T23:59:59Z");
}

#[test]
fn time_forms_are_told_apart() {
    assert_eq!(classify_time(" 10:30 "), TimeInput::Today { hour: 10, minute: 30 });
    assert_eq!(classify_time("yesterday  09:15"), TimeInput::Yesterday { hour: 9, minute: 15 });
    assert_eq!(
        classify_time("2026-01-15 14:00"),
        TimeInput::At { date: Date::from_ymd(2026, 1, 15).unwrap(), hour: 14, minute: 0 }
    );
    assert_eq!(classify_time("2026-07-04T10:30:00Z"), TimeInput::Instant(Instant { secs: 1_783_161_000, nanos: 0 }));
    assert_eq!(classify_time(" soon "), TimeInput::Unparsable("soon".to_string()));
}

#[test]
fn garbage_time_names_the_trimmed_text() {
    assert_eq!(parse_time("  lunchtime ").unwrap_err(), TimeError::Unparsable("lunchtime".to_string()));
}

#[test]
fn dates_relative_to_a_given_day() {
    let today = Date::from_ymd(2026, 3, 1).unwrap();
    assert_eq!(parse_date_on(" today ", today).unwrap(), today);
    assert_eq!(parse_date_on("yesterday", today).unwrap(), Date::from_ymd(2026, 2, 28).unwrap());
    assert_eq!(parse_date_on("2024-02-29", today).unwrap(), Date::from_ymd(2024, 2, 29).unwrap());
    assert!(matches!(parse_date_on("2023-02-29", today), Err(DateError::Unparsable { .. })));
}

#[test]
fn day_range_ends_within_the_calendar() {
    let from = Date::from_ymd(2026, 1, 1).unwrap();
    let last = Date::from_ymd(262142, 12, 31).unwrap();
    assert!(day_range(from, last).is_err());
    let (start, end) = day_range(from, from).unwrap();
    assert!(start < end);
}

#[test]
fn times_are_read_on_the_given_day() {
    let day = Date::from_ymd(2026, 3, 10).unwrap();
    let t = parse_time_on("10:30", day).unwrap();
    assert_eq!(local(t.secs).format("%Y-%m-%d %H:%M").to_string(), "2026-03-10 10:30");
    let y = parse_time_on("yesterday 09:15", day).unwrap();
    assert_eq!(local(y.secs).format("%Y-%m-%d %H:%M").to_string(), "2026-03-09 09:15");
    let first = Date::from_ymd(-262143, 1, 1).unwrap();
    assert_eq!(parse_time_on("yesterday 09:15", first), Err(TimeError::OutOfRange));
    assert_eq!(parse_time_on("2026-07-04T10:30:00Z", day).map(|t| to_api(t.secs)), Ok("2026-07-04T10:30:00Z".to_string()));
    assert_eq!(parse_time_on(" noon ", day), Err(TimeError::Unparsable("noon".to_string())));
}

#[test]
fn fractions_of_a_second_are_kept() {
    let a = parse_time("2026-07-04T10:30:00.2Z").unwrap();
    let b = parse_time("2026-07-04T10:30:00.7Z").unwrap();
    assert_eq!(a, Instant { secs: 1_783_161_000, nanos: 200_000_000 });
    assert!(a.is_before(&b));
    assert!(!b.is_before(&a));
    assert!(!a.is_before(&a));
}
