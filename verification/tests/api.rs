use clockify::api::{
    approval_payload, classify_failure, counted_done, failure_message, is_success,
    no_timer_running, ApiFailure, Pager, PAGE_SIZE,
};
use clockify::commands::submit::Period;

#[test]
fn approval_payload_uses_clockify_wire_names() {
    let start = 1_782_864_000; // 2026-07-01T00:00:00Z
    let payload = approval_payload(Period::Monthly, start);

    assert_eq!(payload.period, "MONTHLY");
    assert_eq!(payload.period_start, "2026-07-01T00:00:00Z");
}

#[test]
fn pages_until_a_short_page() {
    let mut p = Pager::new(None);
    assert_eq!(p.page_size(), PAGE_SIZE);
    assert!(!p.after_page(200));
    assert_eq!(p.page, 2);
    assert!(p.after_page(17));
    assert_eq!(p.fetched, 217);
    assert_eq!(p.page, 2);
}

#[test]
fn pages_stop_at_the_limit() {
    let mut p = Pager::new(Some(250));
    assert_eq!(p.page_size(), 200);
    assert!(!p.after_page(200));
    assert_eq!(p.page_size(), 50);
    assert!(p.after_page(50));
    assert_eq!(p.fetched, 250);
    let mut q = Pager::new(Some(5));
    assert_eq!(q.page_size(), 5);
    assert!(q.after_page(5));
}

#[test]
fn counted_lists_stop_when_all_came() {
    assert!(counted_done(3, 3, 3));
    assert!(!counted_done(200, 200, 450));
    assert!(counted_done(200, 400, 400));
}

#[test]
fn refusals_are_classified() {
    assert_eq!(
        classify_failure(400, "/api/v1/workspaces/w/expenses", "A Receipt is required"),
        ApiFailure::ReceiptRequired
    );
    assert_eq!(
        classify_failure(400, "/api/v1/workspaces/w/time-entries", "file missing"),
        ApiFailure::Other { status: 400, message: "file missing".into() }
    );
    assert_eq!(classify_failure(401, "/api/v1/user", "nope"), ApiFailure::InvalidKey);
    assert_eq!(
        classify_failure(403, "/api/v1/user", "forbidden"),
        ApiFailure::Forbidden("forbidden".into())
    );
    assert_eq!(
        classify_failure(404, "/api/v1/x", "gone"),
        ApiFailure::NotFound("gone".into())
    );
}

#[test]
fn refusal_message_prefers_the_json_field() {
    assert_eq!(failure_message(r#"{"message":"bad period","code":501}"#), "bad period");
    assert_eq!(failure_message("plain text"), "plain text");
    assert_eq!(failure_message(r#"{"message":3}"#), r#"{"message":3}"#);
}

#[test]
fn statuses() {
    assert!(is_success(200));
    assert!(is_success(204));
    assert!(!is_success(404));
    assert!(no_timer_running(404));
    assert!(!no_timer_running(200));
}
