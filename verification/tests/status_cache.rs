use clockify::status_cache::{is_fresh, now_unix, CachedEntry, CachedStatus, TTL_SECS};

fn cached(fetched_at: u64, ws: &str) -> CachedStatus {
    CachedStatus {
        fetched_at,
        workspace_id: ws.to_string(),
        entry: Some(CachedEntry {
            description: "writing".to_string(),
            start: 1_000,
            project_name: None,
        }),
    }
}

#[test]
fn cached_answers_are_trusted_for_a_while() {
    let c = cached(10_000, "ws1");
    assert!(is_fresh(&c, "ws1", 10_000));
    assert!(is_fresh(&c, "ws1", 10_000 + TTL_SECS - 1));
    assert!(!is_fresh(&c, "ws1", 10_000 + TTL_SECS));
    assert!(!is_fresh(&c, "ws2", 10_001));
    // A stamp ahead of the clock counts as just fetched.
    assert!(is_fresh(&c, "ws1", 9_000));
    assert_eq!(TTL_SECS, 120);
}

#[test]
fn the_clock_reads_after_the_epoch() {
    assert!(now_unix() > 1_600_000_000);
}
