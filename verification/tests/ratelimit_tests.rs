use ecstasy::ratelimit::Ratelimiter;

#[test]
fn fresh_limiter_is_open() {
    let limiter = Ratelimiter::default();
    assert_eq!(limiter.info.remaining, 0);
    assert_eq!(limiter.info.reset_at, None);
    assert_eq!(limiter.wait_if_needed(0), None);
}

#[test]
fn low_quota_throttles_until_next_window() {
    let mut limiter = Ratelimiter::new();
    limiter.update_rate_limit(None, Some("1"), 90);
    assert_eq!(limiter.info.remaining, 0);
    assert_eq!(limiter.info.reset_at, Some(120));
    assert_eq!(limiter.wait_if_needed(100), Some(20));
    assert_eq!(limiter.wait_if_needed(119), Some(1));
    assert_eq!(limiter.wait_if_needed(120), None);
    assert_eq!(limiter.wait_if_needed(500), None);
}

#[test]
fn high_quota_returns_immediately() {
    let mut limiter = Ratelimiter::new();
    limiter.update_rate_limit(None, Some("10"), 90);
    assert_eq!(limiter.info.remaining, 10);
    assert_eq!(limiter.info.reset_at, None);
    assert_eq!(limiter.wait_if_needed(90), None);
}

#[test]
fn bulk_storage_origin_throttles_early() {
    // Without the bulk-storage hint, a quota of five stays open.
    let mut limiter = Ratelimiter::new();
    limiter.update_rate_limit(None, Some("5"), 0);
    assert_eq!(limiter.info.remaining, 5);
    assert_eq!(limiter.info.reset_at, None);
    // With the hint and the recorded quota at the larger mark, it throttles.
    limiter.update_rate_limit(Some("s3"), Some("100"), 15);
    assert_eq!(limiter.info.remaining, 0);
    assert_eq!(limiter.info.reset_at, Some(60));
    let mut limiter = Ratelimiter::new();
    limiter.update_rate_limit(Some("s3"), Some("100"), 30);
    assert_eq!(limiter.info.remaining, 0);
    assert_eq!(limiter.info.reset_at, Some(60));
    assert_eq!(limiter.wait_if_needed(59), Some(1));
}

#[test]
fn non_bulk_origin_is_ignored() {
    let mut limiter = Ratelimiter::new();
    limiter.update_rate_limit(Some("cache"), Some("50"), 30);
    assert_eq!(limiter.info.remaining, 50);
    assert_eq!(limiter.info.reset_at, None);
}

#[test]
fn unreadable_quota_counts_as_exhausted() {
    let mut limiter = Ratelimiter::new();
    limiter.update_rate_limit(None, Some("plenty"), 61);
    assert_eq!(limiter.info.remaining, 0);
    assert_eq!(limiter.info.reset_at, Some(120));
}

#[test]
fn absent_header_keeps_recorded_quota() {
    let mut limiter = Ratelimiter::new();
    limiter.update_rate_limit(None, Some("40"), 0);
    limiter.update_rate_limit(None, None, 10);
    assert_eq!(limiter.info.remaining, 40);
    assert_eq!(limiter.info.reset_at, None);
}
