use librepods::cooldown::{backoff_ok, cooldown_over};
use std::time::{Duration, Instant};

#[test]
fn allows_when_never_attempted() {
    assert!(backoff_ok(None, Instant::now(), Duration::from_secs(10)));
}

#[test]
fn blocks_within_cooldown() {
    let now = Instant::now();
    let last = now - Duration::from_secs(3);
    assert!(!backoff_ok(Some(last), now, Duration::from_secs(10)));
}

#[test]
fn allows_after_cooldown() {
    let now = Instant::now();
    let last = now - Duration::from_secs(11);
    assert!(backoff_ok(Some(last), now, Duration::from_secs(10)));
}

#[test]
fn allows_exactly_at_the_end_of_the_cooldown() {
    let now = Instant::now();
    let last = now - Duration::from_secs(10);
    assert!(backoff_ok(Some(last), now, Duration::from_secs(10)));
    let last = now - Duration::from_nanos(9_999_999_999);
    assert!(!backoff_ok(Some(last), now, Duration::from_secs(10)));
}

#[test]
fn an_attempt_in_the_future_counts_as_just_made() {
    let now = Instant::now();
    let last = now + Duration::from_secs(60);
    assert!(!backoff_ok(Some(last), now, Duration::from_secs(10)));
    assert!(backoff_ok(Some(last), now, Duration::from_secs(0)));
}

#[test]
fn cooldown_over_on_plain_numbers() {
    assert!(cooldown_over(None, u128::MAX));
    assert!(cooldown_over(Some(10), 10));
    assert!(!cooldown_over(Some(9), 10));
}
