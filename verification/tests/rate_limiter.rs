use proxy_telegram_bot::rate_limiter::RateLimiter;

#[test]
fn first_message_of_a_sender_always_passes() {
    let limiter = RateLimiter::new();
    assert_eq!(limiter.last_accepted(400), None);
    assert!(!limiter.check_and_should_throttle(400, 0, 10));
    assert!(!limiter.check_and_should_throttle(400, i32::MIN, i64::MAX));
    assert!(!limiter.check_and_should_throttle(400, i32::MAX, i64::MAX));
}

#[test]
fn window_end_is_inclusive() {
    let mut limiter = RateLimiter::new();
    limiter.record_accepted(400, 100);
    assert!(limiter.check_and_should_throttle(400, 109, 10));
    assert!(limiter.check_and_should_throttle(400, 110, 10));
    assert!(!limiter.check_and_should_throttle(400, 111, 10));
    assert!(limiter.check_and_should_throttle(400, 100, 0));
    assert!(!limiter.check_and_should_throttle(400, 101, 0));
}

#[test]
fn messages_before_the_recorded_time_are_throttled() {
    let mut limiter = RateLimiter::new();
    limiter.record_accepted(1, 50);
    assert!(limiter.check_and_should_throttle(1, 49, 10));
    assert!(limiter.check_and_should_throttle(1, 0, 0));
    assert!(!limiter.check_and_should_throttle(1, 49, -2));
    assert!(limiter.check_and_should_throttle(1, 48, -2));
}

#[test]
fn check_does_not_move_the_window() {
    let mut limiter = RateLimiter::new();
    limiter.record_accepted(7, 0);
    assert!(limiter.check_and_should_throttle(7, 9, 10));
    assert!(limiter.check_and_should_throttle(7, 10, 10));
    assert_eq!(limiter.last_accepted(7), Some(0));
    assert!(!limiter.check_and_should_throttle(7, 11, 10));
}

#[test]
fn record_overwrites_and_keeps_senders_apart() {
    let mut limiter = RateLimiter::new();
    limiter.record_accepted(1, 10);
    limiter.record_accepted(2, 20);
    limiter.record_accepted(1, 5);
    assert_eq!(limiter.last_accepted(1), Some(5));
    assert_eq!(limiter.last_accepted(2), Some(20));
    assert_eq!(limiter.last_accepted(3), None);
    assert!(!limiter.check_and_should_throttle(3, 20, 100));
    assert!(limiter.check_and_should_throttle(2, 21, 1));
    assert!(!limiter.check_and_should_throttle(1, 21, 1));
}

#[test]
fn sums_beyond_the_timestamp_range_do_not_wrap() {
    let mut limiter = RateLimiter::new();
    limiter.record_accepted(1, i32::MAX);
    assert!(limiter.check_and_should_throttle(1, i32::MAX, 1));
    assert!(limiter.check_and_should_throttle(1, i32::MIN, i64::MAX));
    assert!(limiter.check_and_should_throttle(1, i32::MAX, i64::MAX));
    limiter.record_accepted(2, i32::MIN);
    assert!(!limiter.check_and_should_throttle(2, i32::MAX, 4294967294));
    assert!(limiter.check_and_should_throttle(2, i32::MAX, 4294967295));
    assert!(!limiter.check_and_should_throttle(2, i32::MIN, i64::MIN));
    assert!(!limiter.check_and_should_throttle(2, i32::MIN, -1));
    assert!(limiter.check_and_should_throttle(2, i32::MIN, 0));
}

#[test]
fn poisoned_limiter_reads_as_empty_and_records_nothing() {
    let mut limiter = RateLimiter::new();
    limiter.record_accepted(1, 10);
    assert!(!limiter.poisoned());
    limiter.poison();
    assert!(limiter.poisoned());
    assert_eq!(limiter.last_accepted(1), None);
    assert!(!limiter.check_and_should_throttle(1, 10, 100));
    limiter.record_accepted(1, 10);
    assert_eq!(limiter.last_accepted(1), None);
    assert!(!limiter.check_and_should_throttle(1, 10, 100));
}
