use serverless_backend::error::{CouldRetry, ShouldRetryWakeCompute};
use serverless_backend::error::{ErrorKind, HttpConnError};
use serverless_backend::locks::{permit_timeout, ApiLocks};
use serverless_backend::retry::{judge, RetryConfig, Verdict};

#[test]
fn the_fifth_of_five_connects_waits_for_one_of_four_permits() {
    let mut locks = ApiLocks::new(4);
    let mut held = Vec::new();
    for _ in 0..4 {
        held.push(locks.get_permit("compute-1").expect("a permit is free"));
    }
    assert_eq!(locks.held("compute-1"), 4);
    assert!(locks.get_permit("compute-1").is_none());
    assert_eq!(locks.held("compute-1"), 4);
    // another host has permits of its own
    assert!(locks.get_permit("compute-2").is_some());
    locks.release(held.pop().unwrap());
    assert_eq!(locks.held("compute-1"), 3);
    assert!(locks.get_permit("compute-1").is_some());
}

#[test]
fn a_permit_that_does_not_come_in_time_is_a_failure_that_is_not_retried() {
    let e = permit_timeout("acquire timed out".to_string());
    assert!(matches!(e, HttpConnError::TooManyConnectionAttempts(_)));
    assert_eq!(e.get_error_kind(), ErrorKind::RateLimited);
    assert!(!e.could_retry());
    assert!(!e.should_retry_wake_compute());
    let config = RetryConfig { max_attempts: 10, base_delay_ms: 1, multiplier: 2, max_delay_ms: 10, jitter_ms: 0 };
    assert_eq!(judge(&e, 1, &config), Verdict::Surface);
    assert_eq!(e.message(), "error acquiring resource permit: acquire timed out");
}

#[test]
fn a_permit_is_kept_after_success_and_given_back_after_failure() {
    let mut locks = ApiLocks::new(2);
    let p = locks.get_permit("h").unwrap();
    let kept = locks.release_result(p, true);
    assert!(kept.is_some());
    assert_eq!(locks.held("h"), 1);
    let q = locks.get_permit("h").unwrap();
    assert!(locks.release_result(q, false).is_none());
    assert_eq!(locks.held("h"), 1);
    locks.release(kept.unwrap());
    assert_eq!(locks.held("h"), 0);
}

#[test]
fn no_permits_means_nobody_gets_one() {
    let mut locks = ApiLocks::new(0);
    assert!(locks.get_permit("h").is_none());
    assert_eq!(locks.held("h"), 0);
}
