use serverless_backend::error::{
    AuthError, HttpConnError, IoErrorKind, IoFailure, LocalProxyConnError, PgConnectError,
    RetryClass,
};
use serverless_backend::retry::{
    backoff, judge, ConnectDriver, DriverAction, DriverEvent, DriverState, RetryConfig, Verdict,
};

fn config(max_attempts: u32) -> RetryConfig {
    RetryConfig { max_attempts, base_delay_ms: 100, multiplier: 2, max_delay_ms: 1000, jitter_ms: 0 }
}

fn transport() -> HttpConnError {
    HttpConnError::PostgresConnectionError(PgConnectError {
        message: "connection reset".to_string(),
        db_error: None,
    })
}

fn db_error() -> HttpConnError {
    HttpConnError::PostgresConnectionError(PgConnectError {
        message: "db error".to_string(),
        db_error: Some("role does not exist".to_string()),
    })
}

#[test]
fn backoff_grows_by_the_multiplier_up_to_the_cap() {
    let c = config(5);
    assert_eq!(backoff(&c, 0, 12345), 100);
    assert_eq!(backoff(&c, 1, 12345), 200);
    assert_eq!(backoff(&c, 2, 12345), 400);
    assert_eq!(backoff(&c, 3, 12345), 800);
    assert_eq!(backoff(&c, 4, 12345), 1000);
    assert_eq!(backoff(&c, 40, 12345), 1000);
    assert_eq!(backoff(&c, u32::MAX, 12345), 1000);
}

#[test]
fn jitter_adds_at_most_what_is_configured() {
    let c = RetryConfig { max_attempts: 5, base_delay_ms: 100, multiplier: 3, max_delay_ms: 10_000, jitter_ms: 9 };
    assert_eq!(backoff(&c, 0, 0), 100);
    assert_eq!(backoff(&c, 0, 9), 109);
    assert_eq!(backoff(&c, 0, 10), 100);
    assert_eq!(backoff(&c, 2, 25), 905);
    // the cap holds with jitter too
    let tight = RetryConfig { max_delay_ms: 902, ..c };
    assert_eq!(backoff(&tight, 2, 25), 902);
    let any = RetryConfig { jitter_ms: u64::MAX, ..c };
    assert_eq!(backoff(&any, 0, 77), 177);
    assert_eq!(backoff(&any, 0, u64::MAX), 10_000);
}

#[test]
fn degenerate_backoff_settings() {
    let zero_mult = RetryConfig { max_attempts: 5, base_delay_ms: 100, multiplier: 0, max_delay_ms: 1000, jitter_ms: 0 };
    assert_eq!(backoff(&zero_mult, 0, 0), 100);
    assert_eq!(backoff(&zero_mult, 1, 0), 0);
    assert_eq!(backoff(&zero_mult, 7, 0), 0);
    let zero_base = RetryConfig { base_delay_ms: 0, multiplier: 5, ..zero_mult };
    assert_eq!(backoff(&zero_base, 1_000_000, 0), 0);
    let no_cap = RetryConfig { base_delay_ms: u64::MAX, multiplier: u32::MAX, max_delay_ms: u64::MAX, ..zero_mult };
    assert_eq!(backoff(&no_cap, 3, 0), u64::MAX);
    let zero_cap = RetryConfig { max_delay_ms: 0, ..no_cap };
    assert_eq!(backoff(&zero_cap, 3, 5), 0);
}

#[test]
fn verdicts() {
    let c = config(3);
    assert_eq!(judge(&db_error(), 1, &c), Verdict::Surface);
    assert_eq!(judge(&transport(), 1, &c), Verdict::Rewake);
    assert_eq!(judge(&transport(), 2, &c), Verdict::Rewake);
    assert_eq!(judge(&transport(), 3, &c), Verdict::Surface);
    assert_eq!(judge(&HttpConnError::TooManyConnectionAttempts("t".to_string()), 1, &c), Verdict::Surface);
    assert_eq!(judge(&HttpConnError::AuthError(AuthError::TooManyConnections), 1, &c), Verdict::Surface);
    let local = HttpConnError::LocalProxyConnectionError(LocalProxyConnError::Io(IoFailure::new(
        IoErrorKind::ConnectionRefused,
        "refused".to_string(),
    )));
    assert_eq!(judge(&local, 1, &c), Verdict::Surface);
}

#[test]
fn the_plain_path_wakes_once_and_connects_once() {
    let mut d = ConnectDriver::new(config(3));
    assert!(matches!(d.step::<HttpConnError>(DriverEvent::Begin, 0), DriverAction::Wake));
    assert!(matches!(d.step::<HttpConnError>(DriverEvent::Woken(Ok(())), 0), DriverAction::Connect));
    assert!(matches!(
        d.step::<HttpConnError>(DriverEvent::ConnectEnded(Ok(())), 0),
        DriverAction::Done
    ));
    assert_eq!(d.state, DriverState::Done);
    assert_eq!(d.attempts, 1);
    assert_eq!(d.retries, 0);
}

#[test]
fn a_db_error_is_neither_retried_nor_does_it_drop_the_cached_address() {
    let mut d = ConnectDriver::new(config(5));
    let _ = d.step::<HttpConnError>(DriverEvent::Begin, 0);
    let _ = d.step::<HttpConnError>(DriverEvent::Woken(Ok(())), 0);
    match d.step(DriverEvent::ConnectEnded(Err(db_error())), 0) {
        DriverAction::Fail(e) => {
            assert_eq!(e.get_error_kind(), serverless_backend::error::ErrorKind::Postgres);
            assert_eq!(e.to_string_client(), "db error");
        }
        _ => panic!("the failure had to surface"),
    }
    assert_eq!(d.state, DriverState::Failed);
    assert_eq!(d.attempts, 1);
    assert!(matches!(d.step::<HttpConnError>(DriverEvent::BackoffDone, 0), DriverAction::Unexpected));
}

#[test]
fn a_stale_address_is_dropped_and_the_compute_woken_again_within_the_budget() {
    let mut d = ConnectDriver::new(config(2));
    let _ = d.step::<HttpConnError>(DriverEvent::Begin, 0);
    let _ = d.step::<HttpConnError>(DriverEvent::Woken(Ok(())), 0);
    assert!(matches!(
        d.step(DriverEvent::ConnectEnded(Err(transport())), 0),
        DriverAction::InvalidateAndWake
    ));
    assert_eq!(d.state, DriverState::Waking);
    assert!(matches!(d.step::<HttpConnError>(DriverEvent::Woken(Ok(())), 0), DriverAction::Connect));
    assert_eq!(d.attempts, 2);
    // the budget of two attempts is used up
    assert!(matches!(d.step(DriverEvent::ConnectEnded(Err(transport())), 0), DriverAction::Fail(_)));
    assert_eq!(d.state, DriverState::Failed);
}

#[test]
fn a_failed_wake_surfaces() {
    let mut d = ConnectDriver::new(config(2));
    let _ = d.step::<HttpConnError>(DriverEvent::Begin, 0);
    let e = HttpConnError::TooManyConnectionAttempts("no permit".to_string());
    assert!(matches!(
        d.step(DriverEvent::Woken(Err(e)), 0),
        DriverAction::Fail(HttpConnError::TooManyConnectionAttempts(_))
    ));
    assert_eq!(d.attempts, 0);
}

#[test]
fn driver_events_out_of_turn_change_nothing() {
    let mut d = ConnectDriver::new(config(2));
    let early: DriverEvent<HttpConnError> = DriverEvent::ConnectEnded(Ok(()));
    assert!(matches!(d.step(early, 0), DriverAction::Unexpected));
    assert_eq!(d.state, DriverState::Start);
    assert_eq!(d.attempts, 0);
}

#[test]
fn a_retryable_failure_with_a_good_address_waits_and_connects_again() {
    let again = RetryClass { could_retry: true, should_retry_wake_compute: false };
    let mut d = ConnectDriver::new(config(3));
    let _ = d.step::<RetryClass>(DriverEvent::Begin, 0);
    let _ = d.step::<RetryClass>(DriverEvent::Woken(Ok(())), 0);
    match d.step(DriverEvent::ConnectEnded(Err(again)), 0) {
        DriverAction::Backoff { delay_ms } => assert_eq!(delay_ms, 100),
        _ => panic!("a wait was due"),
    }
    assert_eq!(d.state, DriverState::Backoff);
    assert!(matches!(d.step::<RetryClass>(DriverEvent::BackoffDone, 0), DriverAction::Connect));
    assert_eq!(d.attempts, 2);
    match d.step(DriverEvent::ConnectEnded(Err(again)), 0) {
        DriverAction::Backoff { delay_ms } => assert_eq!(delay_ms, 200),
        _ => panic!("a wait was due"),
    }
    assert!(matches!(d.step::<RetryClass>(DriverEvent::BackoffDone, 0), DriverAction::Connect));
    assert_eq!(d.attempts, 3);
    // the third attempt was the last
    assert!(matches!(d.step(DriverEvent::ConnectEnded(Err(again)), 0), DriverAction::Fail(_)));
    assert_eq!(d.retries, 2);
    assert_eq!(judge(&again, 1, &config(3)), Verdict::Backoff);
    let never = RetryClass { could_retry: false, should_retry_wake_compute: true };
    assert_eq!(judge(&never, 1, &config(3)), Verdict::Surface);
}
