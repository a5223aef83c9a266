use serverless_backend::error::{CouldRetry, ShouldRetryWakeCompute};
use serverless_backend::error::{
    AuthError, ErrorKind, HttpConnError, IoErrorKind, IoFailure, LocalProxyConnError,
    PgConnectError, UpstreamError,
};

fn pg(db_error: Option<&str>, message: &str) -> HttpConnError {
    HttpConnError::PostgresConnectionError(PgConnectError {
        message: message.to_string(),
        db_error: db_error.map(|s| s.to_string()),
    })
}

fn upstream(kind: ErrorKind) -> UpstreamError {
    UpstreamError { kind, message: "log".to_string(), client_message: "for the client".to_string() }
}

fn io() -> LocalProxyConnError {
    LocalProxyConnError::Io(IoFailure::new(IoErrorKind::ConnectionRefused, "refused".to_string()))
}

#[test]
fn a_db_error_is_of_the_postgres_kind_and_final() {
    let e = pg(Some("role does not exist"), "db error: role does not exist");
    assert_eq!(e.get_error_kind(), ErrorKind::Postgres);
    assert!(!e.could_retry());
    assert!(!e.should_retry_wake_compute());
    assert_eq!(e.to_string_client(), "db error: role does not exist");
    assert_eq!(e.message(), "could not connect to postgres in compute");
}

#[test]
fn a_connect_failure_without_db_error_is_of_the_compute_kind_and_retried() {
    let e = pg(None, "connection refused");
    assert_eq!(e.get_error_kind(), ErrorKind::Compute);
    assert!(e.could_retry());
    assert!(e.should_retry_wake_compute());
    assert_eq!(e.to_string_client(), "connection refused");
}

#[test]
fn kinds_of_the_other_failures() {
    assert_eq!(HttpConnError::ConnectionClosedAbruptly(1).get_error_kind(), ErrorKind::Compute);
    assert_eq!(HttpConnError::LocalProxyConnectionError(io()).get_error_kind(), ErrorKind::Compute);
    assert_eq!(HttpConnError::ComputeCtl("x".to_string()).get_error_kind(), ErrorKind::Service);
    assert_eq!(HttpConnError::JwtPayloadError("x".to_string()).get_error_kind(), ErrorKind::User);
    assert_eq!(
        HttpConnError::GetAuthInfo(upstream(ErrorKind::Service)).get_error_kind(),
        ErrorKind::Service
    );
    assert_eq!(
        HttpConnError::WakeCompute(upstream(ErrorKind::RateLimited)).get_error_kind(),
        ErrorKind::RateLimited
    );
    assert_eq!(
        HttpConnError::AuthError(AuthError::password_failed("u")).get_error_kind(),
        ErrorKind::Auth
    );
    assert_eq!(
        HttpConnError::TooManyConnectionAttempts("x".to_string()).get_error_kind(),
        ErrorKind::RateLimited
    );
}

#[test]
fn only_postgres_transport_failures_are_retried() {
    let others = vec![
        HttpConnError::ConnectionClosedAbruptly(1),
        HttpConnError::LocalProxyConnectionError(io()),
        HttpConnError::ComputeCtl("x".to_string()),
        HttpConnError::JwtPayloadError("x".to_string()),
        HttpConnError::GetAuthInfo(upstream(ErrorKind::Service)),
        HttpConnError::WakeCompute(upstream(ErrorKind::Service)),
        HttpConnError::AuthError(AuthError::TooManyConnections),
        HttpConnError::TooManyConnectionAttempts("x".to_string()),
    ];
    for e in &others {
        assert!(!e.could_retry());
    }
    assert!(!HttpConnError::TooManyConnectionAttempts("x".to_string()).should_retry_wake_compute());
    assert!(HttpConnError::ComputeCtl("x".to_string()).should_retry_wake_compute());
}

#[test]
fn messages_for_the_client() {
    assert_eq!(
        HttpConnError::ConnectionClosedAbruptly(1).to_string_client(),
        "pooled connection closed at inconsistent state"
    );
    assert_eq!(
        HttpConnError::LocalProxyConnectionError(io()).to_string_client(),
        "Could not establish HTTP connection to the database"
    );
    assert_eq!(
        HttpConnError::ComputeCtl("boom".to_string()).to_string_client(),
        "could not set up the JWT authorization database extension"
    );
    assert_eq!(HttpConnError::JwtPayloadError("bad json".to_string()).to_string_client(), "bad json");
    assert_eq!(
        HttpConnError::GetAuthInfo(upstream(ErrorKind::Service)).to_string_client(),
        "for the client"
    );
    assert_eq!(
        HttpConnError::WakeCompute(upstream(ErrorKind::Service)).to_string_client(),
        "for the client"
    );
    assert_eq!(
        HttpConnError::AuthError(AuthError::password_failed("alice")).to_string_client(),
        "password authentication failed for user 'alice'"
    );
    assert_eq!(
        HttpConnError::TooManyConnectionAttempts("x".to_string()).to_string_client(),
        "Failed to acquire permit to connect to the database. Too many database connection attempts are currently ongoing."
    );
}

#[test]
fn messages_for_the_log() {
    assert_eq!(
        HttpConnError::ComputeCtl("boom".to_string()).message(),
        "could not install extension: boom"
    );
    assert_eq!(
        HttpConnError::TooManyConnectionAttempts("timeout".to_string()).message(),
        "error acquiring resource permit: timeout"
    );
    assert_eq!(HttpConnError::JwtPayloadError("x".to_string()).message(), "could not parse JWT payload");
    assert_eq!(
        HttpConnError::GetAuthInfo(upstream(ErrorKind::Service)).message(),
        "could not get auth info"
    );
    assert_eq!(
        HttpConnError::AuthError(AuthError::TooManyConnections).message(),
        "user not authenticated"
    );
    assert_eq!(
        HttpConnError::WakeCompute(upstream(ErrorKind::Service)).message(),
        "wake_compute returned error"
    );
    assert_eq!(
        HttpConnError::LocalProxyConnectionError(io()).message(),
        "could not connect to local-proxy in compute"
    );
}

#[test]
fn local_proxy_failures() {
    let h2 = LocalProxyConnError::H2("broken".to_string());
    for e in [io(), h2] {
        assert_eq!(e.get_error_kind(), ErrorKind::Compute);
        assert_eq!(e.to_string_client(), "Could not establish HTTP connection to the database");
        assert!(!e.could_retry());
        assert!(!e.should_retry_wake_compute());
    }
    assert_eq!(io().message(), "error with connection to local-proxy");
    assert_eq!(
        LocalProxyConnError::H2("x".to_string()).message(),
        "could not establish h2 connection"
    );
}

#[test]
fn auth_failures() {
    assert_eq!(AuthError::password_failed("bob").get_error_kind(), ErrorKind::Auth);
    assert_eq!(AuthError::TooManyConnections.get_error_kind(), ErrorKind::RateLimited);
    assert_eq!(AuthError::IpAddressNotAllowed.get_error_kind(), ErrorKind::Auth);
    assert_eq!(AuthError::NetworkNotAllowed.get_error_kind(), ErrorKind::Auth);
    assert_eq!(AuthError::JwtMalformed("m".to_string()).get_error_kind(), ErrorKind::User);
    assert_eq!(AuthError::JwtRejected("m".to_string()).get_error_kind(), ErrorKind::Auth);
    assert_eq!(AuthError::WorkerPoolFull.get_error_kind(), ErrorKind::RateLimited);
    assert_eq!(
        AuthError::GetAuthInfo(upstream(ErrorKind::Service)).get_error_kind(),
        ErrorKind::Service
    );
    assert_eq!(AuthError::JwtRejected("expired".to_string()).to_string_client(), "expired");
    assert_eq!(
        AuthError::TooManyConnections.to_string_client(),
        "Too many connections to this endpoint. Please try again later."
    );
}

#[test]
fn the_failure_to_resolve() {
    let e = IoFailure::no_addresses();
    assert_eq!(e.kind, IoErrorKind::InvalidInput);
    assert_eq!(e.message, "could not resolve any addresses");
    let t = IoFailure::timed_out("deadline has elapsed".to_string());
    assert_eq!(t.kind, IoErrorKind::TimedOut);
}
