use serverless_backend::error::{CouldRetry};
use serverless_backend::error::{ErrorKind, HttpConnError, IoErrorKind, IoFailure, LocalProxyConnError};
use serverless_backend::http2_connect::{
    ConnectOutcome, Http2Action, Http2Connect, Http2Event, Http2Phase, Http2Settings,
};
use serverless_backend::types::{IpAddress, SocketAddress};

fn addr(last: u32, port: u16) -> SocketAddress {
    SocketAddress { ip: IpAddress::V4(0x0a00_0000 + last), port }
}

fn refused() -> IoFailure {
    IoFailure::new(IoErrorKind::ConnectionRefused, "connection refused".to_string())
}

fn expect_try(action: Http2Action, want: SocketAddress, timeout_ms: u64) {
    match action {
        Http2Action::TryConnect { addr, timeout_ms: t } => {
            assert_eq!(addr.ip, want.ip);
            assert_eq!(addr.port, want.port);
            assert_eq!(t, timeout_ms);
        }
        _ => panic!("a connect attempt was due"),
    }
}

fn expect_io_failure(action: Http2Action, kind: IoErrorKind, message: &str) -> HttpConnError {
    match action {
        Http2Action::Fail(LocalProxyConnError::Io(e)) => {
            assert_eq!(e.kind, kind);
            assert_eq!(e.message, message);
            HttpConnError::LocalProxyConnectionError(LocalProxyConnError::Io(e))
        }
        _ => panic!("a transport failure was due"),
    }
}

#[test]
fn with_a_host_addr_dns_is_never_asked() {
    let ip = IpAddress::V4(0x7f00_0001);
    let mut m = Http2Connect::new(Some(ip), "compute.local".to_string(), 8080, 2000, false);
    expect_try(m.step(Http2Event::Begin), SocketAddress { ip, port: 8080 }, 2000);
    assert!(matches!(m.step(Http2Event::ConnectEnded(ConnectOutcome::Connected)), Http2Action::SetNoDelay));
    match m.step(Http2Event::NoDelaySet(Ok(()))) {
        Http2Action::H2Handshake(s) => assert_eq!(
            s,
            Http2Settings {
                keep_alive_interval_secs: 20,
                keep_alive_timeout_secs: 5,
                keep_alive_while_idle: true
            }
        ),
        _ => panic!("the handshake was due"),
    }
    assert!(matches!(m.step(Http2Event::H2Done(Ok(()))), Http2Action::Ready));
    assert_eq!(m.phase, Http2Phase::Done);
}

#[test]
fn a_refused_host_addr_fails_once_with_a_compute_error() {
    let ip = IpAddress::V4(0x7f00_0001);
    let mut m = Http2Connect::new(Some(ip), "compute.local".to_string(), 8080, 2000, true);
    expect_try(m.step(Http2Event::Begin), SocketAddress { ip, port: 8080 }, 2000);
    let action = m.step(Http2Event::ConnectEnded(ConnectOutcome::Failed(refused())));
    let error = expect_io_failure(action, IoErrorKind::ConnectionRefused, "connection refused");
    assert_eq!(m.phase, Http2Phase::Failed);
    assert_eq!(m.tried, 1);
    assert_eq!(error.get_error_kind(), ErrorKind::Compute);
    assert!(!error.could_retry());
    // nothing more is tried after the failure
    assert!(matches!(
        m.step(Http2Event::ConnectEnded(ConnectOutcome::Connected)),
        Http2Action::Unexpected
    ));
}

#[test]
fn no_addresses_from_dns_is_an_invalid_input() {
    let mut m = Http2Connect::new(None, "compute.local".to_string(), 8080, 2000, false);
    match m.step(Http2Event::Begin) {
        Http2Action::ResolveDns { host, port } => {
            assert_eq!(host, "compute.local");
            assert_eq!(port, 8080);
        }
        _ => panic!("the name had to be resolved"),
    }
    let action = m.step(Http2Event::Resolved(Ok(Vec::new())));
    expect_io_failure(action, IoErrorKind::InvalidInput, "could not resolve any addresses");
    assert_eq!(m.phase, Http2Phase::Failed);
}

#[test]
fn a_failure_to_resolve_is_passed_on() {
    let mut m = Http2Connect::new(None, "compute.local".to_string(), 8080, 2000, false);
    let _ = m.step(Http2Event::Begin);
    let failure = IoFailure::new(IoErrorKind::Other, "no such host".to_string());
    let action = m.step(Http2Event::Resolved(Err(failure)));
    expect_io_failure(action, IoErrorKind::Other, "no such host");
}

#[test]
fn a_timeout_on_the_first_address_leads_to_the_second() {
    let mut m = Http2Connect::new(None, "compute.local".to_string(), 8080, 2000, false);
    let _ = m.step(Http2Event::Begin);
    let addrs = vec![addr(1, 8080), addr(2, 8080)];
    expect_try(m.step(Http2Event::Resolved(Ok(addrs))), addr(1, 8080), 2000);
    let timed_out = ConnectOutcome::TimedOut("deadline has elapsed".to_string());
    expect_try(m.step(Http2Event::ConnectEnded(timed_out)), addr(2, 8080), 2000);
    assert_eq!(m.last_err.as_ref().map(|e| e.kind), Some(IoErrorKind::TimedOut));
    assert!(matches!(
        m.step(Http2Event::ConnectEnded(ConnectOutcome::Connected)),
        Http2Action::SetNoDelay
    ));
    assert!(matches!(m.step(Http2Event::NoDelaySet(Ok(()))), Http2Action::H2Handshake(_)));
    assert!(matches!(m.step(Http2Event::H2Done(Ok(()))), Http2Action::Ready));
}

#[test]
fn when_every_address_fails_the_last_failure_is_reported() {
    let mut m = Http2Connect::new(None, "compute.local".to_string(), 8080, 500, false);
    let _ = m.step(Http2Event::Begin);
    let addrs = vec![addr(1, 8080), addr(2, 8080), addr(3, 8080)];
    expect_try(m.step(Http2Event::Resolved(Ok(addrs))), addr(1, 8080), 500);
    expect_try(
        m.step(Http2Event::ConnectEnded(ConnectOutcome::Failed(refused()))),
        addr(2, 8080),
        500,
    );
    expect_try(
        m.step(Http2Event::ConnectEnded(ConnectOutcome::TimedOut("slow".to_string()))),
        addr(3, 8080),
        500,
    );
    let last = IoFailure::new(IoErrorKind::Other, "unreachable".to_string());
    let action = m.step(Http2Event::ConnectEnded(ConnectOutcome::Failed(last)));
    expect_io_failure(action, IoErrorKind::Other, "unreachable");
}

#[test]
fn a_timeout_on_the_only_address_is_a_timed_out_failure() {
    let ip = IpAddress::V6(1);
    let mut m = Http2Connect::new(Some(ip), "h".to_string(), 1, 10, false);
    let _ = m.step(Http2Event::Begin);
    let action = m.step(Http2Event::ConnectEnded(ConnectOutcome::TimedOut("deadline has elapsed".to_string())));
    expect_io_failure(action, IoErrorKind::TimedOut, "deadline has elapsed");
}

#[test]
fn tls_comes_between_the_stream_and_the_handshake() {
    let ip = IpAddress::V4(1);
    let mut m = Http2Connect::new(Some(ip), "compute.local".to_string(), 443, 2000, true);
    let _ = m.step(Http2Event::Begin);
    let _ = m.step(Http2Event::ConnectEnded(ConnectOutcome::Connected));
    match m.step(Http2Event::NoDelaySet(Ok(()))) {
        Http2Action::TlsHandshake { server_name } => assert_eq!(server_name, "compute.local"),
        _ => panic!("tls was due"),
    }
    assert!(matches!(m.step(Http2Event::TlsDone(Ok(()))), Http2Action::H2Handshake(_)));
    match m.step(Http2Event::H2Done(Err("protocol error".to_string()))) {
        Http2Action::Fail(LocalProxyConnError::H2(m)) => assert_eq!(m, "protocol error"),
        _ => panic!("the handshake failed"),
    }
}

#[test]
fn failures_after_the_stream_opened_end_the_attempt() {
    let ip = IpAddress::V4(1);
    let mut m = Http2Connect::new(Some(ip), "h".to_string(), 443, 2000, true);
    let _ = m.step(Http2Event::Begin);
    let _ = m.step(Http2Event::ConnectEnded(ConnectOutcome::Connected));
    let e = IoFailure::new(IoErrorKind::Other, "nodelay".to_string());
    expect_io_failure(m.step(Http2Event::NoDelaySet(Err(e))), IoErrorKind::Other, "nodelay");

    let mut m = Http2Connect::new(Some(ip), "h".to_string(), 443, 2000, true);
    let _ = m.step(Http2Event::Begin);
    let _ = m.step(Http2Event::ConnectEnded(ConnectOutcome::Connected));
    let _ = m.step(Http2Event::NoDelaySet(Ok(())));
    let e = IoFailure::new(IoErrorKind::Other, "bad certificate".to_string());
    expect_io_failure(m.step(Http2Event::TlsDone(Err(e))), IoErrorKind::Other, "bad certificate");
}

#[test]
fn http2_events_out_of_turn_change_nothing() {
    let mut m = Http2Connect::new(None, "h".to_string(), 1, 1, false);
    assert!(matches!(m.step(Http2Event::H2Done(Ok(()))), Http2Action::Unexpected));
    assert_eq!(m.phase, Http2Phase::Start);
    let _ = m.step(Http2Event::Begin);
    assert!(matches!(m.step(Http2Event::Begin), Http2Action::Unexpected));
    assert_eq!(m.phase, Http2Phase::Resolving);
}

#[test]
fn tls_needs_a_dns_name_to_check_the_certificate_against() {
    let ip = IpAddress::V4(1);
    let mut m = Http2Connect::new(Some(ip), "not a dns name".to_string(), 443, 2000, true);
    let _ = m.step(Http2Event::Begin);
    let _ = m.step(Http2Event::ConnectEnded(ConnectOutcome::Connected));
    expect_io_failure(m.step(Http2Event::NoDelaySet(Ok(()))), IoErrorKind::Other, "invalid dns name");
    assert_eq!(m.phase, Http2Phase::Failed);
    // without tls the host is not looked at
    let mut m = Http2Connect::new(Some(ip), "not a dns name".to_string(), 80, 2000, false);
    let _ = m.step(Http2Event::Begin);
    let _ = m.step(Http2Event::ConnectEnded(ConnectOutcome::Connected));
    assert!(matches!(m.step(Http2Event::NoDelaySet(Ok(()))), Http2Action::H2Handshake(_)));
}
