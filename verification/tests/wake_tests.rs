use serverless_backend::error::{CouldRetry};
use serverless_backend::error::{ErrorKind, HttpConnError, UpstreamError};
use serverless_backend::types::{IpAddress, MetricsAuxInfo, NodeConnInfo, SslMode};
use serverless_backend::wake::{
    NodeInfo, WakeAction, WakeCache, WakeCompute, WakeEvent, WakeState,
};

fn node(host: &str) -> NodeInfo {
    NodeInfo {
        conn_info: NodeConnInfo {
            host: host.to_string(),
            host_addr: Some(IpAddress::V4(0x0a00_0001)),
            port: 5432,
            ssl_mode: SslMode::Require,
        },
        aux: MetricsAuxInfo {
            endpoint_id: "ep1".to_string(),
            branch_id: "br1".to_string(),
            compute_id: "c1".to_string(),
        },
    }
}

#[test]
fn the_cache_hands_out_what_was_filed() {
    let mut cache = WakeCache::new();
    assert!(cache.lookup("ep1").is_none());
    let filed = cache.insert("ep1", node("host-a"));
    assert_eq!(filed.node.conn_info.host, "host-a");
    let found = cache.lookup("ep1").unwrap();
    assert_eq!(found.node.conn_info.host, "host-a");
    assert_eq!(found.node.conn_info.port, 5432);
    assert_eq!(found.node.conn_info.ssl_mode, SslMode::Require);
    assert_eq!(found.node.aux.compute_id, "c1");
    assert_eq!(found.cache_entry.stamp, filed.cache_entry.stamp);
    assert!(cache.lookup("ep2").is_none());
}

#[test]
fn invalidate_drops_the_very_entry_and_no_newer_one() {
    let mut cache = WakeCache::new();
    let first = cache.insert("ep1", node("host-a"));
    let second = cache.insert("ep1", node("host-b"));
    assert!(!cache.invalidate(&first.cache_entry));
    assert_eq!(cache.lookup("ep1").unwrap().node.conn_info.host, "host-b");
    assert!(cache.invalidate(&second.cache_entry));
    assert!(cache.lookup("ep1").is_none());
    assert!(!cache.invalidate(&second.cache_entry));
}

#[test]
fn a_miss_asks_the_control_plane_under_the_permit() {
    let mut cache = WakeCache::new();
    let mut w = WakeCompute::new("ep1".to_string());
    assert!(matches!(w.step(&mut cache, WakeEvent::Begin), WakeAction::AcquirePermit));
    assert!(matches!(w.step(&mut cache, WakeEvent::PermitAcquired), WakeAction::CallControlPlane));
    match w.step(&mut cache, WakeEvent::Answered(Ok(node("host-a")))) {
        WakeAction::Ready { node, release_permit } => {
            assert!(release_permit);
            assert_eq!(node.node.conn_info.host, "host-a");
            assert_eq!(node.cache_entry.endpoint, "ep1");
        }
        _ => panic!("the address was due"),
    }
    assert_eq!(w.state, WakeState::Done);
    // the next request hits the cache and asks nobody
    let mut next = WakeCompute::new("ep1".to_string());
    match next.step(&mut cache, WakeEvent::Begin) {
        WakeAction::Ready { node, release_permit } => {
            assert!(!release_permit);
            assert_eq!(node.node.conn_info.host, "host-a");
        }
        _ => panic!("a hit was due"),
    }
}

#[test]
fn concurrent_misses_lead_to_one_call() {
    let mut cache = WakeCache::new();
    let mut a = WakeCompute::new("ep1".to_string());
    let mut b = WakeCompute::new("ep1".to_string());
    let mut calls = 0;
    assert!(matches!(a.step(&mut cache, WakeEvent::Begin), WakeAction::AcquirePermit));
    assert!(matches!(b.step(&mut cache, WakeEvent::Begin), WakeAction::AcquirePermit));
    // a gets the permit first; b waits for it
    if let WakeAction::CallControlPlane = a.step(&mut cache, WakeEvent::PermitAcquired) {
        calls += 1;
    }
    assert!(matches!(
        a.step(&mut cache, WakeEvent::Answered(Ok(node("host-a")))),
        WakeAction::Ready { release_permit: true, .. }
    ));
    match b.step(&mut cache, WakeEvent::PermitAcquired) {
        WakeAction::CallControlPlane => calls += 1,
        WakeAction::Ready { node, release_permit } => {
            assert!(release_permit);
            assert_eq!(node.node.conn_info.host, "host-a");
        }
        _ => panic!("b either asks or finds"),
    }
    assert_eq!(calls, 1);
}

#[test]
fn a_permit_timeout_is_too_many_connection_attempts() {
    let mut cache = WakeCache::new();
    let mut w = WakeCompute::new("ep1".to_string());
    let _ = w.step(&mut cache, WakeEvent::Begin);
    match w.step(&mut cache, WakeEvent::PermitTimeout("timed out".to_string())) {
        WakeAction::Fail { error, release_permit } => {
            assert!(!release_permit);
            assert!(matches!(error, HttpConnError::TooManyConnectionAttempts(_)));
            assert!(!error.could_retry());
        }
        _ => panic!("the failure was due"),
    }
    assert_eq!(w.state, WakeState::Failed);
}

#[test]
fn a_failed_answer_gives_the_permit_back_and_files_nothing() {
    let mut cache = WakeCache::new();
    let mut w = WakeCompute::new("ep1".to_string());
    let _ = w.step(&mut cache, WakeEvent::Begin);
    let _ = w.step(&mut cache, WakeEvent::PermitAcquired);
    let e = UpstreamError {
        kind: ErrorKind::Service,
        message: "500".to_string(),
        client_message: "control plane is down".to_string(),
    };
    match w.step(&mut cache, WakeEvent::Answered(Err(e))) {
        WakeAction::Fail { error, release_permit } => {
            assert!(release_permit);
            assert_eq!(error.to_string_client(), "control plane is down");
            assert_eq!(error.get_error_kind(), ErrorKind::Service);
        }
        _ => panic!("the failure was due"),
    }
    assert!(cache.lookup("ep1").is_none());
}
