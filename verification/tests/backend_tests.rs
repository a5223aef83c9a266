use serverless_backend::auth::{AuthBackend, AuthenticationConfig};
use serverless_backend::backend::{
    Attempt, ComputeConfig, ComputeStart, HyperMechanism, LocalProxyStart, PoolingBackend,
    ProxyConfig, TokioMechanism,
};
use serverless_backend::conn_pool::{PoolConfig, ReleaseOutcome};
use serverless_backend::error::{
    ErrorKind, HttpConnError, IoErrorKind, IoFailure, LocalProxyConnError, PgConnectError,
};
use serverless_backend::http2_connect::{Http2Action, Http2Event, Http2Phase};
use serverless_backend::local_connect::LocalConnState;
use serverless_backend::locks::ApiLocks;
use serverless_backend::retry::{DriverAction, DriverEvent, DriverState, RetryConfig};
use serverless_backend::types::{
    AuthKeys, ComputeCredentialKeys, ComputeCredentials, ComputeUserInfo, ConnInfo, EndpointId,
    IpAddress, NodeConnInfo, SslMode,
};
use serverless_backend::wake::{NodeInfo, WakeAction, WakeCache, WakeCompute, WakeEvent};
use serverless_backend::types::MetricsAuxInfo;

fn user(endpoint: &str) -> ComputeUserInfo {
    ComputeUserInfo {
        user: "u".to_string(),
        endpoint: EndpointId::from(endpoint.to_string()),
        options: Vec::new(),
    }
}

fn key(endpoint: &str) -> ConnInfo {
    ConnInfo::new(user(endpoint), "main".to_string())
}

fn creds(endpoint: &str, keys: ComputeCredentialKeys) -> ComputeCredentials {
    ComputeCredentials { info: user(endpoint), keys }
}

fn backend(auth_backend: AuthBackend) -> PoolingBackend<u32, u32> {
    PoolingBackend::new(
        ProxyConfig {
            authentication_config: AuthenticationConfig {
                ip_allowlist_check_enabled: true,
                is_vpc_access_proxy: false,
                rate_limit_before_role_secret: true,
            },
            wake_compute_retry_config: RetryConfig {
                max_attempts: 3,
                base_delay_ms: 100,
                multiplier: 2,
                max_delay_ms: 1000,
                jitter_ms: 0,
            },
            connect_to_compute: ComputeConfig { timeout_ms: 2000 },
        },
        auth_backend,
        PoolConfig { max_conns: 10, max_conns_per_endpoint: 5, idle_ttl: 100, gc_horizon: 1000 },
        100,
    )
}

fn node(host: &str, host_addr: Option<IpAddress>, ssl_mode: SslMode) -> NodeInfo {
    NodeInfo {
        conn_info: NodeConnInfo { host: host.to_string(), host_addr, port: 5432, ssl_mode },
        aux: MetricsAuxInfo {
            endpoint_id: "ep1".to_string(),
            branch_id: "br1".to_string(),
            compute_id: "c1".to_string(),
        },
    }
}

#[test]
fn a_miss_wakes_once_connects_once_and_the_next_request_hits_the_pool() {
    let mut b = backend(AuthBackend::ControlPlane);
    let mut cache = WakeCache::new();
    let mut locks = ApiLocks::new(4);
    let mut wake_calls = 0;
    let mut connects = 0;

    let (start, closed) = b.connect_to_compute(
        key("ep1"),
        creds("ep1", ComputeCredentialKeys::AuthKeys(AuthKeys { client_key: [1; 32], server_key: [2; 32] })),
        false,
        0,
    );
    assert!(closed.is_empty());
    let (mechanism, wake_for, mut driver) = match start {
        ComputeStart::Open { mechanism, wake_for, driver } => (mechanism, wake_for, driver),
        ComputeStart::Reuse(_) => panic!("the pool is empty"),
    };
    assert!(wake_for.same(&user("ep1")));
    assert_eq!(uuid::Uuid::from_u128(mechanism.conn_id).get_version_num(), 4);

    assert!(matches!(driver.step::<HttpConnError>(DriverEvent::Begin, 0), DriverAction::Wake));
    let mut wake = WakeCompute::new(wake_for.endpoint.as_str().to_string());
    assert!(matches!(wake.step(&mut cache, WakeEvent::Begin), WakeAction::AcquirePermit));
    assert!(matches!(wake.step(&mut cache, WakeEvent::PermitAcquired), WakeAction::CallControlPlane));
    wake_calls += 1;
    let woken = match wake.step(&mut cache, WakeEvent::Answered(Ok(node("compute-1", None, SslMode::Require)))) {
        WakeAction::Ready { node, .. } => node,
        _ => panic!("the compute woke"),
    };
    assert!(matches!(driver.step::<HttpConnError>(DriverEvent::Woken(Ok(())), 0), DriverAction::Connect));

    let (permit, plan) = match mechanism.prepare(&mut locks, &woken.node.conn_info, &b.config.connect_to_compute) {
        Attempt::Go { permit, plan } => (permit, plan),
        Attempt::Wait => panic!("permits are free"),
    };
    assert_eq!(plan.host, "compute-1");
    assert_eq!(plan.port, 5432);
    assert_eq!(plan.ssl_mode, SslMode::Require);
    assert_eq!(plan.user, "u");
    assert_eq!(plan.dbname, "main");
    assert_eq!(plan.connect_timeout_ms, 2000);
    assert_eq!(plan.auth_keys.map(|k| k.client_key), Some([1u8; 32]));
    connects += 1;
    let (client, kept) = match mechanism.connect_once(&mut locks, permit, Ok(500u32), 1) {
        Ok(pair) => pair,
        Err(_) => panic!("the session opened"),
    };
    assert_eq!(locks.held("compute-1"), 1);
    assert!(matches!(driver.step::<HttpConnError>(DriverEvent::ConnectEnded(Ok(())), 0), DriverAction::Done));
    assert_eq!(driver.state, DriverState::Done);
    assert_eq!(client.inner, 500);
    assert_eq!(client.conn_id, mechanism.conn_id);

    // the request is done: the session goes to the pool under its key
    locks.release(kept);
    assert!(matches!(b.pool.release(client, false, 2), ReleaseOutcome::Pooled));
    assert_eq!(b.pool.endpoint_len(&"ep1".to_string()), 1);

    // the second request with the same key hits the pool: no wake, no connect
    let (start, _) = b.connect_to_compute(key("ep1"), creds("ep1", ComputeCredentialKeys::NoKeys), false, 3);
    match start {
        ComputeStart::Reuse(c) => {
            assert_eq!(c.inner, 500);
            assert_eq!(c.conn_id, mechanism.conn_id);
        }
        ComputeStart::Open { .. } => panic!("the pool had the session"),
    }
    assert_eq!(wake_calls, 1);
    assert_eq!(connects, 1);
}

#[test]
fn force_new_leaves_the_pool_alone() {
    let mut b = backend(AuthBackend::ControlPlane);
    let c = serverless_backend::conn_pool::PooledClient::new(1u32, 1, key("ep1"), 0);
    let _ = b.pool.release(c, false, 0);
    let (start, closed) = b.connect_to_compute(key("ep1"), creds("ep1", ComputeCredentialKeys::NoKeys), true, 0);
    assert!(matches!(start, ComputeStart::Open { .. }));
    assert!(closed.is_empty());
    assert_eq!(b.pool.len(), 1);
}

#[test]
fn a_db_error_on_connect_surfaces_and_gives_the_permit_back() {
    let mut locks = ApiLocks::new(1);
    let mechanism = TokioMechanism { conn_info: key("ep1"), conn_id: 9, keys: ComputeCredentialKeys::NoKeys };
    let target = node("compute-1", None, SslMode::Disable);
    let permit = match mechanism.prepare(&mut locks, &target.conn_info, &ComputeConfig { timeout_ms: 5 }) {
        Attempt::Go { permit, plan } => {
            assert!(plan.auth_keys.is_none());
            permit
        }
        Attempt::Wait => panic!("a permit is free"),
    };
    assert!(matches!(
        mechanism.prepare(&mut locks, &target.conn_info, &ComputeConfig { timeout_ms: 5 }),
        Attempt::Wait
    ));
    let failure = PgConnectError {
        message: "db error: role does not exist".to_string(),
        db_error: Some("role does not exist".to_string()),
    };
    let error = match mechanism.connect_once::<u32>(&mut locks, permit, Err(failure), 0) {
        Err(e) => e,
        Ok(_) => panic!("the server refused"),
    };
    assert_eq!(locks.held("compute-1"), 0);
    assert_eq!(error.get_error_kind(), ErrorKind::Postgres);
    let mut driver = serverless_backend::retry::ConnectDriver::new(RetryConfig {
        max_attempts: 5,
        base_delay_ms: 1,
        multiplier: 2,
        max_delay_ms: 10,
        jitter_ms: 0,
    });
    let _ = driver.step::<HttpConnError>(DriverEvent::Begin, 0);
    let _ = driver.step::<HttpConnError>(DriverEvent::Woken(Ok(())), 0);
    match driver.step(DriverEvent::ConnectEnded(Err(error)), 0) {
        DriverAction::Fail(e) => assert_eq!(e.to_string_client(), "db error: role does not exist"),
        _ => panic!("no retry and no new wake"),
    }
    assert_eq!(driver.attempts, 1);
}

#[test]
fn the_local_proxy_is_woken_under_the_suffixed_endpoint() {
    let mut b = backend(AuthBackend::ControlPlane);
    let mut locks = ApiLocks::new(4);
    let (mechanism, wake_for) = match b.connect_to_local_proxy(key("EP1-")) {
        LocalProxyStart::Open { mechanism, wake_for, .. } => (mechanism, wake_for),
        LocalProxyStart::Reuse(_) => panic!("the pool is empty"),
    };
    assert_eq!(wake_for.endpoint.as_str(), "ep1-local");
    assert_eq!(wake_for.user, "u");
    let target = node("compute-1", Some(IpAddress::V4(0x0a00_0001)), SslMode::Disable);
    let (permit, mut plan) = match mechanism.prepare(&mut locks, &target.conn_info, &b.config.connect_to_compute) {
        Attempt::Go { permit, plan } => (permit, plan),
        Attempt::Wait => panic!("permits are free"),
    };
    assert_eq!(plan.phase, Http2Phase::Start);
    assert!(!plan.tls);
    assert_eq!(plan.timeout_ms, 2000);
    assert!(matches!(plan.step(Http2Event::Begin), Http2Action::TryConnect { .. }));
    let (conn_id, _kept) = match mechanism.connect_once(&mut locks, &mut b.http_conn_pool, permit, Ok(7u32)) {
        Ok((conn_id, kept, unpooled)) => {
            assert!(unpooled.is_none());
            (conn_id, kept)
        }
        Err(_) => panic!("the connection was made"),
    };
    assert_eq!(conn_id, mechanism.conn_id);
    assert_eq!(b.http_conn_pool.streams("EP1-", conn_id), Some(1));
    // the next request shares the connection
    match b.connect_to_local_proxy(key("EP1-")) {
        LocalProxyStart::Reuse(id) => assert_eq!(id, conn_id),
        LocalProxyStart::Open { .. } => panic!("the connection has streams to spare"),
    }
    assert_eq!(b.http_conn_pool.streams("EP1-", conn_id), Some(2));
}

#[test]
fn a_failed_local_proxy_connect_is_a_compute_error_and_frees_the_permit() {
    let mut locks = ApiLocks::new(4);
    let mut pool = serverless_backend::http_conn_pool::HttpConnPool::<u32>::new(10, 5, 10);
    let mechanism = HyperMechanism { conn_info: key("ep1"), conn_id: 3 };
    let target = node("compute-1", None, SslMode::Require);
    let (permit, plan) = match mechanism.prepare(&mut locks, &target.conn_info, &ComputeConfig { timeout_ms: 1 }) {
        Attempt::Go { permit, plan } => (permit, plan),
        Attempt::Wait => panic!("permits are free"),
    };
    assert!(plan.tls);
    assert!(plan.host_addr.is_none());
    let failure = LocalProxyConnError::Io(IoFailure::new(IoErrorKind::ConnectionRefused, "refused".to_string()));
    let error = match mechanism.connect_once(&mut locks, &mut pool, permit, Err(failure)) {
        Err(e) => e,
        Ok(_) => panic!("the connect failed"),
    };
    assert_eq!(error.get_error_kind(), ErrorKind::Compute);
    assert_eq!(error.to_string_client(), "Could not establish HTTP connection to the database");
    assert_eq!(locks.held("compute-1"), 0);
    assert_eq!(pool.len(), 0);
}

#[test]
fn authentications_start_from_the_backends_configuration() {
    let b = backend(AuthBackend::Local);
    let p = b.authenticate_with_password(&user("ep1"), IpAddress::V4(1));
    assert!(p.config.ip_allowlist_check_enabled);
    assert!(p.user_info.same(&user("ep1")));
    let j = b.authenticate_with_jwt(&user("ep1"), "a.b.c".to_string());
    assert_eq!(j.jwt, "a.b.c");
    assert_eq!(j.backend, AuthBackend::Local);
    let l = b.connect_to_local_postgres(key("ep1"));
    assert_eq!(l.state, LocalConnState::Start);
}
