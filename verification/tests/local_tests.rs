use serverless_backend::conn_pool::{PoolConfig, PooledClient, ReleaseOutcome};
use serverless_backend::error::{ErrorKind, HttpConnError, PgConnectError};
use serverless_backend::jwk::{create_random_jwk, public_jwk, session_options, OkpCurve, SigningKeyPair};
use serverless_backend::local_conn_pool::{
    connect_request, ext_name, ext_schema, ext_version, grant_request, install_request,
    session_init_sql, LocalConnPool, LocalSession, Privilege,
};
use serverless_backend::local_connect::{
    LocalAction, LocalConnState, LocalConnect, LocalEvent,
};
use serverless_backend::types::{ComputeUserInfo, ConnInfo, EndpointId};

fn key(db: &str, user: &str) -> ConnInfo {
    ConnInfo::new(
        ComputeUserInfo {
            user: user.to_string(),
            endpoint: EndpointId::from("ep1".to_string()),
            options: Vec::new(),
        },
        db.to_string(),
    )
}

fn pool() -> LocalConnPool<u32> {
    LocalConnPool::new(PoolConfig {
        max_conns: 10,
        max_conns_per_endpoint: 10,
        idle_ttl: 100,
        gc_horizon: 1000,
    })
}

#[test]
fn the_requests_to_the_control_daemon() {
    assert_eq!(ext_name(), "pg_session_jwt");
    assert_eq!(ext_version(), "0.3.1");
    assert_eq!(ext_schema(), "auth");
    assert_eq!(session_init_sql(), "select auth.init();");
    let k = key("main", "alice");
    let install = install_request(&k);
    assert_eq!(install.extension, "pg_session_jwt");
    assert_eq!(install.version, "0.3.1");
    assert_eq!(install.database, "main");
    let grant = grant_request(&k);
    assert_eq!(grant.schema, "auth");
    assert_eq!(grant.privileges, vec![Privilege::Usage]);
    assert_eq!(grant.database, "main");
    assert_eq!(grant.role, "alice");
    let connect = connect_request(&k, 42, "{\"kty\":\"OKP\"}");
    assert_eq!(connect.user, "alice");
    assert_eq!(connect.dbname, "main");
    assert_eq!(connect.options, "-c pg_session_jwt.jwk={\"kty\":\"OKP\"}");
    assert_eq!(connect.conn_id, 42);
    assert_eq!(session_options("x"), "-c pg_session_jwt.jwk=x");
}

#[test]
fn a_random_jwk_publishes_the_public_half_of_its_key() {
    let (pair, jwk) = create_random_jwk();
    assert_eq!(jwk.crv, OkpCurve::Ed25519);
    assert_eq!(jwk.x, pair.public.to_vec());
    assert!(jwk.d.is_none());
    let signing = ed25519_dalek::SigningKey::from_bytes(&pair.secret);
    assert_eq!(signing.verifying_key().to_bytes(), pair.public);
    let (other, _) = create_random_jwk();
    assert_ne!(other.secret, pair.secret);
    let fixed = SigningKeyPair { secret: [7u8; 32], public: [9u8; 32] };
    assert_eq!(public_jwk(&fixed).x, vec![9u8; 32]);
}

fn expect_connect(action: LocalAction<u32>, release: bool) -> (String, u128) {
    match action {
        LocalAction::Connect { request, release_permit } => {
            assert_eq!(release_permit, release);
            assert_eq!(request.user, "alice");
            assert_eq!(request.dbname, "main");
            (request.options, request.conn_id)
        }
        _ => panic!("a connect was due"),
    }
}

#[test]
fn the_first_request_sets_up_and_connects() {
    let mut p = pool();
    let mut r = LocalConnect::new(key("main", "alice"));
    assert!(matches!(r.step(&mut p, LocalEvent::Begin, 0).action, LocalAction::AcquirePermit));
    match r.step(&mut p, LocalEvent::PermitAcquired, 0).action {
        LocalAction::InstallExtension(req) => {
            assert_eq!(req.extension, "pg_session_jwt");
            assert_eq!(req.database, "main");
        }
        _ => panic!("the install was due"),
    }
    assert!(!p.initialized(&key("main", "alice")));
    match r.step(&mut p, LocalEvent::InstallDone(Ok(())), 0).action {
        LocalAction::GrantRole(req) => {
            assert_eq!(req.role, "alice");
            assert_eq!(req.privileges, vec![Privilege::Usage]);
        }
        _ => panic!("the grant was due"),
    }
    assert!(!p.initialized(&key("main", "alice")));
    let (options, conn_id) = expect_connect(r.step(&mut p, LocalEvent::GrantDone(Ok(())), 0).action, true);
    assert!(p.initialized(&key("main", "alice")));
    assert!(!p.initialized(&key("other", "alice")));
    assert_eq!(r.state, LocalConnState::Connecting);

    // the options bind the public half of the request's own key, as a JWK
    let json = options.strip_prefix("-c pg_session_jwt.jwk=").expect("the option names the jwk");
    let pair = r.key.expect("the request has its key");
    match serde_json::from_str::<jose_jwk::Key>(json).expect("the jwk is json") {
        jose_jwk::Key::Okp(okp) => {
            assert_eq!(okp.crv, jose_jwk::OkpCurves::Ed25519);
            assert_eq!(&okp.x[..], &pair.public[..]);
            assert!(okp.d.is_none());
        }
        _ => panic!("an octet key pair was due"),
    }
    let value: serde_json::Value = serde_json::from_str(json).unwrap();
    assert_eq!(value.get("kty").and_then(|v| v.as_str()), Some("OKP"));
    assert_eq!(value.get("crv").and_then(|v| v.as_str()), Some("Ed25519"));
    assert!(value.get("d").is_none());
    assert_eq!(
        ed25519_dalek::SigningKey::from_bytes(&pair.secret).verifying_key().to_bytes(),
        pair.public
    );
    assert_eq!(uuid::Uuid::from_u128(conn_id).get_version_num(), 4);
    assert_eq!(r.conn_id, conn_id);

    match r.step(&mut p, LocalEvent::Connected(Ok(())), 0).action {
        LocalAction::InitSession { sql } => assert_eq!(sql, "select auth.init();"),
        _ => panic!("the session setup was due"),
    }
    match r.step(&mut p, LocalEvent::SessionReady(Ok(())), 0).action {
        LocalAction::Ready { conn_id: id, key } => {
            assert_eq!(id, conn_id);
            assert_eq!(key.secret, pair.secret);
        }
        _ => panic!("the session was ready"),
    }
    assert_eq!(r.state, LocalConnState::Done);
}

#[test]
fn two_requests_at_once_set_up_once() {
    let mut p = pool();
    let mut a = LocalConnect::new(key("main", "alice"));
    let mut b = LocalConnect::new(key("main", "alice"));
    let mut installs = 0;
    let mut grants = 0;
    assert!(matches!(a.step(&mut p, LocalEvent::Begin, 0).action, LocalAction::AcquirePermit));
    assert!(matches!(b.step(&mut p, LocalEvent::Begin, 0).action, LocalAction::AcquirePermit));
    // the permit goes to a; b waits
    if let LocalAction::InstallExtension(_) = a.step(&mut p, LocalEvent::PermitAcquired, 0).action {
        installs += 1;
    }
    if let LocalAction::GrantRole(_) = a.step(&mut p, LocalEvent::InstallDone(Ok(())), 0).action {
        grants += 1;
    }
    expect_connect(a.step(&mut p, LocalEvent::GrantDone(Ok(())), 0).action, true);
    assert!(p.initialized(&key("main", "alice")));
    // now b gets the permit, finds the work done, and connects
    match b.step(&mut p, LocalEvent::PermitAcquired, 0).action {
        LocalAction::InstallExtension(_) => installs += 1,
        LocalAction::Connect { release_permit, .. } => assert!(release_permit),
        _ => panic!("b installs or connects"),
    }
    assert_eq!(installs, 1);
    assert_eq!(grants, 1);
    assert_eq!(a.state, LocalConnState::Connecting);
    assert_eq!(b.state, LocalConnState::Connecting);
    assert_ne!(a.key.unwrap().secret, b.key.unwrap().secret);
    // a later request does not even ask for the permit
    let mut c = LocalConnect::new(key("main", "alice"));
    expect_connect(c.step(&mut p, LocalEvent::Begin, 0).action, false);
}

#[test]
fn a_failed_setup_leaves_the_key_unmarked() {
    let mut p = pool();
    let mut r = LocalConnect::new(key("main", "alice"));
    let _ = r.step(&mut p, LocalEvent::Begin, 0);
    let _ = r.step(&mut p, LocalEvent::PermitAcquired, 0);
    match r.step(&mut p, LocalEvent::InstallDone(Err("no such extension".to_string())), 0).action {
        LocalAction::Fail { error, release_permit, discard } => {
            assert!(release_permit);
            assert!(!discard);
            assert_eq!(error.get_error_kind(), ErrorKind::Service);
            assert_eq!(error.message(), "could not install extension: no such extension");
        }
        _ => panic!("the failure was due"),
    }
    assert!(!p.initialized(&key("main", "alice")));
    assert_eq!(r.state, LocalConnState::Failed);

    let mut r = LocalConnect::new(key("main", "alice"));
    let _ = r.step(&mut p, LocalEvent::Begin, 0);
    let _ = r.step(&mut p, LocalEvent::PermitAcquired, 0);
    let _ = r.step(&mut p, LocalEvent::InstallDone(Ok(())), 0);
    assert!(matches!(
        r.step(&mut p, LocalEvent::GrantDone(Err("denied".to_string())), 0).action,
        LocalAction::Fail { error: HttpConnError::ComputeCtl(_), release_permit: true, discard: false }
    ));
    assert!(!p.initialized(&key("main", "alice")));
}

fn pg_error(message: &str) -> PgConnectError {
    PgConnectError { message: message.to_string(), db_error: None }
}

#[test]
fn a_session_whose_setup_fails_is_discarded() {
    let mut p = pool();
    p.set_initialized(&key("main", "alice"));
    let mut r = LocalConnect::new(key("main", "alice"));
    expect_connect(r.step(&mut p, LocalEvent::Begin, 0).action, false);
    let _ = r.step(&mut p, LocalEvent::Connected(Ok(())), 0);
    match r.step(&mut p, LocalEvent::SessionReady(Err(pg_error("auth.init failed"))), 0).action {
        LocalAction::Fail { error, release_permit, discard } => {
            assert!(discard);
            assert!(!release_permit);
            assert_eq!(error.to_string_client(), "auth.init failed");
        }
        _ => panic!("the failure was due"),
    }
    // a failed connect leaves nothing to discard
    let mut r = LocalConnect::new(key("main", "alice"));
    let _ = r.step(&mut p, LocalEvent::Begin, 0);
    assert!(matches!(
        r.step(&mut p, LocalEvent::Connected(Err(pg_error("refused"))), 0).action,
        LocalAction::Fail { discard: false, release_permit: false, .. }
    ));
}

#[test]
fn a_pooled_session_is_reused_with_its_key() {
    let mut p = pool();
    let pair = SigningKeyPair { secret: [1u8; 32], public: [2u8; 32] };
    let session = PooledClient::new(LocalSession { client: 5u32, key: pair }, 77, key("main", "alice"), 0);
    assert!(matches!(p.release(session, false, 1), ReleaseOutcome::Pooled));
    assert_eq!(p.len(), 1);
    let mut r = LocalConnect::new(key("main", "alice"));
    match r.step(&mut p, LocalEvent::Begin, 2).action {
        LocalAction::Reuse(client) => {
            assert_eq!(client.inner.client, 5);
            assert_eq!(client.inner.key.secret, [1u8; 32]);
            assert_eq!(client.conn_id, 77);
        }
        _ => panic!("the pooled session was due"),
    }
    assert_eq!(r.state, LocalConnState::Done);
    assert_eq!(p.len(), 0);
}

#[test]
fn expired_sessions_are_handed_out_for_closing() {
    let mut p = pool();
    p.set_initialized(&key("main", "alice"));
    let pair = SigningKeyPair { secret: [1u8; 32], public: [2u8; 32] };
    let session = PooledClient::new(LocalSession { client: 5u32, key: pair }, 77, key("main", "alice"), 0);
    let _ = p.release(session, false, 0);
    let mut r = LocalConnect::new(key("main", "alice"));
    let step = r.step(&mut p, LocalEvent::Begin, 1000);
    assert_eq!(step.closed.len(), 1);
    assert_eq!(step.closed[0].client.client, 5);
    expect_connect(step.action, false);
    assert_eq!(p.sweep(5000).len(), 0);
}

#[test]
fn local_events_out_of_turn_change_nothing() {
    let mut p = pool();
    let mut r = LocalConnect::new(key("main", "alice"));
    assert!(matches!(r.step(&mut p, LocalEvent::GrantDone(Ok(())), 0).action, LocalAction::Unexpected));
    assert_eq!(r.state, LocalConnState::Start);
    assert!(!p.initialized(&key("main", "alice")));
}
