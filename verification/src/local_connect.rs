//! Getting a session with the local Postgres, step by step. The caller does
//! the waiting (for the permit, the control daemon, the database) and
//! reports each outcome; the steps here decide what is done next.

use vstd::prelude::*;
use crate::conn_pool::{PooledClient, serves};
use crate::error::{HttpConnError, HttpConnErrorView, PgConnectError};
use crate::jwk::{
    create_random_jwk, ed25519_public_key, encode_jwk, is_random_uuid, new_conn_id, okp_jwk_json,
    session_options_spec, OkpCurve, SigningKeyPair,
};
use crate::local_conn_pool::{
    connect_request, grant_request, install_request, session_init_sql, ExtensionInstallRequest,
    LocalConnPool, LocalConnectRequest, LocalSession, Privilege, SetRoleGrantsRequest,
};
use crate::pool::{after_get, get_expired, get_hit, IdleClient};
use crate::text::owned;
use crate::types::{ConnInfo, ConnKey};

verus! {

/// Where a request for a local session stands.
#[derive(Clone, Copy, PartialEq, Eq, Structural, Debug)]
pub enum LocalConnState {
    /// Nothing was done yet.
    Start,
    /// Waiting for the permit that serializes the setup.
    AwaitingPermit,
    /// Holding the permit; the extension is being installed.
    Installing,
    /// Holding the permit; the grant is being made.
    Granting,
    /// The session is being opened.
    Connecting,
    /// The session is open; its authorization state is being set up.
    InitSession,
    /// The request has its session.
    Done,
    /// The request failed.
    Failed,
}

/// What the caller reports.
pub enum LocalEvent {
    /// The request arrived.
    Begin,
    /// The setup permit was granted.
    PermitAcquired,
    /// The install request came back, with the daemon's message on failure.
    InstallDone(Result<(), String>),
    /// The grant request came back, with the daemon's message on failure.
    GrantDone(Result<(), String>),
    /// The connect attempt came back.
    Connected(Result<(), PgConnectError>),
    /// The session setup statement came back.
    SessionReady(Result<(), PgConnectError>),
}

/// The shape of an event, without what it carries.
#[derive(Clone, Copy, PartialEq, Eq, Structural)]
pub enum EventKind {
    Begin,
    PermitAcquired,
    InstallDone(bool),
    GrantDone(bool),
    Connected(bool),
    SessionReady(bool),
}

impl LocalEvent {
    pub open spec fn kind(&self) -> EventKind {
        match self {
            LocalEvent::Begin => EventKind::Begin,
            LocalEvent::PermitAcquired => EventKind::PermitAcquired,
            LocalEvent::InstallDone(r) => EventKind::InstallDone(r is Ok),
            LocalEvent::GrantDone(r) => EventKind::GrantDone(r is Ok),
            LocalEvent::Connected(r) => EventKind::Connected(r is Ok),
            LocalEvent::SessionReady(r) => EventKind::SessionReady(r is Ok),
        }
    }
}

/// What the caller is to do next.
pub enum LocalAction<C> {
    /// Use this pooled session.
    Reuse(PooledClient<LocalSession<C>>),
    /// Wait for the setup permit, then report `PermitAcquired`.
    AcquirePermit,
    /// Ask the control daemon to install the extension.
    InstallExtension(ExtensionInstallRequest),
    /// Ask the control daemon for the grant.
    GrantRole(SetRoleGrantsRequest),
    /// Open the session. Where `release_permit` is set, drop the setup
    /// permit first.
    Connect { request: LocalConnectRequest, release_permit: bool },
    /// Run this statement on the new session.
    InitSession { sql: String },
    /// The session is ready: wrap it together with the signing key.
    Ready { conn_id: u128, key: SigningKeyPair },
    /// Give up with `error`. Where `release_permit` is set, drop the setup
    /// permit; where `discard` is set, a session was opened and must be
    /// closed, never pooled.
    Fail { error: HttpConnError, release_permit: bool, discard: bool },
    /// The event does not belong to the state the request is in; nothing
    /// changed.
    Unexpected,
}

/// The state a request moves to. `hit` says whether the pool had a session
/// to reuse, `initialized` whether the setup for the key was already done,
/// `keyed` whether the session's key is at hand: whether it could be written
/// as a JWK when it was made, and is still there when the session is ready.
pub open spec fn next_state(
    s: LocalConnState,
    e: EventKind,
    hit: bool,
    initialized: bool,
    keyed: bool,
) -> LocalConnState {
    let connect = if keyed {
        LocalConnState::Connecting
    } else {
        LocalConnState::Failed
    };
    match (s, e) {
        (LocalConnState::Start, EventKind::Begin) => if hit {
            LocalConnState::Done
        } else if initialized {
            connect
        } else {
            LocalConnState::AwaitingPermit
        },
        (LocalConnState::AwaitingPermit, EventKind::PermitAcquired) => if initialized {
            connect
        } else {
            LocalConnState::Installing
        },
        (LocalConnState::Installing, EventKind::InstallDone(ok)) => if ok {
            LocalConnState::Granting
        } else {
            LocalConnState::Failed
        },
        (LocalConnState::Granting, EventKind::GrantDone(ok)) => if ok {
            connect
        } else {
            LocalConnState::Failed
        },
        (LocalConnState::Connecting, EventKind::Connected(ok)) => if ok {
            LocalConnState::InitSession
        } else {
            LocalConnState::Failed
        },
        (LocalConnState::InitSession, EventKind::SessionReady(ok)) => if ok && keyed {
            LocalConnState::Done
        } else {
            LocalConnState::Failed
        },
        _ => s,
    }
}

/// Whether the event is one that the state waits for.
pub open spec fn expected(s: LocalConnState, e: EventKind) -> bool {
    match (s, e) {
        (LocalConnState::Start, EventKind::Begin) => true,
        (LocalConnState::AwaitingPermit, EventKind::PermitAcquired) => true,
        (LocalConnState::Installing, EventKind::InstallDone(_)) => true,
        (LocalConnState::Granting, EventKind::GrantDone(_)) => true,
        (LocalConnState::Connecting, EventKind::Connected(_)) => true,
        (LocalConnState::InitSession, EventKind::SessionReady(_)) => true,
        _ => false,
    }
}

/// Whether a request in state `s` holds the setup permit.
pub open spec fn holds_permit(s: LocalConnState) -> bool {
    s == LocalConnState::Installing || s == LocalConnState::Granting
}

/// Whether the setup is marked done by this step: only when the grant, the
/// last part of it, succeeded.
pub open spec fn marks_initialized(s: LocalConnState, e: EventKind) -> bool {
    s == LocalConnState::Granting && e == EventKind::GrantDone(true)
}

/// One request for a local session.
pub struct LocalConnect {
    pub state: LocalConnState,
    pub conn_info: ConnInfo,
    pub conn_id: u128,
    /// The key made for the session, once there is one.
    pub key: Option<SigningKeyPair>,
}

/// What a step hands back: the next action, and the pooled sessions that
/// expired and are to be closed.
pub struct LocalStep<C> {
    pub action: LocalAction<C>,
    pub closed: Vec<IdleClient<LocalSession<C>>>,
}

/// Whether `request` opens a session for `key` that trusts the public half
/// of `pair`, and that half only.
pub open spec fn connects_with(key: ConnKey, pair: SigningKeyPair, request: LocalConnectRequest) -> bool {
    &&& request.user@ == key.user
    &&& request.dbname@ == key.database
    &&& pair.public@ == ed25519_public_key(pair.secret@)
    &&& okp_jwk_json(OkpCurve::Ed25519, pair.public@, None) matches Some(json)
    &&& request.options@ == session_options_spec(json)
}

/// The text of the failure reported when the new key cannot be written as
/// a JWK.
pub open spec fn encode_failure() -> HttpConnErrorView {
    HttpConnErrorView::JwtPayloadError("could not encode the session key"@)
}

impl LocalConnect {
    pub fn new(conn_info: ConnInfo) -> (r: LocalConnect)
        ensures
            r.state == LocalConnState::Start,
            r.conn_info == conn_info,
            r.conn_id == 0,
            r.key is None,
    {
        LocalConnect { state: LocalConnState::Start, conn_info, conn_id: 0, key: None }
    }

    /// Makes the key and the identifier of a new session and asks for the
    /// session to be opened.
    fn begin_connect<C>(&mut self, release_permit: bool) -> (r: LocalAction<C>)
        ensures
            final(self).conn_info == old(self).conn_info,
            match r {
                LocalAction::Connect { request, release_permit: rel } => {
                    &&& final(self).state == LocalConnState::Connecting
                    &&& rel == release_permit
                    &&& final(self).key matches Some(pair)
                    &&& connects_with(old(self).conn_info@, pair, request)
                    &&& request.conn_id == final(self).conn_id
                    &&& is_random_uuid(request.conn_id)
                },
                LocalAction::Fail { error, release_permit: rel, discard } => {
                    &&& final(self).state == LocalConnState::Failed
                    &&& rel == release_permit
                    &&& !discard
                    &&& error@ == encode_failure()
                },
                _ => false,
            },
    {
        let conn_id = new_conn_id();
        let (pair, jwk) = create_random_jwk();
        match encode_jwk(&jwk) {
            Some(json) => {
                let request = connect_request(&self.conn_info, conn_id, json.as_str());
                self.conn_id = conn_id;
                self.key = Some(pair);
                self.state = LocalConnState::Connecting;
                LocalAction::Connect { request, release_permit }
            },
            None => {
                self.state = LocalConnState::Failed;
                LocalAction::Fail {
                    error: HttpConnError::JwtPayloadError(owned("could not encode the session key")),
                    release_permit,
                    discard: false,
                }
            },
        }
    }

    /// Takes the request one step further.
    ///
    /// A pooled session is reused where there is one. Otherwise the setup
    /// for the key is done unless it is known to be done: under the permit,
    /// after looking again, first the extension, then the grant, and only
    /// then is the key marked. A failure of either ends the request and
    /// leaves the key unmarked. Then a session is opened with a key of its
    /// own, and its authorization state is set up; if that fails the
    /// session is to be discarded.
    pub fn step<C>(&mut self, pool: &mut LocalConnPool<C>, event: LocalEvent, now: u64) -> (r:
        LocalStep<C>)
        requires
            old(pool).wf(),
        ensures
            final(pool).wf(),
            final(self).conn_info == old(self).conn_info,
            final(pool)@.pool.config == old(pool)@.pool.config,
            ({
                let key = old(self).conn_info@;
                let s = old(self).state;
                let e = event.kind();
                let ttl = old(pool)@.pool.config.idle_ttl;
                let hit = get_hit(old(pool)@.pool.queue(key), now, ttl);
                let initialized = old(pool)@.initialized.contains(key);
                let keyed = !(r.action is Fail);
                &&& final(self).state == next_state(s, e, hit is Some, initialized, keyed)
                &&& final(pool)@.initialized == if marks_initialized(s, e) {
                    old(pool)@.initialized.insert(key)
                } else {
                    old(pool)@.initialized
                }
                &&& if s == LocalConnState::Start && e == EventKind::Begin {
                    &&& r.closed@ == get_expired(old(pool)@.pool.queue(key), now, ttl)
                    &&& final(pool)@.pool.buckets_of(key.endpoint) == after_get(
                        old(pool)@.pool.buckets_of(key.endpoint),
                        key,
                        now,
                        ttl,
                    )
                    &&& forall|other: Seq<char>|
                        other != key.endpoint ==> final(pool)@.pool.buckets_of(other) == old(
                            pool,
                        )@.pool.buckets_of(other)
                } else {
                    &&& r.closed@ == Seq::<IdleClient<LocalSession<C>>>::empty()
                    &&& final(pool)@.pool == old(pool)@.pool
                }
                &&& !expected(s, e) ==> r.action is Unexpected && *final(self) == *old(self)
                &&& expected(s, e) ==> match r.action {
                    LocalAction::Reuse(client) => {
                        &&& s == LocalConnState::Start
                        &&& final(self).state == LocalConnState::Done
                        &&& hit matches Some(entry)
                        &&& serves(entry, key, client)
                    },
                    LocalAction::AcquirePermit => final(self).state
                        == LocalConnState::AwaitingPermit,
                    LocalAction::InstallExtension(request) => {
                        &&& final(self).state == LocalConnState::Installing
                        &&& request.extension@ == "pg_session_jwt"@
                        &&& request.version@ == "0.3.1"@
                        &&& request.database@ == key.database
                    },
                    LocalAction::GrantRole(request) => {
                        &&& final(self).state == LocalConnState::Granting
                        &&& request.schema@ == "auth"@
                        &&& request.privileges@ == seq![Privilege::Usage]
                        &&& request.database@ == key.database
                        &&& request.role@ == key.user
                    },
                    LocalAction::Connect { request, release_permit } => {
                        &&& final(self).state == LocalConnState::Connecting
                        &&& release_permit == (s != LocalConnState::Start)
                        &&& final(self).key matches Some(pair)
                        &&& connects_with(key, pair, request)
                        &&& request.conn_id == final(self).conn_id
                        &&& is_random_uuid(request.conn_id)
                    },
                    LocalAction::InitSession { sql } => {
                        &&& final(self).state == LocalConnState::InitSession
                        &&& sql@ == "select auth.init();"@
                        &&& final(self).key == old(self).key
                        &&& final(self).conn_id == old(self).conn_id
                    },
                    LocalAction::Ready { conn_id, key: pair } => {
                        &&& s == LocalConnState::InitSession
                        &&& final(self).state == LocalConnState::Done
                        &&& conn_id == old(self).conn_id
                        &&& old(self).key == Some(pair)
                    },
                    LocalAction::Fail { error, release_permit, discard } => {
                        &&& final(self).state == LocalConnState::Failed
                        &&& release_permit == (holds_permit(s) || s
                            == LocalConnState::AwaitingPermit)
                        &&& discard == (s == LocalConnState::InitSession)
                        &&& error@ == match event {
                            LocalEvent::InstallDone(Err(m)) => HttpConnErrorView::ComputeCtl(m@),
                            LocalEvent::GrantDone(Err(m)) => HttpConnErrorView::ComputeCtl(m@),
                            LocalEvent::Connected(Err(x)) =>
                                HttpConnErrorView::PostgresConnectionError(x@),
                            LocalEvent::SessionReady(Err(x)) =>
                                HttpConnErrorView::PostgresConnectionError(x@),
                            _ => encode_failure(),
                        }
                    },
                    LocalAction::Unexpected => false,
                }
            }),
    {
        let no_one: Vec<IdleClient<LocalSession<C>>> = Vec::new();
        match (self.state, event) {
            (LocalConnState::Start, LocalEvent::Begin) => {
                let (found, closed) = pool.get(&self.conn_info, now);
                match found {
                    Some(client) => {
                        self.state = LocalConnState::Done;
                        LocalStep { action: LocalAction::Reuse(client), closed }
                    },
                    None => {
                        if pool.initialized(&self.conn_info) {
                            let action = self.begin_connect(false);
                            LocalStep { action, closed }
                        } else {
                            self.state = LocalConnState::AwaitingPermit;
                            LocalStep { action: LocalAction::AcquirePermit, closed }
                        }
                    },
                }
            },
            (LocalConnState::AwaitingPermit, LocalEvent::PermitAcquired) => {
                if pool.initialized(&self.conn_info) {
                    let action = self.begin_connect(true);
                    LocalStep { action, closed: no_one }
                } else {
                    self.state = LocalConnState::Installing;
                    LocalStep {
                        action: LocalAction::InstallExtension(install_request(&self.conn_info)),
                        closed: no_one,
                    }
                }
            },
            (LocalConnState::Installing, LocalEvent::InstallDone(outcome)) => {
                match outcome {
                    Ok(()) => {
                        self.state = LocalConnState::Granting;
                        LocalStep {
                            action: LocalAction::GrantRole(grant_request(&self.conn_info)),
                            closed: no_one,
                        }
                    },
                    Err(message) => {
                        self.state = LocalConnState::Failed;
                        LocalStep {
                            action: LocalAction::Fail {
                                error: HttpConnError::ComputeCtl(message),
                                release_permit: true,
                                discard: false,
                            },
                            closed: no_one,
                        }
                    },
                }
            },
            (LocalConnState::Granting, LocalEvent::GrantDone(outcome)) => {
                match outcome {
                    Ok(()) => {
                        pool.set_initialized(&self.conn_info);
                        let action = self.begin_connect(true);
                        LocalStep { action, closed: no_one }
                    },
                    Err(message) => {
                        self.state = LocalConnState::Failed;
                        LocalStep {
                            action: LocalAction::Fail {
                                error: HttpConnError::ComputeCtl(message),
                                release_permit: true,
                                discard: false,
                            },
                            closed: no_one,
                        }
                    },
                }
            },
            (LocalConnState::Connecting, LocalEvent::Connected(outcome)) => {
                match outcome {
                    Ok(()) => {
                        self.state = LocalConnState::InitSession;
                        LocalStep {
                            action: LocalAction::InitSession { sql: owned(session_init_sql()) },
                            closed: no_one,
                        }
                    },
                    Err(e) => {
                        self.state = LocalConnState::Failed;
                        LocalStep {
                            action: LocalAction::Fail {
                                error: HttpConnError::PostgresConnectionError(e),
                                release_permit: false,
                                discard: false,
                            },
                            closed: no_one,
                        }
                    },
                }
            },
            (LocalConnState::InitSession, LocalEvent::SessionReady(outcome)) => {
                match outcome {
                    Ok(()) => {
                        match self.key {
                            Some(pair) => {
                                self.state = LocalConnState::Done;
                                LocalStep {
                                    action: LocalAction::Ready { conn_id: self.conn_id, key: pair },
                                    closed: no_one,
                                }
                            },
                            None => {
                                self.state = LocalConnState::Failed;
                                LocalStep {
                                    action: LocalAction::Fail {
                                        error: HttpConnError::JwtPayloadError(
                                            owned("could not encode the session key"),
                                        ),
                                        release_permit: false,
                                        discard: true,
                                    },
                                    closed: no_one,
                                }
                            },
                        }
                    },
                    Err(e) => {
                        self.state = LocalConnState::Failed;
                        LocalStep {
                            action: LocalAction::Fail {
                                error: HttpConnError::PostgresConnectionError(e),
                                release_permit: false,
                                discard: true,
                            },
                            closed: no_one,
                        }
                    },
                }
            },
            _ => LocalStep { action: LocalAction::Unexpected, closed: no_one },
        }
    }
}

} // verus!
