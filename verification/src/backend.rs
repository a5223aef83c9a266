//! The pooling backend: what ties the pools, the locks, the locator and the
//! authenticator together for one HTTP/JSON database request.

use vstd::prelude::*;
use crate::auth::{AuthBackend, AuthenticationConfig, JwtAuth, PasswordAuth};
use crate::conn_pool::{serves, GlobalConnPool, PoolConfig, PooledClient};
use crate::error::{
    HttpConnError, HttpConnErrorView, LocalProxyConnError, PgConnectError,
};
use crate::http2_connect::{Http2Connect, Http2Phase};
use crate::http_conn_pool::{first_free, HttpConnPool, HttpConnView};
use crate::jwk::{is_random_uuid, new_conn_id};
use crate::local_conn_pool::LocalConnPool;
use crate::local_connect::{LocalConnState, LocalConnect};
use crate::locks::{ApiLocks, Permit};
use crate::pool::{after_get, get_expired, get_hit, IdleClient};
use crate::retry::{ConnectDriver, DriverState, RetryConfig};
use crate::types::{
    clone_options, local_proxy_suffix_spec, normalize_spec, AuthKeys, ComputeCredentialKeys,
    ComputeCredentials, ComputeUserInfo, ConnInfo, IpAddress, NodeConnInfo, SslMode, UserInfoView,
};

verus! {

/// How connections to a compute are made.
#[derive(Clone, Copy)]
pub struct ComputeConfig {
    /// How long one connect attempt may take, in milliseconds.
    pub timeout_ms: u64,
}

/// The configuration the backend works under.
#[derive(Clone, Copy)]
pub struct ProxyConfig {
    pub authentication_config: AuthenticationConfig,
    pub wake_compute_retry_config: RetryConfig,
    pub connect_to_compute: ComputeConfig,
}

/// How to open a Postgres session with a remote compute.
pub struct PgConnectPlan {
    pub host: String,
    pub port: u16,
    pub ssl_mode: SslMode,
    pub user: String,
    pub dbname: String,
    pub connect_timeout_ms: u64,
    /// The SCRAM keys to log in with, where the authentication left any.
    pub auth_keys: Option<AuthKeys>,
}

/// Whether a connect attempt can start.
pub enum Attempt<P> {
    /// The permit was granted: connect as `plan` says.
    Go { permit: Permit, plan: P },
    /// All permits of the host are out: wait, then ask again, or give up
    /// with [`crate::locks::permit_timeout`] when the wait runs out.
    Wait,
}

/// Connects to a remote compute over the Postgres protocol.
pub struct TokioMechanism {
    pub conn_info: ConnInfo,
    pub conn_id: u128,
    pub keys: ComputeCredentialKeys,
}

impl TokioMechanism {
    /// The plan for one connect attempt at `node`: host, port and TLS mode
    /// as the locator gave them, user and database of the request, the
    /// configured timeout, and the SCRAM keys exactly where the
    /// authentication left some.
    pub fn connect_plan(&self, node: &NodeConnInfo, config: &ComputeConfig) -> (r: PgConnectPlan)
        ensures
            r.host@ == node.host@,
            r.port == node.port,
            r.ssl_mode == node.ssl_mode,
            r.user@ == self.conn_info@.user,
            r.dbname@ == self.conn_info@.database,
            r.connect_timeout_ms == config.timeout_ms,
            r.auth_keys == match self.keys {
                ComputeCredentialKeys::AuthKeys(k) => Some(k),
                _ => None,
            },
    {
        let auth_keys = match &self.keys {
            ComputeCredentialKeys::AuthKeys(k) => Some(*k),
            _ => None,
        };
        PgConnectPlan {
            host: node.host.clone(),
            port: node.port,
            ssl_mode: node.ssl_mode,
            user: self.conn_info.user_info.user.clone(),
            dbname: self.conn_info.dbname.clone(),
            connect_timeout_ms: config.timeout_ms,
            auth_keys,
        }
    }

    /// Asks for the host's connect permit and, where it is granted, plans
    /// the attempt.
    pub fn prepare(&self, locks: &mut ApiLocks, node: &NodeConnInfo, config: &ComputeConfig) -> (r:
        Attempt<PgConnectPlan>)
        requires
            old(locks).wf(),
        ensures
            final(locks).wf(),
            final(locks).permits() == old(locks).permits(),
            r is Go == (old(locks).in_use(node.host@) < old(locks).permits()),
            final(locks).in_use(node.host@) == old(locks).in_use(node.host@) + if r is Go {
                1nat
            } else {
                0nat
            },
            forall|other: Seq<char>|
                other != node.host@ ==> final(locks).in_use(other) == old(locks).in_use(other),
            r matches Attempt::Go { permit, plan } ==> {
                &&& permit.host() == node.host@
                &&& plan.host@ == node.host@
                &&& plan.port == node.port
                &&& plan.ssl_mode == node.ssl_mode
                &&& plan.user@ == self.conn_info@.user
                &&& plan.dbname@ == self.conn_info@.database
                &&& plan.connect_timeout_ms == config.timeout_ms
                &&& plan.auth_keys == match self.keys {
                    ComputeCredentialKeys::AuthKeys(k) => Some(k),
                    _ => None,
                }
            },
    {
        match locks.get_permit(node.host.as_str()) {
            Some(permit) => Attempt::Go { permit, plan: self.connect_plan(node, config) },
            None => Attempt::Wait,
        }
    }

    /// Settles one connect attempt. A session that was opened is wrapped
    /// for the request under the mechanism's key and identifier, and the
    /// permit stays out until the session is dropped. After a failure the
    /// permit is given back at once and the failure is passed on.
    pub fn connect_once<C>(
        &self,
        locks: &mut ApiLocks,
        permit: Permit,
        result: Result<C, PgConnectError>,
        now: u64,
    ) -> (r: Result<(PooledClient<C>, Permit), HttpConnError>)
        requires
            old(locks).wf(),
        ensures
            final(locks).wf(),
            final(locks).permits() == old(locks).permits(),
            forall|other: Seq<char>|
                other != permit.host() ==> final(locks).in_use(other) == old(locks).in_use(other),
            match (result, r) {
                (Ok(session), Ok((client, kept))) => {
                    &&& client.inner == session
                    &&& client.conn_id == self.conn_id
                    &&& client.conn_info@ == self.conn_info@
                    &&& client.created == now
                    &&& !client.discard
                    &&& !client.dirty
                    &&& kept == permit
                    &&& final(locks).in_use(permit.host()) == old(locks).in_use(permit.host())
                },
                (Err(e), Err(x)) => {
                    &&& x@ == HttpConnErrorView::PostgresConnectionError(e@)
                    &&& final(locks).in_use(permit.host()) == if old(locks).in_use(permit.host())
                        > 0 {
                        (old(locks).in_use(permit.host()) - 1) as nat
                    } else {
                        0nat
                    }
                },
                _ => false,
            },
    {
        match result {
            Ok(session) => Ok(
                (PooledClient::new(session, self.conn_id, self.conn_info.clone(), now), permit),
            ),
            Err(e) => {
                locks.release(permit);
                Err(HttpConnError::PostgresConnectionError(e))
            },
        }
    }
}

/// Connects to a local proxy over HTTP/2.
pub struct HyperMechanism {
    pub conn_info: ConnInfo,
    pub conn_id: u128,
}

impl HyperMechanism {
    /// Asks for the host's connect permit and, where it is granted, sets
    /// up the attempt: the locator's address where it gave one, the host
    /// and port, the configured timeout, and TLS unless the compute has it
    /// disabled.
    pub fn prepare(&self, locks: &mut ApiLocks, node: &NodeConnInfo, config: &ComputeConfig) -> (r:
        Attempt<Http2Connect>)
        requires
            old(locks).wf(),
        ensures
            final(locks).wf(),
            final(locks).permits() == old(locks).permits(),
            r is Go == (old(locks).in_use(node.host@) < old(locks).permits()),
            final(locks).in_use(node.host@) == old(locks).in_use(node.host@) + if r is Go {
                1nat
            } else {
                0nat
            },
            forall|other: Seq<char>|
                other != node.host@ ==> final(locks).in_use(other) == old(locks).in_use(other),
            r matches Attempt::Go { permit, plan } ==> {
                &&& permit.host() == node.host@
                &&& plan.phase == Http2Phase::Start
                &&& plan.host_addr == node.host_addr
                &&& plan.host@ == node.host@
                &&& plan.port == node.port
                &&& plan.timeout_ms == config.timeout_ms
                &&& plan.tls == (node.ssl_mode != SslMode::Disable)
                &&& plan.addrs@.len() == 0
                &&& plan.tried == 0
                &&& plan.last_err is None
            },
    {
        match locks.get_permit(node.host.as_str()) {
            Some(permit) => {
                let tls = match node.ssl_mode {
                    SslMode::Disable => false,
                    _ => true,
                };
                Attempt::Go {
                    permit,
                    plan: Http2Connect::new(
                        node.host_addr,
                        node.host.clone(),
                        node.port,
                        config.timeout_ms,
                        tls,
                    ),
                }
            },
            None => Attempt::Wait,
        }
    }

    /// Settles one connect attempt. A connection that was made goes into
    /// the pool under the request's endpoint, with the request holding its
    /// first stream, where the pool has room; else it is handed back for
    /// the request alone. Either way the permit stays out until the
    /// connection is dropped. After a failure the permit is given back at
    /// once and the failure is passed on.
    pub fn connect_once<H>(
        &self,
        locks: &mut ApiLocks,
        pool: &mut HttpConnPool<H>,
        permit: Permit,
        result: Result<H, LocalProxyConnError>,
    ) -> (r: Result<(u128, Permit, Option<H>), HttpConnError>)
        requires
            old(locks).wf(),
            old(pool).wf(),
        ensures
            final(locks).wf(),
            final(pool).wf(),
            final(locks).permits() == old(locks).permits(),
            final(pool).max_streams() == old(pool).max_streams(),
            final(pool).max_conns() == old(pool).max_conns(),
            final(pool).max_conns_per_endpoint() == old(pool).max_conns_per_endpoint(),
            forall|other: Seq<char>|
                other != permit.host() ==> final(locks).in_use(other) == old(locks).in_use(other),
            match (result, r) {
                (Ok(client), Ok((conn_id, kept, unpooled))) => {
                    &&& conn_id == self.conn_id
                    &&& kept == permit
                    &&& final(locks).in_use(permit.host()) == old(locks).in_use(permit.host())
                    &&& if old(pool).has_room(self.conn_info@.endpoint) {
                        &&& unpooled is None
                        &&& final(pool)@ == old(pool)@.push(
                            HttpConnView {
                                endpoint: self.conn_info@.endpoint,
                                conn_id: self.conn_id,
                                client,
                                open_streams: 1,
                            },
                        )
                    } else {
                        &&& unpooled == Some(client)
                        &&& final(pool)@ == old(pool)@
                    }
                },
                (Err(e), Err(x)) => {
                    &&& x@ == HttpConnErrorView::LocalProxyConnectionError(e@)
                    &&& final(pool)@ == old(pool)@
                    &&& final(locks).in_use(permit.host()) == if old(locks).in_use(permit.host())
                        > 0 {
                        (old(locks).in_use(permit.host()) - 1) as nat
                    } else {
                        0nat
                    }
                },
                _ => false,
            },
    {
        match result {
            Ok(client) => {
                let unpooled = pool.register(
                    self.conn_info.user_info.endpoint.as_str(),
                    self.conn_id,
                    client,
                );
                Ok((self.conn_id, permit, unpooled))
            },
            Err(e) => {
                locks.release(permit);
                Err(HttpConnError::LocalProxyConnectionError(e))
            },
        }
    }
}

/// How a request for a remote session starts.
pub enum ComputeStart<C> {
    /// The pool had a session.
    Reuse(PooledClient<C>),
    /// A session has to be opened: wake the compute for `wake_for` and
    /// connect with `mechanism`, as `driver` says.
    Open { mechanism: TokioMechanism, wake_for: ComputeUserInfo, driver: ConnectDriver },
}

/// How a request for a local-proxy connection starts.
pub enum LocalProxyStart {
    /// The pool had a connection with a stream to spare: this one.
    Reuse(u128),
    /// A connection has to be made: wake the local proxy for `wake_for`
    /// and connect with `mechanism`, as `driver` says.
    Open { mechanism: HyperMechanism, wake_for: ComputeUserInfo, driver: ConnectDriver },
}

/// The user under which the local proxy of the request's endpoint is woken.
pub open spec fn local_proxy_user(key: UserInfoView) -> UserInfoView {
    UserInfoView {
        user: key.user,
        endpoint: normalize_spec(key.endpoint) + local_proxy_suffix_spec(),
        options: key.options,
    }
}

/// The pools and the configuration of one proxy.
pub struct PoolingBackend<C, H> {
    pub http_conn_pool: HttpConnPool<H>,
    pub local_pool: LocalConnPool<C>,
    pub pool: GlobalConnPool<C>,
    pub config: ProxyConfig,
    pub auth_backend: AuthBackend,
}

impl<C, H> PoolingBackend<C, H> {
    pub open spec fn wf(&self) -> bool {
        &&& self.http_conn_pool.wf()
        &&& self.local_pool.wf()
        &&& self.pool.wf()
    }

    pub fn new(
        config: ProxyConfig,
        auth_backend: AuthBackend,
        pool_config: PoolConfig,
        max_streams_per_conn: usize,
    ) -> (r: PoolingBackend<C, H>)
        ensures
            r.wf(),
            r.config == config,
            r.auth_backend == auth_backend,
            r.pool@.config == pool_config,
            r.pool@.len() == 0,
            r.local_pool@.pool.config == pool_config,
            r.http_conn_pool@.len() == 0,
            r.http_conn_pool.max_conns() == pool_config.max_conns,
            r.http_conn_pool.max_conns_per_endpoint() == pool_config.max_conns_per_endpoint,
            r.http_conn_pool.max_streams() == if max_streams_per_conn == 0 {
                1
            } else {
                max_streams_per_conn as nat
            },
    {
        PoolingBackend {
            http_conn_pool: HttpConnPool::new(
                pool_config.max_conns,
                pool_config.max_conns_per_endpoint,
                max_streams_per_conn,
            ),
            local_pool: LocalConnPool::new(pool_config),
            pool: GlobalConnPool::new(pool_config),
            config,
            auth_backend,
        }
    }

    /// Starts a password authentication for a request from `peer`.
    pub fn authenticate_with_password(&self, user_info: &ComputeUserInfo, peer: IpAddress) -> (r:
        PasswordAuth)
        ensures
            r.state == crate::auth::PasswordState::Start,
            r.user_info@ == user_info@,
            r.peer == peer,
            r.config == self.config.authentication_config,
            r.limit is None,
    {
        PasswordAuth::new(user_info, peer, self.config.authentication_config)
    }

    /// Starts a token authentication against the rules of this proxy's
    /// backend.
    pub fn authenticate_with_jwt(&self, user_info: &ComputeUserInfo, jwt: String) -> (r: JwtAuth)
        ensures
            r.state == crate::auth::JwtState::Start,
            r.user_info@ == user_info@,
            r.backend == self.auth_backend,
            r.jwt == jwt,
            r.rules is None,
    {
        JwtAuth::new(user_info, self.auth_backend, jwt)
    }

    /// Starts a request for a session with a remote compute. Unless
    /// `force_new` is set the pool is asked first; a session found there
    /// is reused, and the expired ones in front of it are handed out for
    /// closing. Otherwise a new session is set up under a fresh
    /// identifier, to be opened with the keys of the authentication for
    /// the user that authenticated.
    pub fn connect_to_compute(
        &mut self,
        conn_info: ConnInfo,
        keys: ComputeCredentials,
        force_new: bool,
        now: u64,
    ) -> (r: (ComputeStart<C>, Vec<IdleClient<C>>))
        requires
            old(self).wf(),
        ensures
            final(self).wf(),
            final(self).config == old(self).config,
            final(self).auth_backend == old(self).auth_backend,
            final(self).local_pool == old(self).local_pool,
            final(self).http_conn_pool == old(self).http_conn_pool,
            final(self).pool@.config == old(self).pool@.config,
            ({
                let key = conn_info@;
                let ttl = old(self).pool@.config.idle_ttl;
                let hit = if force_new {
                    None
                } else {
                    get_hit(old(self).pool@.queue(key), now, ttl)
                };
                &&& if force_new {
                    &&& final(self).pool == old(self).pool
                    &&& r.1@.len() == 0
                } else {
                    &&& r.1@ == get_expired(old(self).pool@.queue(key), now, ttl)
                    &&& final(self).pool@.buckets_of(key.endpoint) == after_get(
                        old(self).pool@.buckets_of(key.endpoint),
                        key,
                        now,
                        ttl,
                    )
                    &&& forall|other: Seq<char>|
                        other != key.endpoint ==> final(self).pool@.buckets_of(other) == old(
                            self,
                        ).pool@.buckets_of(other)
                }
                &&& match hit {
                    Some(entry) => r.0 matches ComputeStart::Reuse(client) && serves(
                        entry,
                        key,
                        client,
                    ),
                    None => {
                        &&& r.0 matches ComputeStart::Open { mechanism, wake_for, driver }
                        &&& mechanism.conn_info == conn_info
                        &&& mechanism.keys == keys.keys
                        &&& is_random_uuid(mechanism.conn_id)
                        &&& wake_for == keys.info
                        &&& driver.state == DriverState::Start
                        &&& driver.attempts == 0
                        &&& driver.retries == 0
                        &&& driver.config == old(self).config.wake_compute_retry_config
                    },
                }
            }),
    {
        let (found, closed) = if force_new {
            (None, Vec::new())
        } else {
            self.pool.get(&conn_info, now)
        };
        match found {
            Some(client) => (ComputeStart::Reuse(client), closed),
            None => {
                let conn_id = new_conn_id();
                (
                    ComputeStart::Open {
                        mechanism: TokioMechanism { conn_id, conn_info, keys: keys.keys },
                        wake_for: keys.info,
                        driver: ConnectDriver::new(self.config.wake_compute_retry_config),
                    },
                    closed,
                )
            },
        }
    }

    /// Starts a request for a connection to the local proxy of the
    /// request's endpoint. A pooled connection with a stream to spare is
    /// reused. Otherwise a new connection is set up under a fresh
    /// identifier; the compute to wake for it is the endpoint's local
    /// proxy.
    pub fn connect_to_local_proxy(&mut self, conn_info: ConnInfo) -> (r: LocalProxyStart)
        requires
            old(self).wf(),
        ensures
            final(self).wf(),
            final(self).config == old(self).config,
            final(self).auth_backend == old(self).auth_backend,
            final(self).local_pool == old(self).local_pool,
            final(self).pool == old(self).pool,
            final(self).http_conn_pool.max_streams() == old(self).http_conn_pool.max_streams(),
            final(self).http_conn_pool.max_conns() == old(self).http_conn_pool.max_conns(),
            final(self).http_conn_pool.max_conns_per_endpoint() == old(
                self,
            ).http_conn_pool.max_conns_per_endpoint(),
            ({
                let before = old(self).http_conn_pool@;
                let limit = old(self).http_conn_pool.max_streams();
                match r {
                    LocalProxyStart::Reuse(conn_id) => exists|i: int|
                        first_free(before, conn_info@.endpoint, limit, i) && before[i].conn_id
                            == conn_id && final(self).http_conn_pool@ == before.update(
                            i,
                            before[i].with_streams(before[i].open_streams + 1),
                        ),
                    LocalProxyStart::Open { mechanism, wake_for, driver } => {
                        &&& final(self).http_conn_pool@ == before
                        &&& forall|i: int|
                            0 <= i < before.len() ==> !(#[trigger] before[i]).free_for(
                                conn_info@.endpoint,
                                limit,
                            )
                        &&& mechanism.conn_info == conn_info
                        &&& is_random_uuid(mechanism.conn_id)
                        &&& wake_for@ == local_proxy_user(conn_info.user_info@)
                        &&& driver.state == DriverState::Start
                        &&& driver.attempts == 0
                        &&& driver.retries == 0
                        &&& driver.config == old(self).config.wake_compute_retry_config
                    },
                }
            }),
    {
        let ghost before = self.http_conn_pool@;
        let ghost limit = self.http_conn_pool.max_streams();
        match self.http_conn_pool.get(conn_info.user_info.endpoint.as_str()) {
            Some(conn_id) => {
                proof {
                    let i = choose|i: int|
                        first_free(before, conn_info@.endpoint, limit, i) && before[i].conn_id
                            == conn_id && self.http_conn_pool@ == before.update(
                            i,
                            before[i].with_streams(before[i].open_streams + 1),
                        );
                    assert(first_free(before, conn_info@.endpoint, limit, i));
                }
                LocalProxyStart::Reuse(conn_id)
            },
            None => {
                let conn_id = new_conn_id();
                let wake_for = ComputeUserInfo {
                    user: conn_info.user_info.user.clone(),
                    endpoint: conn_info.user_info.endpoint.local_proxy(),
                    options: clone_options(&conn_info.user_info.options),
                };
                LocalProxyStart::Open {
                    mechanism: HyperMechanism { conn_id, conn_info },
                    wake_for,
                    driver: ConnectDriver::new(self.config.wake_compute_retry_config),
                }
            },
        }
    }

    /// Starts a request for a session with the Postgres on this host. Only
    /// a proxy that sits next to its compute can do that. The steps that
    /// follow are those of [`LocalConnect::step`], on this backend's local
    /// pool.
    pub fn connect_to_local_postgres(&self, conn_info: ConnInfo) -> (r: LocalConnect)
        requires
            self.auth_backend == AuthBackend::Local,
        ensures
            r.state == LocalConnState::Start,
            r.conn_info == conn_info,
            r.key is None,
    {
        LocalConnect::new(conn_info)
    }
}

} // verus!
