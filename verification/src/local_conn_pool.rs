//! Sessions with the Postgres on the same host: the pool that holds them,
//! the once-only setup of the session extension, and the steps by which a
//! request gets a session of its own.

use vstd::prelude::*;
use crate::conn_pool::{
    dead_upto, endpoint_index, healthy, idle_entry, removable, serves, GlobalConnPool, PoolConfig,
    PoolView, PooledClient, ReleaseOutcome,
};
use crate::jwk::{session_options, session_options_spec, SigningKeyPair};
use crate::pool::{
    after_get, after_put, get_expired, get_hit, is_lru, swept, without, IdleClient,
};
use crate::text::owned;
use crate::types::{ConnInfo, ConnKey};

verus! {

/// The extension that checks per-request tokens inside the session.
pub fn ext_name() -> (r: &'static str)
    ensures
        r@ == "pg_session_jwt"@,
{
    "pg_session_jwt"
}

/// The version of the extension that is installed.
pub fn ext_version() -> (r: &'static str)
    ensures
        r@ == "0.3.1"@,
{
    "0.3.1"
}

/// The schema whose use is granted to the role.
pub fn ext_schema() -> (r: &'static str)
    ensures
        r@ == "auth"@,
{
    "auth"
}

/// The statement that starts the authorization session.
pub fn session_init_sql() -> (r: &'static str)
    ensures
        r@ == "select auth.init();"@,
{
    "select auth.init();"
}

/// What the compute's control daemon is asked to install.
pub struct ExtensionInstallRequest {
    pub extension: String,
    pub database: String,
    pub version: String,
}

/// A privilege on a schema.
#[derive(Clone, Copy, PartialEq, Eq, Structural, Debug)]
pub enum Privilege {
    Select,
    Insert,
    Update,
    Delete,
    Usage,
    Create,
}

/// What the compute's control daemon is asked to grant.
pub struct SetRoleGrantsRequest {
    pub schema: String,
    pub privileges: Vec<Privilege>,
    pub database: String,
    pub role: String,
}

/// The install request for the database of `key`.
pub fn install_request(conn_info: &ConnInfo) -> (r: ExtensionInstallRequest)
    ensures
        r.extension@ == "pg_session_jwt"@,
        r.database@ == conn_info@.database,
        r.version@ == "0.3.1"@,
{
    ExtensionInstallRequest {
        extension: owned(ext_name()),
        database: conn_info.dbname.clone(),
        version: owned(ext_version()),
    }
}

/// The grant request for the role and database of `key`: usage of the
/// extension's schema, and nothing more.
pub fn grant_request(conn_info: &ConnInfo) -> (r: SetRoleGrantsRequest)
    ensures
        r.schema@ == "auth"@,
        r.privileges@ == seq![Privilege::Usage],
        r.database@ == conn_info@.database,
        r.role@ == conn_info@.user,
{
    let mut privileges: Vec<Privilege> = Vec::new();
    privileges.push(Privilege::Usage);
    assert(privileges@ =~= seq![Privilege::Usage]);
    SetRoleGrantsRequest {
        schema: owned(ext_schema()),
        privileges,
        database: conn_info.dbname.clone(),
        role: conn_info.user_info.user.clone(),
    }
}

/// How to open the session: over loopback, without retries.
pub struct LocalConnectRequest {
    pub user: String,
    pub dbname: String,
    /// The `options` startup parameter.
    pub options: String,
    pub conn_id: u128,
}

/// The connect request for `conn_info` that binds `jwk_json` to the session.
pub fn connect_request(conn_info: &ConnInfo, conn_id: u128, jwk_json: &str) -> (r:
    LocalConnectRequest)
    ensures
        r.user@ == conn_info@.user,
        r.dbname@ == conn_info@.database,
        r.options@ == session_options_spec(jwk_json@),
        r.conn_id == conn_id,
{
    LocalConnectRequest {
        user: conn_info.user_info.user.clone(),
        dbname: conn_info.dbname.clone(),
        options: session_options(jwk_json),
        conn_id,
    }
}

/// A local session and the key that signs for it. The key never leaves the
/// session it was made for.
pub struct LocalSession<C> {
    pub client: C,
    pub key: SigningKeyPair,
}

/// Mathematical value of a [`LocalConnPool`].
pub struct LocalPoolView<C> {
    pub pool: PoolView<LocalSession<C>>,
    /// The keys whose database has the extension and whose role has the
    /// grant.
    pub initialized: Set<ConnKey>,
}

/// The pool of local sessions.
pub struct LocalConnPool<C> {
    pool: GlobalConnPool<LocalSession<C>>,
    initialized: Vec<ConnInfo>,
}

impl<C> View for LocalConnPool<C> {
    type V = LocalPoolView<C>;

    closed spec fn view(&self) -> LocalPoolView<C> {
        LocalPoolView {
            pool: self.pool@,
            initialized: Set::new(
                |k: ConnKey|
                    exists|i: int| 0 <= i < self.initialized.len() && (#[trigger] self.initialized[i])@ == k,
            ),
        }
    }
}

impl<C> LocalConnPool<C> {
    pub closed spec fn wf(&self) -> bool {
        self.pool.wf()
    }

    /// The caps of the underlying pool hold here too.
    pub proof fn lemma_caps(&self, name: Seq<char>)
        requires
            self.wf(),
        ensures
            self@.pool.len() <= self@.pool.config.max_conns,
            self@.pool.endpoint_len(name) <= self@.pool.config.max_conns_per_endpoint,
    {
        self.pool.lemma_caps(name);
    }

    pub fn new(config: PoolConfig) -> (r: LocalConnPool<C>)
        ensures
            r.wf(),
            r@.pool.config == config,
            r@.pool.endpoints == Seq::<crate::conn_pool::EndpointView<LocalSession<C>>>::empty(),
            r@.initialized == Set::<ConnKey>::empty(),
    {
        let r = LocalConnPool { pool: GlobalConnPool::new(config), initialized: Vec::new() };
        assert(r@.initialized =~= Set::<ConnKey>::empty());
        r
    }

    /// The number of idle sessions.
    pub fn len(&self) -> (r: usize)
        requires
            self.wf(),
        ensures
            r == self@.pool.len(),
    {
        self.pool.len()
    }

    /// Whether the setup for `key` is known to be done.
    pub fn initialized(&self, conn_info: &ConnInfo) -> (r: bool)
        ensures
            r == self@.initialized.contains(conn_info@),
    {
        let mut i: usize = 0;
        while i < self.initialized.len()
            invariant
                i <= self.initialized.len(),
                forall|j: int| 0 <= j < i ==> (#[trigger] self.initialized[j])@ != conn_info@,
            decreases self.initialized.len() - i,
        {
            if self.initialized[i].same_key(conn_info) {
                return true;
            }
            i = i + 1;
        }
        false
    }

    /// Records that the setup for `key` is done.
    pub fn set_initialized(&mut self, conn_info: &ConnInfo)
        ensures
            final(self)@.initialized == old(self)@.initialized.insert(conn_info@),
            final(self)@.pool == old(self)@.pool,
            old(self).wf() ==> final(self).wf(),
    {
        let ghost before = self.initialized@;
        self.initialized.push(conn_info.clone());
        proof {
            let after = self.initialized@;
            assert forall|k: ConnKey| self@.initialized.contains(k) == old(self)@.initialized.insert(
                conn_info@,
            ).contains(k) by {
                if old(self)@.initialized.contains(k) {
                    let i = choose|i: int| 0 <= i < before.len() && (#[trigger] before[i])@ == k;
                    assert(after[i]@ == k);
                }
                if k == conn_info@ {
                    assert(after[before.len() as int]@ == k);
                }
                if self@.initialized.contains(k) {
                    let i = choose|i: int| 0 <= i < after.len() && (#[trigger] after[i])@ == k;
                    if i < before.len() {
                        assert(before[i]@ == k);
                    }
                }
            }
            assert(self@.initialized =~= old(self)@.initialized.insert(conn_info@));
        }
    }

    /// Looks for a session to reuse; see [`GlobalConnPool::get`].
    pub fn get(&mut self, key: &ConnInfo, now: u64) -> (r: (
        Option<PooledClient<LocalSession<C>>>,
        Vec<IdleClient<LocalSession<C>>>,
    ))
        requires
            old(self).wf(),
        ensures
            final(self).wf(),
            final(self)@.initialized == old(self)@.initialized,
            final(self)@.pool.config == old(self)@.pool.config,
            match get_hit(old(self)@.pool.queue(key@), now, old(self)@.pool.config.idle_ttl) {
                Some(entry) => r.0 matches Some(client) && serves(entry, key@, client),
                None => r.0 is None,
            },
            r.1@ == get_expired(old(self)@.pool.queue(key@), now, old(self)@.pool.config.idle_ttl),
            final(self)@.pool.buckets_of(key@.endpoint) == after_get(
                old(self)@.pool.buckets_of(key@.endpoint),
                key@,
                now,
                old(self)@.pool.config.idle_ttl,
            ),
            forall|other: Seq<char>|
                other != key@.endpoint ==> final(self)@.pool.buckets_of(other) == old(
                    self,
                )@.pool.buckets_of(other),
    {
        self.pool.get(key, now)
    }

    /// Takes a session back; see [`GlobalConnPool::release`].
    pub fn release(
        &mut self,
        client: PooledClient<LocalSession<C>>,
        closed: bool,
        now: u64,
    ) -> (r: ReleaseOutcome<LocalSession<C>>)
        requires
            old(self).wf(),
        ensures
            final(self).wf(),
            final(self)@.initialized == old(self)@.initialized,
            final(self)@.pool.config == old(self)@.pool.config,
            forall|other: Seq<char>|
                other != client.conn_info@.endpoint ==> final(self)@.pool.buckets_of(other) == old(
                    self,
                )@.pool.buckets_of(other),
            ({
                let name = client.conn_info@.endpoint;
                let bs = old(self)@.pool.buckets_of(name);
                let entry = idle_entry(client, now);
                if !healthy(client, closed) || !old(self)@.pool.has_room(name) {
                    &&& r == ReleaseOutcome::Closed(client.inner)
                    &&& final(self)@.pool == old(self)@.pool
                } else if old(self)@.pool.must_evict(name) {
                    &&& r matches ReleaseOutcome::PooledEvicting(victim)
                    &&& exists|b: int, p: int|
                        is_lru(bs, b, p) && victim == bs[b].idle[p] && final(self)@.pool.buckets_of(
                            name,
                        ) == after_put(without(bs, b, p), client.conn_info@, entry)
                } else {
                    &&& r == ReleaseOutcome::<LocalSession<C>>::Pooled
                    &&& final(self)@.pool.buckets_of(name) == after_put(bs, client.conn_info@, entry)
                }
            }),
    {
        self.pool.release(client, closed, now)
    }

    /// Closes the sessions that have rested too long; see
    /// [`GlobalConnPool::sweep`].
    pub fn sweep(&mut self, now: u64) -> (r: Vec<IdleClient<LocalSession<C>>>)
        requires
            old(self).wf(),
        ensures
            final(self).wf(),
            final(self)@.initialized == old(self)@.initialized,
            final(self)@.pool.config == old(self)@.pool.config,
            forall|name: Seq<char>|
                final(self)@.pool.buckets_of(name) == swept(
                    old(self)@.pool.buckets_of(name),
                    now,
                    old(self)@.pool.config.idle_ttl,
                ),
            r@ == dead_upto(
                old(self)@.pool.endpoints,
                old(self)@.pool.endpoints.len(),
                now,
                old(self)@.pool.config.idle_ttl,
            ),
    {
        self.pool.sweep(now)
    }

    /// Forgets endpoints that hold no session and were not touched for
    /// long; see [`GlobalConnPool::gc`].
    pub fn gc(&mut self, now: u64) -> (removed: usize)
        requires
            old(self).wf(),
        ensures
            final(self).wf(),
            final(self)@.initialized == old(self)@.initialized,
            final(self)@.pool.config == old(self)@.pool.config,
            final(self)@.pool.len() == old(self)@.pool.len(),
            removed == old(self)@.pool.endpoints.len() - final(self)@.pool.endpoints.len(),
            forall|name: Seq<char>|
                final(self)@.pool.knows(name) == (old(self)@.pool.knows(name) && !removable(
                    old(self)@.pool.endpoints[endpoint_index(old(self)@.pool.endpoints, name)],
                    now,
                    old(self)@.pool.config.gc_horizon,
                )),
            forall|name: Seq<char>|
                final(self)@.pool.knows(name) ==> final(self)@.pool.buckets_of(name) == old(
                    self,
                )@.pool.buckets_of(name),
    {
        self.pool.gc(now)
    }
}

} // verus!
