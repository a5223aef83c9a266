//! The process-wide pool: one [`EndpointPool`] per endpoint, a global count,
//! and the caps that both are held to.

use vstd::prelude::*;
use crate::pool::{
    after_get, after_put, dead_clients, get_expired, get_hit, is_expired, is_lru, keys_unique,
    queue, swept, total, without, BucketView, EndpointPool, IdleClient,
};
use crate::types::{ConnInfo, ConnKey};

verus! {

/// Limits of a pool.
#[derive(Clone, Copy)]
pub struct PoolConfig {
    /// The most idle clients the pool holds over all endpoints.
    pub max_conns: usize,
    /// The most idle clients the pool holds for one endpoint.
    pub max_conns_per_endpoint: usize,
    /// How long a client may rest before it is closed instead of served.
    pub idle_ttl: u64,
    /// How long an endpoint without clients is remembered.
    pub gc_horizon: u64,
}

/// Mathematical value of the pool's share of one endpoint.
pub struct EndpointView<C> {
    pub name: Seq<char>,
    pub buckets: Seq<BucketView<C>>,
    pub last_access: u64,
}

pub open spec fn has_endpoint<C>(eps: Seq<EndpointView<C>>, name: Seq<char>) -> bool {
    exists|i: int| 0 <= i < eps.len() && (#[trigger] eps[i]).name == name
}

pub open spec fn endpoint_index<C>(eps: Seq<EndpointView<C>>, name: Seq<char>) -> int {
    choose|i: int| 0 <= i < eps.len() && (#[trigger] eps[i]).name == name
}

pub open spec fn names_unique<C>(eps: Seq<EndpointView<C>>) -> bool {
    forall|i: int, j: int|
        0 <= i < j < eps.len() ==> (#[trigger] eps[i]).name != (#[trigger] eps[j]).name
}

/// The queues of endpoint `name`; none where the pool does not know it.
pub open spec fn buckets_of<C>(eps: Seq<EndpointView<C>>, name: Seq<char>) -> Seq<BucketView<C>> {
    if has_endpoint(eps, name) {
        eps[endpoint_index(eps, name)].buckets
    } else {
        Seq::empty()
    }
}

/// When endpoint `name` was last touched by a lookup or a release; `None`
/// where the pool does not know it.
pub open spec fn last_access_of<C>(eps: Seq<EndpointView<C>>, name: Seq<char>) -> Option<u64> {
    if has_endpoint(eps, name) {
        Some(eps[endpoint_index(eps, name)].last_access)
    } else {
        None
    }
}

/// The number of idle clients over all endpoints.
pub open spec fn pool_len<C>(eps: Seq<EndpointView<C>>) -> nat
    decreases eps.len(),
{
    if eps.len() == 0 {
        0
    } else {
        pool_len(eps.drop_last()) + total(eps.last().buckets)
    }
}

/// Mathematical value of a [`GlobalConnPool`].
pub struct PoolView<C> {
    pub endpoints: Seq<EndpointView<C>>,
    pub config: PoolConfig,
}

impl<C> PoolView<C> {
    pub open spec fn buckets_of(self, name: Seq<char>) -> Seq<BucketView<C>> {
        buckets_of(self.endpoints, name)
    }

    /// The idle clients filed under `key`, in the order they are served.
    pub open spec fn queue(self, key: ConnKey) -> Seq<IdleClient<C>> {
        queue(self.buckets_of(key.endpoint), key)
    }

    pub open spec fn len(self) -> nat {
        pool_len(self.endpoints)
    }

    pub open spec fn endpoint_len(self, name: Seq<char>) -> nat {
        total(self.buckets_of(name))
    }

    pub open spec fn knows(self, name: Seq<char>) -> bool {
        has_endpoint(self.endpoints, name)
    }

    pub open spec fn last_access(self, name: Seq<char>) -> Option<u64> {
        last_access_of(self.endpoints, name)
    }
}

pub proof fn lemma_endpoint_index<C>(eps: Seq<EndpointView<C>>, name: Seq<char>, i: int)
    requires
        names_unique(eps),
        0 <= i < eps.len(),
        eps[i].name == name,
    ensures
        has_endpoint(eps, name),
        endpoint_index(eps, name) == i,
{
    let j = endpoint_index(eps, name);
    assert(0 <= j < eps.len() && eps[j].name == name);
    if j < i {
        assert(eps[j].name != eps[i].name);
    } else if i < j {
        assert(eps[i].name != eps[j].name);
    }
}

pub proof fn lemma_pool_len_update<C>(eps: Seq<EndpointView<C>>, i: int, ne: EndpointView<C>)
    requires
        0 <= i < eps.len(),
    ensures
        pool_len(eps.update(i, ne)) == pool_len(eps) - total(eps[i].buckets) + total(ne.buckets),
    decreases eps.len(),
{
    let up = eps.update(i, ne);
    if i == eps.len() - 1 {
        assert(up.drop_last() =~= eps.drop_last());
    } else {
        assert(up.drop_last() =~= eps.drop_last().update(i, ne));
        lemma_pool_len_update(eps.drop_last(), i, ne);
    }
}

pub proof fn lemma_pool_len_push<C>(eps: Seq<EndpointView<C>>, ne: EndpointView<C>)
    ensures
        pool_len(eps.push(ne)) == pool_len(eps) + total(ne.buckets),
{
    assert(eps.push(ne).drop_last() =~= eps);
}

pub proof fn lemma_pool_len_remove<C>(eps: Seq<EndpointView<C>>, i: int)
    requires
        0 <= i < eps.len(),
    ensures
        pool_len(eps.remove(i)) == pool_len(eps) - total(eps[i].buckets),
    decreases eps.len(),
{
    let out = eps.remove(i);
    if i == eps.len() - 1 {
        assert(out =~= eps.drop_last());
    } else {
        assert(out.drop_last() =~= eps.drop_last().remove(i));
        assert(out.last() == eps.last());
        lemma_pool_len_remove(eps.drop_last(), i);
    }
}

pub proof fn lemma_pool_len_bounds<C>(eps: Seq<EndpointView<C>>, i: int)
    requires
        0 <= i < eps.len(),
    ensures
        total(eps[i].buckets) <= pool_len(eps),
    decreases eps.len(),
{
    if i < eps.len() - 1 {
        lemma_pool_len_bounds(eps.drop_last(), i);
    }
}

/// Replacing one endpoint's share, under the same name, is seen under that
/// name and under no other.
pub proof fn lemma_endpoint_update<C>(eps: Seq<EndpointView<C>>, i: int, ne: EndpointView<C>)
    requires
        names_unique(eps),
        0 <= i < eps.len(),
        ne.name == eps[i].name,
    ensures
        names_unique(eps.update(i, ne)),
        buckets_of(eps.update(i, ne), ne.name) == ne.buckets,
        last_access_of(eps.update(i, ne), ne.name) == Some(ne.last_access),
        forall|other: Seq<char>|
            other != ne.name ==> buckets_of(eps.update(i, ne), other) == buckets_of(eps, other)
                && last_access_of(eps.update(i, ne), other) == last_access_of(eps, other),
        forall|other: Seq<char>| has_endpoint(eps.update(i, ne), other) == has_endpoint(eps, other),
{
    let out = eps.update(i, ne);
    assert forall|a: int, b: int| 0 <= a < b < out.len() implies (#[trigger] out[a]).name != (
    #[trigger] out[b]).name by {
        assert(out[a].name == eps[a].name);
        assert(out[b].name == eps[b].name);
    }
    assert(out[i] == ne);
    lemma_endpoint_index(out, ne.name, i);
    assert forall|other: Seq<char>| has_endpoint(out, other) == has_endpoint(eps, other) by {
        if has_endpoint(eps, other) {
            let j = endpoint_index(eps, other);
            assert(out[j].name == other);
        }
        if has_endpoint(out, other) {
            let j = endpoint_index(out, other);
            assert(eps[j].name == other);
        }
    }
    assert forall|other: Seq<char>| other != ne.name implies buckets_of(out, other) == buckets_of(
        eps,
        other,
    ) && last_access_of(out, other) == last_access_of(eps, other) by {
        if has_endpoint(eps, other) {
            let j = endpoint_index(eps, other);
            assert(out[j] == eps[j]);
            lemma_endpoint_index(out, other, j);
        }
    }
}

/// A new endpoint's share is seen under its name and under no other.
pub proof fn lemma_endpoint_push<C>(eps: Seq<EndpointView<C>>, ne: EndpointView<C>)
    requires
        names_unique(eps),
        !has_endpoint(eps, ne.name),
    ensures
        names_unique(eps.push(ne)),
        buckets_of(eps.push(ne), ne.name) == ne.buckets,
        last_access_of(eps.push(ne), ne.name) == Some(ne.last_access),
        forall|other: Seq<char>|
            other != ne.name ==> buckets_of(eps.push(ne), other) == buckets_of(eps, other)
                && last_access_of(eps.push(ne), other) == last_access_of(eps, other),
{
    let out = eps.push(ne);
    let i = eps.len() as int;
    assert(out[i] == ne);
    assert forall|a: int, b: int| 0 <= a < b < out.len() implies (#[trigger] out[a]).name != (
    #[trigger] out[b]).name by {
        assert(out[a] == eps[a]);
        if b < i {
            assert(out[b] == eps[b]);
        }
    }
    lemma_endpoint_index(out, ne.name, i);
    assert forall|other: Seq<char>| other != ne.name implies buckets_of(out, other) == buckets_of(
        eps,
        other,
    ) && last_access_of(out, other) == last_access_of(eps, other) by {
        if has_endpoint(eps, other) {
            let j = endpoint_index(eps, other);
            assert(out[j] == eps[j]);
            lemma_endpoint_index(out, other, j);
        } else if has_endpoint(out, other) {
            let j = endpoint_index(out, other);
            if j < i {
                assert(eps[j] == out[j]);
            }
        }
    }
}

/// A client in the hands of a request.
pub struct PooledClient<C> {
    pub inner: C,
    pub conn_id: u128,
    /// The key the client goes back under.
    pub conn_info: ConnInfo,
    pub created: u64,
    /// Set once the connection must not be used again.
    pub discard: bool,
    /// Set once the session holds state that the next user must not see.
    pub dirty: bool,
}

impl<C> PooledClient<C> {
    /// Wraps a connection that was just made.
    pub fn new(inner: C, conn_id: u128, conn_info: ConnInfo, now: u64) -> (r: PooledClient<C>)
        ensures
            r.inner == inner,
            r.conn_id == conn_id,
            r.conn_info == conn_info,
            r.created == now,
            !r.discard,
            !r.dirty,
    {
        PooledClient { inner, conn_id, conn_info, created: now, discard: false, dirty: false }
    }

    /// Marks the connection as unfit for reuse. There is no way back.
    pub fn discard(&mut self)
        ensures
            final(self).discard,
            final(self).inner == old(self).inner,
            final(self).conn_id == old(self).conn_id,
            final(self).conn_info == old(self).conn_info,
            final(self).created == old(self).created,
            final(self).dirty == old(self).dirty,
    {
        self.discard = true;
    }

    /// Takes note of a failed query. A failure that leaves the connection
    /// unusable marks the client as unfit for reuse; any other leaves it as
    /// it was.
    pub fn note_failure(&mut self, connection_fatal: bool)
        ensures
            final(self).discard == (old(self).discard || connection_fatal),
            final(self).inner == old(self).inner,
            final(self).conn_id == old(self).conn_id,
            final(self).conn_info == old(self).conn_info,
            final(self).created == old(self).created,
            final(self).dirty == old(self).dirty,
    {
        if connection_fatal {
            self.discard = true;
        }
    }

    /// Marks the session as holding state of its last user.
    pub fn mark_dirty(&mut self)
        ensures
            final(self).dirty,
            final(self).inner == old(self).inner,
            final(self).conn_id == old(self).conn_id,
            final(self).conn_info == old(self).conn_info,
            final(self).created == old(self).created,
            final(self).discard == old(self).discard,
    {
        self.dirty = true;
    }
}

/// Whether a client may go back to the pool: it was not discarded, its
/// session is clean, and its connection is open.
pub open spec fn healthy<C>(client: PooledClient<C>, closed: bool) -> bool {
    !client.discard && !client.dirty && !closed
}

/// The entry under which a released client rests.
pub open spec fn idle_entry<C>(client: PooledClient<C>, now: u64) -> IdleClient<C> {
    IdleClient {
        client: client.inner,
        conn_id: client.conn_id,
        created: client.created,
        last_use: now,
    }
}

/// The client handed out for an entry that was found under `key`.
pub open spec fn serves<C>(entry: IdleClient<C>, key: ConnKey, client: PooledClient<C>) -> bool {
    &&& client.inner == entry.client
    &&& client.conn_id == entry.conn_id
    &&& client.created == entry.created
    &&& client.conn_info@ == key
    &&& !client.discard
    &&& !client.dirty
}

impl<C> PoolView<C> {
    /// Whether the pool can take one more client for endpoint `name`, be it
    /// by giving up another client of that endpoint.
    pub open spec fn has_room(self, name: Seq<char>) -> bool {
        &&& self.config.max_conns > 0
        &&& self.config.max_conns_per_endpoint > 0
        &&& !(self.endpoint_len(name) == 0 && self.len() >= self.config.max_conns)
    }

    /// Whether one more client for endpoint `name` would break a cap.
    pub open spec fn must_evict(self, name: Seq<char>) -> bool {
        self.endpoint_len(name) >= self.config.max_conns_per_endpoint || self.len()
            >= self.config.max_conns
    }
}

/// What became of a released client.
pub enum ReleaseOutcome<C> {
    /// It was not taken: the caller closes it.
    Closed(C),
    /// It rests in the pool.
    Pooled,
    /// It rests in the pool, and the client given here left the pool to make
    /// room: the caller closes that one.
    PooledEvicting(IdleClient<C>),
}

struct EndpointSlot<C> {
    name: String,
    pool: EndpointPool<C>,
    last_access: u64,
}

/// The pool of idle clients of the whole process.
pub struct GlobalConnPool<C> {
    endpoints: Vec<EndpointSlot<C>>,
    total: usize,
    config: PoolConfig,
}

impl<C> View for GlobalConnPool<C> {
    type V = PoolView<C>;

    closed spec fn view(&self) -> PoolView<C> {
        PoolView {
            endpoints: Seq::new(
                self.endpoints.len() as nat,
                |i: int|
                    EndpointView {
                        name: self.endpoints[i].name@,
                        buckets: self.endpoints[i].pool@,
                        last_access: self.endpoints[i].last_access,
                    },
            ),
            config: self.config,
        }
    }
}

impl<C> GlobalConnPool<C> {
    /// The pool's invariant: one share per endpoint, the count is right, and
    /// both caps hold.
    pub closed spec fn wf(&self) -> bool {
        &&& names_unique(self@.endpoints)
        &&& forall|i: int| 0 <= i < self.endpoints.len() ==> (#[trigger] self.endpoints[i]).pool.wf()
        &&& self.total == pool_len(self@.endpoints)
        &&& self.total <= self.config.max_conns
        &&& forall|i: int|
            0 <= i < self.endpoints.len() ==> total((#[trigger] self@.endpoints[i]).buckets)
                <= self.config.max_conns_per_endpoint
    }

    /// At no time does the pool hold more clients than its configuration
    /// allows, in total or for any one endpoint.
    pub proof fn lemma_caps(&self, name: Seq<char>)
        requires
            self.wf(),
        ensures
            self@.len() <= self@.config.max_conns,
            self@.endpoint_len(name) <= self@.config.max_conns_per_endpoint,
            keys_unique(self@.buckets_of(name)),
            names_unique(self@.endpoints),
    {
        if has_endpoint(self@.endpoints, name) {
            let i = endpoint_index(self@.endpoints, name);
            assert(self@.endpoints[i].buckets == self.endpoints[i].pool@);
            self.endpoints[i].pool.lemma_wf();
        }
    }

    pub fn new(config: PoolConfig) -> (r: GlobalConnPool<C>)
        ensures
            r.wf(),
            r@.config == config,
            r@.endpoints == Seq::<EndpointView<C>>::empty(),
    {
        let r = GlobalConnPool { endpoints: Vec::new(), total: 0, config };
        assert(r@.endpoints =~= Seq::<EndpointView<C>>::empty());
        r
    }

    pub fn config(&self) -> (r: PoolConfig)
        ensures
            r == self@.config,
    {
        self.config
    }

    /// The number of idle clients over all endpoints.
    pub fn len(&self) -> (r: usize)
        requires
            self.wf(),
        ensures
            r == self@.len(),
    {
        self.total
    }

    fn find_endpoint(&self, name: &String) -> (r: Option<usize>)
        requires
            self.wf(),
        ensures
            r is Some == has_endpoint(self@.endpoints, name@),
            r matches Some(i) ==> i < self.endpoints.len() && endpoint_index(
                self@.endpoints,
                name@,
            ) == i,
    {
        let mut i: usize = 0;
        while i < self.endpoints.len()
            invariant
                self.wf(),
                i <= self.endpoints.len(),
                forall|j: int| 0 <= j < i ==> (#[trigger] self@.endpoints[j]).name != name@,
            decreases self.endpoints.len() - i,
        {
            if self.endpoints[i].name == *name {
                proof {
                    assert(self@.endpoints[i as int].name == name@);
                    lemma_endpoint_index(self@.endpoints, name@, i as int);
                }
                return Some(i);
            }
            i = i + 1;
        }
        None
    }

    /// The number of endpoints the pool remembers.
    pub fn endpoint_count(&self) -> (r: usize)
        ensures
            r == self@.endpoints.len(),
    {
        self.endpoints.len()
    }

    /// The number of idle clients of one endpoint.
    pub fn endpoint_len(&self, name: &String) -> (r: usize)
        requires
            self.wf(),
        ensures
            r == self@.endpoint_len(name@),
    {
        match self.find_endpoint(name) {
            None => 0,
            Some(i) => {
                assert(self@.endpoints[i as int].buckets == self.endpoints[i as int].pool@);
                self.endpoints[i].pool.len()
            },
        }
    }

    /// Looks for a client to reuse under `key` at time `now`. The first
    /// client in the queue that has rested for no longer than the idle limit
    /// is served; the expired ones in front of it leave the pool and are
    /// handed out for closing. No other queue changes.
    pub fn get(&mut self, key: &ConnInfo, now: u64) -> (r: (
        Option<PooledClient<C>>,
        Vec<IdleClient<C>>,
    ))
        requires
            old(self).wf(),
        ensures
            final(self).wf(),
            final(self)@.config == old(self)@.config,
            match get_hit(old(self)@.queue(key@), now, old(self)@.config.idle_ttl) {
                Some(entry) => r.0 matches Some(client) && serves(entry, key@, client),
                None => r.0 is None,
            },
            r.1@ == get_expired(old(self)@.queue(key@), now, old(self)@.config.idle_ttl),
            final(self)@.buckets_of(key@.endpoint) == after_get(
                old(self)@.buckets_of(key@.endpoint),
                key@,
                now,
                old(self)@.config.idle_ttl,
            ),
            forall|other: Seq<char>|
                other != key@.endpoint ==> final(self)@.buckets_of(other) == old(self)@.buckets_of(
                    other,
                ) && final(self)@.last_access(other) == old(self)@.last_access(other),
            final(self)@.last_access(key@.endpoint) == if old(self)@.knows(key@.endpoint) {
                Some(now)
            } else {
                None
            },
            final(self)@.len() + r.1@.len() + (if r.0 is Some { 1nat } else { 0nat }) == old(
                self,
            )@.len(),
    {
        let ttl = self.config.idle_ttl;
        match self.find_endpoint(&key.user_info.endpoint.id) {
            None => {
                assert(get_expired(Seq::<IdleClient<C>>::empty(), now, ttl) =~= Seq::empty());
                (None, Vec::new())
            },
            Some(i) => {
                let ghost before = self@.endpoints;
                let ghost old_self = *self;
                assert(before[i as int].buckets == self.endpoints[i as int].pool@);
                let r = self.endpoints[i].pool.get(key, now, ttl);
                self.endpoints[i].last_access = now;
                let hits: usize = if r.0.is_some() { 1 } else { 0 };
                proof {
                    let ne = EndpointView {
                        name: before[i as int].name,
                        buckets: after_get(before[i as int].buckets, key@, now, ttl),
                        last_access: now,
                    };
                    assert(self@.endpoints =~= before.update(i as int, ne));
                    lemma_endpoint_update(before, i as int, ne);
                    lemma_pool_len_update(before, i as int, ne);
                    lemma_pool_len_bounds(before, i as int);
                    assert forall|j: int| 0 <= j < self.endpoints.len() implies (
                    #[trigger] self.endpoints[j]).pool.wf() by {
                        if j != i {
                            assert(self.endpoints[j] == old_self.endpoints[j]);
                        }
                    }
                    assert forall|j: int| 0 <= j < self.endpoints.len() implies total(
                        (#[trigger] self@.endpoints[j]).buckets,
                    ) <= self.config.max_conns_per_endpoint by {
                        if j != i {
                            assert(self@.endpoints[j] == before[j]);
                        }
                    }
                }
                self.total = self.total - (r.1.len() + hits);
                let client = match r.0 {
                    None => None,
                    Some(entry) => Some(
                        PooledClient {
                            inner: entry.client,
                            conn_id: entry.conn_id,
                            conn_info: key.clone(),
                            created: entry.created,
                            discard: false,
                            dirty: false,
                        },
                    ),
                };
                (client, r.1)
            },
        }
    }

    /// Takes a client back at time `now`. `closed` says whether its
    /// connection was found closed.
    ///
    /// A client that was discarded, whose session is dirty, or whose
    /// connection is closed is never pooled; neither is one for which the
    /// pool has no room. It is handed back for closing and the pool stays as
    /// it was. Any other client is filed behind the clients already waiting
    /// under its key. Where that would break a cap, the least recently used
    /// client of the same endpoint leaves first and is handed out for
    /// closing.
    pub fn release(&mut self, client: PooledClient<C>, closed: bool, now: u64) -> (r: ReleaseOutcome<
        C,
    >)
        requires
            old(self).wf(),
        ensures
            final(self).wf(),
            final(self)@.config == old(self)@.config,
            forall|other: Seq<char>|
                other != client.conn_info@.endpoint ==> final(self)@.buckets_of(other) == old(
                    self,
                )@.buckets_of(other) && final(self)@.last_access(other) == old(self)@.last_access(
                    other,
                ),
            ({
                let name = client.conn_info@.endpoint;
                let bs = old(self)@.buckets_of(name);
                let entry = idle_entry(client, now);
                if !healthy(client, closed) || !old(self)@.has_room(name) {
                    &&& r == ReleaseOutcome::Closed(client.inner)
                    &&& final(self)@ == old(self)@
                } else if old(self)@.must_evict(name) {
                    &&& r matches ReleaseOutcome::PooledEvicting(victim)
                    &&& exists|b: int, p: int|
                        is_lru(bs, b, p) && victim == bs[b].idle[p] && final(self)@.buckets_of(name)
                            == after_put(without(bs, b, p), client.conn_info@, entry)
                    &&& final(self)@.len() == old(self)@.len()
                    &&& final(self)@.last_access(name) == Some(now)
                } else {
                    &&& r == ReleaseOutcome::<C>::Pooled
                    &&& final(self)@.buckets_of(name) == after_put(bs, client.conn_info@, entry)
                    &&& final(self)@.len() == old(self)@.len() + 1
                    &&& final(self)@.last_access(name) == Some(now)
                }
            }),
    {
        if client.discard || client.dirty || closed {
            return ReleaseOutcome::Closed(client.inner);
        }
        if self.config.max_conns == 0 || self.config.max_conns_per_endpoint == 0 {
            return ReleaseOutcome::Closed(client.inner);
        }
        let ghost name = client.conn_info@.endpoint;
        let ghost before = self@.endpoints;
        let ghost old_self = *self;
        let found = self.find_endpoint(&client.conn_info.user_info.endpoint.id);
        let here: usize = match found {
            None => 0,
            Some(i) => {
                assert(before[i as int].buckets == self.endpoints[i as int].pool@);
                self.endpoints[i].pool.len()
            },
        };
        let must_evict = here >= self.config.max_conns_per_endpoint || self.total
            >= self.config.max_conns;
        if must_evict && here == 0 {
            return ReleaseOutcome::Closed(client.inner);
        }
        let i: usize = match found {
            Some(i) => i,
            None => {
                let slot = EndpointSlot {
                    name: client.conn_info.user_info.endpoint.id.clone(),
                    pool: EndpointPool::new(),
                    last_access: now,
                };
                self.endpoints.push(slot);
                proof {
                    let ne = EndpointView {
                        name,
                        buckets: Seq::<BucketView<C>>::empty(),
                        last_access: now,
                    };
                    assert(self@.endpoints =~= before.push(ne));
                    lemma_endpoint_push(before, ne);
                    lemma_pool_len_push(before, ne);
                    assert forall|j: int| 0 <= j < self.endpoints.len() implies (
                    #[trigger] self.endpoints[j]).pool.wf() by {
                        if j < before.len() {
                            assert(self.endpoints[j] == old_self.endpoints[j]);
                        }
                    }
                    assert forall|j: int| 0 <= j < self.endpoints.len() implies total(
                        (#[trigger] self@.endpoints[j]).buckets,
                    ) <= self.config.max_conns_per_endpoint by {
                        if j < before.len() {
                            assert(self@.endpoints[j] == before[j]);
                        }
                    }
                }
                self.endpoints.len() - 1
            },
        };
        let ghost mid = self@.endpoints;
        let ghost mid_self = *self;
        let ghost bs = mid[i as int].buckets;
        assert(bs == self.endpoints[i as int].pool@);
        assert(bs == buckets_of(before, name));
        assert(mid[i as int].name == name);
        let entry = IdleClient {
            client: client.inner,
            conn_id: client.conn_id,
            created: client.created,
            last_use: now,
        };
        proof {
            lemma_pool_len_bounds(mid, i as int);
        }
        let evicted = if must_evict {
            let v = self.endpoints[i].pool.evict_lru();
            self.total = self.total - 1;
            v
        } else {
            None
        };
        let ghost room = self.endpoints[i as int].pool@;
        proof {
            self.endpoints[i as int].pool.lemma_wf();
        }
        self.endpoints[i].pool.put(&client.conn_info, entry);
        self.endpoints[i].last_access = now;
        self.total = self.total + 1;
        proof {
            let ne = EndpointView {
                name,
                buckets: after_put(room, client.conn_info@, entry),
                last_access: now,
            };
            assert(self@.endpoints =~= mid.update(i as int, ne));
            lemma_endpoint_update(mid, i as int, ne);
            lemma_pool_len_update(mid, i as int, ne);
            assert forall|j: int| 0 <= j < self.endpoints.len() implies (
            #[trigger] self.endpoints[j]).pool.wf() by {
                if j != i {
                    assert(self.endpoints[j] == mid_self.endpoints[j]);
                }
            }
            assert forall|j: int| 0 <= j < self.endpoints.len() implies total(
                (#[trigger] self@.endpoints[j]).buckets,
            ) <= self.config.max_conns_per_endpoint by {
                if j != i {
                    assert(self@.endpoints[j] == mid[j]);
                }
            }
        }
        match evicted {
            None => ReleaseOutcome::Pooled,
            Some(victim) => ReleaseOutcome::PooledEvicting(victim),
        }
    }

    /// Forgets every endpoint that holds no client and was last touched more
    /// than the gc horizon before `now`. Returns how many were forgotten. No
    /// client leaves the pool.
    pub fn gc(&mut self, now: u64) -> (removed: usize)
        requires
            old(self).wf(),
        ensures
            final(self).wf(),
            final(self)@.config == old(self)@.config,
            final(self)@.len() == old(self)@.len(),
            removed == old(self)@.endpoints.len() - final(self)@.endpoints.len(),
            forall|name: Seq<char>|
                final(self)@.knows(name) == (old(self)@.knows(name) && !removable(
                    old(self)@.endpoints[endpoint_index(old(self)@.endpoints, name)],
                    now,
                    old(self)@.config.gc_horizon,
                )),
            forall|name: Seq<char>|
                final(self)@.knows(name) ==> final(self)@.buckets_of(name) == old(self)@.buckets_of(
                    name,
                ) && final(self)@.last_access(name) == old(self)@.last_access(name),
    {
        let horizon = self.config.gc_horizon;
        let ghost before = self@.endpoints;
        let ghost old_self = *self;
        let ghost mut kept: Seq<int> = Seq::new(before.len(), |j: int| j);
        let mut removed: usize = 0;
        let mut i: usize = 0;
        proof {
            assert forall|m: int| 0 <= m < before.len() implies removable(
                #[trigger] before[m],
                now,
                horizon,
            ) || exists|j: int| 0 <= j < kept.len() && #[trigger] kept[j] == m by {
                assert(kept[m] == m);
            }
        }
        while i < self.endpoints.len()
            invariant
                old_self.wf(),
                before == old_self@.endpoints,
                self.config == old_self.config,
                horizon == self.config.gc_horizon,
                self.total == old_self.total,
                self.total == pool_len(self@.endpoints),
                i <= self.endpoints.len(),
                kept.len() == self.endpoints.len(),
                removed + self.endpoints.len() == before.len(),
                forall|j: int| 0 <= j < kept.len() ==> 0 <= #[trigger] kept[j] < before.len(),
                forall|a: int, b: int| 0 <= a < b < kept.len() ==> #[trigger] kept[a] < #[trigger] kept[b],
                forall|j: int|
                    0 <= j < kept.len() ==> (#[trigger] self.endpoints[j]) == old_self.endpoints[kept[j]],
                forall|m: int|
                    0 <= m < before.len() ==> removable(#[trigger] before[m], now, horizon) || exists|
                        j: int,
                    |
                        0 <= j < kept.len() && #[trigger] kept[j] == m,
                forall|j: int| 0 <= j < i ==> !removable(#[trigger] self@.endpoints[j], now, horizon),
            decreases self.endpoints.len() - i,
        {
            assert(self.endpoints[i as int] == old_self.endpoints[kept[i as int]]);
            assert(self@.endpoints[i as int] == before[kept[i as int]]);
            let last = self.endpoints[i].last_access;
            let stale = now > last && now - last > horizon;
            if stale && self.endpoints[i].pool.len() == 0 {
                let ghost cur = self@.endpoints;
                let ghost cur_self = *self;
                proof {
                    lemma_pool_len_remove(cur, i as int);
                }
                let _gone = self.endpoints.remove(i);
                removed = removed + 1;
                proof {
                    let prev = kept;
                    kept = kept.remove(i as int);
                    assert(self@.endpoints =~= cur.remove(i as int));
                    assert forall|j: int| 0 <= j < kept.len() implies (
                    #[trigger] self.endpoints[j]) == old_self.endpoints[kept[j]] by {
                        if j < i {
                            assert(self.endpoints[j] == cur_self.endpoints[j]);
                            assert(kept[j] == prev[j]);
                        } else {
                            assert(self.endpoints[j] == cur_self.endpoints[j + 1]);
                            assert(kept[j] == prev[j + 1]);
                        }
                    }
                    assert forall|a: int, b: int| 0 <= a < b < kept.len() implies #[trigger] kept[a]
                        < #[trigger] kept[b] by {
                        let a0 = if a < i { a } else { a + 1 };
                        let b0 = if b < i { b } else { b + 1 };
                        assert(kept[a] == prev[a0] && kept[b] == prev[b0]);
                    }
                    assert forall|m: int| 0 <= m < before.len() implies removable(
                        #[trigger] before[m],
                        now,
                        horizon,
                    ) || exists|j: int| 0 <= j < kept.len() && #[trigger] kept[j] == m by {
                        if !removable(before[m], now, horizon) {
                            let j0 = choose|j: int| 0 <= j < prev.len() && #[trigger] prev[j] == m;
                            assert(j0 != i);
                            let j1 = if j0 < i { j0 } else { j0 - 1 };
                            assert(kept[j1] == m);
                        }
                    }
                    assert forall|j: int| 0 <= j < i implies !removable(
                        #[trigger] self@.endpoints[j],
                        now,
                        horizon,
                    ) by {
                        assert(self@.endpoints[j] == cur[j]);
                    }
                }
            } else {
                i = i + 1;
            }
        }
        proof {
            let after = self@.endpoints;
            assert forall|j: int| 0 <= j < after.len() implies #[trigger] after[j] == before[kept[j]] by {
                assert(self.endpoints[j] == old_self.endpoints[kept[j]]);
            }
            assert forall|a: int, b: int| 0 <= a < b < after.len() implies (#[trigger] after[a]).name
                != (#[trigger] after[b]).name by {
                assert(kept[a] < kept[b]);
                assert(before[kept[a]].name != before[kept[b]].name);
            }
            assert forall|j: int| 0 <= j < self.endpoints.len() implies (
            #[trigger] self.endpoints[j]).pool.wf() by {
                assert(self.endpoints[j] == old_self.endpoints[kept[j]]);
            }
            assert forall|j: int| 0 <= j < self.endpoints.len() implies total(
                (#[trigger] self@.endpoints[j]).buckets,
            ) <= self.config.max_conns_per_endpoint by {
                assert(after[j] == before[kept[j]]);
            }
            assert forall|name: Seq<char>|
                has_endpoint(after, name) == (has_endpoint(before, name) && !removable(
                    before[endpoint_index(before, name)],
                    now,
                    horizon,
                )) && (has_endpoint(after, name) ==> buckets_of(after, name) == buckets_of(
                    before,
                    name,
                ) && last_access_of(after, name) == last_access_of(before, name)) by {
                if has_endpoint(after, name) {
                    let j = endpoint_index(after, name);
                    assert(after[j] == before[kept[j]]);
                    lemma_endpoint_index(before, name, kept[j]);
                    assert(!removable(after[j], now, horizon));
                }
                if has_endpoint(before, name) && !removable(
                    before[endpoint_index(before, name)],
                    now,
                    horizon,
                ) {
                    let m = endpoint_index(before, name);
                    let j = choose|j: int| 0 <= j < kept.len() && #[trigger] kept[j] == m;
                    assert(after[j] == before[m]);
                }
            }
        }
        removed
    }
}

/// Whether the pool may forget an endpoint at time `now`: it holds no
/// client, and was last touched more than `horizon` ago.
pub open spec fn removable<C>(e: EndpointView<C>, now: u64, horizon: u64) -> bool {
    total(e.buckets) == 0 && is_expired(e.last_access, now, horizon)
}

/// The expired clients of the first `n` endpoints, endpoint by endpoint.
pub open spec fn dead_upto<C>(eps: Seq<EndpointView<C>>, n: nat, now: u64, ttl: u64) -> Seq<
    IdleClient<C>,
>
    decreases n,
{
    if n == 0 {
        Seq::empty()
    } else {
        dead_upto(eps, (n - 1) as nat, now, ttl) + dead_clients(eps[n - 1].buckets, now, ttl)
    }
}

impl<C> GlobalConnPool<C> {
    /// Takes every client that has rested for longer than the idle limit
    /// out of the pool and hands it out for closing. The clients that stay
    /// keep their places.
    pub fn sweep(&mut self, now: u64) -> (r: Vec<IdleClient<C>>)
        requires
            old(self).wf(),
        ensures
            final(self).wf(),
            final(self)@.config == old(self)@.config,
            forall|name: Seq<char>|
                final(self)@.buckets_of(name) == swept(
                    old(self)@.buckets_of(name),
                    now,
                    old(self)@.config.idle_ttl,
                ) && final(self)@.last_access(name) == old(self)@.last_access(name),
            r@ == dead_upto(
                old(self)@.endpoints,
                old(self)@.endpoints.len(),
                now,
                old(self)@.config.idle_ttl,
            ),
            final(self)@.len() + r@.len() == old(self)@.len(),
    {
        let ttl = self.config.idle_ttl;
        let ghost before = self@.endpoints;
        let ghost old_self = *self;
        let mut closed: Vec<IdleClient<C>> = Vec::new();
        let mut i: usize = 0;
        assert(closed@ =~= dead_upto(before, 0, now, ttl));
        while i < self.endpoints.len()
            invariant
                old_self.wf(),
                before == old_self@.endpoints,
                self.config == old_self.config,
                ttl == self.config.idle_ttl,
                i <= self.endpoints.len() == before.len(),
                self@.endpoints.len() == before.len(),
                forall|j: int|
                    0 <= j < i ==> #[trigger] self@.endpoints[j] == (EndpointView {
                        buckets: swept(before[j].buckets, now, ttl),
                        ..before[j]
                    }),
                forall|j: int| i <= j < before.len() ==> #[trigger] self@.endpoints[j] == before[j],
                forall|j: int| i <= j < before.len() ==> (#[trigger] self.endpoints[j]).pool.wf(),
                forall|j: int| 0 <= j < i ==> (#[trigger] self.endpoints[j]).pool.wf(),
                forall|j: int|
                    0 <= j < before.len() ==> total((#[trigger] self@.endpoints[j]).buckets)
                        <= self.config.max_conns_per_endpoint,
                closed@ == dead_upto(before, i as nat, now, ttl),
                self.total == pool_len(self@.endpoints),
                self.total + closed@.len() == old_self.total,
            decreases self.endpoints.len() - i,
        {
            let ghost cur = self@.endpoints;
            let ghost cur_self = *self;
            let ghost had = closed@;
            assert(cur[i as int] == before[i as int]);
            assert(cur[i as int].buckets == self.endpoints[i as int].pool@);
            let was = self.endpoints[i].pool.len();
            self.endpoints[i].pool.sweep(&mut closed, now, ttl);
            let left = self.endpoints[i].pool.len();
            proof {
                let ne = EndpointView {
                    buckets: swept(before[i as int].buckets, now, ttl),
                    ..before[i as int]
                };
                assert(self@.endpoints =~= cur.update(i as int, ne));
                lemma_pool_len_update(cur, i as int, ne);
                lemma_pool_len_bounds(cur, i as int);
                assert forall|j: int| 0 <= j < before.len() && j != i implies (
                #[trigger] self.endpoints[j]) == cur_self.endpoints[j] by {}
                assert(closed@ =~= dead_upto(before, (i + 1) as nat, now, ttl));
            }
            self.total = self.total - (was - left);
            i = i + 1;
        }
        proof {
            let after = self@.endpoints;
            assert forall|a: int, b: int| 0 <= a < b < after.len() implies (#[trigger] after[a]).name
                != (#[trigger] after[b]).name by {
                assert(after[a].name == before[a].name);
                assert(after[b].name == before[b].name);
            }
            assert forall|name: Seq<char>| buckets_of(after, name) == swept(
                buckets_of(before, name),
                now,
                ttl,
            ) && last_access_of(after, name) == last_access_of(before, name) by {
                if has_endpoint(before, name) {
                    let j = endpoint_index(before, name);
                    assert(after[j].name == name);
                    lemma_endpoint_index(after, name, j);
                } else {
                    if has_endpoint(after, name) {
                        let j = endpoint_index(after, name);
                        assert(before[j].name == name);
                    }
                    assert(swept(Seq::<BucketView<C>>::empty(), now, ttl) =~= Seq::empty());
                }
            }
        }
        closed
    }
}

} // verus!
