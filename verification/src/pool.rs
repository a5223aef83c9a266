//! The idle clients of one endpoint: a queue per connection key, served
//! oldest first, with least-recently-used eviction across the endpoint.

use vstd::prelude::*;
use crate::types::{ConnInfo, ConnKey};

verus! {

/// A client at rest in a pool.
pub struct IdleClient<C> {
    pub client: C,
    pub conn_id: u128,
    /// When the connection was made.
    pub created: u64,
    /// When the client was last handed back.
    pub last_use: u64,
}

/// Mathematical value of one queue of idle clients. Position 0 is served
/// first; released clients enter at the far end.
pub struct BucketView<C> {
    pub key: ConnKey,
    pub idle: Seq<IdleClient<C>>,
}

/// Whether a client last used at `last_use` has been idle for longer than
/// `ttl` at time `now`.
pub open spec fn is_expired(last_use: u64, now: u64, ttl: u64) -> bool {
    now > last_use && now - last_use > ttl
}

/// How many clients at the front of `q` have outlived `ttl`.
pub open spec fn expired_prefix<C>(q: Seq<IdleClient<C>>, now: u64, ttl: u64) -> nat
    decreases q.len(),
{
    if q.len() > 0 && is_expired(q[0].last_use, now, ttl) {
        1 + expired_prefix(q.drop_first(), now, ttl)
    } else {
        0
    }
}

/// The client a lookup serves from `q`: the first that has not expired.
pub open spec fn get_hit<C>(q: Seq<IdleClient<C>>, now: u64, ttl: u64) -> Option<IdleClient<C>> {
    let k = expired_prefix(q, now, ttl) as int;
    if k < q.len() {
        Some(q[k])
    } else {
        None
    }
}

/// The clients a lookup closes: the expired ones in front of the hit.
pub open spec fn get_expired<C>(q: Seq<IdleClient<C>>, now: u64, ttl: u64) -> Seq<IdleClient<C>> {
    q.subrange(0, expired_prefix(q, now, ttl) as int)
}

/// What a lookup leaves in the queue: everything behind the hit.
pub open spec fn get_rest<C>(q: Seq<IdleClient<C>>, now: u64, ttl: u64) -> Seq<IdleClient<C>> {
    let k = expired_prefix(q, now, ttl) as int;
    if k < q.len() {
        q.subrange(k + 1, q.len() as int)
    } else {
        Seq::empty()
    }
}

pub open spec fn has_key<C>(bs: Seq<BucketView<C>>, key: ConnKey) -> bool {
    exists|i: int| 0 <= i < bs.len() && (#[trigger] bs[i]).key == key
}

pub open spec fn key_index<C>(bs: Seq<BucketView<C>>, key: ConnKey) -> int {
    choose|i: int| 0 <= i < bs.len() && (#[trigger] bs[i]).key == key
}

/// No two queues share a key.
pub open spec fn keys_unique<C>(bs: Seq<BucketView<C>>) -> bool {
    forall|i: int, j: int|
        0 <= i < j < bs.len() ==> (#[trigger] bs[i]).key != (#[trigger] bs[j]).key
}

/// The queue filed under `key`; empty where there is none.
pub open spec fn queue<C>(bs: Seq<BucketView<C>>, key: ConnKey) -> Seq<IdleClient<C>> {
    if has_key(bs, key) {
        bs[key_index(bs, key)].idle
    } else {
        Seq::empty()
    }
}

/// `bs` with the queue under `key` replaced by `q`. A key that is new gets
/// a queue of its own behind all others.
pub open spec fn with_queue<C>(bs: Seq<BucketView<C>>, key: ConnKey, q: Seq<IdleClient<C>>) -> Seq<
    BucketView<C>,
> {
    if has_key(bs, key) {
        bs.update(key_index(bs, key), BucketView { key, idle: q })
    } else {
        bs.push(BucketView { key, idle: q })
    }
}

/// The queues after a lookup of `key`.
pub open spec fn after_get<C>(bs: Seq<BucketView<C>>, key: ConnKey, now: u64, ttl: u64) -> Seq<
    BucketView<C>,
> {
    if has_key(bs, key) {
        with_queue(bs, key, get_rest(queue(bs, key), now, ttl))
    } else {
        bs
    }
}

/// The queues after `entry` is filed under `key`.
pub open spec fn after_put<C>(bs: Seq<BucketView<C>>, key: ConnKey, entry: IdleClient<C>) -> Seq<
    BucketView<C>,
> {
    with_queue(bs, key, queue(bs, key).push(entry))
}

/// The number of idle clients in all queues together.
pub open spec fn total<C>(bs: Seq<BucketView<C>>) -> nat
    decreases bs.len(),
{
    if bs.len() == 0 {
        0
    } else {
        total(bs.drop_last()) + bs.last().idle.len()
    }
}

pub open spec fn in_pool<C>(bs: Seq<BucketView<C>>, b: int, p: int) -> bool {
    0 <= b < bs.len() && 0 <= p < bs[b].idle.len()
}

/// Whether the client at `(b1, p1)` is to be evicted before the one at
/// `(b2, p2)`: it was used less recently, or as recently and sits in an
/// older queue, or in the same queue nearer the front.
pub open spec fn evicted_before<C>(bs: Seq<BucketView<C>>, b1: int, p1: int, b2: int, p2: int) -> bool {
    let u1 = bs[b1].idle[p1].last_use;
    let u2 = bs[b2].idle[p2].last_use;
    u1 < u2 || (u1 == u2 && (b1 < b2 || (b1 == b2 && p1 <= p2)))
}

/// Whether `(b, p)` is the least recently used client of the endpoint.
pub open spec fn is_lru<C>(bs: Seq<BucketView<C>>, b: int, p: int) -> bool {
    &&& in_pool(bs, b, p)
    &&& forall|b2: int, p2: int| #[trigger] in_pool(bs, b2, p2) ==> evicted_before(bs, b, p, b2, p2)
}

/// The queues after the client at `(b, p)` is taken out.
pub open spec fn without<C>(bs: Seq<BucketView<C>>, b: int, p: int) -> Seq<BucketView<C>> {
    bs.update(b, BucketView { key: bs[b].key, idle: bs[b].idle.remove(p) })
}

pub proof fn lemma_total_update<C>(bs: Seq<BucketView<C>>, i: int, nb: BucketView<C>)
    requires
        0 <= i < bs.len(),
    ensures
        total(bs.update(i, nb)) == total(bs) - bs[i].idle.len() + nb.idle.len(),
    decreases bs.len(),
{
    let up = bs.update(i, nb);
    if i == bs.len() - 1 {
        assert(up.drop_last() =~= bs.drop_last());
    } else {
        assert(up.drop_last() =~= bs.drop_last().update(i, nb));
        lemma_total_update(bs.drop_last(), i, nb);
    }
}

pub proof fn lemma_total_push<C>(bs: Seq<BucketView<C>>, nb: BucketView<C>)
    ensures
        total(bs.push(nb)) == total(bs) + nb.idle.len(),
{
    assert(bs.push(nb).drop_last() =~= bs);
}

/// A queue is never longer than the endpoint's total.
pub proof fn lemma_total_bounds<C>(bs: Seq<BucketView<C>>, i: int)
    requires
        0 <= i < bs.len(),
    ensures
        bs[i].idle.len() <= total(bs),
    decreases bs.len(),
{
    if i < bs.len() - 1 {
        lemma_total_bounds(bs.drop_last(), i);
    }
}

pub proof fn lemma_key_index<C>(bs: Seq<BucketView<C>>, key: ConnKey, i: int)
    requires
        keys_unique(bs),
        0 <= i < bs.len(),
        bs[i].key == key,
    ensures
        has_key(bs, key),
        key_index(bs, key) == i,
{
    let j = key_index(bs, key);
    assert(0 <= j < bs.len() && bs[j].key == key);
    if j != i {
        if j < i {
            assert(bs[j].key != bs[i].key);
        } else {
            assert(bs[i].key != bs[j].key);
        }
    }
}

pub proof fn lemma_expired_prefix<C>(q: Seq<IdleClient<C>>, now: u64, ttl: u64, k: int)
    requires
        0 <= k <= q.len(),
        forall|j: int| 0 <= j < k ==> is_expired(#[trigger] q[j].last_use, now, ttl),
        k < q.len() ==> !is_expired(q[k].last_use, now, ttl),
    ensures
        expired_prefix(q, now, ttl) == k,
    decreases k,
{
    if k > 0 {
        let t = q.drop_first();
        assert forall|j: int| 0 <= j < k - 1 implies is_expired(#[trigger] t[j].last_use, now, ttl) by {
            assert(t[j] == q[j + 1]);
        }
        if k < q.len() {
            assert(t[k - 1] == q[k]);
        }
        assert(is_expired(q[0].last_use, now, ttl));
        lemma_expired_prefix(t, now, ttl, k - 1);
    }
}

/// Replacing a queue keeps the keys apart, and is seen under its key and
/// under no other.
pub proof fn lemma_with_queue<C>(bs: Seq<BucketView<C>>, key: ConnKey, q: Seq<IdleClient<C>>)
    requires
        keys_unique(bs),
    ensures
        keys_unique(with_queue(bs, key, q)),
        queue(with_queue(bs, key, q), key) == q,
        forall|other: ConnKey| other != key ==> queue(with_queue(bs, key, q), other) == queue(bs, other),
        total(with_queue(bs, key, q)) == total(bs) - queue(bs, key).len() + q.len(),
{
    let nb = BucketView { key, idle: q };
    let out = with_queue(bs, key, q);
    if has_key(bs, key) {
        let i = key_index(bs, key);
        assert(out[i] == nb);
        lemma_total_update(bs, i, nb);
        assert forall|a: int, b: int| 0 <= a < b < out.len() implies (#[trigger] out[a]).key != (#[trigger] out[b]).key by {
            assert(out[a].key == bs[a].key);
            assert(out[b].key == bs[b].key);
        }
        lemma_key_index(out, key, i);
        assert forall|other: ConnKey| other != key implies queue(out, other) == queue(bs, other) by {
            if has_key(bs, other) {
                let j = key_index(bs, other);
                assert(out[j] == bs[j]);
                lemma_key_index(out, other, j);
            } else {
                if has_key(out, other) {
                    let j = key_index(out, other);
                    assert(bs[j].key == other);
                }
            }
        }
    } else {
        let i = bs.len() as int;
        assert(out[i] == nb);
        lemma_total_push(bs, nb);
        assert forall|a: int, b: int| 0 <= a < b < out.len() implies (#[trigger] out[a]).key != (#[trigger] out[b]).key by {
            assert(out[a] == bs[a]);
            if b < i {
                assert(out[b] == bs[b]);
            }
        }
        lemma_key_index(out, key, i);
        assert forall|other: ConnKey| other != key implies queue(out, other) == queue(bs, other) by {
            if has_key(bs, other) {
                let j = key_index(bs, other);
                assert(out[j] == bs[j]);
                lemma_key_index(out, other, j);
            } else {
                if has_key(out, other) {
                    let j = key_index(out, other);
                    if j < i {
                        assert(bs[j] == out[j]);
                    }
                }
            }
        }
    }
}

/// Serves the first client of `idle` that has not expired and takes the
/// expired ones in front of it out of the queue.
fn take_live<C>(idle: &mut Vec<IdleClient<C>>, now: u64, ttl: u64) -> (r: (
    Option<IdleClient<C>>,
    Vec<IdleClient<C>>,
))
    ensures
        r.0 == get_hit(old(idle)@, now, ttl),
        r.1@ == get_expired(old(idle)@, now, ttl),
        final(idle)@ == get_rest(old(idle)@, now, ttl),
{
    let ghost q = idle@;
    let n = idle.len();
    let mut expired: Vec<IdleClient<C>> = Vec::new();
    let mut k: usize = 0;
    loop
        invariant
            k <= q.len() == n,
            idle@ == q.subrange(k as int, q.len() as int),
            expired@ == q.subrange(0, k as int),
            forall|j: int| 0 <= j < k ==> is_expired(#[trigger] q[j].last_use, now, ttl),
        ensures
            k < q.len() ==> !is_expired(q[k as int].last_use, now, ttl),
            k == q.len() || idle@.len() > 0,
        decreases q.len() - k,
    {
        if idle.len() == 0 {
            break ;
        }
        assert(idle@[0] == q[k as int]);
        let last_use = idle[0].last_use;
        if !(now > last_use && now - last_use > ttl) {
            break ;
        }
        let gone = idle.remove(0);
        expired.push(gone);
        k = k + 1;
        assert(idle@ =~= q.subrange(k as int, q.len() as int));
        assert(expired@ =~= q.subrange(0, k as int));
    }
    proof {
        lemma_expired_prefix(q, now, ttl, k as int);
    }
    if idle.len() == 0 {
        assert(idle@ =~= Seq::empty());
        (None, expired)
    } else {
        let hit = idle.remove(0);
        assert(idle@ =~= q.subrange(k + 1, q.len() as int));
        (Some(hit), expired)
    }
}

/// One queue of idle clients and the key it is filed under.
pub struct ConnBucket<C> {
    key: ConnInfo,
    idle: Vec<IdleClient<C>>,
}

/// The idle clients of one endpoint.
pub struct EndpointPool<C> {
    buckets: Vec<ConnBucket<C>>,
    count: usize,
}

impl<C> View for EndpointPool<C> {
    type V = Seq<BucketView<C>>;

    closed spec fn view(&self) -> Seq<BucketView<C>> {
        Seq::new(
            self.buckets.len() as nat,
            |i: int| BucketView { key: self.buckets[i].key@, idle: self.buckets[i].idle@ },
        )
    }
}

impl<C> EndpointPool<C> {
    /// The queues' keys are distinct and the running count is right.
    pub closed spec fn wf(&self) -> bool {
        &&& keys_unique(self@)
        &&& self.count == total(self@)
    }

    pub proof fn lemma_wf(&self)
        requires
            self.wf(),
        ensures
            keys_unique(self@),
            total(self@) <= usize::MAX,
    {
    }

    pub fn new() -> (r: EndpointPool<C>)
        ensures
            r.wf(),
            r@ == Seq::<BucketView<C>>::empty(),
    {
        let r = EndpointPool { buckets: Vec::new(), count: 0 };
        assert(r@ =~= Seq::<BucketView<C>>::empty());
        r
    }

    /// The number of idle clients.
    pub fn len(&self) -> (r: usize)
        requires
            self.wf(),
        ensures
            r == total(self@),
    {
        self.count
    }

    fn find(&self, key: &ConnInfo) -> (r: Option<usize>)
        requires
            self.wf(),
        ensures
            r is Some == has_key(self@, key@),
            r matches Some(i) ==> i < self.buckets.len() && key_index(self@, key@) == i,
    {
        let mut i: usize = 0;
        while i < self.buckets.len()
            invariant
                self.wf(),
                i <= self.buckets.len(),
                forall|j: int| 0 <= j < i ==> (#[trigger] self@[j]).key != key@,
            decreases self.buckets.len() - i,
        {
            if self.buckets[i].key.same_key(key) {
                proof {
                    assert(self@[i as int].key == key@);
                    lemma_key_index(self@, key@, i as int);
                }
                return Some(i);
            }
            i = i + 1;
        }
        None
    }

    /// Looks `key` up at time `now`: serves the first client under it that
    /// has been idle for no longer than `ttl`, and hands out the expired
    /// ones in front of it for closing.
    pub fn get(&mut self, key: &ConnInfo, now: u64, ttl: u64) -> (r: (
        Option<IdleClient<C>>,
        Vec<IdleClient<C>>,
    ))
        requires
            old(self).wf(),
        ensures
            final(self).wf(),
            r.0 == get_hit(queue(old(self)@, key@), now, ttl),
            r.1@ == get_expired(queue(old(self)@, key@), now, ttl),
            final(self)@ == after_get(old(self)@, key@, now, ttl),
            total(final(self)@) + r.1@.len() + (if r.0 is Some { 1nat } else { 0nat }) == total(
                old(self)@,
            ),
    {
        match self.find(key) {
            None => {
                assert(get_expired(Seq::<IdleClient<C>>::empty(), now, ttl) =~= Seq::empty());
                (None, Vec::new())
            },
            Some(i) => {
                let ghost before = self@;
                let ghost q = before[i as int].idle;
                assert(before[i as int].key == key@);
                let r = take_live(&mut self.buckets[i].idle, now, ttl);
                proof {
                    let nb = BucketView { key: key@, idle: get_rest(q, now, ttl) };
                    assert(self@ =~= before.update(i as int, nb));
                    lemma_total_update(before, i as int, nb);
                    lemma_with_queue(before, key@, get_rest(q, now, ttl));
                    lemma_total_bounds(before, i as int);
                    lemma_expired_prefix_bound(q, now, ttl);
                }
                let hits: usize = if r.0.is_some() { 1 } else { 0 };
                let taken: usize = r.1.len() + hits;
                self.count = self.count - taken;
                r
            },
        }
    }

    /// Files `entry` under `key`, behind the clients already there.
    pub fn put(&mut self, key: &ConnInfo, entry: IdleClient<C>)
        requires
            old(self).wf(),
            total(old(self)@) < usize::MAX,
        ensures
            final(self).wf(),
            final(self)@ == after_put(old(self)@, key@, entry),
            total(final(self)@) == total(old(self)@) + 1,
    {
        let ghost before = self@;
        proof {
            lemma_with_queue(before, key@, queue(before, key@).push(entry));
        }
        match self.find(key) {
            None => {
                let mut idle: Vec<IdleClient<C>> = Vec::new();
                idle.push(entry);
                self.buckets.push(ConnBucket { key: key.clone(), idle });
                assert(self@ =~= after_put(before, key@, entry));
            },
            Some(i) => {
                self.buckets[i].idle.push(entry);
                assert(self@ =~= after_put(before, key@, entry));
            },
        }
        self.count = self.count + 1;
    }

    /// Takes out the least recently used client of the endpoint, if there is
    /// any client at all.
    pub fn evict_lru(&mut self) -> (r: Option<IdleClient<C>>)
        requires
            old(self).wf(),
        ensures
            final(self).wf(),
            r is None == (total(old(self)@) == 0),
            r is None ==> final(self)@ == old(self)@,
            r matches Some(victim) ==> exists|b: int, p: int|
                is_lru(old(self)@, b, p) && victim == old(self)@[b].idle[p] && final(self)@
                    == without(old(self)@, b, p),
            r is Some ==> total(final(self)@) == total(old(self)@) - 1,
    {
        let ghost bs = self@;
        let mut best: Option<(usize, usize)> = None;
        let mut b: usize = 0;
        while b < self.buckets.len()
            invariant
                bs == self@,
                b <= self.buckets.len(),
                best matches Some(w) ==> in_pool(bs, w.0 as int, w.1 as int) && w.0 < b,
                best matches Some(w) ==> forall|b2: int, p2: int|
                    #[trigger] in_pool(bs, b2, p2) && b2 < b ==> evicted_before(
                        bs,
                        w.0 as int,
                        w.1 as int,
                        b2,
                        p2,
                    ),
                best is None ==> forall|b2: int, p2: int| #[trigger] in_pool(bs, b2, p2) ==> b2 >= b,
            decreases self.buckets.len() - b,
        {
            let mut p: usize = 0;
            while p < self.buckets[b as usize].idle.len()
                invariant
                    bs == self@,
                    b < self.buckets.len(),
                    p <= self.buckets[b as int].idle.len(),
                    best matches Some(w) ==> in_pool(bs, w.0 as int, w.1 as int) && (w.0 < b || (w.0
                        == b && w.1 < p)),
                    best matches Some(w) ==> forall|b2: int, p2: int|
                        #[trigger] in_pool(bs, b2, p2) && (b2 < b || (b2 == b && p2 < p))
                            ==> evicted_before(bs, w.0 as int, w.1 as int, b2, p2),
                    best is None ==> forall|b2: int, p2: int|
                        #[trigger] in_pool(bs, b2, p2) ==> b2 > b || (b2 == b && p2 >= p),
                decreases self.buckets[b as int].idle.len() - p,
            {
                assert(bs[b as int].idle[p as int] == self.buckets[b as int].idle[p as int]);
                let u = self.buckets[b].idle[p].last_use;
                let better = match best {
                    None => true,
                    Some(w) => {
                        assert(bs[w.0 as int].idle[w.1 as int] == self.buckets[w.0 as int].idle[w.1 as int]);
                        u < self.buckets[w.0].idle[w.1].last_use
                    },
                };
                if better {
                    best = Some((b, p));
                }
                p = p + 1;
            }
            b = b + 1;
        }
        match best {
            None => {
                proof {
                    lemma_total_zero(bs);
                }
                None
            },
            Some(w) => {
                proof {
                    assert(is_lru(bs, w.0 as int, w.1 as int));
                    let nb = BucketView {
                        key: bs[w.0 as int].key,
                        idle: bs[w.0 as int].idle.remove(w.1 as int),
                    };
                    lemma_total_update(bs, w.0 as int, nb);
                    lemma_total_bounds(bs, w.0 as int);
                }
                let victim = self.buckets[w.0].idle.remove(w.1);
                self.count = self.count - 1;
                proof {
                    let out = without(bs, w.0 as int, w.1 as int);
                    assert(self@ =~= out);
                    assert forall|i: int, j: int| 0 <= i < j < out.len() implies (#[trigger] out[i]).key != (#[trigger] out[j]).key by {
                        assert(out[i].key == bs[i].key);
                        assert(out[j].key == bs[j].key);
                    }
                }
                Some(victim)
            },
        }
    }
}

pub proof fn lemma_expired_prefix_bound<C>(q: Seq<IdleClient<C>>, now: u64, ttl: u64)
    ensures
        expired_prefix(q, now, ttl) <= q.len(),
    decreases q.len(),
{
    if q.len() > 0 && is_expired(q[0].last_use, now, ttl) {
        lemma_expired_prefix_bound(q.drop_first(), now, ttl);
    }
}

/// An endpoint none of whose queues holds a client holds none in total.
pub proof fn lemma_total_zero<C>(bs: Seq<BucketView<C>>)
    requires
        forall|b: int, p: int| !in_pool(bs, b, p),
    ensures
        total(bs) == 0,
    decreases bs.len(),
{
    if bs.len() > 0 {
        let head = bs.drop_last();
        assert forall|b: int, p: int| !in_pool(head, b, p) by {
            if in_pool(head, b, p) {
                assert(head[b] == bs[b]);
                assert(in_pool(bs, b, p));
            }
        }
        lemma_total_zero(head);
        if bs.last().idle.len() > 0 {
            assert(in_pool(bs, bs.len() - 1, 0));
        }
    }
}

/// A lookup that finds nothing to serve leaves nothing under the key.
pub proof fn lemma_miss_leaves_nothing<C>(bs: Seq<BucketView<C>>, key: ConnKey, now: u64, ttl: u64)
    requires
        keys_unique(bs),
        get_hit(queue(bs, key), now, ttl) is None,
    ensures
        queue(after_get(bs, key, now, ttl), key) == Seq::<IdleClient<C>>::empty(),
{
    if has_key(bs, key) {
        lemma_with_queue(bs, key, get_rest(queue(bs, key), now, ttl));
    }
}

/// A client released under a key with nothing in its queue is the client
/// that the next lookup of that key serves, as long as it has not rested for
/// longer than the idle limit; and the lookup leaves the queue empty again.
pub proof fn lemma_release_then_get<C>(
    bs: Seq<BucketView<C>>,
    key: ConnKey,
    entry: IdleClient<C>,
    now: u64,
    ttl: u64,
)
    requires
        keys_unique(bs),
        queue(bs, key).len() == 0,
        !is_expired(entry.last_use, now, ttl),
    ensures
        keys_unique(after_put(bs, key, entry)),
        queue(after_put(bs, key, entry), key) == seq![entry],
        get_hit(queue(after_put(bs, key, entry), key), now, ttl) == Some(entry),
        get_expired(queue(after_put(bs, key, entry), key), now, ttl) == Seq::<
            IdleClient<C>,
        >::empty(),
        queue(after_get(after_put(bs, key, entry), key, now, ttl), key) == Seq::<
            IdleClient<C>,
        >::empty(),
{
    let q = queue(bs, key).push(entry);
    assert(q =~= seq![entry]);
    lemma_with_queue(bs, key, q);
    let put = after_put(bs, key, entry);
    lemma_expired_prefix(q, now, ttl, 0);
    assert(get_expired(q, now, ttl) =~= Seq::empty());
    assert(get_rest(q, now, ttl) =~= Seq::empty());
    lemma_with_queue(put, key, get_rest(q, now, ttl));
}

/// Clients leave a queue in the order in which they entered it: a client
/// released behind a waiting one is served after it.
pub proof fn lemma_first_in_first_out<C>(
    q: Seq<IdleClient<C>>,
    entry: IdleClient<C>,
    now: u64,
    ttl: u64,
)
    requires
        get_hit(q, now, ttl) is Some,
    ensures
        get_hit(q.push(entry), now, ttl) == get_hit(q, now, ttl),
        get_rest(q.push(entry), now, ttl) == get_rest(q, now, ttl).push(entry),
{
    let k = expired_prefix(q, now, ttl) as int;
    lemma_expired_prefix_bound(q, now, ttl);
    lemma_expired_prefix_facts(q, now, ttl);
    let q2 = q.push(entry);
    assert forall|j: int| 0 <= j < k implies is_expired(#[trigger] q2[j].last_use, now, ttl) by {
        assert(q2[j] == q[j]);
    }
    assert(q2[k] == q[k]);
    lemma_expired_prefix(q2, now, ttl, k);
    assert(get_rest(q2, now, ttl) =~= get_rest(q, now, ttl).push(entry));
}

/// What the expired prefix is: every client in it has expired, and the one
/// behind it, if any, has not.
pub proof fn lemma_expired_prefix_facts<C>(q: Seq<IdleClient<C>>, now: u64, ttl: u64)
    ensures
        forall|j: int|
            0 <= j < expired_prefix(q, now, ttl) ==> is_expired(#[trigger] q[j].last_use, now, ttl),
        expired_prefix(q, now, ttl) < q.len() ==> !is_expired(
            q[expired_prefix(q, now, ttl) as int].last_use,
            now,
            ttl,
        ),
    decreases q.len(),
{
    if q.len() > 0 && is_expired(q[0].last_use, now, ttl) {
        let t = q.drop_first();
        lemma_expired_prefix_facts(t, now, ttl);
        lemma_expired_prefix_bound(t, now, ttl);
        assert forall|j: int| 0 <= j < expired_prefix(q, now, ttl) implies is_expired(
            #[trigger] q[j].last_use,
            now,
            ttl,
        ) by {
            if j > 0 {
                assert(q[j] == t[j - 1]);
            }
        }
        if expired_prefix(q, now, ttl) < q.len() {
            assert(q[expired_prefix(q, now, ttl) as int] == t[expired_prefix(t, now, ttl) as int]);
        }
    }
}

/// The clients of `q` that have not expired, in their order.
pub open spec fn live<C>(q: Seq<IdleClient<C>>, now: u64, ttl: u64) -> Seq<IdleClient<C>>
    decreases q.len(),
{
    if q.len() == 0 {
        Seq::empty()
    } else if is_expired(q.last().last_use, now, ttl) {
        live(q.drop_last(), now, ttl)
    } else {
        live(q.drop_last(), now, ttl).push(q.last())
    }
}

/// The clients of `q` that have expired, in their order.
pub open spec fn dead<C>(q: Seq<IdleClient<C>>, now: u64, ttl: u64) -> Seq<IdleClient<C>>
    decreases q.len(),
{
    if q.len() == 0 {
        Seq::empty()
    } else if is_expired(q.last().last_use, now, ttl) {
        dead(q.drop_last(), now, ttl).push(q.last())
    } else {
        dead(q.drop_last(), now, ttl)
    }
}

/// Every client is either still live or expired.
pub proof fn lemma_live_and_dead<C>(q: Seq<IdleClient<C>>, now: u64, ttl: u64)
    ensures
        live(q, now, ttl).len() + dead(q, now, ttl).len() == q.len(),
        forall|i: int|
            0 <= i < live(q, now, ttl).len() ==> !is_expired(
                #[trigger] live(q, now, ttl)[i].last_use,
                now,
                ttl,
            ),
        forall|i: int|
            0 <= i < dead(q, now, ttl).len() ==> is_expired(
                #[trigger] dead(q, now, ttl)[i].last_use,
                now,
                ttl,
            ),
    decreases q.len(),
{
    if q.len() > 0 {
        lemma_live_and_dead(q.drop_last(), now, ttl);
    }
}

/// The queues with every expired client taken out.
pub open spec fn swept<C>(bs: Seq<BucketView<C>>, now: u64, ttl: u64) -> Seq<BucketView<C>> {
    Seq::new(bs.len(), |i: int| BucketView { key: bs[i].key, idle: live(bs[i].idle, now, ttl) })
}

/// The expired clients of the first `n` queues, queue by queue.
pub open spec fn dead_upto<C>(bs: Seq<BucketView<C>>, n: nat, now: u64, ttl: u64) -> Seq<
    IdleClient<C>,
>
    decreases n,
{
    if n == 0 {
        Seq::empty()
    } else {
        dead_upto(bs, (n - 1) as nat, now, ttl) + dead(bs[n - 1].idle, now, ttl)
    }
}

/// All expired clients of the endpoint.
pub open spec fn dead_clients<C>(bs: Seq<BucketView<C>>, now: u64, ttl: u64) -> Seq<IdleClient<C>> {
    dead_upto(bs, bs.len(), now, ttl)
}

/// Moves the expired clients of `idle` to the end of `closed` and keeps the
/// others.
fn sweep_queue<C>(idle: &mut Vec<IdleClient<C>>, closed: &mut Vec<IdleClient<C>>, now: u64, ttl: u64)
    ensures
        final(idle)@ == live(old(idle)@, now, ttl),
        final(closed)@ == old(closed)@ + dead(old(idle)@, now, ttl),
{
    let ghost q = idle@;
    let ghost had = closed@;
    let mut rest: Vec<IdleClient<C>> = Vec::new();
    core::mem::swap(idle, &mut rest);
    let n = rest.len();
    let mut k: usize = 0;
    assert(q.subrange(0, 0) =~= Seq::empty());
    assert(closed@ =~= had + dead(q.subrange(0, 0), now, ttl));
    while rest.len() > 0
        invariant
            k <= q.len() == n,
            rest@ == q.subrange(k as int, q.len() as int),
            idle@ == live(q.subrange(0, k as int), now, ttl),
            closed@ == had + dead(q.subrange(0, k as int), now, ttl),
        decreases rest.len(),
    {
        assert(rest@[0] == q[k as int]);
        let entry = rest.remove(0);
        let ghost upto = q.subrange(0, k + 1);
        assert(upto.drop_last() =~= q.subrange(0, k as int));
        assert(upto.last() == q[k as int]);
        if now > entry.last_use && now - entry.last_use > ttl {
            closed.push(entry);
            assert(closed@ =~= had + dead(upto, now, ttl));
        } else {
            idle.push(entry);
        }
        k = k + 1;
        assert(rest@ =~= q.subrange(k as int, q.len() as int));
    }
    assert(q.subrange(0, k as int) =~= q);
}

impl<C> EndpointPool<C> {
    /// Takes every client that has rested for longer than `ttl` out of the
    /// endpoint's queues and puts it at the end of `closed`.
    pub fn sweep(&mut self, closed: &mut Vec<IdleClient<C>>, now: u64, ttl: u64)
        requires
            old(self).wf(),
        ensures
            final(self).wf(),
            final(self)@ == swept(old(self)@, now, ttl),
            final(closed)@ == old(closed)@ + dead_clients(old(self)@, now, ttl),
            total(final(self)@) + dead_clients(old(self)@, now, ttl).len() == total(old(self)@),
    {
        let ghost bs = self@;
        let ghost had = closed@;
        let mut b: usize = 0;
        assert(closed@ =~= had + dead_upto(bs, 0, now, ttl));
        while b < self.buckets.len()
            invariant
                b <= self.buckets.len() == bs.len(),
                self@.len() == bs.len(),
                forall|i: int| 0 <= i < b ==> #[trigger] self@[i] == swept(bs, now, ttl)[i],
                forall|i: int| b <= i < bs.len() ==> #[trigger] self@[i] == bs[i],
                closed@ == had + dead_upto(bs, b as nat, now, ttl),
                self.count == total(self@),
                total(self@) + dead_upto(bs, b as nat, now, ttl).len() == total(bs),
            decreases self.buckets.len() - b,
        {
            let ghost cur = self@;
            let ghost q = bs[b as int].idle;
            assert(cur[b as int] == bs[b as int]);
            let before_len = self.buckets[b].idle.len();
            sweep_queue(&mut self.buckets[b].idle, closed, now, ttl);
            let after_len = self.buckets[b].idle.len();
            proof {
                let nb = BucketView { key: bs[b as int].key, idle: live(q, now, ttl) };
                assert(self@ =~= cur.update(b as int, nb));
                lemma_total_update(cur, b as int, nb);
                lemma_total_bounds(cur, b as int);
                lemma_live_and_dead(q, now, ttl);
                assert(closed@ =~= had + dead_upto(bs, (b + 1) as nat, now, ttl));
            }
            self.count = self.count - (before_len - after_len);
            b = b + 1;
        }
        proof {
            assert(self@ =~= swept(bs, now, ttl));
            let out = self@;
            assert forall|i: int, j: int| 0 <= i < j < out.len() implies (#[trigger] out[i]).key != (
            #[trigger] out[j]).key by {
                assert(out[i].key == bs[i].key);
                assert(out[j].key == bs[j].key);
            }
        }
    }
}

} // verus!
