//! The pool of HTTP/2 connections to local proxies. One connection carries
//! many requests at once, so the pool lends a connection out as long as it
//! has a stream to spare and counts the streams that are open.

use vstd::prelude::*;
use crate::text::{owned, str_eq};

verus! {

/// One HTTP/2 connection held by the pool.
pub struct HttpConn<C> {
    pub endpoint: String,
    pub conn_id: u128,
    pub client: C,
    /// The requests that are using the connection right now.
    pub open_streams: usize,
}

/// Mathematical value of an [`HttpConn`].
pub struct HttpConnView<C> {
    pub endpoint: Seq<char>,
    pub conn_id: u128,
    pub client: C,
    pub open_streams: nat,
}

impl<C> View for HttpConn<C> {
    type V = HttpConnView<C>;

    open spec fn view(&self) -> HttpConnView<C> {
        HttpConnView {
            endpoint: self.endpoint@,
            conn_id: self.conn_id,
            client: self.client,
            open_streams: self.open_streams as nat,
        }
    }
}

impl<C> HttpConnView<C> {
    /// Whether the connection serves `endpoint` and has a stream to spare.
    pub open spec fn free_for(self, endpoint: Seq<char>, max_streams: nat) -> bool {
        self.endpoint == endpoint && self.open_streams < max_streams
    }

    pub open spec fn is(self, endpoint: Seq<char>, conn_id: u128) -> bool {
        self.endpoint == endpoint && self.conn_id == conn_id
    }

    pub open spec fn with_streams(self, n: nat) -> HttpConnView<C> {
        HttpConnView { open_streams: n, ..self }
    }
}

/// Whether `i` is the first connection that serves `endpoint` and has a
/// stream to spare.
pub open spec fn first_free<C>(
    conns: Seq<HttpConnView<C>>,
    endpoint: Seq<char>,
    max_streams: nat,
    i: int,
) -> bool {
    &&& 0 <= i < conns.len()
    &&& conns[i].free_for(endpoint, max_streams)
    &&& forall|j: int| 0 <= j < i ==> !(#[trigger] conns[j]).free_for(endpoint, max_streams)
}

/// Whether `i` is the first connection of `endpoint` with identifier
/// `conn_id`.
pub open spec fn first_with_id<C>(
    conns: Seq<HttpConnView<C>>,
    endpoint: Seq<char>,
    conn_id: u128,
    i: int,
) -> bool {
    &&& 0 <= i < conns.len()
    &&& conns[i].is(endpoint, conn_id)
    &&& forall|j: int| 0 <= j < i ==> !(#[trigger] conns[j]).is(endpoint, conn_id)
}

/// The streams open on all connections together.
pub open spec fn open_streams<C>(conns: Seq<HttpConnView<C>>) -> nat
    decreases conns.len(),
{
    if conns.len() == 0 {
        0
    } else {
        open_streams(conns.drop_last()) + conns.last().open_streams
    }
}

/// Where no connection carries more than `max_streams` streams, all
/// together carry no more than that many each.
pub proof fn lemma_open_streams_bounded<C>(conns: Seq<HttpConnView<C>>, max_streams: nat)
    requires
        forall|i: int| 0 <= i < conns.len() ==> (#[trigger] conns[i]).open_streams <= max_streams,
    ensures
        open_streams(conns) <= conns.len() * max_streams,
    decreases conns.len(),
{
    if conns.len() > 0 {
        let head = conns.drop_last();
        assert forall|i: int| 0 <= i < head.len() implies (#[trigger] head[i]).open_streams
            <= max_streams by {
            assert(head[i] == conns[i]);
        }
        lemma_open_streams_bounded(head, max_streams);
        assert(conns.last() == conns[conns.len() - 1]);
        assert(head.len() * max_streams + max_streams == conns.len() * max_streams)
            by (nonlinear_arith)
            requires
                head.len() + 1 == conns.len(),
        ;
    }
}

/// The number of connections that serve `endpoint`.
pub open spec fn conns_of<C>(conns: Seq<HttpConnView<C>>, endpoint: Seq<char>) -> nat
    decreases conns.len(),
{
    if conns.len() == 0 {
        0
    } else {
        conns_of(conns.drop_last(), endpoint) + if conns.last().endpoint == endpoint {
            1nat
        } else {
            0nat
        }
    }
}

pub proof fn lemma_conns_of_same_endpoints<C>(
    a: Seq<HttpConnView<C>>,
    b: Seq<HttpConnView<C>>,
    endpoint: Seq<char>,
)
    requires
        a.len() == b.len(),
        forall|i: int| 0 <= i < a.len() ==> (#[trigger] a[i]).endpoint == b[i].endpoint,
    ensures
        conns_of(a, endpoint) == conns_of(b, endpoint),
    decreases a.len(),
{
    if a.len() > 0 {
        let x = a.drop_last();
        let y = b.drop_last();
        assert forall|i: int| 0 <= i < x.len() implies (#[trigger] x[i]).endpoint == y[i].endpoint by {
            assert(x[i] == a[i]);
            assert(y[i] == b[i]);
        }
        lemma_conns_of_same_endpoints(x, y, endpoint);
        assert(a.last() == a[a.len() - 1]);
    }
}

pub proof fn lemma_conns_of_remove<C>(conns: Seq<HttpConnView<C>>, i: int, endpoint: Seq<char>)
    requires
        0 <= i < conns.len(),
    ensures
        conns_of(conns.remove(i), endpoint) == conns_of(conns, endpoint) - if conns[i].endpoint
            == endpoint {
            1int
        } else {
            0int
        },
    decreases conns.len(),
{
    let out = conns.remove(i);
    if i == conns.len() - 1 {
        assert(out =~= conns.drop_last());
    } else {
        assert(out.drop_last() =~= conns.drop_last().remove(i));
        assert(out.last() == conns.last());
        lemma_conns_of_remove(conns.drop_last(), i, endpoint);
    }
}

/// The pool of HTTP/2 connections.
pub struct HttpConnPool<C> {
    conns: Vec<HttpConn<C>>,
    max_conns: usize,
    max_conns_per_endpoint: usize,
    max_streams_per_conn: usize,
}

impl<C> View for HttpConnPool<C> {
    type V = Seq<HttpConnView<C>>;

    closed spec fn view(&self) -> Seq<HttpConnView<C>> {
        Seq::new(self.conns.len() as nat, |i: int| self.conns[i]@)
    }
}

impl<C> HttpConnPool<C> {
    /// The most streams one connection carries.
    pub closed spec fn max_streams(&self) -> nat {
        self.max_streams_per_conn as nat
    }

    /// The most connections the pool holds.
    pub closed spec fn max_conns(&self) -> nat {
        self.max_conns as nat
    }

    /// The most connections the pool holds for one endpoint.
    pub closed spec fn max_conns_per_endpoint(&self) -> nat {
        self.max_conns_per_endpoint as nat
    }

    /// No connection carries more streams than the limit, and the pool
    /// holds no more connections than its caps allow.
    pub closed spec fn wf(&self) -> bool {
        &&& self.max_streams_per_conn >= 1
        &&& forall|i: int|
            0 <= i < self.conns.len() ==> (#[trigger] self.conns[i]).open_streams
                <= self.max_streams_per_conn
        &&& self.conns.len() <= self.max_conns
        &&& forall|endpoint: Seq<char>|
            #[trigger] conns_of(self@, endpoint) <= self.max_conns_per_endpoint
    }

    /// Whether the pool can take one more connection for `endpoint`.
    pub open spec fn has_room(&self, endpoint: Seq<char>) -> bool {
        self@.len() < self.max_conns() && conns_of(self@, endpoint) < self.max_conns_per_endpoint()
    }

    /// The streams open on all connections together never exceed what the
    /// connections may carry, and no single connection is over its limit.
    pub proof fn lemma_bounded(&self)
        requires
            self.wf(),
        ensures
            self.max_streams() >= 1,
            forall|i: int| 0 <= i < self@.len() ==> (#[trigger] self@[i]).open_streams <= self.max_streams(),
            open_streams(self@) <= self@.len() * self.max_streams(),
            self@.len() <= self.max_conns(),
            forall|endpoint: Seq<char>|
                #[trigger] conns_of(self@, endpoint) <= self.max_conns_per_endpoint(),
    {
        assert forall|i: int| 0 <= i < self@.len() implies (#[trigger] self@[i]).open_streams
            <= self.max_streams() by {
            assert(self@[i] == self.conns[i]@);
        }
        lemma_open_streams_bounded(self@, self.max_streams());
    }

    /// An empty pool. A limit of zero streams is taken as one: a connection
    /// always carries the request it was made for.
    pub fn new(max_conns: usize, max_conns_per_endpoint: usize, max_streams_per_conn: usize) -> (r:
        HttpConnPool<C>)
        ensures
            r.wf(),
            r@ == Seq::<HttpConnView<C>>::empty(),
            r.max_conns() == max_conns,
            r.max_conns_per_endpoint() == max_conns_per_endpoint,
            r.max_streams() == if max_streams_per_conn == 0 {
                1
            } else {
                max_streams_per_conn as nat
            },
    {
        let limit = if max_streams_per_conn == 0 {
            1
        } else {
            max_streams_per_conn
        };
        let r = HttpConnPool {
            conns: Vec::new(),
            max_conns,
            max_conns_per_endpoint,
            max_streams_per_conn: limit,
        };
        assert(r@ =~= Seq::<HttpConnView<C>>::empty());
        r
    }

    /// The number of connections held for `endpoint`.
    pub fn endpoint_len(&self, endpoint: &str) -> (r: usize)
        ensures
            r == conns_of(self@, endpoint@),
    {
        let mut n: usize = 0;
        let mut i: usize = 0;
        assert(self@.subrange(0, 0) =~= Seq::empty());
        while i < self.conns.len()
            invariant
                i <= self.conns.len(),
                n <= i,
                n == conns_of(self@.subrange(0, i as int), endpoint@),
            decreases self.conns.len() - i,
        {
            let ghost upto = self@.subrange(0, i + 1);
            assert(upto.drop_last() =~= self@.subrange(0, i as int));
            assert(upto.last() == self.conns[i as int]@);
            if str_eq(self.conns[i].endpoint.as_str(), endpoint) {
                n = n + 1;
            }
            i = i + 1;
        }
        assert(self@.subrange(0, i as int) =~= self@);
        n
    }

    /// The number of connections held.
    pub fn len(&self) -> (r: usize)
        ensures
            r == self@.len(),
    {
        self.conns.len()
    }

    /// Opens one more stream on the first connection of `endpoint` that has
    /// one to spare, and tells which connection that is. Where there is
    /// none the pool stays as it was and the caller has to make a new
    /// connection.
    pub fn get(&mut self, endpoint: &str) -> (r: Option<u128>)
        requires
            old(self).wf(),
        ensures
            final(self).wf(),
            final(self).max_streams() == old(self).max_streams(),
            final(self).max_conns() == old(self).max_conns(),
            final(self).max_conns_per_endpoint() == old(self).max_conns_per_endpoint(),
            match r {
                Some(conn_id) => exists|i: int|
                    first_free(old(self)@, endpoint@, old(self).max_streams(), i) && old(
                        self,
                    )@[i].conn_id == conn_id && final(self)@ == old(self)@.update(
                        i,
                        old(self)@[i].with_streams(old(self)@[i].open_streams + 1),
                    ),
                None => {
                    &&& final(self)@ == old(self)@
                    &&& forall|i: int|
                        0 <= i < old(self)@.len() ==> !(#[trigger] old(self)@[i]).free_for(
                            endpoint@,
                            old(self).max_streams(),
                        )
                },
            },
    {
        let ghost before = self@;
        let mut i: usize = 0;
        while i < self.conns.len()
            invariant
                self.wf(),
                before == self@,
                *self == *old(self),
                i <= self.conns.len(),
                forall|j: int| 0 <= j < i ==> !(#[trigger] before[j]).free_for(endpoint@, self.max_streams()),
            decreases self.conns.len() - i,
        {
            assert(before[i as int] == self.conns[i as int]@);
            if self.conns[i].open_streams < self.max_streams_per_conn && str_eq(
                self.conns[i].endpoint.as_str(),
                endpoint,
            ) {
                let n = self.conns[i].open_streams + 1;
                self.conns[i].open_streams = n;
                let conn_id = self.conns[i].conn_id;
                proof {
                    assert(first_free(before, endpoint@, self.max_streams(), i as int));
                    assert(self@ =~= before.update(
                        i as int,
                        before[i as int].with_streams(before[i as int].open_streams + 1),
                    ));
                    assert forall|e: Seq<char>| #[trigger] conns_of(self@, e)
                        <= self.max_conns_per_endpoint by {
                        lemma_conns_of_same_endpoints(self@, before, e);
                        assert(conns_of(before, e) <= self.max_conns_per_endpoint);
                    }
                }
                return Some(conn_id);
            }
            i = i + 1;
        }
        None
    }

    /// Takes in a connection that was just made for a request to
    /// `endpoint`, where the caps leave room for it. The request that made
    /// it holds its first stream. A connection that the pool has no room
    /// for is handed back: the request uses it and closes it.
    pub fn register(&mut self, endpoint: &str, conn_id: u128, client: C) -> (r: Option<C>)
        requires
            old(self).wf(),
        ensures
            final(self).wf(),
            final(self).max_streams() == old(self).max_streams(),
            final(self).max_conns() == old(self).max_conns(),
            final(self).max_conns_per_endpoint() == old(self).max_conns_per_endpoint(),
            if old(self).has_room(endpoint@) {
                &&& r is None
                &&& final(self)@ == old(self)@.push(
                    HttpConnView { endpoint: endpoint@, conn_id, client, open_streams: 1 },
                )
            } else {
                &&& r == Some(client)
                &&& final(self)@ == old(self)@
            },
    {
        let ghost before = self@;
        if self.conns.len() >= self.max_conns || self.endpoint_len(endpoint)
            >= self.max_conns_per_endpoint {
            return Some(client);
        }
        self.conns.push(HttpConn { endpoint: owned(endpoint), conn_id, client, open_streams: 1 });
        proof {
            let added = HttpConnView { endpoint: endpoint@, conn_id, client, open_streams: 1 };
            assert(self@ =~= before.push(added));
            assert(self@.drop_last() =~= before);
            assert forall|e: Seq<char>| #[trigger] conns_of(self@, e)
                <= self.max_conns_per_endpoint by {
                assert(conns_of(before, e) <= self.max_conns_per_endpoint);
            }
        }
        None
    }

    fn find(&self, endpoint: &str, conn_id: u128) -> (r: Option<usize>)
        ensures
            match r {
                Some(i) => first_with_id(self@, endpoint@, conn_id, i as int),
                None => forall|i: int| 0 <= i < self@.len() ==> !(#[trigger] self@[i]).is(endpoint@, conn_id),
            },
    {
        let mut i: usize = 0;
        while i < self.conns.len()
            invariant
                i <= self.conns.len(),
                forall|j: int| 0 <= j < i ==> !(#[trigger] self@[j]).is(endpoint@, conn_id),
            decreases self.conns.len() - i,
        {
            assert(self@[i as int] == self.conns[i as int]@);
            if self.conns[i].conn_id == conn_id && str_eq(self.conns[i].endpoint.as_str(), endpoint) {
                return Some(i);
            }
            i = i + 1;
        }
        None
    }

    /// The connection of `endpoint` with identifier `conn_id`, if the pool
    /// holds it.
    pub fn client(&self, endpoint: &str, conn_id: u128) -> (r: Option<&C>)
        ensures
            match r {
                Some(c) => exists|i: int|
                    first_with_id(self@, endpoint@, conn_id, i) && *c == self@[i].client,
                None => forall|i: int| 0 <= i < self@.len() ==> !(#[trigger] self@[i]).is(endpoint@, conn_id),
            },
    {
        match self.find(endpoint, conn_id) {
            Some(i) => {
                assert(self@[i as int] == self.conns[i as int]@);
                Some(&self.conns[i].client)
            },
            None => None,
        }
    }

    /// The number of streams open on the connection, if the pool holds it.
    pub fn streams(&self, endpoint: &str, conn_id: u128) -> (r: Option<usize>)
        ensures
            match r {
                Some(n) => exists|i: int|
                    first_with_id(self@, endpoint@, conn_id, i) && n == self@[i].open_streams,
                None => forall|i: int| 0 <= i < self@.len() ==> !(#[trigger] self@[i]).is(endpoint@, conn_id),
            },
    {
        match self.find(endpoint, conn_id) {
            Some(i) => {
                assert(self@[i as int] == self.conns[i as int]@);
                Some(self.conns[i].open_streams)
            },
            None => None,
        }
    }

    /// Closes one stream on the connection. Tells whether there was such a
    /// connection with a stream open.
    pub fn release_stream(&mut self, endpoint: &str, conn_id: u128) -> (r: bool)
        requires
            old(self).wf(),
        ensures
            final(self).wf(),
            final(self).max_streams() == old(self).max_streams(),
            final(self).max_conns() == old(self).max_conns(),
            final(self).max_conns_per_endpoint() == old(self).max_conns_per_endpoint(),
            if r {
                exists|i: int|
                    first_with_id(old(self)@, endpoint@, conn_id, i) && old(self)@[i].open_streams
                        > 0 && final(self)@ == old(self)@.update(
                        i,
                        old(self)@[i].with_streams((old(self)@[i].open_streams - 1) as nat),
                    )
            } else {
                &&& final(self)@ == old(self)@
                &&& forall|i: int|
                    first_with_id(old(self)@, endpoint@, conn_id, i) ==> old(self)@[i].open_streams
                        == 0
            },
    {
        let ghost before = self@;
        match self.find(endpoint, conn_id) {
            Some(i) => {
                assert(before[i as int] == self.conns[i as int]@);
                if self.conns[i].open_streams > 0 {
                    let n = self.conns[i].open_streams - 1;
                    self.conns[i].open_streams = n;
                    assert(self@ =~= before.update(
                        i as int,
                        before[i as int].with_streams((before[i as int].open_streams - 1) as nat),
                    ));
                    assert forall|e: Seq<char>| #[trigger] conns_of(self@, e)
                        <= self.max_conns_per_endpoint by {
                        lemma_conns_of_same_endpoints(self@, before, e);
                        assert(conns_of(before, e) <= self.max_conns_per_endpoint);
                    }
                    true
                } else {
                    assert forall|k: int| first_with_id(before, endpoint@, conn_id, k) implies before[k].open_streams
                        == 0 by {
                        if k < i {
                            assert(!before[k].is(endpoint@, conn_id));
                        } else if k > i {
                            assert(!before[i as int].is(endpoint@, conn_id));
                        }
                    }
                    false
                }
            },
            None => false,
        }
    }

    /// Takes the connection out of the pool, as after its driver has ended.
    pub fn remove(&mut self, endpoint: &str, conn_id: u128) -> (r: Option<HttpConn<C>>)
        requires
            old(self).wf(),
        ensures
            final(self).wf(),
            final(self).max_streams() == old(self).max_streams(),
            final(self).max_conns() == old(self).max_conns(),
            final(self).max_conns_per_endpoint() == old(self).max_conns_per_endpoint(),
            match r {
                Some(conn) => exists|i: int|
                    first_with_id(old(self)@, endpoint@, conn_id, i) && conn@ == old(self)@[i]
                        && final(self)@ == old(self)@.remove(i),
                None => {
                    &&& final(self)@ == old(self)@
                    &&& forall|i: int|
                        0 <= i < old(self)@.len() ==> !(#[trigger] old(self)@[i]).is(endpoint@, conn_id)
                },
            },
    {
        let ghost before = self@;
        match self.find(endpoint, conn_id) {
            Some(i) => {
                assert(before[i as int] == self.conns[i as int]@);
                let conn = self.conns.remove(i);
                assert(self@ =~= before.remove(i as int));
                assert forall|e: Seq<char>| #[trigger] conns_of(self@, e)
                    <= self.max_conns_per_endpoint by {
                    lemma_conns_of_remove(before, i as int, e);
                    assert(conns_of(before, e) <= self.max_conns_per_endpoint);
                }
                Some(conn)
            },
            None => None,
        }
    }
}

} // verus!
