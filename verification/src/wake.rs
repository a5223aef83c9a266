//! Finding the address of an endpoint's compute: a cache of what the
//! control plane answered, and the steps by which one request gets an
//! address, asking the control plane only where the cache has none.

use vstd::prelude::*;
use crate::error::{HttpConnError, HttpConnErrorView, UpstreamError};
use crate::strmap::StrMap;
use crate::text::owned;
use crate::types::{IpAddress, MetricsAuxInfo, NodeConnInfo, SslMode};

verus! {

/// What the control plane says of a woken compute.
pub struct NodeInfo {
    pub conn_info: NodeConnInfo,
    pub aux: MetricsAuxInfo,
}

/// Mathematical value of a [`NodeInfo`].
pub struct NodeInfoView {
    pub host: Seq<char>,
    pub host_addr: Option<IpAddress>,
    pub port: u16,
    pub ssl_mode: SslMode,
    pub endpoint_id: Seq<char>,
    pub branch_id: Seq<char>,
    pub compute_id: Seq<char>,
}

impl View for NodeInfo {
    type V = NodeInfoView;

    open spec fn view(&self) -> NodeInfoView {
        NodeInfoView {
            host: self.conn_info.host@,
            host_addr: self.conn_info.host_addr,
            port: self.conn_info.port,
            ssl_mode: self.conn_info.ssl_mode,
            endpoint_id: self.aux.endpoint_id@,
            branch_id: self.aux.branch_id@,
            compute_id: self.aux.compute_id@,
        }
    }
}

impl NodeInfo {
    pub fn clone(&self) -> (r: NodeInfo)
        ensures
            r@ == self@,
    {
        NodeInfo {
            conn_info: NodeConnInfo {
                host: self.conn_info.host.clone(),
                host_addr: self.conn_info.host_addr,
                port: self.conn_info.port,
                ssl_mode: self.conn_info.ssl_mode,
            },
            aux: self.aux.clone(),
        }
    }
}

/// A handle on one cache entry, by which the entry can be dropped.
pub struct CacheEntry {
    pub endpoint: String,
    /// Tells the entry from any other that was or will be filed under the
    /// same endpoint.
    pub stamp: u64,
}

/// An address, and the cache entry it came from or went into.
pub struct CachedNodeInfo {
    pub node: NodeInfo,
    pub cache_entry: CacheEntry,
}

struct WakeSlot {
    node: NodeInfo,
    stamp: u64,
}

/// The cache of woken computes, by endpoint.
pub struct WakeCache {
    map: StrMap<WakeSlot>,
    next_stamp: u64,
}

impl WakeCache {
    pub closed spec fn wf(&self) -> bool {
        &&& self.map.wf()
        &&& self.next_stamp < u64::MAX ==> forall|k: Seq<char>|
            self.map@.contains_key(k) ==> (#[trigger] self.map@[k]).stamp < self.next_stamp
    }

    /// The stamp that the next entry gets.
    pub closed spec fn clock(&self) -> u64 {
        self.next_stamp
    }

    /// Until the stamps run out, every entry in the cache has a stamp of
    /// the past: no entry filed from now on is mistaken for it.
    pub proof fn lemma_stamps(&self, endpoint: Seq<char>)
        requires
            self.wf(),
            self.clock() < u64::MAX,
        ensures
            self.cached(endpoint) matches Some(held) ==> held.1 < self.clock(),
    {
        if self.map@.contains_key(endpoint) {
            assert(self.map@[endpoint].stamp < self.next_stamp);
        }
    }

    /// What the cache holds for `endpoint`: the address and the entry's
    /// stamp.
    pub closed spec fn cached(&self, endpoint: Seq<char>) -> Option<(NodeInfoView, u64)> {
        if self.map@.contains_key(endpoint) {
            Some((self.map@[endpoint].node@, self.map@[endpoint].stamp))
        } else {
            None
        }
    }

    pub fn new() -> (r: WakeCache)
        ensures
            r.wf(),
            r.clock() == 0,
            forall|endpoint: Seq<char>| r.cached(endpoint) is None,
    {
        WakeCache { map: StrMap::new(), next_stamp: 0 }
    }

    /// The cached address of `endpoint`, with a handle on its entry.
    pub fn lookup(&self, endpoint: &str) -> (r: Option<CachedNodeInfo>)
        requires
            self.wf(),
        ensures
            match (r, self.cached(endpoint@)) {
                (Some(found), Some((node, stamp))) => {
                    &&& found.node@ == node
                    &&& found.cache_entry.stamp == stamp
                    &&& found.cache_entry.endpoint@ == endpoint@
                },
                (None, None) => true,
                _ => false,
            },
    {
        match self.map.get(endpoint) {
            Some(slot) => Some(
                CachedNodeInfo {
                    node: slot.node.clone(),
                    cache_entry: CacheEntry { endpoint: owned(endpoint), stamp: slot.stamp },
                },
            ),
            None => None,
        }
    }

    /// Files `node` as the address of `endpoint`, in place of what was
    /// there, under the stamp that is due.
    pub fn insert(&mut self, endpoint: &str, node: NodeInfo) -> (r: CachedNodeInfo)
        requires
            old(self).wf(),
        ensures
            final(self).wf(),
            r.node@ == node@,
            r.cache_entry.endpoint@ == endpoint@,
            r.cache_entry.stamp == old(self).clock(),
            final(self).clock() == if old(self).clock() == u64::MAX {
                u64::MAX
            } else {
                (old(self).clock() + 1) as u64
            },
            final(self).cached(endpoint@) == Some((node@, r.cache_entry.stamp)),
            forall|other: Seq<char>|
                other != endpoint@ ==> final(self).cached(other) == old(self).cached(other),
    {
        let stamp = self.next_stamp;
        let ghost before = self.map@;
        if stamp < u64::MAX {
            self.next_stamp = stamp + 1;
        }
        let copy = node.clone();
        let _before = self.map.insert(endpoint, WakeSlot { node, stamp });
        proof {
            if self.next_stamp < u64::MAX {
                assert forall|k: Seq<char>| self.map@.contains_key(k) implies (
                #[trigger] self.map@[k]).stamp < self.next_stamp by {
                    if k != endpoint@ {
                        assert(before.contains_key(k));
                        assert(before[k].stamp < stamp);
                    }
                }
            }
        }
        CachedNodeInfo { node: copy, cache_entry: CacheEntry { endpoint: owned(endpoint), stamp } }
    }

    /// Drops the entry behind `entry`, if the cache still holds that very
    /// entry. Tells whether it did.
    pub fn invalidate(&mut self, entry: &CacheEntry) -> (r: bool)
        requires
            old(self).wf(),
        ensures
            final(self).wf(),
            final(self).clock() == old(self).clock(),
            r == (old(self).cached(entry.endpoint@) matches Some(held) && held.1 == entry.stamp),
            final(self).cached(entry.endpoint@) == if r {
                None
            } else {
                old(self).cached(entry.endpoint@)
            },
            forall|other: Seq<char>|
                other != entry.endpoint@ ==> final(self).cached(other) == old(self).cached(other),
    {
        let same = match self.map.get(entry.endpoint.as_str()) {
            Some(slot) => slot.stamp == entry.stamp,
            None => false,
        };
        if same {
            let ghost before = self.map@;
            let _gone = self.map.remove(entry.endpoint.as_str());
            proof {
                if self.next_stamp < u64::MAX {
                    assert forall|k: Seq<char>| self.map@.contains_key(k) implies (
                    #[trigger] self.map@[k]).stamp < self.next_stamp by {
                        assert(before.contains_key(k));
                    }
                }
            }
        }
        same
    }
}

/// Where one request for an address stands.
#[derive(Clone, Copy, PartialEq, Eq, Structural, Debug)]
pub enum WakeState {
    Start,
    /// Waiting for the endpoint's wake permit.
    AwaitingPermit,
    /// Holding the permit; the control plane is being asked.
    Calling,
    Done,
    Failed,
}

/// What the caller reports.
pub enum WakeEvent {
    Begin,
    PermitAcquired,
    /// No permit came in time. Holds the lock's message.
    PermitTimeout(String),
    /// The control plane answered.
    Answered(Result<NodeInfo, UpstreamError>),
}

/// The shape of a [`WakeEvent`], without what it carries.
#[derive(Clone, Copy, PartialEq, Eq, Structural)]
pub enum WakeEventKind {
    Begin,
    PermitAcquired,
    PermitTimeout,
    Answered(bool),
}

impl WakeEvent {
    pub open spec fn kind(&self) -> WakeEventKind {
        match self {
            WakeEvent::Begin => WakeEventKind::Begin,
            WakeEvent::PermitAcquired => WakeEventKind::PermitAcquired,
            WakeEvent::PermitTimeout(_) => WakeEventKind::PermitTimeout,
            WakeEvent::Answered(r) => WakeEventKind::Answered(r is Ok),
        }
    }
}

/// What the caller is to do next.
pub enum WakeAction {
    /// Wait for the endpoint's wake permit, then report `PermitAcquired`;
    /// report `PermitTimeout` where the wait runs out.
    AcquirePermit,
    /// Ask the control plane to wake the endpoint.
    CallControlPlane,
    /// The address is at hand. Where `release_permit` is set, give the
    /// permit back.
    Ready { node: CachedNodeInfo, release_permit: bool },
    /// Give up. Where `release_permit` is set, give the permit back.
    Fail { error: HttpConnError, release_permit: bool },
    /// The event does not belong to the state; nothing changed.
    Unexpected,
}

/// The state a request moves to. `cached` says whether the cache holds an
/// address for the endpoint when the step is taken.
pub open spec fn wake_next(s: WakeState, e: WakeEventKind, cached: bool) -> WakeState {
    match (s, e) {
        (WakeState::Start, WakeEventKind::Begin) => if cached {
            WakeState::Done
        } else {
            WakeState::AwaitingPermit
        },
        (WakeState::AwaitingPermit, WakeEventKind::PermitAcquired) => if cached {
            WakeState::Done
        } else {
            WakeState::Calling
        },
        (WakeState::AwaitingPermit, WakeEventKind::PermitTimeout) => WakeState::Failed,
        (WakeState::Calling, WakeEventKind::Answered(ok)) => if ok {
            WakeState::Done
        } else {
            WakeState::Failed
        },
        _ => s,
    }
}

/// Whether the event is one that the state waits for.
pub open spec fn wake_expected(s: WakeState, e: WakeEventKind) -> bool {
    match (s, e) {
        (WakeState::Start, WakeEventKind::Begin) => true,
        (WakeState::AwaitingPermit, WakeEventKind::PermitAcquired) => true,
        (WakeState::AwaitingPermit, WakeEventKind::PermitTimeout) => true,
        (WakeState::Calling, WakeEventKind::Answered(_)) => true,
        _ => false,
    }
}

/// One request for the address of an endpoint.
pub struct WakeCompute {
    pub state: WakeState,
    pub endpoint: String,
}

impl WakeCompute {
    pub fn new(endpoint: String) -> (r: WakeCompute)
        ensures
            r.state == WakeState::Start,
            r.endpoint == endpoint,
    {
        WakeCompute { state: WakeState::Start, endpoint }
    }

    /// Takes the request one step further.
    ///
    /// An address in the cache is handed out at once, with the handle by
    /// which it can be dropped should it prove stale. Otherwise the
    /// request waits for the endpoint's permit, looks again, and only if
    /// the cache still has nothing asks the control plane, files the
    /// answer, and gives the permit back. A permit that does not come in
    /// time ends the request with a failure that is not retried.
    pub fn step(&mut self, cache: &mut WakeCache, event: WakeEvent) -> (r: WakeAction)
        requires
            old(cache).wf(),
        ensures
            final(cache).wf(),
            final(self).endpoint == old(self).endpoint,
            final(self).state == wake_next(
                old(self).state,
                event.kind(),
                old(cache).cached(old(self).endpoint@) is Some,
            ),
            forall|other: Seq<char>|
                other != old(self).endpoint@ ==> final(cache).cached(other) == old(cache).cached(
                    other,
                ),
            !wake_expected(old(self).state, event.kind()) ==> r is Unexpected && *final(cache)
                == *old(cache),
            wake_expected(old(self).state, event.kind()) ==> match r {
                WakeAction::AcquirePermit => {
                    &&& final(self).state == WakeState::AwaitingPermit
                    &&& *final(cache) == *old(cache)
                },
                WakeAction::CallControlPlane => {
                    &&& final(self).state == WakeState::Calling
                    &&& *final(cache) == *old(cache)
                },
                WakeAction::Ready { node, release_permit } => {
                    &&& final(self).state == WakeState::Done
                    &&& release_permit == (old(self).state != WakeState::Start)
                    &&& node.cache_entry.endpoint@ == old(self).endpoint@
                    &&& final(cache).cached(old(self).endpoint@) == Some(
                        (node.node@, node.cache_entry.stamp),
                    )
                    &&& match event {
                        WakeEvent::Answered(Ok(answer)) => node.node@ == answer@,
                        _ => *final(cache) == *old(cache),
                    }
                },
                WakeAction::Fail { error, release_permit } => {
                    &&& final(self).state == WakeState::Failed
                    &&& *final(cache) == *old(cache)
                    &&& match event {
                        WakeEvent::PermitTimeout(m) => !release_permit && error@
                            == HttpConnErrorView::TooManyConnectionAttempts(m@),
                        WakeEvent::Answered(Err(e)) => release_permit && error@
                            == HttpConnErrorView::WakeCompute(e@),
                        _ => false,
                    }
                },
                WakeAction::Unexpected => false,
            },
    {
        match (self.state, event) {
            (WakeState::Start, WakeEvent::Begin) => {
                match cache.lookup(self.endpoint.as_str()) {
                    Some(node) => {
                        self.state = WakeState::Done;
                        WakeAction::Ready { node, release_permit: false }
                    },
                    None => {
                        self.state = WakeState::AwaitingPermit;
                        WakeAction::AcquirePermit
                    },
                }
            },
            (WakeState::AwaitingPermit, WakeEvent::PermitAcquired) => {
                match cache.lookup(self.endpoint.as_str()) {
                    Some(node) => {
                        self.state = WakeState::Done;
                        WakeAction::Ready { node, release_permit: true }
                    },
                    None => {
                        self.state = WakeState::Calling;
                        WakeAction::CallControlPlane
                    },
                }
            },
            (WakeState::AwaitingPermit, WakeEvent::PermitTimeout(message)) => {
                self.state = WakeState::Failed;
                WakeAction::Fail {
                    error: HttpConnError::TooManyConnectionAttempts(message),
                    release_permit: false,
                }
            },
            (WakeState::Calling, WakeEvent::Answered(answer)) => {
                match answer {
                    Ok(node) => {
                        let filed = cache.insert(self.endpoint.as_str(), node);
                        self.state = WakeState::Done;
                        WakeAction::Ready { node: filed, release_permit: true }
                    },
                    Err(e) => {
                        self.state = WakeState::Failed;
                        WakeAction::Fail { error: HttpConnError::WakeCompute(e), release_permit: true }
                    },
                }
            },
            _ => WakeAction::Unexpected,
        }
    }
}

} // verus!
