//! Opening an HTTP/2 connection to the local proxy, step by step: which
//! address is tried next, what becomes of each failure, and when TLS and the
//! HTTP/2 handshake follow. The caller does the waiting and reports each
//! outcome.

use vstd::prelude::*;
use crate::error::{
    no_addresses_failure, IoErrorKind, IoFailure, IoFailureView, LocalProxyConnError,
    LocalProxyConnErrorView,
};
use crate::types::{IpAddress, SocketAddress};

verus! {

/// What `rustls::pki_types::DnsName::try_from` objects to in `host`, in the
/// words of its error; `None` where it takes `host` for a DNS name.
pub uninterp spec fn dns_name_refusal(host: Seq<char>) -> Option<Seq<char>>;

pub open spec fn refusal_view(refusal: Option<String>) -> Option<Seq<char>> {
    match refusal {
        Some(why) => Some(why@),
        None => None,
    }
}

/// Asks `rustls::pki_types::DnsName::try_from` whether `host` is a DNS
/// name, and hands back the text of its error where it is not.
#[verifier::external_body]
fn check_dns_name(host: &str) -> (r: Option<String>)
    ensures
        refusal_view(r) == dns_name_refusal(host@),
{
    rustls::pki_types::DnsName::try_from(host).err().map(|e| e.to_string())
}

/// Where the attempt stands.
#[derive(Clone, Copy, PartialEq, Eq, Structural, Debug)]
pub enum Http2Phase {
    Start,
    /// The host name is being resolved.
    Resolving,
    /// A TCP connect to one address is under way.
    Connecting,
    /// The stream is being told not to delay small writes.
    SettingNoDelay,
    /// TLS is being negotiated.
    TlsHandshake,
    /// The HTTP/2 handshake is under way.
    H2Handshake,
    Done,
    Failed,
}

/// How one TCP connect attempt ended.
pub enum ConnectOutcome {
    Connected,
    /// The attempt failed on its own.
    Failed(IoFailure),
    /// The attempt did not finish in the time it was given. Holds the text
    /// of the timer's report.
    TimedOut(String),
}

/// What the caller reports.
pub enum Http2Event {
    Begin,
    Resolved(Result<Vec<SocketAddress>, IoFailure>),
    ConnectEnded(ConnectOutcome),
    NoDelaySet(Result<(), IoFailure>),
    TlsDone(Result<(), IoFailure>),
    /// The HTTP/2 handshake came back, with the library's message on failure.
    H2Done(Result<(), String>),
}

/// Keep-alive settings of the HTTP/2 connection.
#[derive(Clone, Copy, PartialEq, Eq, Structural, Debug)]
pub struct Http2Settings {
    pub keep_alive_interval_secs: u64,
    pub keep_alive_timeout_secs: u64,
    pub keep_alive_while_idle: bool,
}

/// The settings every connection to the local proxy is made with: a ping
/// every 20 seconds, also while idle, answered within 5.
pub open spec fn keep_alive_settings() -> Http2Settings {
    Http2Settings {
        keep_alive_interval_secs: 20,
        keep_alive_timeout_secs: 5,
        keep_alive_while_idle: true,
    }
}

/// What the caller is to do next.
pub enum Http2Action {
    /// Resolve `(host, port)` and report the addresses.
    ResolveDns { host: String, port: u16 },
    /// Connect to `addr`, giving up after `timeout_ms`.
    TryConnect { addr: SocketAddress, timeout_ms: u64 },
    /// Set `TCP_NODELAY` on the stream.
    SetNoDelay,
    /// Wrap the stream in TLS, checking the certificate against this DNS
    /// name.
    TlsHandshake { server_name: String },
    /// Shake hands over HTTP/2 with these settings.
    H2Handshake(Http2Settings),
    /// The connection is ready.
    Ready,
    Fail(LocalProxyConnError),
    /// The event does not belong to the phase; nothing changed.
    Unexpected,
}

/// What follows once the stream is ready for TLS: the handshake against
/// `host`, unless `host` was refused as a DNS name; then the attempt fails
/// with that refusal.
pub fn tls_step(host: &str, refusal: Option<String>) -> (r: (Http2Phase, Http2Action))
    ensures
        match refusal {
            None => {
                &&& r.0 == Http2Phase::TlsHandshake
                &&& r.1 matches Http2Action::TlsHandshake { server_name }
                &&& server_name@ == host@
            },
            Some(why) => {
                &&& r.0 == Http2Phase::Failed
                &&& r.1 matches Http2Action::Fail(x)
                &&& x@ == LocalProxyConnErrorView::Io(
                    IoFailureView { kind: IoErrorKind::Other, message: why@ },
                )
            },
        },
{
    match refusal {
        None => (
            Http2Phase::TlsHandshake,
            Http2Action::TlsHandshake { server_name: crate::text::owned(host) },
        ),
        Some(why) => (
            Http2Phase::Failed,
            Http2Action::Fail(LocalProxyConnError::Io(IoFailure::new(IoErrorKind::Other, why))),
        ),
    }
}

/// One attempt to reach the local proxy.
pub struct Http2Connect {
    pub phase: Http2Phase,
    /// The address the locator gave, if it gave one.
    pub host_addr: Option<IpAddress>,
    pub host: String,
    pub port: u16,
    pub timeout_ms: u64,
    /// Whether the connection is to be wrapped in TLS.
    pub tls: bool,
    /// The candidate addresses, in the order they are tried.
    pub addrs: Vec<SocketAddress>,
    /// How many candidates were handed out for trying.
    pub tried: usize,
    /// The failure of the last candidate that failed.
    pub last_err: Option<IoFailure>,
}

pub open spec fn failure_view(e: Option<IoFailure>) -> Option<IoFailureView> {
    match e {
        Some(x) => Some(x@),
        None => None,
    }
}

/// The failure that ends an attempt whose candidates are used up: that of
/// the last candidate, or, where there was no candidate at all, the failure
/// to resolve.
pub open spec fn final_failure(last_err: Option<IoFailureView>) -> LocalProxyConnErrorView {
    LocalProxyConnErrorView::Io(
        match last_err {
            Some(e) => e,
            None => no_addresses_failure(),
        },
    )
}

impl Http2Connect {
    /// What stays the same over the whole attempt.
    pub open spec fn same_target(&self, other: &Http2Connect) -> bool {
        &&& self.host_addr == other.host_addr
        &&& self.host@ == other.host@
        &&& self.port == other.port
        &&& self.timeout_ms == other.timeout_ms
        &&& self.tls == other.tls
    }

    /// Whether the event is one that the phase waits for.
    pub open spec fn expects(&self, event: Http2Event) -> bool {
        match (self.phase, event) {
            (Http2Phase::Start, Http2Event::Begin) => true,
            (Http2Phase::Resolving, Http2Event::Resolved(_)) => true,
            (Http2Phase::Connecting, Http2Event::ConnectEnded(_)) => true,
            (Http2Phase::SettingNoDelay, Http2Event::NoDelaySet(_)) => true,
            (Http2Phase::TlsHandshake, Http2Event::TlsDone(_)) => true,
            (Http2Phase::H2Handshake, Http2Event::H2Done(_)) => true,
            _ => false,
        }
    }

    /// The candidates and the last failure once the event is taken in.
    pub open spec fn candidates_after(&self, event: Http2Event) -> (Seq<SocketAddress>, Option<
        IoFailureView,
    >) {
        match event {
            Http2Event::Begin => (
                match self.host_addr {
                    Some(ip) => seq![SocketAddress { ip, port: self.port }],
                    None => self.addrs@,
                },
                failure_view(self.last_err),
            ),
            Http2Event::Resolved(Ok(list)) => (list@, failure_view(self.last_err)),
            Http2Event::ConnectEnded(ConnectOutcome::Failed(e)) => (self.addrs@, Some(e@)),
            Http2Event::ConnectEnded(ConnectOutcome::TimedOut(m)) => (
                self.addrs@,
                Some(IoFailureView { kind: IoErrorKind::TimedOut, message: m@ }),
            ),
            _ => (self.addrs@, failure_view(self.last_err)),
        }
    }

    /// Whether the event sends the attempt on to the next candidate.
    pub open spec fn moves_on(&self, event: Http2Event) -> bool {
        match (self.phase, event) {
            (Http2Phase::Start, Http2Event::Begin) => self.host_addr is Some,
            (Http2Phase::Resolving, Http2Event::Resolved(Ok(_))) => true,
            (Http2Phase::Connecting, Http2Event::ConnectEnded(ConnectOutcome::Failed(_))) => true,
            (Http2Phase::Connecting, Http2Event::ConnectEnded(ConnectOutcome::TimedOut(_))) => true,
            _ => false,
        }
    }

    pub fn new(
        host_addr: Option<IpAddress>,
        host: String,
        port: u16,
        timeout_ms: u64,
        tls: bool,
    ) -> (r: Http2Connect)
        ensures
            r.phase == Http2Phase::Start,
            r.host_addr == host_addr,
            r.host == host,
            r.port == port,
            r.timeout_ms == timeout_ms,
            r.tls == tls,
            r.addrs@ == Seq::<SocketAddress>::empty(),
            r.tried == 0,
            r.last_err is None,
    {
        Http2Connect {
            phase: Http2Phase::Start,
            host_addr,
            host,
            port,
            timeout_ms,
            tls,
            addrs: Vec::new(),
            tried: 0,
            last_err: None,
        }
    }

    /// Hands out the next candidate, or ends the attempt where none is left.
    fn try_next(&mut self) -> (r: Http2Action)
        ensures
            final(self).same_target(old(self)),
            final(self).addrs == old(self).addrs,
            if old(self).tried < old(self).addrs.len() {
                &&& final(self).phase == Http2Phase::Connecting
                &&& final(self).tried == old(self).tried + 1
                &&& final(self).last_err == old(self).last_err
                &&& r == (Http2Action::TryConnect {
                    addr: old(self).addrs[old(self).tried as int],
                    timeout_ms: old(self).timeout_ms,
                })
            } else {
                &&& final(self).phase == Http2Phase::Failed
                &&& final(self).tried == old(self).tried
                &&& r matches Http2Action::Fail(e)
                &&& e@ == final_failure(failure_view(old(self).last_err))
            },
    {
        if self.tried < self.addrs.len() {
            let addr = self.addrs[self.tried];
            self.tried = self.tried + 1;
            self.phase = Http2Phase::Connecting;
            Http2Action::TryConnect { addr, timeout_ms: self.timeout_ms }
        } else {
            self.phase = Http2Phase::Failed;
            let failure = match self.last_err.take() {
                Some(e) => e,
                None => IoFailure::no_addresses(),
            };
            Http2Action::Fail(LocalProxyConnError::Io(failure))
        }
    }

    /// Whether one step on `event` leads from this state to `next` with
    /// action `r`.
    pub open spec fn steps_to(&self, event: Http2Event, next: &Http2Connect, r: Http2Action) -> bool {
        &&& next.same_target(self)
        &&& !self.expects(event) ==> r is Unexpected && *next == *self
        &&& r is ResolveDns ==> self.phase == Http2Phase::Start && self.host_addr is None
        &&& self.expects(event) && self.moves_on(event) ==> self.tries_next(event, next, r)
        &&& self.expects(event) && !self.moves_on(event) ==> self.goes_on(event, next, r)
    }

    /// The step that turns to the next candidate.
    pub open spec fn tries_next(&self, event: Http2Event, next: &Http2Connect, r: Http2Action) -> bool {
        let (addrs, last_err) = self.candidates_after(event);
        let tried = if self.phase == Http2Phase::Connecting {
            self.tried as int
        } else {
            0
        };
        &&& next.addrs@ == addrs
        &&& if tried < addrs.len() {
            &&& next.phase == Http2Phase::Connecting
            &&& next.tried == tried + 1
            &&& failure_view(next.last_err) == last_err
            &&& r == (Http2Action::TryConnect { addr: addrs[tried], timeout_ms: self.timeout_ms })
        } else {
            &&& next.phase == Http2Phase::Failed
            &&& r matches Http2Action::Fail(e)
            &&& e@ == final_failure(last_err)
        }
    }

    /// Every other step.
    pub open spec fn goes_on(&self, event: Http2Event, next: &Http2Connect, r: Http2Action) -> bool {
        &&& next.addrs == self.addrs
        &&& next.tried == self.tried
        &&& match event {
            Http2Event::Begin => {
                &&& next.phase == Http2Phase::Resolving
                &&& r matches Http2Action::ResolveDns { host, port }
                &&& host@ == self.host@
                &&& port == self.port
            },
            Http2Event::Resolved(Err(e)) => {
                &&& next.phase == Http2Phase::Failed
                &&& r matches Http2Action::Fail(x)
                &&& x@ == LocalProxyConnErrorView::Io(e@)
            },
            Http2Event::ConnectEnded(ConnectOutcome::Connected) => {
                &&& next.phase == Http2Phase::SettingNoDelay
                &&& r is SetNoDelay
            },
            Http2Event::NoDelaySet(Ok(_)) => if self.tls {
                match dns_name_refusal(self.host@) {
                    None => {
                        &&& next.phase == Http2Phase::TlsHandshake
                        &&& r matches Http2Action::TlsHandshake { server_name }
                        &&& server_name@ == self.host@
                    },
                    Some(why) => {
                        &&& next.phase == Http2Phase::Failed
                        &&& r matches Http2Action::Fail(x)
                        &&& x@ == LocalProxyConnErrorView::Io(
                            IoFailureView { kind: IoErrorKind::Other, message: why },
                        )
                    },
                }
            } else {
                &&& next.phase == Http2Phase::H2Handshake
                &&& r == Http2Action::H2Handshake(keep_alive_settings())
            },
            Http2Event::NoDelaySet(Err(e)) => {
                &&& next.phase == Http2Phase::Failed
                &&& r matches Http2Action::Fail(x)
                &&& x@ == LocalProxyConnErrorView::Io(e@)
            },
            Http2Event::TlsDone(Ok(_)) => {
                &&& next.phase == Http2Phase::H2Handshake
                &&& r == Http2Action::H2Handshake(keep_alive_settings())
            },
            Http2Event::TlsDone(Err(e)) => {
                &&& next.phase == Http2Phase::Failed
                &&& r matches Http2Action::Fail(x)
                &&& x@ == LocalProxyConnErrorView::Io(e@)
            },
            Http2Event::H2Done(Ok(_)) => {
                &&& next.phase == Http2Phase::Done
                &&& r is Ready
            },
            Http2Event::H2Done(Err(m)) => {
                &&& next.phase == Http2Phase::Failed
                &&& r matches Http2Action::Fail(x)
                &&& x@ == LocalProxyConnErrorView::H2(m@)
            },
            _ => false,
        }
    }

    /// Takes the attempt one step further.
    ///
    /// The address the locator gave is the only candidate where it gave
    /// one, and then the host name is never resolved. Otherwise the name is
    /// resolved and the addresses are tried in the order they came. A
    /// candidate that fails or runs out of time is remembered and the next
    /// is tried; when none is left the attempt ends with the failure
    /// remembered last, or with the failure to resolve where there was no
    /// candidate at all. On the first stream that opens, `TCP_NODELAY` is
    /// set, TLS follows where it is asked for and the host is a DNS name
    /// to check the certificate against, then the HTTP/2 handshake.
    pub fn step(&mut self, event: Http2Event) -> (r: Http2Action)
        ensures
            old(self).steps_to(event, final(self), r),
    {
        let settings = Http2Settings {
            keep_alive_interval_secs: 20,
            keep_alive_timeout_secs: 5,
            keep_alive_while_idle: true,
        };
        match (self.phase, event) {
            (Http2Phase::Start, Http2Event::Begin) => {
                match self.host_addr {
                    Some(ip) => {
                        let mut addrs: Vec<SocketAddress> = Vec::new();
                        addrs.push(SocketAddress { ip, port: self.port });
                        assert(addrs@ =~= seq![SocketAddress { ip, port: self.port }]);
                        self.addrs = addrs;
                        self.tried = 0;
                        self.try_next()
                    },
                    None => {
                        self.phase = Http2Phase::Resolving;
                        Http2Action::ResolveDns { host: self.host.clone(), port: self.port }
                    },
                }
            },
            (Http2Phase::Resolving, Http2Event::Resolved(outcome)) => {
                match outcome {
                    Ok(list) => {
                        self.addrs = list;
                        self.tried = 0;
                        self.try_next()
                    },
                    Err(e) => {
                        self.phase = Http2Phase::Failed;
                        Http2Action::Fail(LocalProxyConnError::Io(e))
                    },
                }
            },
            (Http2Phase::Connecting, Http2Event::ConnectEnded(outcome)) => {
                match outcome {
                    ConnectOutcome::Connected => {
                        self.phase = Http2Phase::SettingNoDelay;
                        Http2Action::SetNoDelay
                    },
                    ConnectOutcome::Failed(e) => {
                        self.last_err = Some(e);
                        self.try_next()
                    },
                    ConnectOutcome::TimedOut(message) => {
                        self.last_err = Some(IoFailure::timed_out(message));
                        self.try_next()
                    },
                }
            },
            (Http2Phase::SettingNoDelay, Http2Event::NoDelaySet(outcome)) => {
                match outcome {
                    Ok(()) => {
                        if self.tls {
                            let refusal = check_dns_name(self.host.as_str());
                            let (phase, action) = tls_step(self.host.as_str(), refusal);
                            self.phase = phase;
                            action
                        } else {
                            self.phase = Http2Phase::H2Handshake;
                            Http2Action::H2Handshake(settings)
                        }
                    },
                    Err(e) => {
                        self.phase = Http2Phase::Failed;
                        Http2Action::Fail(LocalProxyConnError::Io(e))
                    },
                }
            },
            (Http2Phase::TlsHandshake, Http2Event::TlsDone(outcome)) => {
                match outcome {
                    Ok(()) => {
                        self.phase = Http2Phase::H2Handshake;
                        Http2Action::H2Handshake(settings)
                    },
                    Err(e) => {
                        self.phase = Http2Phase::Failed;
                        Http2Action::Fail(LocalProxyConnError::Io(e))
                    },
                }
            },
            (Http2Phase::H2Handshake, Http2Event::H2Done(outcome)) => {
                match outcome {
                    Ok(()) => {
                        self.phase = Http2Phase::Done;
                        Http2Action::Ready
                    },
                    Err(message) => {
                        self.phase = Http2Phase::Failed;
                        Http2Action::Fail(LocalProxyConnError::H2(message))
                    },
                }
            },
            _ => Http2Action::Unexpected,
        }
    }
}

/// Whether `states`, `events` and `actions` are one attempt: each state
/// follows from the one before by a step on the event of that place, with
/// the action of that place.
pub open spec fn is_attempt(
    states: Seq<Http2Connect>,
    events: Seq<Http2Event>,
    actions: Seq<Http2Action>,
) -> bool {
    &&& states.len() == events.len() + 1
    &&& actions.len() == events.len()
    &&& forall|i: int|
        0 <= i < events.len() ==> (#[trigger] states[i]).steps_to(
            events[i],
            &states[i + 1],
            actions[i],
        )
}

proof fn lemma_target_stays(
    states: Seq<Http2Connect>,
    events: Seq<Http2Event>,
    actions: Seq<Http2Action>,
    k: int,
)
    requires
        is_attempt(states, events, actions),
        0 <= k < states.len(),
    ensures
        states[k].same_target(&states[0]),
    decreases k,
{
    if k > 0 {
        lemma_target_stays(states, events, actions, k - 1);
        assert(states[k - 1].steps_to(events[k - 1], &states[k], actions[k - 1]));
    }
}

/// Where the locator gave an address, no step of the attempt ever asks for
/// the host name to be resolved, however the attempt goes and ends.
pub proof fn lemma_host_addr_skips_dns(
    states: Seq<Http2Connect>,
    events: Seq<Http2Event>,
    actions: Seq<Http2Action>,
)
    requires
        is_attempt(states, events, actions),
        states[0].host_addr is Some,
    ensures
        forall|i: int| 0 <= i < actions.len() ==> !(#[trigger] actions[i] is ResolveDns),
{
    assert forall|i: int| 0 <= i < actions.len() implies !(#[trigger] actions[i] is ResolveDns) by {
        lemma_target_stays(states, events, actions, i);
        assert(states[i].steps_to(events[i], &states[i + 1], actions[i]));
    }
}

/// An attempt whose host name resolves to no address at all ends at once
/// with the failure to resolve.
pub proof fn lemma_no_addresses(
    before: Http2Connect,
    addrs: Vec<SocketAddress>,
    after: Http2Connect,
    r: Http2Action,
)
    requires
        before.phase == Http2Phase::Resolving,
        before.last_err is None,
        addrs@.len() == 0,
        before.steps_to(Http2Event::Resolved(Ok(addrs)), &after, r),
    ensures
        after.phase == Http2Phase::Failed,
        r matches Http2Action::Fail(e) && e@ == LocalProxyConnErrorView::Io(no_addresses_failure()),
{
    let event = Http2Event::Resolved(Ok(addrs));
    assert(before.expects(event));
    assert(before.moves_on(event));
}

} // verus!
