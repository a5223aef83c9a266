//! What an endpoint allows: which peers may connect, and how often.

use vstd::prelude::*;
use crate::error::{AuthError, AuthErrorView};
use crate::strmap::StrMap;
use crate::types::IpAddress;

verus! {

/// A run of IP addresses of one family, both ends included.
#[derive(Clone, Copy, PartialEq, Eq, Structural)]
pub struct IpRange {
    pub first: IpAddress,
    pub last: IpAddress,
}

impl IpRange {
    /// Whether `addr` lies in the range. An address of the other family
    /// never does.
    pub open spec fn contains(self, addr: IpAddress) -> bool {
        match (self.first, self.last, addr) {
            (IpAddress::V4(f), IpAddress::V4(l), IpAddress::V4(a)) => f <= a <= l,
            (IpAddress::V6(f), IpAddress::V6(l), IpAddress::V6(a)) => f <= a <= l,
            _ => false,
        }
    }

    /// Executable form of [`IpRange::contains`].
    pub fn holds(&self, addr: IpAddress) -> (r: bool)
        ensures
            r == self.contains(addr),
    {
        match (self.first, self.last, addr) {
            (IpAddress::V4(f), IpAddress::V4(l), IpAddress::V4(a)) => f <= a && a <= l,
            (IpAddress::V6(f), IpAddress::V6(l), IpAddress::V6(a)) => f <= a && a <= l,
            _ => false,
        }
    }
}

/// How many connection attempts an endpoint takes in one window of time.
#[derive(Clone, Copy, PartialEq, Eq, Structural)]
pub struct RateLimit {
    pub max_attempts: u32,
    pub window_ms: u64,
}

/// What the control plane says an endpoint allows.
pub struct EndpointAccessControl {
    /// The peers that may connect. An empty list restricts nothing.
    pub ip_allowlist: Vec<IpRange>,
    /// Whether the private network the request came through may connect.
    pub vpc_allowed: bool,
    pub connection_rate_limit: RateLimit,
}

/// Whether the allow-list lets `peer` in: it is empty, or one of its ranges
/// holds the peer.
pub open spec fn ip_allowed(allowlist: Seq<IpRange>, peer: IpAddress) -> bool {
    allowlist.len() == 0 || exists|i: int| 0 <= i < allowlist.len() && (#[trigger] allowlist[i]).contains(peer)
}

/// The refusal, if any, that the endpoint's rules give a request from
/// `peer`. The allow-list counts only where `check_ip` is set, the network
/// rule only where `check_vpc` is.
pub open spec fn access_refusal(
    allowlist: Seq<IpRange>,
    vpc_allowed: bool,
    peer: IpAddress,
    check_ip: bool,
    check_vpc: bool,
) -> Option<AuthErrorView> {
    if check_ip && !ip_allowed(allowlist, peer) {
        Some(AuthErrorView::IpAddressNotAllowed)
    } else if check_vpc && !vpc_allowed {
        Some(AuthErrorView::NetworkNotAllowed)
    } else {
        None
    }
}

impl EndpointAccessControl {
    fn allows_ip(&self, peer: IpAddress) -> (r: bool)
        ensures
            r == ip_allowed(self.ip_allowlist@, peer),
    {
        if self.ip_allowlist.len() == 0 {
            return true;
        }
        let mut i: usize = 0;
        while i < self.ip_allowlist.len()
            invariant
                i <= self.ip_allowlist.len(),
                forall|j: int| 0 <= j < i ==> !(#[trigger] self.ip_allowlist[j]).contains(peer),
            decreases self.ip_allowlist.len() - i,
        {
            if self.ip_allowlist[i].holds(peer) {
                return true;
            }
            i = i + 1;
        }
        false
    }

    /// Applies the endpoint's rules to a request from `peer`.
    pub fn check(&self, peer: IpAddress, check_ip: bool, check_vpc: bool) -> (r: Result<
        (),
        AuthError,
    >)
        ensures
            match (r, access_refusal(self.ip_allowlist@, self.vpc_allowed, peer, check_ip, check_vpc)) {
                (Ok(_), None) => true,
                (Err(e), Some(refusal)) => e@ == refusal,
                _ => false,
            },
    {
        if check_ip && !self.allows_ip(peer) {
            Err(AuthError::IpAddressNotAllowed)
        } else if check_vpc && !self.vpc_allowed {
            Err(AuthError::NetworkNotAllowed)
        } else {
            Ok(())
        }
    }
}

/// The attempts counted for one endpoint in its current window.
#[derive(Clone, Copy, PartialEq, Eq, Structural)]
pub struct Window {
    pub start: u64,
    pub count: u32,
}

/// Whether the window that began at `start` is over at `now`. A clock that
/// ran backwards ends the window too.
pub open spec fn window_over(start: u64, now: u64, window_ms: u64) -> bool {
    now < start || now - start >= window_ms
}

/// Whether an attempt at `now` is within `limit`, given the window counted
/// so far.
pub open spec fn attempt_allowed(held: Option<Window>, limit: RateLimit, now: u64) -> bool {
    limit.max_attempts > 0 && match held {
        Some(w) => window_over(w.start, now, limit.window_ms) || w.count < limit.max_attempts,
        None => true,
    }
}

/// The window after an attempt at `now`. A refused attempt is not counted.
pub open spec fn window_after(held: Option<Window>, limit: RateLimit, now: u64) -> Option<Window> {
    if !attempt_allowed(held, limit, now) {
        held
    } else {
        match held {
            Some(w) => if window_over(w.start, now, limit.window_ms) {
                Some(Window { start: now, count: 1 })
            } else {
                Some(Window { start: w.start, count: (w.count + 1) as u32 })
            },
            None => Some(Window { start: now, count: 1 }),
        }
    }
}

/// Counts connection attempts per endpoint.
pub struct EndpointRateLimiter {
    windows: StrMap<Window>,
}

impl EndpointRateLimiter {
    pub closed spec fn wf(&self) -> bool {
        self.windows.wf()
    }

    /// The window counted for `endpoint`, if any attempt was.
    pub closed spec fn window(&self, endpoint: Seq<char>) -> Option<Window> {
        if self.windows@.contains_key(endpoint) {
            Some(self.windows@[endpoint])
        } else {
            None
        }
    }

    pub fn new() -> (r: EndpointRateLimiter)
        ensures
            r.wf(),
            forall|endpoint: Seq<char>| r.window(endpoint) is None,
    {
        EndpointRateLimiter { windows: StrMap::new() }
    }

    /// Counts one attempt on `endpoint` at `now` and tells whether it is
    /// within `limit`.
    pub fn check(&mut self, endpoint: &str, limit: RateLimit, now: u64) -> (r: bool)
        requires
            old(self).wf(),
        ensures
            final(self).wf(),
            r == attempt_allowed(old(self).window(endpoint@), limit, now),
            final(self).window(endpoint@) == window_after(old(self).window(endpoint@), limit, now),
            forall|other: Seq<char>|
                other != endpoint@ ==> final(self).window(other) == old(self).window(other),
    {
        if limit.max_attempts == 0 {
            return false;
        }
        let held: Option<Window> = match self.windows.get(endpoint) {
            Some(w) => Some(*w),
            None => None,
        };
        let next = match held {
            Some(w) => {
                if now < w.start || now - w.start >= limit.window_ms {
                    Window { start: now, count: 1 }
                } else if w.count < limit.max_attempts {
                    Window { start: w.start, count: w.count + 1 }
                } else {
                    return false;
                }
            },
            None => Window { start: now, count: 1 },
        };
        let _before = self.windows.insert(endpoint, next);
        true
    }
}

} // verus!
