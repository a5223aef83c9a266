//! Per-host permits that bound how many wake or connect operations run at
//! the same time.

use vstd::prelude::*;
use crate::error::{HttpConnError, HttpConnErrorView};

verus! {

/// Mathematical value of the permits handed out for one host.
pub struct HostPermits {
    pub host: Seq<char>,
    pub in_use: nat,
}

pub open spec fn host_known(hosts: Seq<HostPermits>, host: Seq<char>) -> bool {
    exists|i: int| 0 <= i < hosts.len() && (#[trigger] hosts[i]).host == host
}

pub open spec fn host_index(hosts: Seq<HostPermits>, host: Seq<char>) -> int {
    choose|i: int| 0 <= i < hosts.len() && (#[trigger] hosts[i]).host == host
}

pub open spec fn hosts_unique(hosts: Seq<HostPermits>) -> bool {
    forall|i: int, j: int|
        0 <= i < j < hosts.len() ==> (#[trigger] hosts[i]).host != (#[trigger] hosts[j]).host
}

/// The number of permits out for `host`.
pub open spec fn in_use(hosts: Seq<HostPermits>, host: Seq<char>) -> nat {
    if host_known(hosts, host) {
        hosts[host_index(hosts, host)].in_use
    } else {
        0
    }
}

pub proof fn lemma_host_index(hosts: Seq<HostPermits>, host: Seq<char>, i: int)
    requires
        hosts_unique(hosts),
        0 <= i < hosts.len(),
        hosts[i].host == host,
    ensures
        host_known(hosts, host),
        host_index(hosts, host) == i,
{
    let j = host_index(hosts, host);
    assert(0 <= j < hosts.len() && hosts[j].host == host);
    if j < i {
        assert(hosts[j].host != hosts[i].host);
    } else if i < j {
        assert(hosts[i].host != hosts[j].host);
    }
}

/// A change at one host is seen at that host and at no other.
pub proof fn lemma_host_update(hosts: Seq<HostPermits>, i: int, n: nat)
    requires
        hosts_unique(hosts),
        0 <= i < hosts.len(),
    ensures
        hosts_unique(hosts.update(i, HostPermits { host: hosts[i].host, in_use: n })),
        in_use(hosts.update(i, HostPermits { host: hosts[i].host, in_use: n }), hosts[i].host) == n,
        forall|other: Seq<char>|
            other != hosts[i].host ==> in_use(
                hosts.update(i, HostPermits { host: hosts[i].host, in_use: n }),
                other,
            ) == in_use(hosts, other),
{
    let name = hosts[i].host;
    let out = hosts.update(i, HostPermits { host: name, in_use: n });
    assert forall|a: int, b: int| 0 <= a < b < out.len() implies (#[trigger] out[a]).host != (
    #[trigger] out[b]).host by {
        assert(out[a].host == hosts[a].host);
        assert(out[b].host == hosts[b].host);
    }
    lemma_host_index(out, name, i);
    assert forall|other: Seq<char>| other != name implies in_use(out, other) == in_use(
        hosts,
        other,
    ) by {
        if host_known(hosts, other) {
            let j = host_index(hosts, other);
            assert(out[j] == hosts[j]);
            lemma_host_index(out, other, j);
        } else if host_known(out, other) {
            let j = host_index(out, other);
            assert(hosts[j].host == other);
        }
    }
}

pub proof fn lemma_host_push(hosts: Seq<HostPermits>, host: Seq<char>, n: nat)
    requires
        hosts_unique(hosts),
        !host_known(hosts, host),
    ensures
        hosts_unique(hosts.push(HostPermits { host, in_use: n })),
        in_use(hosts.push(HostPermits { host, in_use: n }), host) == n,
        forall|other: Seq<char>|
            other != host ==> in_use(hosts.push(HostPermits { host, in_use: n }), other) == in_use(
                hosts,
                other,
            ),
{
    let out = hosts.push(HostPermits { host, in_use: n });
    let i = hosts.len() as int;
    assert(out[i].host == host);
    assert forall|a: int, b: int| 0 <= a < b < out.len() implies (#[trigger] out[a]).host != (
    #[trigger] out[b]).host by {
        assert(out[a] == hosts[a]);
        if b < i {
            assert(out[b] == hosts[b]);
        }
    }
    lemma_host_index(out, host, i);
    assert forall|other: Seq<char>| other != host implies in_use(out, other) == in_use(
        hosts,
        other,
    ) by {
        if host_known(hosts, other) {
            let j = host_index(hosts, other);
            assert(out[j] == hosts[j]);
            lemma_host_index(out, other, j);
        } else if host_known(out, other) {
            let j = host_index(out, other);
            if j < i {
                assert(hosts[j] == out[j]);
            }
        }
    }
}

/// A permit for one operation on one host. It is given back with
/// [`ApiLocks::release`].
pub struct Permit {
    host: String,
}

impl Permit {
    pub closed spec fn host(&self) -> Seq<char> {
        self.host@
    }
}

struct HostSlot {
    host: String,
    in_use: usize,
}

/// The permits of all hosts.
pub struct ApiLocks {
    permits: usize,
    hosts: Vec<HostSlot>,
}

impl ApiLocks {
    /// How many operations may run on one host at the same time.
    pub closed spec fn permits(&self) -> nat {
        self.permits as nat
    }

    pub closed spec fn hosts(&self) -> Seq<HostPermits> {
        Seq::new(
            self.hosts.len() as nat,
            |i: int| HostPermits { host: self.hosts[i].host@, in_use: self.hosts[i].in_use as nat },
        )
    }

    /// The number of permits out for `host`.
    pub open spec fn in_use(&self, host: Seq<char>) -> nat {
        in_use(self.hosts(), host)
    }

    pub closed spec fn wf(&self) -> bool {
        &&& hosts_unique(self.hosts())
        &&& forall|i: int| 0 <= i < self.hosts.len() ==> (#[trigger] self.hosts[i]).in_use <= self.permits
    }

    /// No host ever has more permits out than the limit.
    pub proof fn lemma_bounded(&self, host: Seq<char>)
        requires
            self.wf(),
        ensures
            self.in_use(host) <= self.permits(),
    {
        if host_known(self.hosts(), host) {
            let i = host_index(self.hosts(), host);
            assert(self.hosts()[i].in_use == self.hosts[i].in_use);
        }
    }

    pub fn new(permits: usize) -> (r: ApiLocks)
        ensures
            r.wf(),
            r.permits() == permits,
            forall|host: Seq<char>| r.in_use(host) == 0,
    {
        let r = ApiLocks { permits, hosts: Vec::new() };
        assert(r.hosts() =~= Seq::<HostPermits>::empty());
        r
    }

    fn find(&self, host: &str) -> (r: Option<usize>)
        requires
            self.wf(),
        ensures
            r is Some == host_known(self.hosts(), host@),
            r matches Some(i) ==> i < self.hosts.len() && host_index(self.hosts(), host@) == i,
    {
        let mut i: usize = 0;
        while i < self.hosts.len()
            invariant
                self.wf(),
                i <= self.hosts.len(),
                forall|j: int| 0 <= j < i ==> (#[trigger] self.hosts()[j]).host != host@,
            decreases self.hosts.len() - i,
        {
            if crate::text::str_eq(self.hosts[i].host.as_str(), host) {
                proof {
                    assert(self.hosts()[i as int].host == host@);
                    lemma_host_index(self.hosts(), host@, i as int);
                }
                return Some(i);
            }
            i = i + 1;
        }
        None
    }

    /// The number of permits out for `host`.
    pub fn held(&self, host: &str) -> (r: usize)
        requires
            self.wf(),
        ensures
            r == self.in_use(host@),
    {
        match self.find(host) {
            Some(i) => {
                assert(self.hosts()[i as int].in_use == self.hosts[i as int].in_use);
                self.hosts[i].in_use
            },
            None => 0,
        }
    }

    /// Asks for a permit for `host`. One is granted exactly when fewer than
    /// the limit are out for that host; otherwise the caller has to wait
    /// and ask again.
    pub fn get_permit(&mut self, host: &str) -> (r: Option<Permit>)
        requires
            old(self).wf(),
        ensures
            final(self).wf(),
            final(self).permits() == old(self).permits(),
            r is Some == (old(self).in_use(host@) < old(self).permits()),
            r matches Some(p) ==> p.host() == host@,
            final(self).in_use(host@) == old(self).in_use(host@) + if r is Some {
                1nat
            } else {
                0nat
            },
            forall|other: Seq<char>|
                other != host@ ==> final(self).in_use(other) == old(self).in_use(other),
    {
        let ghost before = self.hosts();
        match self.find(host) {
            Some(i) => {
                assert(before[i as int].in_use == self.hosts[i as int].in_use);
                if self.hosts[i].in_use < self.permits {
                    let n = self.hosts[i].in_use + 1;
                    self.hosts[i].in_use = n;
                    proof {
                        assert(self.hosts() =~= before.update(
                            i as int,
                            HostPermits { host: before[i as int].host, in_use: n as nat },
                        ));
                        lemma_host_update(before, i as int, n as nat);
                    }
                    Some(Permit { host: crate::text::owned(host) })
                } else {
                    None
                }
            },
            None => {
                if self.permits > 0 {
                    self.hosts.push(HostSlot { host: crate::text::owned(host), in_use: 1 });
                    proof {
                        assert(self.hosts() =~= before.push(HostPermits { host: host@, in_use: 1 }));
                        lemma_host_push(before, host@, 1);
                    }
                    Some(Permit { host: crate::text::owned(host) })
                } else {
                    None
                }
            },
        }
    }

    /// Gives a permit back.
    pub fn release(&mut self, permit: Permit)
        requires
            old(self).wf(),
        ensures
            final(self).wf(),
            final(self).permits() == old(self).permits(),
            final(self).in_use(permit.host()) == if old(self).in_use(permit.host()) > 0 {
                (old(self).in_use(permit.host()) - 1) as nat
            } else {
                0nat
            },
            forall|other: Seq<char>|
                other != permit.host() ==> final(self).in_use(other) == old(self).in_use(other),
    {
        let ghost before = self.hosts();
        match self.find(permit.host.as_str()) {
            Some(i) => {
                assert(before[i as int].in_use == self.hosts[i as int].in_use);
                if self.hosts[i].in_use > 0 {
                    let n = self.hosts[i].in_use - 1;
                    self.hosts[i].in_use = n;
                    proof {
                        assert(self.hosts() =~= before.update(
                            i as int,
                            HostPermits { host: before[i as int].host, in_use: n as nat },
                        ));
                        lemma_host_update(before, i as int, n as nat);
                    }
                }
            },
            None => {},
        }
    }

    /// Settles a permit once the operation it was taken for has ended.
    /// After a success the permit stays out, to be given back when the
    /// connection it guards is dropped; after a failure it is given back at
    /// once.
    pub fn release_result(&mut self, permit: Permit, succeeded: bool) -> (r: Option<Permit>)
        requires
            old(self).wf(),
        ensures
            final(self).wf(),
            final(self).permits() == old(self).permits(),
            r is Some == succeeded,
            r matches Some(p) ==> p == permit,
            final(self).in_use(permit.host()) == if !succeeded && old(self).in_use(permit.host())
                > 0 {
                (old(self).in_use(permit.host()) - 1) as nat
            } else {
                old(self).in_use(permit.host())
            },
            forall|other: Seq<char>|
                other != permit.host() ==> final(self).in_use(other) == old(self).in_use(other),
    {
        if succeeded {
            Some(permit)
        } else {
            self.release(permit);
            None
        }
    }
}

/// The failure reported when no permit came in time. It is of the
/// rate-limit class and is never retried.
pub fn permit_timeout(message: String) -> (r: HttpConnError)
    ensures
        r@ == HttpConnErrorView::TooManyConnectionAttempts(message@),
        !r@.could_retry(),
        !r@.should_retry_wake_compute(),
        r@.kind() == crate::error::ErrorKind::RateLimited,
{
    HttpConnError::TooManyConnectionAttempts(message)
}

} // verus!
