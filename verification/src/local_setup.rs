//! Many requests for one connection key, each taking the steps of
//! [`crate::local_connect`] in any interleaving, with a single setup permit
//! between them: what holds of the setup whatever the interleaving.

use vstd::prelude::*;
use crate::local_connect::{
    expected, holds_permit, marks_initialized, next_state, EventKind, LocalConnState,
};

verus! {

/// One step of one request.
pub struct SetupEvent {
    /// Which request takes the step.
    pub who: int,
    pub event: EventKind,
    /// Whether the pool had a session for the request to reuse.
    pub hit: bool,
    /// Whether the session's key was at hand.
    pub keyed: bool,
}

/// The requests for one key, the key's setup mark, and the setup permit.
pub struct SetupSystem {
    /// Whether the key is marked as set up.
    pub initialized: bool,
    /// The request that holds the setup permit, if any does.
    pub holder: Option<int>,
    pub requests: Seq<LocalConnState>,
    /// How often the extension install was asked for.
    pub installs: nat,
    /// How often the grant was asked for.
    pub grants: nat,
    /// How often the install failed.
    pub install_failures: nat,
    /// How often the grant failed.
    pub grant_failures: nat,
}

/// `n` requests that have done nothing yet, for a key that is not set up.
pub open spec fn fresh(n: nat) -> SetupSystem {
    SetupSystem {
        initialized: false,
        holder: None,
        requests: Seq::new(n, |i: int| LocalConnState::Start),
        installs: 0,
        grants: 0,
        install_failures: 0,
        grant_failures: 0,
    }
}

/// Whether the step can happen: the request waits for the event, and the
/// permit is granted only while nobody holds it.
pub open spec fn enabled(s: SetupSystem, ev: SetupEvent) -> bool {
    &&& 0 <= ev.who < s.requests.len()
    &&& expected(s.requests[ev.who], ev.event)
    &&& ev.event == EventKind::PermitAcquired ==> s.holder is None
}

/// The system after the step.
pub open spec fn after(s: SetupSystem, ev: SetupEvent) -> SetupSystem {
    let old = s.requests[ev.who];
    let new = next_state(old, ev.event, ev.hit, s.initialized, ev.keyed);
    SetupSystem {
        initialized: s.initialized || marks_initialized(old, ev.event),
        holder: if holds_permit(new) {
            Some(ev.who)
        } else if holds_permit(old) {
            None
        } else {
            s.holder
        },
        requests: s.requests.update(ev.who, new),
        installs: if new == LocalConnState::Installing {
            s.installs + 1
        } else {
            s.installs
        },
        grants: if new == LocalConnState::Granting {
            s.grants + 1
        } else {
            s.grants
        },
        install_failures: if ev.event == EventKind::InstallDone(false) {
            s.install_failures + 1
        } else {
            s.install_failures
        },
        grant_failures: if ev.event == EventKind::GrantDone(false) {
            s.grant_failures + 1
        } else {
            s.grant_failures
        },
    }
}

/// The system after all steps of `trace`, in order.
pub open spec fn run(s: SetupSystem, trace: Seq<SetupEvent>) -> SetupSystem
    decreases trace.len(),
{
    if trace.len() == 0 {
        s
    } else {
        after(run(s, trace.drop_last()), trace.last())
    }
}

/// Whether every step of `trace` can happen when its turn comes.
pub open spec fn possible(s: SetupSystem, trace: Seq<SetupEvent>) -> bool
    decreases trace.len(),
{
    trace.len() == 0 || (possible(s, trace.drop_last()) && enabled(
        run(s, trace.drop_last()),
        trace.last(),
    ))
}

/// What holds of every system that the requests can bring about.
pub open spec fn consistent(s: SetupSystem) -> bool {
    &&& s.holder matches Some(h) ==> 0 <= h < s.requests.len() && holds_permit(s.requests[h])
    &&& forall|i: int|
        0 <= i < s.requests.len() && holds_permit(#[trigger] s.requests[i]) ==> s.holder == Some(i)
    &&& s.initialized ==> s.holder is None
    &&& s.installs == s.install_failures + s.grant_failures + if s.holder is Some || s.initialized {
        1nat
    } else {
        0nat
    }
    &&& s.grants == s.grant_failures + if s.initialized || (s.holder matches Some(h)
        && s.requests[h] == LocalConnState::Granting) {
        1nat
    } else {
        0nat
    }
    &&& forall|i: int|
        0 <= i < s.requests.len() && (#[trigger] s.requests[i] == LocalConnState::Connecting
            || s.requests[i] == LocalConnState::InitSession) ==> s.initialized
}

pub proof fn lemma_step_keeps_consistent(s: SetupSystem, ev: SetupEvent)
    requires
        consistent(s),
        enabled(s, ev),
    ensures
        consistent(after(s, ev)),
{
    let t = after(s, ev);
    let old = s.requests[ev.who];
    let new = t.requests[ev.who];
    assert forall|i: int| 0 <= i < t.requests.len() && holds_permit(#[trigger] t.requests[i]) implies t.holder
        == Some(i) by {
        if i != ev.who {
            assert(t.requests[i] == s.requests[i]);
        }
    }
    assert forall|i: int|
        0 <= i < t.requests.len() && (#[trigger] t.requests[i] == LocalConnState::Connecting
            || t.requests[i] == LocalConnState::InitSession) implies t.initialized by {
        if i != ev.who {
            assert(t.requests[i] == s.requests[i]);
        }
    }
    if let Some(h) = s.holder {
        if h != ev.who {
            assert(t.requests[h] == s.requests[h]);
            assert(!holds_permit(old));
        }
    }
}

pub proof fn lemma_run_keeps_consistent(s: SetupSystem, trace: Seq<SetupEvent>)
    requires
        consistent(s),
        possible(s, trace),
    ensures
        consistent(run(s, trace)),
    decreases trace.len(),
{
    if trace.len() > 0 {
        lemma_run_keeps_consistent(s, trace.drop_last());
        lemma_step_keeps_consistent(run(s, trace.drop_last()), trace.last());
    }
}

/// Whatever the interleaving of any number of requests for a key that was
/// not set up:
/// - at most one request at a time is inside the setup;
/// - once the key is marked, none is;
/// - the install was asked for at most once more often than setups failed,
///   and the grant no more often than the install;
/// - a request opens its session only after the key was marked.
pub proof fn lemma_setup_is_serialized(n: nat, trace: Seq<SetupEvent>)
    requires
        possible(fresh(n), trace),
    ensures
        ({
            let s = run(fresh(n), trace);
            &&& forall|i: int, j: int|
                0 <= i < s.requests.len() && 0 <= j < s.requests.len() && holds_permit(
                    #[trigger] s.requests[i],
                ) && holds_permit(#[trigger] s.requests[j]) ==> i == j
            &&& s.initialized ==> forall|i: int|
                0 <= i < s.requests.len() ==> !holds_permit(#[trigger] s.requests[i])
            &&& s.installs <= s.install_failures + s.grant_failures + 1
            &&& s.grants <= s.installs
            &&& forall|i: int|
                0 <= i < s.requests.len() && (#[trigger] s.requests[i] == LocalConnState::Connecting
                    || s.requests[i] == LocalConnState::InitSession) ==> s.initialized
        }),
{
    lemma_run_keeps_consistent(fresh(n), trace);
}

/// The number of setup failures in a trace.
pub open spec fn failures(trace: Seq<SetupEvent>) -> nat
    decreases trace.len(),
{
    if trace.len() == 0 {
        0
    } else {
        failures(trace.drop_last()) + if trace.last().event == EventKind::InstallDone(false)
            || trace.last().event == EventKind::GrantDone(false) {
            1nat
        } else {
            0nat
        }
    }
}

pub proof fn lemma_failures_counted(s: SetupSystem, trace: Seq<SetupEvent>)
    ensures
        run(s, trace).install_failures + run(s, trace).grant_failures == s.install_failures
            + s.grant_failures + failures(trace),
    decreases trace.len(),
{
    if trace.len() > 0 {
        lemma_failures_counted(s, trace.drop_last());
    }
}

/// Where neither the install nor the grant ever fails, each is asked for at
/// most once before the key is marked and never after, however many
/// requests arrive at the same time; and once the key is marked each was
/// asked for exactly once.
pub proof fn lemma_setup_runs_once(n: nat, trace: Seq<SetupEvent>)
    requires
        possible(fresh(n), trace),
        failures(trace) == 0,
    ensures
        run(fresh(n), trace).installs <= 1,
        run(fresh(n), trace).grants <= 1,
        run(fresh(n), trace).initialized ==> run(fresh(n), trace).installs == 1 && run(
            fresh(n),
            trace,
        ).grants == 1,
{
    lemma_run_keeps_consistent(fresh(n), trace);
    lemma_failures_counted(fresh(n), trace);
}

} // verus!
