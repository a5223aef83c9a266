//! Many requests for the address of one endpoint, each taking the steps of
//! [`crate::wake`] in any interleaving, with a single wake permit between
//! them: how often the control plane is asked, whatever the interleaving.

use vstd::prelude::*;
use crate::wake::{wake_expected, wake_next, WakeEventKind, WakeState};

verus! {

/// One thing that happens to the system.
pub enum WakeSystemEvent {
    /// Request `who` takes a step.
    Step { who: int, event: WakeEventKind },
    /// The cached address is dropped, as after a connect attempt that
    /// found it stale.
    Invalidate,
}

/// The requests for one endpoint, the endpoint's cache entry, and the
/// endpoint's wake permit.
pub struct WakeSystem {
    /// Whether the cache holds an address for the endpoint.
    pub cached: bool,
    /// The request that holds the wake permit, if any does.
    pub holder: Option<int>,
    pub requests: Seq<WakeState>,
    /// How often the control plane was asked.
    pub calls: nat,
    /// How often the control plane answered with a failure.
    pub failures: nat,
    /// How often the cached address was dropped.
    pub invalidations: nat,
}

/// `n` requests that have done nothing yet, and an empty cache.
pub open spec fn fresh(n: nat) -> WakeSystem {
    WakeSystem {
        cached: false,
        holder: None,
        requests: Seq::new(n, |i: int| WakeState::Start),
        calls: 0,
        failures: 0,
        invalidations: 0,
    }
}

/// Whether the event can happen: a request steps only on an event it waits
/// for, and the permit is granted only while nobody holds it.
pub open spec fn enabled(s: WakeSystem, ev: WakeSystemEvent) -> bool {
    match ev {
        WakeSystemEvent::Step { who, event } => {
            &&& 0 <= who < s.requests.len()
            &&& wake_expected(s.requests[who], event)
            &&& event == WakeEventKind::PermitAcquired ==> s.holder is None
        },
        WakeSystemEvent::Invalidate => true,
    }
}

/// The system after the event.
pub open spec fn after(s: WakeSystem, ev: WakeSystemEvent) -> WakeSystem {
    match ev {
        WakeSystemEvent::Step { who, event } => {
            let old = s.requests[who];
            let new = wake_next(old, event, s.cached);
            WakeSystem {
                cached: s.cached || (old == WakeState::Calling && event == WakeEventKind::Answered(
                    true,
                )),
                holder: if new == WakeState::Calling {
                    Some(who)
                } else if old == WakeState::Calling {
                    None
                } else {
                    s.holder
                },
                requests: s.requests.update(who, new),
                calls: if new == WakeState::Calling {
                    s.calls + 1
                } else {
                    s.calls
                },
                failures: if old == WakeState::Calling && event == WakeEventKind::Answered(false) {
                    s.failures + 1
                } else {
                    s.failures
                },
                invalidations: s.invalidations,
            }
        },
        WakeSystemEvent::Invalidate => WakeSystem {
            cached: false,
            invalidations: s.invalidations + 1,
            ..s
        },
    }
}

/// The system after all events of `trace`, in order.
pub open spec fn run(s: WakeSystem, trace: Seq<WakeSystemEvent>) -> WakeSystem
    decreases trace.len(),
{
    if trace.len() == 0 {
        s
    } else {
        after(run(s, trace.drop_last()), trace.last())
    }
}

/// Whether every event of `trace` can happen when its turn comes.
pub open spec fn possible(s: WakeSystem, trace: Seq<WakeSystemEvent>) -> bool
    decreases trace.len(),
{
    trace.len() == 0 || (possible(s, trace.drop_last()) && enabled(
        run(s, trace.drop_last()),
        trace.last(),
    ))
}

/// What holds of every system that the requests can bring about.
pub open spec fn consistent(s: WakeSystem) -> bool {
    &&& s.holder matches Some(h) ==> 0 <= h < s.requests.len() && s.requests[h]
        == WakeState::Calling
    &&& forall|i: int|
        0 <= i < s.requests.len() && #[trigger] s.requests[i] == WakeState::Calling ==> s.holder
            == Some(i)
    &&& s.calls <= s.failures + s.invalidations + if s.cached || s.holder is Some {
        1nat
    } else {
        0nat
    }
}

pub proof fn lemma_event_keeps_consistent(s: WakeSystem, ev: WakeSystemEvent)
    requires
        consistent(s),
        enabled(s, ev),
    ensures
        consistent(after(s, ev)),
{
    let t = after(s, ev);
    match ev {
        WakeSystemEvent::Step { who, event } => {
            assert forall|i: int|
                0 <= i < t.requests.len() && #[trigger] t.requests[i]
                    == WakeState::Calling implies t.holder == Some(i) by {
                if i != who {
                    assert(t.requests[i] == s.requests[i]);
                }
            }
            if let Some(h) = s.holder {
                if h != who {
                    assert(t.requests[h] == s.requests[h]);
                    assert(s.requests[who] != WakeState::Calling);
                }
            }
        },
        WakeSystemEvent::Invalidate => {},
    }
}

pub proof fn lemma_run_keeps_consistent(s: WakeSystem, trace: Seq<WakeSystemEvent>)
    requires
        consistent(s),
        possible(s, trace),
    ensures
        consistent(run(s, trace)),
    decreases trace.len(),
{
    if trace.len() > 0 {
        lemma_run_keeps_consistent(s, trace.drop_last());
        lemma_event_keeps_consistent(run(s, trace.drop_last()), trace.last());
    }
}

/// The number of failed answers and dropped addresses in a trace.
pub open spec fn setbacks(trace: Seq<WakeSystemEvent>) -> nat
    decreases trace.len(),
{
    if trace.len() == 0 {
        0
    } else {
        setbacks(trace.drop_last()) + match trace.last() {
            WakeSystemEvent::Step { who, event } => if event == WakeEventKind::Answered(false) {
                1nat
            } else {
                0nat
            },
            WakeSystemEvent::Invalidate => 1nat,
        }
    }
}

pub proof fn lemma_setbacks_counted(s: WakeSystem, trace: Seq<WakeSystemEvent>)
    ensures
        run(s, trace).failures + run(s, trace).invalidations <= s.failures + s.invalidations
            + setbacks(trace),
    decreases trace.len(),
{
    if trace.len() > 0 {
        lemma_setbacks_counted(s, trace.drop_last());
    }
}

/// Whatever the interleaving of any number of requests for one endpoint:
/// at most one of them is asking the control plane at any time, and the
/// control plane was asked at most once more often than answers failed or
/// cached addresses were dropped.
pub proof fn lemma_wakes_coalesce(n: nat, trace: Seq<WakeSystemEvent>)
    requires
        possible(fresh(n), trace),
    ensures
        ({
            let s = run(fresh(n), trace);
            &&& forall|i: int, j: int|
                0 <= i < s.requests.len() && 0 <= j < s.requests.len() && #[trigger] s.requests[i]
                    == WakeState::Calling && #[trigger] s.requests[j] == WakeState::Calling ==> i
                    == j
            &&& s.calls <= s.failures + s.invalidations + 1
            &&& s.calls <= setbacks(trace) + 1
        }),
{
    lemma_run_keeps_consistent(fresh(n), trace);
    lemma_setbacks_counted(fresh(n), trace);
}

/// Requests that miss the cache at the same time lead to one call of the
/// control plane, not one each: where no answer fails and no address is
/// dropped, the control plane is asked at most once however many requests
/// there are.
pub proof fn lemma_one_wake_call(n: nat, trace: Seq<WakeSystemEvent>)
    requires
        possible(fresh(n), trace),
        setbacks(trace) == 0,
    ensures
        run(fresh(n), trace).calls <= 1,
{
    lemma_wakes_coalesce(n, trace);
}

} // verus!
