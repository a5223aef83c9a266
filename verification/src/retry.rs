//! The driver that gets a connection to a compute: wake, connect, and on
//! failure either give up, wake again, or wait and connect again.

use vstd::prelude::*;
use crate::error::{CouldRetry, HttpConnError, HttpConnErrorView, ShouldRetryWakeCompute};

verus! {

/// How often and how patiently a connection is retried.
#[derive(Clone, Copy)]
pub struct RetryConfig {
    /// The most connect attempts one request may make.
    pub max_attempts: u32,
    /// The wait before the first repeated attempt, in milliseconds.
    pub base_delay_ms: u64,
    /// The factor by which the wait grows from one repeat to the next.
    pub multiplier: u32,
    /// The longest wait.
    pub max_delay_ms: u64,
    /// The most that chance adds to a wait.
    pub jitter_ms: u64,
}

pub open spec fn pow(m: nat, k: nat) -> nat
    decreases k,
{
    if k == 0 {
        1
    } else {
        m * pow(m, (k - 1) as nat)
    }
}

pub open spec fn min(a: int, b: int) -> int {
    if a <= b {
        a
    } else {
        b
    }
}

/// The share of a random `sample` that is added to a wait: at most the
/// configured jitter.
pub open spec fn jitter_of(config: RetryConfig, sample: u64) -> nat {
    if config.jitter_ms == u64::MAX {
        sample as nat
    } else {
        (sample % ((config.jitter_ms + 1) as u64)) as nat
    }
}

/// The wait before repeat number `retry` (counted from 0): the base wait
/// grown `retry` times by the multiplier, plus jitter, and never more than
/// the longest wait.
pub open spec fn backoff_delay(config: RetryConfig, retry: nat, sample: u64) -> int {
    min(
        config.max_delay_ms as int,
        config.base_delay_ms * pow(config.multiplier as nat, retry) + jitter_of(config, sample),
    )
}

proof fn lemma_pow_grows(base: nat, m: nat, i: nat, k: nat, cap: nat)
    requires
        m >= 1,
        i <= k,
        base * pow(m, i) >= cap,
    ensures
        base * pow(m, k) >= cap,
    decreases k - i,
{
    if i < k {
        assert(pow(m, i + 1) == m * pow(m, i));
        assert(base * pow(m, i + 1) >= base * pow(m, i)) by (nonlinear_arith)
            requires
                m >= 1,
                pow(m, i + 1) == m * pow(m, i),
        ;
        lemma_pow_grows(base, m, i + 1, k, cap);
    }
}

proof fn lemma_pow_zero(base: nat, m: nat, i: nat, k: nat)
    requires
        i <= k,
        base * pow(m, i) == 0,
    ensures
        base * pow(m, k) == 0,
    decreases k - i,
{
    if i < k {
        assert(pow(m, i + 1) == m * pow(m, i));
        assert(base * pow(m, i + 1) == 0) by (nonlinear_arith)
            requires
                base * pow(m, i) == 0,
                pow(m, i + 1) == m * pow(m, i),
        ;
        lemma_pow_zero(base, m, i + 1, k);
    }
}

/// The base wait grown `k` times, cut off at `cap`.
fn grown_delay(base: u64, multiplier: u32, k: u32, cap: u64) -> (r: u64)
    ensures
        r == min(cap as int, base * pow(multiplier as nat, k as nat)),
{
    let mut cur: u64 = if base < cap {
        base
    } else {
        cap
    };
    assert(base * pow(multiplier as nat, 0) == base) by (nonlinear_arith)
        requires
            pow(multiplier as nat, 0) == 1,
    ;
    let mut i: u32 = 0;
    while i < k
        invariant
            i <= k,
            cur == min(cap as int, base * pow(multiplier as nat, i as nat)),
        decreases k - i,
    {
        let ghost p = base * pow(multiplier as nat, i as nat);
        if cur == 0 && cap > 0 {
            proof {
                lemma_pow_zero(base as nat, multiplier as nat, i as nat, k as nat);
            }
            return 0;
        }
        if cur == cap && multiplier >= 1 {
            proof {
                lemma_pow_grows(base as nat, multiplier as nat, i as nat, k as nat, cap as nat);
            }
            return cap;
        }
        let ghost next = base * pow(multiplier as nat, (i + 1) as nat);
        assert(next == p * multiplier) by (nonlinear_arith)
            requires
                p == base * pow(multiplier as nat, i as nat),
                next == base * pow(multiplier as nat, (i + 1) as nat),
                pow(multiplier as nat, (i + 1) as nat) == multiplier * pow(
                    multiplier as nat,
                    i as nat,
                ),
        ;
        if cur == cap {
            // the multiplier is zero: every later wait is zero
            assert(p * multiplier == 0) by (nonlinear_arith)
                requires
                    multiplier == 0,
            ;
            cur = 0;
        } else {
            assert(cur == p);
            assert(cur * multiplier <= 0xffff_ffff_ffff_ffff * 0xffff_ffff) by (nonlinear_arith)
                requires
                    0 <= multiplier <= 0xffff_ffff,
                    0 <= cur <= 0xffff_ffff_ffff_ffff,
            ;
            let wide: u128 = (cur as u128) * (multiplier as u128);
            assert(wide == next);
            cur = if wide >= cap as u128 {
                cap
            } else {
                wide as u64
            };
        }
        i = i + 1;
    }
    cur
}

/// Executable form of [`backoff_delay`]. `sample` is a random number; any
/// will do.
pub fn backoff(config: &RetryConfig, retry: u32, sample: u64) -> (r: u64)
    ensures
        r == backoff_delay(*config, retry as nat, sample),
        r <= config.max_delay_ms,
{
    let grown = grown_delay(config.base_delay_ms, config.multiplier, retry, config.max_delay_ms);
    let jitter = if config.jitter_ms == u64::MAX {
        sample
    } else {
        sample % (config.jitter_ms + 1)
    };
    let room = config.max_delay_ms - grown;
    if jitter >= room {
        config.max_delay_ms
    } else {
        grown + jitter
    }
}

/// What becomes of a failed connect attempt.
#[derive(Clone, Copy, PartialEq, Eq, Structural, Debug)]
pub enum Verdict {
    /// The failure goes to the caller.
    Surface,
    /// The cached address is dropped and the compute is woken again.
    Rewake,
    /// The same address is tried again after a wait.
    Backoff,
}

/// The verdict on failure `e` after `attempts` connect attempts: a failure
/// that cannot be retried surfaces, and so does any failure once the
/// attempts are used up; otherwise the compute is woken again where the
/// failure allows it, and else the attempt is repeated after a wait.
pub open spec fn verdict<E: CouldRetry + ShouldRetryWakeCompute>(
    e: E,
    attempts: u32,
    config: RetryConfig,
) -> Verdict {
    if !e.could_retry_spec() || attempts >= config.max_attempts {
        Verdict::Surface
    } else if e.should_retry_wake_compute_spec() {
        Verdict::Rewake
    } else {
        Verdict::Backoff
    }
}

/// Executable form of [`verdict`].
pub fn judge<E: CouldRetry + ShouldRetryWakeCompute>(e: &E, attempts: u32, config: &RetryConfig) -> (r:
    Verdict)
    ensures
        r == verdict(*e, attempts, *config),
{
    if !e.could_retry() || attempts >= config.max_attempts {
        Verdict::Surface
    } else if e.should_retry_wake_compute() {
        Verdict::Rewake
    } else {
        Verdict::Backoff
    }
}

/// A failure that carries the server's own error surfaces at once: no
/// retry follows it, and the cached address stays.
pub proof fn lemma_db_error_surfaces(e: HttpConnError, attempts: u32, config: RetryConfig)
    requires
        e@ matches HttpConnErrorView::PostgresConnectionError(p) && p.db_error is Some,
    ensures
        verdict(e, attempts, config) == Verdict::Surface,
{
}

/// Running out of permits surfaces at once, and so does every failure of
/// the authentication, and every failure to reach the local proxy.
pub proof fn lemma_never_retried(e: HttpConnError, attempts: u32, config: RetryConfig)
    requires
        e is TooManyConnectionAttempts || e is AuthError || e is LocalProxyConnectionError
            || e is GetAuthInfo || e is WakeCompute || e is ComputeCtl || e is JwtPayloadError
            || e is ConnectionClosedAbruptly,
    ensures
        verdict(e, attempts, config) == Verdict::Surface,
{
}

/// The attempts are bounded: a failure after as many attempts as the
/// configuration allows surfaces, whatever it is.
pub proof fn lemma_budget_ends_retries<E: CouldRetry + ShouldRetryWakeCompute>(
    e: E,
    attempts: u32,
    config: RetryConfig,
)
    requires
        attempts >= config.max_attempts,
    ensures
        verdict(e, attempts, config) == Verdict::Surface,
{
}

/// Where the driver stands.
#[derive(Clone, Copy, PartialEq, Eq, Structural, Debug)]
pub enum DriverState {
    Start,
    /// The compute is being located.
    Waking,
    /// A connect attempt is under way.
    Connecting,
    /// The driver waits before the next attempt.
    Backoff,
    Done,
    Failed,
}

/// What the caller reports.
pub enum DriverEvent<E> {
    Begin,
    /// The locator answered.
    Woken(Result<(), E>),
    /// The connect attempt ended.
    ConnectEnded(Result<(), E>),
    /// The wait is over.
    BackoffDone,
}

/// What the caller is to do next.
pub enum DriverAction<E> {
    /// Ask the locator for the compute's address.
    Wake,
    /// Drop the cached address that was just tried, then ask the locator
    /// again.
    InvalidateAndWake,
    /// Make one connect attempt with the address at hand.
    Connect,
    /// Wait this long, then report `BackoffDone`.
    Backoff { delay_ms: u64 },
    /// The connection stands.
    Done,
    /// Give up with this failure.
    Fail(E),
    /// The event does not belong to the state; nothing changed.
    Unexpected,
}

/// One run of wake and connect for one request.
pub struct ConnectDriver {
    pub state: DriverState,
    /// Connect attempts begun so far.
    pub attempts: u32,
    /// Waits made so far.
    pub retries: u32,
    pub config: RetryConfig,
}

pub open spec fn next_count(n: u32) -> u32 {
    if n == u32::MAX {
        n
    } else {
        (n + 1) as u32
    }
}

impl ConnectDriver {
    pub fn new(config: RetryConfig) -> (r: ConnectDriver)
        ensures
            r.state == DriverState::Start,
            r.attempts == 0,
            r.retries == 0,
            r.config == config,
    {
        ConnectDriver { state: DriverState::Start, attempts: 0, retries: 0, config }
    }

    /// Takes the run one step further. `sample` is a random number that
    /// spreads the waits; it matters only when a wait is called for.
    pub fn step<E: CouldRetry + ShouldRetryWakeCompute>(
        &mut self,
        event: DriverEvent<E>,
        sample: u64,
    ) -> (r: DriverAction<E>)
        ensures
            final(self).config == old(self).config,
            match (old(self).state, event) {
                (DriverState::Start, DriverEvent::Begin) => {
                    &&& r is Wake
                    &&& final(self).state == DriverState::Waking
                    &&& final(self).attempts == old(self).attempts
                    &&& final(self).retries == old(self).retries
                },
                (DriverState::Waking, DriverEvent::Woken(Ok(_))) => {
                    &&& r is Connect
                    &&& final(self).state == DriverState::Connecting
                    &&& final(self).attempts == next_count(old(self).attempts)
                    &&& final(self).retries == old(self).retries
                },
                (DriverState::Waking, DriverEvent::Woken(Err(e))) => {
                    &&& r == DriverAction::Fail(e)
                    &&& final(self).state == DriverState::Failed
                    &&& final(self).attempts == old(self).attempts
                    &&& final(self).retries == old(self).retries
                },
                (DriverState::Connecting, DriverEvent::ConnectEnded(Ok(_))) => {
                    &&& r is Done
                    &&& final(self).state == DriverState::Done
                    &&& final(self).attempts == old(self).attempts
                    &&& final(self).retries == old(self).retries
                },
                (DriverState::Connecting, DriverEvent::ConnectEnded(Err(e))) => {
                    &&& final(self).attempts == old(self).attempts
                    &&& match verdict(e, old(self).attempts, old(self).config) {
                        Verdict::Surface => {
                            &&& r == DriverAction::Fail(e)
                            &&& final(self).state == DriverState::Failed
                            &&& final(self).retries == old(self).retries
                        },
                        Verdict::Rewake => {
                            &&& r is InvalidateAndWake
                            &&& final(self).state == DriverState::Waking
                            &&& final(self).retries == old(self).retries
                        },
                        Verdict::Backoff => {
                            &&& r matches DriverAction::Backoff { delay_ms }
                            &&& delay_ms == backoff_delay(
                                old(self).config,
                                old(self).retries as nat,
                                sample,
                            )
                            &&& final(self).state == DriverState::Backoff
                            &&& final(self).retries == next_count(old(self).retries)
                        },
                    }
                },
                (DriverState::Backoff, DriverEvent::BackoffDone) => {
                    &&& r is Connect
                    &&& final(self).state == DriverState::Connecting
                    &&& final(self).attempts == next_count(old(self).attempts)
                    &&& final(self).retries == old(self).retries
                },
                _ => r is Unexpected && *final(self) == *old(self),
            },
    {
        match (self.state, event) {
            (DriverState::Start, DriverEvent::Begin) => {
                self.state = DriverState::Waking;
                DriverAction::Wake
            },
            (DriverState::Waking, DriverEvent::Woken(outcome)) => {
                match outcome {
                    Ok(()) => {
                        self.state = DriverState::Connecting;
                        self.attempts = if self.attempts == u32::MAX {
                            self.attempts
                        } else {
                            self.attempts + 1
                        };
                        DriverAction::Connect
                    },
                    Err(e) => {
                        self.state = DriverState::Failed;
                        DriverAction::Fail(e)
                    },
                }
            },
            (DriverState::Connecting, DriverEvent::ConnectEnded(outcome)) => {
                match outcome {
                    Ok(()) => {
                        self.state = DriverState::Done;
                        DriverAction::Done
                    },
                    Err(e) => {
                        match judge(&e, self.attempts, &self.config) {
                            Verdict::Surface => {
                                self.state = DriverState::Failed;
                                DriverAction::Fail(e)
                            },
                            Verdict::Rewake => {
                                self.state = DriverState::Waking;
                                DriverAction::InvalidateAndWake
                            },
                            Verdict::Backoff => {
                                let delay_ms = backoff(&self.config, self.retries, sample);
                                self.state = DriverState::Backoff;
                                self.retries = if self.retries == u32::MAX {
                                    self.retries
                                } else {
                                    self.retries + 1
                                };
                                DriverAction::Backoff { delay_ms }
                            },
                        }
                    },
                }
            },
            (DriverState::Backoff, DriverEvent::BackoffDone) => {
                self.state = DriverState::Connecting;
                self.attempts = if self.attempts == u32::MAX {
                    self.attempts
                } else {
                    self.attempts + 1
                };
                DriverAction::Connect
            },
            _ => DriverAction::Unexpected,
        }
    }
}

} // verus!
