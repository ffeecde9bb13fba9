//! Restart back-off with a degraded mode after repeated failures.
use vstd::prelude::*;
use vstd::arithmetic::power2::{pow2, lemma_pow2_unfold};

verus! {

/// Consecutive failures after which the supervisor enters degraded mode.
pub const MAX_CONSECUTIVE_FAILURES: u32 = 5;

/// Delay before the first restart, in seconds.
pub const INITIAL_DELAY_SECS: u64 = 1;

/// Longest back-off delay, in seconds.
pub const MAX_DELAY_SECS: u64 = 60;

/// The one long pause taken in degraded mode, in seconds.
pub const DEGRADED_DELAY_SECS: u64 = 60;

/// How one run of the external tool ended.
#[derive(Clone, Copy, Debug, PartialEq, Eq, Structural)]
pub enum RunOutcome {
    /// The tool could not be spawned.
    SpawnFailed,
    /// The tool ended on its own (end of output or an exit status).
    Exited,
    /// Reading its output failed.
    ReadFailed,
    /// An explicit stop was observed while it ran.
    StopRequested,
    /// The receiver of the events went away.
    ChannelClosed,
}

/// What the supervisor does before the next attempt.
#[derive(Clone, Copy, Debug, PartialEq, Eq, Structural)]
pub enum RetryAction {
    /// Spawn again at once.
    RetryNow,
    /// Sleep this many seconds, then spawn again.
    Backoff(u64),
    /// Degraded mode: one long interruptible sleep of this many seconds.
    Degraded(u64),
}

/// Only a termination that nobody asked for counts as a failure.
pub open spec fn is_failure_spec(outcome: RunOutcome) -> bool {
    match outcome {
        RunOutcome::SpawnFailed | RunOutcome::Exited | RunOutcome::ReadFailed => true,
        RunOutcome::StopRequested | RunOutcome::ChannelClosed => false,
    }
}

/// Whether `outcome` counts against the source.
pub fn is_failure(outcome: RunOutcome) -> (r: bool)
    ensures
        r == is_failure_spec(outcome),
{
    match outcome {
        RunOutcome::SpawnFailed | RunOutcome::Exited | RunOutcome::ReadFailed => true,
        RunOutcome::StopRequested | RunOutcome::ChannelClosed => false,
    }
}

/// Back-off delay after `n` consecutive failures: 1, 2, 4, ... seconds,
/// capped.
pub open spec fn backoff_delay(n: nat) -> nat {
    if pow2(n) < MAX_DELAY_SECS { pow2(n) } else { MAX_DELAY_SECS as nat }
}

/// Restart state: the current back-off delay and the failures since the last
/// healthy run.
#[derive(Clone, Copy, Debug, PartialEq, Eq, Structural)]
pub struct RestartPolicy {
    pub delay_secs: u64,
    pub consecutive_failures: u32,
}

impl RestartPolicy {
    /// The delay always matches the number of failures, which stays below the
    /// degraded-mode threshold between attempts.
    pub open spec fn wf(self) -> bool {
        &&& self.consecutive_failures < MAX_CONSECUTIVE_FAILURES
        &&& self.delay_secs == backoff_delay(self.consecutive_failures as nat)
    }

    pub open spec fn fresh() -> RestartPolicy {
        RestartPolicy { delay_secs: INITIAL_DELAY_SECS, consecutive_failures: 0 }
    }

    /// One failure: back off with the current delay and double it, or, at the
    /// threshold, one degraded-mode pause and a fresh start.
    pub open spec fn failure_step(self) -> (RestartPolicy, RetryAction) {
        if self.consecutive_failures + 1 >= MAX_CONSECUTIVE_FAILURES {
            (Self::fresh(), RetryAction::Degraded(DEGRADED_DELAY_SECS))
        } else {
            let doubled = 2 * self.delay_secs;
            (
                RestartPolicy {
                    delay_secs: if doubled < MAX_DELAY_SECS { doubled as u64 } else { MAX_DELAY_SECS },
                    consecutive_failures: (self.consecutive_failures + 1) as u32,
                },
                RetryAction::Backoff(self.delay_secs),
            )
        }
    }

    /// The effect of one run's outcome.
    pub open spec fn outcome_step(self, outcome: RunOutcome) -> (RestartPolicy, RetryAction) {
        if is_failure_spec(outcome) {
            self.failure_step()
        } else {
            (Self::fresh(), RetryAction::RetryNow)
        }
    }

    /// The state after `k` consecutive failures from a fresh start.
    pub open spec fn after_failures(k: nat) -> RestartPolicy
        decreases k,
    {
        if k == 0 {
            Self::fresh()
        } else {
            Self::after_failures((k - 1) as nat).failure_step().0
        }
    }

    /// A policy with no failures recorded.
    pub fn new() -> (r: RestartPolicy)
        ensures
            r == Self::fresh(),
            r.wf(),
    {
        proof {
            vstd::arithmetic::power2::lemma2_to64();
        }
        RestartPolicy { delay_secs: INITIAL_DELAY_SECS, consecutive_failures: 0 }
    }

    /// Records a failed run and says how long to wait before the next one.
    pub fn record_failure(&mut self) -> (action: RetryAction)
        requires
            old(self).wf(),
        ensures
            (*final(self), action) == old(self).failure_step(),
            final(self).wf(),
    {
        proof {
            lemma_failure_step_wf(*self);
        }
        if self.consecutive_failures + 1 >= MAX_CONSECUTIVE_FAILURES {
            self.consecutive_failures = 0;
            self.delay_secs = INITIAL_DELAY_SECS;
            RetryAction::Degraded(DEGRADED_DELAY_SECS)
        } else {
            let delay = self.delay_secs;
            self.delay_secs = if delay < MAX_DELAY_SECS / 2 { 2 * delay } else { MAX_DELAY_SECS };
            self.consecutive_failures = self.consecutive_failures + 1;
            RetryAction::Backoff(delay)
        }
    }

    /// Records a run that ended without failing: the delay and the count start
    /// over.
    pub fn record_healthy_run(&mut self)
        ensures
            *final(self) == Self::fresh(),
            final(self).wf(),
    {
        proof {
            vstd::arithmetic::power2::lemma2_to64();
        }
        self.consecutive_failures = 0;
        self.delay_secs = INITIAL_DELAY_SECS;
    }

    /// Records how a run ended and says what to do next. An explicit stop or
    /// a vanished receiver never counts as a failure.
    pub fn record_outcome(&mut self, outcome: RunOutcome) -> (action: RetryAction)
        requires
            old(self).wf(),
        ensures
            (*final(self), action) == old(self).outcome_step(outcome),
            final(self).wf(),
            !is_failure_spec(outcome) ==> final(self).consecutive_failures == 0,
    {
        if is_failure(outcome) {
            self.record_failure()
        } else {
            self.record_healthy_run();
            RetryAction::RetryNow
        }
    }
}

/// A failure step keeps the policy well formed.
pub proof fn lemma_failure_step_wf(p: RestartPolicy)
    requires
        p.wf(),
    ensures
        p.failure_step().0.wf(),
{
    vstd::arithmetic::power2::lemma2_to64();
    let n = p.consecutive_failures as nat;
    if p.consecutive_failures + 1 < MAX_CONSECUTIVE_FAILURES {
        lemma_pow2_unfold(n + 1);
    }
}

/// From a fresh start, `k` failures below the threshold leave `k` on the
/// counter and the matching delay.
pub proof fn lemma_after_failures(k: nat)
    requires
        k < MAX_CONSECUTIVE_FAILURES,
    ensures
        RestartPolicy::after_failures(k).wf(),
        RestartPolicy::after_failures(k).consecutive_failures == k,
    decreases k,
{
    vstd::arithmetic::power2::lemma2_to64();
    if k > 0 {
        lemma_after_failures((k - 1) as nat);
        lemma_failure_step_wf(RestartPolicy::after_failures((k - 1) as nat));
    }
}

/// Consecutive failures wait 1, 2, 4, ... seconds, never more than the cap,
/// and a healthy run brings the delay back to one second.
pub proof fn lemma_backoff_doubles(k: nat, p: RestartPolicy, outcome: RunOutcome)
    requires
        k + 1 < MAX_CONSECUTIVE_FAILURES,
        p.wf(),
        !is_failure_spec(outcome),
    ensures
        RestartPolicy::after_failures(k).failure_step().1 == RetryAction::Backoff(
            backoff_delay(k) as u64,
        ),
        backoff_delay(k) <= MAX_DELAY_SECS,
        backoff_delay(k + 1) == if 2 * backoff_delay(k) < MAX_DELAY_SECS {
            2 * backoff_delay(k)
        } else {
            MAX_DELAY_SECS as nat
        },
        p.outcome_step(outcome).0.delay_secs == INITIAL_DELAY_SECS,
        p.outcome_step(outcome).1 == RetryAction::RetryNow,
{
    lemma_after_failures(k);
    lemma_pow2_unfold(k + 1);
}

/// Exactly `MAX_CONSECUTIVE_FAILURES` consecutive failures lead to exactly
/// one degraded-mode pause, after which the counter and delay start over.
pub proof fn lemma_degraded_after_max_failures(k: nat)
    requires
        k < MAX_CONSECUTIVE_FAILURES,
    ensures
        k + 1 < MAX_CONSECUTIVE_FAILURES ==> RestartPolicy::after_failures(k).failure_step().1
            is Backoff,
        k + 1 == MAX_CONSECUTIVE_FAILURES ==> RestartPolicy::after_failures(k).failure_step().1
            == RetryAction::Degraded(DEGRADED_DELAY_SECS),
        RestartPolicy::after_failures(MAX_CONSECUTIVE_FAILURES as nat) == RestartPolicy::fresh(),
{
    lemma_after_failures(k);
    lemma_after_failures((MAX_CONSECUTIVE_FAILURES - 1) as nat);
}

} // verus!
