//! Lifecycle and loop decisions of the process supervisor. The thread, the
//! child process and the shared cells live with the caller; every decision
//! they act on is made here.
use vstd::prelude::*;
use crate::error::CollectorError;
use crate::restart::{RestartPolicy, RetryAction, RunOutcome, is_failure_spec};

verus! {

/// Externally visible state of a collector.
#[derive(Clone, Copy, Debug, PartialEq, Eq, Structural)]
pub enum CollectorState {
    Stopped,
    Running,
    /// Waiting this many seconds before the next spawn.
    Restarting(u64),
    /// In the long degraded-mode pause.
    Degraded,
}

/// What `start` has to do.
#[derive(Clone, Copy, Debug, PartialEq, Eq, Structural)]
pub enum StartStep {
    /// Already running: nothing to do, report success.
    AlreadyRunning,
    /// Probe the tool, then report the probe's result.
    Probe,
}

/// What `stop` has to do.
#[derive(Clone, Copy, Debug, PartialEq, Eq, Structural)]
pub enum StopStep {
    /// No worker: nothing to do, report success.
    AlreadyStopped,
    /// Set the shutdown flag and join the worker.
    Join,
}

/// What the worker does after an attempt.
#[derive(Clone, Copy, Debug, PartialEq, Eq, Structural)]
pub enum LoopStep {
    /// A stop was requested: leave the loop.
    Exit,
    /// Carry on after the given pause.
    Continue(RetryAction),
}

/// Lifecycle of one collector: its state and whether a worker thread exists.
#[derive(Clone, Copy, Debug, PartialEq, Eq, Structural)]
pub struct Lifecycle {
    pub state: CollectorState,
    pub workers: u8,
}

impl Lifecycle {
    /// There is exactly one worker while the collector runs, none otherwise.
    pub open spec fn wf(self) -> bool {
        &&& self.workers <= 1
        &&& (self.workers == 1) == (self.state != CollectorState::Stopped)
    }

    pub open spec fn running(self) -> bool {
        self.state != CollectorState::Stopped
    }

    pub open spec fn start_step(self) -> StartStep {
        if self.running() { StartStep::AlreadyRunning } else { StartStep::Probe }
    }

    pub open spec fn stop_step(self) -> StopStep {
        if self.workers == 0 { StopStep::AlreadyStopped } else { StopStep::Join }
    }

    pub open spec fn stopped() -> Lifecycle {
        Lifecycle { state: CollectorState::Stopped, workers: 0 }
    }

    /// A collector is created stopped.
    pub fn new() -> (r: Lifecycle)
        ensures
            r == Self::stopped(),
            r.wf(),
    {
        Lifecycle { state: CollectorState::Stopped, workers: 0 }
    }

    /// Whether the collector runs: any state but `Stopped`.
    pub fn is_running(&self) -> (r: bool)
        ensures
            r == self.running(),
    {
        match self.state {
            CollectorState::Stopped => false,
            _ => true,
        }
    }

    /// First half of `start`: a running collector is left alone.
    pub fn begin_start(&self) -> (r: StartStep)
        ensures
            r == self.start_step(),
    {
        if self.is_running() { StartStep::AlreadyRunning } else { StartStep::Probe }
    }

    /// Second half of `start`, after the availability probe: on success one
    /// worker runs; on failure nothing is left running and the probe's error
    /// is reported.
    pub fn finish_start(&mut self, probe: Result<(), CollectorError>) -> (r: Result<(), CollectorError>)
        requires
            old(self).wf(),
            !old(self).running(),
        ensures
            final(self).wf(),
            probe is Ok ==> r is Ok && final(self).state == CollectorState::Running
                && final(self).workers == 1,
            probe is Err ==> r is Err && *final(self) == Self::stopped(),
    {
        match probe {
            Ok(()) => {
                self.state = CollectorState::Running;
                self.workers = 1;
                Ok(())
            },
            Err(e) => {
                self.state = CollectorState::Stopped;
                self.workers = 0;
                Err(e)
            },
        }
    }

    /// First half of `stop`: with no worker there is nothing to do.
    pub fn begin_stop(&self) -> (r: StopStep)
        ensures
            r == self.stop_step(),
    {
        if self.workers == 0 { StopStep::AlreadyStopped } else { StopStep::Join }
    }

    /// Second half of `stop`, after joining the worker: the collector is
    /// stopped either way, and a worker that panicked is reported.
    pub fn finish_stop(&mut self, joined: bool) -> (r: Result<(), CollectorError>)
        ensures
            *final(self) == Self::stopped(),
            final(self).wf(),
            r is Ok <==> joined,
            r matches Err(CollectorError::SubprocessTerminated(_)) <==> !joined,
    {
        self.state = CollectorState::Stopped;
        self.workers = 0;
        if joined {
            Ok(())
        } else {
            Err(CollectorError::SubprocessTerminated(String::from_str("Failed to join collector thread")))
        }
    }

    /// The worker's decision after one attempt: update the restart policy from
    /// how the run ended, then leave the loop if a stop was requested, or
    /// otherwise carry on after the policy's pause, with the state showing it.
    pub fn after_attempt(
        &mut self,
        policy: &mut RestartPolicy,
        outcome: RunOutcome,
        stop_requested: bool,
    ) -> (r: LoopStep)
        requires
            old(self).wf(),
            old(self).running(),
            old(policy).wf(),
        ensures
            *final(policy) == old(policy).outcome_step(outcome).0,
            final(policy).wf(),
            stop_requested ==> r == LoopStep::Exit,
            !stop_requested ==> r == LoopStep::Continue(old(policy).outcome_step(outcome).1),
            final(self).state == state_for(r, old(self).state),
            final(self).workers == old(self).workers,
            final(self).wf(),
            !is_failure_spec(outcome) ==> final(policy).consecutive_failures == 0,
    {
        let action = policy.record_outcome(outcome);
        if stop_requested {
            LoopStep::Exit
        } else {
            self.state = match action {
                RetryAction::RetryNow => CollectorState::Running,
                RetryAction::Backoff(d) => CollectorState::Restarting(d),
                RetryAction::Degraded(_) => CollectorState::Degraded,
            };
            LoopStep::Continue(action)
        }
    }
}

/// The state that a loop step shows.
pub open spec fn state_for(step: LoopStep, current: CollectorState) -> CollectorState {
    match step {
        LoopStep::Exit => current,
        LoopStep::Continue(RetryAction::RetryNow) => CollectorState::Running,
        LoopStep::Continue(RetryAction::Backoff(d)) => CollectorState::Restarting(d),
        LoopStep::Continue(RetryAction::Degraded(_)) => CollectorState::Degraded,
    }
}

/// `stop` on a stopped collector does nothing and succeeds, and `start` on a
/// running one does nothing and succeeds, so exactly one worker is left.
pub proof fn lemma_start_stop_idempotent(l: Lifecycle)
    requires
        l.wf(),
    ensures
        !l.running() ==> l.stop_step() == StopStep::AlreadyStopped,
        l.running() ==> l.start_step() == StartStep::AlreadyRunning && l.workers == 1,
{
}

} // verus!
