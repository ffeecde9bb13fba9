//! Adaptive sampling interval driven by a host resource-pressure signal.
use vstd::prelude::*;

verus! {

/// The longest sampling interval, in milliseconds.
pub const MAX_SAMPLE_INTERVAL_MS: u64 = 60_000;

/// Interval after one step: under pressure it grows by half (rounded up) up
/// to `upper`; otherwise it shrinks by a tenth (rounded down) to no less than
/// `base`.
pub open spec fn next_interval(current: nat, base: nat, upper: nat, under_pressure: bool) -> nat {
    if under_pressure {
        let grown = current + (current + 1) / 2;
        if grown < upper { grown } else { upper }
    } else {
        let shrunk = (current - (current + 9) / 10) as nat;
        if shrunk > base { shrunk } else { base }
    }
}

/// Proportional controller for the sampling interval, bounded to
/// `[base_ms, upper_ms]`.
#[derive(Clone, Copy, Debug, PartialEq, Eq, Structural)]
pub struct SamplingController {
    pub base_ms: u64,
    pub upper_ms: u64,
    pub current_ms: u64,
}

impl SamplingController {
    pub open spec fn wf(self) -> bool {
        &&& 1 <= self.base_ms <= self.upper_ms
        &&& self.base_ms <= self.current_ms <= self.upper_ms
    }

    /// The upper bound that a controller with this base gets.
    pub open spec fn upper_for(base_ms: nat) -> nat {
        if base_ms < MAX_SAMPLE_INTERVAL_MS { MAX_SAMPLE_INTERVAL_MS as nat } else { base_ms }
    }

    /// The controller after one step with the given pressure reading.
    pub open spec fn step(self, under_pressure: bool) -> SamplingController {
        SamplingController {
            current_ms: next_interval(
                self.current_ms as nat,
                self.base_ms as nat,
                self.upper_ms as nat,
                under_pressure,
            ) as u64,
            ..self
        }
    }

    /// The controller after `n` steps with the same pressure reading.
    pub open spec fn steps(self, under_pressure: bool, n: nat) -> SamplingController
        decreases n,
    {
        if n == 0 {
            self
        } else {
            self.step(under_pressure).steps(under_pressure, (n - 1) as nat)
        }
    }

    /// A controller that starts at its base interval. The upper bound is the
    /// longest interval, or the base itself when that is longer.
    pub fn new(base_ms: u64) -> (r: SamplingController)
        requires
            base_ms >= 1,
        ensures
            r.wf(),
            r.base_ms == base_ms,
            r.upper_ms == Self::upper_for(base_ms as nat),
            r.current_ms == base_ms,
    {
        let upper_ms = if base_ms < MAX_SAMPLE_INTERVAL_MS { MAX_SAMPLE_INTERVAL_MS } else { base_ms };
        SamplingController { base_ms, upper_ms, current_ms: base_ms }
    }

    /// The interval to use for the next spawn, in milliseconds.
    pub fn current_interval_ms(&self) -> (r: u64)
        ensures
            r == self.current_ms,
    {
        self.current_ms
    }

    /// Adjusts the interval once from a pressure reading.
    pub fn adapt(&mut self, under_pressure: bool)
        requires
            old(self).wf(),
        ensures
            *final(self) == old(self).step(under_pressure),
            final(self).wf(),
    {
        let c = self.current_ms;
        if under_pressure {
            let inc = c / 2 + c % 2;
            if inc >= self.upper_ms - c {
                self.current_ms = self.upper_ms;
            } else {
                self.current_ms = c + inc;
            }
        } else {
            let shrunk = c - (c / 10 + if c % 10 == 0 { 0 } else { 1 });
            if shrunk > self.base_ms {
                self.current_ms = shrunk;
            } else {
                self.current_ms = self.base_ms;
            }
        }
    }
}

/// Whole seconds of an interval in milliseconds, at least one, for tools
/// that take seconds.
pub fn interval_secs(interval_ms: u64) -> (r: u64)
    ensures
        r == if interval_ms / 1000 >= 1 { interval_ms / 1000 } else { 1 },
{
    let secs = interval_ms / 1000;
    if secs >= 1 { secs } else { 1 }
}

/// One step keeps the controller within its bounds; under pressure it grows
/// by at least one millisecond until it reaches the upper bound, and without
/// pressure it shrinks by at least one until it reaches the base.
pub proof fn lemma_step_bounds(c: SamplingController, under_pressure: bool)
    requires
        c.wf(),
    ensures
        c.step(under_pressure).wf(),
        c.step(under_pressure).base_ms == c.base_ms,
        c.step(under_pressure).upper_ms == c.upper_ms,
        under_pressure ==> c.step(under_pressure).current_ms == c.upper_ms
            || c.step(under_pressure).current_ms > c.current_ms,
        !under_pressure ==> c.step(under_pressure).current_ms == c.base_ms
            || c.step(under_pressure).current_ms < c.current_ms,
{
}

/// Sustained pressure drives the interval up to the upper bound, never past
/// it, within `upper_ms - current_ms` steps; sustained calm drives it down to
/// exactly the base, never below, within `current_ms - base_ms` steps.
pub proof fn lemma_sampling_converges(c: SamplingController, under_pressure: bool, n: nat)
    requires
        c.wf(),
    ensures
        c.steps(under_pressure, n).wf(),
        c.steps(under_pressure, n).base_ms == c.base_ms,
        c.steps(under_pressure, n).upper_ms == c.upper_ms,
        under_pressure && n >= c.upper_ms - c.current_ms ==> c.steps(under_pressure, n).current_ms
            == c.upper_ms,
        !under_pressure && n >= c.current_ms - c.base_ms ==> c.steps(under_pressure, n).current_ms
            == c.base_ms,
    decreases n,
{
    if n > 0 {
        lemma_step_bounds(c, under_pressure);
        lemma_sampling_converges(c.step(under_pressure), under_pressure, (n - 1) as nat);
        if under_pressure && c.step(under_pressure).current_ms == c.upper_ms {
            lemma_stays_at_bound(c.step(under_pressure), under_pressure, (n - 1) as nat);
        }
        if !under_pressure && c.step(under_pressure).current_ms == c.base_ms {
            lemma_stays_at_bound(c.step(under_pressure), under_pressure, (n - 1) as nat);
        }
    }
}

/// Once at the bound that the pressure reading pushes towards, the interval
/// stays there.
pub proof fn lemma_stays_at_bound(c: SamplingController, under_pressure: bool, n: nat)
    requires
        c.wf(),
        under_pressure ==> c.current_ms == c.upper_ms,
        !under_pressure ==> c.current_ms == c.base_ms,
    ensures
        c.steps(under_pressure, n) == c,
    decreases n,
{
    if n > 0 {
        assert(c.step(under_pressure) == c);
        lemma_stays_at_bound(c.step(under_pressure), under_pressure, (n - 1) as nat);
    }
}

} // verus!
