//! Failure-backoff state machine.
//!
//! Tracks consecutive reconciliation failures and gates respawn attempts:
//! after enough consecutive failing ticks, spawning is suppressed for a short
//! window so that a broken image cannot cause an unbounded create-storm.
//! Cleanup and scale-down are never gated. Time is handed in explicitly as a
//! monotonic second count, so the machine is testable with synthetic clocks.

use vstd::prelude::*;

verus! {

/// Consecutive failing ticks needed before the backoff gate can close.
pub const MAX_CONSECUTIVE_FAILURES: u32 = 5;

/// Seconds after the last failure during which respawning stays suppressed.
pub const BACKOFF_DURATION_SECS: u64 = 30;

/// Seconds of quiet after the last failure before the counter is cleared.
pub const FAILURE_RESET_AFTER_SECS: u64 = 300;

/// Consecutive-failure counter and the time of the last recorded failure,
/// both owned by the single reconciliation loop and mutated once per tick.
#[derive(Clone, Copy, PartialEq, Eq, Structural, Debug)]
pub struct BackoffState {
    pub consecutive_failures: u32,
    pub last_failure: Option<u64>,
}

impl BackoffState {
    /// The recorded last-failure time never lies in the future of `now`.
    pub open spec fn time_wf(self, now: u64) -> bool {
        match self.last_failure {
            Some(t) => t <= now,
            None => true,
        }
    }

    /// Respawn suppression is active: a failure time is recorded, the
    /// counter is at or past the limit, and the suppression window since
    /// that failure has not yet passed.
    pub open spec fn spec_in_backoff(self, now: u64) -> bool {
        match self.last_failure {
            Some(t) => self.consecutive_failures >= MAX_CONSECUTIVE_FAILURES
                && now - t < BACKOFF_DURATION_SECS,
            None => false,
        }
    }

    /// More than the quiet window has elapsed since the last failure.
    pub open spec fn reset_due(self, now: u64) -> bool {
        match self.last_failure {
            Some(t) => now - t > FAILURE_RESET_AFTER_SECS,
            None => false,
        }
    }

    /// The state after one tick's observation: a failing tick increments the
    /// counter and stamps the time; a clean tick clears the state once the
    /// quiet window has passed, and otherwise leaves it alone.
    pub open spec fn spec_after_observation(self, failing: bool, now: u64) -> BackoffState {
        if failing {
            BackoffState {
                consecutive_failures: (self.consecutive_failures + 1) as u32,
                last_failure: Some(now),
            }
        } else if self.reset_due(now) {
            BackoffState { consecutive_failures: 0, last_failure: None }
        } else {
            self
        }
    }

    /// Record one failing tick: bump the counter and stamp the current time.
    pub fn register_failure(&mut self, now: u64)
        requires
            old(self).consecutive_failures < u32::MAX,
        ensures
            *final(self) == old(self).spec_after_observation(true, now),
    {
        self.consecutive_failures = self.consecutive_failures + 1;
        self.last_failure = Some(now);
    }

    /// On a clean tick, clear the counter and timestamp once more than the
    /// quiet window has elapsed since the last failure; otherwise no change.
    pub fn maybe_reset(&mut self, now: u64)
        requires
            old(self).time_wf(now),
        ensures
            *final(self) == old(self).spec_after_observation(false, now),
    {
        match self.last_failure {
            Some(last) => {
                if now - last > FAILURE_RESET_AFTER_SECS {
                    self.consecutive_failures = 0;
                    self.last_failure = None;
                }
            }
            None => {}
        }
    }

    /// Whether respawning is currently suppressed. Deliberately narrow: it
    /// gates only scale-up, never cleanup of dead replicas or scale-down.
    pub fn in_backoff(&self, now: u64) -> (b: bool)
        requires
            self.time_wf(now),
        ensures
            b == self.spec_in_backoff(now),
    {
        match self.last_failure {
            Some(last) => {
                self.consecutive_failures >= MAX_CONSECUTIVE_FAILURES
                    && now - last < BACKOFF_DURATION_SECS
            }
            None => false,
        }
    }

    /// One tick's backoff bookkeeping: register a failure when any dead
    /// replica was observed, otherwise consider clearing the counter.
    pub fn note_inventory(&mut self, dead_count: usize, now: u64)
        requires
            old(self).time_wf(now),
            dead_count > 0 ==> old(self).consecutive_failures < u32::MAX,
        ensures
            *final(self) == old(self).spec_after_observation(dead_count > 0, now),
    {
        if dead_count > 0 {
            self.register_failure(now);
        } else {
            self.maybe_reset(now);
        }
    }
}

impl Default for BackoffState {
    /// A fresh tracker: no failures on record.
    fn default() -> (s: BackoffState)
        ensures
            s.consecutive_failures == 0,
            s.last_failure is None,
    {
        BackoffState { consecutive_failures: 0, last_failure: None }
    }
}

} // verus!
