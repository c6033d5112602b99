//! The wait queue of a socket: the decisions of a wait for a condition, without
//! the sleeping, which is the caller's.
use crate::errno::SystemError;
use vstd::prelude::*;

verus! {

/// The time, in milliseconds, that a waiter sleeps between two looks at its condition.
pub const WAIT_TICK_MS: u64 = 10;

/// What a waiter does next.
#[derive(Clone, Copy, Debug, PartialEq, Eq, Structural)]
pub enum WaitStep {
    /// The condition holds: the wait is over.
    Ready,
    /// Sleep for `WAIT_TICK_MS` and look again.
    Sleep,
}

/// The wait queue of a socket.
#[derive(Debug)]
pub struct WaitQueue {
    is_scheduled: bool,
}

impl WaitQueue {
    /// Whether a wake-up arrived since the last wait began.
    pub closed spec fn scheduled(&self) -> bool {
        self.is_scheduled
    }

    /// Wakes the waiters: their next look at the condition counts.
    pub fn wakeup(&mut self)
        ensures
            final(self).scheduled(),
    {
        self.is_scheduled = true;
    }

    /// Begins a wait: wake-ups that arrived before are forgotten, and the wait is
    /// over at once exactly where the condition holds already.
    pub fn begin_wait(&mut self, should_wake: bool) -> (step: WaitStep)
        ensures
            !final(self).scheduled(),
            step == if should_wake {
                WaitStep::Ready
            } else {
                WaitStep::Sleep
            },
    {
        self.is_scheduled = false;
        if should_wake {
            WaitStep::Ready
        } else {
            WaitStep::Sleep
        }
    }

    /// What a wait that has begun answers at a later look, given whether the
    /// condition holds, how long the wait has lasted and how long it may last: it is
    /// over where a wake-up arrived and the condition holds; else it has timed out
    /// where the time is up; else the waiter sleeps on.
    pub open spec fn spec_wait_step(scheduled: bool, should_wake: bool, waited_ms: u64, timeout_ms: Option<u64>) -> Result<
        WaitStep,
        SystemError,
    > {
        if scheduled && should_wake {
            Ok(WaitStep::Ready)
        } else if timeout_ms is Some && waited_ms >= timeout_ms->0 {
            Err(SystemError::ETIMEDOUT)
        } else {
            Ok(WaitStep::Sleep)
        }
    }

    /// Decides the next step of a wait that has begun; see [`WaitQueue::spec_wait_step`].
    pub fn wait_step(&self, should_wake: bool, waited_ms: u64, timeout_ms: Option<u64>) -> (r: Result<
        WaitStep,
        SystemError,
    >)
        ensures
            r == Self::spec_wait_step(self.scheduled(), should_wake, waited_ms, timeout_ms),
    {
        if self.is_scheduled && should_wake {
            return Ok(WaitStep::Ready);
        }
        match timeout_ms {
            Some(limit) if waited_ms >= limit => Err(SystemError::ETIMEDOUT),
            _ => Ok(WaitStep::Sleep),
        }
    }
}

impl Default for WaitQueue {
    fn default() -> (q: Self)
        ensures
            !q.scheduled(),
    {
        Self { is_scheduled: false }
    }
}

} // verus!
