use vstd::prelude::*;

use crate::error::{ErrorKind, SessionError};

verus! {

/// How long a failed attempt waits before the next one, in milliseconds.
pub const POLL_INTERVAL_MS: u64 = 1;

/// How long an open, write or close waits for a connection slot, in
/// milliseconds.
pub const SLOT_WAIT_BUDGET_MS: u64 = 1000;

pub const LOCK_TIMEOUT: &'static str = "Timed out waiting for the connection slot";

/// What to do after one attempt to take a slot's exclusive access.
#[derive(PartialEq, Eq, Structural, Clone, Copy, Debug)]
pub enum LockStep {
    /// The attempt succeeded: go on with the guard.
    Acquired,
    /// Sleep `sleep_ms` milliseconds, then attempt again.
    Retry { sleep_ms: u64 },
    /// The budget is spent: fail with a timeout.
    GiveUp,
}

/// The step after an attempt that succeeded or not when `elapsed_ms`
/// milliseconds had passed since the first attempt, under a budget of
/// `budget_ms` milliseconds.
pub open spec fn next_step(budget_ms: u64, acquired: bool, elapsed_ms: u64) -> LockStep {
    if acquired {
        LockStep::Acquired
    } else if elapsed_ms < budget_ms {
        LockStep::Retry { sleep_ms: POLL_INTERVAL_MS }
    } else {
        LockStep::GiveUp
    }
}

/// A bounded wait for exclusive access: one immediate attempt, then attempts
/// at a fixed short interval until one succeeds or the budget is spent.
#[derive(PartialEq, Eq, Structural, Clone, Copy, Debug)]
pub struct BoundedWait {
    pub budget_ms: u64,
}

impl BoundedWait {
    /// A wait with a budget of `budget_ms` milliseconds.
    pub fn new(budget_ms: u64) -> (r: BoundedWait)
        ensures
            r.budget_ms == budget_ms,
    {
        BoundedWait { budget_ms }
    }

    /// A wait that makes one attempt and gives up at once when it fails.
    pub fn try_only() -> (r: BoundedWait)
        ensures
            r.budget_ms == 0,
    {
        BoundedWait { budget_ms: 0 }
    }

    /// The step after an attempt: go on if it succeeded, retry after the poll
    /// interval while the budget lasts, give up once it is spent.
    pub fn after_attempt(&self, acquired: bool, elapsed_ms: u64) -> (r: LockStep)
        ensures
            r == next_step(self.budget_ms, acquired, elapsed_ms),
    {
        if acquired {
            LockStep::Acquired
        } else if elapsed_ms < self.budget_ms {
            LockStep::Retry { sleep_ms: POLL_INTERVAL_MS }
        } else {
            LockStep::GiveUp
        }
    }

    /// The failure reported when the wait gives up.
    pub fn timeout_error(&self) -> (r: SessionError)
        ensures
            r.kind == ErrorKind::Timeout,
            r.detail@ == LOCK_TIMEOUT@,
    {
        SessionError::new(ErrorKind::Timeout, LOCK_TIMEOUT)
    }
}

/// A wait gives up on a failed attempt exactly when its budget is spent: never
/// before, and on the first attempt after.
pub proof fn lemma_gives_up_at_budget(w: BoundedWait, elapsed_ms: u64)
    ensures
        next_step(w.budget_ms, false, elapsed_ms) == LockStep::GiveUp <==> elapsed_ms
            >= w.budget_ms,
        elapsed_ms < w.budget_ms ==> next_step(w.budget_ms, false, elapsed_ms) == (LockStep::Retry {
            sleep_ms: POLL_INTERVAL_MS,
        }),
{
}

/// A wait ends: when at least the poll interval passes between attempts, a
/// run of failed attempts that each led to a retry is no longer than the
/// budget divided by the poll interval.
pub proof fn lemma_retries_bounded(w: BoundedWait, elapsed: Seq<u64>)
    requires
        forall|i: int| 0 <= i < elapsed.len() ==> next_step(w.budget_ms, false, #[trigger] elapsed[i]) is Retry,
        forall|i: int| 0 <= i < elapsed.len() - 1 ==> elapsed[i + 1] >= #[trigger] elapsed[i] + POLL_INTERVAL_MS,
    ensures
        elapsed.len() <= w.budget_ms / POLL_INTERVAL_MS,
{
    if elapsed.len() > 0 {
        let n = elapsed.len() - 1;
        assert forall|i: int| 0 <= i <= n implies elapsed[i] >= i by {
            lemma_grows(elapsed, i);
        }
        assert(next_step(w.budget_ms, false, elapsed[n]) is Retry);
    }
}

proof fn lemma_grows(elapsed: Seq<u64>, i: int)
    requires
        0 <= i < elapsed.len(),
        forall|k: int| 0 <= k < elapsed.len() - 1 ==> elapsed[k + 1] >= #[trigger] elapsed[k] + POLL_INTERVAL_MS,
    ensures
        elapsed[i] >= i,
    decreases i,
{
    if i > 0 {
        lemma_grows(elapsed, i - 1);
        assert(elapsed[(i - 1) + 1] >= elapsed[i - 1] + POLL_INTERVAL_MS);
    }
}

} // verus!
