//! Waiting for the boot partition lock.
//!
//! The manager shares a lock with Limine's own updater so that the two never
//! write the boot partition at the same time. While the lock is held
//! elsewhere it tries again every `LOCK_RETRY_MS` milliseconds, for at most
//! `LOCK_TIMEOUT_MS` milliseconds; then, or on any other failure to lock, it
//! gives up.

use vstd::prelude::*;

verus! {

/// How long the manager waits for the lock, in milliseconds.
pub const LOCK_TIMEOUT_MS: u64 = 30000;

/// The pause between two attempts to take the lock, in milliseconds.
pub const LOCK_RETRY_MS: u64 = 100;

/// What one attempt to take the lock gave.
#[derive(Debug, Clone, Copy, PartialEq, Eq, Structural)]
pub enum LockAttempt {
    /// The lock is taken.
    Taken,
    /// Someone else holds the lock.
    Busy,
    /// Locking failed for another reason.
    Failed,
}

/// What the manager does next.
#[derive(Debug, Clone, Copy, PartialEq, Eq, Structural)]
pub enum LockStep {
    /// Go on: the lock is held.
    Proceed,
    /// Wait this many milliseconds, then try again.
    Retry(u64),
    /// Stop: the boot partition is busy.
    GiveUp,
}

/// The step after an attempt that ended `waited_ms` milliseconds after the
/// first one began.
pub fn lock_step(attempt: LockAttempt, waited_ms: u64) -> (step: LockStep)
    ensures
        step == match attempt {
            LockAttempt::Taken => LockStep::Proceed,
            LockAttempt::Busy => if waited_ms < LOCK_TIMEOUT_MS {
                LockStep::Retry(LOCK_RETRY_MS)
            } else {
                LockStep::GiveUp
            },
            LockAttempt::Failed => LockStep::GiveUp,
        },
{
    match attempt {
        LockAttempt::Taken => LockStep::Proceed,
        LockAttempt::Busy => if waited_ms < LOCK_TIMEOUT_MS {
            LockStep::Retry(LOCK_RETRY_MS)
        } else {
            LockStep::GiveUp
        },
        LockAttempt::Failed => LockStep::GiveUp,
    }
}

} // verus!
