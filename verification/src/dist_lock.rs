//! The decisions of taking a lock that lives in a key-value store: what to
//! do after each attempt to create the key.

use vstd::prelude::*;

verus! {

/// How long to wait before the next attempt, in milliseconds.
pub const RETRY_DELAY_MILLIS: u64 = 100;

/// What to do after an attempt to create the key of the lock.
#[derive(Debug, Clone, Copy, PartialEq, Eq, Structural)]
pub enum LockAction {
    /// The key was created: the lock is taken.
    Acquired,
    /// The key is held by another, and the time allowed is over.
    TimedOut,
    /// The key is held by another: wait so many milliseconds and try again.
    RetryAfter(u64),
}

/// The action after an attempt: success ends the wait; a failed attempt is
/// followed by another one after the retry delay, unless a timeout was set
/// and more time than that has passed since the first attempt. Times are in
/// nanoseconds.
pub open spec fn action_after(created: bool, timeout: Option<u128>, elapsed: u128) -> LockAction {
    if created {
        LockAction::Acquired
    } else if timeout is Some && elapsed > timeout->0 {
        LockAction::TimedOut
    } else {
        LockAction::RetryAfter(RETRY_DELAY_MILLIS)
    }
}

/// Decides what follows an attempt to create the key of the lock.
pub fn next_action(created: bool, timeout: Option<u128>, elapsed: u128) -> (action: LockAction)
    ensures
        action == action_after(created, timeout, elapsed),
{
    if created {
        return LockAction::Acquired;
    }
    if let Some(timeout) = timeout {
        if elapsed > timeout {
            return LockAction::TimedOut;
        }
    }
    LockAction::RetryAfter(RETRY_DELAY_MILLIS)
}

} // verus!
