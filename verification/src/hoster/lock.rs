//! Cross-process deploy lock (flock(2)).
//!
//! The "clean removal" guarantee rests on an invariant readable from disk:
//! *a leftover deploy-journal entry means the deploy was interrupted*. For a
//! background sweeper running in a *different* process than the panel, that
//! inference is only sound if a live deploy can be told apart from a dead one.
//! The deploy pipeline therefore holds an exclusive flock on
//! `<state>/demo-ghostprovider/deploy.lock` from the moment it journals the
//! deploy until the moment it clears the entry.
//!
//! While the lock is held, a sweeper that sees a journal entry knows a deploy
//! is genuinely live and defers. When the deploy process dies the kernel
//! releases the flock, so "journal entry present + lock free" can only mean an
//! interrupted deploy whose leftovers must be removed.

use vstd::prelude::*;

verus! {

/// Exclusive holder of the deploy lock: proof that an attempt succeeded. The
/// open file that carries the flock lives as long as the guard does.
#[derive(Debug)]
pub struct LockGuard {
    taken: bool,
}

/// What an attempt at the lock met.
#[derive(Debug, Clone, Copy, PartialEq, Eq, Structural)]
pub enum LockAttempt {
    /// The lock file could not be opened.
    NotOpened,
    /// The non-blocking exclusive flock returned this.
    Tried(i32),
}

/// Does an attempt take the lock?
pub open spec fn takes(attempt: LockAttempt) -> bool {
    attempt == LockAttempt::Tried(0)
}

/// Try to take the exclusive deploy lock without blocking.
///
/// `Some(guard)` — the lock is now held by this process; keep the guard alive
/// until this deploy's journal entry is cleared. `None` — another process in
/// this user session holds it (a deploy is running there, or another sweeper
/// is mid-pass); defer rather than act.
pub fn try_lock_exclusive(attempt: LockAttempt) -> (r: Option<LockGuard>)
    ensures
        r is Some <==> takes(attempt),
{
    match attempt {
        LockAttempt::NotOpened => None,
        LockAttempt::Tried(rc) => if rc == 0 {
            Some(LockGuard { taken: true })
        } else {
            None
        },
    }
}

/// True when some other process currently holds the deploy lock: an attempt
/// that is given back at once does not succeed.
pub fn is_locked(attempt: LockAttempt) -> (r: bool)
    ensures
        r == !takes(attempt),
{
    try_lock_exclusive(attempt).is_none()
}

/// The lock is taken exactly where the file was opened and the lock call gave
/// zero.
pub proof fn law_only_a_granted_lock_is_taken(rc: i32)
    ensures
        takes(LockAttempt::Tried(rc)) <==> rc == 0,
        !takes(LockAttempt::NotOpened),
{
}

} // verus!
