//! The order of steps that replaces a file without ever exposing a partial write.
//!
//! The caller performs each step on disk and reports whether it succeeded; the
//! first failure ends the write with that failure, so the rename that makes the
//! new content visible happens only after the temporary file was written in full.
use vstd::prelude::*;

verus! {

#[derive(Clone, Copy, Debug, PartialEq, Eq, Structural)]
pub enum Step {
    /// Open, or create, the target file.
    OpenTarget,
    /// Take an exclusive lock on the target; this also keeps other writers of the record out.
    LockTarget,
    /// Create a temporary file with a random name and the extension `tmp` beside the target.
    CreateTemp,
    /// Take an exclusive lock on the temporary file.
    LockTemp,
    /// Write the whole new content to the temporary file.
    WriteTemp,
    /// Rename the temporary file over the target.
    Rename,
    /// Release the lock on the temporary file.
    UnlockTemp,
    /// Release the lock on the target.
    UnlockTarget,
}

#[derive(Clone, Copy, Debug, PartialEq, Eq, Structural)]
pub enum Next {
    Perform(Step),
    /// The write is over; `ok` tells whether every step succeeded.
    Finish { ok: bool },
}

/// The position of a step in the protocol.
pub open spec fn rank(step: Step) -> nat {
    match step {
        Step::OpenTarget => 0,
        Step::LockTarget => 1,
        Step::CreateTemp => 2,
        Step::LockTemp => 3,
        Step::WriteTemp => 4,
        Step::Rename => 5,
        Step::UnlockTemp => 6,
        Step::UnlockTarget => 7,
    }
}

/// The step that follows `step` when it succeeded, if any.
pub open spec fn successor(step: Step) -> Option<Step> {
    match step {
        Step::OpenTarget => Some(Step::LockTarget),
        Step::LockTarget => Some(Step::CreateTemp),
        Step::CreateTemp => Some(Step::LockTemp),
        Step::LockTemp => Some(Step::WriteTemp),
        Step::WriteTemp => Some(Step::Rename),
        Step::Rename => Some(Step::UnlockTemp),
        Step::UnlockTemp => Some(Step::UnlockTarget),
        Step::UnlockTarget => None,
    }
}

/// What follows `step`, given whether it succeeded.
pub open spec fn next_of(step: Step, succeeded: bool) -> Next {
    if !succeeded {
        Next::Finish { ok: false }
    } else {
        match successor(step) {
            Some(s) => Next::Perform(s),
            None => Next::Finish { ok: true },
        }
    }
}

/// The first step of a write.
pub fn start() -> (r: Next)
    ensures
        r == Next::Perform(Step::OpenTarget),
{
    Next::Perform(Step::OpenTarget)
}

/// What follows `step`, given whether it succeeded.
pub fn after(step: Step, succeeded: bool) -> (r: Next)
    ensures
        r == next_of(step, succeeded),
{
    if !succeeded {
        return Next::Finish { ok: false };
    }
    match step {
        Step::OpenTarget => Next::Perform(Step::LockTarget),
        Step::LockTarget => Next::Perform(Step::CreateTemp),
        Step::CreateTemp => Next::Perform(Step::LockTemp),
        Step::LockTemp => Next::Perform(Step::WriteTemp),
        Step::WriteTemp => Next::Perform(Step::Rename),
        Step::Rename => Next::Perform(Step::UnlockTemp),
        Step::UnlockTemp => Next::Perform(Step::UnlockTarget),
        Step::UnlockTarget => Next::Finish { ok: true },
    }
}

/// The rename is asked for only right after the temporary file was written in
/// full; a failed step ends the write as failed; each step moves one place
/// forward; and a write ends as succeeded only once the target's lock is released.
pub proof fn lemma_rename_only_after_full_write(step: Step, succeeded: bool)
    ensures
        next_of(step, succeeded) == Next::Perform(Step::Rename) ==> step == Step::WriteTemp && succeeded,
        !succeeded ==> next_of(step, succeeded) == (Next::Finish { ok: false }),
        next_of(step, succeeded) matches Next::Perform(s) ==> rank(s) == rank(step) + 1,
        next_of(step, succeeded) == (Next::Finish { ok: true }) ==> step == Step::UnlockTarget && succeeded,
{
}

} // verus!
