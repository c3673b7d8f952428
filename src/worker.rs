//! Decisions of the resumption worker and of the suspend entry point; the
//! calls into the managed runtime that they order are made by the caller.

use crate::failure::{FailureKind, RecoveryStep};
use vstd::prelude::*;

verus! {

/// Why the suspend entry point could not hand the call over.
#[derive(Clone, Copy, Debug, PartialEq, Eq, Structural)]
pub enum EntryError {
    /// The cancellable wrapper produced a result synchronously instead of
    /// the runtime's "suspended" marker.
    UnexpectedResult,
}

/// The steps after a resumption call: a pending exception is described and
/// cleared so that the worker can go on; nothing else needs a step.
pub open spec fn after_resume_steps(result: Result<(), FailureKind>) -> Seq<RecoveryStep> {
    match result {
        Err(FailureKind::PendingException) => seq![RecoveryStep::Describe, RecoveryStep::Clear],
        _ => seq![],
    }
}

/// What the worker does once a resumption call has returned.
pub fn after_resume(result: Result<(), FailureKind>) -> (r: Vec<RecoveryStep>)
    ensures
        r@ == after_resume_steps(result),
{
    let mut r: Vec<RecoveryStep> = Vec::new();
    if let Err(FailureKind::PendingException) = result {
        r.push(RecoveryStep::Describe);
        r.push(RecoveryStep::Clear);
    }
    proof {
        assert(r@ =~= after_resume_steps(result));
    }
    r
}

/// A failed resumption never stops the worker: whatever a resumption call
/// returns, none of the steps that follow it aborts, so the worker goes on
/// with the next queued call.
pub proof fn lemma_worker_continues(result: Result<(), FailureKind>)
    ensures
        !after_resume_steps(result).contains(RecoveryStep::Abort),
{
    if after_resume_steps(result).contains(RecoveryStep::Abort) {
        let i = choose|i: int|
            0 <= i < after_resume_steps(result).len() && after_resume_steps(result)[i]
                == RecoveryStep::Abort;
    }
}

/// The suspend entry point hands its call over only when fetching the
/// wrapper's result gave the runtime's "suspended" marker.
pub fn expect_suspended(is_marker: bool) -> (r: Result<(), EntryError>)
    ensures
        r is Ok <==> is_marker,
        r matches Err(e) ==> e == EntryError::UnexpectedResult,
{
    if is_marker {
        Ok(())
    } else {
        Err(EntryError::UnexpectedResult)
    }
}

} // verus!
