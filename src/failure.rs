//! What happens when a call into the managed runtime fails.

use vstd::prelude::*;
use vstd::string::StringExecFns;

verus! {

/// How a call into the managed runtime failed.
#[derive(Clone, Copy, Debug, PartialEq, Eq, Structural)]
pub enum FailureKind {
    /// The call failed because an exception is pending on the calling thread.
    PendingException,
    /// Any other failure: a bad signature, a missing class or method.
    Other,
}

/// One action on the pending exception of the calling thread, or the end of
/// the native call.
#[derive(Clone, Copy, Debug, PartialEq, Eq, Structural)]
pub enum RecoveryStep {
    /// Take a reference to the pending exception.
    Fetch,
    /// Clear the pending exception so further calls can be made.
    Clear,
    /// Log the fetched exception's description.
    Print,
    /// Let the runtime describe the pending exception on its own error stream.
    Describe,
    /// Abort the current native call.
    Abort,
}

/// The steps that log a pending exception: nothing can be done on a thread
/// that is not attached to the runtime.
pub open spec fn exception_log_steps(attached: bool) -> Seq<RecoveryStep> {
    if attached {
        seq![RecoveryStep::Fetch, RecoveryStep::Clear, RecoveryStep::Print]
    } else {
        seq![]
    }
}

/// The steps taken when a call that must succeed fails: a pending exception
/// is logged and cleared first, and every such failure ends the native call.
pub open spec fn fatal_failure_steps(kind: FailureKind, attached: bool) -> Seq<RecoveryStep> {
    match kind {
        FailureKind::PendingException => exception_log_steps(attached).push(RecoveryStep::Abort),
        FailureKind::Other => seq![RecoveryStep::Abort],
    }
}

/// The message that aborts a native call: the caller's message, a colon and
/// the failure's description.
pub open spec fn abort_message(msg: Seq<char>, error: Seq<char>) -> Seq<char> {
    msg + ": "@ + error
}

/// Plans the logging of the pending exception of the current thread.
pub fn log_exception(attached: bool) -> (r: Vec<RecoveryStep>)
    ensures
        r@ == exception_log_steps(attached),
{
    let mut r: Vec<RecoveryStep> = Vec::new();
    if attached {
        r.push(RecoveryStep::Fetch);
        r.push(RecoveryStep::Clear);
        r.push(RecoveryStep::Print);
    }
    proof {
        assert(r@ =~= exception_log_steps(attached));
    }
    r
}

/// Plans the reaction to a failed call that must succeed.
pub fn fatal_failure(kind: FailureKind, attached: bool) -> (r: Vec<RecoveryStep>)
    ensures
        r@ == fatal_failure_steps(kind, attached),
{
    let mut r: Vec<RecoveryStep> = match kind {
        FailureKind::PendingException => log_exception(attached),
        FailureKind::Other => Vec::new(),
    };
    r.push(RecoveryStep::Abort);
    proof {
        assert(r@ =~= fatal_failure_steps(kind, attached));
    }
    r
}

/// Builds the message with which a failed call aborts the native call.
pub fn junwrap_failed(msg: &str, error: &str) -> (r: String)
    ensures
        r@ == abort_message(msg@, error@),
{
    let head = String::from_str(msg);
    let head = head.concat(": ");
    proof {
        reveal_strlit(": ");
    }
    head.concat(error)
}

} // verus!
