//! Failures of supervised extension processes and the recovery decisions
//! that an extension worker takes after each unit of work.
use vstd::prelude::*;

verus! {

/// Failure while supervising one extension process.
#[derive(Debug, Clone, PartialEq, Eq, Structural)]
pub enum SupervisorErrorKind {
    /// The protocol channel to the process closed.
    ChannelClosed,
    /// A frame could not be read or written.
    Protocol,
    /// An operation did not finish in time.
    Timeout,
    /// The operation was cancelled.
    Cancelled,
    /// The process answered something that the host did not expect.
    UnexpectedMessage,
    /// A bounded request queue is full.
    QueueFull,
    /// The process already used all its restarts.
    RestartLimit,
    /// Operating-system I/O failed.
    Io,
}

/// Failure while supervising one extension process, with its description.
#[derive(Debug, Clone)]
pub struct SupervisorError {
    pub kind: SupervisorErrorKind,
    pub message: String,
}

/// Failures after which the process is restarted: the channel closed, a
/// protocol frame failed, or an operation timed out.
pub open spec fn restartable(kind: SupervisorErrorKind) -> bool {
    kind == SupervisorErrorKind::ChannelClosed || kind == SupervisorErrorKind::Protocol || kind
        == SupervisorErrorKind::Timeout
}

/// Whether a failure of kind `kind` restarts the process.
pub fn is_restartable(kind: &SupervisorErrorKind) -> (r: bool)
    ensures
        r == restartable(*kind),
{
    match kind {
        SupervisorErrorKind::ChannelClosed => true,
        SupervisorErrorKind::Protocol => true,
        SupervisorErrorKind::Timeout => true,
        _ => false,
    }
}

/// What the worker does once a query attempt has finished.
#[derive(Debug, Clone, Copy, PartialEq, Eq, Structural)]
pub enum QueryFollowup {
    /// Report the attempt's result.
    Finish,
    /// Terminate the process, then report the attempt's result.
    TerminateAndFinish,
    /// Restart the process and run the query once more.
    RestartAndRetry,
}

/// After a query attempt: success and non-restartable failures finish; a
/// restartable failure restarts the process and retries once, and a second
/// restartable failure terminates the process.
pub open spec fn query_followup_spec(failure: Option<SupervisorErrorKind>, retried: bool) -> QueryFollowup {
    match failure {
        None => QueryFollowup::Finish,
        Some(kind) => if !restartable(kind) {
            QueryFollowup::Finish
        } else if retried {
            QueryFollowup::TerminateAndFinish
        } else {
            QueryFollowup::RestartAndRetry
        },
    }
}

/// What follows a query attempt that ended with `failure`, after `retried` restarts.
pub fn query_followup(failure: Option<SupervisorErrorKind>, retried: bool) -> (next: QueryFollowup)
    ensures
        next == query_followup_spec(failure, retried),
{
    match failure {
        None => QueryFollowup::Finish,
        Some(kind) => {
            if !is_restartable(&kind) {
                QueryFollowup::Finish
            } else if retried {
                QueryFollowup::TerminateAndFinish
            } else {
                QueryFollowup::RestartAndRetry
            }
        },
    }
}

/// What the worker does once an action invocation has finished.
#[derive(Debug, Clone, Copy, PartialEq, Eq, Structural)]
pub enum InvocationFollowup {
    /// Report that the action was cancelled; when `recover` is set, first
    /// bring the process back after the cancellation.
    ReportCancelled { recover: bool },
    /// Restart the process, then report the failure.
    RestartAndReport,
    /// Report the result as it is.
    Report,
}

/// After an invocation: a cancellation is reported as such, and the process
/// is recovered only when the user cancelled it and the worker is not
/// shutting down; a restartable failure outside shutdown restarts the
/// process; everything else is reported unchanged.
pub open spec fn invocation_followup_spec(
    failure: Option<SupervisorErrorKind>,
    user_cancelled: bool,
    shutting_down: bool,
) -> InvocationFollowup {
    match failure {
        Some(SupervisorErrorKind::Cancelled) => InvocationFollowup::ReportCancelled {
            recover: user_cancelled && !shutting_down,
        },
        Some(kind) => if !shutting_down && restartable(kind) {
            InvocationFollowup::RestartAndReport
        } else {
            InvocationFollowup::Report
        },
        None => InvocationFollowup::Report,
    }
}

/// What follows an invocation that ended with `failure`.
pub fn invocation_followup(
    failure: Option<SupervisorErrorKind>,
    user_cancelled: bool,
    shutting_down: bool,
) -> (next: InvocationFollowup)
    ensures
        next == invocation_followup_spec(failure, user_cancelled, shutting_down),
{
    match failure {
        Some(SupervisorErrorKind::Cancelled) => InvocationFollowup::ReportCancelled {
            recover: user_cancelled && !shutting_down,
        },
        Some(kind) => {
            if !shutting_down && is_restartable(&kind) {
                InvocationFollowup::RestartAndReport
            } else {
                InvocationFollowup::Report
            }
        },
        None => InvocationFollowup::Report,
    }
}

/// Whether a failure of settings or refresh work restarts the process.
pub fn restarts_after(failure: &Option<SupervisorErrorKind>) -> (restart: bool)
    ensures
        restart == match failure {
            Some(kind) => restartable(*kind),
            None => false,
        },
{
    match failure {
        Some(kind) => is_restartable(kind),
        None => false,
    }
}

} // verus!
