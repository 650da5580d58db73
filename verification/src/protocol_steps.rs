//! The decisions of one request to a framed-protocol extension: when to
//! poll, cancel or give up, and which replies answer the request. Times are
//! nanoseconds on a monotonic clock.
use vstd::prelude::*;
use vstd::string::*;

use crate::supervisor::{SupervisorError, SupervisorErrorKind};
use crate::text::str_equal;

verus! {

/// Longest single wait for a reply before cancellation is checked again.
pub const REPLY_POLL_INTERVAL_NANOS: u64 = 25_000_000;

/// A reply of the extension, as far as routing it needs.
#[derive(Debug, Clone)]
pub enum ProtocolReply {
    /// Search results for a query; `complete` marks the last snapshot.
    Snapshot { request_id: String, generation: u64, complete: bool },
    /// An action finished.
    Result { request_id: String, generation: u64 },
    /// A request failed; without a request identifier it concerns every request.
    Error { request_id: Option<String>, code: String, message: String },
    /// Anything else.
    Other,
}

/// What a reply means for the pending request.
#[derive(Debug, Clone)]
pub enum ReplyStep {
    /// Publish the snapshot's results; the query is over when `complete` is set.
    Publish { complete: bool },
    /// The action finished.
    Done,
    /// The request failed with this error.
    Fail(SupervisorError),
    /// The reply concerns another request: keep waiting.
    Ignore,
    /// The connection is gone.
    Closed,
}

/// What to do at one step of waiting for replies.
#[derive(Debug, Clone, Copy, PartialEq, Eq, Structural)]
pub enum WaitStep {
    /// The caller asked to cancel.
    Cancel,
    /// The deadline passed.
    Expired,
    /// Wait at most this many nanoseconds for a reply.
    Poll(u64),
}

/// A failure reply addresses the request `request_id` when it names it or names none.
pub open spec fn error_addresses(reply_id: Option<Seq<char>>, request_id: Seq<char>) -> bool {
    match reply_id {
        Some(id) => id == request_id,
        None => true,
    }
}

/// The description of a failure reply to a `kind` request ("query" or "action").
pub open spec fn failure_text(kind: Seq<char>, code: Seq<char>, message: Seq<char>) -> Seq<char> {
    "extension "@ + kind + " failed with "@ + code + ": "@ + message
}

/// The step at `now` of a wait that ends at `deadline`: a cancellation
/// request wins, then an expired deadline, otherwise a poll of at most
/// `REPLY_POLL_INTERVAL_NANOS`.
pub open spec fn wait_step_spec(now: u64, deadline: u64, should_cancel: bool) -> WaitStep {
    if should_cancel {
        WaitStep::Cancel
    } else if now >= deadline {
        WaitStep::Expired
    } else if deadline - now < REPLY_POLL_INTERVAL_NANOS {
        WaitStep::Poll((deadline - now) as u64)
    } else {
        WaitStep::Poll(REPLY_POLL_INTERVAL_NANOS)
    }
}

/// The step at `now` of a wait that ends at `deadline`.
pub fn wait_step(now: u64, deadline: u64, should_cancel: bool) -> (step: WaitStep)
    ensures
        step == wait_step_spec(now, deadline, should_cancel),
{
    if should_cancel {
        WaitStep::Cancel
    } else if now >= deadline {
        WaitStep::Expired
    } else if deadline - now < REPLY_POLL_INTERVAL_NANOS {
        WaitStep::Poll(deadline - now)
    } else {
        WaitStep::Poll(REPLY_POLL_INTERVAL_NANOS)
    }
}

/// Every poll ends by the deadline: a wait never outlasts it.
pub proof fn lemma_polls_end_by_deadline(now: u64, deadline: u64, should_cancel: bool)
    ensures
        match wait_step_spec(now, deadline, should_cancel) {
            WaitStep::Poll(wait) => 0 < wait <= REPLY_POLL_INTERVAL_NANOS && now + wait <= deadline,
            _ => true,
        },
{
}

fn failure(kind: &str, code: &str, message: &str) -> (e: SupervisorError)
    ensures
        e.kind == SupervisorErrorKind::UnexpectedMessage,
        e.message@ == failure_text(kind@, code@, message@),
{
    let text = String::from_str("extension ").concat(kind).concat(" failed with ").concat(code).concat(
        ": ",
    ).concat(message);
    SupervisorError { kind: SupervisorErrorKind::UnexpectedMessage, message: text }
}

fn error_addresses_request(reply_id: &Option<String>, request_id: &str) -> (r: bool)
    ensures
        r == error_addresses(
            match reply_id {
                Some(id) => Some(id@),
                None => None,
            },
            request_id@,
        ),
{
    match reply_id {
        Some(id) => str_equal(id.as_str(), request_id),
        None => true,
    }
}

/// What `reply` (`None` once the connection closed) means for the query
/// `request_id` of `generation`: its snapshots are published, a failure
/// addressed to it fails it, everything else is ignored.
pub fn query_reply_step(request_id: &str, generation: u64, reply: Option<&ProtocolReply>) -> (step:
    ReplyStep)
    ensures
        match reply {
            None => step is Closed,
            Some(ProtocolReply::Snapshot { request_id: id, generation: g, complete }) => if id@
                == request_id@ && g == generation {
                step == ReplyStep::Publish { complete: *complete }
            } else {
                step is Ignore
            },
            Some(ProtocolReply::Error { request_id: id, code, message }) => if error_addresses(
                match id {
                    Some(i) => Some(i@),
                    None => None,
                },
                request_id@,
            ) {
                match step {
                    ReplyStep::Fail(e) => e.kind == SupervisorErrorKind::UnexpectedMessage
                        && e.message@ == failure_text("query"@, code@, message@),
                    _ => false,
                }
            } else {
                step is Ignore
            },
            Some(_) => step is Ignore,
        },
{
    match reply {
        None => ReplyStep::Closed,
        Some(ProtocolReply::Snapshot { request_id: id, generation: g, complete }) => {
            if str_equal(id.as_str(), request_id) && *g == generation {
                ReplyStep::Publish { complete: *complete }
            } else {
                ReplyStep::Ignore
            }
        },
        Some(ProtocolReply::Error { request_id: id, code, message }) => {
            if error_addresses_request(id, request_id) {
                ReplyStep::Fail(failure("query", code.as_str(), message.as_str()))
            } else {
                ReplyStep::Ignore
            }
        },
        Some(_) => ReplyStep::Ignore,
    }
}

/// What `reply` (`None` once the connection closed) means for the action
/// `request_id` of `generation`: its result ends it, a failure addressed to
/// it fails it, everything else is ignored.
pub fn action_reply_step(request_id: &str, generation: u64, reply: Option<&ProtocolReply>) -> (step:
    ReplyStep)
    ensures
        match reply {
            None => step is Closed,
            Some(ProtocolReply::Result { request_id: id, generation: g }) => if id@ == request_id@
                && g == generation {
                step is Done
            } else {
                step is Ignore
            },
            Some(ProtocolReply::Error { request_id: id, code, message }) => if error_addresses(
                match id {
                    Some(i) => Some(i@),
                    None => None,
                },
                request_id@,
            ) {
                match step {
                    ReplyStep::Fail(e) => e.kind == SupervisorErrorKind::UnexpectedMessage
                        && e.message@ == failure_text("action"@, code@, message@),
                    _ => false,
                }
            } else {
                step is Ignore
            },
            Some(_) => step is Ignore,
        },
{
    match reply {
        None => ReplyStep::Closed,
        Some(ProtocolReply::Result { request_id: id, generation: g }) => {
            if str_equal(id.as_str(), request_id) && *g == generation {
                ReplyStep::Done
            } else {
                ReplyStep::Ignore
            }
        },
        Some(ProtocolReply::Error { request_id: id, code, message }) => {
            if error_addresses_request(id, request_id) {
                ReplyStep::Fail(failure("action", code.as_str(), message.as_str()))
            } else {
                ReplyStep::Ignore
            }
        },
        Some(_) => ReplyStep::Ignore,
    }
}

} // verus!
