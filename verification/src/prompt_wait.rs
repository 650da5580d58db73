//! Waiting for an agent extension to answer a prompt: the deadline of the
//! action, a short grace period once the user cancels, and how each reply
//! ends the wait. Times are nanoseconds on a monotonic clock.
use vstd::prelude::*;
use vstd::string::*;

use crate::supervisor::{SupervisorError, SupervisorErrorKind};

verus! {

/// Longest single wait for a reply before the cancellation request is checked again.
pub const ACP_POLL_INTERVAL_NANOS: u64 = 25_000_000;
/// Time an agent gets to stop once the user cancelled its prompt.
pub const ACP_CANCEL_GRACE_NANOS: u64 = 100_000_000;

/// `a + b`, or `u64::MAX` when that overflows.
pub open spec fn saturating_sum(a: u64, b: u64) -> u64 {
    if a + b > u64::MAX {
        u64::MAX
    } else {
        (a + b) as u64
    }
}

/// The state of one wait for a prompt's reply.
#[derive(Debug)]
pub struct PromptWait {
    deadline: u64,
    cancellation_deadline: Option<u64>,
    cancellation_requested: bool,
}

/// What to do at one step of the wait.
#[derive(Debug, Clone)]
pub enum PromptTick {
    /// Wait at most `wait` nanoseconds for a reply; when `cancel` is set, ask
    /// the agent to stop first (the user just cancelled).
    Poll { cancel: bool, wait: u64 },
    /// Time is up: ask the agent to stop, terminate its process and fail with this error.
    Expired(SupervisorError),
}

/// What the agent's connection delivered during a poll.
#[derive(Debug, Clone)]
pub enum PromptReply {
    /// The prompt completed.
    Completed,
    /// The prompt failed with this description.
    Failed(String),
    /// Nothing arrived.
    Silent,
    /// The connection is gone.
    Disconnected,
}

impl PromptWait {
    /// When the wait ends at the latest.
    pub closed spec fn deadline_at(&self) -> u64 {
        self.deadline
    }

    /// When the grace period after a cancellation ends, once the user cancelled.
    pub closed spec fn grace_deadline(&self) -> Option<u64> {
        self.cancellation_deadline
    }

    /// Whether the user cancelled the prompt.
    pub closed spec fn cancelled(&self) -> bool {
        self.cancellation_requested
    }

    /// The end of the current step's wait: the deadline, or the end of the
    /// grace period when that comes first.
    pub open spec fn active_deadline(&self) -> u64 {
        match self.grace_deadline() {
            Some(c) => if c < self.deadline_at() {
                c
            } else {
                self.deadline_at()
            },
            None => self.deadline_at(),
        }
    }

    /// A wait that started at `started` for an action allowed `action_timeout` nanoseconds.
    pub fn new(started: u64, action_timeout: u64) -> (wait: Self)
        ensures
            wait.deadline_at() == saturating_sum(started, action_timeout),
            wait.grace_deadline() is None,
            !wait.cancelled(),
    {
        let deadline = started.saturating_add(action_timeout);
        PromptWait { deadline, cancellation_deadline: None, cancellation_requested: false }
    }

    /// One step of the wait at `now`, where `should_cancel` says whether the
    /// user asks to cancel: the first such request starts the grace period;
    /// the wait expires once the active deadline is reached, as a
    /// cancellation when the user cancelled and as a timeout otherwise;
    /// until then it polls for at most `ACP_POLL_INTERVAL_NANOS`.
    pub fn tick(&mut self, now: u64, should_cancel: bool) -> (step: PromptTick)
        ensures
            final(self).deadline_at() == old(self).deadline_at(),
            final(self).cancelled() == (old(self).cancelled() || should_cancel),
            final(self).grace_deadline() == if !old(self).cancelled() && should_cancel {
                Some(saturating_sum(now, ACP_CANCEL_GRACE_NANOS))
            } else {
                old(self).grace_deadline()
            },
            now >= final(self).active_deadline() ==> match step {
                PromptTick::Expired(e) => e.message@ == "ACP prompt"@ && e.kind == if final(self).cancelled() {
                    SupervisorErrorKind::Cancelled
                } else {
                    SupervisorErrorKind::Timeout
                },
                PromptTick::Poll { .. } => false,
            },
            now < final(self).active_deadline() ==> match step {
                PromptTick::Poll { cancel, wait } => cancel == (!old(self).cancelled()
                    && should_cancel) && wait == if final(self).active_deadline() - now
                    < ACP_POLL_INTERVAL_NANOS {
                    (final(self).active_deadline() - now) as u64
                } else {
                    ACP_POLL_INTERVAL_NANOS
                },
                PromptTick::Expired(_) => false,
            },
    {
        let cancel = !self.cancellation_requested && should_cancel;
        if cancel {
            self.cancellation_requested = true;
            self.cancellation_deadline = Some(now.saturating_add(ACP_CANCEL_GRACE_NANOS));
        }
        let active = match self.cancellation_deadline {
            Some(c) => if c < self.deadline {
                c
            } else {
                self.deadline
            },
            None => self.deadline,
        };
        if now >= active {
            let kind = if self.cancellation_requested {
                SupervisorErrorKind::Cancelled
            } else {
                SupervisorErrorKind::Timeout
            };
            return PromptTick::Expired(SupervisorError { kind, message: String::from_str("ACP prompt") });
        }
        let remaining = active - now;
        let wait = if remaining < ACP_POLL_INTERVAL_NANOS {
            remaining
        } else {
            ACP_POLL_INTERVAL_NANOS
        };
        PromptTick::Poll { cancel, wait }
    }

    /// How `reply` ends the wait, if it does: once the user cancelled, any
    /// answer ends it as cancelled; otherwise a completion succeeds and a
    /// failure is reported as an unexpected message; a lost connection fails.
    pub fn on_reply(&self, reply: PromptReply) -> (end: Option<Result<(), SupervisorError>>)
        ensures
            match reply {
                PromptReply::Silent => end is None,
                PromptReply::Disconnected => match end {
                    Some(Err(e)) => e.kind == SupervisorErrorKind::ChannelClosed && e.message@
                        == "ACP prompt"@,
                    _ => false,
                },
                PromptReply::Completed => if self.cancelled() {
                    match end {
                        Some(Err(e)) => e.kind == SupervisorErrorKind::Cancelled && e.message@
                            == "ACP prompt"@,
                        _ => false,
                    }
                } else {
                    end == Some(Ok::<(), SupervisorError>(()))
                },
                PromptReply::Failed(m) => match end {
                    Some(Err(e)) => if self.cancelled() {
                        e.kind == SupervisorErrorKind::Cancelled && e.message@ == "ACP prompt"@
                    } else {
                        e.kind == SupervisorErrorKind::UnexpectedMessage && e.message@ == m@
                    },
                    _ => false,
                },
            },
    {
        match reply {
            PromptReply::Silent => None,
            PromptReply::Disconnected => Some(
                Err(
                    SupervisorError {
                        kind: SupervisorErrorKind::ChannelClosed,
                        message: String::from_str("ACP prompt"),
                    },
                ),
            ),
            PromptReply::Completed => if self.cancellation_requested {
                Some(
                    Err(
                        SupervisorError {
                            kind: SupervisorErrorKind::Cancelled,
                            message: String::from_str("ACP prompt"),
                        },
                    ),
                )
            } else {
                Some(Ok(()))
            },
            PromptReply::Failed(m) => if self.cancellation_requested {
                Some(
                    Err(
                        SupervisorError {
                            kind: SupervisorErrorKind::Cancelled,
                            message: String::from_str("ACP prompt"),
                        },
                    ),
                )
            } else {
                Some(Err(SupervisorError { kind: SupervisorErrorKind::UnexpectedMessage, message: m }))
            },
        }
    }
}

/// Once the user cancelled, the wait ends no later than the grace period
/// after the request: any step at or after that time expires.
pub proof fn lemma_cancellation_is_bounded(wait: PromptWait, now: u64)
    requires
        wait.grace_deadline() is Some,
        now >= wait.grace_deadline()->0,
    ensures
        now >= wait.active_deadline(),
{
}

} // verus!
