//! How the host reacts to the result of an extension action: whether it
//! stops waiting, records the execution, completes or drops the shown
//! output, closes the overlay, or reports the failure.
use vstd::prelude::*;
use vstd::string::*;

use crate::diagnostic_code::DiagnosticCode;
use crate::host_diagnostic::{HostDiagnostic, HostDiagnosticView};

verus! {

/// How an action ended.
#[derive(Debug, Clone)]
pub enum InvocationOutcome {
    /// It completed; `has_output` when it produced output to show.
    Completed { has_output: bool },
    /// It was cancelled.
    Cancelled,
    /// It failed with this description.
    Failed(String),
}

/// What happens to the output shown for an action.
#[derive(Debug, Clone, Copy, PartialEq, Eq, Structural)]
pub enum PresentationChange {
    /// Leave it as it is.
    Keep,
    /// Mark the shown output of this action complete.
    Complete,
    /// Show an empty, complete output for this action.
    CreateComplete,
    /// Stop showing the output of this action.
    Remove,
}

/// The host's reaction to one action result.
pub struct ResultReaction {
    /// The result answers the action the host waits for: stop waiting.
    pub clear_pending: bool,
    /// Record the execution in the usage history.
    pub record_execution: bool,
    pub presentation: PresentationChange,
    /// Close the overlay: the awaited action completed without output.
    pub close_overlay: bool,
    /// The failure to report for the awaited action.
    pub action_error: Option<HostDiagnostic>,
}

/// The presentation change for the result of action `id` with `outcome`,
/// while the host waits for `pending` and shows the output of `shown`.
pub open spec fn presentation_change(
    pending: Option<u64>,
    shown: Option<u64>,
    id: u64,
    outcome: InvocationOutcome,
) -> PresentationChange {
    let is_pending = pending == Some(id);
    match outcome {
        InvocationOutcome::Completed { has_output } => if has_output && is_pending {
            match shown {
                None => PresentationChange::CreateComplete,
                Some(s) => if s == id {
                    PresentationChange::Complete
                } else {
                    PresentationChange::Keep
                },
            }
        } else {
            PresentationChange::Keep
        },
        InvocationOutcome::Cancelled => if shown == Some(id) {
            PresentationChange::Remove
        } else {
            PresentationChange::Keep
        },
        InvocationOutcome::Failed(_) => if shown == Some(id) {
            PresentationChange::Complete
        } else {
            PresentationChange::Keep
        },
    }
}

/// The reaction to the result of action `id` with `outcome`, while the
/// host waits for action `pending` and shows the output of action `shown`.
pub fn invocation_result_reaction(
    pending: Option<u64>,
    shown: Option<u64>,
    id: u64,
    outcome: InvocationOutcome,
) -> (reaction: ResultReaction)
    ensures
        reaction.clear_pending == (pending == Some(id)),
        reaction.record_execution == (outcome is Completed),
        reaction.presentation == presentation_change(pending, shown, id, outcome),
        reaction.close_overlay == (pending == Some(id) && match outcome {
            InvocationOutcome::Completed { has_output } => !has_output,
            _ => false,
        }),
        match reaction.action_error {
            Some(d) => pending == Some(id) && match outcome {
                InvocationOutcome::Failed(source) => d@ == (HostDiagnosticView {
                    code: DiagnosticCode::ExtensionUnavailable,
                    operation: "complete extension invocation"@,
                    user_message: "The selected extension action failed."@,
                    safe_context: None,
                    source: Some(source@),
                }),
                _ => false,
            },
            None => !(pending == Some(id) && outcome is Failed),
        },
{
    let is_pending = match pending {
        Some(p) => p == id,
        None => false,
    };
    let shows = match shown {
        Some(s) => s == id,
        None => false,
    };
    match outcome {
        InvocationOutcome::Completed { has_output } => {
            let presentation = if has_output && is_pending {
                match shown {
                    None => PresentationChange::CreateComplete,
                    Some(s) => if s == id {
                        PresentationChange::Complete
                    } else {
                        PresentationChange::Keep
                    },
                }
            } else {
                PresentationChange::Keep
            };
            ResultReaction {
                clear_pending: is_pending,
                record_execution: true,
                presentation,
                close_overlay: is_pending && !has_output,
                action_error: None,
            }
        },
        InvocationOutcome::Cancelled => ResultReaction {
            clear_pending: is_pending,
            record_execution: false,
            presentation: if shows {
                PresentationChange::Remove
            } else {
                PresentationChange::Keep
            },
            close_overlay: false,
            action_error: None,
        },
        InvocationOutcome::Failed(source) => {
            let action_error = if is_pending {
                Some(
                    HostDiagnostic::from_message(
                        DiagnosticCode::ExtensionUnavailable,
                        "complete extension invocation",
                        String::from_str("The selected extension action failed."),
                        source,
                    ),
                )
            } else {
                None
            };
            ResultReaction {
                clear_pending: is_pending,
                record_execution: false,
                presentation: if shows {
                    PresentationChange::Complete
                } else {
                    PresentationChange::Keep
                },
                close_overlay: false,
                action_error,
            }
        },
    }
}

} // verus!
