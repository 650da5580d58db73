use nanika::invocation_result::{invocation_result_reaction, InvocationOutcome, PresentationChange};

#[test]
fn awaited_results_end_the_wait() {
    let done = invocation_result_reaction(Some(4), None, 4, InvocationOutcome::Completed { has_output: false });
    assert!(done.clear_pending && done.record_execution && done.close_overlay);
    assert_eq!(done.presentation, PresentationChange::Keep);
    let shown = invocation_result_reaction(Some(4), None, 4, InvocationOutcome::Completed { has_output: true });
    assert!(!shown.close_overlay);
    assert_eq!(shown.presentation, PresentationChange::CreateComplete);
    let same = invocation_result_reaction(Some(4), Some(4), 4, InvocationOutcome::Completed { has_output: true });
    assert_eq!(same.presentation, PresentationChange::Complete);
    let other = invocation_result_reaction(Some(5), Some(5), 4, InvocationOutcome::Completed { has_output: true });
    assert!(!other.clear_pending && other.record_execution && !other.close_overlay);
    assert_eq!(other.presentation, PresentationChange::Keep);
}

#[test]
fn cancelled_and_failed_results() {
    let cancelled = invocation_result_reaction(Some(4), Some(4), 4, InvocationOutcome::Cancelled);
    assert_eq!(cancelled.presentation, PresentationChange::Remove);
    assert!(!cancelled.record_execution);
    let failed = invocation_result_reaction(Some(4), Some(4), 4, InvocationOutcome::Failed("boom".to_owned()));
    assert_eq!(failed.presentation, PresentationChange::Complete);
    let error = failed.action_error.expect("reported");
    assert_eq!(error.user_message(), "The selected extension action failed.");
    assert_eq!(error.operation(), "complete extension invocation");
    assert_eq!(error.source_message(), Some("boom"));
    let stale = invocation_result_reaction(None, None, 4, InvocationOutcome::Failed("boom".to_owned()));
    assert!(stale.action_error.is_none());
}
