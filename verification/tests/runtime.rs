use nanika::invocation_output::{ExtensionInvocationOutputState, MAX_PENDING_OUTPUTS};
use nanika::manifest::ExtensionProtocol;
use nanika::runtime::{
    acp_invocation_prompt, acp_query_entries, runtime_kind, ChunkAction, InvocationBudget,
    PromptOutput, RuntimeKind, StderrTail, ACP_OUTPUT_LIMIT, INVOCATION_RESULT_CAPACITY,
};
use nanika::supervisor::{
    invocation_followup, is_restartable, query_followup, restarts_after, InvocationFollowup,
    QueryFollowup, SupervisorErrorKind,
};
use nanika::work_queue::{
    ExtensionInvocation, ExtensionSearchState, ExtensionSettingsUpdate, ExtensionWork,
    MAX_PENDING_INVOCATIONS, MAX_PENDING_SETTINGS,
};

fn invocation(id: u64) -> ExtensionInvocation {
    ExtensionInvocation {
        invocation_id: id,
        generation: 1,
        entry_id: "entry".to_owned(),
        action_id: "run".to_owned(),
        query_context: "q".to_owned(),
    }
}

fn settings(id: &str) -> ExtensionSettingsUpdate<u32> {
    ExtensionSettingsUpdate { request_id: id.to_owned(), updates: 0 }
}

#[test]
fn work_is_taken_in_priority_order() {
    let mut state: ExtensionSearchState<u32> = ExtensionSearchState::new();
    assert!(!state.has_work());
    state.refresh(1);
    state.query(1, "first".to_owned());
    state.query(2, "second".to_owned());
    assert!(state.update_settings(settings("s1")));
    assert!(state.invoke(invocation(7)));
    assert!(state.has_work());
    match state.next_work() {
        Some(ExtensionWork::Invoke(i)) => assert_eq!(i.invocation_id, 7),
        other => panic!("expected an invocation, got {other:?}"),
    }
    match state.next_work() {
        Some(ExtensionWork::UpdateSettings(s)) => assert_eq!(s.request_id, "s1"),
        other => panic!("expected settings, got {other:?}"),
    }
    match state.next_work() {
        Some(ExtensionWork::Query(q)) => {
            assert_eq!(q.generation, 2);
            assert_eq!(q.query, "second");
        }
        other => panic!("expected a query, got {other:?}"),
    }
    match state.next_work() {
        Some(ExtensionWork::Refresh(r)) => assert_eq!(r.generation, 1),
        other => panic!("expected a refresh, got {other:?}"),
    }
    assert!(state.next_work().is_none());
}

#[test]
fn work_queues_are_bounded() {
    let mut state: ExtensionSearchState<u32> = ExtensionSearchState::new();
    for i in 0..MAX_PENDING_INVOCATIONS as u64 {
        assert!(state.invoke(invocation(i)));
    }
    assert!(!state.invoke(invocation(99)));
    for i in 0..MAX_PENDING_SETTINGS {
        assert!(state.update_settings(settings(&format!("s{i}"))));
    }
    assert!(!state.update_settings(settings("extra")));
}

#[test]
fn stopping_ends_all_work() {
    let mut state: ExtensionSearchState<u32> = ExtensionSearchState::new();
    state.query(1, "q".to_owned());
    state.request_stop();
    assert!(state.has_work());
    assert!(state.next_work().is_none());
}

#[test]
fn superseded_work_is_detected() {
    let mut state: ExtensionSearchState<u32> = ExtensionSearchState::new();
    state.query(1, "a".to_owned());
    assert!(matches!(state.next_work(), Some(ExtensionWork::Query(_))));
    assert!(!state.query_superseded());
    state.query(2, "b".to_owned());
    assert!(state.query_superseded());
    state.refresh(3);
    assert!(state.refresh_superseded());
}

#[test]
fn cancellation_marks_known_invocations_only() {
    let mut state: ExtensionSearchState<u32> = ExtensionSearchState::new();
    assert!(!state.cancel_invocation(5));
    assert!(state.invoke(invocation(5)));
    assert!(state.invoke(invocation(6)));
    assert!(state.cancel_invocation(6));
    assert!(matches!(state.next_work(), Some(ExtensionWork::Invoke(_))));
    assert!(state.cancel_invocation(5));
    assert!(state.invocation_cancelled(5));
    assert_eq!(state.finish_invocation(5), (false, true));
    assert!(!state.invocation_cancelled(5));
    assert!(state.invocation_cancelled(6));
}

#[test]
fn invocation_outputs_notify_once_until_collected() {
    let mut outputs = ExtensionInvocationOutputState::new();
    assert!(outputs.take_changed().is_none());
    assert!(outputs.append(1, "com.example.a", 3, "Hel"));
    assert!(!outputs.append(1, "com.example.a", 3, "lo"));
    assert!(!outputs.append(2, "com.example.a", 3, "next"));
    let changed = outputs.take_changed().expect("changed");
    assert_eq!(changed.len(), 2);
    assert_eq!(changed[0].text, "Hello");
    assert_eq!(changed[1].invocation_id, 2);
    assert!(outputs.take_changed().is_none());
    assert!(outputs.append(3, "com.example.a", 3, "x"));
}

#[test]
fn invocation_outputs_keep_the_newest() {
    let mut outputs = ExtensionInvocationOutputState::new();
    for id in 0..(MAX_PENDING_OUTPUTS as u64 + 2) {
        outputs.append(id, "com.example.a", 1, "t");
    }
    let changed = outputs.take_changed().expect("changed");
    assert_eq!(changed.len(), MAX_PENDING_OUTPUTS);
    assert_eq!(changed[0].invocation_id, 2);
}

#[test]
fn supervisor_restarts_only_after_transport_failures() {
    assert!(is_restartable(&SupervisorErrorKind::ChannelClosed));
    assert!(is_restartable(&SupervisorErrorKind::Timeout));
    assert!(!is_restartable(&SupervisorErrorKind::Cancelled));
    assert!(!restarts_after(&None));
    assert!(restarts_after(&Some(SupervisorErrorKind::Protocol)));
    assert_eq!(query_followup(None, false), QueryFollowup::Finish);
    assert_eq!(query_followup(Some(SupervisorErrorKind::Timeout), false), QueryFollowup::RestartAndRetry);
    assert_eq!(query_followup(Some(SupervisorErrorKind::Timeout), true), QueryFollowup::TerminateAndFinish);
    assert_eq!(query_followup(Some(SupervisorErrorKind::QueueFull), false), QueryFollowup::Finish);
    assert_eq!(
        invocation_followup(Some(SupervisorErrorKind::Cancelled), true, false),
        InvocationFollowup::ReportCancelled { recover: true }
    );
    assert_eq!(
        invocation_followup(Some(SupervisorErrorKind::Cancelled), true, true),
        InvocationFollowup::ReportCancelled { recover: false }
    );
    assert_eq!(
        invocation_followup(Some(SupervisorErrorKind::ChannelClosed), false, false),
        InvocationFollowup::RestartAndReport
    );
    assert_eq!(
        invocation_followup(Some(SupervisorErrorKind::ChannelClosed), false, true),
        InvocationFollowup::Report
    );
}

#[test]
fn runtime_kind_follows_the_protocol() {
    assert_eq!(runtime_kind(ExtensionProtocol::Nanika { protocol_version: 1 }), Some(RuntimeKind::Nanika));
    assert_eq!(runtime_kind(ExtensionProtocol::Acp { protocol_version: 1 }), Some(RuntimeKind::Acp));
    assert_eq!(runtime_kind(ExtensionProtocol::Acp { protocol_version: 2 }), None);
}

#[test]
fn acp_entries_and_prompts() {
    let entries = acp_query_entries("agent", "  @agent   explain this ".to_owned());
    assert_eq!(entries.len(), 1);
    assert_eq!(entries[0].title, "Ask agent");
    assert_eq!(entries[0].aliases, vec!["  @agent   explain this ".to_owned()]);
    assert!(acp_query_entries("agent", "agent explain".to_owned()).is_empty());
    assert_eq!(acp_invocation_prompt("agent", "prompt", "prompt", "@agent hi").ok(), Some("hi"));
    let unknown = acp_invocation_prompt("agent", "other", "prompt", "@agent hi").unwrap_err();
    assert_eq!(unknown.kind, SupervisorErrorKind::UnexpectedMessage);
    assert_eq!(unknown.message, "ACP extension received an unknown action");
    let mismatch = acp_invocation_prompt("agent", "prompt", "prompt", "@agentx hi").unwrap_err();
    assert_eq!(mismatch.message, "ACP prompt does not match the extension activation prefix");
}

#[test]
fn prompt_output_is_cut_at_the_limit() {
    let mut output = PromptOutput::new();
    assert_eq!(output.on_chunk(ACP_OUTPUT_LIMIT - 1), ChunkAction::Publish);
    assert_eq!(output.on_chunk(1), ChunkAction::Publish);
    assert_eq!(output.on_chunk(1), ChunkAction::LimitAndCancel);
    assert_eq!(output.on_chunk(1), ChunkAction::Drop);
    assert_eq!(output.outcome(false), Err("ACP prompt output exceeds 262144 bytes".to_owned()));
    assert_eq!(output.outcome(true), Err("ACP prompt cancelled".to_owned()));
    assert_eq!(PromptOutput::new().outcome(false), Ok(()));
}

#[test]
fn stderr_tail_keeps_the_last_bytes() {
    let mut tail = StderrTail::new(4);
    tail.append(b"ab");
    tail.append(b"cdef");
    assert_eq!(tail.to_vec(), b"cdef".to_vec());
    tail.append(b"g");
    assert_eq!(tail.to_vec(), b"defg".to_vec());
    let mut none = StderrTail::new(0);
    none.append(b"xyz");
    assert!(none.to_vec().is_empty());
}

#[test]
fn invocation_budget_is_bounded() {
    let mut budget = InvocationBudget::new();
    for expected in 1..=(INVOCATION_RESULT_CAPACITY as u64) {
        assert_eq!(budget.reserve(), Some(expected));
    }
    assert_eq!(budget.reserve(), None);
    budget.complete(2);
    assert_eq!(budget.reserve(), Some(INVOCATION_RESULT_CAPACITY as u64 + 1));
    budget.release();
    assert_eq!(budget.reserve(), Some(INVOCATION_RESULT_CAPACITY as u64 + 2));
}

use nanika::prompt_wait::{PromptReply, PromptTick, PromptWait, ACP_CANCEL_GRACE_NANOS, ACP_POLL_INTERVAL_NANOS};
use nanika::worker::{extension_failure, next_restart, work_error_update, ErrorUpdate, WorkerDirectory};

#[test]
fn worker_directory_routes_by_extension() {
    let mut directory = WorkerDirectory::new();
    assert!(directory.is_empty());
    assert_eq!(directory.register("com.example.a".to_owned()), Ok(0));
    assert_eq!(directory.register("com.example.b".to_owned()), Ok(1));
    assert_eq!(
        directory.register("com.example.a".to_owned()),
        Err("extension search worker already exists: com.example.a".to_owned())
    );
    assert_eq!(directory.len(), 2);
    assert_eq!(directory.find("com.example.b").ok(), Some(1));
    let missing = directory.find("com.example.c").unwrap_err();
    assert_eq!(missing.kind, SupervisorErrorKind::UnexpectedMessage);
    assert_eq!(missing.message, "extension search worker does not exist: com.example.c");
    directory.clear();
    assert!(directory.is_empty());
}

#[test]
fn restarts_are_limited() {
    assert_eq!(next_restart(0, 2).ok(), Some(1));
    assert_eq!(next_restart(1, 2).ok(), Some(2));
    assert_eq!(next_restart(2, 2).unwrap_err().kind, SupervisorErrorKind::RestartLimit);
    assert!(next_restart(0, 0).is_err());
}

#[test]
fn worker_errors_follow_work_outcomes() {
    let failure = extension_failure("com.example.a", "initialize extension", "The extension could not start.", "boom".to_owned());
    assert_eq!(failure.user_message(), "The extension could not start. Extension: com.example.a.");
    assert_eq!(failure.safe_context(), Some("com.example.a"));
    assert_eq!(failure.source_message(), Some("boom"));
    assert!(matches!(work_error_update("com.example.a", Ok(true)), ErrorUpdate::Clear));
    assert!(matches!(work_error_update("com.example.a", Ok(false)), ErrorUpdate::Keep));
    let error = nanika::supervisor::SupervisorError { kind: SupervisorErrorKind::Timeout, message: "query".to_owned() };
    match work_error_update("com.example.a", Err(error)) {
        ErrorUpdate::Report(d) => {
            assert_eq!(d.operation(), "run extension work");
            assert_eq!(d.user_message(), "The extension operation failed. Extension: com.example.a.");
        }
        _ => panic!("expected a report"),
    }
}

#[test]
fn prompt_wait_times_out_and_honours_cancellation() {
    let mut wait = PromptWait::new(1_000, 1_000_000_000);
    match wait.tick(1_000, false) {
        PromptTick::Poll { cancel, wait } => {
            assert!(!cancel);
            assert_eq!(wait, ACP_POLL_INTERVAL_NANOS);
        }
        other => panic!("expected a poll, got {other:?}"),
    }
    assert!(wait.on_reply(PromptReply::Silent).is_none());
    assert!(matches!(wait.on_reply(PromptReply::Completed), Some(Ok(()))));
    match wait.tick(1_000 + 1_000_000_000, false) {
        PromptTick::Expired(e) => assert_eq!(e.kind, SupervisorErrorKind::Timeout),
        other => panic!("expected expiry, got {other:?}"),
    }
    let mut cancelled = PromptWait::new(0, 1_000_000_000);
    match cancelled.tick(10, true) {
        PromptTick::Poll { cancel, .. } => assert!(cancel),
        other => panic!("expected a poll, got {other:?}"),
    }
    match cancelled.tick(20, true) {
        PromptTick::Poll { cancel, .. } => assert!(!cancel),
        other => panic!("expected a poll, got {other:?}"),
    }
    match cancelled.tick(10 + ACP_CANCEL_GRACE_NANOS - 5, false) {
        PromptTick::Poll { wait, .. } => assert_eq!(wait, 5),
        other => panic!("expected a poll, got {other:?}"),
    }
    match cancelled.on_reply(PromptReply::Completed) {
        Some(Err(e)) => assert_eq!(e.kind, SupervisorErrorKind::Cancelled),
        other => panic!("expected a cancellation, got {other:?}"),
    }
    match cancelled.tick(10 + ACP_CANCEL_GRACE_NANOS, false) {
        PromptTick::Expired(e) => assert_eq!(e.kind, SupervisorErrorKind::Cancelled),
        other => panic!("expected expiry, got {other:?}"),
    }
    let fresh = PromptWait::new(0, 10);
    match fresh.on_reply(PromptReply::Failed("agent error".to_owned())) {
        Some(Err(e)) => {
            assert_eq!(e.kind, SupervisorErrorKind::UnexpectedMessage);
            assert_eq!(e.message, "agent error");
        }
        other => panic!("expected a failure, got {other:?}"),
    }
    assert!(matches!(fresh.on_reply(PromptReply::Disconnected), Some(Err(e)) if e.kind == SupervisorErrorKind::ChannelClosed && e.message == "ACP prompt"));
}
