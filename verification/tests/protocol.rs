use nanika::protocol_steps::{
    action_reply_step, query_reply_step, wait_step, ProtocolReply, ReplyStep, WaitStep,
    REPLY_POLL_INTERVAL_NANOS,
};
use nanika::supervisor::SupervisorErrorKind;

fn snapshot(id: &str, generation: u64, complete: bool) -> ProtocolReply {
    ProtocolReply::Snapshot { request_id: id.to_owned(), generation, complete }
}

#[test]
fn waits_poll_until_the_deadline() {
    assert_eq!(wait_step(0, 100_000_000, true), WaitStep::Cancel);
    assert_eq!(wait_step(100, 100, false), WaitStep::Expired);
    assert_eq!(wait_step(0, 100_000_000, false), WaitStep::Poll(REPLY_POLL_INTERVAL_NANOS));
    assert_eq!(wait_step(90, 100, false), WaitStep::Poll(10));
}

#[test]
fn query_replies_are_routed_by_request_and_generation() {
    assert!(matches!(query_reply_step("q1", 4, Some(&snapshot("q1", 4, false))), ReplyStep::Publish { complete: false }));
    assert!(matches!(query_reply_step("q1", 4, Some(&snapshot("q1", 4, true))), ReplyStep::Publish { complete: true }));
    assert!(matches!(query_reply_step("q1", 4, Some(&snapshot("q1", 3, true))), ReplyStep::Ignore));
    assert!(matches!(query_reply_step("q1", 4, Some(&snapshot("q2", 4, true))), ReplyStep::Ignore));
    assert!(matches!(query_reply_step("q1", 4, None), ReplyStep::Closed));
    assert!(matches!(query_reply_step("q1", 4, Some(&ProtocolReply::Other)), ReplyStep::Ignore));
    let error = ProtocolReply::Error { request_id: None, code: "E1".to_owned(), message: "broken".to_owned() };
    match query_reply_step("q1", 4, Some(&error)) {
        ReplyStep::Fail(e) => {
            assert_eq!(e.kind, SupervisorErrorKind::UnexpectedMessage);
            assert_eq!(e.message, "extension query failed with E1: broken");
        }
        other => panic!("expected a failure, got {other:?}"),
    }
    let other_error = ProtocolReply::Error { request_id: Some("q9".to_owned()), code: "E1".to_owned(), message: "x".to_owned() };
    assert!(matches!(query_reply_step("q1", 4, Some(&other_error)), ReplyStep::Ignore));
}

#[test]
fn action_replies_are_routed_by_request_and_generation() {
    let done = ProtocolReply::Result { request_id: "a1".to_owned(), generation: 2 };
    assert!(matches!(action_reply_step("a1", 2, Some(&done)), ReplyStep::Done));
    assert!(matches!(action_reply_step("a1", 3, Some(&done)), ReplyStep::Ignore));
    assert!(matches!(action_reply_step("a1", 2, Some(&snapshot("a1", 2, true))), ReplyStep::Ignore));
    let error = ProtocolReply::Error { request_id: Some("a1".to_owned()), code: "7".to_owned(), message: "denied".to_owned() };
    match action_reply_step("a1", 2, Some(&error)) {
        ReplyStep::Fail(e) => assert_eq!(e.message, "extension action failed with 7: denied"),
        other => panic!("expected a failure, got {other:?}"),
    }
    assert!(matches!(action_reply_step("a1", 2, None), ReplyStep::Closed));
}
