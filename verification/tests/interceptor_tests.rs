use dactor::actor::ActorError;
use dactor::interceptor::{Disposition, InboundContext, InboundInterceptor, Outcome, SendMode};
use dactor::node::{ActorId, NodeId};
use std::time::Duration;

struct NoopInterceptor;

impl InboundInterceptor for NoopInterceptor {
    fn name(&self) -> &'static str {
        "noop"
    }
}

#[test]
fn test_noop_interceptor_defaults() {
    let mut interceptor = NoopInterceptor;
    assert_eq!(interceptor.name(), "noop");
    let ctx = InboundContext {
        actor_id: ActorId { node: NodeId("n1".into()), local: 1 },
        actor_name: "test",
        message_type: "TestMsg",
        send_mode: SendMode::Tell,
        remote: false,
        origin_node: None,
    };
    let disposition = interceptor.on_receive(&ctx);
    assert!(matches!(disposition, Disposition::Continue));
}

#[test]
fn test_send_mode_variants() {
    assert_eq!(SendMode::Tell, SendMode::Tell);
    assert_ne!(SendMode::Tell, SendMode::Ask);
    assert_ne!(SendMode::Stream, SendMode::Feed);
}

#[test]
fn test_disposition_variants() {
    let _ = Disposition::Continue;
    let _ = Disposition::Delay(Duration::from_millis(100));
    let _ = Disposition::Drop;
    let _ = Disposition::Reject("forbidden".into());
}

#[test]
fn test_outcome_variants() {
    let _ = Outcome::TellSuccess;
    let _ = Outcome::AskSuccess;
    let _ = Outcome::HandlerError { error: ActorError::internal("test") };
    let _ = Outcome::StreamCompleted { items_emitted: 10 };
    let _ = Outcome::StreamCancelled { items_emitted: 5 };
}

#[test]
fn outcome_handler_error_is_recognised() {
    assert!(Outcome::HandlerError { error: ActorError::internal("x") }.is_handler_error());
    assert!(!Outcome::TellSuccess.is_handler_error());
    assert!(!Outcome::StreamCancelled { items_emitted: 1 }.is_handler_error());
}
