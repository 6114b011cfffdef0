use dactor::dead_letter::{CollectingDeadLetterHandler, DeadLetterEvent, DeadLetterHandler, DeadLetterReason};
use dactor::interceptor::SendMode;
use dactor::node::{ActorId, NodeId};

#[test]
fn test_dead_letter_reason_display() {
    assert_eq!(DeadLetterReason::ActorStopped.to_string(), "actor stopped");
    assert_eq!(DeadLetterReason::MailboxFull.to_string(), "mailbox full");
    assert_eq!(
        DeadLetterReason::DroppedByInterceptor { interceptor: "auth".into() }.to_string(),
        "dropped by interceptor 'auth'"
    );
}

#[test]
fn test_collecting_handler() {
    let mut handler = CollectingDeadLetterHandler::new();
    handler.on_dead_letter(DeadLetterEvent {
        target_id: ActorId { node: NodeId("n1".into()), local: 1 },
        target_name: Some("actor-1".into()),
        message_type: "Increment",
        send_mode: SendMode::Tell,
        reason: DeadLetterReason::ActorStopped,
    });
    handler.on_dead_letter(DeadLetterEvent {
        target_id: ActorId { node: NodeId("n1".into()), local: 2 },
        target_name: Some("actor-2".into()),
        message_type: "GetCount",
        send_mode: SendMode::Ask,
        reason: DeadLetterReason::MailboxFull,
    });
    assert_eq!(handler.count(), 2);
    let events = handler.events();
    assert_eq!(events[0].message_type, "Increment");
    assert_eq!(events[1].reason.to_string(), "mailbox full");
    handler.clear();
    assert_eq!(handler.count(), 0);
}

#[test]
fn test_dead_letter_with_message_body() {
    let mut handler = CollectingDeadLetterHandler::new();
    handler.on_dead_letter(DeadLetterEvent {
        target_id: ActorId { node: NodeId("n1".into()), local: 1 },
        target_name: None,
        message_type: "MyMsg",
        send_mode: SendMode::Tell,
        reason: DeadLetterReason::ActorNotFound,
    });
    assert_eq!(handler.count(), 1);
}

#[test]
fn collecting_handler_keeps_order_and_fields() {
    let mut handler = CollectingDeadLetterHandler::new();
    handler.on_dead_letter(DeadLetterEvent {
        target_id: ActorId { node: NodeId("n9".into()), local: 7 },
        target_name: None,
        message_type: "A",
        send_mode: SendMode::Feed,
        reason: DeadLetterReason::DroppedByInterceptor { interceptor: "x".into() },
    });
    let events = handler.events();
    assert_eq!(events.len(), 1);
    assert_eq!(events[0].target_id, ActorId { node: NodeId("n9".into()), local: 7 });
    assert_eq!(events[0].send_mode, SendMode::Feed);
    assert_eq!(events[0].reason.to_string(), "dropped by interceptor 'x'");
}
