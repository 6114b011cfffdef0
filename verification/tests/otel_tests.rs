use dactor::actor::ActorError;
use dactor::interceptor::{Disposition, InboundContext, InboundInterceptor, OutboundContext, OutboundInterceptor, Outcome, SendMode};
use dactor::node::{ActorId, NodeId};
use dactor::otel::OtelInterceptor;

fn test_inbound_ctx() -> InboundContext<'static> {
    InboundContext {
        actor_id: ActorId { node: NodeId("n1".into()), local: 1 },
        actor_name: "counter",
        message_type: "test::Increment",
        send_mode: SendMode::Tell,
        remote: false,
        origin_node: None,
    }
}

fn test_outbound_ctx() -> OutboundContext<'static> {
    OutboundContext {
        target_id: ActorId { node: NodeId("n2".into()), local: 2 },
        target_name: "worker",
        message_type: "test::Task",
        send_mode: SendMode::Ask,
        remote: true,
    }
}

#[test]
fn inbound_on_receive_returns_continue() {
    let mut otel = OtelInterceptor::new();
    let ctx = test_inbound_ctx();
    let result = otel.on_receive(&ctx);
    assert!(matches!(result, Disposition::Continue));
    assert_eq!(otel.traced_count(), 1);
}

#[test]
fn inbound_on_complete_success() {
    let mut otel = OtelInterceptor::new();
    let ctx = test_inbound_ctx();
    otel.on_complete(&ctx, &Outcome::TellSuccess);
}

#[test]
fn inbound_on_complete_error() {
    let mut otel = OtelInterceptor::new();
    let ctx = test_inbound_ctx();
    otel.on_complete(&ctx, &Outcome::HandlerError { error: ActorError::internal("fail") });
}

#[test]
fn outbound_on_send_returns_continue() {
    let mut otel = OtelInterceptor::new();
    let ctx = test_outbound_ctx();
    let result = otel.on_send(&ctx);
    assert!(matches!(result, Disposition::Continue));
    assert_eq!(otel.traced_count(), 1);
}

#[test]
fn outbound_on_reply_success() {
    let mut otel = OtelInterceptor::new();
    let ctx = test_outbound_ctx();
    otel.on_reply(&ctx, &Outcome::AskSuccess);
}

#[test]
fn traced_count_accumulates() {
    let mut otel = OtelInterceptor::new();
    let ctx = test_inbound_ctx();
    otel.on_receive(&ctx);
    otel.on_receive(&ctx);
    otel.on_receive(&ctx);
    assert_eq!(otel.traced_count(), 3);
}

#[test]
fn default_and_name() {
    let otel = OtelInterceptor::default();
    assert_eq!(otel.traced_count(), 0);
    assert_eq!(InboundInterceptor::name(&otel), "otel");
    assert_eq!(OutboundInterceptor::name(&otel), "otel");
}

#[test]
fn outcome_status_mapping() {
    assert_eq!(OtelInterceptor::outcome_status(&Outcome::TellSuccess), "OK");
    assert_eq!(OtelInterceptor::outcome_status(&Outcome::AskSuccess), "OK");
    assert_eq!(OtelInterceptor::outcome_status(&Outcome::HandlerError { error: ActorError::internal("x") }), "ERROR");
    assert_eq!(OtelInterceptor::outcome_status(&Outcome::StreamCompleted { items_emitted: 5 }), "OK");
    assert_eq!(OtelInterceptor::outcome_status(&Outcome::StreamCancelled { items_emitted: 3 }), "ERROR");
}

#[test]
fn send_mode_names() {
    assert_eq!(OtelInterceptor::send_mode_str(SendMode::Tell), "tell");
    assert_eq!(OtelInterceptor::send_mode_str(SendMode::Ask), "ask");
    assert_eq!(OtelInterceptor::send_mode_str(SendMode::Stream), "stream");
    assert_eq!(OtelInterceptor::send_mode_str(SendMode::Feed), "feed");
}
