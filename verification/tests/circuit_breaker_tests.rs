use dactor::actor::ActorError;
use dactor::circuit_breaker::{CircuitBreakerInterceptor, CircuitState};
use dactor::interceptor::{Disposition, InboundContext, InboundInterceptor, Outcome, SendMode};
use dactor::node::{ActorId, NodeId};
use std::time::Duration;

fn make_actor_id(local: u64) -> ActorId {
    ActorId { node: NodeId("test-node".into()), local }
}

fn make_ctx<'a>(actor_id: &'a ActorId, name: &'a str) -> InboundContext<'a> {
    InboundContext {
        actor_id: actor_id.clone(),
        actor_name: name,
        message_type: "TestMsg",
        send_mode: SendMode::Tell,
        remote: false,
        origin_node: None,
    }
}

fn send_error(cb: &mut CircuitBreakerInterceptor, actor_id: &ActorId, name: &str) -> Disposition {
    let ctx = make_ctx(actor_id, name);
    let d = cb.on_receive(&ctx);
    if matches!(d, Disposition::Continue) {
        cb.on_complete(&ctx, &Outcome::HandlerError { error: ActorError::internal("boom") });
    }
    d
}

fn send_success(cb: &mut CircuitBreakerInterceptor, actor_id: &ActorId, name: &str) -> Disposition {
    let ctx = make_ctx(actor_id, name);
    let d = cb.on_receive(&ctx);
    if matches!(d, Disposition::Continue) {
        cb.on_complete(&ctx, &Outcome::TellSuccess);
    }
    d
}

#[test]
fn messages_flow_normally_under_threshold() {
    let mut cb = CircuitBreakerInterceptor::new(5, Duration::from_secs(60), Duration::from_secs(30));
    let id = make_actor_id(1);
    for _ in 0..4 {
        let d = send_error(&mut cb, &id, "actor-a");
        assert!(matches!(d, Disposition::Continue));
    }
    assert_eq!(cb.state_for(&id), CircuitState::Closed);
    let d = send_success(&mut cb, &id, "actor-a");
    assert!(matches!(d, Disposition::Continue));
    assert_eq!(cb.state_for(&id), CircuitState::Closed);
}

#[test]
fn circuit_opens_after_n_errors() {
    let mut cb = CircuitBreakerInterceptor::new(3, Duration::from_secs(60), Duration::from_secs(30));
    let id = make_actor_id(1);
    for _ in 0..3 {
        send_error(&mut cb, &id, "actor-a");
    }
    assert_eq!(cb.state_for(&id), CircuitState::Open);
}

#[test]
fn messages_rejected_when_circuit_is_open() {
    let mut cb = CircuitBreakerInterceptor::new(2, Duration::from_secs(60), Duration::from_secs(30));
    let id = make_actor_id(1);
    for _ in 0..2 {
        send_error(&mut cb, &id, "actor-a");
    }
    assert_eq!(cb.state_for(&id), CircuitState::Open);
    let ctx = make_ctx(&id, "actor-a");
    match cb.on_receive(&ctx) {
        Disposition::Reject(reason) => {
            assert!(reason.contains("circuit breaker open"));
            assert!(reason.contains("actor-a"));
        }
        other => panic!("expected Reject, got {:?}", other),
    }
}

#[test]
fn independent_per_actor_state() {
    let mut cb = CircuitBreakerInterceptor::new(2, Duration::from_secs(60), Duration::from_secs(30));
    let id1 = make_actor_id(1);
    let id2 = make_actor_id(2);
    for _ in 0..2 {
        send_error(&mut cb, &id1, "actor-1");
    }
    assert_eq!(cb.state_for(&id1), CircuitState::Open);
    assert_eq!(cb.state_for(&id2), CircuitState::Closed);
    let d = send_success(&mut cb, &id2, "actor-2");
    assert!(matches!(d, Disposition::Continue));
}

#[test]
fn explicit_clock_cooldown_probe_and_reopen() {
    let mut cb = CircuitBreakerInterceptor::new(2, Duration::from_secs(60), Duration::from_millis(1));
    let id = make_actor_id(1);
    let ms = 1_000_000u64;
    for t in 0..2u64 {
        assert!(matches!(cb.on_receive_at(&id, "a", t * ms), Disposition::Continue));
        cb.on_complete_at(&id, true, t * ms);
    }
    assert_eq!(cb.state_for(&id), CircuitState::Open);
    // Before the cooldown has passed: rejected, exact text.
    match cb.on_receive_at(&id, "a", ms) {
        Disposition::Reject(reason) => assert_eq!(reason, "circuit breaker open: a"),
        other => panic!("expected Reject, got {:?}", other),
    }
    // After the cooldown: one probe passes, a second is rejected.
    assert!(matches!(cb.on_receive_at(&id, "a", 3 * ms), Disposition::Continue));
    assert_eq!(cb.state_for(&id), CircuitState::HalfOpen);
    assert!(matches!(cb.on_receive_at(&id, "a", 3 * ms), Disposition::Reject(_)));
    // The probe fails: open again.
    cb.on_complete_at(&id, true, 3 * ms);
    assert_eq!(cb.state_for(&id), CircuitState::Open);
    // Next probe succeeds: closed.
    assert!(matches!(cb.on_receive_at(&id, "a", 10 * ms), Disposition::Continue));
    cb.on_complete_at(&id, false, 10 * ms);
    assert_eq!(cb.state_for(&id), CircuitState::Closed);
}

#[test]
fn explicit_clock_old_errors_are_pruned() {
    let mut cb = CircuitBreakerInterceptor::new(3, Duration::from_millis(1), Duration::from_secs(30));
    let id = make_actor_id(1);
    cb.on_complete_at(&id, true, 0);
    cb.on_complete_at(&id, true, 100);
    cb.on_complete_at(&id, true, 5_000_000);
    assert_eq!(cb.state_for(&id), CircuitState::Closed);
}
