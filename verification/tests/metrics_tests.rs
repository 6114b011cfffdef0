use dactor::actor::ActorError;
use dactor::interceptor::{Disposition, InboundContext, InboundInterceptor, Outcome, SendMode};
use dactor::metrics::{ActorMetricsHandle, LatencyStats, MetricsInterceptor, MetricsRegistry};
use dactor::node::{ActorId, NodeId};
use std::time::Duration;

/// Use a large window so all events stay visible during fast tests.
fn test_window() -> Duration {
    Duration::from_secs(60)
}

fn test_bucket() -> Duration {
    Duration::from_secs(1)
}

fn make_id(local: u64) -> ActorId {
    ActorId { node: NodeId("n1".into()), local }
}

fn by_type(h: &ActorMetricsHandle, ty: &str) -> Option<u64> {
    h.summary().messages_by_type.get(&ty.to_string()).copied()
}

fn ms(n: u64) -> u64 {
    n * 1_000_000
}

#[test]
fn test_handle_counts() {
    let mut h = ActorMetricsHandle::new(test_window(), test_bucket());
    h.record_message("Increment");
    h.record_message("Increment");
    h.record_message("GetCount");
    assert_eq!(h.message_count(), 3);
    let snap = h.summary();
    assert_eq!(snap.message_count, 3);
    assert_eq!(by_type(&h, "Increment"), Some(2));
    assert_eq!(by_type(&h, "GetCount"), Some(1));
}

#[test]
fn test_handle_errors() {
    let mut h = ActorMetricsHandle::new(test_window(), test_bucket());
    h.record_message("Msg");
    h.record_error();
    assert_eq!(h.error_count(), 1);
    assert_eq!(h.message_count(), 1);
}

#[test]
fn test_handle_latencies() {
    let mut h = ActorMetricsHandle::new(test_window(), test_bucket());
    h.record_latency(Duration::from_millis(10));
    h.record_latency(Duration::from_millis(20));
    h.record_latency(Duration::from_millis(30));
    let snap = h.summary();
    assert_eq!(snap.latency.avg.unwrap(), ms(20));
    assert_eq!(snap.latency.max.unwrap(), ms(30));
}

#[test]
fn test_handle_rates() {
    let mut h = ActorMetricsHandle::new(test_window(), test_bucket());
    h.record_message("A");
    h.record_message("A");
    h.record_error();
    let snap = h.summary();
    let secs = test_window().as_secs_f64();
    // 2 messages in a 60s window → ~0.033 msg/s
    assert!(snap.windowed_messages as f64 / secs > 0.0);
    assert!(snap.windowed_errors as f64 / secs > 0.0);
}

#[test]
fn test_registry_per_actor() {
    let mut registry = MetricsRegistry::new(test_window(), test_bucket());
    let id1 = make_id(1);
    let id2 = make_id(2);

    registry.register(id1.clone());
    registry.register(id2.clone());

    assert!(registry.record_message(&id1, "A"));
    assert!(registry.record_message(&id1, "B"));
    assert!(registry.record_message(&id2, "A"));

    assert_eq!(registry.get(&id1).unwrap().message_count(), 2);
    assert_eq!(registry.get(&id2).unwrap().message_count(), 1);
    assert_eq!(registry.total_messages(), 3);
    assert_eq!(registry.actor_count(), 2);
}

#[test]
fn test_registry_errors() {
    let mut registry = MetricsRegistry::new(test_window(), test_bucket());
    let id = make_id(1);
    registry.register(id.clone());

    registry.record_message(&id, "Msg");
    registry.record_error(&id);
    assert_eq!(registry.get(&id).unwrap().error_count(), 1);
    assert_eq!(registry.total_errors(), 1);
}

#[test]
fn test_registry_empty() {
    let registry = MetricsRegistry::new(test_window(), test_bucket());
    assert!(registry.get(&make_id(999)).is_none());
    assert_eq!(registry.total_messages(), 0);
    assert_eq!(registry.actor_count(), 0);
}

#[test]
fn test_metrics_interceptor_name() {
    let handle = ActorMetricsHandle::new(test_window(), test_bucket());
    let interceptor = MetricsInterceptor::new(handle);
    assert_eq!(interceptor.name(), "metrics");
}

#[test]
fn test_p99_latency() {
    let mut h = ActorMetricsHandle::new(test_window(), test_bucket());
    for i in 1..=100 {
        h.record_latency(Duration::from_millis(i));
    }
    let snap = h.summary();
    assert!(snap.latency.p99.unwrap() >= ms(99));
}

#[test]
fn test_runtime_metrics_snapshot_includes_rates() {
    let mut registry = MetricsRegistry::new(test_window(), test_bucket());
    let id = make_id(1);
    registry.register(id.clone());

    registry.record_message(&id, "A");
    registry.record_message(&id, "B");

    let (windowed_messages, windowed_errors) = registry.windowed_totals();
    let secs = test_window().as_secs_f64();
    assert_eq!(registry.actor_count(), 1);
    assert_eq!(registry.total_messages(), 2);
    assert_eq!(registry.total_errors(), 0);
    assert_eq!(registry.window_nanos(), 60_000_000_000);
    assert!(windowed_messages as f64 / secs > 0.0);
    assert_eq!(windowed_errors as f64 / secs, 0.0);
}

#[test]
fn test_default_registry() {
    let registry = MetricsRegistry::default();
    assert_eq!(registry.total_messages(), 0);
    assert_eq!(registry.window_nanos(), 60_000_000_000);
}

#[test]
fn test_shared_handle_for_pool() {
    let mut registry = MetricsRegistry::new(test_window(), test_bucket());
    let mut handle = registry.create_handle();
    let pool_id = make_id(100);

    // Multiple "workers" record on the same handle
    handle.record_message("A");
    handle.record_message("B");
    handle.record_message("A");

    // Register under the pool's ActorId
    registry.register_handle(pool_id.clone(), handle);

    let handle = registry.get(&pool_id).unwrap();
    assert_eq!(handle.message_count(), 3);
    assert_eq!(registry.total_messages(), 3);
    assert_eq!(registry.actor_count(), 1);
    assert_eq!(by_type(handle, "A"), Some(2));
    assert_eq!(by_type(handle, "B"), Some(1));
}

#[test]
fn test_unregister() {
    let mut registry = MetricsRegistry::new(test_window(), test_bucket());
    let id = make_id(1);
    registry.register(id.clone());
    registry.record_message(&id, "A");

    assert_eq!(registry.actor_count(), 1);
    registry.unregister(&id);
    assert_eq!(registry.actor_count(), 0);
    assert!(registry.get(&id).is_none());
}

// --- bucket and window behaviour at given times ---

#[test]
fn buckets_open_and_expire_with_time() {
    let mut h = ActorMetricsHandle::new(Duration::from_secs(10), Duration::from_secs(1));
    let s = 1_000_000_000u64;
    h.record_message_at("A", 0);
    h.record_message_at("A", s / 2);
    h.record_message_at("B", 3 * s);
    assert_eq!(h.windowed_counts_at(3 * s), (3, 0));
    // At 12 s the first bucket (started at 0) is outside the 10 s window.
    assert_eq!(h.windowed_counts_at(12 * s), (1, 0));
    let by = h.messages_by_type_at(12 * s);
    assert_eq!(by.get(&"A".to_string()), None);
    assert_eq!(by.get(&"B".to_string()), Some(&1));
    // Recording at 20 s evicts both old buckets.
    h.record_error_at(20 * s);
    assert_eq!(h.windowed_counts_at(20 * s), (0, 1));
    assert_eq!(h.message_count(), 3);
    assert_eq!(h.error_count(), 1);
}

#[test]
fn latencies_within_window_only() {
    let mut h = ActorMetricsHandle::new(Duration::from_secs(10), Duration::from_secs(1));
    let s = 1_000_000_000u64;
    h.record_latency_at(5, 0);
    h.record_latency_at(7, 2 * s);
    assert_eq!(h.latencies_at(2 * s), vec![5, 7]);
    assert_eq!(h.latencies_at(11 * s), vec![7]);
}

#[test]
fn latency_summary_exact_values() {
    let empty: Vec<u64> = vec![];
    assert_eq!(
        dactor::metrics::summarize_latencies(&empty),
        LatencyStats { avg: None, max: None, p99: None }
    );
    let v: Vec<u64> = vec![30, 10, 20];
    assert_eq!(
        dactor::metrics::summarize_latencies(&v),
        LatencyStats { avg: Some(20), max: Some(30), p99: Some(30) }
    );
    let v: Vec<u64> = (1..=200).rev().collect();
    let st = dactor::metrics::summarize_latencies(&v);
    // ceil(0.99 * 200) = 198, so the 198th smallest value.
    assert_eq!(st.p99, Some(198));
    assert_eq!(st.max, Some(200));
    assert_eq!(st.avg, Some(100));
}

#[test]
fn interceptor_counts_messages_and_errors() {
    let id = make_id(7);
    let ctx = InboundContext {
        actor_id: id.clone(),
        actor_name: "a",
        message_type: "Ping",
        send_mode: SendMode::Tell,
        remote: false,
        origin_node: None,
    };
    let mut i = MetricsInterceptor::new(ActorMetricsHandle::new(test_window(), test_bucket()));
    assert!(matches!(i.on_receive(&ctx), Disposition::Continue));
    i.on_complete(&ctx, &Outcome::TellSuccess);
    assert!(matches!(i.on_receive(&ctx), Disposition::Continue));
    i.on_complete(&ctx, &Outcome::HandlerError { error: ActorError::internal("boom") });
    assert_eq!(i.handle().message_count(), 2);
    assert_eq!(i.handle().error_count(), 1);
    assert_eq!(by_type(i.handle(), "Ping"), Some(2));
    assert_eq!(i.handle().summary().latency.max.is_some(), true);
}

#[test]
fn registry_records_only_registered_actors() {
    let mut registry = MetricsRegistry::new(test_window(), test_bucket());
    let id = make_id(1);
    assert!(!registry.record_message(&id, "A"));
    assert!(!registry.record_error(&id));
    assert!(!registry.record_latency(&id, Duration::from_millis(1)));
    registry.register(id.clone());
    assert!(registry.record_latency(&id, Duration::from_millis(1)));
    assert_eq!(registry.total_messages(), 0);
}

#[test]
fn reregistering_replaces_handle_in_totals() {
    let mut registry = MetricsRegistry::new(test_window(), test_bucket());
    let a = make_id(1);
    let b = make_id(2);
    registry.register(a.clone());
    registry.register(b.clone());
    registry.record_message(&a, "X");
    registry.record_message(&b, "X");
    registry.record_message(&b, "Y");
    assert_eq!(registry.total_messages(), 3);
    let mut fresh = registry.create_handle();
    fresh.record_message("Z");
    fresh.record_message("Z");
    fresh.record_message("Z");
    fresh.record_message("Z");
    registry.register_handle(a.clone(), fresh);
    assert_eq!(registry.actor_count(), 2);
    assert_eq!(registry.total_messages(), 6);
    registry.unregister(&b);
    assert_eq!(registry.total_messages(), 4);
    assert_eq!(registry.entry_list().len(), 1);
}
