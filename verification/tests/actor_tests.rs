use dactor::actor::{Actor, ActorError, SpawnConfig};
use dactor::errors::{ErrorAction, ErrorCode, NotSupportedError, RuntimeError};
use dactor::node::{ActorId, NodeId};

struct Counter {
    count: u64,
}

impl Actor for Counter {
    type Args = Self;
    type Deps = ();

    fn create(args: Self, _deps: ()) -> Self {
        args
    }
}

struct WorkerArgs {
    name: String,
}

struct WorkerDeps {
    multiplier: u64,
}

struct Worker {
    name: String,
    multiplier: u64,
}

impl Actor for Worker {
    type Args = WorkerArgs;
    type Deps = WorkerDeps;

    fn create(args: WorkerArgs, deps: WorkerDeps) -> Self {
        Worker { name: args.name, multiplier: deps.multiplier }
    }
}

#[test]
fn test_counter_actor_compiles() {
    let counter = Counter::create(Counter { count: 0 }, ());
    assert_eq!(counter.count, 0);
}

#[test]
fn test_actor_default_on_error_returns_stop() {
    let mut counter = Counter { count: 0 };
    let action = counter.on_error(&ActorError::internal("test error"));
    assert_eq!(action, ErrorAction::Stop);
}

#[test]
fn test_worker_actor_with_deps() {
    let worker = Worker::create(WorkerArgs { name: "w1".into() }, WorkerDeps { multiplier: 10 });
    assert_eq!(worker.name, "w1");
    assert_eq!(worker.multiplier, 10);
}

#[test]
fn test_actor_id_display() {
    let id = ActorId { node: NodeId("node-1".into()), local: 42 };
    assert_eq!(id.to_string(), "Actor(node-1/42)");
}

#[test]
fn test_actor_id_equality() {
    let id1 = ActorId { node: NodeId("n1".into()), local: 1 };
    let id2 = ActorId { node: NodeId("n1".into()), local: 1 };
    let id3 = ActorId { node: NodeId("n1".into()), local: 2 };
    assert_eq!(id1, id2);
    assert_ne!(id1, id3);
    assert!(id1.same_as(&id2));
    assert!(!id1.same_as(&id3));
}

#[test]
fn test_actor_id_clone() {
    let id = ActorId { node: NodeId("n1".into()), local: 1 };
    let cloned = id.clone();
    assert_eq!(id, cloned);
}

#[test]
fn test_error_action_variants() {
    assert_eq!(ErrorAction::Resume, ErrorAction::Resume);
    assert_eq!(ErrorAction::Restart, ErrorAction::Restart);
    assert_eq!(ErrorAction::Stop, ErrorAction::Stop);
    assert_eq!(ErrorAction::Escalate, ErrorAction::Escalate);
    assert_ne!(ErrorAction::Resume, ErrorAction::Stop);
}

#[test]
fn test_spawn_config_default() {
    let config = SpawnConfig::default();
    assert!(config.target_node.is_none());
}

#[test]
fn test_spawn_config_with_target_node() {
    let config = SpawnConfig { target_node: Some(NodeId("node-3".into())), ..Default::default() };
    assert_eq!(config.target_node.unwrap().0, "node-3");
}

#[test]
fn test_actor_error_construction() {
    let err = ActorError::new(ErrorCode::InvalidArgument, "bad input");
    assert_eq!(err.code, ErrorCode::InvalidArgument);
    assert_eq!(err.message, "bad input");
    assert!(err.details.is_none());
    assert!(err.cause.is_none());
}

#[test]
fn test_actor_error_with_details() {
    let err = ActorError::new(ErrorCode::NotFound, "user not found").with_details("user_id=42");
    assert_eq!(err.details.as_deref(), Some("user_id=42"));
}

#[test]
fn test_actor_error_chain() {
    let root = ActorError::new(ErrorCode::Unavailable, "db connection failed");
    let err = ActorError::new(ErrorCode::Internal, "query failed").with_cause(root);
    assert!(err.cause.is_some());
    assert_eq!(err.cause.as_ref().unwrap().code, ErrorCode::Unavailable);
}

#[test]
fn test_actor_error_display() {
    let err = ActorError::new(ErrorCode::Internal, "something broke").with_details("stack: foo.rs:42");
    let display = err.to_string();
    assert!(display.contains("Internal"));
    assert!(display.contains("something broke"));
    assert!(display.contains("stack: foo.rs:42"));
}

#[test]
fn test_actor_error_display_with_chain() {
    let root = ActorError::new(ErrorCode::Unavailable, "db down");
    let err = ActorError::new(ErrorCode::Internal, "query failed").with_cause(root);
    let display = err.to_string();
    assert!(display.contains("caused by"));
    assert!(display.contains("db down"));
}

#[test]
fn test_error_code_variants() {
    let codes = vec![
        ErrorCode::Internal,
        ErrorCode::InvalidArgument,
        ErrorCode::NotFound,
        ErrorCode::Unavailable,
        ErrorCode::Timeout,
        ErrorCode::PermissionDenied,
        ErrorCode::FailedPrecondition,
        ErrorCode::ResourceExhausted,
        ErrorCode::Unimplemented,
        ErrorCode::Unknown,
        ErrorCode::Cancelled,
    ];
    assert_eq!(codes.len(), 11);
    for (i, a) in codes.iter().enumerate() {
        for (j, b) in codes.iter().enumerate() {
            if i != j {
                assert_ne!(a, b);
            }
        }
    }
}

#[test]
fn test_actor_error_internal_helper() {
    let err = ActorError::internal("oops");
    assert_eq!(err.code, ErrorCode::Internal);
    assert_eq!(err.message, "oops");
}

#[test]
fn test_not_supported_error() {
    let err = NotSupportedError {
        capability: "BoundedMailbox".into(),
        message: "ractor does not support bounded mailboxes".into(),
    };
    assert!(err.to_string().contains("BoundedMailbox"));
}

#[test]
fn test_runtime_error_not_supported() {
    let err = RuntimeError::NotSupported(NotSupportedError {
        capability: "PriorityMailbox".into(),
        message: "not available".into(),
    });
    assert!(err.to_string().contains("PriorityMailbox"));
}

#[test]
fn actor_error_display_exact_text() {
    let err = ActorError::new(ErrorCode::NotFound, "missing");
    assert_eq!(err.to_string(), "[NotFound] missing");
}
