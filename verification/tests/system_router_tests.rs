use dactor::node::{ActorId, NodeId};
use dactor::system_actors::{
    is_system_message_type, SYSTEM_MSG_TYPE_CANCEL, SYSTEM_MSG_TYPE_CONNECT_PEER, SYSTEM_MSG_TYPE_DISCONNECT_PEER,
    SYSTEM_MSG_TYPE_SPAWN, SYSTEM_MSG_TYPE_UNWATCH, SYSTEM_MSG_TYPE_WATCH,
};
use dactor::system_router::{validate_system_message_type, RoutingError, RoutingOutcome};

#[test]
fn is_system_message_type_recognizes_all_types() {
    assert!(is_system_message_type(SYSTEM_MSG_TYPE_SPAWN));
    assert!(is_system_message_type(SYSTEM_MSG_TYPE_WATCH));
    assert!(is_system_message_type(SYSTEM_MSG_TYPE_UNWATCH));
    assert!(is_system_message_type(SYSTEM_MSG_TYPE_CANCEL));
    assert!(is_system_message_type(SYSTEM_MSG_TYPE_CONNECT_PEER));
    assert!(is_system_message_type(SYSTEM_MSG_TYPE_DISCONNECT_PEER));
}

#[test]
fn is_system_message_type_rejects_unknown() {
    assert!(!is_system_message_type("myapp::Counter"));
    assert!(!is_system_message_type(""));
    assert!(!is_system_message_type("dactor::system_actors::Unknown"));
}

#[test]
fn validate_system_message_type_ok_for_known() {
    assert!(validate_system_message_type(SYSTEM_MSG_TYPE_SPAWN).is_ok());
    assert!(validate_system_message_type(SYSTEM_MSG_TYPE_CANCEL).is_ok());
}

#[test]
fn validate_system_message_type_err_for_unknown() {
    let err = validate_system_message_type("unknown::Type").unwrap_err();
    assert!(err.message.contains("unknown system message type"));
}

#[test]
fn routing_error_display() {
    let err = RoutingError::new("system actors not started");
    assert_eq!(err.to_string(), "routing error: system actors not started");
}

#[test]
fn routing_outcome_variants() {
    let spawn_ok = RoutingOutcome::SpawnCompleted {
        request_id: "r1".into(),
        actor_id: ActorId { node: NodeId("n1".into()), local: 42 },
    };
    assert!(matches!(spawn_ok, RoutingOutcome::SpawnCompleted { .. }));
    let spawn_fail = RoutingOutcome::SpawnFailed { request_id: "r1".into(), error: "type not found".into() };
    assert!(matches!(spawn_fail, RoutingOutcome::SpawnFailed { .. }));
    assert!(matches!(RoutingOutcome::Acknowledged, RoutingOutcome::Acknowledged));
    assert!(matches!(RoutingOutcome::CancelAcknowledged, RoutingOutcome::CancelAcknowledged));
    let not_found = RoutingOutcome::CancelNotFound { reason: "no such request".into() };
    assert!(matches!(not_found, RoutingOutcome::CancelNotFound { .. }));
}

#[test]
fn validate_error_names_the_type() {
    let err = validate_system_message_type("x::Y").unwrap_err();
    assert_eq!(err.message, "unknown system message type: x::Y");
}
