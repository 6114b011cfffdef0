use dactor::interceptor::SendMode;
use dactor::node::{ActorId, NodeId};
use dactor::proto::{
    decode_cancel_request, decode_cancel_response, decode_connect_peer, decode_disconnect_peer, decode_spawn_request,
    decode_spawn_response, decode_unwatch_request, decode_watch_notification, decode_watch_request, decode_wire_envelope,
    encode_cancel_request, encode_cancel_response, encode_connect_peer, encode_disconnect_peer, encode_spawn_request,
    encode_spawn_response, encode_unwatch_request, encode_watch_notification, encode_watch_request, encode_wire_envelope,
    MAX_SYSTEM_MSG_SIZE, MAX_WIRE_ENVELOPE_SIZE,
};
use dactor::remote::{WireEnvelope, WireHeaders};
use dactor::system_actors::{CancelRequest, CancelResponse, SpawnRequest, SpawnResponse, UnwatchRequest, WatchNotification, WatchRequest};

fn test_actor_id() -> ActorId {
    ActorId { node: NodeId("test-node".into()), local: 42 }
}

fn test_actor_id2() -> ActorId {
    ActorId { node: NodeId("other-node".into()), local: 7 }
}

#[test]
fn spawn_request_roundtrip() {
    let bytes = encode_spawn_request(SpawnRequest {
        actor_type: "myapp::Counter".into(),
        args_bytes: vec![1, 2, 3],
        name: "counter-1".into(),
        request_id: "req-001".into(),
    });
    let decoded = decode_spawn_request(&bytes).unwrap();
    assert_eq!(decoded.actor_type, "myapp::Counter");
    assert_eq!(decoded.args_bytes, vec![1, 2, 3]);
    assert_eq!(decoded.name, "counter-1");
    assert_eq!(decoded.request_id, "req-001");
}

#[test]
fn spawn_response_success_roundtrip() {
    let bytes = encode_spawn_response(SpawnResponse::Success { request_id: "req-001".into(), actor_id: test_actor_id() });
    match decode_spawn_response(&bytes).unwrap() {
        SpawnResponse::Success { request_id, actor_id } => {
            assert_eq!(request_id, "req-001");
            assert_eq!(actor_id.local, 42);
        }
        _ => panic!("expected Success"),
    }
}

#[test]
fn spawn_response_failure_roundtrip() {
    let bytes = encode_spawn_response(SpawnResponse::Failure { request_id: "req-002".into(), error: "type not found".into() });
    match decode_spawn_response(&bytes).unwrap() {
        SpawnResponse::Failure { request_id, error } => {
            assert_eq!(request_id, "req-002");
            assert_eq!(error, "type not found");
        }
        _ => panic!("expected Failure"),
    }
}

#[test]
fn watch_request_roundtrip() {
    let bytes = encode_watch_request(WatchRequest { target: test_actor_id(), watcher: test_actor_id2() });
    let decoded = decode_watch_request(&bytes).unwrap();
    assert_eq!(decoded.target.local, 42);
    assert_eq!(decoded.watcher.local, 7);
}

#[test]
fn unwatch_request_roundtrip() {
    let bytes = encode_unwatch_request(UnwatchRequest { target: test_actor_id(), watcher: test_actor_id2() });
    let decoded = decode_unwatch_request(&bytes).unwrap();
    assert_eq!(decoded.target.local, 42);
    assert_eq!(decoded.watcher.local, 7);
}

#[test]
fn watch_notification_roundtrip() {
    let bytes = encode_watch_notification(WatchNotification { terminated: test_actor_id(), watcher: test_actor_id2() });
    let decoded = decode_watch_notification(&bytes).unwrap();
    assert_eq!(decoded.terminated.local, 42);
    assert_eq!(decoded.watcher.local, 7);
}

#[test]
fn cancel_request_with_id_roundtrip() {
    let bytes = encode_cancel_request(CancelRequest { target: test_actor_id(), request_id: Some("req-cancel".into()) });
    let decoded = decode_cancel_request(&bytes).unwrap();
    assert_eq!(decoded.target.local, 42);
    assert_eq!(decoded.request_id.as_deref(), Some("req-cancel"));
}

#[test]
fn cancel_request_without_id_roundtrip() {
    let bytes = encode_cancel_request(CancelRequest { target: test_actor_id(), request_id: None });
    let decoded = decode_cancel_request(&bytes).unwrap();
    assert!(decoded.request_id.is_none());
}

#[test]
fn cancel_response_acknowledged_roundtrip() {
    let bytes = encode_cancel_response(CancelResponse::Acknowledged);
    let decoded = decode_cancel_response(&bytes).unwrap();
    assert!(matches!(decoded, CancelResponse::Acknowledged));
}

#[test]
fn cancel_response_not_found_roundtrip() {
    let bytes = encode_cancel_response(CancelResponse::NotFound { reason: "no such request".into() });
    match decode_cancel_response(&bytes).unwrap() {
        CancelResponse::NotFound { reason } => assert_eq!(reason, "no such request"),
        _ => panic!("expected NotFound"),
    }
}

#[test]
fn connect_peer_roundtrip() {
    let bytes = encode_connect_peer(&NodeId("peer-1".into()), Some("192.168.1.1:9000"));
    let (node_id, address) = decode_connect_peer(&bytes).unwrap();
    assert_eq!(node_id.0, "peer-1");
    assert_eq!(address.as_deref(), Some("192.168.1.1:9000"));
}

#[test]
fn connect_peer_no_address_roundtrip() {
    let bytes = encode_connect_peer(&NodeId("peer-2".into()), None);
    let (node_id, address) = decode_connect_peer(&bytes).unwrap();
    assert_eq!(node_id.0, "peer-2");
    assert!(address.is_none());
}

#[test]
fn disconnect_peer_roundtrip() {
    let bytes = encode_disconnect_peer(&NodeId("peer-3".into()));
    let node_id = decode_disconnect_peer(&bytes).unwrap();
    assert_eq!(node_id.0, "peer-3");
}

#[test]
fn wire_envelope_roundtrip() {
    let mut headers = WireHeaders::new();
    headers.insert("trace-id".into(), b"abc-123".to_vec());
    let original = WireEnvelope {
        target: test_actor_id(),
        target_name: "my-actor".into(),
        message_type: "myapp::Ping".into(),
        send_mode: SendMode::Ask,
        headers,
        body: vec![10, 20, 30],
        request_id: Some(uuid::Uuid::new_v4().as_u128()),
        version: Some(2),
    };
    let bytes = encode_wire_envelope(&original);
    let decoded = decode_wire_envelope(&bytes).unwrap();
    assert_eq!(decoded.target.local, original.target.local);
    assert_eq!(decoded.target_name, original.target_name);
    assert_eq!(decoded.message_type, original.message_type);
    assert_eq!(decoded.send_mode, SendMode::Ask);
    assert_eq!(decoded.body, original.body);
    assert_eq!(decoded.request_id, original.request_id);
    assert_eq!(decoded.version, Some(2));
    assert_eq!(decoded.headers.get("trace-id"), Some(b"abc-123".as_slice()));
}

#[test]
fn wire_envelope_minimal_roundtrip() {
    let original = WireEnvelope {
        target: test_actor_id(),
        target_name: String::new(),
        message_type: "myapp::Msg".into(),
        send_mode: SendMode::Tell,
        headers: WireHeaders::new(),
        body: vec![],
        request_id: None,
        version: None,
    };
    let bytes = encode_wire_envelope(&original);
    let decoded = decode_wire_envelope(&bytes).unwrap();
    assert_eq!(decoded.send_mode, SendMode::Tell);
    assert!(decoded.request_id.is_none());
    assert!(decoded.version.is_none());
}

#[test]
fn all_send_modes_roundtrip() {
    for mode in [SendMode::Tell, SendMode::Ask, SendMode::Stream, SendMode::Feed] {
        let env = WireEnvelope {
            target: test_actor_id(),
            target_name: String::new(),
            message_type: "test".into(),
            send_mode: mode,
            headers: WireHeaders::new(),
            body: vec![],
            request_id: None,
            version: None,
        };
        let decoded = decode_wire_envelope(&encode_wire_envelope(&env)).unwrap();
        assert_eq!(decoded.send_mode, mode);
    }
}

#[test]
fn decode_empty_bytes_returns_error() {
    assert!(decode_spawn_request(&[0xFF, 0xFF, 0xFF]).is_err());
    assert!(decode_watch_request(&[0xFF, 0xFF, 0xFF]).is_err());
    assert!(decode_cancel_request(&[0xFF, 0xFF, 0xFF]).is_err());
    assert!(decode_wire_envelope(&[0xFF, 0xFF, 0xFF]).is_err());
}

#[test]
fn protobuf_is_compact() {
    let proto_bytes = encode_spawn_request(SpawnRequest {
        actor_type: "myapp::Counter".into(),
        args_bytes: vec![1, 2, 3],
        name: "counter-1".into(),
        request_id: "req-001".into(),
    });
    assert!(proto_bytes.len() < 60, "protobuf should be compact, got {} bytes", proto_bytes.len());
}

#[test]
fn spawn_request_rejects_empty_type_name() {
    let bytes = encode_spawn_request(SpawnRequest {
        actor_type: String::new(),
        args_bytes: vec![],
        name: "x".into(),
        request_id: "r1".into(),
    });
    let err = decode_spawn_request(&bytes).unwrap_err();
    assert!(err.message.contains("type_name"), "error: {}", err.message);
}

#[test]
fn spawn_request_rejects_empty_request_id() {
    let bytes = encode_spawn_request(SpawnRequest {
        actor_type: "myapp::T".into(),
        args_bytes: vec![],
        name: "x".into(),
        request_id: String::new(),
    });
    let err = decode_spawn_request(&bytes).unwrap_err();
    assert!(err.message.contains("request_id"), "error: {}", err.message);
}

#[test]
fn connect_peer_rejects_empty_node_id() {
    let bytes = encode_connect_peer(&NodeId(String::new()), None);
    let err = decode_connect_peer(&bytes).unwrap_err();
    assert!(err.message.contains("node_id"), "error: {}", err.message);
}

#[test]
fn disconnect_peer_rejects_empty_node_id() {
    let bytes = encode_disconnect_peer(&NodeId(String::new()));
    let err = decode_disconnect_peer(&bytes).unwrap_err();
    assert!(err.message.contains("node_id"), "error: {}", err.message);
}

#[test]
fn actor_id_rejects_empty_node_id() {
    // A watch request whose target actor id has an empty node id.
    let bytes = encode_watch_request(WatchRequest {
        target: ActorId { node: NodeId(String::new()), local: 1 },
        watcher: ActorId { node: NodeId("ok".into()), local: 2 },
    });
    let err = decode_watch_request(&bytes).unwrap_err();
    assert!(err.message.contains("node_id"), "error: {}", err.message);
}

#[test]
fn decode_rejects_oversized_payload() {
    let huge = vec![0u8; MAX_SYSTEM_MSG_SIZE + 1];
    let err = decode_spawn_request(&huge).unwrap_err();
    assert!(err.message.contains("too large"), "error: {}", err.message);
}

#[test]
fn decode_wire_envelope_rejects_oversized_payload() {
    let huge = vec![0u8; MAX_WIRE_ENVELOPE_SIZE + 1];
    let err = decode_wire_envelope(&huge).unwrap_err();
    assert!(err.message.contains("too large"), "error: {}", err.message);
}

#[test]
fn wire_envelope_rejects_malformed_uuid() {
    // target (1) = actor id {node "n1", local 1}; message type (3) = "test";
    // request id (7) = "not-a-uuid".
    let mut bytes = vec![0x0a, 0x06, 0x0a, 0x02, b'n', b'1', 0x10, 0x01];
    bytes.extend_from_slice(&[0x1a, 0x04]);
    bytes.extend_from_slice(b"test");
    bytes.extend_from_slice(&[0x3a, 0x0a]);
    bytes.extend_from_slice(b"not-a-uuid");
    let err = decode_wire_envelope(&bytes).unwrap_err();
    assert!(err.message.contains("UUID"), "error: {}", err.message);
    let uuid_error = uuid::Uuid::parse_str("not-a-uuid").unwrap_err().to_string();
    assert_eq!(err.message, format!("invalid request_id UUID: {uuid_error}"));
}

#[test]
fn spawn_request_exact_bytes() {
    let bytes = encode_spawn_request(SpawnRequest {
        actor_type: "T".into(),
        args_bytes: vec![7],
        name: String::new(),
        request_id: "r".into(),
    });
    assert_eq!(bytes, vec![0x0a, 0x01, b'T', 0x12, 0x01, 7, 0x22, 0x01, b'r']);
}

#[test]
fn varint_lengths_above_127_roundtrip() {
    let args: Vec<u8> = (0..300u32).map(|i| (i % 251) as u8).collect();
    let bytes = encode_spawn_request(SpawnRequest {
        actor_type: "T".into(),
        args_bytes: args.clone(),
        name: "n".into(),
        request_id: "r".into(),
    });
    assert_eq!(&bytes[3..6], &[0x12, 0xac, 0x02]);
    assert_eq!(decode_spawn_request(&bytes).unwrap().args_bytes, args);
}

#[test]
fn decode_errors_have_exact_texts() {
    assert_eq!(decode_spawn_request(&[0xFF]).unwrap_err().message, "decode SpawnRequest: malformed protobuf data");
    assert_eq!(decode_spawn_response(&[]).unwrap_err().message, "SpawnResponse: missing oneof result");
    assert_eq!(decode_cancel_response(&[]).unwrap_err().message, "CancelResponse: missing oneof result");
    assert_eq!(decode_watch_request(&[]).unwrap_err().message, "missing required field: WatchRequest.target");
    let huge = vec![0u8; MAX_SYSTEM_MSG_SIZE + 1];
    assert_eq!(
        decode_cancel_request(&huge).unwrap_err().message,
        "CancelRequest: payload too large (1048577 bytes, max 1048576)"
    );
}

#[test]
fn unknown_send_mode_is_rejected() {
    // target (1) = actor id {node "n1"}; send mode (4) = 9.
    let bytes = vec![0x0a, 0x04, 0x0a, 0x02, b'n', b'1', 0x20, 0x09];
    assert_eq!(decode_wire_envelope(&bytes).unwrap_err().message, "unknown SendMode value: 9");
}

#[test]
fn unknown_fields_are_skipped_and_last_occurrence_wins() {
    // node id (1) = "a", unknown field 9 (varint 5), node id (1) = "b".
    let bytes = vec![0x0a, 0x01, b'a', 0x48, 0x05, 0x0a, 0x01, b'b'];
    let node = decode_disconnect_peer(&bytes).unwrap();
    assert_eq!(node.0, "b");
}

#[test]
fn wrong_wire_type_is_malformed() {
    // node id (1) sent as a varint.
    let bytes = vec![0x08, 0x01];
    assert_eq!(decode_disconnect_peer(&bytes).unwrap_err().message, "decode DisconnectPeer: malformed protobuf data");
}

#[test]
fn repeated_embedded_target_is_merged() {
    // target (1) = {node "n1", local 1}, then target (1) again = {local 2};
    // message type (3) = "test". The second target is merged into the first.
    let mut bytes = vec![0x0a, 0x06, 0x0a, 0x02, b'n', b'1', 0x10, 0x01];
    bytes.extend_from_slice(&[0x0a, 0x02, 0x10, 0x02]);
    bytes.extend_from_slice(&[0x1a, 0x04]);
    bytes.extend_from_slice(b"test");
    let env = decode_wire_envelope(&bytes).unwrap();
    assert_eq!(env.target.node.0, "n1");
    assert_eq!(env.target.local, 2);
    assert_eq!(env.message_type, "test");
}
