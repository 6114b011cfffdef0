use dactor::interceptor::SendMode;
use dactor::node::{ActorId, NodeId};
use dactor::remote::{
    migrated_body, needs_migration, ClusterState, DiscoveredPeer, DiscoveryError, PeerVersionInfo, SerializationError,
    StaticSeeds, WireEnvelope, WireHeaders,
};
use dactor::version::{WireVersion, DACTOR_WIRE_VERSION};

#[test]
fn test_wire_envelope_construction() {
    let envelope = WireEnvelope {
        target: ActorId { node: NodeId("node-1".into()), local: 42 },
        target_name: "test".into(),
        message_type: "my_crate::Increment".into(),
        send_mode: SendMode::Tell,
        headers: WireHeaders::new(),
        body: vec![1, 2, 3],
        request_id: None,
        version: Some(1),
    };
    assert_eq!(envelope.message_type, "my_crate::Increment");
    assert_eq!(envelope.body, vec![1, 2, 3]);
    assert_eq!(envelope.version, Some(1));
}

#[test]
fn test_wire_headers() {
    let mut headers = WireHeaders::new();
    assert!(headers.is_empty());
    headers.insert("trace-id".into(), b"abc-123".to_vec());
    headers.insert("priority".into(), vec![128]);
    assert_eq!(headers.len(), 2);
    assert_eq!(headers.get("trace-id").unwrap(), b"abc-123");
    assert_eq!(headers.get("priority").unwrap(), &[128]);
    assert!(headers.get("missing").is_none());
}

#[test]
fn test_serialization_error() {
    let err = SerializationError::new("invalid format");
    assert!(err.to_string().contains("invalid format"));
}

#[test]
fn test_cluster_state() {
    let mut state = ClusterState::new(
        NodeId("node-1".into()),
        vec![NodeId("node-1".into()), NodeId("node-2".into()), NodeId("node-3".into())],
    );
    state.is_leader = true;
    assert_eq!(state.node_count(), 3);
    assert!(state.contains(&NodeId("node-2".into())));
    assert!(!state.contains(&NodeId("node-99".into())));
    assert!(state.is_leader);
    assert!(state.app_version.is_none());
    assert_eq!(state.wire_version, WireVersion::parse(DACTOR_WIRE_VERSION).unwrap());
    assert!(state.peer_versions.is_empty());
}

#[test]
fn test_cluster_state_with_app_version() {
    let mut state = ClusterState::new(NodeId("node-1".into()), vec![NodeId("node-1".into()), NodeId("node-2".into())]);
    state.app_version = Some("2.3.1".into());
    assert_eq!(state.app_version.as_deref(), Some("2.3.1"));
}

#[test]
fn test_cluster_state_peer_versions() {
    let mut state = ClusterState::new(
        NodeId("node-1".into()),
        vec![NodeId("node-1".into()), NodeId("node-2".into()), NodeId("node-3".into())],
    );
    state.peer_versions.insert(
        NodeId("node-2".into()),
        PeerVersionInfo {
            wire_version: WireVersion::parse("0.2.0").unwrap(),
            app_version: Some("1.0.0".into()),
            adapter: "ractor".into(),
        },
    );
    state.peer_versions.insert(
        NodeId("node-3".into()),
        PeerVersionInfo {
            wire_version: WireVersion::parse("0.2.0").unwrap(),
            app_version: Some("1.0.1".into()),
            adapter: "ractor".into(),
        },
    );
    let p2 = state.peer_version(&NodeId("node-2".into())).unwrap();
    assert_eq!(p2.app_version.as_deref(), Some("1.0.0"));
    assert_eq!(p2.adapter, "ractor");
    let p3 = state.peer_version(&NodeId("node-3".into())).unwrap();
    assert_eq!(p3.app_version.as_deref(), Some("1.0.1"));
    assert!(state.peer_version(&NodeId("node-1".into())).is_none());
    assert!(state.peer_version(&NodeId("node-99".into())).is_none());
}

#[test]
fn test_cluster_state_mixed_app_versions() {
    let mut state = ClusterState::new(
        NodeId("node-1".into()),
        vec![NodeId("node-1".into()), NodeId("node-2".into()), NodeId("node-3".into())],
    );
    state.app_version = Some("2.3.1".into());
    state.peer_versions.insert(
        NodeId("node-2".into()),
        PeerVersionInfo {
            wire_version: WireVersion::parse("0.2.0").unwrap(),
            app_version: Some("2.3.0".into()),
            adapter: "ractor".into(),
        },
    );
    state.peer_versions.insert(
        NodeId("node-3".into()),
        PeerVersionInfo {
            wire_version: WireVersion::parse("0.2.0").unwrap(),
            app_version: Some("2.3.1".into()),
            adapter: "ractor".into(),
        },
    );
    let total = state.node_count();
    let on_latest = 1 + state
        .peer_versions
        .entries()
        .iter()
        .filter(|(_, p)| p.app_version.as_deref() == Some("2.3.1"))
        .count();
    assert_eq!(total, 3);
    assert_eq!(on_latest, 2);
}

#[test]
fn test_static_seeds() {
    let seeds = StaticSeeds::new(vec!["node1:4697".into(), "node2:4697".into()]);
    let discovered = seeds.discover();
    assert_eq!(discovered.len(), 2);
    assert_eq!(discovered[0].address, "node1:4697");
    assert_eq!(discovered[0].node_id, NodeId("node1:4697".into()));
}

#[test]
fn test_static_seeds_from_peers() {
    let seeds = StaticSeeds::from_peers(vec![
        DiscoveredPeer::new(NodeId("node-a".into()), "10.0.0.1:9000"),
        DiscoveredPeer::new(NodeId("node-b".into()), "10.0.0.2:9000"),
    ]);
    let discovered = seeds.discover();
    assert_eq!(discovered.len(), 2);
    assert_eq!(discovered[0].node_id, NodeId("node-a".into()));
    assert_eq!(discovered[0].address, "10.0.0.1:9000");
    assert_eq!(discovered[1].node_id, NodeId("node-b".into()));
}

#[test]
fn test_discovered_peer_from_address() {
    let peer = DiscoveredPeer::from_address("10.0.0.1:9000");
    assert_eq!(peer.node_id, NodeId("10.0.0.1:9000".into()));
    assert_eq!(peer.address, "10.0.0.1:9000");
}

#[test]
fn discovery_error_text() {
    assert_eq!(DiscoveryError::new("dns failed").to_string(), "dns failed");
}

#[test]
fn version_mismatch_decisions() {
    assert_eq!(needs_migration(Some(1), Some(2)), Some((1, 2)));
    assert_eq!(needs_migration(Some(2), Some(2)), None);
    assert_eq!(needs_migration(None, Some(2)), None);
    assert_eq!(needs_migration(Some(1), None), None);
}

#[test]
fn migrated_body_outcomes() {
    let body = vec![1u8, 2, 3];
    assert_eq!(migrated_body("t", &body, 1, 2, None).unwrap(), vec![1, 2, 3]);
    assert_eq!(migrated_body("t", &body, 1, 2, Some(Some(vec![9]))).unwrap(), vec![9]);
    let err = migrated_body("test::FailMigrate", &body, 1, 2, Some(None)).unwrap_err();
    assert_eq!(err.message, "test::FailMigrate: cannot migrate from v1 to v2");
}

#[test]
fn wire_headers_insert_replaces() {
    let mut headers = WireHeaders::new();
    headers.insert("k".into(), vec![1]);
    headers.insert("k".into(), vec![2]);
    assert_eq!(headers.len(), 1);
    assert_eq!(headers.get("k").unwrap(), &[2]);
}

#[test]
fn test_header_registry_missing_deserializer() {
    let registry: dactor::remote::HeaderRegistry<fn(&[u8]) -> Option<String>> = dactor::remote::HeaderRegistry::new();
    assert!(registry.deserialize("unknown", &[]).is_none());
}

fn utf8_header(bytes: &[u8]) -> Option<String> {
    String::from_utf8(bytes.to_vec()).ok()
}

#[test]
fn header_registry_deserializes_registered_names() {
    let mut registry: dactor::remote::HeaderRegistry<fn(&[u8]) -> Option<String>> = dactor::remote::HeaderRegistry::new();
    assert!(registry.is_empty());
    registry.register("trace-id", utf8_header);
    assert_eq!(registry.len(), 1);
    assert!(!registry.is_empty());
    assert_eq!(registry.deserialize("trace-id", b"abc-123"), Some("abc-123".to_string()));
    assert_eq!(registry.deserialize("trace-id", &[0xff]), None);
    assert_eq!(registry.deserialize("other", b"abc"), None);
}

#[test]
fn to_headers_keeps_registered_values_in_order() {
    let mut registry: dactor::remote::HeaderRegistry<fn(&[u8]) -> Option<String>> = dactor::remote::HeaderRegistry::new();
    registry.register("trace-id", utf8_header);
    registry.register("tenant", utf8_header);
    let mut headers = WireHeaders::new();
    headers.insert("trace-id".to_string(), b"t-1".to_vec());
    headers.insert("unknown".to_string(), b"zzz".to_vec());
    headers.insert("tenant".to_string(), vec![0xff]);
    let values = headers.to_headers(&registry);
    assert_eq!(values, vec!["t-1".to_string()]);
    headers.insert("tenant".to_string(), b"acme".to_vec());
    assert_eq!(headers.to_headers(&registry), vec!["t-1".to_string(), "acme".to_string()]);
    assert!(WireHeaders::new().to_headers(&registry).is_empty());
}

#[derive(Debug, Clone, PartialEq)]
struct TraceId(String);

fn trace_id_header(bytes: &[u8]) -> Option<TraceId> {
    let s = String::from_utf8(bytes.to_vec()).ok()?;
    Some(TraceId(s))
}

#[test]
fn test_header_registry_roundtrip() {
    // Set up header registry
    let mut registry: dactor::remote::HeaderRegistry<fn(&[u8]) -> Option<TraceId>> = dactor::remote::HeaderRegistry::new();
    registry.register("trace-id", trace_id_header);

    assert_eq!(registry.len(), 1);
    assert!(!registry.is_empty());

    // The wire form of one trace-id header
    let mut wire = WireHeaders::new();
    wire.insert("trace-id".to_string(), b"abc-123".to_vec());

    assert_eq!(wire.len(), 1);
    assert_eq!(wire.get("trace-id").unwrap(), b"abc-123");

    // Convert wire back to typed headers via registry
    let restored = wire.to_headers(&registry);
    let trace = restored.first().unwrap();
    assert_eq!(trace.0, "abc-123");
}
