use dactor::assoc::KeyedMap;
use dactor::broadcast::{receipt_for, AskAttempt, BroadcastReceipt};
use dactor::errors::{ActorSendError, RuntimeError};
use dactor::interceptor::SendMode;
use dactor::node::{ActorId, NodeId};
use dactor::remote::{
    build_ask_envelope, build_tell_envelope, build_wire_envelope, receive_body_versioned, MessageVersionHandler,
    SerializationError, WireEnvelope, WireHeaders,
};
use dactor::remote_ref::{
    ask_serializer, remote_ask_result, remote_envelope, remote_feed_unsupported, remote_stream_unsupported,
    serialization_failure, tell_serializer, RemoteAskOutcome, SerializerSlot,
};

fn target() -> ActorId {
    ActorId { node: NodeId("node-2".into()), local: 9 }
}

#[test]
fn tell_uses_tell_then_ask_serializer() {
    assert_eq!(tell_serializer(true, true, "m::T", &target()).unwrap(), SerializerSlot::Tell);
    assert_eq!(tell_serializer(false, true, "m::T", &target()).unwrap(), SerializerSlot::Ask);
    let e = tell_serializer(false, false, "m::T", &target()).unwrap_err();
    assert_eq!(e.0, "message type 'm::T' not registered for remote send to Actor(node-2/9)");
}

#[test]
fn ask_needs_ask_registration() {
    assert!(ask_serializer(true, "m::Q", &target()).is_ok());
    let e = ask_serializer(false, "m::Q", &target()).unwrap_err();
    assert_eq!(e.0, "ask message type 'm::Q' not registered for remote send to Actor(node-2/9)");
}

#[test]
fn serialization_failure_text() {
    let e = serialization_failure(&SerializationError::new("bad"));
    assert_eq!(e.0, "serialization failed: bad");
}

#[test]
fn remote_envelopes() {
    let t = remote_envelope(&target(), "counter", "m::T".to_string(), vec![1], None);
    assert_eq!(t.send_mode, SendMode::Tell);
    assert_eq!(t.request_id, None);
    assert_eq!(t.target_name, "counter");
    let a = remote_envelope(&target(), "counter", "m::Q".to_string(), vec![2], Some(42));
    assert_eq!(a.send_mode, SendMode::Ask);
    assert_eq!(a.request_id, Some(42));
    assert_eq!(a.body, vec![2]);
    assert!(a.headers.is_empty());
}

#[test]
fn remote_ask_results() {
    assert!(matches!(remote_ask_result::<u32>(RemoteAskOutcome::Cancelled), Err(RuntimeError::Cancelled)));
    match remote_ask_result::<u32>(RemoteAskOutcome::TransportFailed("down".into())) {
        Err(RuntimeError::Send(e)) => assert_eq!(e.0, "remote ask failed: down"),
        other => panic!("unexpected {:?}", other),
    }
    match remote_ask_result::<u32>(RemoteAskOutcome::UndecodableReply(SerializationError::new("eof"))) {
        Err(RuntimeError::Send(e)) => assert_eq!(e.0, "reply deserialization failed: eof"),
        other => panic!("unexpected {:?}", other),
    }
    match remote_ask_result::<u32>(RemoteAskOutcome::WrongReplyType) {
        Err(RuntimeError::Send(e)) => assert_eq!(e.0, "reply type mismatch"),
        other => panic!("unexpected {:?}", other),
    }
    assert_eq!(remote_ask_result(RemoteAskOutcome::Reply(5u32)).unwrap(), 5);
}

#[test]
fn remote_stream_and_feed_not_implemented() {
    assert!(remote_stream_unsupported().0.contains("remote stream not yet implemented"));
    assert!(remote_feed_unsupported().0.contains("remote feed not yet implemented"));
}

#[test]
fn envelope_builders() {
    let t = build_tell_envelope(target(), "counter", "m::T", vec![1, 2], WireHeaders::new());
    assert_eq!(t.send_mode, SendMode::Tell);
    assert_eq!(t.message_type, "m::T");
    assert_eq!(t.request_id, None);
    let a = build_ask_envelope(target(), "counter", "m::Q", vec![], WireHeaders::new(), 77);
    assert_eq!(a.send_mode, SendMode::Ask);
    assert_eq!(a.request_id, Some(77));
    let s = build_wire_envelope(target(), "counter", "m::S", vec![3], SendMode::Stream, WireHeaders::new(), Some(1), Some(2));
    assert_eq!(s.send_mode, SendMode::Stream);
    assert_eq!(s.version, Some(2));
    assert_eq!(s.body, vec![3]);
}

struct Upgrade;

impl MessageVersionHandler for Upgrade {
    fn message_type(&self) -> &'static str {
        "m::T"
    }
    fn migrated(&self, payload: &[u8], from_version: u32, to_version: u32) -> Option<Vec<u8>> {
        self.migrate(payload, from_version, to_version)
    }
    fn migrate(&self, payload: &[u8], from_version: u32, to_version: u32) -> Option<Vec<u8>> {
        if from_version == 1 && to_version == 2 {
            let mut v = payload.to_vec();
            v.push(0xff);
            Some(v)
        } else {
            None
        }
    }
}

fn versioned(version: Option<u32>, message_type: &str) -> WireEnvelope {
    let mut e = build_tell_envelope(target(), "counter", message_type, vec![7], WireHeaders::new());
    e.version = version;
    e
}

#[test]
fn versioned_receive_migrates_or_refuses() {
    let mut handlers: KeyedMap<String, Box<dyn MessageVersionHandler>> = KeyedMap::new();
    handlers.insert("m::T".to_string(), Box::new(Upgrade));
    // Same version: body as is.
    assert_eq!(receive_body_versioned(&versioned(Some(2), "m::T"), &handlers, Some(2)).unwrap(), vec![7]);
    // Unknown version on either side: body as is.
    assert_eq!(receive_body_versioned(&versioned(None, "m::T"), &handlers, Some(2)).unwrap(), vec![7]);
    // Migrated.
    assert_eq!(receive_body_versioned(&versioned(Some(1), "m::T"), &handlers, Some(2)).unwrap(), vec![7, 0xff]);
    // Refused by the handler.
    let e = receive_body_versioned(&versioned(Some(3), "m::T"), &handlers, Some(2)).unwrap_err();
    assert_eq!(e.message, "m::T: cannot migrate from v3 to v2");
    // No handler for the type: body as is.
    assert_eq!(receive_body_versioned(&versioned(Some(1), "m::Other"), &handlers, Some(2)).unwrap(), vec![7]);
}

#[test]
fn broadcast_receipts() {
    let id = target();
    assert!(matches!(receipt_for::<u8>(id.clone(), AskAttempt::TimedOut), BroadcastReceipt::Timeout { .. }));
    assert!(matches!(
        receipt_for::<u8>(id.clone(), AskAttempt::SendFailed(ActorSendError("x".into()))),
        BroadcastReceipt::SendError { .. }
    ));
    assert!(matches!(receipt_for(id.clone(), AskAttempt::Answered(Ok(3u8))), BroadcastReceipt::Replied { reply: 3, .. }));
    assert!(matches!(
        receipt_for::<u8>(id, AskAttempt::Answered(Err(RuntimeError::Timeout))),
        BroadcastReceipt::ReplyError { error: RuntimeError::Timeout, .. }
    ));
}
