use dactor::batched_transport::{
    batch_wrapper, first_error, is_batch_envelope, BatchQueues, WireEnvelopeBatch, BATCH_MESSAGE_TYPE,
};
use dactor::interceptor::SendMode;
use dactor::node::{ActorId, NodeId};
use dactor::remote::{WireEnvelope, WireHeaders};
use dactor::stream::BatchConfig;
use std::time::Duration;

fn test_envelope(target_node: &str, local: u64, body: &[u8]) -> WireEnvelope {
    WireEnvelope {
        target: ActorId { node: NodeId(target_node.into()), local },
        target_name: "test".into(),
        message_type: "test::Msg".into(),
        send_mode: SendMode::Tell,
        headers: WireHeaders::new(),
        body: body.to_vec(),
        request_id: None,
        version: None,
    }
}

fn ask_envelope(target_node: &str) -> WireEnvelope {
    WireEnvelope {
        target: ActorId { node: NodeId(target_node.into()), local: 1 },
        target_name: "test".into(),
        message_type: "test::Ask".into(),
        send_mode: SendMode::Ask,
        headers: WireHeaders::new(),
        body: vec![],
        request_id: Some(7),
        version: None,
    }
}

#[test]
fn wire_envelope_batch_basics() {
    let batch = WireEnvelopeBatch::new(vec![test_envelope("n1", 1, b"hello"), test_envelope("n1", 2, b"world")]);
    assert_eq!(batch.len(), 2);
    assert!(!batch.is_empty());
    assert_eq!(batch.total_body_bytes(), 10);
}

#[test]
fn empty_batch() {
    let batch = WireEnvelopeBatch::new(vec![]);
    assert!(batch.is_empty());
    assert_eq!(batch.len(), 0);
}

#[test]
fn is_batch_envelope_check() {
    let batch_env = WireEnvelope {
        target: ActorId { node: NodeId("n".into()), local: 0 },
        target_name: String::new(),
        message_type: BATCH_MESSAGE_TYPE.to_string(),
        send_mode: SendMode::Tell,
        headers: WireHeaders::new(),
        body: vec![],
        request_id: None,
        version: None,
    };
    assert!(is_batch_envelope(&batch_env));
    assert!(!is_batch_envelope(&test_envelope("n", 1, b"x")));
}

#[test]
fn rejects_ask_envelopes() {
    let mut q = BatchQueues::new(BatchConfig::new(10, Duration::from_secs(60)));
    let err = q.queue(ask_envelope("node-2")).unwrap_err();
    assert!(err.to_string().contains("Tell"));
    assert_eq!(err.to_string(), "BatchedTransportSender only accepts Tell envelopes, got Ask");
    assert_eq!(q.buffered_count(), 0);
}

#[test]
fn flushes_on_max_items() {
    let mut q = BatchQueues::new(BatchConfig::new(3, Duration::from_secs(60)));
    assert!(q.queue(test_envelope("node-2", 1, b"a")).unwrap().is_none());
    assert!(q.queue(test_envelope("node-2", 2, b"b")).unwrap().is_none());
    assert_eq!(q.buffered_count(), 2);
    let (node, batch) = q.queue(test_envelope("node-2", 3, b"c")).unwrap().expect("batch");
    assert_eq!(q.buffered_count(), 0);
    assert_eq!(node.0, "node-2");
    let bodies: Vec<Vec<u8>> = batch.iter().map(|e| e.body.clone()).collect();
    assert_eq!(bodies, vec![b"a".to_vec(), b"b".to_vec(), b"c".to_vec()]);
    // The node keeps an empty queue after the automatic flush.
    assert_eq!(q.buffered_nodes(), 1);
    let wrapper = batch_wrapper(&node, vec![1, 2, 3]);
    assert!(is_batch_envelope(&wrapper));
    assert_eq!(wrapper.target.local, 0);
    assert_eq!(wrapper.send_mode, SendMode::Tell);
    assert_eq!(wrapper.body, vec![1, 2, 3]);
}

#[test]
fn flush_node_specific() {
    let mut q = BatchQueues::new(BatchConfig::new(100, Duration::from_secs(60)));
    q.queue(test_envelope("node-2", 1, b"a")).unwrap();
    q.queue(test_envelope("node-3", 1, b"b")).unwrap();
    let taken = q.take_node(&NodeId("node-2".into()));
    assert_eq!(taken.len(), 1);
    assert_eq!(q.buffered_count(), 1); // node-3 still buffered
}

#[test]
fn empty_flush_is_noop() {
    let mut q = BatchQueues::new(BatchConfig::new(10, Duration::from_secs(1)));
    assert!(q.drain_all().is_empty());
    assert!(q.take_node(&NodeId("x".into())).is_empty());
}

#[test]
fn drain_all_takes_every_node() {
    let mut q = BatchQueues::new(BatchConfig::new(100, Duration::from_secs(60)));
    q.queue(test_envelope("node-2", 1, b"a")).unwrap();
    q.queue(test_envelope("node-3", 1, b"b")).unwrap();
    q.queue(test_envelope("node-2", 2, b"c")).unwrap();
    let all = q.drain_all();
    assert_eq!(all.len(), 2);
    assert_eq!(all.iter().map(|(_, b)| b.len()).sum::<usize>(), 3);
    assert_eq!(q.buffered_count(), 0);
    assert_eq!(q.buffered_nodes(), 0);
}

#[test]
fn flush_all_reports_first_error() {
    let r: Result<(), String> = first_error(vec![Ok(()), Err("a".to_string()), Err("b".to_string())]);
    assert_eq!(r, Err("a".to_string()));
    let r: Result<(), String> = first_error(vec![Ok(()), Ok(())]);
    assert_eq!(r, Ok(()));
}
