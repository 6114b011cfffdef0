use dactor::interceptor::SendMode;
use dactor::message::Priority;
use dactor::node::{ActorId, NodeId};
use dactor::outbound_queue::OutboundPriorityQueue;
use dactor::remote::{WireEnvelope, WireHeaders};

fn envelope_with_priority(priority: u8) -> WireEnvelope {
    let mut headers = WireHeaders::new();
    headers.insert("dactor.Priority".to_string(), vec![priority]);
    WireEnvelope {
        target: ActorId { node: NodeId("n1".into()), local: 1 },
        target_name: "test".into(),
        message_type: "test::Msg".into(),
        send_mode: SendMode::Tell,
        headers,
        body: vec![priority],
        request_id: None,
        version: None,
    }
}

fn envelope_no_priority() -> WireEnvelope {
    WireEnvelope {
        target: ActorId { node: NodeId("n1".into()), local: 1 },
        target_name: "test".into(),
        message_type: "test::Msg".into(),
        send_mode: SendMode::Tell,
        headers: WireHeaders::new(),
        body: vec![],
        request_id: None,
        version: None,
    }
}

#[test]
fn empty_queue() {
    let mut q = OutboundPriorityQueue::new();
    assert!(q.is_empty());
    assert_eq!(q.len(), 0);
    assert!(q.pop().is_none());
    assert!(q.peek().is_none());
}

#[test]
fn priority_ordering() {
    let mut q = OutboundPriorityQueue::new();
    q.push(envelope_with_priority(Priority::BACKGROUND)).unwrap();
    q.push(envelope_with_priority(Priority::LOW)).unwrap();
    q.push(envelope_with_priority(Priority::NORMAL)).unwrap();
    q.push(envelope_with_priority(Priority::HIGH)).unwrap();
    q.push(envelope_with_priority(Priority::CRITICAL)).unwrap();
    assert_eq!(q.len(), 5);
    assert_eq!(q.pop().unwrap().body, vec![Priority::CRITICAL]);
    assert_eq!(q.pop().unwrap().body, vec![Priority::HIGH]);
    assert_eq!(q.pop().unwrap().body, vec![Priority::NORMAL]);
    assert_eq!(q.pop().unwrap().body, vec![Priority::LOW]);
    assert_eq!(q.pop().unwrap().body, vec![Priority::BACKGROUND]);
    assert!(q.is_empty());
}

#[test]
fn fifo_within_same_priority() {
    let mut q = OutboundPriorityQueue::new();
    for b in 1..=3u8 {
        let mut e = envelope_with_priority(Priority::NORMAL);
        e.body = vec![b];
        q.push(e).unwrap();
    }
    assert_eq!(q.pop().unwrap().body, vec![1]);
    assert_eq!(q.pop().unwrap().body, vec![2]);
    assert_eq!(q.pop().unwrap().body, vec![3]);
}

#[test]
fn no_priority_header_defaults_to_normal() {
    let mut q = OutboundPriorityQueue::new();
    q.push(envelope_no_priority()).unwrap();
    let counts = q.lane_counts();
    assert_eq!(counts[2], 1);
    assert_eq!(counts[0], 0);
}

#[test]
fn peek_returns_highest_priority() {
    let mut q = OutboundPriorityQueue::new();
    q.push(envelope_with_priority(Priority::LOW)).unwrap();
    q.push(envelope_with_priority(Priority::CRITICAL)).unwrap();
    assert_eq!(q.peek().unwrap().body, vec![Priority::CRITICAL]);
    assert_eq!(q.len(), 2);
}

#[test]
fn drain_ordered_returns_all_by_priority() {
    let mut q = OutboundPriorityQueue::new();
    q.push(envelope_with_priority(Priority::LOW)).unwrap();
    q.push(envelope_with_priority(Priority::CRITICAL)).unwrap();
    q.push(envelope_with_priority(Priority::NORMAL)).unwrap();
    let drained = q.drain_ordered();
    assert_eq!(drained.len(), 3);
    assert_eq!(drained[0].body, vec![Priority::CRITICAL]);
    assert_eq!(drained[1].body, vec![Priority::NORMAL]);
    assert_eq!(drained[2].body, vec![Priority::LOW]);
    assert!(q.is_empty());
}

#[test]
fn lane_counts_per_lane() {
    let mut q = OutboundPriorityQueue::new();
    for p in [Priority::CRITICAL, Priority::CRITICAL, Priority::HIGH, Priority::NORMAL, Priority::LOW, Priority::BACKGROUND] {
        q.push(envelope_with_priority(p)).unwrap();
    }
    assert_eq!(q.lane_counts(), [2, 1, 1, 1, 1]);
}

#[test]
fn clear_empties_all_lanes() {
    let mut q = OutboundPriorityQueue::new();
    q.push(envelope_with_priority(Priority::CRITICAL)).unwrap();
    q.push(envelope_with_priority(Priority::HIGH)).unwrap();
    q.clear();
    assert!(q.is_empty());
    assert_eq!(q.lane_counts(), [0, 0, 0, 0, 0]);
}

#[test]
fn lane_boundary_values() {
    let mut q = OutboundPriorityQueue::new();
    for p in [63u8, 64, 127, 128, 191, 192, 254, 255] {
        q.push(envelope_with_priority(p)).unwrap();
    }
    assert_eq!(q.lane_counts(), [1, 2, 2, 2, 1]);
}

#[test]
fn capacity_rejects_when_full() {
    let mut q = OutboundPriorityQueue::with_config(3, 0);
    for _ in 0..3 {
        q.push(envelope_with_priority(Priority::NORMAL)).unwrap();
    }
    let result = q.push(envelope_with_priority(Priority::CRITICAL));
    assert_eq!(result.unwrap_err().body, vec![Priority::CRITICAL]);
    assert_eq!(q.len(), 3);
}

#[test]
fn fairness_prevents_starvation() {
    let mut q = OutboundPriorityQueue::with_config(0, 2);
    for _ in 0..5 {
        q.push(envelope_with_priority(Priority::CRITICAL)).unwrap();
    }
    for _ in 0..3 {
        q.push(envelope_with_priority(Priority::NORMAL)).unwrap();
    }
    assert_eq!(q.pop().unwrap().body, vec![Priority::CRITICAL]);
    assert_eq!(q.pop().unwrap().body, vec![Priority::CRITICAL]);
    assert_eq!(q.pop().unwrap().body, vec![Priority::NORMAL]);
}

#[test]
fn empty_priority_header_value_is_normal() {
    let mut q = OutboundPriorityQueue::new();
    let mut e = envelope_no_priority();
    e.headers.insert("dactor.Priority".to_string(), vec![]);
    q.push(e).unwrap();
    assert_eq!(q.lane_counts(), [0, 0, 1, 0, 0]);
}
