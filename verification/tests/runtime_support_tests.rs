use dactor::interceptor::{Disposition, OutboundContext, OutboundInterceptor, Outcome, SendMode};
use dactor::node::{ActorId, NodeId};
use dactor::runtime_support::{InterceptResult, ItemAction, OutboundPipeline};
use std::time::Duration;

/// Answers `on_send` and `on_stream_item` with fixed decisions and counts calls.
struct Fixed {
    name: &'static str,
    on_send: fn() -> Disposition,
    on_item: fn(u64) -> Disposition,
    sends: u32,
    replies: u32,
}

impl OutboundInterceptor for Fixed {
    fn label(&self) -> &'static str {
        self.name
    }
    fn send_decision(&self, _ctx: &OutboundContext<'_>) -> Disposition {
        (self.on_send)()
    }
    fn stream_decision(&self, _ctx: &OutboundContext<'_>, seq: u64) -> Disposition {
        (self.on_item)(seq)
    }
    fn replied(&self, _ctx: &OutboundContext<'_>, _outcome: &Outcome) -> bool {
        self.replies > 0
    }
    fn name(&self) -> &'static str {
        self.name
    }
    fn on_send(&mut self, _ctx: &OutboundContext<'_>) -> Disposition {
        self.sends += 1;
        (self.on_send)()
    }
    fn on_reply(&mut self, _ctx: &OutboundContext<'_>, _outcome: &Outcome) {
        self.replies += 1;
    }
    fn on_stream_item(&mut self, _ctx: &OutboundContext<'_>, seq: u64) -> Disposition {
        (self.on_item)(seq)
    }
}

fn cont() -> Disposition {
    Disposition::Continue
}
fn drop_it() -> Disposition {
    Disposition::Drop
}
fn reject() -> Disposition {
    Disposition::Reject("no".into())
}
fn cont_item(_: u64) -> Disposition {
    Disposition::Continue
}
fn odd_dropped(seq: u64) -> Disposition {
    if seq % 2 == 1 {
        Disposition::Drop
    } else {
        Disposition::Continue
    }
}

fn fixed(name: &'static str, on_send: fn() -> Disposition, on_item: fn(u64) -> Disposition) -> Box<dyn OutboundInterceptor> {
    Box::new(Fixed { name, on_send, on_item, sends: 0, replies: 0 })
}

fn pipeline(interceptors: Vec<Box<dyn OutboundInterceptor>>) -> OutboundPipeline {
    OutboundPipeline {
        interceptors,
        target_id: ActorId { node: NodeId("n1".into()), local: 3 },
        target_name: "worker".into(),
    }
}

#[test]
fn empty_pipeline_continues() {
    let mut p = pipeline(vec![]);
    let (r, notice) = p.run_on_send(SendMode::Tell, "Msg");
    assert!(r.is_continue());
    assert_eq!(r.interceptor_name, "");
    assert!(notice.is_none());
}

#[test]
fn first_non_continue_wins_and_drop_is_reported() {
    let mut p = pipeline(vec![fixed("a", cont, cont_item), fixed("b", drop_it, cont_item), fixed("c", reject, cont_item)]);
    let (r, notice) = p.run_on_send(SendMode::Ask, "Msg");
    assert!(matches!(r.disposition, Disposition::Drop));
    assert_eq!(r.interceptor_name, "b");
    let n = notice.expect("drop notice");
    assert_eq!(n.target_name, "worker");
    assert_eq!(n.message_type, "Msg");
    assert_eq!(n.interceptor_name, "b");
    assert_eq!(n.send_mode, SendMode::Ask);
    assert_eq!(n.context, "outbound on_send");
    assert_eq!(n.seq, None);
}

#[test]
fn reject_is_not_reported_as_drop() {
    let mut p = pipeline(vec![fixed("a", reject, cont_item)]);
    let (r, notice) = p.run_on_send(SendMode::Tell, "Msg");
    assert!(matches!(r.disposition, Disposition::Reject(_)));
    assert_eq!(r.interceptor_name, "a");
    assert!(notice.is_none());
}

#[test]
fn on_reply_reaches_every_interceptor() {
    let mut p = pipeline(vec![fixed("a", cont, cont_item), fixed("b", cont, cont_item)]);
    p.run_on_reply("Msg", &Outcome::AskSuccess);
    assert_eq!(p.interceptors.len(), 2);
    let ctx = OutboundContext {
        target_id: ActorId { node: NodeId("n1".into()), local: 3 },
        target_name: "worker",
        message_type: "Msg",
        send_mode: SendMode::Ask,
        remote: false,
    };
    assert!(p.interceptors[0].replied(&ctx, &Outcome::AskSuccess));
    assert!(p.interceptors[1].replied(&ctx, &Outcome::AskSuccess));
}

#[test]
fn stream_item_decided_by_first_stopping_interceptor() {
    let mut p = pipeline(vec![fixed("pass", cont, cont_item), fixed("odd", cont, odd_dropped), fixed("never", cont, |_| Disposition::Reject("late".into()))]);
    let r = p.intercept_stream_item(SendMode::Stream, "Item", 3);
    assert!(matches!(r.disposition, Disposition::Drop));
    assert_eq!(r.interceptor_name, "odd");
    let mut q = pipeline(vec![fixed("pass", cont, cont_item), fixed("odd", cont, odd_dropped)]);
    let r = q.intercept_stream_item(SendMode::Stream, "Item", 2);
    assert!(r.is_continue());
    assert_eq!(r.interceptor_name, "");
}

#[test]
fn later_send_decision_not_reached_after_reject() {
    let mut p = pipeline(vec![fixed("first", reject, cont_item), fixed("second", drop_it, cont_item)]);
    let (r, notice) = p.run_on_send(SendMode::Tell, "Msg");
    assert!(matches!(r.disposition, Disposition::Reject(ref why) if why == "no"));
    assert_eq!(r.interceptor_name, "first");
    assert!(notice.is_none());
}

#[test]
fn item_actions_follow_dispositions() {
    let p = pipeline(vec![]);
    let a = p.item_action(InterceptResult::continued(), SendMode::Feed, "Item", "feed item", 0);
    assert!(matches!(a, ItemAction::Forward));
    let r = InterceptResult { disposition: Disposition::Delay(Duration::from_millis(3)), interceptor_name: "x" };
    assert!(matches!(p.item_action(r, SendMode::Feed, "Item", "feed item", 1), ItemAction::ForwardAfter(d) if d == Duration::from_millis(3)));
    let r = InterceptResult { disposition: Disposition::Reject("x".into()), interceptor_name: "x" };
    assert!(matches!(p.item_action(r, SendMode::Feed, "Item", "feed item", 2), ItemAction::Stop));
    let r = InterceptResult { disposition: Disposition::Retry(Duration::from_millis(1)), interceptor_name: "x" };
    match p.item_action(r, SendMode::Stream, "Item", "stream reply", 7) {
        ItemAction::Skip(n) => {
            assert_eq!(n.seq, Some(7));
            assert_eq!(n.context, "stream reply");
            assert_eq!(n.interceptor_name, "x");
            assert_eq!(n.target_name, "worker");
            assert_eq!(n.send_mode, SendMode::Stream);
        }
        other => panic!("unexpected {:?}", other),
    }
}

#[test]
fn drain_skips_dropped_items() {
    let mut p = pipeline(vec![fixed("odd", cont, odd_dropped)]);
    let mut forwarded = Vec::new();
    let mut dropped = Vec::new();
    for seq in 0..6u64 {
        match p.next_item_action(SendMode::Feed, "Item", "feed item", seq) {
            ItemAction::Forward => forwarded.push(seq),
            ItemAction::Skip(n) => dropped.push(n.seq.unwrap()),
            other => panic!("unexpected {:?}", other),
        }
    }
    assert_eq!(forwarded, vec![0, 2, 4]);
    assert_eq!(dropped, vec![1, 3, 5]);
}

#[test]
fn drain_step_numbers_items() {
    let mut p = pipeline(vec![fixed("odd", cont, odd_dropped)]);
    let mut seq: u64 = 0;
    assert!(matches!(p.next_item_step(SendMode::Stream, "Item", "stream reply", &mut seq), ItemAction::Forward));
    assert_eq!(seq, 1);
    match p.next_item_step(SendMode::Stream, "Item", "stream reply", &mut seq) {
        ItemAction::Skip(n) => assert_eq!(n.seq, Some(1)),
        other => panic!("unexpected {:?}", other),
    }
    assert_eq!(seq, 2);
}
