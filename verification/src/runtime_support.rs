//! Shared runtime helpers: the outbound interceptor pipeline and the
//! per-item decisions of stream and feed drains.
//!
//! A drain reads items one at a time, asks the pipeline about each and then
//! forwards it, forwards it after a delay, skips it (reporting a drop), or
//! stops. The reading, sleeping and sending are the runtime's; what to do
//! with each item is decided here.

use vstd::prelude::*;
use vstd::string::*;
use crate::interceptor::{Disposition, OutboundContext, OutboundInterceptor, Outcome, SendMode};
use crate::node::ActorId;

verus! {

/// The outcome of running an interceptor chain: the first decision that was
/// not `Continue`, and the name of the interceptor that made it.
#[derive(Debug)]
pub struct InterceptResult {
    /// The decision.
    pub disposition: Disposition,
    /// The interceptor that made it (empty when every interceptor continued).
    pub interceptor_name: &'static str,
}

impl InterceptResult {
    /// Every interceptor let the message continue.
    pub fn continued() -> (r: Self)
        ensures
            r.disposition is Continue,
            r.interceptor_name@ == ""@,
    {
        InterceptResult { disposition: Disposition::Continue, interceptor_name: "" }
    }

    /// Whether the message may continue.
    pub fn is_continue(&self) -> (r: bool)
        ensures
            r == (self.disposition is Continue),
    {
        match self.disposition {
            Disposition::Continue => true,
            _ => false,
        }
    }
}

/// Report of a message or stream item that an interceptor dropped.
#[derive(Debug)]
pub struct DropNotice {
    /// The target actor's name.
    pub target_name: String,
    /// The message type.
    pub message_type: &'static str,
    /// The interceptor that dropped it.
    pub interceptor_name: &'static str,
    /// How the message was sent.
    pub send_mode: SendMode,
    /// Where the drop happened.
    pub context: &'static str,
    /// The item's sequence number, for stream and feed items.
    pub seq: Option<u64>,
}

/// What a drain does with one item.
#[derive(Debug)]
pub enum ItemAction {
    /// Send the item on.
    Forward,
    /// Wait for the duration, then send the item on.
    ForwardAfter(std::time::Duration),
    /// Leave the item out and report the drop.
    Skip(DropNotice),
    /// End the drain.
    Stop,
}

/// Index of the first decision that is not `Continue` (the length when all
/// continue).
pub open spec fn first_stop(ds: Seq<Disposition>) -> int
    decreases ds.len(),
{
    if ds.len() == 0 {
        0
    } else if !(ds[0] is Continue) {
        0
    } else {
        1 + first_stop(ds.drop_first())
    }
}

/// With every decision before `i` continuing and the one at `i` (if any)
/// not, the first stop is at `i`.
proof fn lemma_first_stop(ds: Seq<Disposition>, i: int)
    requires
        0 <= i <= ds.len(),
        forall|k: int| 0 <= k < i ==> ds[k] is Continue,
        i < ds.len() ==> !(ds[i] is Continue),
    ensures
        first_stop(ds) == i,
    decreases i,
{
    if i > 0 {
        let t = ds.drop_first();
        assert forall|k: int| 0 <= k < i - 1 implies t[k] is Continue by {
            assert(t[k] == ds[k + 1]);
        }
        if i - 1 < t.len() {
            assert(t[i - 1] == ds[i]);
        }
        lemma_first_stop(t, i - 1);
    }
}

/// What each interceptor decides, in order, on `on_send` in context `c`.
pub open spec fn send_decisions(ics: Seq<Box<dyn OutboundInterceptor>>, c: OutboundContext) -> Seq<Disposition> {
    Seq::new(ics.len(), |k: int| ics[k].send_decision(&c))
}

/// What each interceptor decides, in order, on item `seq` in context `c`.
pub open spec fn stream_decisions(ics: Seq<Box<dyn OutboundInterceptor>>, c: OutboundContext, seq: u64) -> Seq<Disposition> {
    Seq::new(ics.len(), |k: int| ics[k].stream_decision(&c, seq))
}

/// `r` is the outcome of a chain whose decisions are `ds`: the first
/// decision that is not `Continue`, with the name of the interceptor that
/// made it, or `Continue` with no name when all continue.
pub open spec fn chain_outcome(r: InterceptResult, ds: Seq<Disposition>, ics: Seq<Box<dyn OutboundInterceptor>>) -> bool {
    let j = first_stop(ds);
    if j < ds.len() {
        r.disposition == ds[j] && r.interceptor_name == ics[j].label()
    } else {
        r.disposition is Continue && r.interceptor_name@ == ""@
    }
}

/// The context a pipeline hands its interceptors: its target, the message
/// type and send mode, local.
pub open spec fn pipeline_context(c: OutboundContext, target_id: ActorId, target_name: Seq<char>, send_mode: SendMode, message_type: &'static str) -> bool {
    &&& c.target_id == target_id
    &&& c.target_name@ == target_name
    &&& c.message_type == message_type
    &&& c.send_mode == send_mode
    &&& !c.remote
}

/// The interceptors after the one that stopped the chain were not consulted.
pub open spec fn untouched_after(
    before: Seq<Box<dyn OutboundInterceptor>>,
    after: Seq<Box<dyn OutboundInterceptor>>,
    ds: Seq<Disposition>,
) -> bool {
    forall|k: int| first_stop(ds) < k < before.len() ==> after[k] == before[k]
}

/// `r` is what a chain of interceptors `before` (afterwards `after`) gives
/// item `seq` sent to the target with the message type and send mode: each
/// interceptor in order sees the pipeline's context, the first that does not
/// let the item continue decides, and those after it are not consulted.
pub open spec fn stream_chain(
    r: InterceptResult,
    before: Seq<Box<dyn OutboundInterceptor>>,
    after: Seq<Box<dyn OutboundInterceptor>>,
    target_id: ActorId,
    target_name: Seq<char>,
    send_mode: SendMode,
    message_type: &'static str,
    seq: u64,
) -> bool {
    exists|c: OutboundContext| #[trigger] pipeline_context(c, target_id, target_name, send_mode, message_type)
        && chain_outcome(r, stream_decisions(before, c, seq), before)
        && untouched_after(before, after, stream_decisions(before, c, seq))
}

/// `a` is what a drain does with item `seq` on the chain's outcome `result`:
/// forward on `Continue`, forward after the delay on `Delay`, stop on
/// `Reject`, and on `Drop` or `Retry` skip it with a notice naming the
/// target, message type, interceptor, send mode, context and item.
pub open spec fn item_action_for(
    a: ItemAction,
    result: InterceptResult,
    target_name: Seq<char>,
    send_mode: SendMode,
    message_type: &'static str,
    context: &'static str,
    seq: u64,
) -> bool {
    &&& (result.disposition is Continue) <==> (a is Forward)
    &&& (result.disposition is Reject) <==> (a is Stop)
    &&& (result.disposition matches Disposition::Delay(d) ==> a == ItemAction::ForwardAfter(d))
    &&& (result.disposition is Drop || result.disposition is Retry) <==> (a is Skip)
    &&& (a matches ItemAction::Skip(n) ==> n.target_name@ == target_name
        && n.message_type == message_type
        && n.interceptor_name == result.interceptor_name
        && n.send_mode == send_mode
        && n.context == context
        && n.seq == Some(seq))
}

/// The outbound interceptors of one actor reference, with its target.
pub struct OutboundPipeline {
    /// The interceptors, run in order.
    pub interceptors: Vec<Box<dyn OutboundInterceptor>>,
    /// The target actor.
    pub target_id: ActorId,
    /// The target actor's name.
    pub target_name: String,
}

impl OutboundPipeline {
    /// Run `on_send` of each interceptor in order until one does not let the
    /// message continue. A `Drop` comes with a notice to report.
    pub fn run_on_send(&mut self, send_mode: SendMode, message_type: &'static str) -> (r: (InterceptResult, Option<DropNotice>))
        ensures
            final(self).interceptors@.len() == old(self).interceptors@.len(),
            final(self).target_id == old(self).target_id,
            final(self).target_name@ == old(self).target_name@,
            old(self).interceptors@.len() == 0 ==> r.0.disposition is Continue,
            r.0.disposition is Continue ==> r.0.interceptor_name@ == ""@,
            exists|c: OutboundContext| #[trigger] pipeline_context(c, old(self).target_id, old(self).target_name@, send_mode, message_type)
                && chain_outcome(r.0, send_decisions(old(self).interceptors@, c), old(self).interceptors@)
                && untouched_after(old(self).interceptors@, final(self).interceptors@, send_decisions(old(self).interceptors@, c)),
            r.1 is Some <==> r.0.disposition is Drop,
            r.1 matches Some(n) ==> n.target_name@ == old(self).target_name@,
            r.1 matches Some(n) ==> n.message_type == message_type,
            r.1 matches Some(n) ==> n.interceptor_name == r.0.interceptor_name,
            r.1 matches Some(n) ==> n.send_mode == send_mode,
            r.1 matches Some(n) ==> n.context@ == "outbound on_send"@,
            r.1 matches Some(n) ==> n.seq is None,
    {
        let ghost name0 = self.target_name@;
        let octx = OutboundContext {
            target_id: self.target_id.clone(),
            target_name: self.target_name.as_str(),
            message_type,
            send_mode,
            remote: false,
        };
        let n = self.interceptors.len();
        let mut i: usize = 0;
        while i < n
            invariant
                i <= n,
                n == self.interceptors@.len(),
                n == old(self).interceptors@.len(),
                self.target_id == old(self).target_id,
                self.target_name@ == old(self).target_name@,
                octx.target_name@ == name0,
                name0 == old(self).target_name@,
                pipeline_context(octx, old(self).target_id, old(self).target_name@, send_mode, message_type),
                forall|k: int| 0 <= k < i ==> (#[trigger] send_decisions(old(self).interceptors@, octx)[k]) is Continue,
                forall|k: int| i <= k < n ==> self.interceptors@[k] == old(self).interceptors@[k],
            decreases n - i,
        {
            let ghost ds = send_decisions(old(self).interceptors@, octx);
            let name = self.interceptors[i].name();
            let d = self.interceptors[i].on_send(&octx);
            assert(d == ds[i as int]);
            let stop = match d {
                Disposition::Continue => false,
                _ => true,
            };
            if stop {
                proof {
                    lemma_first_stop(ds, i as int);
                }
                let tn = String::from_str(octx.target_name);
                let notice = match d {
                    Disposition::Drop => Some(DropNotice {
                        target_name: tn,
                        message_type,
                        interceptor_name: name,
                        send_mode,
                        context: "outbound on_send",
                        seq: None,
                    }),
                    _ => None,
                };
                let r = InterceptResult { disposition: d, interceptor_name: name };
                assert(chain_outcome(r, ds, old(self).interceptors@));
                assert(untouched_after(old(self).interceptors@, self.interceptors@, ds));
                return (r, notice);
            }
            i = i + 1;
        }
        proof {
            lemma_first_stop(send_decisions(old(self).interceptors@, octx), n as int);
        }
        (InterceptResult::continued(), None)
    }

    /// Run `on_reply` of every interceptor, in order, after an ask reply
    /// arrived; each sees the pipeline's context with send mode `Ask`.
    pub fn run_on_reply(&mut self, message_type: &'static str, outcome: &Outcome)
        ensures
            final(self).interceptors@.len() == old(self).interceptors@.len(),
            final(self).target_id == old(self).target_id,
            final(self).target_name@ == old(self).target_name@,
            exists|c: OutboundContext| #[trigger] pipeline_context(c, old(self).target_id, old(self).target_name@, SendMode::Ask, message_type)
                && forall|k: int| 0 <= k < final(self).interceptors@.len() ==> (#[trigger] final(self).interceptors@[k]).replied(&c, outcome),
    {
        let ghost name0 = self.target_name@;
        let octx = OutboundContext {
            target_id: self.target_id.clone(),
            target_name: self.target_name.as_str(),
            message_type,
            send_mode: SendMode::Ask,
            remote: false,
        };
        let n = self.interceptors.len();
        let mut i: usize = 0;
        while i < n
            invariant
                i <= n,
                n == self.interceptors@.len(),
                n == old(self).interceptors@.len(),
                self.target_id == old(self).target_id,
                self.target_name@ == old(self).target_name@,
                octx.target_name@ == name0,
                name0 == old(self).target_name@,
                pipeline_context(octx, old(self).target_id, old(self).target_name@, SendMode::Ask, message_type),
                forall|k: int| 0 <= k < i ==> (#[trigger] self.interceptors@[k]).replied(&octx, outcome),
            decreases n - i,
        {
            self.interceptors[i].on_reply(&octx, outcome);
            i = i + 1;
        }
        assert(pipeline_context(octx, old(self).target_id, old(self).target_name@, SendMode::Ask, message_type));
    }

    /// Run `on_stream_item` of each interceptor in order for item `seq`
    /// until one does not let the item continue.
    pub fn intercept_stream_item(&mut self, send_mode: SendMode, message_type: &'static str, seq: u64) -> (r: InterceptResult)
        ensures
            final(self).interceptors@.len() == old(self).interceptors@.len(),
            final(self).target_id == old(self).target_id,
            final(self).target_name@ == old(self).target_name@,
            old(self).interceptors@.len() == 0 ==> r.disposition is Continue,
            r.disposition is Continue ==> r.interceptor_name@ == ""@,
            stream_chain(r, old(self).interceptors@, final(self).interceptors@, old(self).target_id,
                old(self).target_name@, send_mode, message_type, seq),
    {
        let ghost name0 = self.target_name@;
        let octx = OutboundContext {
            target_id: self.target_id.clone(),
            target_name: self.target_name.as_str(),
            message_type,
            send_mode,
            remote: false,
        };
        let n = self.interceptors.len();
        let mut i: usize = 0;
        while i < n
            invariant
                i <= n,
                n == self.interceptors@.len(),
                n == old(self).interceptors@.len(),
                self.target_id == old(self).target_id,
                self.target_name@ == old(self).target_name@,
                octx.target_name@ == name0,
                name0 == old(self).target_name@,
                pipeline_context(octx, old(self).target_id, old(self).target_name@, send_mode, message_type),
                forall|k: int| 0 <= k < i ==> (#[trigger] stream_decisions(old(self).interceptors@, octx, seq)[k]) is Continue,
                forall|k: int| i <= k < n ==> self.interceptors@[k] == old(self).interceptors@[k],
            decreases n - i,
        {
            let ghost ds = stream_decisions(old(self).interceptors@, octx, seq);
            let name = self.interceptors[i].name();
            let d = self.interceptors[i].on_stream_item(&octx, seq);
            assert(d == ds[i as int]);
            let stop = match d {
                Disposition::Continue => false,
                _ => true,
            };
            if stop {
                proof {
                    lemma_first_stop(ds, i as int);
                }
                let r = InterceptResult { disposition: d, interceptor_name: name };
                assert(chain_outcome(r, ds, old(self).interceptors@));
                assert(untouched_after(old(self).interceptors@, self.interceptors@, ds));
                return r;
            }
            i = i + 1;
        }
        proof {
            lemma_first_stop(stream_decisions(old(self).interceptors@, octx, seq), n as int);
        }
        let r = InterceptResult::continued();
        assert(chain_outcome(r, stream_decisions(old(self).interceptors@, octx, seq), old(self).interceptors@));
        r
    }

    /// What a drain does with item `seq` given the interceptors' decision:
    /// forward on `Continue`, forward after the delay on `Delay`, skip with a
    /// drop notice on `Drop` or `Retry`, stop on `Reject`.
    pub fn item_action(&self, result: InterceptResult, send_mode: SendMode, message_type: &'static str, context: &'static str, seq: u64) -> (a: ItemAction)
        ensures
            item_action_for(a, result, self.target_name@, send_mode, message_type, context, seq),
    {
        match result.disposition {
            Disposition::Continue => ItemAction::Forward,
            Disposition::Delay(d) => ItemAction::ForwardAfter(d),
            Disposition::Reject(_) => ItemAction::Stop,
            _ => ItemAction::Skip(DropNotice {
                target_name: self.target_name.clone(),
                message_type,
                interceptor_name: result.interceptor_name,
                send_mode,
                context,
                seq: Some(seq),
            }),
        }
    }

    /// Intercept item `seq` of a stream or feed and decide what to do with it.
    pub fn next_item_action(&mut self, send_mode: SendMode, message_type: &'static str, context: &'static str, seq: u64) -> (a: ItemAction)
        ensures
            final(self).interceptors@.len() == old(self).interceptors@.len(),
            final(self).target_id == old(self).target_id,
            final(self).target_name@ == old(self).target_name@,
            old(self).interceptors@.len() == 0 ==> a is Forward,
            exists|r: InterceptResult|
                stream_chain(r, old(self).interceptors@, final(self).interceptors@, old(self).target_id,
                    old(self).target_name@, send_mode, message_type, seq)
                && #[trigger] item_action_for(a, r, old(self).target_name@, send_mode, message_type, context, seq),
    {
        let r = self.intercept_stream_item(send_mode, message_type, seq);
        let ghost rv = r;
        let a = self.item_action(r, send_mode, message_type, context, seq);
        assert(item_action_for(a, rv, old(self).target_name@, send_mode, message_type, context, seq));
        a
    }

    /// One step of a drain: decide what to do with the item numbered
    /// `*seq`, and count it (the next item gets the following number).
    pub fn next_item_step(&mut self, send_mode: SendMode, message_type: &'static str, context: &'static str, seq: &mut u64) -> (a: ItemAction)
        requires
            *old(seq) < u64::MAX,
        ensures
            *final(seq) == *old(seq) + 1,
            final(self).interceptors@.len() == old(self).interceptors@.len(),
            final(self).target_id == old(self).target_id,
            final(self).target_name@ == old(self).target_name@,
            old(self).interceptors@.len() == 0 ==> a is Forward,
            exists|r: InterceptResult|
                stream_chain(r, old(self).interceptors@, final(self).interceptors@, old(self).target_id,
                    old(self).target_name@, send_mode, message_type, *old(seq))
                && #[trigger] item_action_for(a, r, old(self).target_name@, send_mode, message_type, context, *old(seq)),
    {
        let current = *seq;
        let a = self.next_item_action(send_mode, message_type, context, current);
        *seq = current + 1;
        a
    }
}

} // verus!
