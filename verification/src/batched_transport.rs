//! Batching of fire-and-forget wire envelopes per target node.
//!
//! Only `Tell` envelopes can be batched: asks, streams and feeds need
//! per-message correlation. Envelopes queue per target node; a node's queue
//! is handed back as a batch when it reaches `max_items`, and on an explicit
//! flush of that node or of all nodes. Sending a batch (one wrapper envelope
//! whose body encodes the envelopes) is the transport's work.

use vstd::prelude::*;
use vstd::string::*;
use crate::assoc::{keys_distinct, KeyedMap};
use crate::interceptor::SendMode;
use crate::node::{ActorId, NodeId};
use crate::remote::{WireEnvelope, WireHeaders};
use crate::stream::BatchConfig;

verus! {

/// Message type of batch envelopes.
pub const BATCH_MESSAGE_TYPE: &'static str = "dactor::system::Batch";

/// A batch of wire envelopes packed for transport.
#[derive(Debug)]
pub struct WireEnvelopeBatch {
    /// The individual envelopes in this batch.
    pub envelopes: Vec<WireEnvelope>,
}

/// Sum of the body lengths of envelopes.
pub open spec fn body_bytes(s: Seq<WireEnvelope>) -> nat
    decreases s.len(),
{
    if s.len() == 0 {
        0
    } else {
        body_bytes(s.drop_last()) + s.last().body@.len()
    }
}

impl WireEnvelopeBatch {
    /// Create a new batch from a vector of envelopes.
    pub fn new(envelopes: Vec<WireEnvelope>) -> (b: Self)
        ensures
            b.envelopes@ == envelopes@,
    {
        WireEnvelopeBatch { envelopes }
    }

    /// Number of envelopes in this batch.
    pub fn len(&self) -> (n: usize)
        ensures
            n == self.envelopes@.len(),
    {
        self.envelopes.len()
    }

    /// Whether the batch is empty.
    pub fn is_empty(&self) -> (r: bool)
        ensures
            r == (self.envelopes@.len() == 0),
    {
        self.envelopes.len() == 0
    }

    /// Total body bytes across all envelopes in the batch.
    pub fn total_body_bytes(&self) -> (n: usize)
        requires
            body_bytes(self.envelopes@) <= usize::MAX,
        ensures
            n == body_bytes(self.envelopes@),
    {
        let mut total: usize = 0;
        let mut i: usize = 0;
        while i < self.envelopes.len()
            invariant
                i <= self.envelopes@.len(),
                total == body_bytes(self.envelopes@.take(i as int)),
                body_bytes(self.envelopes@) <= usize::MAX,
            decreases self.envelopes@.len() - i,
        {
            proof {
                assert(self.envelopes@.take(i + 1).drop_last() =~= self.envelopes@.take(i as int));
                lemma_body_bytes_prefix(self.envelopes@, i + 1);
            }
            total = total + self.envelopes[i].body.len();
            i = i + 1;
        }
        assert(self.envelopes@.take(self.envelopes@.len() as int) =~= self.envelopes@);
        total
    }
}

/// The body bytes of a prefix are at most those of the whole.
proof fn lemma_body_bytes_prefix(s: Seq<WireEnvelope>, n: int)
    requires
        0 <= n <= s.len(),
    ensures
        body_bytes(s.take(n)) <= body_bytes(s),
    decreases s.len(),
{
    if n < s.len() {
        assert(s.drop_last().take(n) =~= s.take(n));
        lemma_body_bytes_prefix(s.drop_last(), n);
    } else {
        assert(s.take(n) =~= s);
    }
}

/// Whether an envelope is a batch envelope.
pub fn is_batch_envelope(envelope: &WireEnvelope) -> (r: bool)
    ensures
        r == (envelope.message_type@ == BATCH_MESSAGE_TYPE@),
{
    crate::text::str_eq(envelope.message_type.as_str(), BATCH_MESSAGE_TYPE)
}

/// The envelope that carries an encoded batch to `target_node`: a `Tell` to
/// the node's actor 0, with no name, headers, request id or version.
pub fn batch_wrapper(target_node: &NodeId, body: Vec<u8>) -> (w: WireEnvelope)
    ensures
        w.target.node@ == target_node@,
        w.target.local == 0,
        w.target_name@ == Seq::<char>::empty(),
        w.message_type@ == BATCH_MESSAGE_TYPE@,
        w.send_mode == SendMode::Tell,
        w.headers.map() == Map::<Seq<char>, Seq<u8>>::empty(),
        w.body@ == body@,
        w.request_id is None,
        w.version is None,
{
    WireEnvelope {
        target: ActorId { node: target_node.clone(), local: 0 },
        target_name: String::new(),
        message_type: String::from_str(BATCH_MESSAGE_TYPE),
        send_mode: SendMode::Tell,
        headers: WireHeaders::new(),
        body,
        request_id: None,
        version: None,
    }
}

/// An envelope that cannot be batched because it is not a `Tell`.
#[derive(Debug, Clone, Copy, PartialEq, Eq, Structural)]
pub struct NotTell {
    /// The envelope's send mode.
    pub send_mode: SendMode,
}

/// The debug name of a send mode.
pub open spec fn send_mode_name(m: SendMode) -> Seq<char> {
    match m {
        SendMode::Tell => "Tell"@,
        SendMode::Ask => "Ask"@,
        SendMode::Stream => "Stream"@,
        SendMode::Feed => "Feed"@,
    }
}

impl NotTell {
    /// Text form of the error.
    pub fn to_string(&self) -> (s: String)
        ensures
            s@ == "BatchedTransportSender only accepts Tell envelopes, got "@ + send_mode_name(self.send_mode),
    {
        let mut s = String::from_str("BatchedTransportSender only accepts Tell envelopes, got ");
        let name = match self.send_mode {
            SendMode::Tell => "Tell",
            SendMode::Ask => "Ask",
            SendMode::Stream => "Stream",
            SendMode::Feed => "Feed",
        };
        s.append(name);
        s
    }
}

/// The first error among results, in order.
pub open spec fn first_error_of<E>(s: Seq<Result<(), E>>) -> Result<(), E>
    decreases s.len(),
{
    if s.len() == 0 {
        Ok(())
    } else if s[0] is Err {
        s[0]
    } else {
        first_error_of(s.drop_first())
    }
}

/// Combines the results of flushing several nodes: the first error, if any.
pub fn first_error<E>(results: Vec<Result<(), E>>) -> (r: Result<(), E>)
    ensures
        r == first_error_of(results@),
{
    let mut rest = results;
    let ghost all = rest@;
    while rest.len() > 0
        invariant
            first_error_of(rest@) == first_error_of(all),
            all == results@,
        decreases rest@.len(),
    {
        let ghost before = rest@;
        let x = rest.remove(0);
        assert(before.drop_first() =~= rest@);
        match x {
            Err(e) => {
                assert(before[0] == Err::<(), E>(e));
                return Err(e);
            },
            Ok(()) => {},
        }
    }
    Ok(())
}

/// Per-node queues of tell envelopes awaiting a batch.
pub struct BatchQueues {
    config: BatchConfig,
    buffers: KeyedMap<NodeId, Vec<WireEnvelope>>,
}

impl BatchQueues {
    /// The queued envelopes per node.
    pub closed spec fn queues(&self) -> Map<Seq<char>, Vec<WireEnvelope>> {
        self.buffers.map()
    }

    /// The queues in storage order.
    pub closed spec fn queue_list(&self) -> Seq<(NodeId, Vec<WireEnvelope>)> {
        self.buffers.pairs()
    }

    /// The configuration.
    pub closed spec fn config(&self) -> BatchConfig {
        self.config
    }

    /// Empty queues.
    pub fn new(config: BatchConfig) -> (q: Self)
        ensures
            q.queues() == Map::<Seq<char>, Vec<WireEnvelope>>::empty(),
            q.config() == config,
    {
        BatchQueues { config, buffers: KeyedMap::new() }
    }

    /// Queue a tell envelope. A batch is handed back when the target node's
    /// queue reaches `max_items` (the node keeps an empty queue).
    pub fn queue(&mut self, envelope: WireEnvelope) -> (r: Result<Option<(NodeId, Vec<WireEnvelope>)>, NotTell>)
        ensures
            final(self).config() == old(self).config(),
            r is Err <==> envelope.send_mode != SendMode::Tell,
            r matches Err(e) ==> e.send_mode == envelope.send_mode && final(self).queues() == old(self).queues(),
            r is Ok ==> ({
                let k = envelope.target.node@;
                let cur = if old(self).queues().dom().contains(k) { old(self).queues()[k]@ } else { Seq::<WireEnvelope>::empty() };
                let pushed = cur.push(envelope);
                &&& final(self).queues().dom() == old(self).queues().dom().insert(k)
                &&& forall|j: Seq<char>| j != k && #[trigger] old(self).queues().dom().contains(j) ==> final(self).queues()[j] == old(self).queues()[j]
                &&& if pushed.len() >= old(self).config().max_items {
                    &&& r matches Ok(Some((node, batch))) && node@ == k && batch@ == pushed
                    &&& final(self).queues()[k]@ == Seq::<WireEnvelope>::empty()
                } else {
                    &&& r matches Ok(None)
                    &&& final(self).queues()[k]@ == pushed
                }
            }),
    {
        if envelope.send_mode != SendMode::Tell {
            return Err(NotTell { send_mode: envelope.send_mode });
        }
        let node = envelope.target.node.clone();
        let ghost k = node@;
        let mut buf = match self.buffers.remove(&node) {
            Some(b) => b,
            None => Vec::new(),
        };
        let ghost mid = self.buffers.map();
        buf.push(envelope);
        if buf.len() >= self.config.max_items {
            self.buffers.insert(node.clone(), Vec::new());
            assert(self.buffers.map().dom() =~= old(self).queues().dom().insert(k));
            Ok(Some((node, buf)))
        } else {
            self.buffers.insert(node, buf);
            assert(self.buffers.map().dom() =~= old(self).queues().dom().insert(k));
            Ok(None)
        }
    }

    /// Take a node's queued envelopes (none when it has no queue).
    pub fn take_node(&mut self, node: &NodeId) -> (r: Vec<WireEnvelope>)
        ensures
            final(self).config() == old(self).config(),
            final(self).queues() == old(self).queues().remove(node@),
            r@ == (if old(self).queues().dom().contains(node@) { old(self).queues()[node@]@ } else { Seq::<WireEnvelope>::empty() }),
    {
        match self.buffers.remove(node) {
            Some(b) => b,
            None => Vec::new(),
        }
    }

    /// Take every node's queue, in storage order, leaving none.
    pub fn drain_all(&mut self) -> (r: Vec<(NodeId, Vec<WireEnvelope>)>)
        ensures
            final(self).config() == old(self).config(),
            final(self).queues() == Map::<Seq<char>, Vec<WireEnvelope>>::empty(),
            r@ == old(self).queue_list(),
    {
        let mut emptied: KeyedMap<NodeId, Vec<WireEnvelope>> = KeyedMap::new();
        std::mem::swap(&mut emptied, &mut self.buffers);
        emptied.into_pairs()
    }

    /// Number of queued envelopes across all nodes, saturated.
    pub fn buffered_count(&self) -> (n: usize)
        ensures
            n == queued_total(self.queue_list()),
    {
        let pairs = self.buffers.entries();
        let mut t: usize = 0;
        let mut i: usize = 0;
        while i < pairs.len()
            invariant
                i <= pairs@.len(),
                pairs@ == self.queue_list(),
                t == queued_total(pairs@.take(i as int)),
            decreases pairs@.len() - i,
        {
            proof {
                assert(pairs@.take(i + 1).drop_last() =~= pairs@.take(i as int));
            }
            t = t.saturating_add(pairs[i].1.len());
            i = i + 1;
        }
        assert(pairs@.take(pairs@.len() as int) =~= pairs@);
        t
    }

    /// Number of nodes with a queue (possibly empty after an automatic flush).
    pub fn buffered_nodes(&self) -> (n: usize)
        ensures
            n == self.queues().dom().len(),
    {
        self.buffers.len()
    }

    /// The batch configuration.
    pub fn config_ref(&self) -> (c: &BatchConfig)
        ensures
            *c == self.config(),
    {
        &self.config
    }
}

/// Number of queued envelopes in a list of queues, saturated at `usize::MAX`.
pub open spec fn queued_total(s: Seq<(NodeId, Vec<WireEnvelope>)>) -> usize
    decreases s.len(),
{
    if s.len() == 0 {
        0
    } else {
        let a = queued_total(s.drop_last());
        let b = s.last().1@.len();
        if a + b > usize::MAX {
            usize::MAX
        } else {
            (a + b) as usize
        }
    }
}

} // verus!
