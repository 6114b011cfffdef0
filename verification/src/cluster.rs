//! Cluster membership events and subscriptions.

use vstd::prelude::*;
use vstd::string::*;
use crate::node::NodeId;

verus! {

/// Reason a node was rejected during cluster join.
#[derive(Debug, Clone, Copy, PartialEq, Eq, Hash, Structural)]
pub enum NodeRejectionReason {
    /// The remote node's wire protocol major version differs.
    IncompatibleProtocol,
    /// The remote node uses a different actor framework adapter.
    IncompatibleAdapter,
    /// The transport-level handshake call failed.
    ConnectionFailed,
}

/// Text form of a rejection reason.
pub open spec fn rejection_reason_text(r: NodeRejectionReason) -> Seq<char> {
    match r {
        NodeRejectionReason::IncompatibleProtocol => "incompatible wire protocol"@,
        NodeRejectionReason::IncompatibleAdapter => "incompatible adapter"@,
        NodeRejectionReason::ConnectionFailed => "connection failed"@,
    }
}

impl NodeRejectionReason {
    /// Text form of the reason.
    pub fn to_string(&self) -> (s: String)
        ensures
            s@ == rejection_reason_text(*self),
    {
        match self {
            NodeRejectionReason::IncompatibleProtocol => String::from_str("incompatible wire protocol"),
            NodeRejectionReason::IncompatibleAdapter => String::from_str("incompatible adapter"),
            NodeRejectionReason::ConnectionFailed => String::from_str("connection failed"),
        }
    }
}

/// Handshake-level (wire protocol) rejection reason.
#[derive(Debug, Clone, Copy, PartialEq, Eq, Hash, Structural)]
pub enum RejectionReason {
    /// Different wire protocol major version.
    IncompatibleProtocol,
    /// Different actor framework adapter.
    IncompatibleAdapter,
}

impl From<RejectionReason> for NodeRejectionReason {
    fn from(reason: RejectionReason) -> (r: NodeRejectionReason) {
        match reason {
            RejectionReason::IncompatibleProtocol => NodeRejectionReason::IncompatibleProtocol,
            RejectionReason::IncompatibleAdapter => NodeRejectionReason::IncompatibleAdapter,
        }
    }
}

/// The cluster-level reason of a handshake rejection.
pub open spec fn node_reason_of(reason: RejectionReason) -> NodeRejectionReason {
    match reason {
        RejectionReason::IncompatibleProtocol => NodeRejectionReason::IncompatibleProtocol,
        RejectionReason::IncompatibleAdapter => NodeRejectionReason::IncompatibleAdapter,
    }
}

impl vstd::std_specs::convert::FromSpecImpl<RejectionReason> for NodeRejectionReason {
    open spec fn obeys_from_spec() -> bool {
        true
    }

    open spec fn from_spec(v: RejectionReason) -> NodeRejectionReason {
        node_reason_of(v)
    }
}

/// Events emitted by the cluster membership system.
#[derive(Debug, PartialEq, Eq)]
pub enum ClusterEvent {
    /// A new node has joined the cluster and is ready to receive messages.
    NodeJoined(NodeId),
    /// A node has left the cluster (gracefully or due to failure).
    NodeLeft(NodeId),
    /// A node attempted to join but was rejected during the handshake.
    NodeRejected {
        /// The node that was rejected.
        node_id: NodeId,
        /// Why the node was rejected.
        reason: NodeRejectionReason,
        /// Human-readable detail message.
        detail: String,
    },
}

impl Clone for ClusterEvent {
    fn clone(&self) -> (r: Self)
        ensures
            r == *self,
    {
        match self {
            ClusterEvent::NodeJoined(n) => ClusterEvent::NodeJoined(n.clone()),
            ClusterEvent::NodeLeft(n) => ClusterEvent::NodeLeft(n.clone()),
            ClusterEvent::NodeRejected { node_id, reason, detail } => ClusterEvent::NodeRejected {
                node_id: node_id.clone(),
                reason: *reason,
                detail: detail.clone(),
            },
        }
    }
}

/// Opaque handle of a cluster-event subscription.
#[derive(Debug, Clone, Copy, PartialEq, Eq, Hash, Structural)]
pub struct SubscriptionId(pub u64);

impl SubscriptionId {
    /// Create a subscription id from a raw integer.
    pub fn from_raw(id: u64) -> (s: Self)
        ensures
            s.0 == id,
    {
        SubscriptionId(id)
    }
}

impl View for SubscriptionId {
    type V = u64;

    open spec fn view(&self) -> u64 {
        self.0
    }
}

impl crate::assoc::KeyEq for SubscriptionId {
    fn key_eq(&self, other: &Self) -> (r: bool) {
        self.0 == other.0
    }

    fn duplicate(&self) -> (r: Self) {
        *self
    }
}

/// Result of a node health check.
#[derive(Debug, PartialEq, Eq)]
pub enum HealthStatus {
    /// Node is healthy and responsive.
    Healthy,
    /// Node is unhealthy or unresponsive.
    Unhealthy {
        /// Description of the health issue.
        reason: String,
    },
    /// Health check timed out.
    Timeout,
}

/// In-process event emitter for cluster membership changes.
///
/// Subscription ids are handed out in increasing order starting at 1, so an
/// id is never reused while the emitter lives.
///
/// The emitter is generic over the callback type; a boxed `dyn Fn` lets one
/// emitter hold callbacks of different closure types.
pub struct ClusterEventEmitter<F: Fn(ClusterEvent)> {
    next_id: u64,
    subscribers: crate::assoc::KeyedMap<SubscriptionId, F>,
}

/// A callback that accepts every event.
pub open spec fn accepts_all_events<F: Fn(ClusterEvent)>(f: F) -> bool {
    forall|e: ClusterEvent| #[trigger] call_requires(f, (e,))
}

impl<F: Fn(ClusterEvent)> ClusterEventEmitter<F> {
    #[verifier::type_invariant]
    spec fn emitter_inv(self) -> bool {
        &&& self.next_id >= 1
        &&& forall|k: u64| #[trigger] self.subscribers.map().dom().contains(k) ==> 1 <= k < self.next_id
        &&& forall|k: u64| #[trigger] self.subscribers.map().dom().contains(k) ==> accepts_all_events(self.subscribers.map()[k])
    }

    /// The ids of the active subscriptions.
    pub closed spec fn active_ids(&self) -> Set<u64> {
        self.subscribers.map().dom()
    }

    /// The callback of an active subscription.
    pub closed spec fn callback(&self, id: u64) -> F {
        self.subscribers.map()[id]
    }

    /// The id the next subscription will get.
    pub closed spec fn next_id(&self) -> u64 {
        self.next_id
    }

    /// Create a new emitter with no subscribers.
    pub fn new() -> (e: Self)
        ensures
            e.active_ids() == Set::<u64>::empty(),
            e.active_ids().finite(),
            e.next_id() == 1,
    {
        ClusterEventEmitter { next_id: 1, subscribers: crate::assoc::KeyedMap::new() }
    }

    /// Subscribe to cluster events; returns a fresh subscription id.
    pub fn subscribe(&mut self, on_event: F) -> (id: SubscriptionId)
        requires
            old(self).next_id() < u64::MAX,
            accepts_all_events(on_event),
        ensures
            id@ == old(self).next_id(),
            !old(self).active_ids().contains(id@),
            final(self).active_ids() == old(self).active_ids().insert(id@),
            final(self).active_ids().finite(),
            final(self).callback(id@) == on_event,
            forall|k: u64| #[trigger] old(self).active_ids().contains(k) ==> final(self).callback(k) == old(self).callback(k),
            final(self).next_id() == old(self).next_id() + 1,
    {
        proof {
            use_type_invariant(&*self);
        }
        let id = SubscriptionId(self.next_id);
        let mut subs = crate::assoc::KeyedMap::new();
        std::mem::swap(&mut subs, &mut self.subscribers);
        subs.insert(id, on_event);
        proof {
            subs.lemma_finite();
        }
        let next = self.next_id + 1;
        *self = ClusterEventEmitter { next_id: next, subscribers: subs };
        id
    }

    /// Remove a subscription. Idempotent.
    pub fn unsubscribe(&mut self, id: SubscriptionId)
        ensures
            final(self).active_ids() == old(self).active_ids().remove(id@),
            final(self).active_ids().finite(),
            forall|k: u64| #[trigger] final(self).active_ids().contains(k) ==> final(self).callback(k) == old(self).callback(k),
            final(self).next_id() == old(self).next_id(),
    {
        proof {
            use_type_invariant(&*self);
        }
        let mut subs = crate::assoc::KeyedMap::new();
        std::mem::swap(&mut subs, &mut self.subscribers);
        let _ = subs.remove(&id);
        proof {
            subs.lemma_finite();
        }
        let next = self.next_id;
        *self = ClusterEventEmitter { next_id: next, subscribers: subs };
    }

    /// Emit an event to all subscribers, each getting its own copy.
    pub fn emit(&self, event: ClusterEvent)
        ensures
            forall|k: u64| #[trigger] self.active_ids().contains(k) ==> call_ensures(self.callback(k), (event,), ()),
    {
        proof {
            use_type_invariant(self);
        }
        let entries = self.subscribers.entries();
        let n = entries.len();
        let mut i: usize = 0;
        while i < n
            invariant
                n == entries.len(),
                i <= n,
                crate::assoc::keys_distinct(entries@),
                forall|k: u64| #[trigger] crate::assoc::assoc_map(entries@).dom().contains(k) ==> accepts_all_events(crate::assoc::assoc_map(entries@)[k]),
                forall|j: int| 0 <= j < i ==> call_ensures(#[trigger] entries@[j].1, (event,), ()),
            decreases n - i,
        {
            let callback = &entries[i].1;
            proof {
                crate::assoc::lemma_assoc_index(entries@, i as int);
            }
            let copy = event.clone();
            callback(copy);
            i += 1;
        }
        proof {
            crate::assoc::lemma_assoc_dom(entries@);
            assert forall|k: u64| #[trigger] self.active_ids().contains(k) implies call_ensures(self.callback(k), (event,), ()) by {
                let j = choose|j: int| 0 <= j < entries@.len() && entries@[j].0@ == k;
                crate::assoc::lemma_assoc_index(entries@, j);
                assert(call_ensures(entries@[j].1, (event,), ()));
            }
        }
    }

    /// Number of active subscribers.
    pub fn subscriber_count(&self) -> (n: usize)
        ensures
            n == self.active_ids().len(),
    {
        self.subscribers.len()
    }
}

impl<F: Fn(ClusterEvent)> Default for ClusterEventEmitter<F> {
    fn default() -> (e: Self)
        ensures
            e.active_ids() == Set::<u64>::empty(),
            e.active_ids().finite(),
            e.next_id() == 1,
    {
        ClusterEventEmitter::new()
    }
}

} // verus!
