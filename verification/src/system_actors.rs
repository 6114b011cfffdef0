//! System actors for remote operations: the requests they accept, the
//! watch registry, the cancellation registry and the node directory.

use vstd::prelude::*;
use vstd::string::*;
use crate::assoc::{assoc_find, assoc_map, keys_distinct, lemma_assoc_count, lemma_assoc_dom, lemma_assoc_find, lemma_assoc_index, lemma_assoc_len, lemma_assoc_push, lemma_assoc_remove, lemma_assoc_update, KeyEq};
use crate::node::{ActorId, ActorKey, NodeId, keys_of};
use crate::text::str_eq;

verus! {

/// Message type of a remote spawn request.
pub const SYSTEM_MSG_TYPE_SPAWN: &'static str = "dactor::system_actors::SpawnRequest";
/// Message type of a remote watch request.
pub const SYSTEM_MSG_TYPE_WATCH: &'static str = "dactor::system_actors::WatchRequest";
/// Message type of a remote unwatch request.
pub const SYSTEM_MSG_TYPE_UNWATCH: &'static str = "dactor::system_actors::UnwatchRequest";
/// Message type of a remote cancel request.
pub const SYSTEM_MSG_TYPE_CANCEL: &'static str = "dactor::system_actors::CancelRequest";
/// Message type of a connect-peer request.
pub const SYSTEM_MSG_TYPE_CONNECT_PEER: &'static str = "dactor::system_actors::ConnectPeer";
/// Message type of a disconnect-peer request.
pub const SYSTEM_MSG_TYPE_DISCONNECT_PEER: &'static str = "dactor::system_actors::DisconnectPeer";

/// The well-known system message types.
pub open spec fn is_system_type(t: Seq<char>) -> bool {
    ||| t == SYSTEM_MSG_TYPE_SPAWN@
    ||| t == SYSTEM_MSG_TYPE_WATCH@
    ||| t == SYSTEM_MSG_TYPE_UNWATCH@
    ||| t == SYSTEM_MSG_TYPE_CANCEL@
    ||| t == SYSTEM_MSG_TYPE_CONNECT_PEER@
    ||| t == SYSTEM_MSG_TYPE_DISCONNECT_PEER@
}

/// Whether a message type names a system message.
pub fn is_system_message_type(message_type: &str) -> (r: bool)
    ensures
        r == is_system_type(message_type@),
{
    str_eq(message_type, SYSTEM_MSG_TYPE_SPAWN) || str_eq(message_type, SYSTEM_MSG_TYPE_WATCH)
        || str_eq(message_type, SYSTEM_MSG_TYPE_UNWATCH) || str_eq(message_type, SYSTEM_MSG_TYPE_CANCEL)
        || str_eq(message_type, SYSTEM_MSG_TYPE_CONNECT_PEER) || str_eq(message_type, SYSTEM_MSG_TYPE_DISCONNECT_PEER)
}

/// Message requesting a remote actor spawn.
#[derive(Debug, Clone, PartialEq, Eq)]
pub struct SpawnRequest {
    /// Fully-qualified type name of the actor (e.g. "myapp::Counter").
    pub actor_type: String,
    /// Serialized actor `Args` (construction arguments).
    pub args_bytes: Vec<u8>,
    /// Name for the spawned actor.
    pub name: String,
    /// Request ID for correlating the response.
    pub request_id: String,
}

/// Response to a spawn request.
#[derive(Debug, Clone, PartialEq, Eq)]
pub enum SpawnResponse {
    /// Actor spawned successfully.
    Success {
        /// Request ID of the SpawnRequest answered.
        request_id: String,
        /// ActorId assigned to the newly spawned actor.
        actor_id: ActorId,
    },
    /// Spawn failed.
    Failure {
        /// Request ID of the SpawnRequest answered.
        request_id: String,
        /// Error description.
        error: String,
    },
}

/// Keeps the record of actors spawned on this node for remote requests,
/// beside the registry of actor types that builds them.
pub struct SpawnManager<R> {
    type_registry: R,
    spawned: Vec<ActorId>,
}

impl<R> SpawnManager<R> {
    /// The actors spawned so far, in spawn order.
    pub closed spec fn spawned(&self) -> Seq<ActorId> {
        self.spawned@
    }

    /// The registry of actor types.
    pub closed spec fn registry(&self) -> R {
        self.type_registry
    }

    /// A manager with the given registry and nothing spawned.
    pub fn new(type_registry: R) -> (m: Self)
        ensures
            m.registry() == type_registry,
            m.spawned() == Seq::<ActorId>::empty(),
    {
        SpawnManager { type_registry, spawned: Vec::new() }
    }

    /// Record that an actor was spawned for a remote request.
    pub fn record_spawn(&mut self, id: ActorId)
        ensures
            final(self).spawned() == old(self).spawned().push(id),
            final(self).registry() == old(self).registry(),
    {
        self.spawned.push(id);
    }

    /// The actors spawned for remote requests, in spawn order.
    pub fn spawned_actors(&self) -> (r: &[ActorId])
        ensures
            r@ == self.spawned(),
    {
        self.spawned.as_slice()
    }

    /// The registry of actor types.
    pub fn type_registry(&self) -> (r: &R)
        ensures
            *r == self.registry(),
    {
        &self.type_registry
    }
}

/// Request to watch a remote actor for termination.
#[derive(Debug, Clone, PartialEq, Eq)]
pub struct WatchRequest {
    /// The actor to watch.
    pub target: ActorId,
    /// The watcher to notify on termination.
    pub watcher: ActorId,
}

/// Request to stop watching a remote actor.
#[derive(Debug, Clone, PartialEq, Eq)]
pub struct UnwatchRequest {
    /// The actor being watched.
    pub target: ActorId,
    /// The watcher to remove.
    pub watcher: ActorId,
}

/// Notification that a watched actor has terminated.
#[derive(Debug, Clone, PartialEq, Eq)]
pub struct WatchNotification {
    /// The actor that terminated.
    pub terminated: ActorId,
    /// The watcher that should be notified.
    pub watcher: ActorId,
}

/// Request to cancel a remote operation.
#[derive(Debug, Clone, PartialEq, Eq)]
pub struct CancelRequest {
    /// The actor whose operation should be cancelled.
    pub target: ActorId,
    /// The request ID to cancel.
    pub request_id: Option<String>,
}

/// Acknowledgement of a cancel request.
#[derive(Debug, Clone, PartialEq, Eq)]
pub enum CancelResponse {
    /// Cancellation was delivered to the target.
    Acknowledged,
    /// The target actor or request was not found.
    NotFound {
        /// Description of what was not found.
        reason: String,
    },
}

/// A set of actors as a list of distinct keys.
pub type ActorSet = Vec<(ActorId, ())>;

/// The actors of a set as keys.
pub open spec fn set_of(s: Seq<(ActorId, ())>) -> Set<ActorKey> {
    assoc_map(s).dom()
}

/// Validity of a watch table: distinct targets, each with a non-empty set of
/// distinct watchers.
pub open spec fn watch_table_wf(t: Seq<(ActorId, ActorSet)>) -> bool {
    &&& keys_distinct(t)
    &&& forall|i: int| 0 <= i < t.len() ==> keys_distinct(#[trigger] t[i].1@) && t[i].1@.len() > 0
}

/// The watchers a table records for a target (none when absent).
pub open spec fn watchers_in(t: Seq<(ActorId, ActorSet)>, k: ActorKey) -> Set<ActorKey> {
    if assoc_map(t).dom().contains(k) {
        set_of(assoc_map(t)[k]@)
    } else {
        Set::empty()
    }
}

/// Manages remote watch/unwatch subscriptions: which watchers want to know
/// when which (local) actor terminates.
pub struct WatchManager {
    watchers: Vec<(ActorId, ActorSet)>,
}

impl WatchManager {
    /// The watchers of each actor (empty for unwatched actors).
    pub closed spec fn watchers(&self, k: ActorKey) -> Set<ActorKey> {
        watchers_in(self.watchers@, k)
    }

    /// The actors that have at least one watcher.
    pub closed spec fn watched(&self) -> Set<ActorKey> {
        assoc_map(self.watchers@).dom()
    }

    #[verifier::type_invariant]
    spec fn wf(&self) -> bool {
        watch_table_wf(self.watchers@)
    }

    /// Create a new empty WatchManager.
    pub fn new() -> (w: Self)
        ensures
            w.watched() == Set::<ActorKey>::empty(),
            forall|k: ActorKey| w.watchers(k) == Set::<ActorKey>::empty(),
    {
        let watchers: Vec<(ActorId, ActorSet)> = Vec::new();
        assert(assoc_map(watchers@) == Map::<ActorKey, ActorSet>::empty());
        WatchManager { watchers }
    }

    /// Register a watch: `watcher` wants to know when `target` terminates.
    pub fn watch(&mut self, target: ActorId, watcher: ActorId)
        ensures
            final(self).watchers(target@) == old(self).watchers(target@).insert(watcher@),
            forall|k: ActorKey| k != target@ ==> final(self).watchers(k) == old(self).watchers(k),
            final(self).watched() == old(self).watched().insert(target@),
    {
        proof {
            use_type_invariant(&*self);
        }
        let mut table: Vec<(ActorId, ActorSet)> = Vec::new();
        std::mem::swap(&mut table, &mut self.watchers);
        let ghost before = table@;
        let r = assoc_find(&table, &target);
        proof {
            lemma_assoc_find(table@, target@, r);
            lemma_assoc_dom(before);
        }
        match r {
            Some(i) => {
                proof {
                    lemma_assoc_index(before, i as int);
                }
                let mut set: ActorSet = Vec::new();
                std::mem::swap(&mut set, &mut table[i].1);
                set_insert(&mut set, watcher);
                let key = table[i].0.duplicate();
                proof {
                    lemma_assoc_update(before, i as int, set);
                }
                table.set(i, (key, set));
                assert(table@ == before.update(i as int, (before[i as int].0, set)));
                proof {
                    lemma_assoc_dom(table@);
                    assert forall|j: int| 0 <= j < table@.len() implies keys_distinct(#[trigger] table@[j].1@) && table@[j].1@.len() > 0 by {
                        if j != i {
                            assert(table@[j] == before[j]);
                        }
                    }
                    assert(assoc_map(table@).dom() =~= assoc_map(before).dom().insert(target@));
                }
            },
            None => {
                let mut set: ActorSet = Vec::new();
                assert(assoc_map(set@) == Map::<ActorKey, ()>::empty());
                set_insert(&mut set, watcher);
                proof {
                    lemma_assoc_push(before, target, set);
                }
                table.push((target, set));
                proof {
                    assert forall|j: int| 0 <= j < table@.len() implies keys_distinct(#[trigger] table@[j].1@) && table@[j].1@.len() > 0 by {
                        if j < before.len() {
                            assert(table@[j] == before[j]);
                        }
                    }
                }
            },
        }
        self.watchers = table;
    }

    /// Remove a watch subscription; an actor left without watchers is no
    /// longer watched.
    pub fn unwatch(&mut self, target: &ActorId, watcher: &ActorId)
        ensures
            final(self).watchers(target@) == old(self).watchers(target@).remove(watcher@),
            forall|k: ActorKey| k != target@ ==> final(self).watchers(k) == old(self).watchers(k),
            final(self).watched() == (if old(self).watchers(target@).remove(watcher@).is_empty() {
                old(self).watched().remove(target@)
            } else {
                old(self).watched()
            }),
    {
        proof {
            use_type_invariant(&*self);
        }
        let mut table: Vec<(ActorId, ActorSet)> = Vec::new();
        std::mem::swap(&mut table, &mut self.watchers);
        let ghost before = table@;
        let r = assoc_find(&table, target);
        proof {
            lemma_assoc_find(table@, target@, r);
            lemma_assoc_dom(before);
        }
        match r {
            Some(i) => {
                proof {
                    lemma_assoc_index(before, i as int);
                }
                let mut set: ActorSet = Vec::new();
                std::mem::swap(&mut set, &mut table[i].1);
                set_remove(&mut set, watcher);
                if set.len() == 0 {
                    proof {
                        lemma_assoc_remove(before, i as int);
                        lemma_assoc_dom(set@);
                        assert(set_of(set@) =~= Set::<ActorKey>::empty());
                    }
                    let _ = table.remove(i);
                    assert(table@ == before.remove(i as int));
                    proof {
                        assert forall|j: int| 0 <= j < table@.len() implies keys_distinct(#[trigger] table@[j].1@) && table@[j].1@.len() > 0 by {
                            if j < i {
                                assert(table@[j] == before[j]);
                            } else {
                                assert(table@[j] == before[j + 1]);
                            }
                        }
                    }
                } else {
                    let key = table[i].0.duplicate();
                    proof {
                        lemma_assoc_update(before, i as int, set);
                        lemma_assoc_index(set@, 0);
                    }
                    table.set(i, (key, set));
                    assert(table@ == before.update(i as int, (before[i as int].0, set)));
                    proof {
                        lemma_assoc_dom(table@);
                        assert(!set_of(set@).is_empty()) by {
                            assert(set_of(set@).contains(set@[0].0@));
                        }
                        assert forall|j: int| 0 <= j < table@.len() implies keys_distinct(#[trigger] table@[j].1@) && table@[j].1@.len() > 0 by {
                            if j != i {
                                assert(table@[j] == before[j]);
                            }
                        }
                        assert(assoc_map(table@).dom() =~= assoc_map(before).dom());
                    }
                }
            },
            None => {
                assert(Set::<ActorKey>::empty().remove(watcher@) =~= Set::<ActorKey>::empty());
            },
        }
        self.watchers = table;
    }

    /// Called when a local actor terminates: one notification per watcher of
    /// it, and it is no longer watched.
    pub fn on_terminated(&mut self, terminated: &ActorId) -> (notes: Vec<WatchNotification>)
        ensures
            forall|i: int| 0 <= i < notes@.len() ==> (#[trigger] notes@[i]).terminated@ == terminated@,
            notes@.map_values(|n: WatchNotification| n.watcher@).to_set() == old(self).watchers(terminated@),
            notes@.map_values(|n: WatchNotification| n.watcher@).no_duplicates(),
            final(self).watchers(terminated@) == Set::<ActorKey>::empty(),
            forall|k: ActorKey| k != terminated@ ==> final(self).watchers(k) == old(self).watchers(k),
            final(self).watched() == old(self).watched().remove(terminated@),
    {
        proof {
            use_type_invariant(&*self);
        }
        let mut table: Vec<(ActorId, ActorSet)> = Vec::new();
        std::mem::swap(&mut table, &mut self.watchers);
        let ghost before = table@;
        let r = assoc_find(&table, terminated);
        proof {
            lemma_assoc_find(table@, terminated@, r);
            lemma_assoc_dom(before);
        }
        let mut notes: Vec<WatchNotification> = Vec::new();
        match r {
            Some(i) => {
                proof {
                    lemma_assoc_index(before, i as int);
                    lemma_assoc_remove(before, i as int);
                }
                let (_, set) = table.remove(i);
                assert(table@ == before.remove(i as int));
                let mut j: usize = 0;
                while j < set.len()
                    invariant
                        keys_distinct(set@),
                        j <= set@.len(),
                        notes@.len() == j,
                        forall|a: int| 0 <= a < j ==> (#[trigger] notes@[a]).terminated@ == terminated@ && notes@[a].watcher@ == set@[a].0@,
                    decreases set@.len() - j,
                {
                    notes.push(WatchNotification { terminated: terminated.clone(), watcher: set[j].0.clone() });
                    j = j + 1;
                }
                proof {
                    let ws = notes@.map_values(|n: WatchNotification| n.watcher@);
                    lemma_assoc_dom(set@);
                    assert(ws.to_set() =~= set_of(set@)) by {
                        assert forall|k: ActorKey| ws.to_set().contains(k) <==> set_of(set@).contains(k) by {
                            if ws.to_set().contains(k) {
                                let a = choose|a: int| 0 <= a < ws.len() && ws[a] == k;
                                assert(set@[a].0@ == k);
                            }
                            if set_of(set@).contains(k) {
                                let a = choose|a: int| 0 <= a < set@.len() && set@[a].0@ == k;
                                assert(ws[a] == k);
                            }
                        }
                    }
                    assert(ws.no_duplicates()) by {
                        assert forall|a: int, b: int| 0 <= a < ws.len() && 0 <= b < ws.len() && a != b implies ws[a] != ws[b] by {
                            assert(ws[a] == set@[a].0@ && ws[b] == set@[b].0@);
                        }
                    }
                    assert forall|x: int| 0 <= x < table@.len() implies keys_distinct(#[trigger] table@[x].1@) && table@[x].1@.len() > 0 by {
                        if x < i {
                            assert(table@[x] == before[x]);
                        } else {
                            assert(table@[x] == before[x + 1]);
                        }
                    }
                }
            },
            None => {
                proof {
                    assert(notes@.map_values(|n: WatchNotification| n.watcher@).to_set() =~= Set::<ActorKey>::empty());
                    assert(assoc_map(before).dom().remove(terminated@) =~= assoc_map(before).dom());
                }
            },
        }
        self.watchers = table;
        notes
    }

    /// All watchers of an actor, each once.
    pub fn watchers_of(&self, target: &ActorId) -> (r: Vec<ActorId>)
        ensures
            keys_of(r@).to_set() == self.watchers(target@),
            keys_of(r@).no_duplicates(),
    {
        proof {
            use_type_invariant(self);
        }
        let found = assoc_find(&self.watchers, target);
        proof {
            lemma_assoc_find(self.watchers@, target@, found);
        }
        let mut out: Vec<ActorId> = Vec::new();
        match found {
            Some(i) => {
                let set = &self.watchers[i].1;
                assert(keys_distinct(set@));
                let mut j: usize = 0;
                while j < set.len()
                    invariant
                        keys_distinct(set@),
                        j <= set@.len(),
                        out@.len() == j,
                        forall|a: int| 0 <= a < j ==> (#[trigger] out@[a])@ == set@[a].0@,
                    decreases set@.len() - j,
                {
                    out.push(set[j].0.clone());
                    j = j + 1;
                }
                proof {
                    lemma_assoc_dom(set@);
                    let ws = keys_of(out@);
                    assert forall|k: ActorKey| ws.to_set().contains(k) <==> set_of(set@).contains(k) by {
                        if ws.to_set().contains(k) {
                            let a = choose|a: int| 0 <= a < ws.len() && ws[a] == k;
                            assert(set@[a].0@ == k);
                        }
                        if set_of(set@).contains(k) {
                            let a = choose|a: int| 0 <= a < set@.len() && set@[a].0@ == k;
                            assert(ws[a] == k);
                        }
                    }
                    assert(ws.to_set() =~= set_of(set@));
                    assert forall|a: int, b: int| 0 <= a < ws.len() && 0 <= b < ws.len() && a != b implies ws[a] != ws[b] by {
                        assert(ws[a] == set@[a].0@ && ws[b] == set@[b].0@);
                    }
                }
            },
            None => {
                assert(keys_of(out@).to_set() =~= Set::<ActorKey>::empty());
            },
        }
        out
    }

    /// Number of watched actors.
    pub fn watched_count(&self) -> (n: usize)
        ensures
            n == self.watched().len(),
            self.watched().finite(),
            forall|k: ActorKey| #[trigger] self.watched().contains(k) <==> self.watchers(k).len() > 0,
    {
        proof {
            use_type_invariant(self);
            lemma_assoc_len(self.watchers@);
            let t = self.watchers@;
            lemma_assoc_dom(t);
            assert forall|k: ActorKey| #[trigger] self.watched().contains(k) <==> self.watchers(k).len() > 0 by {
                if self.watched().contains(k) {
                    let i = choose|i: int| 0 <= i < t.len() && t[i].0@ == k;
                    lemma_assoc_index(t, i);
                    let w = t[i].1@;
                    assert(keys_distinct(w) && w.len() > 0);
                    lemma_assoc_index(w, 0);
                    lemma_assoc_dom(w);
                    vstd::set::axiom_set_contains_len(set_of(w), w[0].0@);
                }
            }
        }
        self.watchers.len()
    }
}

/// Adds an actor to a set (no change when already present).
fn set_insert(set: &mut ActorSet, x: ActorId)
    requires
        keys_distinct(old(set)@),
    ensures
        keys_distinct(final(set)@),
        set_of(final(set)@) == set_of(old(set)@).insert(x@),
        final(set)@.len() > 0,
{
    let r = assoc_find(set, &x);
    proof {
        lemma_assoc_find(set@, x@, r);
    }
    match r {
        Some(i) => {
            proof {
                lemma_assoc_dom(set@);
                assert(set_of(set@).insert(x@) =~= set_of(set@));
            }
        },
        None => {
            proof {
                lemma_assoc_push(set@, x, ());
            }
            set.push((x, ()));
        },
    }
}

/// Removes an actor from a set (no change when absent).
fn set_remove(set: &mut ActorSet, x: &ActorId)
    requires
        keys_distinct(old(set)@),
    ensures
        keys_distinct(final(set)@),
        set_of(final(set)@) == set_of(old(set)@).remove(x@),
{
    let r = assoc_find(set, x);
    proof {
        lemma_assoc_find(set@, x@, r);
    }
    match r {
        Some(i) => {
            proof {
                lemma_assoc_remove(set@, i as int);
            }
            let _ = set.remove(i);
        },
        None => {
            proof {
                assert(set_of(set@).remove(x@) =~= set_of(set@));
            }
        },
    }
}


/// Connection status of a peer node.
#[derive(Debug, Clone, Copy, PartialEq, Eq, Structural)]
pub enum PeerStatus {
    /// Connection is being established.
    Connecting,
    /// Node is connected and reachable.
    Connected,
    /// Node is suspected unreachable (health check failed).
    Unreachable,
    /// Node has been disconnected (gracefully or due to failure).
    Disconnected,
}

/// Metadata about a peer node.
#[derive(Debug, PartialEq, Eq)]
pub struct PeerInfo {
    /// The peer's node ID.
    pub node_id: NodeId,
    /// Current connection status.
    pub status: PeerStatus,
    /// Optional endpoint address (e.g. "10.0.0.1:4697").
    pub address: Option<String>,
}

/// An optional string as optional text.
pub open spec fn opt_text(o: Option<String>) -> Option<Seq<char>> {
    match o {
        Some(s) => Some(s@),
        None => None,
    }
}

/// What the directory knows of a peer, as plain values.
pub struct PeerView {
    /// Connection status.
    pub status: PeerStatus,
    /// Endpoint address.
    pub address: Option<Seq<char>>,
}

/// The plain view of a peer's metadata.
pub open spec fn peer_view(p: PeerInfo) -> PeerView {
    PeerView { status: p.status, address: opt_text(p.address) }
}

fn clone_opt_string(s: &Option<String>) -> (r: Option<String>)
    ensures
        r == *s,
{
    match s {
        Some(x) => Some(x.clone()),
        None => None,
    }
}

impl Clone for PeerInfo {
    fn clone(&self) -> (r: Self)
        ensures
            r == *self,
    {
        PeerInfo { node_id: self.node_id.clone(), status: self.status, address: clone_opt_string(&self.address) }
    }
}

/// Validity of a directory table: distinct nodes, each entry's info naming
/// its own node.
pub open spec fn directory_wf(t: Seq<(NodeId, PeerInfo)>) -> bool {
    &&& keys_distinct(t)
    &&& forall|i: int| 0 <= i < t.len() ==> (#[trigger] t[i]).1.node_id@ == t[i].0@
}

/// Maps node ids to peer connection information: the runtime's view of the
/// cluster topology.
pub struct NodeDirectory {
    peers: Vec<(NodeId, PeerInfo)>,
}

impl NodeDirectory {
    /// Known peers and what is known of each.
    pub closed spec fn peers(&self) -> Map<Seq<char>, PeerView> {
        assoc_map(self.peers@).map_values(|p: PeerInfo| peer_view(p))
    }

    /// The nodes whose status is `status`.
    pub open spec fn nodes_with(&self, status: PeerStatus) -> Set<Seq<char>> {
        self.peers().dom().filter(|k: Seq<char>| self.peers()[k].status == status)
    }

    #[verifier::type_invariant]
    spec fn wf(&self) -> bool {
        directory_wf(self.peers@)
    }

    /// Create a new empty directory.
    pub fn new() -> (d: Self)
        ensures
            d.peers() == Map::<Seq<char>, PeerView>::empty(),
    {
        let peers: Vec<(NodeId, PeerInfo)> = Vec::new();
        assert(assoc_map(peers@).map_values(|p: PeerInfo| peer_view(p)) =~= Map::<Seq<char>, PeerView>::empty());
        NodeDirectory { peers }
    }

    /// Register a peer node (status `Connecting`), replacing any previous
    /// entry for it.
    pub fn add_peer(&mut self, node_id: NodeId, address: Option<String>)
        ensures
            final(self).peers() == old(self).peers().insert(node_id@, PeerView { status: PeerStatus::Connecting, address: opt_text(address) }),
    {
        proof {
            use_type_invariant(&*self);
        }
        let mut table: Vec<(NodeId, PeerInfo)> = Vec::new();
        std::mem::swap(&mut table, &mut self.peers);
        let ghost before = table@;
        let info = PeerInfo { node_id: node_id.clone(), status: PeerStatus::Connecting, address };
        let r = assoc_find(&table, &node_id);
        proof {
            lemma_assoc_find(table@, node_id@, r);
        }
        match r {
            Some(i) => {
                let key = table[i].0.duplicate();
                proof {
                    lemma_assoc_update(before, i as int, info);
                }
                table.set(i, (key, info));
                assert(table@ == before.update(i as int, (before[i as int].0, info)));
                assert forall|j: int| 0 <= j < table@.len() implies (#[trigger] table@[j]).1.node_id@ == table@[j].0@ by {
                    if j != i {
                        assert(table@[j] == before[j]);
                    }
                }
            },
            None => {
                proof {
                    lemma_assoc_push(before, node_id, info);
                }
                table.push((node_id, info));
                assert forall|j: int| 0 <= j < table@.len() implies (#[trigger] table@[j]).1.node_id@ == table@[j].0@ by {
                    if j < before.len() {
                        assert(table@[j] == before[j]);
                    }
                }
            },
        }
        assert(assoc_map(table@).map_values(|p: PeerInfo| peer_view(p)) =~= assoc_map(before).map_values(|p: PeerInfo| peer_view(p)).insert(node_id@, peer_view(info)));
        self.peers = table;
    }

    /// Update the status of a known peer (no change for unknown nodes).
    pub fn set_status(&mut self, node_id: &NodeId, status: PeerStatus)
        ensures
            old(self).peers().dom().contains(node_id@) ==> final(self).peers() == old(self).peers().insert(node_id@, PeerView { status, address: old(self).peers()[node_id@].address }),
            !old(self).peers().dom().contains(node_id@) ==> final(self).peers() == old(self).peers(),
    {
        proof {
            use_type_invariant(&*self);
        }
        let mut table: Vec<(NodeId, PeerInfo)> = Vec::new();
        std::mem::swap(&mut table, &mut self.peers);
        let ghost before = table@;
        let r = assoc_find(&table, node_id);
        proof {
            lemma_assoc_find(table@, node_id@, r);
        }
        match r {
            Some(i) => {
                proof {
                    lemma_assoc_index(before, i as int);
                }
                let mut info = table[i].1.clone();
                info.status = status;
                let key = table[i].0.duplicate();
                proof {
                    lemma_assoc_update(before, i as int, info);
                }
                table.set(i, (key, info));
                assert(table@ == before.update(i as int, (before[i as int].0, info)));
                assert forall|j: int| 0 <= j < table@.len() implies (#[trigger] table@[j]).1.node_id@ == table@[j].0@ by {
                    if j != i {
                        assert(table@[j] == before[j]);
                    }
                }
                assert(assoc_map(table@).map_values(|p: PeerInfo| peer_view(p)) =~= assoc_map(before).map_values(|p: PeerInfo| peer_view(p)).insert(node_id@, peer_view(info)));
            },
            None => {},
        }
        self.peers = table;
    }

    /// Remove a peer from the directory.
    pub fn remove_peer(&mut self, node_id: &NodeId)
        ensures
            final(self).peers() == old(self).peers().remove(node_id@),
    {
        proof {
            use_type_invariant(&*self);
        }
        let mut table: Vec<(NodeId, PeerInfo)> = Vec::new();
        std::mem::swap(&mut table, &mut self.peers);
        let ghost before = table@;
        let r = assoc_find(&table, node_id);
        proof {
            lemma_assoc_find(table@, node_id@, r);
        }
        match r {
            Some(i) => {
                proof {
                    lemma_assoc_remove(before, i as int);
                }
                let _ = table.remove(i);
                assert(table@ == before.remove(i as int));
                assert forall|j: int| 0 <= j < table@.len() implies (#[trigger] table@[j]).1.node_id@ == table@[j].0@ by {
                    if j < i {
                        assert(table@[j] == before[j]);
                    } else {
                        assert(table@[j] == before[j + 1]);
                    }
                }
                assert(assoc_map(table@).map_values(|p: PeerInfo| peer_view(p)) =~= assoc_map(before).map_values(|p: PeerInfo| peer_view(p)).remove(node_id@));
            },
            None => {
                assert(assoc_map(before).map_values(|p: PeerInfo| peer_view(p)).remove(node_id@) =~= assoc_map(before).map_values(|p: PeerInfo| peer_view(p)));
            },
        }
        self.peers = table;
    }

    /// Look up a peer by node ID.
    pub fn get_peer(&self, node_id: &NodeId) -> (r: Option<&PeerInfo>)
        ensures
            r is Some <==> self.peers().dom().contains(node_id@),
            r matches Some(p) ==> p.node_id@ == node_id@ && peer_view(*p) == self.peers()[node_id@],
    {
        proof {
            use_type_invariant(self);
        }
        let r = assoc_find(&self.peers, node_id);
        proof {
            lemma_assoc_find(self.peers@, node_id@, r);
        }
        match r {
            Some(i) => Some(&self.peers[i].1),
            None => None,
        }
    }

    /// All known peer node IDs, each once.
    pub fn peer_nodes(&self) -> (r: Vec<NodeId>)
        ensures
            r@.map_values(|n: NodeId| n@).to_set() == self.peers().dom(),
            r@.map_values(|n: NodeId| n@).no_duplicates(),
    {
        proof {
            use_type_invariant(self);
            lemma_assoc_dom(self.peers@);
        }
        let mut out: Vec<NodeId> = Vec::new();
        let mut i: usize = 0;
        while i < self.peers.len()
            invariant
                keys_distinct(self.peers@),
                i <= self.peers@.len(),
                out@.len() == i,
                forall|a: int| 0 <= a < i ==> (#[trigger] out@[a])@ == self.peers@[a].0@,
            decreases self.peers@.len() - i,
        {
            out.push(self.peers[i].0.clone());
            i = i + 1;
        }
        proof {
            let ws = out@.map_values(|n: NodeId| n@);
            assert forall|k: Seq<char>| ws.to_set().contains(k) <==> self.peers().dom().contains(k) by {
                if ws.to_set().contains(k) {
                    let a = choose|a: int| 0 <= a < ws.len() && ws[a] == k;
                    assert(self.peers@[a].0@ == k);
                }
                if self.peers().dom().contains(k) {
                    let a = choose|a: int| 0 <= a < self.peers@.len() && self.peers@[a].0@ == k;
                    assert(ws[a] == k);
                }
            }
            assert(ws.to_set() =~= self.peers().dom());
            assert forall|a: int, b: int| 0 <= a < ws.len() && 0 <= b < ws.len() && a != b implies ws[a] != ws[b] by {
                assert(ws[a] == self.peers@[a].0@ && ws[b] == self.peers@[b].0@);
            }
        }
        out
    }

    /// All peers with a specific status, each once.
    pub fn peers_with_status(&self, status: PeerStatus) -> (r: Vec<&PeerInfo>)
        ensures
            r@.map_values(|p: &PeerInfo| p.node_id@).to_set() == self.nodes_with(status),
            r@.map_values(|p: &PeerInfo| p.node_id@).no_duplicates(),
            forall|i: int| 0 <= i < r@.len() ==> peer_view(*(#[trigger] r@[i])) == self.peers()[r@[i].node_id@],
    {
        proof {
            use_type_invariant(self);
            lemma_assoc_dom(self.peers@);
        }
        let mut out: Vec<&PeerInfo> = Vec::new();
        let ghost mut idx: Seq<int> = Seq::empty();
        let mut i: usize = 0;
        while i < self.peers.len()
            invariant
                directory_wf(self.peers@),
                i <= self.peers@.len(),
                out@.len() == idx.len(),
                forall|a: int| 0 <= a < idx.len() ==> 0 <= #[trigger] idx[a] < i && *out@[a] == self.peers@[idx[a]].1 && self.peers@[idx[a]].1.status == status,
                forall|a: int, b: int| 0 <= a < b < idx.len() ==> idx[a] < idx[b],
                forall|j: int| 0 <= j < i && self.peers@[j].1.status == status ==> exists|a: int| 0 <= a < idx.len() && idx[a] == j,
            decreases self.peers@.len() - i,
        {
            let ghost old_idx = idx;
            if self.peers[i].1.status == status {
                out.push(&self.peers[i].1);
                proof {
                    idx = idx.push(i as int);
                }
            }
            proof {
                assert forall|j: int| 0 <= j < i + 1 && self.peers@[j].1.status == status implies exists|a: int| 0 <= a < idx.len() && idx[a] == j by {
                    if j == i {
                        assert(idx[idx.len() - 1] == j);
                    } else {
                        let a = choose|a: int| 0 <= a < old_idx.len() && old_idx[a] == j;
                        assert(idx[a] == old_idx[a]);
                    }
                }
            }
            i = i + 1;
        }
        proof {
            let ws = out@.map_values(|p: &PeerInfo| p.node_id@);
            assert forall|a: int| 0 <= a < idx.len() implies ws[a] == self.peers@[#[trigger] idx[a]].0@ by {}
            assert forall|k: Seq<char>| ws.to_set().contains(k) <==> self.nodes_with(status).contains(k) by {
                if ws.to_set().contains(k) {
                    let a = choose|a: int| 0 <= a < ws.len() && ws[a] == k;
                    let j = idx[a];
                    assert(ws[a] == self.peers@[j].0@);
                    lemma_assoc_index(self.peers@, j);
                }
                if self.nodes_with(status).contains(k) {
                    let j = choose|j: int| 0 <= j < self.peers@.len() && self.peers@[j].0@ == k;
                    lemma_assoc_index(self.peers@, j);
                    let a = choose|a: int| 0 <= a < idx.len() && idx[a] == j;
                    assert(ws[a] == self.peers@[idx[a]].0@);
                }
            }
            assert(ws.to_set() =~= self.nodes_with(status));
            assert forall|a: int, b: int| 0 <= a < ws.len() && 0 <= b < ws.len() && a != b implies ws[a] != ws[b] by {
                assert(ws[a] == self.peers@[idx[a]].0@ && ws[b] == self.peers@[idx[b]].0@);
                if a < b {
                    assert(idx[a] < idx[b]);
                } else {
                    assert(idx[b] < idx[a]);
                }
            }
            assert forall|a: int| 0 <= a < out@.len() implies peer_view(*(#[trigger] out@[a])) == self.peers()[out@[a].node_id@] by {
                lemma_assoc_index(self.peers@, idx[a]);
            }
        }
        out
    }

    /// Number of known peers.
    pub fn peer_count(&self) -> (n: usize)
        ensures
            n == self.peers().dom().len(),
    {
        proof {
            use_type_invariant(self);
            lemma_assoc_len(self.peers@);
            assert(self.peers().dom() =~= assoc_map(self.peers@).dom());
        }
        self.peers.len()
    }

    /// Number of connected peers.
    pub fn connected_count(&self) -> (n: usize)
        ensures
            n == self.nodes_with(PeerStatus::Connected).len(),
    {
        proof {
            use_type_invariant(self);
        }
        let ghost f = |p: PeerInfo| p.status == PeerStatus::Connected;
        let ghost pred = |q: (NodeId, PeerInfo)| f(q.1);
        let mut n: usize = 0;
        let mut i: usize = 0;
        proof {
            reveal(Seq::filter);
            assert(self.peers@.take(0).filter(pred) =~= Seq::<(NodeId, PeerInfo)>::empty());
        }
        while i < self.peers.len()
            invariant
                i <= self.peers@.len(),
                n == self.peers@.take(i as int).filter(pred).len(),
                pred == (|q: (NodeId, PeerInfo)| f(q.1)),
                f == (|p: PeerInfo| p.status == PeerStatus::Connected),
                n <= i,
            decreases self.peers@.len() - i,
        {
            proof {
                reveal(Seq::filter);
                assert(self.peers@.take(i + 1).drop_last() =~= self.peers@.take(i as int));
            }
            if self.peers[i].1.status == PeerStatus::Connected {
                n = n + 1;
            }
            i = i + 1;
        }
        proof {
            assert(self.peers@.take(self.peers@.len() as int) =~= self.peers@);
            lemma_assoc_count(self.peers@, f);
            let m = assoc_map(self.peers@);
            assert(m.dom().filter(|k: Seq<char>| f(m[k])) =~= self.nodes_with(PeerStatus::Connected));
        }
        n
    }

    /// Whether a node is known and connected.
    pub fn is_connected(&self, node_id: &NodeId) -> (r: bool)
        ensures
            r == (self.peers().dom().contains(node_id@) && self.peers()[node_id@].status == PeerStatus::Connected),
    {
        match self.get_peer(node_id) {
            Some(p) => p.status == PeerStatus::Connected,
            None => false,
        }
    }
}


#[verifier::external_type_specification]
#[verifier::external_body]
pub struct ExCancellationToken(tokio_util::sync::CancellationToken);

/// `CancellationToken::cancel`: signals cancellation to the token and all
/// its clones. Nothing is claimed here beyond the call being made; the
/// token's state is not visible to the contracts.
#[verifier::external_body]
fn signal_cancel(token: &tokio_util::sync::CancellationToken) {
    token.cancel()
}

/// Text of the not-found reason for a cancel request.
pub open spec fn no_active_request_text(id: Seq<char>) -> Seq<char> {
    "no active request with id '"@ + id + "'"@
}

/// Manages remote cancellation requests: the cancellation tokens of the
/// operations that can still be cancelled, by request id.
pub struct CancelManager {
    tokens: Vec<(String, tokio_util::sync::CancellationToken)>,
}

impl CancelManager {
    /// Request ids with an active token, and each one's token.
    pub closed spec fn active(&self) -> Map<Seq<char>, tokio_util::sync::CancellationToken> {
        assoc_map(self.tokens@)
    }

    #[verifier::type_invariant]
    spec fn wf(&self) -> bool {
        keys_distinct(self.tokens@)
    }

    /// Create a new empty CancelManager.
    pub fn new() -> (c: Self)
        ensures
            c.active() == Map::<Seq<char>, tokio_util::sync::CancellationToken>::empty(),
    {
        let tokens: Vec<(String, tokio_util::sync::CancellationToken)> = Vec::new();
        assert(assoc_map(tokens@) == Map::<Seq<char>, tokio_util::sync::CancellationToken>::empty());
        CancelManager { tokens }
    }

    /// Register a cancellation token for a request (replacing any earlier one).
    pub fn register(&mut self, request_id: String, token: tokio_util::sync::CancellationToken)
        ensures
            final(self).active() == old(self).active().insert(request_id@, token),
    {
        proof {
            use_type_invariant(&*self);
        }
        let mut table: Vec<(String, tokio_util::sync::CancellationToken)> = Vec::new();
        std::mem::swap(&mut table, &mut self.tokens);
        let ghost before = table@;
        let r = assoc_find(&table, &request_id);
        proof {
            lemma_assoc_find(table@, request_id@, r);
        }
        match r {
            Some(i) => {
                let key = table[i].0.duplicate();
                proof {
                    lemma_assoc_update(before, i as int, token);
                }
                table.set(i, (key, token));
            },
            None => {
                proof {
                    lemma_assoc_push(before, request_id, token);
                }
                table.push((request_id, token));
            },
        }
        self.tokens = table;
    }

    /// Process a cancel request: when the id has an active token, signal it,
    /// drop it and acknowledge; otherwise answer not-found.
    pub fn cancel(&mut self, request_id: &str) -> (resp: CancelResponse)
        ensures
            old(self).active().dom().contains(request_id@) ==> resp is Acknowledged,
            !old(self).active().dom().contains(request_id@) ==>
                (resp matches CancelResponse::NotFound { reason } && reason@ == no_active_request_text(request_id@)),
            final(self).active() == old(self).active().remove(request_id@),
    {
        proof {
            use_type_invariant(&*self);
        }
        let key = String::from_str(request_id);
        let mut table: Vec<(String, tokio_util::sync::CancellationToken)> = Vec::new();
        std::mem::swap(&mut table, &mut self.tokens);
        let ghost before = table@;
        let r = assoc_find(&table, &key);
        proof {
            lemma_assoc_find(table@, key@, r);
        }
        let resp = match r {
            Some(i) => {
                proof {
                    lemma_assoc_remove(before, i as int);
                }
                let (_, token) = table.remove(i);
                assert(table@ == before.remove(i as int));
                signal_cancel(&token);
                CancelResponse::Acknowledged
            },
            None => {
                assert(assoc_map(before).remove(key@) =~= assoc_map(before));
                let mut reason = String::from_str("no active request with id '");
                reason.append(request_id);
                reason.append("'");
                CancelResponse::NotFound { reason }
            },
        };
        self.tokens = table;
        resp
    }

    /// Remove a token after the operation completes (cleanup).
    pub fn remove(&mut self, request_id: &str)
        ensures
            final(self).active() == old(self).active().remove(request_id@),
    {
        proof {
            use_type_invariant(&*self);
        }
        let key = String::from_str(request_id);
        let mut table: Vec<(String, tokio_util::sync::CancellationToken)> = Vec::new();
        std::mem::swap(&mut table, &mut self.tokens);
        let ghost before = table@;
        let r = assoc_find(&table, &key);
        proof {
            lemma_assoc_find(table@, key@, r);
        }
        match r {
            Some(i) => {
                proof {
                    lemma_assoc_remove(before, i as int);
                }
                let _ = table.remove(i);
                assert(table@ == before.remove(i as int));
            },
            None => {
                assert(assoc_map(before).remove(key@) =~= assoc_map(before));
            },
        }
        self.tokens = table;
    }

    /// Number of active cancellable operations.
    pub fn active_count(&self) -> (n: usize)
        ensures
            n == self.active().dom().len(),
    {
        proof {
            use_type_invariant(self);
            lemma_assoc_len(self.tokens@);
        }
        self.tokens.len()
    }
}


/// Watching and then unwatching restores an actor's watchers when the
/// watcher was not watching it before, and other actors' watchers are never
/// touched.
pub proof fn law_watch_then_unwatch(a: WatchManager, b: WatchManager, c: WatchManager, target: ActorKey, watcher: ActorKey)
    requires
        !a.watchers(target).contains(watcher),
        b.watchers(target) == a.watchers(target).insert(watcher),
        c.watchers(target) == b.watchers(target).remove(watcher),
    ensures
        c.watchers(target) == a.watchers(target),
{
    assert(a.watchers(target).insert(watcher).remove(watcher) =~= a.watchers(target));
}

/// A termination notifies every watcher registered before it, once: the
/// notified watchers of an actor that was watched by `w` include `w`.
pub proof fn law_watch_then_terminate(before: Set<ActorKey>, watcher: ActorKey, notified: Seq<ActorKey>)
    requires
        notified.to_set() == before.insert(watcher),
    ensures
        notified.contains(watcher),
{
    assert(notified.to_set().contains(watcher));
}

/// A registered peer can be looked up with status `Connecting` and the
/// given address; after it is removed it is gone, and other peers stay.
pub proof fn law_add_then_remove_peer(
    a: Map<Seq<char>, PeerView>,
    node: Seq<char>,
    address: Option<Seq<char>>,
    other: Seq<char>,
)
    requires
        other != node,
    ensures
        a.insert(node, PeerView { status: PeerStatus::Connecting, address })[node] == (PeerView { status: PeerStatus::Connecting, address }),
        !a.insert(node, PeerView { status: PeerStatus::Connecting, address }).remove(node).dom().contains(node),
        a.insert(node, PeerView { status: PeerStatus::Connecting, address }).remove(node).dom().contains(other)
            == a.dom().contains(other),
{
}

} // verus!
