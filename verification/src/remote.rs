//! Remote actor wire types: envelopes, headers, cluster state and discovery.

use vstd::prelude::*;
use vstd::string::*;
use crate::assoc::KeyedMap;
use crate::interceptor::SendMode;
use crate::node::{ActorId, NodeId};
use crate::text::{decimal_text, u64_to_decimal};
use crate::version::WireVersion;

verus! {

/// Error during serialization/deserialization.
#[derive(Debug)]
pub struct SerializationError {
    /// Description of the serialization failure.
    pub message: String,
}

impl Clone for SerializationError {
    fn clone(&self) -> (r: Self)
        ensures
            r.message@ == self.message@,
    {
        SerializationError { message: self.message.clone() }
    }
}

impl SerializationError {
    /// Create a new serialization error with the given message.
    pub fn new(message: &str) -> (e: Self)
        ensures
            e.message@ == message@,
    {
        SerializationError { message: String::from_str(message) }
    }

    /// Text form: `serialization error: <message>`.
    pub fn to_string(&self) -> (s: String)
        ensures
            s@ == "serialization error: "@ + self.message@,
    {
        let mut s = String::from_str("serialization error: ");
        s.append(self.message.as_str());
        s
    }
}

/// Wire-format headers: string key to serialized bytes, each key once.
#[derive(Debug)]
pub struct WireHeaders {
    pub(crate) entries: KeyedMap<String, Vec<u8>>,
}

/// A list of (name, bytes) pairs as plain values.
pub open spec fn plain_pairs(s: Seq<(String, Vec<u8>)>) -> Seq<(Seq<char>, Seq<u8>)> {
    s.map_values(|p: (String, Vec<u8>)| (p.0@, p.1@))
}

/// The map a list of (name, bytes) pairs denotes; later pairs win.
pub open spec fn pairs_map(s: Seq<(Seq<char>, Seq<u8>)>) -> Map<Seq<char>, Seq<u8>>
    decreases s.len(),
{
    if s.len() == 0 {
        Map::empty()
    } else {
        pairs_map(s.drop_last()).insert(s.last().0, s.last().1)
    }
}

/// No two pairs share a name.
pub open spec fn pairs_distinct(s: Seq<(Seq<char>, Seq<u8>)>) -> bool {
    forall|i: int, j: int| 0 <= i < s.len() && 0 <= j < s.len() && i != j ==> s[i].0 != s[j].0
}

/// The plain map of a stored list is the stored map with values viewed.
pub proof fn lemma_plain_pairs_map(s: Seq<(String, Vec<u8>)>)
    ensures
        pairs_map(plain_pairs(s)) == crate::assoc::assoc_map(s).map_values(|v: Vec<u8>| v@),
    decreases s.len(),
{
    if s.len() > 0 {
        lemma_plain_pairs_map(s.drop_last());
        assert(plain_pairs(s).drop_last() =~= plain_pairs(s.drop_last()));
        assert(pairs_map(plain_pairs(s)) =~= crate::assoc::assoc_map(s).map_values(|v: Vec<u8>| v@));
    } else {
        assert(pairs_map(plain_pairs(s)) =~= crate::assoc::assoc_map(s).map_values(|v: Vec<u8>| v@));
    }
}

impl WireHeaders {
    /// The stored pairs as plain values, in storage order.
    pub closed spec fn pairs(&self) -> Seq<(Seq<char>, Seq<u8>)> {
        plain_pairs(self.entries.pairs())
    }

    /// The stored pairs, each name once, in storage order.
    pub fn entry_list(&self) -> (r: &Vec<(String, Vec<u8>)>)
        ensures
            plain_pairs(r@) == self.pairs(),
            pairs_distinct(self.pairs()),
            pairs_map(self.pairs()) == self.map(),
    {
        let r = self.entries.entries();
        proof {
            lemma_plain_pairs_map(r@);
            assert forall|i: int, j: int| 0 <= i < r@.len() && 0 <= j < r@.len() && i != j implies
                plain_pairs(r@)[i].0 != plain_pairs(r@)[j].0 by {
                assert(r@[i].0@ != r@[j].0@);
            }
        }
        r
    }

    /// The headers as a map from name to bytes.
    pub closed spec fn map(&self) -> Map<Seq<char>, Seq<u8>> {
        self.entries.map().map_values(|v: Vec<u8>| v@)
    }

    /// Create an empty wire headers map.
    pub fn new() -> (h: Self)
        ensures
            h.map() == Map::<Seq<char>, Seq<u8>>::empty(),
    {
        let h = WireHeaders { entries: KeyedMap::new() };
        assert(h.map() =~= Map::<Seq<char>, Seq<u8>>::empty());
        h
    }

    /// Insert a header entry, replacing any previous value of that name.
    pub fn insert(&mut self, name: String, value: Vec<u8>)
        ensures
            final(self).map() == old(self).map().insert(name@, value@),
    {
        let ghost v = value@;
        let ghost n = name@;
        self.entries.insert(name, value);
        assert(self.map() =~= old(self).map().insert(n, v));
    }

    /// Get a header value by name.
    pub fn get(&self, name: &str) -> (r: Option<&[u8]>)
        ensures
            r is Some <==> self.map().dom().contains(name@),
            r matches Some(b) ==> b@ == self.map()[name@],
    {
        let key = String::from_str(name);
        match self.entries.get(&key) {
            Some(v) => Some(v.as_slice()),
            None => None,
        }
    }

    /// Whether there are no headers.
    pub fn is_empty(&self) -> (r: bool)
        ensures
            r == (self.map().dom().len() == 0),
    {
        assert(self.map().dom() =~= self.entries.map().dom());
        self.entries.is_empty()
    }

    /// Number of header entries.
    pub fn len(&self) -> (n: usize)
        ensures
            n == self.map().dom().len(),
    {
        assert(self.map().dom() =~= self.entries.map().dom());
        self.entries.len()
    }
}

/// Wire-format envelope for remote messages.
#[derive(Debug)]
pub struct WireEnvelope {
    /// Target actor ID.
    pub target: ActorId,
    /// Target actor's human-readable name.
    pub target_name: String,
    /// Rust type name of the message (for deserialization dispatch).
    pub message_type: String,
    /// How the message was sent.
    pub send_mode: SendMode,
    /// Serialized headers (string key to bytes).
    pub headers: WireHeaders,
    /// Serialized message body.
    pub body: Vec<u8>,
    /// Request id for correlating ask replies, as the 128-bit value of a
    /// UUID (None for tell).
    pub request_id: Option<u128>,
    /// Message version for schema evolution (None = current version).
    pub version: Option<u32>,
}

/// Registry of header deserializers by header name: turns the bytes of a
/// wire header back into a typed header value.
pub struct HeaderRegistry<F> {
    deserializers: KeyedMap<String, F>,
}

impl<F> HeaderRegistry<F> {
    /// The registered deserializers by header name.
    pub closed spec fn registered(&self) -> Map<Seq<char>, F> {
        self.deserializers.map()
    }

    /// An empty registry.
    pub fn new() -> (r: Self)
        ensures
            r.registered() == Map::<Seq<char>, F>::empty(),
            r.registered().dom().finite(),
    {
        HeaderRegistry { deserializers: KeyedMap::new() }
    }

    /// Register the deserializer of a named header (replacing any earlier one).
    pub fn register(&mut self, header_name: &str, deserializer: F)
        ensures
            final(self).registered() == old(self).registered().insert(header_name@, deserializer),
            final(self).registered().dom().finite(),
    {
        self.deserializers.insert(String::from_str(header_name), deserializer);
        proof {
            self.deserializers.lemma_finite();
        }
    }

    /// Number of registered deserializers.
    pub fn len(&self) -> (n: usize)
        ensures
            n == self.registered().dom().len(),
    {
        self.deserializers.len()
    }

    /// Whether no deserializer is registered.
    pub fn is_empty(&self) -> (r: bool)
        ensures
            r == (self.registered().dom().len() == 0),
    {
        self.deserializers.is_empty()
    }

    /// Deserialize header bytes with the deserializer registered for the
    /// name; `None` when none is registered or it fails.
    pub fn deserialize<H>(&self, header_name: &str, bytes: &[u8]) -> (r: Option<H>)
        where
            F: Fn(&[u8]) -> Option<H>,
        requires
            self.registered().dom().contains(header_name@) ==> call_requires(self.registered()[header_name@], (bytes,)),
        ensures
            !self.registered().dom().contains(header_name@) ==> r is None,
            self.registered().dom().contains(header_name@) ==> call_ensures(self.registered()[header_name@], (bytes,), r),
    {
        let key = String::from_str(header_name);
        match self.deserializers.get(&key) {
            Some(f) => f(bytes),
            None => None,
        }
    }
}

/// The values that are present, in order.
pub open spec fn present_values<H>(s: Seq<Option<H>>) -> Seq<H>
    decreases s.len(),
{
    if s.len() == 0 {
        Seq::empty()
    } else {
        match s.last() {
            Some(h) => present_values(s.drop_last()).push(h),
            None => present_values(s.drop_last()),
        }
    }
}

/// `out` is what the registry makes of one wire header: the result of the
/// deserializer registered under its name, called on its bytes, or nothing
/// when none is registered.
pub open spec fn header_outcome<F: Fn(&[u8]) -> Option<H>, H>(
    registered: Map<Seq<char>, F>,
    header: (Seq<char>, Seq<u8>),
    out: Option<H>,
) -> bool {
    if registered.dom().contains(header.0) {
        forall|b: &[u8]| (#[trigger] b@) == header.1 ==> call_ensures(registered[header.0], (b,), out)
    } else {
        out is None
    }
}

impl WireHeaders {
    /// Rebuild the typed headers: each wire header, in order, goes through
    /// the deserializer registered under its name, and the values it gives
    /// are kept; headers without a deserializer, or that it refuses, are
    /// left out.
    pub fn to_headers<F, H>(&self, registry: &HeaderRegistry<F>) -> (r: Vec<H>)
        where
            F: Fn(&[u8]) -> Option<H>,
        requires
            forall|name: Seq<char>, b: &[u8]| registry.registered().dom().contains(name)
                ==> #[trigger] call_requires(registry.registered()[name], (b,)),
        ensures
            exists|outs: Seq<Option<H>>|
                outs.len() == self.pairs().len()
                && (forall|i: int| 0 <= i < outs.len() ==> #[trigger] header_outcome(registry.registered(), self.pairs()[i], outs[i]))
                && r@ == #[trigger] present_values(outs),
    {
        let list = self.entry_list();
        let mut out: Vec<H> = Vec::new();
        let ghost mut outs: Seq<Option<H>> = Seq::empty();
        let mut i: usize = 0;
        while i < list.len()
            invariant
                i <= list@.len(),
                outs.len() == i,
                plain_pairs(list@) == self.pairs(),
                out@ == present_values(outs),
                forall|k: int| 0 <= k < i ==> #[trigger] header_outcome(registry.registered(), self.pairs()[k], outs[k]),
                forall|name: Seq<char>, b: &[u8]| registry.registered().dom().contains(name)
                    ==> #[trigger] call_requires(registry.registered()[name], (b,)),
            decreases list@.len() - i,
        {
            let name = list[i].0.as_str();
            let bytes = list[i].1.as_slice();
            let v = registry.deserialize(name, bytes);
            let ghost gv = v;
            proof {
                let h = self.pairs()[i as int];
                assert(h == (list@[i as int].0@, list@[i as int].1@));
                if registry.registered().dom().contains(h.0) {
                    assert forall|b: &[u8]| (#[trigger] b@) == h.1 implies call_ensures(registry.registered()[h.0], (b,), gv) by {
                        assert(b =~= bytes);
                    }
                }
                assert(header_outcome(registry.registered(), h, gv));
                assert(outs.push(gv).drop_last() =~= outs);
                outs = outs.push(gv);
            }
            match v {
                Some(value) => out.push(value),
                None => {},
            }
            i = i + 1;
        }
        out
    }
}

/// Marker for messages that can be sent to actors on other nodes.
pub trait RemoteMessage {}

/// Handler for message version migration, registered per message type.
pub trait MessageVersionHandler {
    /// The message type this handler manages.
    fn message_type(&self) -> &'static str;

    /// What `migrate` gives for a payload and a pair of versions.
    spec fn migrated(&self, payload: &[u8], from_version: u32, to_version: u32) -> Option<Vec<u8>>;

    /// Migrate a payload from an older version to the current version.
    /// Returns the migrated bytes, or None if migration is not possible.
    fn migrate(&self, payload: &[u8], from_version: u32, to_version: u32) -> (r: Option<Vec<u8>>)
        ensures
            r == self.migrated(payload, from_version, to_version);
}


/// The `(received, expected)` pair when the two versions are both known
/// and differ; then the body has to be migrated.
pub open spec fn migration_needed(received: Option<u32>, expected: Option<u32>) -> Option<(u32, u32)> {
    match (received, expected) {
        (Some(r), Some(e)) => if r != e { Some((r, e)) } else { None },
        _ => None,
    }
}

/// Decide whether an envelope's body has to be migrated before it is
/// deserialized: only when the sender's and the receiver's versions are
/// both known and differ.
pub fn needs_migration(received: Option<u32>, expected: Option<u32>) -> (r: Option<(u32, u32)>)
    ensures
        r == migration_needed(received, expected),
{
    match (received, expected) {
        (Some(r), Some(e)) => if r != e { Some((r, e)) } else { None },
        _ => None,
    }
}

/// Message of a refused migration: `<type>: cannot migrate from v<r> to v<e>`.
pub open spec fn migration_error_text(message_type: Seq<char>, received: u32, expected: u32) -> Seq<char> {
    message_type + ": cannot migrate from v"@ + decimal_text(received as nat) + " to v"@ + decimal_text(expected as nat)
}

/// The body to deserialize once a migration was looked up.
///
/// `handler_result` is `None` when no handler is registered for the message
/// type (the body is used as it is), `Some(None)` when the handler refused,
/// and `Some(Some(bytes))` when it migrated the body to `bytes`.
pub fn migrated_body(
    message_type: &str,
    body: &Vec<u8>,
    received: u32,
    expected: u32,
    handler_result: Option<Option<Vec<u8>>>,
) -> (r: Result<Vec<u8>, SerializationError>)
    ensures
        handler_result is None ==> (r matches Ok(b) && b@ == body@),
        handler_result matches Some(Some(m)) ==> (r matches Ok(b) && b@ == m@),
        handler_result matches Some(None) ==> (r matches Err(e) && e.message@ == migration_error_text(message_type@, received, expected)),
{
    match handler_result {
        None => Ok(body.clone()),
        Some(Some(m)) => Ok(m),
        Some(None) => {
            let mut s = String::from_str(message_type);
            s.append(": cannot migrate from v");
            let a = u64_to_decimal(received as u64);
            s.append(a.as_str());
            s.append(" to v");
            let b = u64_to_decimal(expected as u64);
            s.append(b.as_str());
            Err(SerializationError { message: s })
        },
    }
}

/// The body to deserialize for a received envelope, after any version
/// migration: when the envelope's version and `expected_version` are both
/// known and differ, the handler registered for the message type (if any)
/// migrates the body from the received version to the expected one; without
/// a handler the body is used as it is.
pub fn receive_body_versioned(
    envelope: &WireEnvelope,
    version_handlers: &KeyedMap<String, Box<dyn MessageVersionHandler>>,
    expected_version: Option<u32>,
) -> (r: Result<Vec<u8>, SerializationError>)
    ensures
        migration_needed(envelope.version, expected_version) is None ==> (r matches Ok(b) && b@ == envelope.body@),
        migration_needed(envelope.version, expected_version) is Some
            && !version_handlers.map().dom().contains(envelope.message_type@) ==> (r matches Ok(b) && b@ == envelope.body@),
        migration_needed(envelope.version, expected_version) matches Some((rv, ev)) ==>
            (r matches Err(e) ==> e.message@ == migration_error_text(envelope.message_type@, rv, ev)),
        migration_needed(envelope.version, expected_version) matches Some((rv, ev)) ==> (
            version_handlers.map().dom().contains(envelope.message_type@) ==> forall|s: &[u8]| (#[trigger] s@) == envelope.body@ ==> (
            match version_handlers.map()[envelope.message_type@].migrated(s, rv, ev) {
                Some(m) => r matches Ok(b) && b@ == m@,
                None => r matches Err(e) && e.message@ == migration_error_text(envelope.message_type@, rv, ev),
            })),
{
    match needs_migration(envelope.version, expected_version) {
        None => Ok(envelope.body.clone()),
        Some((received, expected)) => {
            let handler_result = match version_handlers.get(&envelope.message_type) {
                Some(h) => {
                    let sl = envelope.body.as_slice();
                    let m = h.migrate(sl, received, expected);
                    proof {
                        assert(sl@ == envelope.body@);
                        assert forall|s: &[u8]| (#[trigger] s@) == envelope.body@ implies s == sl by {
                            assert(s =~= sl);
                        }
                    }
                    Some(m)
                },
                None => None,
            };
            migrated_body(envelope.message_type.as_str(), &envelope.body, received, expected, handler_result)
        },
    }
}

/// Package a serialized message as a wire envelope.
pub fn build_wire_envelope(
    target: ActorId,
    target_name: &str,
    message_type: &str,
    body: Vec<u8>,
    send_mode: SendMode,
    headers: WireHeaders,
    request_id: Option<u128>,
    version: Option<u32>,
) -> (w: WireEnvelope)
    ensures
        w.target == target,
        w.target_name@ == target_name@,
        w.message_type@ == message_type@,
        w.send_mode == send_mode,
        w.headers == headers,
        w.body@ == body@,
        w.request_id == request_id,
        w.version == version,
{
    WireEnvelope {
        target,
        target_name: String::from_str(target_name),
        message_type: String::from_str(message_type),
        send_mode,
        headers,
        body,
        request_id,
        version,
    }
}

/// Package a serialized message as a tell envelope (no request id, no version).
pub fn build_tell_envelope(target: ActorId, target_name: &str, message_type: &str, body: Vec<u8>, headers: WireHeaders) -> (w: WireEnvelope)
    ensures
        w.target == target,
        w.target_name@ == target_name@,
        w.message_type@ == message_type@,
        w.send_mode == SendMode::Tell,
        w.headers == headers,
        w.body@ == body@,
        w.request_id is None,
        w.version is None,
{
    build_wire_envelope(target, target_name, message_type, body, SendMode::Tell, headers, None, None)
}

/// Package a serialized message as an ask envelope with a request id.
pub fn build_ask_envelope(
    target: ActorId,
    target_name: &str,
    message_type: &str,
    body: Vec<u8>,
    headers: WireHeaders,
    request_id: u128,
) -> (w: WireEnvelope)
    ensures
        w.target == target,
        w.target_name@ == target_name@,
        w.message_type@ == message_type@,
        w.send_mode == SendMode::Ask,
        w.headers == headers,
        w.body@ == body@,
        w.request_id == Some(request_id),
        w.version is None,
{
    build_wire_envelope(target, target_name, message_type, body, SendMode::Ask, headers, Some(request_id), None)
}

/// Version metadata for a connected remote peer.
#[derive(Debug, PartialEq, Eq)]
pub struct PeerVersionInfo {
    /// The peer's wire protocol version.
    pub wire_version: WireVersion,
    /// The peer's application version, if configured.
    pub app_version: Option<String>,
    /// The peer's actor framework adapter (e.g. "ractor", "kameo").
    pub adapter: String,
}

/// Snapshot of the cluster state at a point in time.
#[derive(Debug)]
pub struct ClusterState {
    /// The local node's identity.
    pub local_node: NodeId,
    /// All known nodes in the cluster (including local).
    pub nodes: Vec<NodeId>,
    /// Whether this node considers itself the leader.
    pub is_leader: bool,
    /// This node's wire protocol version.
    pub wire_version: WireVersion,
    /// This node's application version, if configured.
    pub app_version: Option<String>,
    /// Version metadata of each connected remote peer (not the local node).
    pub peer_versions: KeyedMap<NodeId, PeerVersionInfo>,
}

impl ClusterState {
    /// A cluster state with the library's wire version, no application
    /// version, not leader, and no peer versions.
    pub fn new(local_node: NodeId, nodes: Vec<NodeId>) -> (s: Self)
        ensures
            s.local_node == local_node,
            s.nodes@ == nodes@,
            !s.is_leader,
            s.wire_version == WireVersion::current_spec(),
            s.app_version is None,
            s.peer_versions.map() == Map::<Seq<char>, PeerVersionInfo>::empty(),
    {
        ClusterState {
            local_node,
            nodes,
            is_leader: false,
            wire_version: WireVersion::current(),
            app_version: None,
            peer_versions: KeyedMap::new(),
        }
    }

    /// Number of nodes in the cluster.
    pub fn node_count(&self) -> (n: usize)
        ensures
            n == self.nodes@.len(),
    {
        self.nodes.len()
    }

    /// Whether a node is in the cluster.
    pub fn contains(&self, node_id: &NodeId) -> (r: bool)
        ensures
            r == exists|i: int| 0 <= i < self.nodes@.len() && #[trigger] self.nodes@[i]@ == node_id@,
    {
        let mut i: usize = 0;
        while i < self.nodes.len()
            invariant
                i <= self.nodes@.len(),
                forall|j: int| 0 <= j < i ==> #[trigger] self.nodes@[j]@ != node_id@,
            decreases self.nodes@.len() - i,
        {
            if self.nodes[i].same_as(node_id) {
                assert(self.nodes@[i as int]@ == node_id@);
                return true;
            }
            i += 1;
        }
        false
    }

    /// Version information of a remote peer.
    pub fn peer_version(&self, node_id: &NodeId) -> (r: Option<&PeerVersionInfo>)
        ensures
            r is Some <==> self.peer_versions.map().dom().contains(node_id@),
            r matches Some(p) ==> *p == self.peer_versions.map()[node_id@],
    {
        self.peer_versions.get(node_id)
    }
}

/// Error returned by cluster discovery.
#[derive(Debug)]
pub struct DiscoveryError {
    /// Human-readable description of what went wrong.
    pub message: String,
}

impl DiscoveryError {
    /// Create a new discovery error with the given message.
    pub fn new(message: &str) -> (e: Self)
        ensures
            e.message@ == message@,
    {
        DiscoveryError { message: String::from_str(message) }
    }

    /// Text form: the message itself.
    pub fn to_string(&self) -> (s: String)
        ensures
            s@ == self.message@,
    {
        self.message.clone()
    }
}

/// A peer found by discovery: a stable identity and a network address.
#[derive(Debug, PartialEq, Eq, Hash)]
pub struct DiscoveredPeer {
    /// The peer's stable identity in the cluster.
    pub node_id: NodeId,
    /// The peer's network address (e.g., "10.0.0.1:9000").
    pub address: String,
}

impl Clone for DiscoveredPeer {
    fn clone(&self) -> (r: Self)
        ensures
            r == *self,
    {
        DiscoveredPeer { node_id: self.node_id.clone(), address: self.address.clone() }
    }
}

impl DiscoveredPeer {
    /// A discovered peer with an explicit node id.
    pub fn new(node_id: NodeId, address: &str) -> (p: Self)
        ensures
            p.node_id == node_id,
            p.address@ == address@,
    {
        DiscoveredPeer { node_id, address: String::from_str(address) }
    }

    /// A discovered peer whose node id is its address.
    pub fn from_address(address: &str) -> (p: Self)
        ensures
            p.node_id@ == address@,
            p.address@ == address@,
    {
        DiscoveredPeer { node_id: NodeId(String::from_str(address)), address: String::from_str(address) }
    }
}

/// Static list of seed peers (simplest discovery mechanism).
pub struct StaticSeeds {
    /// Pre-configured peers.
    pub peers: Vec<DiscoveredPeer>,
}

impl StaticSeeds {
    /// Seeds from addresses, each used as both node id and endpoint.
    pub fn new(addresses: Vec<String>) -> (s: Self)
        ensures
            s.peers@.len() == addresses@.len(),
            forall|i: int| 0 <= i < addresses@.len() ==> {
                &&& (#[trigger] s.peers@[i]).node_id@ == addresses@[i]@
                &&& s.peers@[i].address@ == addresses@[i]@
            },
    {
        let mut peers: Vec<DiscoveredPeer> = Vec::new();
        let mut i: usize = 0;
        while i < addresses.len()
            invariant
                i <= addresses@.len(),
                peers@.len() == i,
                forall|j: int| 0 <= j < i ==> {
                    &&& (#[trigger] peers@[j]).node_id@ == addresses@[j]@
                    &&& peers@[j].address@ == addresses@[j]@
                },
            decreases addresses@.len() - i,
        {
            let p = DiscoveredPeer::from_address(addresses[i].as_str());
            peers.push(p);
            i += 1;
        }
        StaticSeeds { peers }
    }

    /// Seeds from peers with explicit node ids.
    pub fn from_peers(peers: Vec<DiscoveredPeer>) -> (s: Self)
        ensures
            s.peers@ == peers@,
    {
        StaticSeeds { peers }
    }

    /// The configured peers, in order.
    pub fn discover(&self) -> (r: Vec<DiscoveredPeer>)
        ensures
            r@ == self.peers@,
    {
        let mut out: Vec<DiscoveredPeer> = Vec::new();
        let mut i: usize = 0;
        while i < self.peers.len()
            invariant
                i <= self.peers@.len(),
                out@ == self.peers@.take(i as int),
            decreases self.peers@.len() - i,
        {
            out.push(self.peers[i].clone());
            i += 1;
            assert(out@ =~= self.peers@.take(i as int));
        }
        assert(self.peers@.take(self.peers@.len() as int) =~= self.peers@);
        out
    }
}

} // verus!
