//! Node and actor identities.

use vstd::prelude::*;
use vstd::string::*;
use crate::text::{decimal_text, u64_to_decimal};
use crate::assoc::KeyEq;

verus! {

/// Identity of a node in the cluster.
#[derive(Debug, PartialEq, Eq, Hash)]
pub struct NodeId(pub String);

impl Clone for NodeId {
    fn clone(&self) -> (res: Self)
        ensures
            res == *self,
    {
        NodeId(self.0.clone())
    }
}

impl NodeId {
    /// Whether two node ids name the same node (same text).
    pub fn same_as(&self, other: &NodeId) -> (r: bool)
        ensures
            r == (self.0@ == other.0@),
    {
        self.0 == other.0
    }

    /// Text form of the node id (the id itself).
    pub fn to_string(&self) -> (s: String)
        ensures
            s@ == self.0@,
    {
        self.0.clone()
    }
}

/// Identity of an actor: the node it lives on plus a node-local number.
#[derive(Debug, PartialEq, Eq, Hash)]
pub struct ActorId {
    /// The node hosting the actor.
    pub node: NodeId,
    /// Node-local actor number.
    pub local: u64,
}

/// Identity of an actor as plain values: node text and local number.
pub type ActorKey = (Seq<char>, u64);

impl ActorId {
    /// The plain-value key of this identity.
    pub open spec fn key(&self) -> ActorKey {
        (self.node.0@, self.local)
    }

    /// Whether two identities are equal (same node text and local number).
    pub fn same_as(&self, other: &ActorId) -> (r: bool)
        ensures
            r == (self.key() == other.key()),
    {
        self.local == other.local && self.node.0 == other.node.0
    }

    /// Text form: `Actor(<node>/<local>)`.
    pub fn to_string(&self) -> (s: String)
        ensures
            s@ == actor_id_text(self.key()),
    {
        let mut s = String::from_str("Actor(");
        s.append(self.node.0.as_str());
        s.append("/");
        let n = u64_to_decimal(self.local);
        s.append(n.as_str());
        s.append(")");
        s
    }
}

/// Text form of an actor identity.
pub open spec fn actor_id_text(k: ActorKey) -> Seq<char> {
    "Actor("@ + k.0 + "/"@ + decimal_text(k.1 as nat) + ")"@
}

impl Clone for ActorId {
    fn clone(&self) -> (res: Self)
        ensures
            res == *self,
    {
        ActorId { node: self.node.clone(), local: self.local }
    }
}

impl View for NodeId {
    type V = Seq<char>;

    open spec fn view(&self) -> Seq<char> {
        self.0@
    }
}

impl KeyEq for NodeId {
    fn key_eq(&self, other: &Self) -> (r: bool) {
        self.same_as(other)
    }

    fn duplicate(&self) -> (r: Self) {
        self.clone()
    }
}

impl View for ActorId {
    type V = ActorKey;

    open spec fn view(&self) -> ActorKey {
        self.key()
    }
}

impl KeyEq for ActorId {
    fn key_eq(&self, other: &Self) -> (r: bool) {
        self.same_as(other)
    }

    fn duplicate(&self) -> (r: Self) {
        self.clone()
    }
}

/// Keys of a sequence of identities.
pub open spec fn keys_of(ids: Seq<ActorId>) -> Seq<ActorKey> {
    ids.map_values(|id: ActorId| id.key())
}

} // verus!
