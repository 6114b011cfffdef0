//! Named processing groups: membership of actor references keyed by actor.
//!
//! A group maps each member's actor identity to its reference. Joining with
//! an identity that is already a member replaces the reference and hands
//! back the old one.

use vstd::prelude::*;
use vstd::string::*;
use crate::assoc::{assoc_map, keys_distinct, lemma_assoc_index, lemma_assoc_len, KeyedMap};
use crate::node::{ActorId, ActorKey};

verus! {

/// A reference to an actor, as runtimes implement it.
pub trait ActorRef {
    /// The identity the reference stands for.
    spec fn actor_id(&self) -> ActorId;

    /// The referenced actor's identity.
    fn id(&self) -> (r: ActorId)
        ensures
            r@ == self.actor_id()@;

    /// The name the reference stands for.
    spec fn actor_name(&self) -> String;

    /// The referenced actor's name.
    fn name(&self) -> (r: String)
        ensures
            r@ == self.actor_name()@;

    /// Whether the actor is still running (a snapshot).
    fn is_alive(&self) -> bool;
}

/// A named group of actor references.
pub struct ProcessingGroup<R: ActorRef> {
    name: String,
    members: KeyedMap<ActorId, R>,
}

impl<R: ActorRef> ProcessingGroup<R> {
    /// The members with their references, in storage order.
    pub closed spec fn member_list(&self) -> Seq<(ActorId, R)> {
        self.members.pairs()
    }

    /// The members by actor.
    pub closed spec fn members(&self) -> Map<ActorKey, R> {
        self.members.map()
    }

    /// The group's name.
    pub closed spec fn group_name(&self) -> Seq<char> {
        self.name@
    }

    /// An empty group.
    pub fn new(name: &str) -> (g: Self)
        ensures
            g.group_name() == name@,
            g.members() == Map::<ActorKey, R>::empty(),
    {
        ProcessingGroup { name: String::from_str(name), members: KeyedMap::new() }
    }

    /// The group's name.
    pub fn name(&self) -> (s: &str)
        ensures
            s@ == self.group_name(),
    {
        self.name.as_str()
    }

    /// Number of members.
    pub fn len(&self) -> (n: usize)
        ensures
            n == self.members().dom().len(),
    {
        self.members.len()
    }

    /// Whether the group has no members.
    pub fn is_empty(&self) -> (r: bool)
        ensures
            r == (self.members().dom().len() == 0),
    {
        self.members.is_empty()
    }

    /// Add a member under the identity its reference reports; a member with
    /// the same identity is replaced and returned.
    pub fn join(&mut self, actor_ref: R) -> (r: Option<R>)
        ensures
            final(self).group_name() == old(self).group_name(),
            final(self).members() == old(self).members().insert(actor_ref.actor_id()@, actor_ref),
            r is Some <==> old(self).members().dom().contains(actor_ref.actor_id()@),
            r matches Some(o) ==> o == old(self).members()[actor_ref.actor_id()@],
    {
        let id = actor_ref.id();
        let previous = self.members.remove(&id);
        self.members.insert(id, actor_ref);
        assert(self.members() =~= old(self).members().insert(id@, actor_ref));
        previous
    }

    /// Remove a member by identity; the removed reference is returned.
    pub fn leave(&mut self, actor_id: &ActorId) -> (r: Option<R>)
        ensures
            final(self).members() == old(self).members().remove(actor_id@),
            final(self).group_name() == old(self).group_name(),
            r is Some <==> old(self).members().dom().contains(actor_id@),
            r matches Some(o) ==> o == old(self).members()[actor_id@],
    {
        self.members.remove(actor_id)
    }

    /// Whether an actor is a member.
    pub fn contains(&self, actor_id: &ActorId) -> (r: bool)
        ensures
            r == self.members().dom().contains(actor_id@),
    {
        self.members.contains_key(actor_id)
    }

    /// The reference of a member.
    pub fn get(&self, actor_id: &ActorId) -> (r: Option<&R>)
        ensures
            r is Some <==> self.members().dom().contains(actor_id@),
            r matches Some(m) ==> *m == self.members()[actor_id@],
    {
        self.members.get(actor_id)
    }

    /// The identities of all members, each once.
    pub fn member_ids(&self) -> (r: Vec<ActorId>)
        ensures
            r@.len() == self.members().dom().len(),
            forall|i: int| 0 <= i < r@.len() ==> self.members().dom().contains(#[trigger] r@[i]@),
            forall|k: ActorKey| #[trigger] self.members().dom().contains(k) ==> exists|i: int| 0 <= i < r@.len() && r@[i]@ == k,
    {
        let pairs = self.members.entries();
        proof {
            lemma_assoc_len(pairs@);
            crate::assoc::lemma_assoc_dom(pairs@);
        }
        let mut out: Vec<ActorId> = Vec::new();
        let mut i: usize = 0;
        while i < pairs.len()
            invariant
                i <= pairs@.len(),
                out@.len() == i,
                assoc_map(pairs@) == self.members(),
                forall|j: int| 0 <= j < i ==> #[trigger] out@[j]@ == pairs@[j].0@,
            decreases pairs@.len() - i,
        {
            out.push(pairs[i].0.clone());
            i = i + 1;
        }
        proof {
            assert forall|j: int| 0 <= j < out@.len() implies self.members().dom().contains(#[trigger] out@[j]@) by {
                assert(out@[j]@ == pairs@[j].0@);
            }
            assert forall|k: ActorKey| #[trigger] self.members().dom().contains(k) implies exists|j: int| 0 <= j < out@.len() && out@[j]@ == k by {
                let j = choose|j: int| 0 <= j < pairs@.len() && pairs@[j].0@ == k;
                assert(out@[j]@ == k);
            }
        }
        out
    }

    /// Remove all members.
    pub fn clear(&mut self)
        ensures
            final(self).members() == Map::<ActorKey, R>::empty(),
            final(self).group_name() == old(self).group_name(),
    {
        self.members = KeyedMap::new();
    }

    /// Keep the members whose flag in `alive` (one per member, in the order
    /// of `member_list`) is true and remove the others; returns how many
    /// were removed. The survivors keep their references.
    pub fn retain_alive(&mut self, alive: &Vec<bool>) -> (r: usize)
        requires
            alive@.len() == old(self).member_list().len(),
        ensures
            final(self).group_name() == old(self).group_name(),
            pruned_by(old(self).member_list(), final(self).members(), alive@, r),
    {
        let mut taken: KeyedMap<ActorId, R> = KeyedMap::new();
        std::mem::swap(&mut taken, &mut self.members);
        let mut rest = taken.into_pairs();
        let ghost orig = rest@;
        let total = rest.len();
        let mut kept: KeyedMap<ActorId, R> = KeyedMap::new();
        let mut removed: usize = 0;
        let mut j: usize = 0;
        while rest.len() > 0
            invariant
                keys_distinct(orig),
                orig == old(self).member_list(),
                alive@.len() == orig.len(),
                orig.len() == total,
                j <= orig.len(),
                removed <= j,
                rest@ == orig.subrange(j as int, orig.len() as int),
                removed == count_false(alive@.take(j as int)),
                forall|k: ActorKey| #[trigger] kept.map().dom().contains(k) <==> kept_within(orig, alive@, j as int, k),
                forall|k: ActorKey| #[trigger] kept.map().dom().contains(k) ==> kept.map()[k] == assoc_map(orig)[k],
            decreases rest@.len(),
        {
            let (id, actor_ref) = rest.remove(0);
            proof {
                assert(orig[j as int] == (id, actor_ref));
                lemma_assoc_index(orig, j as int);
                assert(rest@ =~= orig.subrange(j + 1, orig.len() as int));
                assert(alive@.take(j + 1).drop_last() =~= alive@.take(j as int));
            }
            let ghost key = id@;
            let ghost before = kept.map();
            if alive[j] {
                kept.insert(id, actor_ref);
            } else {
                removed = removed + 1;
            }
            proof {
                assert forall|k: ActorKey| #[trigger] kept.map().dom().contains(k) <==> kept_within(orig, alive@, j + 1, k) by {
                    if k == key {
                        if kept_within(orig, alive@, j as int, k) {
                            let i = choose|i: int| 0 <= i < j && orig[i].0@ == k && alive@[i];
                            assert(orig[i].0@ == orig[j as int].0@);
                        }
                        if alive@[j as int] {
                            assert(orig[j as int].0@ == k);
                        }
                    } else {
                        if kept_within(orig, alive@, j + 1, k) {
                            let i = choose|i: int| 0 <= i < j + 1 && orig[i].0@ == k && alive@[i];
                            assert(i != j);
                        }
                    }
                }
            }
            j = j + 1;
        }
        assert(alive@.take(j as int) =~= alive@);
        self.members = kept;
        removed
    }

    /// Remove the members that are no longer alive; returns how many were
    /// removed. The survivors keep their references. Each member is asked
    /// once, in the order of `member_list`, whether it is alive; which
    /// answers came back is the runtime's.
    pub fn prune_dead(&mut self) -> (r: usize)
        ensures
            final(self).group_name() == old(self).group_name(),
            exists|alive: Seq<bool>|
                alive.len() == old(self).member_list().len()
                && #[trigger] pruned_by(old(self).member_list(), final(self).members(), alive, r),
    {
        let pairs = self.members.entries();
        let mut alive: Vec<bool> = Vec::new();
        let mut i: usize = 0;
        while i < pairs.len()
            invariant
                i <= pairs@.len(),
                alive@.len() == i,
            decreases pairs@.len() - i,
        {
            alive.push(pairs[i].1.is_alive());
            i = i + 1;
        }
        self.retain_alive(&alive)
    }
}

/// Some member among the first `j` of `list` has key `k` and a true flag.
pub open spec fn kept_within<R>(list: Seq<(ActorId, R)>, alive: Seq<bool>, j: int, k: ActorKey) -> bool {
    exists|i: int| 0 <= i < j && list[i].0@ == k && alive[i]
}

/// How many flags are false.
pub open spec fn count_false(s: Seq<bool>) -> nat
    decreases s.len(),
{
    if s.len() == 0 {
        0
    } else {
        count_false(s.drop_last()) + if s.last() { 0nat } else { 1nat }
    }
}

/// `after` is what is left of the members `list` when those flagged false
/// in `alive` are removed, each survivor keeping its reference, and `r` is
/// the number removed.
pub open spec fn pruned_by<R>(list: Seq<(ActorId, R)>, after: Map<ActorKey, R>, alive: Seq<bool>, r: usize) -> bool {
    &&& forall|k: ActorKey| #[trigger] after.dom().contains(k) <==> kept_within(list, alive, list.len() as int, k)
    &&& forall|k: ActorKey| #[trigger] after.dom().contains(k) ==> after[k] == assoc_map(list)[k]
    &&& r == count_false(alive)
}

} // verus!
