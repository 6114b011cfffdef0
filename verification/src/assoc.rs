//! Association lists: vectors of `(key, value)` pairs with distinct keys,
//! viewed as finite maps from the keys' plain values to the values.

use vstd::prelude::*;

verus! {

/// Keys that can be compared and duplicated by their plain value.
pub trait KeyEq: View + Sized {
    /// Whether two keys have the same plain value.
    fn key_eq(&self, other: &Self) -> (r: bool)
        ensures
            r == (self@ == other@);

    /// An exact copy of the key.
    fn duplicate(&self) -> (r: Self)
        ensures
            r == *self;
}

impl KeyEq for String {
    fn key_eq(&self, other: &Self) -> (r: bool) {
        *self == *other
    }

    fn duplicate(&self) -> (r: Self) {
        self.clone()
    }
}

/// No two pairs share a key.
pub open spec fn keys_distinct<K: View, V>(s: Seq<(K, V)>) -> bool {
    forall|i: int, j: int| 0 <= i < s.len() && 0 <= j < s.len() && i != j ==> s[i].0@ != s[j].0@
}

/// The map from key values to values that a list denotes (later pairs win).
pub open spec fn assoc_map<K: View, V>(s: Seq<(K, V)>) -> Map<K::V, V>
    decreases s.len(),
{
    if s.len() == 0 {
        Map::empty()
    } else {
        assoc_map(s.drop_last()).insert(s.last().0@, s.last().1)
    }
}

/// The domain of the denoted map is exactly the set of keys in the list.
pub proof fn lemma_assoc_dom<K: View, V>(s: Seq<(K, V)>)
    ensures
        forall|k: K::V| #[trigger] assoc_map(s).dom().contains(k) <==> exists|i: int| 0 <= i < s.len() && s[i].0@ == k,
        assoc_map(s).dom().finite(),
    decreases s.len(),
{
    if s.len() > 0 {
        let t = s.drop_last();
        lemma_assoc_dom(t);
        assert forall|k: K::V| #[trigger] assoc_map(s).dom().contains(k) <==> exists|i: int| 0 <= i < s.len() && s[i].0@ == k by {
            if assoc_map(s).dom().contains(k) {
                if k == s.last().0@ {
                    assert(s[s.len() - 1].0@ == k);
                } else {
                    let i = choose|i: int| 0 <= i < t.len() && t[i].0@ == k;
                    assert(s[i].0@ == k);
                }
            }
            if exists|i: int| 0 <= i < s.len() && s[i].0@ == k {
                let i = choose|i: int| 0 <= i < s.len() && s[i].0@ == k;
                if i < s.len() - 1 {
                    assert(t[i].0@ == k);
                }
            }
        }
    }
}

/// With distinct keys, each pair's value is what the map gives for its key.
pub proof fn lemma_assoc_index<K: View, V>(s: Seq<(K, V)>, i: int)
    requires
        keys_distinct(s),
        0 <= i < s.len(),
    ensures
        assoc_map(s).dom().contains(s[i].0@),
        assoc_map(s)[s[i].0@] == s[i].1,
    decreases s.len(),
{
    lemma_assoc_dom(s);
    if i < s.len() - 1 {
        let t = s.drop_last();
        assert(keys_distinct(t)) by {
            assert forall|a: int, b: int| 0 <= a < t.len() && 0 <= b < t.len() && a != b implies t[a].0@ != t[b].0@ by {
                assert(t[a] == s[a] && t[b] == s[b]);
            }
        }
        assert(t[i] == s[i]);
        lemma_assoc_index(t, i);
        assert(s[i].0@ != s[s.len() - 1].0@);
    }
}

/// Replacing the value at an existing position updates the map at that key.
pub proof fn lemma_assoc_update<K: View, V>(s: Seq<(K, V)>, i: int, v: V)
    requires
        keys_distinct(s),
        0 <= i < s.len(),
    ensures
        keys_distinct(s.update(i, (s[i].0, v))),
        assoc_map(s.update(i, (s[i].0, v))) == assoc_map(s).insert(s[i].0@, v),
    decreases s.len(),
{
    let u = s.update(i, (s[i].0, v));
    assert(keys_distinct(u)) by {
        assert forall|a: int, b: int| 0 <= a < u.len() && 0 <= b < u.len() && a != b implies u[a].0@ != u[b].0@ by {
            assert(u[a].0@ == s[a].0@ && u[b].0@ == s[b].0@);
        }
    }
    if i == s.len() - 1 {
        assert(u.drop_last() =~= s.drop_last());
    } else {
        let t = s.drop_last();
        assert(keys_distinct(t)) by {
            assert forall|a: int, b: int| 0 <= a < t.len() && 0 <= b < t.len() && a != b implies t[a].0@ != t[b].0@ by {
                assert(t[a] == s[a] && t[b] == s[b]);
            }
        }
        lemma_assoc_update(t, i, v);
        assert(u.drop_last() =~= t.update(i, (t[i].0, v)));
        assert(s[i].0@ != s.last().0@);
        assert(assoc_map(u) =~= assoc_map(s).insert(s[i].0@, v));
    }
}

/// Appending a pair with a fresh key inserts it into the map.
pub proof fn lemma_assoc_push<K: View, V>(s: Seq<(K, V)>, k: K, v: V)
    requires
        keys_distinct(s),
        !assoc_map(s).dom().contains(k@),
    ensures
        keys_distinct(s.push((k, v))),
        assoc_map(s.push((k, v))) == assoc_map(s).insert(k@, v),
{
    lemma_assoc_dom(s);
    let u = s.push((k, v));
    assert(u.drop_last() =~= s);
    assert(keys_distinct(u)) by {
        assert forall|a: int, b: int| 0 <= a < u.len() && 0 <= b < u.len() && a != b implies u[a].0@ != u[b].0@ by {
            if a < s.len() && b < s.len() {
                assert(u[a] == s[a] && u[b] == s[b]);
            } else if a < s.len() {
                assert(u[a] == s[a]);
            } else {
                assert(u[b] == s[b]);
            }
        }
    }
}

/// Removing the pair at a position removes its key from the map.
pub proof fn lemma_assoc_remove<K: View, V>(s: Seq<(K, V)>, i: int)
    requires
        keys_distinct(s),
        0 <= i < s.len(),
    ensures
        keys_distinct(s.remove(i)),
        assoc_map(s.remove(i)) == assoc_map(s).remove(s[i].0@),
    decreases s.len(),
{
    let u = s.remove(i);
    assert(keys_distinct(u)) by {
        assert forall|a: int, b: int| 0 <= a < u.len() && 0 <= b < u.len() && a != b implies u[a].0@ != u[b].0@ by {
            let a2 = if a < i { a } else { a + 1 };
            let b2 = if b < i { b } else { b + 1 };
            assert(u[a] == s[a2] && u[b] == s[b2]);
        }
    }
    lemma_assoc_dom(s);
    lemma_assoc_dom(u);
    if i == s.len() - 1 {
        assert(u =~= s.drop_last());
        let t = s.drop_last();
        assert(!assoc_map(t).dom().contains(s[i].0@)) by {
            if assoc_map(t).dom().contains(s[i].0@) {
                let j = choose|j: int| 0 <= j < t.len() && t[j].0@ == s[i].0@;
                assert(t[j] == s[j]);
            }
        }
        assert(assoc_map(u) =~= assoc_map(s).remove(s[i].0@));
    } else {
        let t = s.drop_last();
        assert(keys_distinct(t)) by {
            assert forall|a: int, b: int| 0 <= a < t.len() && 0 <= b < t.len() && a != b implies t[a].0@ != t[b].0@ by {
                assert(t[a] == s[a] && t[b] == s[b]);
            }
        }
        lemma_assoc_remove(t, i);
        assert(u.drop_last() =~= t.remove(i));
        assert(u.last() == s.last());
        assert(s[i].0@ != s.last().0@);
        assert(assoc_map(u) =~= assoc_map(s).remove(s[i].0@));
    }
}

/// The position of the pair whose key equals `k`, if any.
pub fn assoc_find<K: KeyEq, V>(v: &Vec<(K, V)>, k: &K) -> (r: Option<usize>)
    ensures
        match r {
            Some(i) => i < v@.len() && v@[i as int].0@ == k@,
            None => forall|i: int| 0 <= i < v@.len() ==> v@[i].0@ != k@,
        },
{
    let mut i: usize = 0;
    while i < v.len()
        invariant
            i <= v@.len(),
            forall|j: int| 0 <= j < i ==> v@[j].0@ != k@,
        decreases v@.len() - i,
    {
        if v[i].0.key_eq(k) {
            return Some(i);
        }
        i = i + 1;
    }
    None
}

/// Looking up a key: the map contains it iff some pair has it.
pub proof fn lemma_assoc_find<K: View, V>(s: Seq<(K, V)>, k: K::V, r: Option<usize>)
    requires
        keys_distinct(s),
        match r {
            Some(i) => i < s.len() && s[i as int].0@ == k,
            None => forall|i: int| 0 <= i < s.len() ==> s[i].0@ != k,
        },
    ensures
        match r {
            Some(i) => assoc_map(s).dom().contains(k) && assoc_map(s)[k] == s[i as int].1,
            None => !assoc_map(s).dom().contains(k),
        },
{
    lemma_assoc_dom(s);
    match r {
        Some(i) => {
            lemma_assoc_index(s, i as int);
        },
        None => {},
    }
}

/// With distinct keys, the map has as many keys as the list has pairs.
pub proof fn lemma_assoc_len<K: View, V>(s: Seq<(K, V)>)
    requires
        keys_distinct(s),
    ensures
        assoc_map(s).dom().len() == s.len(),
    decreases s.len(),
{
    lemma_assoc_dom(s);
    if s.len() > 0 {
        let t = s.drop_last();
        assert(keys_distinct(t)) by {
            assert forall|a: int, b: int| 0 <= a < t.len() && 0 <= b < t.len() && a != b implies t[a].0@ != t[b].0@ by {
                assert(t[a] == s[a] && t[b] == s[b]);
            }
        }
        lemma_assoc_len(t);
        lemma_assoc_dom(t);
        assert(!assoc_map(t).dom().contains(s.last().0@)) by {
            if assoc_map(t).dom().contains(s.last().0@) {
                let j = choose|j: int| 0 <= j < t.len() && t[j].0@ == s.last().0@;
                assert(t[j] == s[j]);
            }
        }
        assert(assoc_map(s).dom() =~= assoc_map(t).dom().insert(s.last().0@));
    }
}

/// With distinct keys, the pairs whose value satisfies `f` are as many as
/// the keys whose mapped value satisfies `f`.
pub proof fn lemma_assoc_count<K: View, V>(s: Seq<(K, V)>, f: spec_fn(V) -> bool)
    requires
        keys_distinct(s),
    ensures
        s.filter(|p: (K, V)| f(p.1)).len() == assoc_map(s).dom().filter(|k: K::V| f(assoc_map(s)[k])).len(),
    decreases s.len(),
{
    reveal(Seq::filter);
    lemma_assoc_dom(s);
    let m = assoc_map(s);
    if s.len() == 0 {
        assert(m.dom().filter(|k: K::V| f(m[k])) =~= Set::<K::V>::empty());
    } else {
        let t = s.drop_last();
        assert(keys_distinct(t)) by {
            assert forall|a: int, b: int| 0 <= a < t.len() && 0 <= b < t.len() && a != b implies t[a].0@ != t[b].0@ by {
                assert(t[a] == s[a] && t[b] == s[b]);
            }
        }
        lemma_assoc_count(t, f);
        lemma_assoc_dom(t);
        let mt = assoc_map(t);
        let k = s.last().0@;
        assert(!mt.dom().contains(k)) by {
            if mt.dom().contains(k) {
                let j = choose|j: int| 0 <= j < t.len() && t[j].0@ == k;
                assert(t[j] == s[j]);
            }
        }
        let st = mt.dom().filter(|x: K::V| f(mt[x]));
        let ss = m.dom().filter(|x: K::V| f(m[x]));
        assert(mt.dom().finite());
        assert(st.finite()) by {
            mt.dom().lemma_len_filter(|x: K::V| f(mt[x]));
        }
        if f(s.last().1) {
            assert(ss =~= st.insert(k));
        } else {
            assert(ss =~= st);
        }
    }
}

/// A finite map stored as an association list with distinct keys.
#[derive(Debug)]
pub struct KeyedMap<K: KeyEq, V> {
    entries: Vec<(K, V)>,
}

impl<K: KeyEq, V> KeyedMap<K, V> {
    /// The map from key values to values.
    pub closed spec fn map(&self) -> Map<K::V, V> {
        assoc_map(self.entries@)
    }

    /// The stored pairs, in storage order.
    pub closed spec fn pairs(&self) -> Seq<(K, V)> {
        self.entries@
    }

    /// A keyed map has finitely many keys.
    pub proof fn lemma_finite(&self)
        ensures
            self.map().dom().finite(),
    {
        lemma_assoc_dom(self.entries@);
    }

    #[verifier::type_invariant]
    spec fn wf(&self) -> bool {
        keys_distinct(self.entries@)
    }

    /// An empty map.
    pub fn new() -> (m: Self)
        ensures
            m.map() == Map::<K::V, V>::empty(),
    {
        let entries: Vec<(K, V)> = Vec::new();
        assert(assoc_map(entries@) =~= Map::<K::V, V>::empty());
        KeyedMap { entries }
    }

    /// Insert or replace the value of a key.
    pub fn insert(&mut self, k: K, v: V)
        ensures
            final(self).map() == old(self).map().insert(k@, v),
    {
        proof {
            use_type_invariant(&*self);
        }
        let mut table: Vec<(K, V)> = Vec::new();
        std::mem::swap(&mut table, &mut self.entries);
        let ghost before = table@;
        let r = assoc_find(&table, &k);
        proof {
            lemma_assoc_find(table@, k@, r);
        }
        match r {
            Some(i) => {
                let key = table[i].0.duplicate();
                proof {
                    lemma_assoc_update(before, i as int, v);
                }
                table.set(i, (key, v));
            },
            None => {
                proof {
                    lemma_assoc_push(before, k, v);
                }
                table.push((k, v));
            },
        }
        self.entries = table;
    }

    /// The value of a key, if present.
    pub fn get(&self, k: &K) -> (r: Option<&V>)
        ensures
            r is Some <==> self.map().dom().contains(k@),
            r matches Some(v) ==> *v == self.map()[k@],
    {
        proof {
            use_type_invariant(self);
        }
        let r = assoc_find(&self.entries, k);
        proof {
            lemma_assoc_find(self.entries@, k@, r);
        }
        match r {
            Some(i) => Some(&self.entries[i].1),
            None => None,
        }
    }

    /// Whether a key is present.
    pub fn contains_key(&self, k: &K) -> (r: bool)
        ensures
            r == self.map().dom().contains(k@),
    {
        self.get(k).is_some()
    }

    /// Remove a key; returns its value if it was present.
    pub fn remove(&mut self, k: &K) -> (r: Option<V>)
        ensures
            final(self).map() == old(self).map().remove(k@),
            r is Some <==> old(self).map().dom().contains(k@),
            r matches Some(v) ==> v == old(self).map()[k@],
    {
        proof {
            use_type_invariant(&*self);
        }
        let mut table: Vec<(K, V)> = Vec::new();
        std::mem::swap(&mut table, &mut self.entries);
        let ghost before = table@;
        let r = assoc_find(&table, k);
        proof {
            lemma_assoc_find(table@, k@, r);
        }
        let out = match r {
            Some(i) => {
                proof {
                    lemma_assoc_remove(before, i as int);
                }
                let (_, v) = table.remove(i);
                assert(table@ == before.remove(i as int));
                Some(v)
            },
            None => {
                assert(assoc_map(before).remove(k@) =~= assoc_map(before));
                None
            },
        };
        self.entries = table;
        out
    }

    /// Number of keys.
    pub fn len(&self) -> (n: usize)
        ensures
            n == self.map().dom().len(),
    {
        proof {
            use_type_invariant(self);
            lemma_assoc_len(self.entries@);
        }
        self.entries.len()
    }

    /// Whether there are no keys.
    pub fn is_empty(&self) -> (r: bool)
        ensures
            r == (self.map().dom().len() == 0),
    {
        self.len() == 0
    }

    /// The stored pairs, consuming the map.
    pub fn into_pairs(self) -> (r: Vec<(K, V)>)
        ensures
            r@ == self.pairs(),
            keys_distinct(r@),
            assoc_map(r@) == self.map(),
    {
        proof {
            use_type_invariant(&self);
        }
        self.entries
    }

    /// The stored pairs, each key once.
    pub fn entries(&self) -> (r: &Vec<(K, V)>)
        ensures
            r@ == self.pairs(),
            keys_distinct(r@),
            assoc_map(r@) == self.map(),
    {
        proof {
            use_type_invariant(self);
        }
        &self.entries
    }
}

} // verus!
