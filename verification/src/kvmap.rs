//! A map from session or user names to entries, with the registry contract
//! the rest of the crate builds on: `insert` overwrites unconditionally,
//! `get` is a read-only snapshot, `remove` deletes exactly the named entry.
//!
//! Entries live in a vector with pairwise-distinct keys; the mathematical
//! view is a `Map` from character sequences to entries.

use vstd::prelude::*;

use crate::textenc;

verus! {

/// Pairwise-distinct keys.
pub open spec fn unique_keys<V>(s: Seq<(String, V)>) -> bool {
    forall|i: int, j: int| 0 <= i < j < s.len() ==> (#[trigger] s[i]).0@ != (#[trigger] s[j]).0@
}

/// The map an entry sequence denotes.
pub open spec fn map_of<V>(s: Seq<(String, V)>) -> Map<Seq<char>, V> {
    Map::new(
        |k: Seq<char>| exists|i: int| 0 <= i < s.len() && (#[trigger] s[i]).0@ == k,
        |k: Seq<char>|
            s[choose|i: int| 0 <= i < s.len() && (#[trigger] s[i]).0@ == k].1,
    )
}

/// With distinct keys, the entry at any index gives its key's map value.
proof fn lemma_map_of_at<V>(s: Seq<(String, V)>, i: int)
    requires
        unique_keys(s),
        0 <= i < s.len(),
    ensures
        map_of(s).dom().contains(s[i].0@),
        map_of(s)[s[i].0@] == s[i].1,
{
    let k = s[i].0@;
    let j = choose|j: int| 0 <= j < s.len() && (#[trigger] s[j]).0@ == k;
    assert(0 <= j < s.len() && s[j].0@ == k);
    if i != j {
        assert(s[i].0@ != s[j].0@);
    }
}

/// Appending a fresh key extends the map by that key.
proof fn lemma_map_of_push<V>(s: Seq<(String, V)>, key: String, v: V)
    requires
        unique_keys(s),
        !map_of(s).dom().contains(key@),
    ensures
        unique_keys(s.push((key, v))),
        map_of(s.push((key, v))) == map_of(s).insert(key@, v),
{
    let t = s.push((key, v));
    assert forall|i: int, j: int| 0 <= i < j < t.len() implies (#[trigger] t[i]).0@ != (
    #[trigger] t[j]).0@ by {
        if j < s.len() {
            assert(t[i] == s[i] && t[j] == s[j]);
        } else {
            assert(t[j] == (key, v) && t[i] == s[i]);
            if s[i].0@ == key@ {
                assert(exists|m: int| 0 <= m < s.len() && (#[trigger] s[m]).0@ == key@);
            }
        }
    }
    let m1 = map_of(t);
    let m2 = map_of(s).insert(key@, v);
    assert forall|k: Seq<char>| #[trigger] m1.dom().contains(k) implies m2.dom().contains(k)
        && m1[k] == m2[k] by {
        let i = choose|i: int| 0 <= i < t.len() && (#[trigger] t[i]).0@ == k;
        if i < s.len() {
            assert(s[i].0@ == k);
            lemma_map_of_at(s, i);
            lemma_map_of_at(t, i);
            if k == key@ {
                assert(exists|m: int| 0 <= m < s.len() && (#[trigger] s[m]).0@ == key@);
            }
        } else {
            assert(t[i] == (key, v));
            lemma_map_of_at(t, t.len() - 1);
        }
    }
    assert forall|k: Seq<char>| #[trigger] m2.dom().contains(k) implies m1.dom().contains(k) by {
        if k == key@ {
            assert(t[t.len() - 1].0@ == k);
        } else {
            let i = choose|i: int| 0 <= i < s.len() && (#[trigger] s[i]).0@ == k;
            assert(t[i].0@ == k);
        }
    }
    assert(m1 =~= m2);
}

/// Deleting the entry at an index removes exactly its key from the map.
proof fn lemma_map_of_remove<V>(s: Seq<(String, V)>, i: int)
    requires
        unique_keys(s),
        0 <= i < s.len(),
    ensures
        unique_keys(s.remove(i)),
        map_of(s.remove(i)) == map_of(s).remove(s[i].0@),
{
    let key = s[i].0@;
    let t = s.remove(i);
    assert forall|a: int, b: int| 0 <= a < b < t.len() implies (#[trigger] t[a]).0@ != (
    #[trigger] t[b]).0@ by {
        let a0 = if a < i {
            a
        } else {
            a + 1
        };
        let b0 = if b < i {
            b
        } else {
            b + 1
        };
        assert(t[a] == s[a0] && t[b] == s[b0]);
    }
    let m1 = map_of(t);
    let m2 = map_of(s).remove(key);
    assert forall|k: Seq<char>| #[trigger] m1.dom().contains(k) implies m2.dom().contains(k)
        && m1[k] == m2[k] by {
        let a = choose|a: int| 0 <= a < t.len() && (#[trigger] t[a]).0@ == k;
        let a0 = if a < i {
            a
        } else {
            a + 1
        };
        assert(t[a] == s[a0]);
        lemma_map_of_at(s, a0);
        lemma_map_of_at(t, a);
        if k == key {
            assert(s[a0].0@ == s[i].0@ && a0 != i);
        }
    }
    assert forall|k: Seq<char>| #[trigger] m2.dom().contains(k) implies m1.dom().contains(k) by {
        let a0 = choose|a0: int| 0 <= a0 < s.len() && (#[trigger] s[a0]).0@ == k;
        if a0 == i {
            assert(s[a0].0@ == key);
        } else {
            let a = if a0 < i {
                a0
            } else {
                a0 - 1
            };
            assert(t[a] == s[a0]);
        }
    }
    assert(m1 =~= m2);
}

/// A name-keyed map of entries.
pub struct KvMap<V> {
    pairs: Vec<(String, V)>,
}

impl<V> KvMap<V> {
    /// The entries, in storage order.
    pub closed spec fn entries(&self) -> Seq<(String, V)> {
        self.pairs@
    }

    /// Well-formed: no key occurs twice.
    pub open spec fn wf(&self) -> bool {
        unique_keys(self.entries())
    }

    /// An empty map.
    pub fn new() -> (r: Self)
        ensures
            r.wf(),
            r@ == Map::<Seq<char>, V>::empty(),
            r.entries() == Seq::<(String, V)>::empty(),
    {
        let r = KvMap { pairs: Vec::new() };
        proof {
            assert(r@ =~= Map::<Seq<char>, V>::empty());
        }
        r
    }

    /// How many entries the map holds.
    pub fn len(&self) -> (r: usize)
        ensures
            r == self.entries().len(),
    {
        self.pairs.len()
    }

    /// The key of the entry at a storage index.
    pub fn key_at(&self, i: usize) -> (r: &String)
        requires
            i < self.entries().len(),
        ensures
            *r == self.entries()[i as int].0,
    {
        &self.pairs[i].0
    }

    /// The value of the entry at a storage index.
    pub fn val_at(&self, i: usize) -> (r: &V)
        requires
            i < self.entries().len(),
        ensures
            *r == self.entries()[i as int].1,
    {
        &self.pairs[i].1
    }

    /// Finds the storage index of a key.
    fn index_of(&self, key: &str) -> (r: Option<usize>)
        requires
            self.wf(),
        ensures
            match r {
                Some(i) => i < self.entries().len() && self.entries()[i as int].0@ == key@
                    && self@.dom().contains(key@) && self@[key@] == self.entries()[i as int].1,
                None => !self@.dom().contains(key@),
            },
    {
        let n = self.pairs.len();
        let mut i: usize = 0;
        while i < n
            invariant
                self.wf(),
                n == self.entries().len(),
                0 <= i <= n,
                forall|j: int| 0 <= j < i ==> (#[trigger] self.entries()[j]).0@ != key@,
            decreases n - i,
        {
            if textenc::str_eq(self.pairs[i].0.as_str(), key) {
                proof {
                    lemma_map_of_at(self.entries(), i as int);
                }
                return Some(i);
            }
            i = i + 1;
        }
        None
    }

    /// A read-only snapshot of the entry under a name, if one is present.
    pub fn get(&self, key: &str) -> (r: Option<&V>)
        requires
            self.wf(),
        ensures
            match r {
                Some(v) => self@.dom().contains(key@) && *v == self@[key@],
                None => !self@.dom().contains(key@),
            },
    {
        match self.index_of(key) {
            Some(i) => Some(&self.pairs[i].1),
            None => None,
        }
    }

    /// Deletes the entry under a name and hands it back; without one, the
    /// map is unchanged.
    pub fn remove(&mut self, key: &str) -> (r: Option<V>)
        requires
            old(self).wf(),
        ensures
            final(self).wf(),
            final(self)@ == old(self)@.remove(key@),
            match r {
                Some(v) => old(self)@.dom().contains(key@) && v == old(self)@[key@],
                None => !old(self)@.dom().contains(key@) && final(self)@ == old(self)@,
            },
    {
        match self.index_of(key) {
            Some(i) => {
                proof {
                    lemma_map_of_remove(self.entries(), i as int);
                }
                let (_k, v) = self.pairs.remove(i);
                Some(v)
            },
            None => {
                proof {
                    assert(self@ =~= self@.remove(key@));
                }
                None
            },
        }
    }

    /// Binds a name to an entry, unconditionally: an entry already under
    /// that name is replaced.
    pub fn insert(&mut self, key: String, value: V)
        requires
            old(self).wf(),
        ensures
            final(self).wf(),
            final(self)@ == old(self)@.insert(key@, value),
    {
        let _ = self.remove(key.as_str());
        proof {
            lemma_map_of_push(self.entries(), key, value);
        }
        self.pairs.push((key, value));
        proof {
            assert(self@ =~= old(self)@.insert(key@, value));
        }
    }
}

impl<V> View for KvMap<V> {
    type V = Map<Seq<char>, V>;

    open spec fn view(&self) -> Map<Seq<char>, V> {
        map_of(self.entries())
    }
}

/// After an entry is removed, a lookup of its name finds nothing: the
/// registry forgets a session the moment its owner deletes it.
pub proof fn lemma_removed_not_found<V>(m: Map<Seq<char>, V>, name: Seq<char>)
    ensures
        !m.remove(name).dom().contains(name),
{
}

/// Inserting under a present name replaces what a lookup finds, at once and
/// regardless of what was there.
pub proof fn lemma_insert_overwrites<V>(m: Map<Seq<char>, V>, name: Seq<char>, v: V)
    ensures
        m.insert(name, v).dom().contains(name),
        m.insert(name, v)[name] == v,
        forall|other: Seq<char>|
            other != name && m.dom().contains(other) ==> #[trigger] m.insert(name, v)[other]
                == m[other],
{
}

} // verus!
