//! A map keyed by strings, kept as a vector of distinct keys.

use vstd::prelude::*;
use crate::keyed::{
    keys_distinct, lemma_map_of_entries_pointwise, lemma_map_of_entries_dom, lemma_map_of_entries_len,
    lemma_map_of_entries_update, lemma_map_of_entries_value, map_of_entries,
};
use crate::wire::str_eq;

verus! {

/// A string-keyed map whose keys are distinct, in insertion order.
#[derive(Debug)]
pub struct StrMap<V> {
    entries: Vec<(String, V)>,
}

impl<V: View> View for StrMap<V> {
    type V = Map<Seq<char>, V::V>;

    closed spec fn view(&self) -> Map<Seq<char>, V::V> {
        map_of_entries(self.entries@)
    }
}

impl<V> StrMap<V> {
    #[verifier::type_invariant]
    spec fn distinct(self) -> bool {
        keys_distinct(self.entries@)
    }

    /// The entries, in insertion order.
    pub closed spec fn entry_seq(&self) -> Seq<(String, V)> {
        self.entries@
    }
}

impl<V: View> StrMap<V> {
    /// An empty map.
    pub fn new() -> (m: Self)
        ensures
            m@ == Map::<Seq<char>, V::V>::empty(),
    {
        StrMap { entries: Vec::new() }
    }

    /// Number of keys; also the number of entries, which have distinct keys
    /// and describe the map.
    pub fn len(&self) -> (n: usize)
        ensures
            self@.dom().finite(),
            n == self@.dom().len(),
            n == self.entry_seq().len(),
            keys_distinct(self.entry_seq()),
            map_of_entries(self.entry_seq()) == self@,
    {
        proof {
            use_type_invariant(self);
            lemma_map_of_entries_len(self.entries@);
        }
        self.entries.len()
    }

    /// The entry at position `i`.
    pub fn entry(&self, i: usize) -> (e: (&String, &V))
        requires
            i < self.entry_seq().len(),
        ensures
            *e.0 == self.entry_seq()[i as int].0,
            *e.1 == self.entry_seq()[i as int].1,
    {
        (&self.entries[i].0, &self.entries[i].1)
    }

    /// Whether the map has no key.
    pub fn is_empty(&self) -> (b: bool)
        ensures
            b <==> self@.dom() =~= Set::<Seq<char>>::empty(),
    {
        proof {
            use_type_invariant(self);
            lemma_map_of_entries_len(self.entries@);
            if self.entries@.len() > 0 {
                lemma_map_of_entries_value(self.entries@, 0);
            }
        }
        self.entries.len() == 0
    }

    /// The value of `key`, if present.
    pub fn get(&self, key: &str) -> (r: Option<&V>)
        ensures
            r is Some <==> self@.contains_key(key@),
            r matches Some(v) ==> v@ == self@[key@],
    {
        proof {
            use_type_invariant(self);
            lemma_map_of_entries_dom(self.entries@, key@);
        }
        match find_entry(&self.entries, key) {
            Some(i) => {
                proof {
                    lemma_map_of_entries_value(self.entries@, i as int);
                }
                Some(&self.entries[i].1)
            },
            None => None,
        }
    }

    /// Whether `key` is present.
    pub fn contains_key(&self, key: &str) -> (b: bool)
        ensures
            b == self@.contains_key(key@),
    {
        self.get(key).is_some()
    }

    /// Sets the value of `key`, replacing any earlier value.
    pub fn insert(&mut self, key: String, value: V)
        ensures
            final(self)@ == old(self)@.insert(key@, value@),
    {
        proof {
            use_type_invariant(&*self);
        }
        let mut entries = Vec::new();
        std::mem::swap(&mut entries, &mut self.entries);
        let ghost before = entries@;
        assert(before == old(self).entries@);
        match find_entry(&entries, key.as_str()) {
            Some(i) => {
                proof {
                    lemma_map_of_entries_update(before, i as int, (key, value));
                }
                entries.set(i, (key, value));
            },
            None => {
                proof {
                    lemma_map_of_entries_dom(before, key@);
                }
                entries.push((key, value));
                proof {
                    assert(entries@.drop_last() =~= before);
                }
            },
        }
        self.entries = entries;
    }
}

impl<V: Clone> Clone for StrMap<V> {
    /// A copy with the same keys, in the same order, each value cloned.
    fn clone(&self) -> (c: Self)
        ensures
            c.entry_seq().len() == self.entry_seq().len(),
            forall|j: int|
                0 <= j < self.entry_seq().len() ==> c.entry_seq()[j].0@ == self.entry_seq()[j].0@,
            forall|j: int|
                0 <= j < self.entry_seq().len() ==> cloned::<V>(
                    self.entry_seq()[j].1,
                    #[trigger] c.entry_seq()[j].1,
                ),
    {
        proof {
            use_type_invariant(self);
        }
        let mut entries: Vec<(String, V)> = Vec::new();
        let mut i: usize = 0;
        while i < self.entries.len()
            invariant
                i <= self.entries@.len(),
                entries@.len() == i,
                keys_distinct(self.entries@),
                forall|j: int| 0 <= j < i ==> entries@[j].0@ == self.entries@[j].0@,
                forall|j: int| 0 <= j < i ==> cloned::<V>(self.entries@[j].1, #[trigger] entries@[j].1),
            decreases self.entries@.len() - i,
        {
            let key = self.entries[i].0.clone();
            let value = self.entries[i].1.clone();
            entries.push((key, value));
            i += 1;
        }
        proof {
            assert forall|a: int, b: int| 0 <= a < b < entries@.len() implies entries@[a].0@
                != entries@[b].0@ by {
                assert(self.entries@[a].0@ != self.entries@[b].0@);
            }
        }
        StrMap { entries }
    }
}

/// Position of `key` among `entries`, if present.
fn find_entry<V>(entries: &Vec<(String, V)>, key: &str) -> (r: Option<usize>)
    ensures
        match r {
            Some(i) => i < entries@.len() && entries@[i as int].0@ == key@,
            None => forall|j: int| 0 <= j < entries@.len() ==> entries@[j].0@ != key@,
        },
{
    let mut i: usize = 0;
    while i < entries.len()
        invariant
            i <= entries@.len(),
            forall|j: int| 0 <= j < i ==> entries@[j].0@ != key@,
        decreases entries@.len() - i,
    {
        if str_eq(entries[i].0.as_str(), key) {
            return Some(i);
        }
        i += 1;
    }
    None
}

/// A clone describes the same map when cloning a value keeps its view:
/// the same keys, each with its own value.
pub proof fn lemma_clone_same_map<V: Clone + View>(s: StrMap<V>, c: StrMap<V>)
    requires
        c.entry_seq().len() == s.entry_seq().len(),
        forall|j: int|
            0 <= j < s.entry_seq().len() ==> c.entry_seq()[j].0@ == s.entry_seq()[j].0@,
        forall|j: int|
            0 <= j < s.entry_seq().len() ==> cloned::<V>(s.entry_seq()[j].1, #[trigger] c.entry_seq()[j].1),
        forall|a: V, b: V| #[trigger] cloned::<V>(a, b) ==> a@ == b@,
    ensures
        c@ == s@,
{
    let r = |x: V::V, y: V::V| x == y;
    let s1 = s.entry_seq();
    let s2 = c.entry_seq();
    assert forall|j: int| 0 <= j < s1.len() implies r(#[trigger] s1[j].1@, s2[j].1@) by {
        assert(cloned::<V>(s1[j].1, s2[j].1));
    }
    assert forall|j: int| 0 <= j < s1.len() implies #[trigger] s1[j].0@ == s2[j].0@ by {
        assert(s2[j].0@ == s1[j].0@);
    }
    lemma_map_of_entries_pointwise(s1, s2, r);
    assert(c@ =~= s@);
}

} // verus!
