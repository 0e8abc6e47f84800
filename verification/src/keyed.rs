//! Maps kept as vectors of entries with distinct keys: the map an entry
//! list describes, and the facts the containers built on it rely on.

use vstd::prelude::*;

verus! {


/// The map that a list of key/value entries describes, keys and values
/// taken by their views; a later entry for a key
/// replaces an earlier one.
pub open spec fn map_of_entries<K: View, V: View>(s: Seq<(K, V)>) -> Map<K::V, V::V>
    decreases s.len(),
{
    if s.len() == 0 {
        Map::empty()
    } else {
        map_of_entries(s.drop_last()).insert(s.last().0@, s.last().1@)
    }
}

/// No key occurs twice.
pub open spec fn keys_distinct<K: View, V>(s: Seq<(K, V)>) -> bool {
    forall|i: int, j: int| 0 <= i < j < s.len() ==> s[i].0@ != s[j].0@
}

/// A key is in the map exactly when some entry carries it.
pub proof fn lemma_map_of_entries_dom<K: View, V: View>(s: Seq<(K, V)>, k: K::V)
    ensures
        map_of_entries(s).contains_key(k) <==> exists|i: int| 0 <= i < s.len() && s[i].0@ == k,
    decreases s.len(),
{
    if s.len() > 0 {
        lemma_map_of_entries_dom(s.drop_last(), k);
        if map_of_entries(s).contains_key(k) && k != s.last().0@ {
            let i = choose|i: int| 0 <= i < s.drop_last().len() && s.drop_last()[i].0@ == k;
            assert(s[i].0@ == k);
        }
        if exists|i: int| 0 <= i < s.len() && s[i].0@ == k {
            let i = choose|i: int| 0 <= i < s.len() && s[i].0@ == k;
            if i < s.len() - 1 {
                assert(s.drop_last()[i].0@ == k);
            }
        }
    }
}

/// With distinct keys, each entry's value is the value of its key.
pub proof fn lemma_map_of_entries_value<K: View, V: View>(s: Seq<(K, V)>, i: int)
    requires
        keys_distinct(s),
        0 <= i < s.len(),
    ensures
        map_of_entries(s).contains_key(s[i].0@),
        map_of_entries(s)[s[i].0@] == s[i].1@,
    decreases s.len(),
{
    if i < s.len() - 1 {
        assert(s.drop_last()[i] == s[i]);
        assert(keys_distinct(s.drop_last()));
        lemma_map_of_entries_value(s.drop_last(), i);
    }
}

/// With distinct keys, the map has one key per entry.
pub proof fn lemma_map_of_entries_len<K: View, V: View>(s: Seq<(K, V)>)
    requires
        keys_distinct(s),
    ensures
        map_of_entries(s).dom().finite(),
        map_of_entries(s).dom().len() == s.len(),
    decreases s.len(),
{
    if s.len() > 0 {
        let t = s.drop_last();
        assert(keys_distinct(t));
        lemma_map_of_entries_len(t);
        lemma_map_of_entries_dom(t, s.last().0@);
        if map_of_entries(t).contains_key(s.last().0@) {
            let i = choose|i: int| 0 <= i < t.len() && t[i].0@ == s.last().0@;
            assert(s[i].0@ == s[s.len() - 1].0@);
        }
    }
}

/// Replacing the value of an entry updates its key in the map.
pub proof fn lemma_map_of_entries_update<K: View, V: View>(s: Seq<(K, V)>, i: int, e: (K, V))
    requires
        keys_distinct(s),
        0 <= i < s.len(),
        e.0@ == s[i].0@,
    ensures
        keys_distinct(s.update(i, e)),
        map_of_entries(s.update(i, e)) == map_of_entries(s).insert(e.0@, e.1@),
{
    let t = s.update(i, e);
    assert(keys_distinct(t));
    assert forall|k: K::V| #[trigger] map_of_entries(t).contains_key(k)
        == map_of_entries(s).insert(e.0@, e.1@).contains_key(k) by {
        lemma_map_of_entries_dom(t, k);
        lemma_map_of_entries_dom(s, k);
        if exists|j: int| 0 <= j < s.len() && s[j].0@ == k {
            let j = choose|j: int| 0 <= j < s.len() && s[j].0@ == k;
            assert(t[j].0@ == k);
        }
        if exists|j: int| 0 <= j < t.len() && t[j].0@ == k {
            let j = choose|j: int| 0 <= j < t.len() && t[j].0@ == k;
            assert(s[j].0@ == k);
        }
    }
    assert forall|k: K::V| #[trigger] map_of_entries(t).contains_key(k) implies map_of_entries(
        t,
    )[k] == map_of_entries(s).insert(e.0@, e.1@)[k] by {
        lemma_map_of_entries_dom(t, k);
        let j = choose|j: int| 0 <= j < t.len() && t[j].0@ == k;
        lemma_map_of_entries_value(t, j);
        if j != i {
            lemma_map_of_entries_value(s, j);
        }
    }
    assert(map_of_entries(t) =~= map_of_entries(s).insert(e.0@, e.1@));
}

/// Two entry lists with the same keys in the same order, whose values are
/// related entry by entry, describe maps with the same keys whose values
/// are related key by key.
pub proof fn lemma_map_of_entries_pointwise<K: View, V: View>(
    s1: Seq<(K, V)>,
    s2: Seq<(K, V)>,
    r: spec_fn(V::V, V::V) -> bool,
)
    requires
        s1.len() == s2.len(),
        forall|j: int| 0 <= j < s1.len() ==> #[trigger] s1[j].0@ == s2[j].0@,
        forall|j: int| 0 <= j < s1.len() ==> r(#[trigger] s1[j].1@, s2[j].1@),
    ensures
        map_of_entries(s1).dom() == map_of_entries(s2).dom(),
        forall|k: K::V|
            #[trigger] map_of_entries(s1).contains_key(k) ==> r(
                map_of_entries(s1)[k],
                map_of_entries(s2)[k],
            ),
    decreases s1.len(),
{
    if s1.len() > 0 {
        let t1 = s1.drop_last();
        let t2 = s2.drop_last();
        assert forall|j: int| 0 <= j < t1.len() implies #[trigger] t1[j].0@ == t2[j].0@ by {
            assert(s1[j].0@ == s2[j].0@);
        }
        assert forall|j: int| 0 <= j < t1.len() implies r(#[trigger] t1[j].1@, t2[j].1@) by {
            assert(r(s1[j].1@, s2[j].1@));
        }
        lemma_map_of_entries_pointwise(t1, t2, r);
        let n = s1.len() - 1;
        assert(s1[n].0@ == s2[n].0@);
        assert(r(s1[n].1@, s2[n].1@));
        assert(map_of_entries(s1).dom() =~= map_of_entries(s2).dom());
    }
}

} // verus!
