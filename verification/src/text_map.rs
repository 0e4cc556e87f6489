//! A map keyed by text whose entries are kept in the order of their keys.

use vstd::prelude::*;
use crate::order::{self, Placement, Ranked};

verus! {

/// `keys` lists the keys of `map` in order.
pub open spec fn lists_keys<X>(keys: Seq<Seq<char>>, map: Map<Seq<char>, X>) -> bool {
    &&& order::strictly_sorted::<String>(keys)
    &&& forall|k: Seq<char>| #[trigger] keys.contains(k) <==> map.dom().contains(k)
}

/// The keys of `map` in order.
pub open spec fn ordered_keys<X>(map: Map<Seq<char>, X>) -> Seq<Seq<char>> {
    choose|keys: Seq<Seq<char>>| lists_keys(keys, map)
}

/// A sequence that lists the keys of `map` is their ordered listing.
pub proof fn key_listing_is_unique<X>(keys: Seq<Seq<char>>, map: Map<Seq<char>, X>)
    requires
        lists_keys(keys, map),
    ensures
        ordered_keys(map) == keys,
{
    let chosen = ordered_keys(map);
    assert(lists_keys(chosen, map));
    assert forall|k: Seq<char>| #[trigger] chosen.contains(k) <==> keys.contains(k) by {}
    order::listing_is_unique::<String>(chosen, keys);
}

/// A map with finitely many keys has an ordered listing of them.
pub proof fn finite_maps_have_a_key_listing<X>(map: Map<Seq<char>, X>)
    requires
        map.dom().finite(),
    ensures
        lists_keys(ordered_keys(map), map),
{
    let keys = map.dom().to_seq();
    map.dom().lemma_to_seq_to_set_id();
    order::every_sequence_has_a_listing::<String>(keys);
    let listing = order::sorted_distinct::<String>(keys);
    assert forall|k: Seq<char>| #[trigger] listing.contains(k) <==> map.dom().contains(k) by {
        assert(keys.to_set().contains(k) <==> keys.contains(k));
    }
    key_listing_is_unique(listing, map);
}

/// A map from text, kept in the order of its keys.
#[derive(Debug, PartialEq, Eq)]
pub struct TextMap<V> {
    entries: Vec<(String, V)>,
}

spec fn keys_of<V>(entries: Seq<(String, V)>) -> Seq<Seq<char>> {
    Seq::new(entries.len(), |i: int| entries[i].0@)
}

spec fn is_entry<V>(entries: Seq<(String, V)>, k: Seq<char>, i: int) -> bool {
    0 <= i < entries.len() && entries[i].0@ == k
}

spec fn contents_of<V: DeepView>(entries: Seq<(String, V)>) -> Map<Seq<char>, V::V> {
    Map::new(
        |k: Seq<char>| exists|i: int| is_entry(entries, k, i),
        |k: Seq<char>| entries[choose|i: int| is_entry(entries, k, i)].1.deep_view(),
    )
}

impl<V: DeepView> DeepView for TextMap<V> {
    type V = Map<Seq<char>, V::V>;

    closed spec fn deep_view(&self) -> Map<Seq<char>, V::V> {
        contents_of(self.entries@)
    }
}

proof fn lemma_one_entry<V>(entries: Seq<(String, V)>, k: Seq<char>, i: int, j: int)
    requires
        order::strictly_sorted::<String>(keys_of(entries)),
        is_entry(entries, k, i),
        is_entry(entries, k, j),
    ensures
        i == j,
{
    order::rank_lt_irreflexive(String::rank(k));
    let keys = keys_of(entries);
    if i < j {
        assert(order::precedes::<String>(keys[i], keys[j]));
    } else if j < i {
        assert(order::precedes::<String>(keys[j], keys[i]));
    }
}

proof fn lemma_contents<V: DeepView>(entries: Seq<(String, V)>, k: Seq<char>, i: int)
    requires
        order::strictly_sorted::<String>(keys_of(entries)),
        is_entry(entries, k, i),
    ensures
        contents_of(entries).dom().contains(k),
        contents_of(entries)[k] == entries[i].1.deep_view(),
{
    let chosen = choose|j: int| is_entry(entries, k, j);
    lemma_one_entry(entries, k, i, chosen);
}

proof fn lemma_lists_keys<V: DeepView>(entries: Seq<(String, V)>)
    requires
        order::strictly_sorted::<String>(keys_of(entries)),
    ensures
        lists_keys(keys_of(entries), contents_of(entries)),
        ordered_keys(contents_of(entries)) == keys_of(entries),
{
    let keys = keys_of(entries);
    assert forall|k: Seq<char>| #[trigger] keys.contains(k) <==> contents_of(
        entries,
    ).dom().contains(k) by {
        if keys.contains(k) {
            let i = choose|i: int| 0 <= i < keys.len() && keys[i] == k;
            assert(is_entry(entries, k, i));
        }
        if contents_of(entries).dom().contains(k) {
            let i = choose|i: int| is_entry(entries, k, i);
            assert(keys[i] == k);
        }
    }
    key_listing_is_unique(keys, contents_of(entries));
}

/// The position of the first entry whose key does not come before `key`, and
/// whether that entry has this key.
fn locate<V>(entries: &Vec<(String, V)>, key: &str) -> (found: (usize, bool))
    requires
        order::strictly_sorted::<String>(keys_of(entries@)),
    ensures
        found.0 <= entries@.len(),
        forall|i: int|
            0 <= i < found.0 ==> order::precedes::<String>(
                #[trigger] keys_of(entries@)[i],
                key@,
            ),
        forall|i: int|
            found.0 <= i < entries@.len() ==> !order::precedes::<String>(
                #[trigger] keys_of(entries@)[i],
                key@,
            ),
        found.1 <==> found.0 < entries@.len() && entries@[found.0 as int].0@ == key@,
{
    let mut rank: Vec<Vec<u8>> = Vec::new();
    rank.push(order::text_key(key));
    let ghost keys = keys_of(entries@);
    assert(rank@[0].deep_view() =~= rank@[0]@);
    assert(rank.deep_view() =~= String::rank(key@));
    let mut low: usize = 0;
    let mut high: usize = entries.len();
    while low < high
        invariant
            low <= high <= entries@.len(),
            keys == keys_of(entries@),
            order::strictly_sorted::<String>(keys),
            rank.deep_view() == String::rank(key@),
            forall|i: int| 0 <= i < low ==> order::precedes::<String>(#[trigger] keys[i], key@),
            forall|i: int|
                high <= i < entries@.len() ==> !order::precedes::<String>(
                    #[trigger] keys[i],
                    key@,
                ),
        decreases high - low,
    {
        let mid: usize = low + (high - low) / 2;
        let probe = entries[mid].0.rank_key();
        assert(probe.deep_view() == String::rank(keys[mid as int]));
        match order::place(&probe, &rank) {
            Placement::Before => {
                assert forall|i: int| 0 <= i < mid + 1 implies order::precedes::<String>(
                    #[trigger] keys[i],
                    key@,
                ) by {
                    if i < mid {
                        assert(order::precedes::<String>(keys[i], keys[mid as int]));
                        order::rank_lt_transitive(
                            String::rank(keys[i]),
                            String::rank(keys[mid as int]),
                            String::rank(key@),
                        );
                    }
                }
                low = mid + 1;
            },
            _ => {
                assert forall|i: int| mid <= i < entries@.len() implies !order::precedes::<String>(
                    #[trigger] keys[i],
                    key@,
                ) by {
                    if i > mid && order::precedes::<String>(keys[i], key@) {
                        assert(order::precedes::<String>(keys[mid as int], keys[i]));
                        order::rank_lt_transitive(
                            String::rank(keys[mid as int]),
                            String::rank(keys[i]),
                            String::rank(key@),
                        );
                    }
                }
                high = mid;
            },
        }
    }
    let mut present = false;
    if low < entries.len() {
        let probe = entries[low].0.rank_key();
        match order::place(&probe, &rank) {
            Placement::Same => {
                proof {
                    String::rank_tells_apart(entries@[low as int].0@, key@);
                }
                present = true;
            },
            _ => {},
        }
    }
    (low, present)
}

impl<V> TextMap<V> {
    #[verifier::type_invariant]
    spec fn in_order(&self) -> bool {
        order::strictly_sorted::<String>(keys_of(self.entries@))
    }
}

impl<V: DeepView> TextMap<V> {
    pub fn new() -> (map: Self)
        ensures
            map.deep_view() == Map::<Seq<char>, V::V>::empty(),
    {
        let entries: Vec<(String, V)> = Vec::new();
        assert(contents_of(entries@) =~= Map::<Seq<char>, V::V>::empty());
        TextMap { entries }
    }

    /// The number of entries.
    pub fn len(&self) -> (count: usize)
        ensures
            count == ordered_keys(self.deep_view()).len(),
            lists_keys(ordered_keys(self.deep_view()), self.deep_view()),
    {
        proof {
            use_type_invariant(self);
            lemma_lists_keys(self.entries@);
        }
        self.entries.len()
    }

    /// The key at position `at` in the order of the keys.
    pub fn key_at(&self, at: usize) -> (key: &String)
        requires
            at < ordered_keys(self.deep_view()).len(),
        ensures
            key@ == ordered_keys(self.deep_view())[at as int],
    {
        proof {
            use_type_invariant(self);
            lemma_lists_keys(self.entries@);
        }
        &self.entries[at].0
    }

    /// The value at position `at` in the order of the keys.
    pub fn value_at(&self, at: usize) -> (value: &V)
        requires
            at < ordered_keys(self.deep_view()).len(),
        ensures
            value.deep_view() == self.deep_view()[ordered_keys(self.deep_view())[at as int]],
    {
        proof {
            use_type_invariant(self);
            lemma_lists_keys(self.entries@);
            lemma_contents(self.entries@, self.entries@[at as int].0@, at as int);
        }
        &self.entries[at].1
    }

    pub fn get(&self, key: &str) -> (value: Option<&V>)
        ensures
            match value {
                Some(v) => self.deep_view().dom().contains(key@) && v.deep_view()
                    == self.deep_view()[key@],
                None => !self.deep_view().dom().contains(key@),
            },
    {
        proof {
            use_type_invariant(self);
        }
        let (at, present) = locate(&self.entries, key);
        if present {
            proof {
                lemma_contents(self.entries@, key@, at as int);
            }
            Some(&self.entries[at].1)
        } else {
            proof {
                lemma_absent(self.entries@, key@, at as int);
            }
            None
        }
    }

    /// Puts `value` under `key`, in place of the value that stood there.
    pub fn insert(&mut self, key: String, value: V)
        ensures
            final(self).deep_view() == old(self).deep_view().insert(key@, value.deep_view()),
    {
        proof {
            use_type_invariant(&*self);
        }
        let ghost before = self.entries@;
        let mut entries: Vec<(String, V)> = Vec::new();
        std::mem::swap(&mut entries, &mut self.entries);
        let (at, present) = locate(&entries, key.as_str());
        let ghost model = value.deep_view();
        let ghost name = key@;
        if present {
            entries.set(at, (key, value));
            proof {
                assert(keys_of(entries@) =~= keys_of(before));
                assert(contents_of(entries@) =~= contents_of(before).insert(name, model)) by {
                    lemma_replaced(before, entries@, name, at as int);
                }
            }
        } else {
            entries.insert(at, (key, value));
            proof {
                lemma_absent(before, name, at as int);
                lemma_inserted(before, entries@, name, at as int);
            }
        }
        self.entries = entries;
    }

    /// Removes every entry.
    pub fn clear(&mut self)
        ensures
            final(self).deep_view() == Map::<Seq<char>, V::V>::empty(),
    {
        let entries: Vec<(String, V)> = Vec::new();
        assert(contents_of(entries@) =~= Map::<Seq<char>, V::V>::empty());
        self.entries = entries;
    }
}

/// No entry has the key `key` when the entry at `at`, the first that does not
/// come before it, has another key.
proof fn lemma_absent<V: DeepView>(entries: Seq<(String, V)>, key: Seq<char>, at: int)
    requires
        order::strictly_sorted::<String>(keys_of(entries)),
        0 <= at <= entries.len(),
        forall|i: int|
            0 <= i < at ==> order::precedes::<String>(#[trigger] keys_of(entries)[i], key),
        forall|i: int|
            at <= i < entries.len() ==> !order::precedes::<String>(
                #[trigger] keys_of(entries)[i],
                key,
            ),
        !(at < entries.len() && entries[at].0@ == key),
    ensures
        !contents_of(entries).dom().contains(key),
{
    let keys = keys_of(entries);
    if contents_of(entries).dom().contains(key) {
        let i = choose|i: int| is_entry(entries, key, i);
        assert(keys[i] == key);
        order::rank_lt_irreflexive(String::rank(key));
        if at < i {
            assert(order::precedes::<String>(keys[at], keys[i]));
        }
    }
}

proof fn lemma_replaced<V: DeepView>(
    before: Seq<(String, V)>,
    after: Seq<(String, V)>,
    key: Seq<char>,
    at: int,
)
    requires
        order::strictly_sorted::<String>(keys_of(before)),
        is_entry(before, key, at),
        is_entry(after, key, at),
        after.len() == before.len(),
        keys_of(after) == keys_of(before),
        forall|i: int| 0 <= i < before.len() && i != at ==> after[i] == before[i],
    ensures
        contents_of(after) == contents_of(before).insert(key, after[at].1.deep_view()),
{
    let a = contents_of(before).insert(key, after[at].1.deep_view());
    let b = contents_of(after);
    assert forall|k: Seq<char>| #[trigger] a.dom().contains(k) <==> b.dom().contains(k) by {
        if a.dom().contains(k) && k != key {
            let i = choose|i: int| is_entry(before, k, i);
            assert(is_entry(after, k, i));
        }
        if b.dom().contains(k) && k != key {
            let i = choose|i: int| is_entry(after, k, i);
            assert(is_entry(before, k, i));
        }
    }
    assert forall|k: Seq<char>| a.dom().contains(k) implies #[trigger] a[k] == b[k] by {
        if k == key {
            lemma_contents(after, k, at);
        } else {
            let i = choose|i: int| is_entry(before, k, i);
            assert(is_entry(after, k, i));
            lemma_contents(before, k, i);
            lemma_contents(after, k, i);
        }
    }
    assert(a =~= b);
}

proof fn lemma_inserted<V: DeepView>(
    before: Seq<(String, V)>,
    after: Seq<(String, V)>,
    key: Seq<char>,
    at: int,
)
    requires
        order::strictly_sorted::<String>(keys_of(before)),
        0 <= at <= before.len(),
        after == before.insert(at, after[at]),
        after[at].0@ == key,
        !contents_of(before).dom().contains(key),
        forall|i: int|
            0 <= i < at ==> order::precedes::<String>(#[trigger] keys_of(before)[i], key),
        forall|i: int|
            at <= i < before.len() ==> !order::precedes::<String>(
                #[trigger] keys_of(before)[i],
                key,
            ),
    ensures
        order::strictly_sorted::<String>(keys_of(after)),
        contents_of(after) == contents_of(before).insert(key, after[at].1.deep_view()),
{
    let old_keys = keys_of(before);
    let keys = keys_of(after);
    assert forall|i: int| at <= i < before.len() implies order::precedes::<String>(
        key,
        #[trigger] old_keys[i],
    ) by {
        if old_keys[i] == key {
            assert(is_entry(before, key, i));
        }
        if String::rank(old_keys[i]) == String::rank(key) {
            String::rank_tells_apart(old_keys[i], key);
        }
        order::rank_lt_total(String::rank(old_keys[i]), String::rank(key));
    }
    assert forall|i: int, j: int| 0 <= i < j < keys.len() implies #[trigger] order::precedes::<
        String,
    >(keys[i], keys[j]) by {
        let oi = if i < at { i } else { i - 1 };
        let oj = if j < at { j } else { j - 1 };
        if i != at && j != at {
            assert(keys[i] == old_keys[oi] && keys[j] == old_keys[oj]);
            assert(order::precedes::<String>(old_keys[oi], old_keys[oj]));
        } else if i == at {
            assert(keys[j] == old_keys[oj]);
            assert(order::precedes::<String>(key, old_keys[oj]));
        } else {
            assert(keys[i] == old_keys[oi]);
            assert(order::precedes::<String>(old_keys[oi], key));
        }
    }
    let a = contents_of(before).insert(key, after[at].1.deep_view());
    let b = contents_of(after);
    assert forall|k: Seq<char>| #[trigger] a.dom().contains(k) <==> b.dom().contains(k) by {
        if a.dom().contains(k) {
            if k == key {
                assert(is_entry(after, k, at));
            } else {
                let i = choose|i: int| is_entry(before, k, i);
                let n = if i < at { i } else { i + 1 };
                assert(is_entry(after, k, n));
            }
        }
        if b.dom().contains(k) && k != key {
            let i = choose|i: int| is_entry(after, k, i);
            let o = if i < at { i } else { i - 1 };
            assert(is_entry(before, k, o));
        }
    }
    assert forall|k: Seq<char>| a.dom().contains(k) implies #[trigger] a[k] == b[k] by {
        if k == key {
            assert(is_entry(after, k, at));
            lemma_contents(after, k, at);
        } else {
            let i = choose|i: int| is_entry(before, k, i);
            let n = if i < at { i } else { i + 1 };
            assert(is_entry(after, k, n));
            lemma_contents(before, k, i);
            lemma_contents(after, k, n);
        }
    }
    assert(a =~= b);
}

}
