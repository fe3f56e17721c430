//! A map keyed by text, ordered by the UTF-8 bytes of its keys.

use crate::text::{order_str, str_equal, TextOrder};
#[allow(unused_imports)]
use crate::text::{ascending, lemma_bytes_before_transitive, text_before};
use vstd::prelude::*;
#[allow(unused_imports)]
use vstd::utf8::encode_utf8;

verus! {

/// A map from texts to values. Its keys come out in ascending order.
#[derive(Debug, PartialEq, Eq)]
pub struct TextMap<V> {
    entries: Vec<(String, V)>,
}

/// The keys of a sequence of entries.
spec fn entry_keys<V>(entries: Seq<(String, V)>) -> Seq<Seq<char>> {
    entries.map_values(|entry: (String, V)| entry.0@)
}

/// The map that entries with distinct keys stand for.
spec fn entry_map<V>(entries: Seq<(String, V)>) -> Map<Seq<char>, V> {
    Map::new(
        |key: Seq<char>| entry_keys(entries).contains(key),
        |key: Seq<char>| entries[entry_keys(entries).index_of(key)].1,
    )
}

impl<V> View for TextMap<V> {
    type V = Map<Seq<char>, V>;

    closed spec fn view(&self) -> Map<Seq<char>, V> {
        entry_map(self.entries@)
    }
}

proof fn lemma_ascending_distinct(keys: Seq<Seq<char>>)
    requires
        ascending(keys),
    ensures
        keys.no_duplicates(),
{
    assert forall|i: int, j: int| 0 <= i < j < keys.len() implies keys[i] != keys[j] by {
        assert(text_before(keys[i], keys[j]));
        crate::text::lemma_bytes_before_irreflexive(encode_utf8(keys[i]));
    }
}

proof fn lemma_entry_map<V>(entries: Seq<(String, V)>)
    requires
        ascending(entry_keys(entries)),
    ensures
        entry_keys(entries).len() == entries.len(),
        entry_map(entries).dom() == entry_keys(entries).to_set(),
        forall|i: int|
            0 <= i < entries.len() ==> entry_map(entries).dom().contains(
                (#[trigger] entries[i]).0@,
            ) && entry_map(entries)[entries[i].0@] == entries[i].1,
{
    let keys = entry_keys(entries);
    lemma_ascending_distinct(keys);
    assert forall|i: int| 0 <= i < entries.len() implies entry_map(entries).dom().contains(
        (#[trigger] entries[i]).0@,
    ) && entry_map(entries)[entries[i].0@] == entries[i].1 by {
        assert(keys[i] == entries[i].0@);
        assert(keys.contains(entries[i].0@));
        let j = keys.index_of(entries[i].0@);
        assert(keys[j] == keys[i]);
    }
    assert(entry_map(entries).dom() =~= keys.to_set());
}

/// Equal keys and equal values at each position make equal maps.
proof fn lemma_insert_entry<V>(before: Seq<(String, V)>, at: int, entry: (String, V))
    requires
        ascending(entry_keys(before)),
        0 <= at <= before.len(),
        forall|j: int|
            0 <= j < at ==> text_before((#[trigger] entry_keys(before)[j]), entry.0@),
        at < before.len() ==> text_before(entry.0@, entry_keys(before)[at]),
    ensures
        ascending(entry_keys(before.insert(at, entry))),
        entry_map(before.insert(at, entry)) == entry_map(before).insert(entry.0@, entry.1),
        !entry_map(before).dom().contains(entry.0@),
{
    let after = before.insert(at, entry);
    let old_keys = entry_keys(before);
    let keys = entry_keys(after);
    assert(keys =~= old_keys.insert(at, entry.0@));
    assert forall|i: int, j: int| 0 <= i < j < keys.len() implies #[trigger] text_before(
        keys[i],
        keys[j],
    ) by {
        if j > at {
            assert(keys[j] == old_keys[j - 1]);
            if i == at {
                if at < j - 1 {
                    assert(text_before(old_keys[at], old_keys[j - 1]));
                    lemma_bytes_before_transitive(
                        encode_utf8(entry.0@),
                        encode_utf8(old_keys[at]),
                        encode_utf8(old_keys[j - 1]),
                    );
                }
            } else if i < at {
                assert(text_before(old_keys[i], old_keys[j - 1]));
            } else {
                assert(text_before(old_keys[i - 1], old_keys[j - 1]));
            }
        } else if j == at {
            assert(keys[i] == old_keys[i]);
        } else {
            assert(text_before(old_keys[i], old_keys[j]));
        }
    }
    lemma_entry_map(before);
    lemma_entry_map(after);
    lemma_ascending_distinct(keys);
    assert(after[at] == entry);
    assert(!old_keys.contains(entry.0@)) by {
        if old_keys.contains(entry.0@) {
            let i = choose|i: int| 0 <= i < old_keys.len() && old_keys[i] == entry.0@;
            let k = if i < at {
                i
            } else {
                i + 1
            };
            assert(keys[k] == keys[at]);
        }
    }
    let expected = entry_map(before).insert(entry.0@, entry.1);
    let actual = entry_map(after);
    assert forall|key: Seq<char>| keys.contains(key) <==> old_keys.contains(key) || key
        == entry.0@ by {
        if keys.contains(key) {
            let i = choose|i: int| 0 <= i < keys.len() && keys[i] == key;
            if i < at {
                assert(old_keys[i] == key);
            } else if i > at {
                assert(old_keys[i - 1] == key);
            }
        }
        if old_keys.contains(key) {
            let i = choose|i: int| 0 <= i < old_keys.len() && old_keys[i] == key;
            let k = if i < at {
                i
            } else {
                i + 1
            };
            assert(keys[k] == key);
        }
        if key == entry.0@ {
            assert(keys[at] == key);
        }
    }
    assert forall|key: Seq<char>| expected.dom().contains(key) implies actual[key]
        == expected[key] by {
        if key != entry.0@ {
            let i = choose|i: int| 0 <= i < old_keys.len() && old_keys[i] == key;
            assert(before[i].0@ == key);
            let k = if i < at {
                i
            } else {
                i + 1
            };
            assert(after[k] == before[i]);
        }
    }
    assert(actual =~= expected);
}

impl<V> TextMap<V> {
    #[verifier::type_invariant]
    spec fn inv(self) -> bool {
        ascending(entry_keys(self.entries@))
    }

    /// The keys, in ascending order.
    pub closed spec fn keys(self) -> Seq<Seq<char>> {
        entry_keys(self.entries@)
    }

    /// What holds of every map: the keys ascend, and they are all that have a value.
    pub open spec fn sound(self) -> bool {
        &&& ascending(self.keys())
        &&& self@.dom() == self.keys().to_set()
    }

    /// An empty map.
    pub fn new() -> (r: TextMap<V>)
        ensures
            r@ == Map::<Seq<char>, V>::empty(),
            r.keys().len() == 0,
    {
        let entries: Vec<(String, V)> = Vec::new();
        proof {
            lemma_entry_map(entries@);
            assert(entry_map(entries@) =~= Map::<Seq<char>, V>::empty());
        }
        TextMap { entries }
    }

    /// How many entries there are.
    pub fn len(&self) -> (r: usize)
        ensures
            r == self.keys().len(),
            self.sound(),
    {
        proof {
            use_type_invariant(self);
            lemma_entry_map(self.entries@);
        }
        self.entries.len()
    }

    /// The key at a position.
    pub fn key_at(&self, i: usize) -> (r: &String)
        requires
            i < self.keys().len(),
        ensures
            r@ == self.keys()[i as int],
            self@.dom().contains(r@),
    {
        proof {
            use_type_invariant(self);
            lemma_entry_map(self.entries@);
            assert(self.entries@[i as int].0@ == self.keys()[i as int]);
        }
        &self.entries[i].0
    }

    /// The value at a position.
    pub fn value_at(&self, i: usize) -> (r: &V)
        requires
            i < self.keys().len(),
        ensures
            *r == self@[self.keys()[i as int]],
    {
        proof {
            use_type_invariant(self);
            lemma_entry_map(self.entries@);
            assert(self.entries@[i as int].0@ == self.keys()[i as int]);
        }
        &self.entries[i].1
    }

    /// The value of a key.
    pub fn get(&self, key: &str) -> (r: Option<&V>)
        ensures
            r is Some <==> self@.dom().contains(key@),
            r matches Some(value) ==> *value == self@[key@],
    {
        proof {
            use_type_invariant(self);
            lemma_entry_map(self.entries@);
        }
        let mut i: usize = 0;
        while i < self.entries.len()
            invariant
                i <= self.entries.len(),
                self@ == entry_map(self.entries@),
                forall|j: int|
                    0 <= j < self.entries@.len() ==> entry_map(self.entries@).dom().contains(
                        (#[trigger] self.entries@[j]).0@,
                    ) && entry_map(self.entries@)[self.entries@[j].0@] == self.entries@[j].1,
                forall|j: int| 0 <= j < i ==> (#[trigger] self.entries@[j]).0@ != key@,
            decreases self.entries.len() - i,
        {
            if str_equal(self.entries[i].0.as_str(), key) {
                return Some(&self.entries[i].1);
            }
            i += 1;
        }
        assert(!entry_keys(self.entries@).contains(key@));
        None
    }

    /// Sets the value of a key, and gives back the value that it had.
    pub fn insert(&mut self, key: String, value: V) -> (r: Option<V>)
        ensures
            final(self)@ == old(self)@.insert(key@, value),
            r is Some <==> old(self)@.dom().contains(key@),
            r matches Some(previous) ==> previous == old(self)@[key@],
    {
        proof {
            use_type_invariant(&*self);
            lemma_entry_map(self.entries@);
        }
        let mut entries: Vec<(String, V)> = Vec::new();
        proof {
            assert(ascending(entry_keys(entries@)));
        }
        std::mem::swap(&mut entries, &mut self.entries);
        let ghost before = entries@;
        let mut at: usize = 0;
        while at < entries.len()
            invariant
                at <= entries.len(),
                before == entries@,
                ascending(entry_keys(before)),
                ascending(entry_keys(self.entries@)),
                old(self)@ == entry_map(before),
                forall|j: int|
                    0 <= j < before.len() ==> entry_map(before).dom().contains(
                        (#[trigger] before[j]).0@,
                    ) && entry_map(before)[before[j].0@] == before[j].1,
                forall|j: int| 0 <= j < at ==> text_before(#[trigger] entry_keys(before)[j], key@),
            ensures
                at < entries.len() ==> text_before(key@, entry_keys(before)[at as int]),
            decreases entries.len() - at,
        {
            match order_str(entries[at].0.as_str(), key.as_str()) {
                TextOrder::Before => {},
                TextOrder::Same => {
                    let ghost place = at as int;
                    let mut entry = entries.remove(at);
                    let mut value = value;
                    let ghost inserted = value;
                    std::mem::swap(&mut entry.1, &mut value);
                    entries.insert(at, entry);
                    proof {
                        let after = entries@;
                        assert(after =~= before.update(place, (before[place].0, inserted)));
                        assert(entry_keys(after) =~= entry_keys(before));
                        lemma_entry_map(after);
                        let expected = entry_map(before).insert(key@, inserted);
                        assert forall|k: Seq<char>| expected.dom().contains(k) implies entry_map(
                            after,
                        )[k] == expected[k] by {
                            let i = choose|i: int|
                                0 <= i < entry_keys(before).len() && entry_keys(before)[i] == k;
                            lemma_ascending_distinct(entry_keys(before));
                            assert(entry_keys(before)[place] == key@);
                            assert(after[i].0@ == k);
                            assert(before[i].0@ == k);
                        }
                        assert(entry_map(after) =~= expected);
                    }
                    self.entries = entries;
                    return Some(value);
                },
                TextOrder::After => {
                    break;
                },
            }
            at += 1;
        }
        let ghost entry = (key, value);
        entries.insert(at, (key, value));
        proof {
            lemma_insert_entry(before, at as int, entry);
        }
        self.entries = entries;
        None
    }
}

impl<V: Clone> Clone for TextMap<V> {
    fn clone(&self) -> (r: TextMap<V>)
        ensures
            r.keys() == self.keys(),
            r@.dom() == self@.dom(),
            forall|key: Seq<char>|
                #[trigger] r@.dom().contains(key) ==> cloned::<V>(self@[key], r@[key]),
    {
        proof {
            use_type_invariant(self);
            lemma_entry_map(self.entries@);
        }
        let mut entries: Vec<(String, V)> = Vec::new();
        let mut i: usize = 0;
        while i < self.entries.len()
            invariant
                i <= self.entries.len(),
                entries.len() == i,
                forall|j: int|
                    0 <= j < i ==> (#[trigger] entries@[j]).0 == self.entries@[j].0 && cloned::<V>(
                        self.entries@[j].1,
                        entries@[j].1,
                    ),
            decreases self.entries.len() - i,
        {
            let key = self.entries[i].0.clone();
            let value = self.entries[i].1.clone();
            entries.push((key, value));
            i += 1;
        }
        proof {
            assert(entry_keys(entries@) =~= entry_keys(self.entries@));
            lemma_entry_map(entries@);
            assert forall|key: Seq<char>| entry_map(entries@).dom().contains(key) implies cloned::<
                V,
            >(entry_map(self.entries@)[key], entry_map(entries@)[key]) by {
                let j = choose|j: int|
                    0 <= j < entry_keys(entries@).len() && entry_keys(entries@)[j] == key;
                assert(entries@[j].0@ == key);
                assert(self.entries@[j].0@ == key);
            }
        }
        TextMap { entries }
    }
}

} // verus!
