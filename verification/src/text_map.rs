//! A small map keyed by text, kept as a list of entries with distinct keys.
//!
//! The registry's three tables and the configuration maps handed to the
//! resolver are all instances of it. Its view is a `Map` from the key's
//! characters to the stored value.

use vstd::prelude::*;
use crate::text::same_text;

verus! {

/// One key with its value.
pub struct Entry<V> {
    pub key: String,
    pub value: V,
}

/// The map that a list of entries stands for; of two entries with one key the
/// later one counts.
pub open spec fn map_of<V>(entries: Seq<Entry<V>>) -> Map<Seq<char>, V>
    decreases entries.len(),
{
    if entries.len() == 0 {
        Map::empty()
    } else {
        map_of(entries.drop_last()).insert(entries.last().key@, entries.last().value)
    }
}

/// The keys of a list of entries, in the list's order.
pub open spec fn keys_of<V>(entries: Seq<Entry<V>>) -> Seq<Seq<char>> {
    Seq::new(entries.len(), |i: int| entries[i].key@)
}

/// No two entries share a key.
pub open spec fn distinct_keys<V>(entries: Seq<Entry<V>>) -> bool {
    forall|i: int, j: int|
        0 <= i < entries.len() && 0 <= j < entries.len() && i != j ==> (#[trigger] entries[i]).key@
            != (#[trigger] entries[j]).key@
}

/// A key is in the map exactly when some entry carries it.
pub proof fn lemma_map_of_dom<V>(entries: Seq<Entry<V>>, key: Seq<char>)
    ensures
        map_of(entries).contains_key(key) <==> exists|i: int|
            0 <= i < entries.len() && (#[trigger] entries[i]).key@ == key,
    decreases entries.len(),
{
    if entries.len() > 0 {
        let front = entries.drop_last();
        lemma_map_of_dom(front, key);
        if map_of(entries).contains_key(key) {
            if entries.last().key@ == key {
                assert(entries[entries.len() - 1].key@ == key);
            } else {
                let i = choose|i: int| 0 <= i < front.len() && (#[trigger] front[i]).key@ == key;
                assert(entries[i].key@ == key);
            }
        }
        if exists|i: int| 0 <= i < entries.len() && (#[trigger] entries[i]).key@ == key {
            let i = choose|i: int| 0 <= i < entries.len() && (#[trigger] entries[i]).key@ == key;
            if i < front.len() {
                assert(front[i].key@ == key);
            }
        }
    }
}

/// With distinct keys, the map gives each entry's key that entry's value.
pub proof fn lemma_map_of_entry<V>(entries: Seq<Entry<V>>, i: int)
    requires
        distinct_keys(entries),
        0 <= i < entries.len(),
    ensures
        map_of(entries).contains_key(entries[i].key@),
        map_of(entries)[entries[i].key@] == entries[i].value,
    decreases entries.len(),
{
    let front = entries.drop_last();
    if i < entries.len() - 1 {
        assert(entries[i].key@ != entries[entries.len() - 1].key@);
        assert(front[i] == entries[i]);
        assert(distinct_keys(front)) by {
            assert forall|a: int, b: int|
                0 <= a < front.len() && 0 <= b < front.len() && a != b implies (#[trigger] front[a]).key@
                != (#[trigger] front[b]).key@ by {
                assert(front[a] == entries[a]);
                assert(front[b] == entries[b]);
            }
        }
        lemma_map_of_entry(front, i);
    }
}

/// With distinct keys, taking an entry out of the list takes its key out of
/// the map.
pub proof fn lemma_map_of_remove<V>(entries: Seq<Entry<V>>, i: int)
    requires
        distinct_keys(entries),
        0 <= i < entries.len(),
    ensures
        distinct_keys(entries.remove(i)),
        map_of(entries.remove(i)) == map_of(entries).remove(entries[i].key@),
{
    let rest = entries.remove(i);
    let key = entries[i].key@;
    assert forall|a: int, b: int|
        0 <= a < rest.len() && 0 <= b < rest.len() && a != b implies (#[trigger] rest[a]).key@ != (
    #[trigger] rest[b]).key@ by {
        let a0 = if a < i { a } else { a + 1 };
        let b0 = if b < i { b } else { b + 1 };
        assert(rest[a] == entries[a0]);
        assert(rest[b] == entries[b0]);
    }
    assert forall|k: Seq<char>| #[trigger]
        map_of(rest).contains_key(k) <==> map_of(entries).remove(key).contains_key(k) by {
        lemma_map_of_dom(rest, k);
        lemma_map_of_dom(entries, k);
        if map_of(rest).contains_key(k) {
            let a = choose|a: int| 0 <= a < rest.len() && (#[trigger] rest[a]).key@ == k;
            let a0 = if a < i { a } else { a + 1 };
            assert(rest[a] == entries[a0]);
            assert(entries[a0].key@ == k);
        }
        if map_of(entries).remove(key).contains_key(k) {
            let a0 = choose|a: int| 0 <= a < entries.len() && (#[trigger] entries[a]).key@ == k;
            let a = if a0 < i { a0 } else { a0 - 1 };
            assert(rest[a] == entries[a0]);
            assert(rest[a].key@ == k);
        }
    }
    assert forall|k: Seq<char>| map_of(rest).contains_key(k) implies #[trigger] map_of(rest)[k]
        == map_of(entries).remove(key)[k] by {
        lemma_map_of_dom(rest, k);
        let a = choose|a: int| 0 <= a < rest.len() && (#[trigger] rest[a]).key@ == k;
        let a0 = if a < i { a } else { a + 1 };
        assert(rest[a] == entries[a0]);
        lemma_map_of_entry(rest, a);
        lemma_map_of_entry(entries, a0);
    }
    assert(map_of(rest) =~= map_of(entries).remove(key));
}

/// With distinct keys, putting a new value in an entry's place puts it under
/// that key in the map.
pub proof fn lemma_map_of_update<V>(entries: Seq<Entry<V>>, i: int, entry: Entry<V>)
    requires
        distinct_keys(entries),
        0 <= i < entries.len(),
        entry.key@ == entries[i].key@,
    ensures
        distinct_keys(entries.update(i, entry)),
        map_of(entries.update(i, entry)) == map_of(entries).insert(entry.key@, entry.value),
        keys_of(entries.update(i, entry)) == keys_of(entries),
{
    let next = entries.update(i, entry);
    let key = entry.key@;
    assert forall|a: int, b: int|
        0 <= a < next.len() && 0 <= b < next.len() && a != b implies (#[trigger] next[a]).key@ != (
    #[trigger] next[b]).key@ by {
        assert(next[a].key@ == entries[a].key@);
        assert(next[b].key@ == entries[b].key@);
    }
    assert forall|k: Seq<char>| #[trigger]
        map_of(next).contains_key(k) <==> map_of(entries).insert(key, entry.value).contains_key(
            k,
        ) by {
        lemma_map_of_dom(next, k);
        lemma_map_of_dom(entries, k);
        if map_of(next).contains_key(k) {
            let a = choose|a: int| 0 <= a < next.len() && (#[trigger] next[a]).key@ == k;
            assert(entries[a].key@ == k);
        }
        if map_of(entries).insert(key, entry.value).contains_key(k) {
            if k == key {
                assert(next[i].key@ == k);
            } else {
                let a = choose|a: int| 0 <= a < entries.len() && (#[trigger] entries[a]).key@ == k;
                assert(next[a].key@ == k);
            }
        }
    }
    assert forall|k: Seq<char>| map_of(next).contains_key(k) implies #[trigger] map_of(next)[k]
        == map_of(entries).insert(key, entry.value)[k] by {
        lemma_map_of_dom(next, k);
        let a = choose|a: int| 0 <= a < next.len() && (#[trigger] next[a]).key@ == k;
        lemma_map_of_entry(next, a);
        if a != i {
            assert(next[a] == entries[a]);
            lemma_map_of_entry(entries, a);
        }
    }
    assert(map_of(next) =~= map_of(entries).insert(key, entry.value));
    assert(keys_of(next) =~= keys_of(entries));
}

/// The keys of a list with distinct keys hold no key twice, and are the
/// domain of the list's map.
pub proof fn lemma_keys_of<V>(entries: Seq<Entry<V>>)
    requires
        distinct_keys(entries),
    ensures
        keys_of(entries).no_duplicates(),
        forall|k: Seq<char>| #[trigger]
            map_of(entries).contains_key(k) <==> keys_of(entries).contains(k),
{
    let keys = keys_of(entries);
    assert forall|i: int, j: int| 0 <= i < keys.len() && 0 <= j < keys.len() && i != j implies keys[i]
        != keys[j] by {
        assert(entries[i].key@ != entries[j].key@);
    }
    assert forall|k: Seq<char>| #[trigger]
        map_of(entries).contains_key(k) <==> keys.contains(k) by {
        lemma_map_of_dom(entries, k);
        if map_of(entries).contains_key(k) {
            let i = choose|i: int| 0 <= i < entries.len() && (#[trigger] entries[i]).key@ == k;
            assert(keys[i] == k);
        }
        if keys.contains(k) {
            let i = choose|i: int| 0 <= i < keys.len() && keys[i] == k;
            assert(entries[i].key@ == k);
        }
    }
}

/// A map from text keys to values of `V`.
pub struct TextMap<V> {
    entries: Vec<Entry<V>>,
}

impl<V> View for TextMap<V> {
    type V = Map<Seq<char>, V>;

    closed spec fn view(&self) -> Map<Seq<char>, V> {
        map_of(self.entries@)
    }
}

impl<V> TextMap<V> {
    #[verifier::type_invariant]
    spec fn distinct(&self) -> bool {
        distinct_keys(self.entries@)
    }

    /// The keys that the map holds, each once, in the order in which they
    /// were first inserted.
    pub closed spec fn keys(&self) -> Seq<Seq<char>> {
        keys_of(self.entries@)
    }

    /// A map that holds nothing.
    pub fn new() -> (m: Self)
        ensures
            m@ == Map::<Seq<char>, V>::empty(),
            m.keys() == Seq::<Seq<char>>::empty(),
    {
        let m = TextMap { entries: Vec::new() };
        assert(m.keys() =~= Seq::<Seq<char>>::empty());
        m
    }

    /// How many keys the map holds. `keys()` lists each key of the map once.
    pub fn len(&self) -> (n: usize)
        ensures
            n == self.keys().len(),
            self.keys().no_duplicates(),
            forall|k: Seq<char>| #[trigger] self@.contains_key(k) <==> self.keys().contains(k),
    {
        proof {
            use_type_invariant(self);
            lemma_keys_of(self.entries@);
        }
        self.entries.len()
    }

    /// The key at position `i` of `keys()`.
    pub fn key_at(&self, i: usize) -> (key: &String)
        requires
            i < self.keys().len(),
        ensures
            key@ == self.keys()[i as int],
            self@.contains_key(key@),
    {
        proof {
            use_type_invariant(self);
            lemma_map_of_entry(self.entries@, i as int);
        }
        &self.entries[i].key
    }

    /// The value stored under the key at position `i` of `keys()`.
    pub fn value_at(&self, i: usize) -> (value: &V)
        requires
            i < self.keys().len(),
        ensures
            self@.contains_key(self.keys()[i as int]),
            *value == self@[self.keys()[i as int]],
    {
        proof {
            use_type_invariant(self);
            lemma_map_of_entry(self.entries@, i as int);
        }
        &self.entries[i].value
    }

    /// Where `key` stands in the list, if it is there.
    fn position(&self, key: &str) -> (at: Option<usize>)
        ensures
            match at {
                Some(i) => i < self.entries@.len() && self.entries@[i as int].key@ == key@,
                None => forall|j: int|
                    0 <= j < self.entries@.len() ==> (#[trigger] self.entries@[j]).key@ != key@,
            },
    {
        let mut i: usize = 0;
        while i < self.entries.len()
            invariant
                i <= self.entries@.len(),
                forall|j: int| 0 <= j < i ==> (#[trigger] self.entries@[j]).key@ != key@,
            decreases self.entries@.len() - i,
        {
            if same_text(self.entries[i].key.as_str(), key) {
                return Some(i);
            }
            i = i + 1;
        }
        None
    }

    /// Whether the map holds `key`.
    pub fn contains_key(&self, key: &str) -> (found: bool)
        ensures
            found == self@.contains_key(key@),
    {
        let at = self.position(key);
        proof {
            lemma_map_of_dom(self.entries@, key@);
        }
        at.is_some()
    }

    /// The value stored under `key`, if any.
    pub fn get(&self, key: &str) -> (value: Option<&V>)
        ensures
            match value {
                Some(v) => self@.contains_key(key@) && *v == self@[key@],
                None => !self@.contains_key(key@),
            },
    {
        let at = self.position(key);
        proof {
            use_type_invariant(self);
            lemma_map_of_dom(self.entries@, key@);
        }
        match at {
            Some(i) => {
                proof {
                    lemma_map_of_entry(self.entries@, i as int);
                }
                Some(&self.entries[i].value)
            },
            None => None,
        }
    }

    /// Stores `value` under `key`, in place of what was stored there.
    pub fn insert(&mut self, key: String, value: V)
        ensures
            final(self)@ == old(self)@.insert(key@, value),
            old(self)@.contains_key(key@) ==> final(self).keys() == old(self).keys(),
            !old(self)@.contains_key(key@) ==> final(self).keys() == old(self).keys().push(key@),
    {
        let at = self.position(key.as_str());
        proof {
            use_type_invariant(&*self);
            lemma_map_of_dom(self.entries@, key@);
        }
        let ghost before = self.entries@;
        let entry = Entry { key, value };
        let mut entries: Vec<Entry<V>> = Vec::new();
        core::mem::swap(&mut self.entries, &mut entries);
        match at {
            Some(i) => {
                proof {
                    lemma_map_of_update(before, i as int, entry);
                }
                entries.set(i, entry);
            },
            None => {
                entries.push(entry);
                proof {
                    let after = entries@;
                    assert(after.drop_last() =~= before);
                    assert(keys_of(after) =~= keys_of(before).push(entry.key@));
                    assert forall|a: int, b: int|
                        0 <= a < after.len() && 0 <= b < after.len() && a != b implies (
                    #[trigger] after[a]).key@ != (#[trigger] after[b]).key@ by {
                        if a < before.len() {
                            assert(after[a] == before[a]);
                        }
                        if b < before.len() {
                            assert(after[b] == before[b]);
                        }
                    }
                }
            },
        }
        core::mem::swap(&mut self.entries, &mut entries);
    }

    /// Takes `key` and its value out of the map, and returns the value.
    pub fn remove(&mut self, key: &str) -> (value: Option<V>)
        ensures
            final(self)@ == old(self)@.remove(key@),
            match value {
                Some(v) => old(self)@.contains_key(key@) && v == old(self)@[key@],
                None => !old(self)@.contains_key(key@),
            },
    {
        let at = self.position(key);
        proof {
            use_type_invariant(&*self);
            lemma_map_of_dom(self.entries@, key@);
        }
        match at {
            Some(i) => {
                let (_, value) = self.remove_at(i);
                Some(value)
            },
            None => {
                assert(self@.remove(key@) =~= self@);
                None
            },
        }
    }

    /// Takes out the entry at position `i` of `keys()`, and returns its key
    /// and value.
    pub fn remove_at(&mut self, i: usize) -> (entry: (String, V))
        requires
            i < old(self).keys().len(),
        ensures
            entry.0@ == old(self).keys()[i as int],
            old(self)@.contains_key(entry.0@),
            entry.1 == old(self)@[entry.0@],
            final(self)@ == old(self)@.remove(entry.0@),
            final(self).keys() == old(self).keys().remove(i as int),
    {
        proof {
            use_type_invariant(&*self);
            lemma_map_of_remove(self.entries@, i as int);
            lemma_map_of_entry(self.entries@, i as int);
        }
        let ghost before = self.entries@;
        let mut entries: Vec<Entry<V>> = Vec::new();
        core::mem::swap(&mut self.entries, &mut entries);
        let entry = entries.remove(i);
        assert(keys_of(entries@) =~= keys_of(before).remove(i as int));
        core::mem::swap(&mut self.entries, &mut entries);
        (entry.key, entry.value)
    }

    /// Empties the map.
    pub fn clear(&mut self)
        ensures
            final(self)@ == Map::<Seq<char>, V>::empty(),
            final(self).keys() == Seq::<Seq<char>>::empty(),
    {
        let mut entries: Vec<Entry<V>> = Vec::new();
        core::mem::swap(&mut self.entries, &mut entries);
        assert(self.keys() =~= Seq::<Seq<char>>::empty());
    }
}

} // verus!
