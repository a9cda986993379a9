//! A map keyed by strings that remembers the order in which its keys came.

use vstd::prelude::*;
use crate::text::same_text;

verus! {

/// One key of a table with the value stored under it.
pub struct Entry<V> {
    pub key: String,
    pub value: V,
}

/// A map from strings to values, in the order in which the keys came. No
/// two entries of a table share a key.
#[derive(Debug)]
pub struct Table<V> {
    keys: Vec<String>,
    values: Vec<V>,
}

/// The entries that a list of keys and the list of their values stand for.
pub open spec fn paired<V>(keys: Seq<String>, values: Seq<V>) -> Seq<Entry<V>> {
    Seq::new(keys.len(), |i: int| Entry { key: keys[i], value: values[i] })
}

/// Whether some entry of `entries` stands under `key`.
pub open spec fn has_key<V>(entries: Seq<Entry<V>>, key: Seq<char>) -> bool {
    exists|i: int| 0 <= i < entries.len() && (#[trigger] entries[i]).key@ == key
}

/// Whether `i` is the position of the first entry under `key`.
pub open spec fn is_first<V>(entries: Seq<Entry<V>>, key: Seq<char>, i: int) -> bool {
    &&& 0 <= i < entries.len()
    &&& entries[i].key@ == key
    &&& forall|j: int| 0 <= j < i ==> (#[trigger] entries[j]).key@ != key
}

/// The position of the first entry under `key`.
pub open spec fn first_index<V>(entries: Seq<Entry<V>>, key: Seq<char>) -> int {
    choose|i: int| is_first(entries, key, i)
}

/// The map that a sequence of entries stands for.
pub open spec fn entries_map<V>(entries: Seq<Entry<V>>) -> Map<Seq<char>, V> {
    Map::new(
        |key: Seq<char>| has_key(entries, key),
        |key: Seq<char>| entries[first_index(entries, key)].value,
    )
}

/// The keys of a sequence of entries, in order.
pub open spec fn entries_keys<V>(entries: Seq<Entry<V>>) -> Seq<Seq<char>> {
    Seq::new(entries.len(), |i: int| entries[i].key@)
}

/// A first entry under a key is the one that `first_index` names.
pub proof fn lemma_first_index<V>(entries: Seq<Entry<V>>, key: Seq<char>, i: int)
    requires
        is_first(entries, key, i),
    ensures
        has_key(entries, key),
        first_index(entries, key) == i,
{
    let c = first_index(entries, key);
    assert(is_first(entries, key, c));
    if c < i {
        assert(entries[c].key@ == key);
    } else if i < c {
        assert(entries[i].key@ == key);
    }
}

/// Among the entries under a key there is a first one.
pub proof fn lemma_has_first<V>(entries: Seq<Entry<V>>, key: Seq<char>)
    requires
        has_key(entries, key),
    ensures
        is_first(entries, key, first_index(entries, key)),
{
    let w = choose|i: int| 0 <= i < entries.len() && (#[trigger] entries[i]).key@ == key;
    lemma_first_below(entries, key, w);
}

proof fn lemma_first_below<V>(entries: Seq<Entry<V>>, key: Seq<char>, w: int)
    requires
        0 <= w < entries.len(),
        entries[w].key@ == key,
    ensures
        exists|i: int| is_first(entries, key, i),
    decreases w,
{
    if forall|j: int| 0 <= j < w ==> (#[trigger] entries[j]).key@ != key {
        assert(is_first(entries, key, w));
    } else {
        let j = choose|j: int| 0 <= j < w && (#[trigger] entries[j]).key@ == key;
        lemma_first_below(entries, key, j);
    }
}

/// Whether no two of the entries share a key.
pub open spec fn distinct_keys<V>(entries: Seq<Entry<V>>) -> bool {
    forall|i: int, j: int|
        0 <= i < j < entries.len() ==> (#[trigger] entries[i]).key@ != (#[trigger] entries[j]).key@
}

impl<V> Table<V> {
    /// What holds of every table: each key has its value, and no two keys
    /// are equal.
    #[verifier::type_invariant]
    pub closed spec fn well_formed(&self) -> bool {
        self.keys.len() == self.values.len() && forall|i: int, j: int|
            0 <= i < j < self.keys.len() ==> (#[trigger] self.keys@[i])@ != (
            #[trigger] self.keys@[j])@
    }

    /// The keys of a table in their order are the keys of its map, each of
    /// them once.
    pub proof fn lemma_lists_each_key_once(&self)
        requires
            self.well_formed(),
        ensures
            self.lists_each_key_once(),
    {
        let entries = self.entries();
        assert forall|i: int, j: int| 0 <= i < j < entries.len() implies (#[trigger] entries[i]).key@
            != (#[trigger] entries[j]).key@ by {
            assert(self.keys@[i]@ != self.keys@[j]@);
        }
        lemma_keys_listed_once(entries);
    }

    /// The entries in the order in which their keys were first inserted.
    pub closed spec fn entries(&self) -> Seq<Entry<V>> {
        paired(self.keys@, self.values@)
    }

    /// The keys in the order in which they were first inserted.
    pub open spec fn key_order(&self) -> Seq<Seq<char>> {
        entries_keys(self.entries())
    }

    /// Whether the keys in their order are the keys of the map, each of
    /// them once. This holds of every table.
    pub open spec fn lists_each_key_once(&self) -> bool {
        &&& self.key_order().no_duplicates()
        &&& forall|key: Seq<char>| self.key_order().contains(key) <==> self@.contains_key(key)
    }
}

impl<V> View for Table<V> {
    type V = Map<Seq<char>, V>;

    open spec fn view(&self) -> Map<Seq<char>, V> {
        entries_map(self.entries())
    }
}

impl<V> Table<V> {
    /// A table without entries.
    pub fn new() -> (t: Self)
        ensures
            t@ == Map::<Seq<char>, V>::empty(),
            t.key_order() == Seq::<Seq<char>>::empty(),
    {
        let t = Table { keys: Vec::new(), values: Vec::new() };
        proof {
            assert(t@ =~= Map::<Seq<char>, V>::empty());
            assert(t.key_order() =~= Seq::<Seq<char>>::empty());
        }
        t
    }

    /// The number of entries.
    pub fn len(&self) -> (n: usize)
        ensures
            n == self.key_order().len(),
            n == self@.dom().len(),
            self@.dom().finite(),
            self.lists_each_key_once(),
    {
        proof {
            use_type_invariant(self);
            self.lemma_lists_each_key_once();
            let keys = self.key_order();
            keys.unique_seq_to_set();
            assert(keys.to_set() =~= self@.dom());
        }
        self.keys.len()
    }

    /// Whether the table has no entry.
    pub fn is_empty(&self) -> (b: bool)
        ensures
            b == (self.key_order().len() == 0),
            b == (self@ == Map::<Seq<char>, V>::empty()),
    {
        proof {
            if self.entries().len() == 0 {
                assert(self@ =~= Map::<Seq<char>, V>::empty());
            } else {
                assert(has_key(self.entries(), self.entries()[0].key@));
                assert(self@.contains_key(self.entries()[0].key@));
            }
        }
        self.keys.len() == 0
    }

    /// The position of the first entry under `key`, if there is one.
    pub fn position(&self, key: &str) -> (r: Option<usize>)
        ensures
            match r {
                Some(i) => is_first(self.entries(), key@, i as int),
                None => !has_key(self.entries(), key@),
            },
    {
        let mut i: usize = 0;
        while i < self.keys.len()
            invariant
                i <= self.keys.len(),
                forall|j: int| 0 <= j < i ==> (#[trigger] self.entries()[j]).key@ != key@,
            decreases self.keys.len() - i,
        {
            if same_text(self.keys[i].as_str(), key) {
                return Some(i);
            }
            i += 1;
        }
        None
    }

    /// Whether there is an entry under `key`.
    pub fn contains_key(&self, key: &str) -> (b: bool)
        ensures
            b == self@.contains_key(key@),
    {
        self.position(key).is_some()
    }

    /// The value under `key`, if there is one.
    pub fn get(&self, key: &str) -> (r: Option<&V>)
        ensures
            match r {
                Some(v) => self@.contains_key(key@) && *v == self@[key@],
                None => !self@.contains_key(key@),
            },
    {
        proof {
            use_type_invariant(self);
        }
        match self.position(key) {
            Some(i) => {
                proof {
                    lemma_first_index(self.entries(), key@, i as int);
                }
                Some(&self.values[i])
            },
            None => None,
        }
    }

    /// The keys in the order in which they were first inserted: the keys
    /// of the map, each of them once.
    pub fn keys(&self) -> (names: Vec<String>)
        ensures
            crate::text::views(names@) == self.key_order(),
            self.lists_each_key_once(),
    {
        proof {
            use_type_invariant(self);
            self.lemma_lists_each_key_once();
        }
        let mut names: Vec<String> = Vec::new();
        let mut i: usize = 0;
        while i < self.keys.len()
            invariant
                i <= self.keys.len(),
                names.len() == i,
                forall|k: int| 0 <= k < i ==> (#[trigger] names@[k])@ == self.keys@[k]@,
            decreases self.keys.len() - i,
        {
            names.push(self.keys[i].clone());
            i += 1;
        }
        proof {
            assert(crate::text::views(names@) =~= self.key_order());
        }
        names
    }

    /// The key at position `i` of the insertion order.
    pub fn key_at(&self, i: usize) -> (k: &String)
        requires
            i < self.key_order().len(),
        ensures
            k@ == self.key_order()[i as int],
    {
        &self.keys[i]
    }

    /// Stores `value` under `key`. A key that the table already has keeps
    /// its place in the order and gets the new value; the value that stood
    /// there is returned. A new key goes to the end.
    pub fn insert(&mut self, key: String, value: V) -> (previous: Option<V>)
        ensures
            final(self)@ == old(self)@.insert(key@, value),
            previous == (if old(self)@.contains_key(key@) {
                Some(old(self)@[key@])
            } else {
                None
            }),
            final(self).key_order() == (if old(self)@.contains_key(key@) {
                old(self).key_order()
            } else {
                old(self).key_order().push(key@)
            }),
    {
        proof {
            use_type_invariant(&*self);
        }
        match self.position(key.as_str()) {
            Some(i) => {
                let mut value = value;
                core::mem::swap(&mut self.values[i], &mut value);
                proof {
                    lemma_first_index(old(self).entries(), key@, i as int);
                    lemma_replace_value(old(self).entries(), self.entries(), i as int);
                    assert(self.key_order() =~= old(self).key_order());
                }
                Some(value)
            },
            None => {
                let ghost pushed = Entry { key, value };
                let mut taken = Table { keys: Vec::new(), values: Vec::new() };
                core::mem::swap(self, &mut taken);
                let Table { keys: mut keys, values: mut values } = taken;
                keys.push(key);
                values.push(value);
                proof {
                    assert(paired(keys@, values@) =~= old(self).entries().push(pushed));
                    assert forall|i: int, j: int| 0 <= i < j < keys@.len() implies (
                    #[trigger] keys@[i])@ != (#[trigger] keys@[j])@ by {
                        if j == keys@.len() - 1 {
                            assert(old(self).entries()[i].key@ != pushed.key@);
                        } else {
                            assert(old(self).keys@[i]@ != old(self).keys@[j]@);
                        }
                    }
                }
                *self = Table { keys, values };
                proof {
                    lemma_push_new_key(old(self).entries(), pushed);
                    assert(self.key_order() =~= old(self).key_order().push(key@));
                }
                None
            },
        }
    }

    /// The value under `key`, to be changed in place.
    pub fn get_mut(&mut self, key: &str) -> (r: Option<&mut V>)
        ensures
            match r {
                Some(v) => {
                    &&& old(self)@.contains_key(key@)
                    &&& *v == old(self)@[key@]
                    &&& final(self)@ == old(self)@.insert(key@, *final(v))
                    &&& final(self).key_order() == old(self).key_order()
                },
                None => !old(self)@.contains_key(key@) && *final(self) == *old(self),
            },
    {
        proof {
            use_type_invariant(&*self);
        }
        match self.position(key) {
            Some(i) => {
                proof {
                    lemma_first_index(self.entries(), key@, i as int);
                }
                let ghost before = self.entries();
                let v = &mut self.values[i];
                proof {
                    let after = before.update(
                        i as int,
                        Entry { key: before[i as int].key, value: *final(v) },
                    );
                    assert(after =~= paired(self.keys@, old(self).values@.update(i as int, *final(v))));
                    lemma_replace_value(before, after, i as int);
                    assert(entries_keys(after) =~= entries_keys(before));
                }
                Some(v)
            },
            None => None,
        }
    }
}

impl<V: Clone> Clone for Table<V> {
    /// A table with the same keys in the same order, and under each key a
    /// clone of the value that stands under it here.
    fn clone(&self) -> (copy: Self)
        ensures
            copy.key_order() == self.key_order(),
            copy@.dom() == self@.dom(),
            forall|key: Seq<char>| #[trigger]
                self@.contains_key(key) ==> cloned(self@[key], copy@[key]),
    {
        proof {
            use_type_invariant(self);
        }
        let mut keys: Vec<String> = Vec::new();
        let mut values: Vec<V> = Vec::new();
        let mut i: usize = 0;
        while i < self.keys.len()
            invariant
                self.keys.len() == self.values.len(),
                i <= self.keys.len(),
                keys.len() == i,
                values.len() == i,
                forall|k: int| 0 <= k < i ==> (#[trigger] keys@[k])@ == self.keys@[k]@,
                forall|k: int| 0 <= k < i ==> cloned(self.values@[k], #[trigger] values@[k]),
            decreases self.keys.len() - i,
        {
            keys.push(self.keys[i].clone());
            values.push(self.values[i].clone());
            i += 1;
        }
        proof {
            let copied = paired(keys@, values@);
            let mine = self.entries();
            assert forall|a: int, b: int| 0 <= a < b < keys@.len() implies (#[trigger] keys@[a])@ != (
            #[trigger] keys@[b])@ by {
                assert(self.keys@[a]@ != self.keys@[b]@);
            }
            assert(entries_keys(copied) =~= self.key_order());
            assert forall|key: Seq<char>| has_key(copied, key) <==> has_key(mine, key) by {
                if has_key(copied, key) {
                    let w = choose|w: int| 0 <= w < copied.len() && (#[trigger] copied[w]).key@ == key;
                    assert(mine[w].key@ == key);
                }
                if has_key(mine, key) {
                    let w = choose|w: int| 0 <= w < mine.len() && (#[trigger] mine[w]).key@ == key;
                    assert(copied[w].key@ == key);
                }
            }
            assert(entries_map(copied).dom() =~= entries_map(mine).dom());
            assert forall|key: Seq<char>| #[trigger] entries_map(mine).contains_key(key) implies cloned(
                entries_map(mine)[key],
                entries_map(copied)[key],
            ) by {
                lemma_has_first(mine, key);
                let at = first_index(mine, key);
                assert(is_first(copied, key, at)) by {
                    assert(copied[at].key@ == key);
                    assert forall|j: int| 0 <= j < at implies (#[trigger] copied[j]).key@ != key by {
                        assert(mine[j].key@ != key);
                    }
                }
                lemma_first_index(copied, key, at);
                assert(cloned(self.values@[at], values@[at]));
            }
        }
        Table { keys, values }
    }
}

/// The keys of entries that share no key are the keys of their map, each
/// of them once.
proof fn lemma_keys_listed_once<V>(entries: Seq<Entry<V>>)
    requires
        distinct_keys(entries),
    ensures
        entries_keys(entries).no_duplicates(),
        forall|key: Seq<char>|
            entries_keys(entries).contains(key) <==> entries_map(entries).contains_key(key),
{
    let keys = entries_keys(entries);
    assert forall|i: int, j: int| 0 <= i < keys.len() && 0 <= j < keys.len() && i != j implies keys[i]
        != keys[j] by {
        if i < j {
            assert(entries[i].key@ != entries[j].key@);
        } else {
            assert(entries[j].key@ != entries[i].key@);
        }
    }
    assert forall|key: Seq<char>| keys.contains(key) <==> entries_map(entries).contains_key(
        key,
    ) by {
        if keys.contains(key) {
            let i = choose|i: int| 0 <= i < keys.len() && keys[i] == key;
            assert(entries[i].key@ == key);
        }
        if has_key(entries, key) {
            let i = choose|i: int| 0 <= i < entries.len() && (#[trigger] entries[i]).key@ == key;
            assert(keys[i] == key);
        }
    }
}

/// Replacing the value of the first entry under a key changes the map at
/// that key alone.
proof fn lemma_replace_value<V>(before: Seq<Entry<V>>, after: Seq<Entry<V>>, i: int)
    requires
        0 <= i < before.len(),
        after.len() == before.len(),
        forall|j: int| 0 <= j < before.len() ==> (#[trigger] after[j]).key == before[j].key,
        forall|j: int| 0 <= j < before.len() && j != i ==> (#[trigger] after[j]) == before[j],
        is_first(before, before[i].key@, i),
    ensures
        entries_map(after) == entries_map(before).insert(before[i].key@, after[i].value),
{
    let key = before[i].key@;
    let goal = entries_map(before).insert(key, after[i].value);
    assert forall|k: Seq<char>| entries_map(after).contains_key(k) <==> goal.contains_key(k) by {
        if has_key(after, k) {
            let w = choose|j: int| 0 <= j < after.len() && (#[trigger] after[j]).key@ == k;
            assert(before[w].key@ == k);
        }
        if has_key(before, k) {
            let w = choose|j: int| 0 <= j < before.len() && (#[trigger] before[j]).key@ == k;
            assert(after[w].key@ == k);
        }
        if k == key {
            assert(after[i].key@ == k);
        }
    }
    assert forall|k: Seq<char>| entries_map(after).contains_key(k) implies entries_map(after)[k]
        == goal[k] by {
        lemma_has_first(after, k);
        let c = first_index(after, k);
        assert(is_first(before, k, c)) by {
            assert(before[c].key@ == k);
            assert forall|j: int| 0 <= j < c implies (#[trigger] before[j]).key@ != k by {
                assert(after[j].key@ != k);
            }
        }
        lemma_first_index(before, k, c);
        if k == key {
            lemma_first_index(before, key, i);
        }
    }
    assert(entries_map(after) =~= goal);
}

/// Appending an entry under a key that is not there yet adds it to the map.
proof fn lemma_push_new_key<V>(before: Seq<Entry<V>>, entry: Entry<V>)
    requires
        !has_key(before, entry.key@),
    ensures
        entries_map(before.push(entry)) == entries_map(before).insert(entry.key@, entry.value),
{
    let after = before.push(entry);
    let goal = entries_map(before).insert(entry.key@, entry.value);
    assert forall|k: Seq<char>| entries_map(after).contains_key(k) <==> goal.contains_key(k) by {
        if has_key(after, k) {
            let w = choose|j: int| 0 <= j < after.len() && (#[trigger] after[j]).key@ == k;
            if w < before.len() {
                assert(before[w].key@ == k);
            }
        }
        if has_key(before, k) {
            let w = choose|j: int| 0 <= j < before.len() && (#[trigger] before[j]).key@ == k;
            assert(after[w].key@ == k);
        }
        if k == entry.key@ {
            assert(after[before.len() as int].key@ == k);
        }
    }
    assert forall|k: Seq<char>| entries_map(after).contains_key(k) implies entries_map(after)[k]
        == goal[k] by {
        lemma_has_first(after, k);
        let c = first_index(after, k);
        if k == entry.key@ {
            if c < before.len() {
                assert(before[c].key@ == k);
            }
        } else {
            assert(c < before.len());
            assert(is_first(before, k, c)) by {
                assert(before[c].key@ == k);
                assert forall|j: int| 0 <= j < c implies (#[trigger] before[j]).key@ != k by {
                    assert(after[j].key@ != k);
                }
            }
            lemma_first_index(before, k, c);
        }
    }
    assert(entries_map(after) =~= goal);
}

} // verus!
