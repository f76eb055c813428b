//! A small store of values keyed by `network_id`, each key held once.

use vstd::prelude::*;

verus! {

/// One entry of a registry.
pub struct Entry<T> {
    pub key: u64,
    pub value: T,
}

/// Values by key, in the order in which the keys were added.
pub struct Registry<T> {
    entries: Vec<Entry<T>>,
}

/// Some entry has this key.
pub open spec fn holds<T>(entries: Seq<Entry<T>>, key: u64) -> bool {
    exists|i: int| 0 <= i < entries.len() && #[trigger] entries[i].key == key
}

/// The place of the entry with this key.
pub open spec fn slot<T>(entries: Seq<Entry<T>>, key: u64) -> int {
    choose|i: int| 0 <= i < entries.len() && #[trigger] entries[i].key == key
}

/// No key occurs twice.
pub open spec fn distinct<T>(entries: Seq<Entry<T>>) -> bool {
    forall|i: int, j: int|
        0 <= i < j < entries.len() ==> #[trigger] entries[i].key != #[trigger] entries[j].key
}

/// The entries as a map.
pub open spec fn mapping<T>(entries: Seq<Entry<T>>) -> Map<u64, T> {
    Map::new(|key: u64| holds(entries, key), |key: u64| entries[slot(entries, key)].value)
}

/// Without duplicates, the map holds each entry under its key.
pub proof fn lemma_mapping_at<T>(entries: Seq<Entry<T>>, i: int)
    requires
        distinct(entries),
        0 <= i < entries.len(),
    ensures
        holds(entries, entries[i].key),
        slot(entries, entries[i].key) == i,
        mapping(entries).contains_key(entries[i].key),
        mapping(entries)[entries[i].key] == entries[i].value,
{
}

/// A key of the map is the key of the entry at its slot.
pub proof fn lemma_mapping_key<T>(entries: Seq<Entry<T>>, key: u64)
    requires
        mapping(entries).contains_key(key),
    ensures
        0 <= slot(entries, key) < entries.len(),
        entries[slot(entries, key)].key == key,
        mapping(entries)[key] == entries[slot(entries, key)].value,
{
}

/// Adding an entry with a new key adds it to the map.
pub proof fn lemma_mapping_push<T>(entries: Seq<Entry<T>>, entry: Entry<T>)
    requires
        distinct(entries),
        !holds(entries, entry.key),
    ensures
        distinct(entries.push(entry)),
        mapping(entries.push(entry)) == mapping(entries).insert(entry.key, entry.value),
{
    let grown = entries.push(entry);
    let target = mapping(entries).insert(entry.key, entry.value);
    assert forall|key: u64| mapping(grown).contains_key(key) == target.contains_key(key) by {
        if holds(entries, key) {
            let i = slot(entries, key);
            assert(grown[i].key == key);
        }
        if key == entry.key {
            assert(grown[entries.len() as int].key == key);
        }
    }
}

/// Taking an entry out takes its key out of the map.
pub proof fn lemma_mapping_remove<T>(entries: Seq<Entry<T>>, i: int)
    requires
        distinct(entries),
        0 <= i < entries.len(),
    ensures
        distinct(entries.remove(i)),
        mapping(entries.remove(i)) == mapping(entries).remove(entries[i].key),
{
    let rest = entries.remove(i);
    let gone = entries[i].key;
    let target = mapping(entries).remove(gone);
    assert forall|key: u64| mapping(rest).contains_key(key) == target.contains_key(key) by {
        if holds(entries, key) && key != gone {
            let k0 = slot(entries, key);
            let k = if k0 < i { k0 } else { k0 - 1 };
            assert(rest[k] == entries[k0]);
        }
    }
}

/// Two sequences with the same keys in the same places hold the same keys,
/// each at the same slot.
pub proof fn lemma_mapping_same_keys<T>(before: Seq<Entry<T>>, after: Seq<Entry<T>>)
    requires
        distinct(before),
        before.len() == after.len(),
        forall|k: int| 0 <= k < before.len() ==> (#[trigger] after[k]).key == before[k].key,
    ensures
        distinct(after),
        mapping(after).dom() == mapping(before).dom(),
        forall|key: u64| #[trigger]
            mapping(before).contains_key(key) ==> slot(after, key) == slot(before, key),
{
    assert forall|key: u64| holds(after, key) == holds(before, key) by {
        if holds(before, key) {
            let k = slot(before, key);
            assert(after[k].key == before[k].key);
        }
    }
}

/// The map has as many keys as there are entries.
pub proof fn lemma_mapping_len<T>(entries: Seq<Entry<T>>)
    requires
        distinct(entries),
    ensures
        mapping(entries).dom().finite(),
        mapping(entries).dom().len() == entries.len(),
    decreases entries.len(),
{
    if entries.len() == 0 {
        assert(mapping(entries).dom() =~= Set::<u64>::empty());
    } else {
        let last = entries.len() - 1;
        let rest = entries.remove(last);
        lemma_mapping_remove(entries, last);
        lemma_mapping_len(rest);
        lemma_mapping_at(entries, last);
    }
}

impl<T> View for Registry<T> {
    type V = Map<u64, T>;

    open spec fn view(&self) -> Map<u64, T> {
        mapping(self.entries())
    }
}

impl<T> Registry<T> {
    /// The entries in order.
    pub closed spec fn entries(&self) -> Seq<Entry<T>> {
        self.entries@
    }

    /// No key occurs twice.
    pub open spec fn wf(&self) -> bool {
        distinct(self.entries())
    }

    pub fn new() -> (registry: Registry<T>)
        ensures
            registry.wf(),
            registry.entries() == Seq::<Entry<T>>::empty(),
            registry@ == Map::<u64, T>::empty(),
    {
        let registry = Registry { entries: Vec::new() };
        registry
    }

    pub fn len(&self) -> (count: usize)
        ensures
            count == self.entries().len(),
    {
        self.entries.len()
    }

    /// The entry at a place.
    pub fn get(&self, i: usize) -> (entry: &Entry<T>)
        requires
            i < self.entries().len(),
        ensures
            *entry == self.entries()[i as int],
    {
        &self.entries[i]
    }

    /// The place of a key, if the registry holds it.
    pub fn find(&self, key: u64) -> (found: Option<usize>)
        requires
            self.wf(),
        ensures
            match found {
                Some(i) => i < self.entries().len() && self.entries()[i as int].key == key
                    && self@.contains_key(key) && self@[key] == self.entries()[i as int].value,
                None => !self@.contains_key(key),
            },
    {
        let mut i: usize = 0;
        while i < self.entries.len()
            invariant
                self.wf(),
                i <= self.entries.len(),
                forall|k: int| 0 <= k < i ==> self.entries[k].key != key,
            decreases self.entries.len() - i,
        {
            if self.entries[i].key == key {
                proof {
                    lemma_mapping_at(self.entries(), i as int);
                }
                return Some(i);
            }
            i += 1;
        }
        None
    }

    /// Adds a value under a key that the registry does not hold.
    pub fn push(&mut self, key: u64, value: T)
        requires
            old(self).wf(),
            !old(self)@.contains_key(key),
        ensures
            final(self).wf(),
            final(self).entries() == old(self).entries().push(Entry { key, value }),
            final(self)@ == old(self)@.insert(key, value),
    {
        proof {
            lemma_mapping_push(self.entries(), Entry { key, value });
        }
        self.entries.push(Entry { key, value });
    }

    /// Takes out the entry at a place.
    pub fn remove(&mut self, i: usize)
        requires
            old(self).wf(),
            i < old(self).entries().len(),
        ensures
            final(self).wf(),
            final(self).entries() == old(self).entries().remove(i as int),
            final(self)@ == old(self)@.remove(old(self).entries()[i as int].key),
    {
        proof {
            lemma_mapping_remove(self.entries(), i as int);
        }
        self.entries.remove(i);
    }

    /// Replaces the value at a place.
    pub fn set(&mut self, i: usize, value: T)
        requires
            old(self).wf(),
            i < old(self).entries().len(),
        ensures
            final(self).wf(),
            final(self).entries() == old(self).entries().update(
                i as int,
                Entry { key: old(self).entries()[i as int].key, value },
            ),
            final(self)@ == old(self)@.insert(old(self).entries()[i as int].key, value),
    {
        let key = self.entries[i].key;
        let ghost before = self.entries();
        self.entries.set(i, Entry { key, value });
        proof {
            let after = self.entries();
            lemma_mapping_same_keys(before, after);
            let target = mapping(before).insert(key, value);
            lemma_mapping_at(before, i as int);
        }
    }
}

} // verus!
