//! A small map from `u32` keys to values, kept as a vector of entries.
//!
//! Entries keep the order in which they were first inserted, so walking a
//! table is deterministic.

use vstd::prelude::*;

verus! {

/// A map from `u32` to `V`. Each key occurs once.
pub struct Table<V> {
    /// The entries, oldest first.
    pub entries: Vec<(u32, V)>,
}

/// The keys of `entries`, in order.
pub open spec fn keys_of<V>(entries: Seq<(u32, V)>) -> Seq<u32> {
    entries.map_values(|entry: (u32, V)| entry.0)
}

/// The map that `entries` represents.
pub open spec fn map_of<V>(entries: Seq<(u32, V)>) -> Map<u32, V> {
    Map::new(
        |key: u32| exists|i: int| 0 <= i < entries.len() && (#[trigger] entries[i]).0 == key,
        |key: u32|
            entries[choose|i: int| 0 <= i < entries.len() && (#[trigger] entries[i]).0 == key].1,
    )
}

/// No key occurs twice in `entries`.
pub open spec fn distinct_keys<V>(entries: Seq<(u32, V)>) -> bool {
    forall|i: int, j: int|
        0 <= i < entries.len() && 0 <= j < entries.len() && (#[trigger] entries[i]).0 == (
        #[trigger] entries[j]).0 ==> i == j
}

/// Where an entry stands says what its key maps to.
pub proof fn lemma_entry<V>(entries: Seq<(u32, V)>, i: int)
    requires
        distinct_keys(entries),
        0 <= i < entries.len(),
    ensures
        map_of(entries).contains_key(entries[i].0),
        map_of(entries)[entries[i].0] == entries[i].1,
{
    let key = entries[i].0;
    let j = choose|j: int| 0 <= j < entries.len() && (#[trigger] entries[j]).0 == key;
    assert(entries[i].0 == key);
    assert(entries[j].0 == key);
}

/// A table holds as many keys as it has entries.
pub proof fn lemma_key_count<V>(entries: Seq<(u32, V)>)
    requires
        distinct_keys(entries),
    ensures
        map_of(entries).dom().finite(),
        map_of(entries).dom().len() == entries.len(),
{
    let keys = keys_of(entries);
    assert(keys.no_duplicates()) by {
        assert forall|i: int, j: int|
            0 <= i < keys.len() && 0 <= j < keys.len() && i != j implies keys[i] != keys[j] by {
            assert(entries[i].0 != entries[j].0);
        }
    }
    keys.unique_seq_to_set();
    assert(map_of(entries).dom() =~= keys.to_set()) by {
        assert forall|key: u32| map_of(entries).dom().contains(key) == keys.to_set().contains(key) by {
            if map_of(entries).dom().contains(key) {
                let i = choose|i: int| 0 <= i < entries.len() && (#[trigger] entries[i]).0 == key;
                assert(keys[i] == key);
            }
            if keys.to_set().contains(key) {
                let i = choose|i: int| 0 <= i < keys.len() && keys[i] == key;
                assert(entries[i].0 == key);
            }
        }
    }
}

impl<V> View for Table<V> {
    type V = Map<u32, V>;

    open spec fn view(&self) -> Map<u32, V> {
        map_of(self.entries@)
    }
}

impl<V> Table<V> {
    /// Each key occurs once.
    pub open spec fn wf(&self) -> bool {
        distinct_keys(self.entries@)
    }

    /// A table with no entry.
    pub fn new() -> (table: Self)
        ensures
            table.wf(),
            table.entries@ == Seq::<(u32, V)>::empty(),
            table@ == Map::<u32, V>::empty(),
    {
        let table = Table { entries: Vec::new() };
        assert(table@ =~= Map::<u32, V>::empty());
        table
    }

    /// How many keys the table holds.
    pub fn len(&self) -> (len: usize)
        ensures
            len == self.entries@.len(),
    {
        self.entries.len()
    }

    fn position(&self, key: u32) -> (found: Option<usize>)
        requires
            self.wf(),
        ensures
            match found {
                Some(i) => i < self.entries@.len() && self.entries@[i as int].0 == key
                    && self@.contains_key(key) && self@[key] == self.entries@[i as int].1,
                None => !self@.contains_key(key),
            },
    {
        let mut i: usize = 0;
        while i < self.entries.len()
            invariant
                self.wf(),
                i <= self.entries@.len(),
                forall|j: int| 0 <= j < i ==> (#[trigger] self.entries@[j]).0 != key,
            decreases self.entries@.len() - i,
        {
            if self.entries[i].0 == key {
                proof {
                    lemma_entry(self.entries@, i as int);
                }
                return Some(i);
            }
            i += 1;
        }
        None
    }

    /// Whether `key` is present.
    pub fn contains(&self, key: u32) -> (present: bool)
        requires
            self.wf(),
        ensures
            present == self@.contains_key(key),
    {
        self.position(key).is_some()
    }

    /// The value under `key`.
    pub fn get(&self, key: u32) -> (value: Option<&V>)
        requires
            self.wf(),
        ensures
            match value {
                Some(value) => self@.contains_key(key) && *value == self@[key],
                None => !self@.contains_key(key),
            },
    {
        match self.position(key) {
            Some(i) => Some(&self.entries[i].1),
            None => None,
        }
    }

    /// Store `value` under `key`, replacing what was there.
    pub fn insert(&mut self, key: u32, value: V)
        requires
            old(self).wf(),
        ensures
            final(self).wf(),
            final(self)@ == old(self)@.insert(key, value),
            old(self)@.contains_key(key) ==> exists|i: int|
                0 <= i < old(self).entries@.len() && (#[trigger] old(self).entries@[i]).0 == key
                    && final(self).entries@ == old(self).entries@.update(i, (key, value)),
            !old(self)@.contains_key(key) ==> final(self).entries@ == old(self).entries@.push(
                (key, value),
            ),
    {
        let ghost before = self.entries@;
        match self.position(key) {
            Some(i) => {
                self.entries.set(i, (key, value));
                proof {
                    let after = self.entries@;
                    assert(distinct_keys(after)) by {
                        assert forall|a: int, b: int|
                            0 <= a < after.len() && 0 <= b < after.len() && (#[trigger] after[a]).0
                                == (#[trigger] after[b]).0 implies a == b by {
                            assert(before[a].0 == after[a].0);
                            assert(before[b].0 == after[b].0);
                        }
                    }
                    assert(map_of(after) =~= map_of(before).insert(key, value)) by {
                        lemma_entry(after, i as int);
                        assert forall|k: u32|
                            map_of(after).contains_key(k) == map_of(before).insert(
                                key,
                                value,
                            ).contains_key(k) by {
                            if map_of(after).contains_key(k) {
                                let j = choose|j: int|
                                    0 <= j < after.len() && (#[trigger] after[j]).0 == k;
                                assert(before[j].0 == k);
                            }
                            if map_of(before).contains_key(k) {
                                let j = choose|j: int|
                                    0 <= j < before.len() && (#[trigger] before[j]).0 == k;
                                assert(after[j].0 == k);
                            }
                        }
                        assert forall|k: u32| map_of(after).contains_key(k) implies map_of(after)[k]
                            == map_of(before).insert(key, value)[k] by {
                            let j = choose|j: int|
                                0 <= j < after.len() && (#[trigger] after[j]).0 == k;
                            lemma_entry(after, j);
                            lemma_entry(before, j);
                        }
                    }
                }
            },
            None => {
                self.entries.push((key, value));
                proof {
                    let after = self.entries@;
                    lemma_push(before, key, value);
                    assert(after == before.push((key, value)));
                }
            },
        }
    }

    /// Take the value under `key` out.
    pub fn remove(&mut self, key: u32) -> (value: Option<V>)
        requires
            old(self).wf(),
        ensures
            final(self).wf(),
            final(self)@ == old(self)@.remove(key),
            match value {
                Some(value) => old(self)@.contains_key(key) && value == old(self)@[key] && exists|
                    i: int,
                |
                    0 <= i < old(self).entries@.len() && (#[trigger] old(self).entries@[i]).0 == key
                        && final(self).entries@ == old(self).entries@.remove(i),
                None => !old(self)@.contains_key(key) && final(self).entries@ == old(
                    self,
                ).entries@,
            },
    {
        let ghost before = self.entries@;
        match self.position(key) {
            Some(i) => {
                let entry = self.entries.remove(i);
                proof {
                    lemma_remove(before, i as int);
                    lemma_entry(before, i as int);
                }
                Some(entry.1)
            },
            None => {
                assert(map_of(before) =~= map_of(before).remove(key));
                None
            },
        }
    }

    /// Drop every entry.
    pub fn clear(&mut self)
        ensures
            final(self).wf(),
            final(self).entries@ == Seq::<(u32, V)>::empty(),
            final(self)@ == Map::<u32, V>::empty(),
    {
        self.entries.clear();
        assert(self@ =~= Map::<u32, V>::empty());
    }
}

/// Appending a fresh key inserts it.
pub proof fn lemma_push<V>(entries: Seq<(u32, V)>, key: u32, value: V)
    requires
        distinct_keys(entries),
        !map_of(entries).contains_key(key),
    ensures
        distinct_keys(entries.push((key, value))),
        map_of(entries.push((key, value))) == map_of(entries).insert(key, value),
{
    let after = entries.push((key, value));
    assert(distinct_keys(after)) by {
        assert forall|a: int, b: int|
            0 <= a < after.len() && 0 <= b < after.len() && (#[trigger] after[a]).0 == (
            #[trigger] after[b]).0 implies a == b by {
            if a < entries.len() {
                assert(entries[a].0 == after[a].0);
            }
            if b < entries.len() {
                assert(entries[b].0 == after[b].0);
            }
        }
    }
    assert forall|k: u32|
        map_of(after).contains_key(k) == map_of(entries).insert(key, value).contains_key(k) by {
        if map_of(after).contains_key(k) && k != key {
            let j = choose|j: int| 0 <= j < after.len() && (#[trigger] after[j]).0 == k;
            assert(entries[j].0 == k);
        }
        if map_of(entries).contains_key(k) {
            let j = choose|j: int| 0 <= j < entries.len() && (#[trigger] entries[j]).0 == k;
            assert(after[j].0 == k);
        }
        assert(after[entries.len() as int].0 == key);
    }
    assert forall|k: u32| map_of(after).contains_key(k) implies map_of(after)[k] == map_of(
        entries,
    ).insert(key, value)[k] by {
        let j = choose|j: int| 0 <= j < after.len() && (#[trigger] after[j]).0 == k;
        lemma_entry(after, j);
        if j < entries.len() {
            lemma_entry(entries, j);
        }
    }
    assert(map_of(after) =~= map_of(entries).insert(key, value));
}

/// Taking entry `i` out removes its key.
pub proof fn lemma_remove<V>(entries: Seq<(u32, V)>, i: int)
    requires
        distinct_keys(entries),
        0 <= i < entries.len(),
    ensures
        distinct_keys(entries.remove(i)),
        map_of(entries.remove(i)) == map_of(entries).remove(entries[i].0),
{
    let after = entries.remove(i);
    let key = entries[i].0;
    assert(distinct_keys(after)) by {
        assert forall|a: int, b: int|
            0 <= a < after.len() && 0 <= b < after.len() && (#[trigger] after[a]).0 == (
            #[trigger] after[b]).0 implies a == b by {
            let x = if a < i { a } else { a + 1 };
            let y = if b < i { b } else { b + 1 };
            assert(entries[x].0 == entries[y].0);
        }
    }
    assert forall|k: u32|
        map_of(after).contains_key(k) == map_of(entries).remove(key).contains_key(k) by {
        if map_of(after).contains_key(k) {
            let j = choose|j: int| 0 <= j < after.len() && (#[trigger] after[j]).0 == k;
            let x = if j < i { j } else { j + 1 };
            assert(entries[x].0 == k);
            assert(entries[i].0 == key);
        }
        if map_of(entries).contains_key(k) && k != key {
            let j = choose|j: int| 0 <= j < entries.len() && (#[trigger] entries[j]).0 == k;
            let x = if j < i { j } else { j - 1 };
            assert(after[x].0 == k);
        }
    }
    assert forall|k: u32| map_of(after).contains_key(k) implies map_of(after)[k] == map_of(
        entries,
    ).remove(key)[k] by {
        let j = choose|j: int| 0 <= j < after.len() && (#[trigger] after[j]).0 == k;
        lemma_entry(after, j);
        let x = if j < i { j } else { j + 1 };
        lemma_entry(entries, x);
    }
    assert(map_of(after) =~= map_of(entries).remove(key));
}

} // verus!
