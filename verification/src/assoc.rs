//! Association lists over keys that are compared by their views.

use vstd::prelude::*;

verus! {

/// A key: two keys are the same where their views are.
pub trait Keyed: View + Sized {
    /// Whether two keys are the same.
    fn same_key(&self, other: &Self) -> (same: bool)
        ensures
            same == (self@ == other@),
    ;
}

/// A map from keys to values, kept as a list without repeated keys.
#[derive(Debug)]
pub struct Assoc<K, V> {
    entries: Vec<(K, V)>,
}

spec fn holds<K: Keyed, V>(entries: Seq<(K, V)>, key: K::V) -> bool {
    exists|i: int| 0 <= i < entries.len() && (#[trigger] entries[i]).0@ == key
}

spec fn place<K: Keyed, V>(entries: Seq<(K, V)>, key: K::V) -> int {
    choose|i: int| 0 <= i < entries.len() && (#[trigger] entries[i]).0@ == key
}

spec fn no_repeats<K: Keyed, V>(entries: Seq<(K, V)>) -> bool {
    forall|i: int, j: int|
        0 <= i < entries.len() && 0 <= j < entries.len() && (#[trigger] entries[i]).0@ == (
        #[trigger] entries[j]).0@ ==> i == j
}

spec fn pairs_of<K: Keyed, V>(entries: Seq<(K, V)>) -> Map<K::V, V> {
    Map::new(|key: K::V| holds(entries, key), |key: K::V| entries[place(entries, key)].1)
}

impl<K: Keyed, V> View for Assoc<K, V> {
    type V = Map<K::V, V>;

    closed spec fn view(&self) -> Map<K::V, V> {
        pairs_of(self.entries@)
    }
}

proof fn lemma_pair<K: Keyed, V>(entries: Seq<(K, V)>, i: int)
    requires
        no_repeats(entries),
        0 <= i < entries.len(),
    ensures
        pairs_of(entries).contains_key(entries[i].0@),
        pairs_of(entries)[entries[i].0@] == entries[i].1,
{
    assert(holds(entries, entries[i].0@));
    let j = place(entries, entries[i].0@);
    assert(entries[j].0@ == entries[i].0@);
}

proof fn lemma_push<K: Keyed, V>(entries: Seq<(K, V)>, key: K, value: V)
    requires
        no_repeats(entries),
        !pairs_of(entries).contains_key(key@),
    ensures
        no_repeats(entries.push((key, value))),
        pairs_of(entries.push((key, value))) == pairs_of(entries).insert(key@, value),
        pairs_of(entries).dom().finite() ==> pairs_of(entries.push((key, value))).len() == pairs_of(
            entries,
        ).len() + 1,
{
    let after = entries.push((key, value));
    let last = entries.len() as int;
    assert(!holds(entries, key@));
    assert(no_repeats(after)) by {
        assert forall|i: int, j: int|
            0 <= i < after.len() && 0 <= j < after.len() && (#[trigger] after[i]).0@ == (
            #[trigger] after[j]).0@ implies i == j by {
            if i < last {
                assert(after[i] == entries[i]);
            }
            if j < last {
                assert(after[j] == entries[j]);
            }
        }
    }
    let goal = pairs_of(entries).insert(key@, value);
    assert forall|k: K::V| pairs_of(after).contains_key(k) == goal.contains_key(k) by {
        if holds(after, k) {
            let i = place(after, k);
            assert(i < last ==> entries[i] == after[i]);
        }
        if holds(entries, k) {
            let i = place(entries, k);
            assert(after[i] == entries[i]);
        }
        assert(after[last] == (key, value));
    }
    assert forall|k: K::V| pairs_of(after).contains_key(k) implies pairs_of(after)[k] == goal[k] by {
        let i = place(after, k);
        assert(holds(after, k));
        lemma_pair(after, i);
        if i < last {
            assert(entries[i] == after[i]);
            lemma_pair(entries, i);
        }
    }
    assert(pairs_of(after) =~= goal);
}

proof fn lemma_set<K: Keyed, V>(entries: Seq<(K, V)>, i: int, key: K, value: V)
    requires
        no_repeats(entries),
        0 <= i < entries.len(),
        entries[i].0@ == key@,
    ensures
        no_repeats(entries.update(i, (key, value))),
        pairs_of(entries.update(i, (key, value))) == pairs_of(entries).insert(key@, value),
{
    let after = entries.update(i, (key, value));
    assert forall|k: int| 0 <= k < after.len() implies (#[trigger] after[k]).0@ == entries[k].0@ by {
    }
    assert(no_repeats(after)) by {
        assert forall|a: int, b: int|
            0 <= a < after.len() && 0 <= b < after.len() && (#[trigger] after[a]).0@ == (
            #[trigger] after[b]).0@ implies a == b by {
            assert(entries[a].0@ == entries[b].0@);
        }
    }
    let goal = pairs_of(entries).insert(key@, value);
    assert forall|k: K::V| pairs_of(after).contains_key(k) == goal.contains_key(k) by {
        if holds(after, k) {
            assert(entries[place(after, k)].0@ == k);
        }
        if holds(entries, k) {
            assert(after[place(entries, k)].0@ == k);
        }
        assert(after[i].0@ == key@);
    }
    assert forall|k: K::V| pairs_of(after).contains_key(k) implies pairs_of(after)[k] == goal[k] by {
        assert(holds(after, k));
        let j = place(after, k);
        lemma_pair(after, j);
        lemma_pair(entries, j);
    }
    assert(pairs_of(after) =~= goal);
}

proof fn lemma_remove<K: Keyed, V>(entries: Seq<(K, V)>, i: int)
    requires
        no_repeats(entries),
        0 <= i < entries.len(),
    ensures
        no_repeats(entries.remove(i)),
        pairs_of(entries.remove(i)) == pairs_of(entries).remove(entries[i].0@),
{
    let after = entries.remove(i);
    assert forall|k: int| 0 <= k < after.len() implies #[trigger] after[k] == entries[if k < i {
        k
    } else {
        k + 1
    }] by {}
    assert(no_repeats(after)) by {
        assert forall|a: int, b: int|
            0 <= a < after.len() && 0 <= b < after.len() && (#[trigger] after[a]).0@ == (
            #[trigger] after[b]).0@ implies a == b by {
            let x = if a < i {
                a
            } else {
                a + 1
            };
            let y = if b < i {
                b
            } else {
                b + 1
            };
            assert(entries[x].0@ == entries[y].0@);
        }
    }
    let goal = pairs_of(entries).remove(entries[i].0@);
    assert forall|k: K::V| pairs_of(after).contains_key(k) == goal.contains_key(k) by {
        if holds(after, k) {
            let j = place(after, k);
            let x = if j < i {
                j
            } else {
                j + 1
            };
            assert(entries[x].0@ == k);
            assert(entries[i].0@ == entries[i].0@);
        }
        if holds(entries, k) && k != entries[i].0@ {
            let j = place(entries, k);
            let x = if j < i {
                j
            } else {
                j - 1
            };
            assert(after[x] == entries[j]);
        }
    }
    assert forall|k: K::V| pairs_of(after).contains_key(k) implies pairs_of(after)[k] == goal[k] by {
        assert(holds(after, k));
        let j = place(after, k);
        lemma_pair(after, j);
        let x = if j < i {
            j
        } else {
            j + 1
        };
        assert(entries[x] == after[j]);
        lemma_pair(entries, x);
    }
    assert(pairs_of(after) =~= goal);
}

proof fn lemma_size<K: Keyed, V>(entries: Seq<(K, V)>)
    requires
        no_repeats(entries),
    ensures
        pairs_of(entries).dom().finite(),
        pairs_of(entries).len() == entries.len(),
    decreases entries.len(),
{
    if entries.len() == 0 {
        assert(pairs_of(entries) =~= Map::<K::V, V>::empty());
    } else {
        let init = entries.drop_last();
        let last = entries.last();
        assert forall|i: int| 0 <= i < init.len() implies #[trigger] init[i] == entries[i] by {}
        assert(no_repeats(init));
        lemma_size(init);
        assert(!holds(init, last.0@)) by {
            if holds(init, last.0@) {
                let j = place(init, last.0@);
                assert(entries[j].0@ == entries[entries.len() - 1].0@);
            }
        }
        assert(init.push(last) =~= entries);
        lemma_push(init, last.0, last.1);
    }
}

impl<K: Keyed, V> Assoc<K, V> {
    /// No key occurs twice.
    pub closed spec fn wf(&self) -> bool {
        no_repeats(self.entries@)
    }

    /// An empty map.
    pub fn new() -> (map: Self)
        ensures
            map.wf(),
            map@ == Map::<K::V, V>::empty(),
    {
        let map = Assoc { entries: Vec::new() };
        assert(map@ =~= Map::<K::V, V>::empty());
        map
    }

    /// The number of keys.
    pub fn len(&self) -> (len: usize)
        requires
            self.wf(),
        ensures
            self@.dom().finite(),
            len == self@.len(),
    {
        proof {
            lemma_size(self.entries@);
        }
        self.entries.len()
    }

    fn position(&self, key: &K) -> (found: Option<usize>)
        requires
            self.wf(),
        ensures
            match found {
                Some(i) => i < self.entries@.len() && self.entries@[i as int].0@ == key@
                    && self@.contains_key(key@) && self@[key@] == self.entries@[i as int].1,
                None => !self@.contains_key(key@),
            },
    {
        let mut i: usize = 0;
        while i < self.entries.len()
            invariant
                self.wf(),
                i <= self.entries@.len(),
                forall|j: int| 0 <= j < i ==> (#[trigger] self.entries@[j]).0@ != key@,
            decreases self.entries@.len() - i,
        {
            if self.entries[i].0.same_key(key) {
                proof {
                    lemma_pair(self.entries@, i as int);
                }
                return Some(i);
            }
            i += 1;
        }
        None
    }

    /// The value under `key`.
    pub fn get(&self, key: &K) -> (value: Option<&V>)
        requires
            self.wf(),
        ensures
            match value {
                Some(value) => self@.contains_key(key@) && *value == self@[key@],
                None => !self@.contains_key(key@),
            },
    {
        match self.position(key) {
            Some(i) => Some(&self.entries[i].1),
            None => None,
        }
    }

    /// Put `value` under `key`, in place of what was there.
    pub fn insert(&mut self, key: K, value: V)
        requires
            old(self).wf(),
        ensures
            final(self).wf(),
            final(self)@ == old(self)@.insert(key@, value),
    {
        let ghost before = self.entries@;
        match self.position(&key) {
            Some(i) => {
                proof {
                    lemma_set(before, i as int, key, value);
                }
                self.entries.set(i, (key, value));
            },
            None => {
                proof {
                    lemma_push(before, key, value);
                }
                self.entries.push((key, value));
            },
        }
    }

    /// Take out some key with its value.
    pub fn pop(&mut self) -> (pair: Option<(K, V)>)
        requires
            old(self).wf(),
        ensures
            final(self).wf(),
            match pair {
                Some((key, value)) => {
                    &&& old(self)@.contains_key(key@)
                    &&& old(self)@[key@] == value
                    &&& final(self)@ == old(self)@.remove(key@)
                },
                None => old(self)@ == Map::<K::V, V>::empty() && final(self)@ == old(self)@,
            },
            old(self)@.dom().finite(),
    {
        let ghost before = self.entries@;
        proof {
            lemma_size(before);
        }
        match self.entries.pop() {
            Some(pair) => {
                proof {
                    let last = before.len() - 1;
                    assert(before.remove(last) =~= self.entries@);
                    lemma_remove(before, last);
                    lemma_pair(before, last);
                }
                Some(pair)
            },
            None => {
                assert(self@ =~= Map::<K::V, V>::empty());
                None
            },
        }
    }

    /// Take out what is under `key`.
    pub fn remove(&mut self, key: &K) -> (value: Option<V>)
        requires
            old(self).wf(),
        ensures
            final(self).wf(),
            final(self)@ == old(self)@.remove(key@),
            match value {
                Some(value) => old(self)@.contains_key(key@) && value == old(self)@[key@],
                None => !old(self)@.contains_key(key@),
            },
    {
        let ghost before = self.entries@;
        match self.position(key) {
            Some(i) => {
                proof {
                    lemma_remove(before, i as int);
                }
                let (_, value) = self.entries.remove(i);
                Some(value)
            },
            None => {
                assert(self@ =~= old(self)@.remove(key@));
                None
            },
        }
    }
}

} // verus!
