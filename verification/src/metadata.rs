//! Key-value records attached to the server's subjects.

use crate::ids::{ClientId, GroupId, TerminalId, TerminalV};
use vstd::prelude::*;

verus! {

/// What a record is attached to.
#[derive(Debug, PartialEq, Eq)]
pub enum Scope {
    /// The server.
    Global,
    /// A group.
    Group(GroupId),
    /// A terminal or a resource bound to one.
    Resource(TerminalId),
}

/// A scope as contracts speak of it.
#[verifier::ext_equal]
pub enum ScopeV {
    /// The server.
    Global,
    /// A group.
    Group(u32),
    /// A terminal or a resource bound to one.
    Resource(TerminalV),
}

impl View for Scope {
    type V = ScopeV;

    open spec fn view(&self) -> ScopeV {
        match *self {
            Scope::Global => ScopeV::Global,
            Scope::Group(group) => ScopeV::Group(group.0),
            Scope::Resource(terminal) => ScopeV::Resource(terminal@),
        }
    }
}

impl Scope {
    /// Whether two scopes are the same.
    pub fn same(&self, other: &Self) -> (same: bool)
        ensures
            same == (self@ == other@),
    {
        match (self, other) {
            (Scope::Global, Scope::Global) => true,
            (Scope::Group(a), Scope::Group(b)) => a.0 == b.0,
            (Scope::Resource(a), Scope::Resource(b)) => a.same(b),
            _ => false,
        }
    }
}

impl Clone for Scope {
    fn clone(&self) -> (copy: Self)
        ensures
            copy == *self,
    {
        match self {
            Scope::Global => Scope::Global,
            Scope::Group(group) => Scope::Group(*group),
            Scope::Resource(terminal) => Scope::Resource(terminal.clone()),
        }
    }
}

/// One record.
pub struct MetadataEntry {
    /// What it is attached to.
    pub scope: Scope,
    /// Its key.
    pub key: String,
    /// Its value.
    pub value: Vec<u8>,
}

/// A consumer that wants to hear about a terminal's records.
pub struct MetadataSubscription {
    /// The terminal.
    pub terminal: TerminalId,
    /// The consumer.
    pub client: ClientId,
}

/// The records of a server.
pub struct MetadataStore {
    /// The records.
    pub entries: Vec<MetadataEntry>,
    /// Who wants to hear about which terminal's records.
    pub subscriptions: Vec<MetadataSubscription>,
}

/// What a record is found by.
pub type RecordKey = (ScopeV, Seq<char>);

/// What `entry` is found by.
pub open spec fn record_key(entry: MetadataEntry) -> RecordKey {
    (entry.scope@, entry.key@)
}

/// The records that `entries` represent.
pub open spec fn records_of(entries: Seq<MetadataEntry>) -> Map<RecordKey, Seq<u8>> {
    Map::new(
        |key: RecordKey|
            exists|i: int| 0 <= i < entries.len() && record_key(#[trigger] entries[i]) == key,
        |key: RecordKey|
            entries[choose|i: int|
                0 <= i < entries.len() && record_key(#[trigger] entries[i]) == key].value@,
    )
}

/// No record occurs twice.
pub open spec fn distinct_records(entries: Seq<MetadataEntry>) -> bool {
    forall|i: int, j: int|
        0 <= i < entries.len() && 0 <= j < entries.len() && record_key(#[trigger] entries[i])
            == record_key(#[trigger] entries[j]) ==> i == j
}

proof fn lemma_record(entries: Seq<MetadataEntry>, i: int)
    requires
        distinct_records(entries),
        0 <= i < entries.len(),
    ensures
        records_of(entries).contains_key(record_key(entries[i])),
        records_of(entries)[record_key(entries[i])] == entries[i].value@,
{
    let key = record_key(entries[i]);
    let j = choose|j: int| 0 <= j < entries.len() && record_key(#[trigger] entries[j]) == key;
    assert(record_key(entries[j]) == key);
}

impl View for MetadataStore {
    type V = Map<RecordKey, Seq<u8>>;

    open spec fn view(&self) -> Map<RecordKey, Seq<u8>> {
        records_of(self.entries@)
    }
}

impl MetadataStore {
    /// No record occurs twice.
    pub open spec fn wf(&self) -> bool {
        distinct_records(self.entries@)
    }

    /// A store without records.
    pub fn new() -> (store: Self)
        ensures
            store.wf(),
            store@ == Map::<RecordKey, Seq<u8>>::empty(),
            store.subscriptions@.len() == 0,
    {
        let store = MetadataStore { entries: Vec::new(), subscriptions: Vec::new() };
        assert(store@ =~= Map::<RecordKey, Seq<u8>>::empty());
        store
    }

    fn position(&self, scope: &Scope, key: &str) -> (found: Option<usize>)
        requires
            self.wf(),
        ensures
            match found {
                Some(i) => i < self.entries@.len() && record_key(self.entries@[i as int]) == (
                    scope@,
                    key@,
                ) && self@.contains_key((scope@, key@)) && self@[(scope@, key@)]
                    == self.entries@[i as int].value@,
                None => !self@.contains_key((scope@, key@)),
            },
    {
        let wanted = key.to_owned();
        let mut i: usize = 0;
        while i < self.entries.len()
            invariant
                self.wf(),
                wanted@ == key@,
                i <= self.entries@.len(),
                forall|j: int|
                    0 <= j < i ==> record_key(#[trigger] self.entries@[j]) != (scope@, key@),
            decreases self.entries@.len() - i,
        {
            if self.entries[i].scope.same(scope) && self.entries[i].key == wanted {
                proof {
                    lemma_record(self.entries@, i as int);
                }
                return Some(i);
            }
            i += 1;
        }
        None
    }

    /// The value of a record.
    pub fn get(&self, scope: &Scope, key: &str) -> (value: Option<&Vec<u8>>)
        requires
            self.wf(),
        ensures
            match value {
                Some(value) => self@.contains_key((scope@, key@)) && value@ == self@[(
                    scope@,
                    key@,
                )],
                None => !self@.contains_key((scope@, key@)),
            },
    {
        match self.position(scope, key) {
            Some(i) => Some(&self.entries[i].value),
            None => None,
        }
    }

    /// Whether anything is attached to `scope`.
    pub fn is_empty(&self, scope: &Scope) -> (empty: bool)
        requires
            self.wf(),
        ensures
            empty == (forall|key: RecordKey| #[trigger]
                self@.contains_key(key) ==> key.0 != scope@),
    {
        let mut i: usize = 0;
        while i < self.entries.len()
            invariant
                self.wf(),
                i <= self.entries@.len(),
                forall|j: int| 0 <= j < i ==> (#[trigger] self.entries@[j]).scope@ != scope@,
            decreases self.entries@.len() - i,
        {
            if self.entries[i].scope.same(scope) {
                proof {
                    lemma_record(self.entries@, i as int);
                    assert(self@.contains_key(record_key(self.entries@[i as int])));
                }
                return false;
            }
            i += 1;
        }
        proof {
            assert forall|key: RecordKey| #[trigger] self@.contains_key(key) implies key.0
                != scope@ by {
                let j = choose|j: int|
                    0 <= j < self.entries@.len() && record_key(#[trigger] self.entries@[j]) == key;
                assert(self.entries@[j].scope@ != scope@);
            }
        }
        true
    }

    /// Write a record.
    pub fn metadata_set(&mut self, scope: &Scope, key: &str, value: Vec<u8>)
        requires
            old(self).wf(),
        ensures
            final(self).wf(),
            final(self)@ == old(self)@.insert((scope@, key@), value@),
            final(self).subscriptions == old(self).subscriptions,
    {
        let ghost before = self.entries@;
        let ghost at = (scope@, key@);
        match self.position(scope, key) {
            Some(i) => {
                self.entries[i].value = value;
                proof {
                    let after = self.entries@;
                    assert forall|k: int| 0 <= k < after.len() implies record_key(
                        #[trigger] after[k],
                    ) == record_key(before[k]) by {}
                    lemma_rewritten(before, after, i as int);
                }
            },
            None => {
                let entry = MetadataEntry { scope: scope.clone(), key: key.to_owned(), value };
                let ghost added = entry;
                self.entries.push(entry);
                proof {
                    lemma_added(before, added);
                }
            },
        }
    }

    /// Remove a record.
    pub fn metadata_delete(&mut self, scope: &Scope, key: &str)
        requires
            old(self).wf(),
        ensures
            final(self).wf(),
            final(self)@ == old(self)@.remove((scope@, key@)),
            final(self).subscriptions == old(self).subscriptions,
    {
        let ghost before = self.entries@;
        match self.position(scope, key) {
            Some(i) => {
                self.entries.remove(i);
                proof {
                    lemma_removed(before, i as int);
                }
            },
            None => {
                assert(self@ =~= old(self)@.remove((scope@, key@)));
            },
        }
    }

    /// Nobody hears about `terminal`'s records any more.
    pub fn drop_terminal_metadata(&mut self, terminal: &TerminalId)
        ensures
            final(self).entries == old(self).entries,
            final(self).subscriptions@ == not_about(
                old(self).subscriptions@,
                old(self).subscriptions@.len(),
                terminal@,
            ),
    {
        let ghost subs = self.subscriptions@;
        let ghost mut n: nat = 0;
        let mut i: usize = 0;
        assert(self.subscriptions@.take(0) =~= Seq::<MetadataSubscription>::empty());
        assert(self.subscriptions@.skip(0) =~= subs.skip(0));
        while i < self.subscriptions.len()
            invariant
                self.entries == old(self).entries,
                n <= subs.len(),
                i <= self.subscriptions@.len(),
                self.subscriptions@.len() - i == subs.len() - n,
                self.subscriptions@.take(i as int) == not_about(subs, n, terminal@),
                self.subscriptions@.skip(i as int) == subs.skip(n as int),
            decreases self.subscriptions@.len() - i,
        {
            let ghost at = self.subscriptions@;
            proof {
                assert(at[i as int] == at.skip(i as int)[0]);
                assert(subs[n as int] == subs.skip(n as int)[0]);
                n = n + 1;
                assert(at.skip(i as int + 1) =~= at.skip(i as int).skip(1));
                assert(subs.skip(n as int) =~= subs.skip(n as int - 1).skip(1));
                assert(at.take(i as int + 1) =~= at.take(i as int).push(at[i as int]));
            }
            if self.subscriptions[i].terminal.same(terminal) {
                self.subscriptions.remove(i);
                proof {
                    assert(self.subscriptions@.take(i as int) =~= at.take(i as int));
                    assert(self.subscriptions@.skip(i as int) =~= at.skip(i as int).skip(1));
                }
            } else {
                i += 1;
            }
        }
        assert(self.subscriptions@.take(i as int) =~= self.subscriptions@);
    }
}

/// The first `n` of `subs` that are not about `terminal`.
pub open spec fn not_about(subs: Seq<MetadataSubscription>, n: nat, terminal: TerminalV) -> Seq<
    MetadataSubscription,
>
    decreases n,
{
    if n == 0 || n > subs.len() {
        Seq::empty()
    } else {
        let before = not_about(subs, (n - 1) as nat, terminal);
        if subs[n - 1].terminal@ == terminal {
            before
        } else {
            before.push(subs[n - 1])
        }
    }
}

proof fn lemma_rewritten(before: Seq<MetadataEntry>, after: Seq<MetadataEntry>, i: int)
    requires
        distinct_records(before),
        after.len() == before.len(),
        0 <= i < before.len(),
        forall|k: int|
            0 <= k < after.len() ==> record_key(#[trigger] after[k]) == record_key(before[k]),
        forall|k: int| 0 <= k < after.len() && k != i ==> #[trigger] after[k] == before[k],
    ensures
        distinct_records(after),
        records_of(after) == records_of(before).insert(record_key(before[i]), after[i].value@),
{
    assert(distinct_records(after)) by {
        assert forall|a: int, b: int|
            0 <= a < after.len() && 0 <= b < after.len() && record_key(#[trigger] after[a])
                == record_key(#[trigger] after[b]) implies a == b by {
            assert(record_key(before[a]) == record_key(before[b]));
        }
    }
    let goal = records_of(before).insert(record_key(before[i]), after[i].value@);
    assert forall|key: RecordKey| records_of(after).contains_key(key) == goal.contains_key(key) by {
        if records_of(after).contains_key(key) {
            let j = choose|j: int| 0 <= j < after.len() && record_key(#[trigger] after[j]) == key;
            assert(record_key(before[j]) == key);
        }
        if records_of(before).contains_key(key) {
            let j = choose|j: int| 0 <= j < before.len() && record_key(#[trigger] before[j]) == key;
            assert(record_key(after[j]) == key);
        }
        assert(record_key(after[i]) == record_key(before[i]));
    }
    assert forall|key: RecordKey| records_of(after).contains_key(key) implies records_of(after)[key]
        == goal[key] by {
        let j = choose|j: int| 0 <= j < after.len() && record_key(#[trigger] after[j]) == key;
        lemma_record(after, j);
        lemma_record(before, j);
    }
    assert(records_of(after) =~= goal);
}

proof fn lemma_added(before: Seq<MetadataEntry>, entry: MetadataEntry)
    requires
        distinct_records(before),
        !records_of(before).contains_key(record_key(entry)),
    ensures
        distinct_records(before.push(entry)),
        records_of(before.push(entry)) == records_of(before).insert(
            record_key(entry),
            entry.value@,
        ),
{
    let after = before.push(entry);
    let last = before.len() as int;
    assert(distinct_records(after)) by {
        assert forall|a: int, b: int|
            0 <= a < after.len() && 0 <= b < after.len() && record_key(#[trigger] after[a])
                == record_key(#[trigger] after[b]) implies a == b by {
            if a < last {
                assert(after[a] == before[a]);
            }
            if b < last {
                assert(after[b] == before[b]);
            }
        }
    }
    let goal = records_of(before).insert(record_key(entry), entry.value@);
    assert forall|key: RecordKey| records_of(after).contains_key(key) == goal.contains_key(key) by {
        if records_of(after).contains_key(key) && key != record_key(entry) {
            let j = choose|j: int| 0 <= j < after.len() && record_key(#[trigger] after[j]) == key;
            assert(before[j] == after[j]);
        }
        if records_of(before).contains_key(key) {
            let j = choose|j: int| 0 <= j < before.len() && record_key(#[trigger] before[j]) == key;
            assert(after[j] == before[j]);
        }
        assert(after[last] == entry);
    }
    assert forall|key: RecordKey| records_of(after).contains_key(key) implies records_of(after)[key]
        == goal[key] by {
        let j = choose|j: int| 0 <= j < after.len() && record_key(#[trigger] after[j]) == key;
        lemma_record(after, j);
        if j < last {
            assert(before[j] == after[j]);
            lemma_record(before, j);
        }
    }
    assert(records_of(after) =~= goal);
}

proof fn lemma_removed(before: Seq<MetadataEntry>, i: int)
    requires
        distinct_records(before),
        0 <= i < before.len(),
    ensures
        distinct_records(before.remove(i)),
        records_of(before.remove(i)) == records_of(before).remove(record_key(before[i])),
{
    let after = before.remove(i);
    assert(distinct_records(after)) by {
        assert forall|a: int, b: int|
            0 <= a < after.len() && 0 <= b < after.len() && record_key(#[trigger] after[a])
                == record_key(#[trigger] after[b]) implies a == b by {
            let x = if a < i {
                a
            } else {
                a + 1
            };
            let y = if b < i {
                b
            } else {
                b + 1
            };
            assert(before[x] == after[a] && before[y] == after[b]);
        }
    }
    let goal = records_of(before).remove(record_key(before[i]));
    assert forall|key: RecordKey| records_of(after).contains_key(key) == goal.contains_key(key) by {
        if records_of(after).contains_key(key) {
            let j = choose|j: int| 0 <= j < after.len() && record_key(#[trigger] after[j]) == key;
            let x = if j < i {
                j
            } else {
                j + 1
            };
            assert(before[x] == after[j]);
            assert(record_key(before[i]) == record_key(before[i]));
        }
        if records_of(before).contains_key(key) && key != record_key(before[i]) {
            let j = choose|j: int| 0 <= j < before.len() && record_key(#[trigger] before[j]) == key;
            let x = if j < i {
                j
            } else {
                j - 1
            };
            assert(after[x] == before[j]);
        }
    }
    assert forall|key: RecordKey| records_of(after).contains_key(key) implies records_of(after)[key]
        == goal[key] by {
        let j = choose|j: int| 0 <= j < after.len() && record_key(#[trigger] after[j]) == key;
        lemma_record(after, j);
        let x = if j < i {
            j
        } else {
            j + 1
        };
        assert(before[x] == after[j]);
        lemma_record(before, x);
    }
    assert(records_of(after) =~= goal);
}

} // verus!
