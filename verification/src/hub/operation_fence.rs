//! The incarnation fence for keyed operations forwarded to one satellite.
//!
//! A satellite deduplicates the keyed operations that it runs, and forgets them
//! when its process dies. A consumer behind a hub cannot tell that a satellite
//! restarted between two attempts, so a retry forwarded blindly could run
//! twice. The hub therefore remembers, for each operation that it forwards, the
//! satellite incarnation it went to, and refuses a retry that would cross a
//! restart. The same record names the consumer that sent the operation, so that
//! events which the operation causes can be attributed.
//!
//! The record is bounded and keeps an operation for ten minutes. A full record
//! refuses a new operation rather than forget a live one.

use crate::ids::ClientId;
use crate::wire::{Command, IdempotencyKey};
use vstd::prelude::*;

verus! {

/// How long a forwarded operation is remembered, in milliseconds.
pub const DEDUPE_RETENTION_MS: u64 = 600_000;

/// Most operations that are remembered.
pub const DEDUPE_MAX_ENTRIES: usize = 1024;

/// A satellite incarnation, or none when the link could not learn it. All
/// unknown incarnations count as one.
pub type Incarnation = Option<u128>;

/// Which deduplication an operation belongs to.
#[derive(Debug, Clone, Copy, PartialEq, Eq, Structural)]
pub enum OperationDomain {
    /// Exactly-once input.
    Input,
    /// Supervisory commands.
    Signal,
}

/// The identity under which an operation is remembered.
#[derive(Debug, Clone, Copy, PartialEq, Eq, Structural)]
pub struct OperationKey {
    /// The deduplication it belongs to.
    pub domain: OperationDomain,
    /// The caller's identity for it.
    pub raw: u128,
}

impl OperationKey {
    /// The identity `raw` in `domain`.
    pub fn new(domain: OperationDomain, raw: u128) -> (key: Self)
        ensures
            key == (OperationKey { domain, raw }),
    {
        OperationKey { domain, raw }
    }
}

/// What the fence says about forwarding one operation.
#[derive(Debug, Clone, Copy, PartialEq, Eq, Structural)]
pub enum FenceVerdict {
    /// Forward it: it is new, or it went to this same incarnation.
    Forward,
    /// Refuse it: it went to an incarnation that is gone.
    IncarnationChanged,
    /// Refuse it: it is new and the record is full.
    Full,
}

/// One remembered operation.
#[derive(Debug, Clone, Copy, PartialEq, Eq, Structural)]
pub struct FencedOperation {
    /// Its identity.
    pub key: OperationKey,
    /// Where it went.
    pub incarnation: Incarnation,
    /// The consumer that sent it last.
    pub actor: ClientId,
    /// When it was first forwarded, in milliseconds.
    pub admitted_at: u64,
}

/// The remembered operations of one satellite, oldest first.
pub struct FenceStore {
    /// The operations, in the order in which they were first forwarded.
    pub entries: Vec<FencedOperation>,
}

/// `entry` is past the horizon at `now`.
pub open spec fn expired(entry: FencedOperation, now: u64) -> bool {
    now >= entry.admitted_at + DEDUPE_RETENTION_MS
}

/// What is left at `now`: the oldest operations are dropped as long as they are
/// past the horizon.
pub open spec fn pruned(entries: Seq<FencedOperation>, now: u64) -> Seq<FencedOperation>
    decreases entries.len(),
{
    if entries.len() > 0 && expired(entries[0], now) {
        pruned(entries.drop_first(), now)
    } else {
        entries
    }
}

/// Where `key` stands in `entries`.
pub open spec fn place(entries: Seq<FencedOperation>, key: OperationKey) -> Option<int>
    decreases entries.len(),
{
    if entries.len() == 0 {
        None
    } else if entries.last().key == key {
        Some(entries.len() - 1)
    } else {
        place(entries.drop_last(), key)
    }
}

/// No operation is remembered twice.
pub open spec fn distinct_operations(entries: Seq<FencedOperation>) -> bool {
    forall|i: int, j: int|
        0 <= i < entries.len() && 0 <= j < entries.len() && (#[trigger] entries[i]).key == (
        #[trigger] entries[j]).key ==> i == j
}

/// What the fence says.
pub open spec fn verdict(
    entries: Seq<FencedOperation>,
    key: OperationKey,
    incarnation: Incarnation,
    now: u64,
) -> FenceVerdict {
    let live = pruned(entries, now);
    match place(live, key) {
        Some(i) => if live[i].incarnation != incarnation {
            FenceVerdict::IncarnationChanged
        } else {
            FenceVerdict::Forward
        },
        None => if live.len() >= DEDUPE_MAX_ENTRIES {
            FenceVerdict::Full
        } else {
            FenceVerdict::Forward
        },
    }
}

/// What is remembered after that.
pub open spec fn admitted(
    entries: Seq<FencedOperation>,
    key: OperationKey,
    incarnation: Incarnation,
    actor: ClientId,
    now: u64,
) -> Seq<FencedOperation> {
    let live = pruned(entries, now);
    match place(live, key) {
        Some(i) => if live[i].incarnation != incarnation {
            live
        } else {
            live.update(i, FencedOperation { actor, ..live[i] })
        },
        None => if live.len() >= DEDUPE_MAX_ENTRIES {
            live
        } else {
            live.push(FencedOperation { key, incarnation, actor, admitted_at: now })
        },
    }
}

proof fn lemma_place(entries: Seq<FencedOperation>, key: OperationKey)
    ensures
        match place(entries, key) {
            Some(i) => 0 <= i < entries.len() && entries[i].key == key,
            None => forall|i: int| 0 <= i < entries.len() ==> (#[trigger] entries[i]).key != key,
        },
    decreases entries.len(),
{
    if entries.len() > 0 {
        lemma_place(entries.drop_last(), key);
        if place(entries, key) is None {
            assert forall|i: int| 0 <= i < entries.len() implies (#[trigger] entries[i]).key
                != key by {
                if i < entries.len() - 1 {
                    assert(entries.drop_last()[i] == entries[i]);
                }
            }
        }
    }
}

/// What is left is the newest part of what was there.
proof fn lemma_pruned_suffix(entries: Seq<FencedOperation>, now: u64)
    ensures
        pruned(entries, now).len() <= entries.len(),
        pruned(entries, now) == entries.skip(entries.len() - pruned(entries, now).len()),
        pruned(entries, now).len() > 0 ==> !expired(pruned(entries, now)[0], now),
        forall|i: int|
            0 <= i < entries.len() - pruned(entries, now).len() ==> expired(
                #[trigger] entries[i],
                now,
            ),
    decreases entries.len(),
{
    if entries.len() > 0 && expired(entries[0], now) {
        let rest = entries.drop_first();
        lemma_pruned_suffix(rest, now);
        assert(entries.skip(entries.len() - pruned(entries, now).len()) =~= rest.skip(
            rest.len() - pruned(rest, now).len(),
        ));
        assert forall|i: int| 0 <= i < entries.len() - pruned(entries, now).len() implies expired(
            #[trigger] entries[i],
            now,
        ) by {
            if i > 0 {
                assert(rest[i - 1] == entries[i]);
            }
        }
    } else {
        assert(entries.skip(0) =~= entries);
    }
}

proof fn lemma_suffix_distinct(entries: Seq<FencedOperation>, from: int)
    requires
        distinct_operations(entries),
        0 <= from <= entries.len(),
    ensures
        distinct_operations(entries.skip(from)),
{
    let rest = entries.skip(from);
    assert forall|i: int, j: int|
        0 <= i < rest.len() && 0 <= j < rest.len() && (#[trigger] rest[i]).key == (
        #[trigger] rest[j]).key implies i == j by {
        assert(entries[i + from].key == entries[j + from].key);
    }
}

impl FenceStore {
    /// The record is bounded and remembers no operation twice.
    pub open spec fn wf(&self) -> bool {
        self.entries@.len() <= DEDUPE_MAX_ENTRIES && distinct_operations(self.entries@)
    }

    /// An empty record.
    pub fn new() -> (store: Self)
        ensures
            store.wf(),
            store.entries@.len() == 0,
    {
        FenceStore { entries: Vec::new() }
    }

    /// Drop the oldest operations as long as they are past the horizon.
    pub fn prune_expired(&mut self, now: u64)
        requires
            old(self).wf(),
        ensures
            final(self).wf(),
            final(self).entries@ == pruned(old(self).entries@, now),
    {
        while self.entries.len() > 0
            invariant_except_break
                self.wf(),
                pruned(self.entries@, now) == pruned(old(self).entries@, now),
            ensures
                self.wf(),
                self.entries@ == pruned(old(self).entries@, now),
            decreases self.entries@.len(),
        {
            let admitted_at = self.entries[0].admitted_at;
            let age = if now >= admitted_at {
                now - admitted_at
            } else {
                0
            };
            if age < DEDUPE_RETENTION_MS {
                break;
            }
            proof {
                lemma_suffix_distinct(self.entries@, 1);
                assert(self.entries@.remove(0) =~= self.entries@.skip(1));
                assert(self.entries@.drop_first() =~= self.entries@.skip(1));
            }
            self.entries.remove(0);
        }
    }

    fn position(&self, key: OperationKey) -> (found: Option<usize>)
        requires
            self.wf(),
        ensures
            match found {
                Some(i) => place(self.entries@, key) == Some(i as int) && i < self.entries@.len(),
                None => place(self.entries@, key) is None,
            },
    {
        proof {
            lemma_place(self.entries@, key);
        }
        let mut i: usize = 0;
        while i < self.entries.len()
            invariant
                self.wf(),
                i <= self.entries@.len(),
                forall|j: int| 0 <= j < i ==> (#[trigger] self.entries@[j]).key != key,
                match place(self.entries@, key) {
                    Some(i) => 0 <= i < self.entries@.len() && self.entries@[i].key == key,
                    None => forall|i: int|
                        0 <= i < self.entries@.len() ==> (#[trigger] self.entries@[i]).key != key,
                },
            decreases self.entries@.len() - i,
        {
            if self.entries[i].key == key {
                return Some(i);
            }
            i += 1;
        }
        None
    }

    /// May `actor`'s operation `key` be forwarded to `incarnation` at `now`?
    pub fn admit_operation(
        &mut self,
        key: OperationKey,
        incarnation: Incarnation,
        actor: ClientId,
        now: u64,
    ) -> (answer: FenceVerdict)
        requires
            old(self).wf(),
        ensures
            final(self).wf(),
            answer == verdict(old(self).entries@, key, incarnation, now),
            final(self).entries@ == admitted(old(self).entries@, key, incarnation, actor, now),
    {
        self.prune_expired(now);
        let ghost live = self.entries@;
        proof {
            lemma_place(live, key);
        }
        if let Some(i) = self.position(key) {
            if self.entries[i].incarnation != incarnation {
                return FenceVerdict::IncarnationChanged;
            }
            let entry = self.entries[i];
            self.entries.set(i, FencedOperation { actor, ..entry });
            proof {
                let after = self.entries@;
                assert forall|a: int, b: int|
                    0 <= a < after.len() && 0 <= b < after.len() && (#[trigger] after[a]).key == (
                    #[trigger] after[b]).key implies a == b by {
                    assert(live[a].key == after[a].key && live[b].key == after[b].key);
                }
            }
            return FenceVerdict::Forward;
        }
        if self.entries.len() >= DEDUPE_MAX_ENTRIES {
            return FenceVerdict::Full;
        }
        self.entries.push(FencedOperation { key, incarnation, actor, admitted_at: now });
        proof {
            let after = self.entries@;
            assert forall|a: int, b: int|
                0 <= a < after.len() && 0 <= b < after.len() && (#[trigger] after[a]).key == (
                #[trigger] after[b]).key implies a == b by {
                if a < live.len() {
                    assert(live[a] == after[a]);
                }
                if b < live.len() {
                    assert(live[b] == after[b]);
                }
            }
        }
        FenceVerdict::Forward
    }
}

/// One satellite's fence. It outlives the link's connections: a reconnect is
/// exactly when it matters.
pub struct OperationFence {
    /// What is remembered.
    pub store: FenceStore,
}

impl OperationFence {
    /// The record is bounded and remembers no operation twice.
    pub open spec fn wf(&self) -> bool {
        self.store.wf()
    }

    /// A fence that remembers nothing.
    pub fn new() -> (fence: Self)
        ensures
            fence.wf(),
            fence.store.entries@.len() == 0,
    {
        OperationFence { store: FenceStore::new() }
    }

    /// May `actor`'s operation `key` be forwarded to `incarnation` at `now`?
    pub fn admit_operation(
        &mut self,
        key: OperationKey,
        incarnation: Incarnation,
        actor: ClientId,
        now: u64,
    ) -> (answer: FenceVerdict)
        requires
            old(self).wf(),
        ensures
            final(self).wf(),
            answer == verdict(old(self).store.entries@, key, incarnation, now),
            final(self).store.entries@ == admitted(
                old(self).store.entries@,
                key,
                incarnation,
                actor,
                now,
            ),
    {
        self.store.admit_operation(key, incarnation, actor, now)
    }

    /// The consumer whose supervisory operation caused an event that carries
    /// `operation_id`, while it is remembered.
    pub fn actor_for_event(&self, operation_id: IdempotencyKey) -> (actor: Option<ClientId>)
        requires
            self.wf(),
        ensures
            actor == (match place(
                self.store.entries@,
                OperationKey { domain: OperationDomain::Signal, raw: operation_id.raw },
            ) {
                Some(i) => Some(self.store.entries@[i].actor),
                None => None,
            }),
    {
        let key = OperationKey::new(OperationDomain::Signal, operation_id.raw);
        match self.store.position(key) {
            Some(i) => Some(self.store.entries[i].actor),
            None => None,
        }
    }
}

/// The identity under which a forwarded command is remembered: each kind of
/// operation has its own domain. Commands without an identity have none.
pub open spec fn fence_key(command: Command) -> Option<OperationKey> {
    match command {
        Command::ApplyInput { operation_id, .. } => Some(
            OperationKey { domain: OperationDomain::Input, raw: operation_id.raw },
        ),
        Command::KillTerminal { operation_id: Some(key), .. } => Some(
            OperationKey { domain: OperationDomain::Signal, raw: key.raw },
        ),
        Command::SignalTerminal { operation_id: Some(key), .. } => Some(
            OperationKey { domain: OperationDomain::Signal, raw: key.raw },
        ),
        _ => None,
    }
}

/// The identity under which a forwarded command is remembered.
pub fn fenced_key(command: &Command) -> (key: Option<OperationKey>)
    ensures
        key == fence_key(*command),
{
    match command {
        Command::ApplyInput { operation_id, .. } => Some(
            OperationKey::new(OperationDomain::Input, operation_id.raw),
        ),
        _ => match command.idempotency_key() {
            Some(key) => Some(OperationKey::new(OperationDomain::Signal, key.raw)),
            None => None,
        },
    }
}

/// An operation never crosses a restart: once it went to one incarnation, the
/// fence does not forward it to another until the horizon has passed.
pub proof fn law_operations_never_cross_a_restart(
    entries: Seq<FencedOperation>,
    key: OperationKey,
    first: Incarnation,
    second: Incarnation,
    actor: ClientId,
    at: u64,
    later: u64,
)
    requires
        entries.len() <= DEDUPE_MAX_ENTRIES,
        distinct_operations(entries),
        place(entries, key) is None,
        verdict(entries, key, first, at) == FenceVerdict::Forward,
        first != second,
        at <= later < at + DEDUPE_RETENTION_MS,
    ensures
        verdict(admitted(entries, key, first, actor, at), key, second, later)
            == FenceVerdict::IncarnationChanged,
{
    lemma_place(entries, key);
    let live = pruned(entries, at);
    lemma_pruned_suffix(entries, at);
    lemma_place(live, key);
    assert(place(live, key) is None) by {
        if let Some(i) = place(live, key) {
            assert(live[i] == entries[i + (entries.len() - live.len())]);
        }
    }
    let after = admitted(entries, key, first, actor, at);
    let left = pruned(after, later);
    lemma_pruned_suffix(after, later);
    let last = after.len() - 1;
    assert(after[last].key == key && !expired(after[last], later));
    assert(left.len() > 0) by {
        if left.len() == 0 {
            assert(expired(after[last], later));
        }
    }
    assert(left[left.len() - 1] == after[last]);
    lemma_place(left, key);
    let i = place(left, key)->0;
    if i != left.len() - 1 {
        let k = i + (after.len() - left.len());
        assert(left[i] == after[k]);
        assert(after[k] == live[k]);
    }
}

/// A retry within one incarnation is forwarded: the satellite deduplicates it.
pub proof fn law_retries_within_an_incarnation_are_forwarded(
    entries: Seq<FencedOperation>,
    key: OperationKey,
    incarnation: Incarnation,
    actor: ClientId,
    at: u64,
)
    requires
        entries.len() <= DEDUPE_MAX_ENTRIES,
        distinct_operations(entries),
        verdict(entries, key, incarnation, at) == FenceVerdict::Forward,
    ensures
        verdict(admitted(entries, key, incarnation, actor, at), key, incarnation, at)
            == FenceVerdict::Forward,
{
    let live = pruned(entries, at);
    lemma_pruned_suffix(entries, at);
    lemma_place(live, key);
    let after = admitted(entries, key, incarnation, actor, at);
    lemma_suffix_distinct(entries, entries.len() - live.len());
    assert(pruned(after, at) == after) by {
        if live.len() > 0 {
            assert(after[0].admitted_at == live[0].admitted_at);
        }
    }
    lemma_place(after, key);
    match place(live, key) {
        Some(i) => {
            assert(after[i].key == key);
            let j = place(after, key)->0;
            assert(live[j].key == key);
        },
        None => {
            assert(after[live.len() as int].key == key);
            let j = place(after, key)->0;
            if j < live.len() {
                assert(live[j] == after[j]);
            }
        },
    }
}

/// A live operation is never forgotten to make room: admitting another one
/// keeps every operation that is not past the horizon.
pub proof fn law_live_operations_are_kept(
    entries: Seq<FencedOperation>,
    key: OperationKey,
    incarnation: Incarnation,
    actor: ClientId,
    now: u64,
    i: int,
)
    requires
        0 <= i < entries.len(),
        !expired(entries[i], now),
    ensures
        exists|j: int|
            0 <= j < admitted(entries, key, incarnation, actor, now).len() && (
            #[trigger] admitted(entries, key, incarnation, actor, now)[j]).key == entries[i].key
                && admitted(entries, key, incarnation, actor, now)[j].incarnation
                == entries[i].incarnation,
{
    let live = pruned(entries, now);
    lemma_pruned_suffix(entries, now);
    lemma_place(live, key);
    let after = admitted(entries, key, incarnation, actor, now);
    let j = i - (entries.len() - live.len());
    if j < 0 {
        assert(expired(entries[i], now));
    }
    assert(live[j] == entries[i]);
    assert(after[j].key == entries[i].key && after[j].incarnation == entries[i].incarnation);
}

} // verus!
