//! Requests in flight toward one satellite.
//!
//! The hub numbers its own requests on the link. A number names at most one
//! request at a time, whichever kind of reply it waits for.

use crate::hub::registry::Registration;
use crate::ids::ClientId;
use crate::table::{lemma_key_count, Table};
use vstd::prelude::*;
use vstd::set_lib::lemma_len_subset;

verus! {

/// Names a consumer that waits for a reply.
#[derive(Debug, Clone, Copy, PartialEq, Eq, Structural)]
pub struct ReplyId(pub u64);

/// A command in flight.
#[derive(Debug, Clone, Copy, PartialEq, Eq, Structural)]
pub struct PendingCommand {
    /// Who waits for the result.
    pub reply: ReplyId,
    /// The registration that rode along: terminal, consumer and effect.
    pub subscription: Option<PendingSubscription>,
}

/// What to undo if a satellite refuses a command that registered a subscriber.
#[derive(Debug, Clone, Copy, PartialEq, Eq, Structural)]
pub struct PendingSubscription {
    /// The satellite's number for the terminal.
    pub terminal: u32,
    /// The consumer.
    pub client: ClientId,
    /// What the registration did.
    pub effect: Registration,
}

/// A request to stop a stream, not confirmed yet.
#[derive(Debug, Clone, Copy, PartialEq, Eq, Structural)]
pub struct PendingDetach {
    /// The satellite's number for the terminal.
    pub terminal: u32,
    /// When the request was issued, in milliseconds.
    pub issued_ms: u64,
}

/// A read of a record that the hub mirrors.
#[derive(Debug, Clone, Copy, PartialEq, Eq, Structural)]
pub struct PendingRead {
    /// The satellite's number for the terminal.
    pub terminal: u32,
    /// Whether the asked flag is read; the agent record otherwise.
    pub asked: bool,
}

/// The requests in flight on one link.
pub struct RequestBook {
    /// The number to try next.
    pub next_request_id: u32,
    /// Commands.
    pub pending: Table<PendingCommand>,
    /// Spawns.
    pub pending_spawns: Table<ReplyId>,
    /// Stream stops.
    pub pending_detaches: Table<PendingDetach>,
    /// Record reads.
    pub pending_reads: Table<PendingRead>,
}

/// The requests in flight, as contracts speak of them.
#[verifier::ext_equal]
pub struct RequestsV {
    /// The number to try next.
    pub next: u32,
    /// Commands.
    pub commands: Map<u32, PendingCommand>,
    /// Spawns.
    pub spawns: Map<u32, ReplyId>,
    /// Stream stops.
    pub detaches: Map<u32, PendingDetach>,
    /// Record reads.
    pub reads: Map<u32, PendingRead>,
}

impl RequestsV {
    /// `id` names a request in flight.
    pub open spec fn used(self, id: u32) -> bool {
        self.commands.contains_key(id) || self.spawns.contains_key(id)
            || self.detaches.contains_key(id) || self.reads.contains_key(id)
    }

    /// A request for `terminal`'s stream to stop is in flight.
    pub open spec fn barred(self, terminal: u32) -> bool {
        exists|id: u32| #[trigger]
            self.detaches.contains_key(id) && self.detaches[id].terminal == terminal
    }

    /// A request to stop a stream is `limit_ms` old or older.
    pub open spec fn overdue(self, now_ms: u64, limit_ms: u64) -> bool {
        exists|id: u32| #[trigger]
            self.detaches.contains_key(id) && self.detaches[id].issued_ms + limit_ms <= now_ms
    }

    /// `id` is the first unused number from `next` on.
    pub open spec fn first_unused(self, id: u32) -> bool {
        !self.used(id) && exists|k: int|
            0 <= k < u32::MAX && #[trigger] nth_id(self.next, k) == id && forall|j: int|
                0 <= j < k ==> self.used(#[trigger] nth_id(self.next, j) as u32)
    }

    /// The number that the next request takes.
    pub open spec fn fresh(self) -> u32 {
        choose|id: u32| self.first_unused(id)
    }

    /// The book once that number was taken.
    pub open spec fn advanced(self) -> Self {
        RequestsV { next: nth_id(self.fresh(), 1) as u32, ..self }
    }

    /// The book with another command in flight.
    pub open spec fn with_command(self, command: PendingCommand) -> Self {
        RequestsV { commands: self.commands.insert(self.fresh(), command), ..self.advanced() }
    }

    /// The book with another spawn in flight.
    pub open spec fn with_spawn(self, reply: ReplyId) -> Self {
        RequestsV { spawns: self.spawns.insert(self.fresh(), reply), ..self.advanced() }
    }

    /// The book with another stream stop in flight.
    pub open spec fn with_detach(self, detach: PendingDetach) -> Self {
        RequestsV { detaches: self.detaches.insert(self.fresh(), detach), ..self.advanced() }
    }

    /// The book with another record read in flight.
    pub open spec fn with_read(self, read: PendingRead) -> Self {
        RequestsV { reads: self.reads.insert(self.fresh(), read), ..self.advanced() }
    }
}

/// At most one number is the first unused one.
pub proof fn lemma_first_unused_is_fresh(book: RequestsV, id: u32)
    requires
        book.first_unused(id),
    ensures
        book.fresh() == id,
{
    let other = book.fresh();
    let a = choose|k: int|
        0 <= k < u32::MAX && #[trigger] nth_id(book.next, k) == id && forall|j: int|
            0 <= j < k ==> book.used(#[trigger] nth_id(book.next, j) as u32);
    let b = choose|k: int|
        0 <= k < u32::MAX && #[trigger] nth_id(book.next, k) == other && forall|j: int|
            0 <= j < k ==> book.used(#[trigger] nth_id(book.next, j) as u32);
    if a < b {
        assert(book.used(nth_id(book.next, a) as u32));
    } else if b < a {
        assert(book.used(nth_id(book.next, b) as u32));
    }
}

impl View for RequestBook {
    type V = RequestsV;

    open spec fn view(&self) -> RequestsV {
        RequestsV {
            next: self.next_request_id,
            commands: self.pending@,
            spawns: self.pending_spawns@,
            detaches: self.pending_detaches@,
            reads: self.pending_reads@,
        }
    }
}

/// The number that is tried `k` steps after `start`. Zero is never a request.
pub open spec fn nth_id(start: u32, k: int) -> int {
    if start + k <= u32::MAX {
        start + k
    } else {
        start + k - u32::MAX
    }
}

impl RequestBook {
    /// The tables are maps, and the next number is not zero.
    pub open spec fn wf(&self) -> bool {
        &&& self.next_request_id >= 1
        &&& self.pending.wf()
        &&& self.pending_spawns.wf()
        &&& self.pending_detaches.wf()
        &&& self.pending_reads.wf()
    }

    /// How many requests are in flight.
    pub open spec fn in_flight(&self) -> nat {
        self.pending.entries@.len() + self.pending_spawns.entries@.len()
            + self.pending_detaches.entries@.len() + self.pending_reads.entries@.len()
    }

    /// A number is left for another request.
    pub open spec fn has_room(&self) -> bool {
        self.in_flight() < u32::MAX
    }

    /// A book without requests.
    pub fn new() -> (book: Self)
        ensures
            book.wf(),
            book.in_flight() == 0,
            book@ == (RequestsV {
                next: 1,
                commands: Map::empty(),
                spawns: Map::empty(),
                detaches: Map::empty(),
                reads: Map::empty(),
            }),
    {
        RequestBook {
            next_request_id: 1,
            pending: Table::new(),
            pending_spawns: Table::new(),
            pending_detaches: Table::new(),
            pending_reads: Table::new(),
        }
    }

    proof fn lemma_not_all_used(&self, start: u32, k: int)
        requires
            self.wf(),
            start >= 1,
            0 <= k <= u32::MAX,
            forall|j: int| 0 <= j < k ==> self@.used(#[trigger] nth_id(start, j) as u32),
        ensures
            k <= self.in_flight(),
    {
        let a = self.pending@.dom();
        let b = self.pending_spawns@.dom();
        let c = self.pending_detaches@.dom();
        let d = self.pending_reads@.dom();
        lemma_key_count(self.pending.entries@);
        lemma_key_count(self.pending_spawns.entries@);
        lemma_key_count(self.pending_detaches.entries@);
        lemma_key_count(self.pending_reads.entries@);
        vstd::set_lib::lemma_len_union(a, b);
        vstd::set_lib::lemma_len_union(a.union(b), c);
        vstd::set_lib::lemma_len_union(a.union(b).union(c), d);
        let all = a.union(b).union(c).union(d);
        let tried = Seq::new(k as nat, |j: int| nth_id(start, j) as u32);
        assert(tried.no_duplicates()) by {
            assert forall|i: int, j: int| 0 <= i < k && 0 <= j < k && i != j implies tried[i]
                != tried[j] by {
                assert(nth_id(start, i) as u32 == nth_id(start, i));
                assert(nth_id(start, j) as u32 == nth_id(start, j));
            }
        }
        tried.unique_seq_to_set();
        assert(tried.to_set().subset_of(all)) by {
            assert forall|id: u32| tried.to_set().contains(id) implies all.contains(id) by {
                let j = choose|j: int| 0 <= j < tried.len() && tried[j] == id;
                assert(self@.used(nth_id(start, j) as u32));
            }
        }
        lemma_len_subset(tried.to_set(), all);
    }

    /// Take the first unused number.
    pub fn allocate_request_id(&mut self) -> (id: u32)
        requires
            old(self).wf(),
            old(self).has_room(),
        ensures
            final(self).wf(),
            id >= 1,
            id == old(self)@.fresh(),
            old(self)@.first_unused(id),
            final(self)@ == old(self)@.advanced(),
            final(self).pending == old(self).pending,
            final(self).pending_spawns == old(self).pending_spawns,
            final(self).pending_detaches == old(self).pending_detaches,
            final(self).pending_reads == old(self).pending_reads,
    {
        let ghost start = self.next_request_id;
        let ghost mut k: int = 0;
        loop
            invariant
                start == old(self).next_request_id,
                old(self).wf(),
                old(self).has_room(),
                self.wf(),
                self.pending == old(self).pending,
                self.pending_spawns == old(self).pending_spawns,
                self.pending_detaches == old(self).pending_detaches,
                self.pending_reads == old(self).pending_reads,
                0 <= k <= old(self).in_flight(),
                self.next_request_id == nth_id(start, k),
                forall|j: int| 0 <= j < k ==> old(self)@.used(#[trigger] nth_id(start, j) as u32),
            decreases old(self).in_flight() - k,
        {
            let id = self.next_request_id;
            self.next_request_id =
            if id == u32::MAX {
                1
            } else {
                id + 1
            };
            if !self.pending.contains(id) && !self.pending_spawns.contains(id)
                && !self.pending_detaches.contains(id) && !self.pending_reads.contains(id) {
                proof {
                    assert(nth_id(old(self)@.next, k) == id);
                    assert(forall|j: int|
                        0 <= j < k ==> old(self)@.used(
                            #[trigger] nth_id(old(self)@.next, j) as u32,
                        ));
                    assert(!old(self)@.used(id));
                    lemma_first_unused_is_fresh(old(self)@, id);
                }
                return id;
            }
            proof {
                assert(old(self)@.used(nth_id(start, k) as u32));
                k = k + 1;
                old(self).lemma_not_all_used(start, k);
            }
        }
    }

    /// Whether a request for `terminal`'s stream to stop is in flight.
    pub fn is_barred(&self, terminal: u32) -> (barred: bool)
        requires
            self.wf(),
        ensures
            barred == self@.barred(terminal),
    {
        let mut i: usize = 0;
        while i < self.pending_detaches.entries.len()
            invariant
                self.wf(),
                i <= self.pending_detaches.entries@.len(),
                forall|j: int|
                    0 <= j < i ==> (#[trigger] self.pending_detaches.entries@[j]).1.terminal
                        != terminal,
            decreases self.pending_detaches.entries@.len() - i,
        {
            if self.pending_detaches.entries[i].1.terminal == terminal {
                proof {
                    crate::table::lemma_entry(self.pending_detaches.entries@, i as int);
                    let id = self.pending_detaches.entries@[i as int].0;
                    assert(self@.detaches.contains_key(id));
                }
                return true;
            }
            i += 1;
        }
        proof {
            if self@.barred(terminal) {
                let id = choose|id: u32| #[trigger]
                    self.pending_detaches@.contains_key(id) && self.pending_detaches@[id].terminal
                        == terminal;
                let entries = self.pending_detaches.entries@;
                let j = choose|j: int| 0 <= j < entries.len() && (#[trigger] entries[j]).0 == id;
                crate::table::lemma_entry(entries, j);
            }
        }
        false
    }

    /// Whether a request to stop a stream is `limit_ms` old or older.
    pub fn is_overdue(&self, now_ms: u64, limit_ms: u64) -> (overdue: bool)
        requires
            self.wf(),
        ensures
            overdue == self@.overdue(now_ms, limit_ms),
    {
        let mut i: usize = 0;
        while i < self.pending_detaches.entries.len()
            invariant
                self.wf(),
                i <= self.pending_detaches.entries@.len(),
                forall|j: int|
                    0 <= j < i ==> (#[trigger] self.pending_detaches.entries@[j]).1.issued_ms
                        + limit_ms > now_ms,
            decreases self.pending_detaches.entries@.len() - i,
        {
            let issued = self.pending_detaches.entries[i].1.issued_ms;
            if issued <= now_ms && now_ms - issued >= limit_ms {
                proof {
                    crate::table::lemma_entry(self.pending_detaches.entries@, i as int);
                    let id = self.pending_detaches.entries@[i as int].0;
                    assert(self@.detaches.contains_key(id));
                }
                return true;
            }
            i += 1;
        }
        proof {
            if self@.overdue(now_ms, limit_ms) {
                let id = choose|id: u32| #[trigger]
                    self.pending_detaches@.contains_key(id) && self.pending_detaches@[id].issued_ms
                        + limit_ms <= now_ms;
                let entries = self.pending_detaches.entries@;
                let j = choose|j: int| 0 <= j < entries.len() && (#[trigger] entries[j]).0 == id;
                crate::table::lemma_entry(entries, j);
            }
        }
        false
    }
}

/// The entries of `entries` whose reply nobody in `gone` waits for any more
/// are dropped; the first `n` are looked at.
pub open spec fn awaited_commands(
    entries: Seq<(u32, PendingCommand)>,
    n: nat,
    gone: Seq<ReplyId>,
) -> Seq<(u32, PendingCommand)>
    decreases n,
{
    if n == 0 || n > entries.len() {
        Seq::empty()
    } else {
        let before = awaited_commands(entries, (n - 1) as nat, gone);
        if gone.contains(entries[n - 1].1.reply) {
            before
        } else {
            before.push(entries[n - 1])
        }
    }
}

/// As `awaited_commands`, for spawns.
pub open spec fn awaited_spawns(entries: Seq<(u32, ReplyId)>, n: nat, gone: Seq<ReplyId>) -> Seq<
    (u32, ReplyId),
>
    decreases n,
{
    if n == 0 || n > entries.len() {
        Seq::empty()
    } else {
        let before = awaited_spawns(entries, (n - 1) as nat, gone);
        if gone.contains(entries[n - 1].1) {
            before
        } else {
            before.push(entries[n - 1])
        }
    }
}

fn has_left(gone: &Vec<ReplyId>, reply: ReplyId) -> (left: bool)
    ensures
        left == gone@.contains(reply),
{
    let mut i: usize = 0;
    while i < gone.len()
        invariant
            i <= gone@.len(),
            forall|j: int| 0 <= j < i ==> #[trigger] gone@[j] != reply,
        decreases gone@.len() - i,
    {
        if gone[i] == reply {
            return true;
        }
        i += 1;
    }
    false
}

pub open spec fn keys_within<V>(kept: Seq<(u32, V)>, entries: Seq<(u32, V)>, n: int) -> bool {
    forall|i: int|
        0 <= i < kept.len() ==> exists|j: int|
            0 <= j < n && (#[trigger] entries[j]).0 == (#[trigger] kept[i]).0
}

proof fn lemma_keep_entry<V>(kept: Seq<(u32, V)>, entries: Seq<(u32, V)>, n: int)
    requires
        0 <= n < entries.len(),
        crate::table::distinct_keys(entries),
        crate::table::distinct_keys(kept),
        keys_within(kept, entries, n),
    ensures
        crate::table::distinct_keys(kept.push(entries[n])),
        keys_within(kept.push(entries[n]), entries, n + 1),
        keys_within(kept, entries, n + 1),
{
    let after = kept.push(entries[n]);
    assert forall|i: int| 0 <= i < kept.len() implies exists|j: int|
        0 <= j < n + 1 && (#[trigger] entries[j]).0 == (#[trigger] kept[i]).0 by {
        let j = choose|j: int| 0 <= j < n && (#[trigger] entries[j]).0 == kept[i].0;
        assert(entries[j].0 == kept[i].0);
    }
    assert forall|i: int| 0 <= i < after.len() implies exists|j: int|
        0 <= j < n + 1 && (#[trigger] entries[j]).0 == (#[trigger] after[i]).0 by {
        if i < kept.len() {
            let j = choose|j: int| 0 <= j < n && (#[trigger] entries[j]).0 == kept[i].0;
            assert(entries[j].0 == after[i].0);
        } else {
            assert(entries[n].0 == after[i].0);
        }
    }
    assert forall|a: int, b: int|
        0 <= a < after.len() && 0 <= b < after.len() && (#[trigger] after[a]).0 == (
        #[trigger] after[b]).0 implies a == b by {
        if a < kept.len() && b < kept.len() {
            assert(kept[a].0 == kept[b].0);
        } else if a < kept.len() {
            let j = choose|j: int| 0 <= j < n && (#[trigger] entries[j]).0 == kept[a].0;
            assert(entries[j].0 == entries[n].0);
        } else if b < kept.len() {
            let j = choose|j: int| 0 <= j < n && (#[trigger] entries[j]).0 == kept[b].0;
            assert(entries[j].0 == entries[n].0);
        }
    }
}

impl RequestBook {
    /// Drop commands and spawns whose consumer stopped waiting; how many went.
    pub fn prune_abandoned(&mut self, gone: &Vec<ReplyId>) -> (pruned: usize)
        requires
            old(self).wf(),
            old(self).in_flight() <= usize::MAX,
        ensures
            final(self).wf(),
            final(self).next_request_id == old(self).next_request_id,
            final(self).pending_detaches == old(self).pending_detaches,
            final(self).pending_reads == old(self).pending_reads,
            final(self).pending.entries@ == awaited_commands(
                old(self).pending.entries@,
                old(self).pending.entries@.len(),
                gone@,
            ),
            final(self).pending_spawns.entries@ == awaited_spawns(
                old(self).pending_spawns.entries@,
                old(self).pending_spawns.entries@.len(),
                gone@,
            ),
            pruned == old(self).in_flight() - final(self).in_flight(),
    {
        let mut pruned: usize = 0;
        let ghost commands = self.pending.entries@;
        let ghost spawns = self.pending_spawns.entries@;
        let mut kept: Vec<(u32, PendingCommand)> = Vec::new();
        let mut i: usize = 0;
        while i < self.pending.entries.len()
            invariant
                *self == *old(self),
                self.wf(),
                self.in_flight() <= usize::MAX,
                commands == self.pending.entries@,
                i <= commands.len(),
                kept@ == awaited_commands(commands, i as nat, gone@),
                crate::table::distinct_keys(kept@),
                keys_within(kept@, commands, i as int),
                pruned + kept@.len() == i,
            decreases commands.len() - i,
        {
            proof {
                lemma_keep_entry(kept@, commands, i as int);
            }
            let entry = self.pending.entries[i];
            if has_left(gone, entry.1.reply) {
                pruned = pruned + 1;
            } else {
                kept.push(entry);
            }
            i += 1;
        }
        let mut kept_spawns: Vec<(u32, ReplyId)> = Vec::new();
        let mut k: usize = 0;
        while k < self.pending_spawns.entries.len()
            invariant
                *self == *old(self),
                self.wf(),
                self.in_flight() <= usize::MAX,
                commands == self.pending.entries@,
                spawns == self.pending_spawns.entries@,
                k <= spawns.len(),
                kept_spawns@ == awaited_spawns(spawns, k as nat, gone@),
                crate::table::distinct_keys(kept_spawns@),
                keys_within(kept_spawns@, spawns, k as int),
                pruned + kept@.len() + kept_spawns@.len() == commands.len() + k,
            decreases spawns.len() - k,
        {
            proof {
                lemma_keep_entry(kept_spawns@, spawns, k as int);
            }
            let entry = self.pending_spawns.entries[k];
            if has_left(gone, entry.1) {
                pruned = pruned + 1;
            } else {
                kept_spawns.push(entry);
            }
            k += 1;
        }
        self.pending.entries = kept;
        self.pending_spawns.entries = kept_spawns;
        pruned
    }
}

/// A request number never names two requests: a freshly taken one belongs to
/// no command, spawn, stream stop or record read in flight.
pub proof fn law_request_ids_are_unique(book: RequestsV, id: u32)
    requires
        book.first_unused(id),
    ensures
        !book.commands.contains_key(id),
        !book.spawns.contains_key(id),
        !book.detaches.contains_key(id),
        !book.reads.contains_key(id),
{
}

} // verus!
