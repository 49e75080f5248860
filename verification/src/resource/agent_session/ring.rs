//! The bounded record ring that a session retains and replays.
//!
//! One bound in bytes, pruning from the oldest end, and a count of what pruning
//! cost: a replay that silently starts mid-turn is indistinguishable from a
//! session that started there.

use crate::payload::contents;
use bytes::Bytes;
use std::collections::VecDeque;
use vstd::prelude::*;

verus! {

broadcast use vstd::std_specs::vecdeque::group_vec_dequeue_axioms;

/// A bounded queue of stamped records, pruned by total retained bytes.
#[derive(Debug)]
pub struct RecordRing {
    /// Retained records, oldest first, each a complete stamped line.
    pub records: VecDeque<Bytes>,
    /// The bytes of the retained records.
    pub bytes: usize,
    /// The most bytes to retain.
    pub ceiling: usize,
    /// How many records pruning has dropped.
    pub dropped: u64,
}

/// A ring as contracts speak of it.
#[verifier::ext_equal]
pub struct RingV {
    /// Retained records, oldest first.
    pub records: Seq<Seq<u8>>,
    /// The bytes of the retained records, as counted.
    pub bytes: int,
    /// The most bytes to retain.
    pub ceiling: int,
    /// How many records pruning has dropped.
    pub dropped: int,
}

impl View for RecordRing {
    type V = RingV;

    open spec fn view(&self) -> RingV {
        RingV {
            records: self.records@.map_values(|record: Bytes| contents(record)),
            bytes: self.bytes as int,
            ceiling: self.ceiling as int,
            dropped: self.dropped as int,
        }
    }
}

/// The bytes of some records.
pub open spec fn total(records: Seq<Seq<u8>>) -> int
    decreases records.len(),
{
    if records.len() == 0 {
        0
    } else {
        records[0].len() + total(records.drop_first())
    }
}

/// The sum of two counts that stops at the largest count.
pub open spec fn capped(sum: int, most: int) -> int {
    if sum > most {
        most
    } else {
        sum
    }
}

impl RingV {
    /// The ring after the oldest records were dropped: as few as bring it back
    /// under its ceiling, and never the newest.
    pub open spec fn pruned(self) -> RingV
        decreases self.records.len(),
    {
        if self.bytes > self.ceiling && self.records.len() > 1 {
            RingV {
                records: self.records.drop_first(),
                bytes: if self.records[0].len() > self.bytes {
                    0
                } else {
                    self.bytes - self.records[0].len()
                },
                dropped: capped(self.dropped + 1, u64::MAX as int),
                ..self
            }.pruned()
        } else {
            self
        }
    }

    /// The ring after `record` was appended.
    pub open spec fn pushed(self, record: Seq<u8>) -> RingV {
        RingV {
            records: self.records.push(record),
            bytes: capped(self.bytes + record.len(), usize::MAX as int),
            ..self
        }.pruned()
    }
}

impl RecordRing {
    /// A ring that retains at most `ceiling` bytes of records.
    pub fn new(ceiling: usize) -> (ring: Self)
        ensures
            ring@ == (RingV {
                records: Seq::empty(),
                bytes: 0,
                ceiling: ceiling as int,
                dropped: 0,
            }),
    {
        let ring = RecordRing { records: VecDeque::new(), bytes: 0, ceiling, dropped: 0 };
        assert(ring@.records =~= Seq::empty());
        ring
    }

    /// Append `record` and prune the oldest records back under the ceiling. The
    /// newest record is always retained, even where it alone exceeds the
    /// ceiling.
    pub fn push(&mut self, record: Bytes)
        ensures
            final(self)@ == old(self)@.pushed(contents(record)),
    {
        let ghost bytes = contents(record);
        self.bytes = self.bytes.saturating_add(record.len());
        self.records.push_back(record);
        assert(self@.records =~= old(self)@.records.push(bytes));
        while self.bytes > self.ceiling && self.records.len() > 1
            invariant
                self@.pruned() == old(self)@.pushed(bytes),
            decreases self.records@.len(),
        {
            let ghost before = self@;
            match self.records.pop_front() {
                Some(evicted) => {
                    assert(self@.records =~= before.records.drop_first());
                    self.bytes = self.bytes.saturating_sub(evicted.len());
                    self.dropped = self.dropped.saturating_add(1);
                    assert(contents(evicted) == before.records[0]);
                },
                None => {},
            }
        }
    }

    /// The retained records, oldest first.
    pub fn records(&self) -> (records: Vec<Bytes>)
        ensures
            records@ == self.records@,
    {
        let mut records: Vec<Bytes> = Vec::new();
        let mut i: usize = 0;
        while i < self.records.len()
            invariant
                i <= self.records@.len(),
                records@ == self.records@.take(i as int),
            decreases self.records@.len() - i,
        {
            records.push(self.records[i].clone());
            i += 1;
            assert(records@ =~= self.records@.take(i as int));
        }
        assert(self.records@.take(i as int) =~= self.records@);
        records
    }

    /// How many records pruning has dropped.
    pub fn dropped(&self) -> (dropped: u64)
        ensures
            dropped == self@.dropped,
    {
        self.dropped
    }

    /// The bytes of the retained records.
    pub fn bytes(&self) -> (bytes: usize)
        ensures
            bytes == self@.bytes,
    {
        self.bytes
    }

    /// How many records are retained.
    pub fn len(&self) -> (len: usize)
        ensures
            len == self@.records.len(),
    {
        self.records.len()
    }

    /// Whether nothing is retained.
    pub fn is_empty(&self) -> (empty: bool)
        ensures
            empty == (self@.records.len() == 0),
    {
        self.records.len() == 0
    }
}

proof fn lemma_total_push(records: Seq<Seq<u8>>, record: Seq<u8>)
    ensures
        total(records.push(record)) == total(records) + record.len(),
    decreases records.len(),
{
    if records.len() == 0 {
        reveal_with_fuel(total, 2);
        assert(records.push(record).drop_first() =~= Seq::empty());
    } else {
        lemma_total_push(records.drop_first(), record);
        assert(records.push(record).drop_first() =~= records.drop_first().push(record));
    }
}

proof fn lemma_pruned(ring: RingV)
    requires
        ring.bytes == total(ring.records),
        ring.dropped + ring.records.len() <= u64::MAX,
    ensures
        ({
            let after = ring.pruned();
            &&& after.bytes == total(after.records)
            &&& after.ceiling == ring.ceiling
            &&& after.bytes <= after.ceiling || after.records.len() <= 1
            &&& after.dropped + after.records.len() == ring.dropped + ring.records.len()
            &&& after.dropped >= ring.dropped
            &&& after.records == ring.records.skip(after.dropped - ring.dropped)
            &&& ring.records.len() > 0 ==> after.records.len() > 0
            &&& after.dropped > ring.dropped ==> total(
                ring.records.skip(after.dropped - ring.dropped - 1),
            ) > ring.ceiling
        }),
    decreases ring.records.len(),
{
    if ring.bytes > ring.ceiling && ring.records.len() > 1 {
        let next = RingV {
            records: ring.records.drop_first(),
            bytes: if ring.records[0].len() > ring.bytes {
                0
            } else {
                ring.bytes - ring.records[0].len()
            },
            dropped: capped(ring.dropped + 1, u64::MAX as int),
            ..ring
        };
        lemma_total_bounds(ring.records);
        lemma_pruned(next);
        let after = ring.pruned();
        assert(after == next.pruned());
        assert(after.records =~= ring.records.skip(after.dropped - ring.dropped));
        if after.dropped == next.dropped {
            assert(ring.records.skip(0) =~= ring.records);
        } else {
            assert(next.records.skip(after.dropped - next.dropped - 1) =~= ring.records.skip(
                after.dropped - ring.dropped - 1,
            ));
        }
    } else {
        assert(ring.records =~= ring.records.skip(0));
    }
}

proof fn lemma_total_bounds(records: Seq<Seq<u8>>)
    ensures
        total(records) >= 0,
        records.len() > 0 ==> total(records) >= records[0].len(),
    decreases records.len(),
{
    if records.len() > 0 {
        lemma_total_bounds(records.drop_first());
    }
}

/// A push keeps the count of bytes exact, keeps the ring under its ceiling or
/// down to its newest record, drops whole records from the oldest end alone,
/// and accounts for every record: what is retained and what was dropped add up.
pub proof fn law_retention_accounts_for_every_record(ring: RingV, record: Seq<u8>)
    requires
        ring.bytes == total(ring.records),
        ring.bytes + record.len() <= usize::MAX,
        ring.dropped + ring.records.len() < u64::MAX,
    ensures
        ({
            let after = ring.pushed(record);
            &&& after.bytes == total(after.records)
            &&& after.bytes <= after.ceiling || after.records.len() == 1
            &&& after.dropped + after.records.len() == ring.dropped + ring.records.len() + 1
            &&& after.records == ring.records.push(record).skip(after.dropped - ring.dropped)
            &&& after.records.last() == record
        }),
{
    lemma_total_push(ring.records, record);
    let grown = RingV {
        records: ring.records.push(record),
        bytes: capped(ring.bytes + record.len(), usize::MAX as int),
        ..ring
    };
    lemma_pruned(grown);
}

/// A push drops no more than it must: to keep one record more than it keeps
/// would exceed the ceiling.
pub proof fn law_retention_drops_no_more_than_needed(ring: RingV, record: Seq<u8>)
    requires
        ring.bytes == total(ring.records),
        ring.bytes + record.len() <= usize::MAX,
        ring.dropped + ring.records.len() < u64::MAX,
    ensures
        ({
            let after = ring.pushed(record);
            let dropped = after.dropped - ring.dropped;
            dropped > 0 ==> total(ring.records.push(record).skip(dropped - 1)) > ring.ceiling
        }),
{
    lemma_total_push(ring.records, record);
    lemma_pruned(
        RingV {
            records: ring.records.push(record),
            bytes: capped(ring.bytes + record.len(), usize::MAX as int),
            ..ring
        },
    );
}

/// Pruning moves records from what is retained to what was dropped, one for
/// one.
pub proof fn lemma_pruning_counts(ring: RingV)
    requires
        ring.dropped + ring.records.len() <= u64::MAX,
    ensures
        ring.pruned().dropped + ring.pruned().records.len() == ring.dropped + ring.records.len(),
    decreases ring.records.len(),
{
    if ring.bytes > ring.ceiling && ring.records.len() > 1 {
        lemma_pruning_counts(
            RingV {
                records: ring.records.drop_first(),
                bytes: if ring.records[0].len() > ring.bytes {
                    0
                } else {
                    ring.bytes - ring.records[0].len()
                },
                dropped: capped(ring.dropped + 1, u64::MAX as int),
                ..ring
            },
        );
    }
}

/// A record that fits beside what is retained drops nothing.
pub proof fn law_what_fits_is_kept(ring: RingV, record: Seq<u8>)
    requires
        ring.bytes + record.len() <= ring.ceiling <= usize::MAX,
    ensures
        ring.pushed(record) == (RingV {
            records: ring.records.push(record),
            bytes: ring.bytes + record.len(),
            ..ring
        }),
{
}

} // verus!
