//! One history generation: the records that were captured from a cut so far,
//! shared by every owner of the cut.

use super::cut::OpaqueHistoryCursor;
use super::error::{
    engine_failure, invalidation, invalidation_error, written_by, CaptureEvent, EngineError,
    NativeStateError,
};
use crate::payload::{
    allocated, charged_payload, contents, ChargedNativePayload, NativeGenerationCharge,
};
use bytes::Bytes;
use std::sync::Arc;
use vstd::prelude::*;

verus! {

/// The bounds of a generation.
#[derive(Debug, Clone, Copy, PartialEq, Eq, Structural)]
pub struct NativeGenerationBounds {
    /// The largest record.
    pub max_record_bytes: usize,
    /// The most rows of a record.
    pub max_rows: usize,
    /// The most records.
    pub max_records: usize,
    /// The most bytes of all records.
    pub max_total_bytes: usize,
}

/// The size of one slot for a record.
pub open spec fn slot_size() -> nat {
    vstd::layout::size_of::<Option<CachedNativeHistoryRecord>>()
}

impl NativeGenerationBounds {
    /// The bytes that a generation reserves: a slot for each record, and all
    /// their bytes.
    pub open spec fn reservation(self) -> int {
        self.max_records * slot_size() + self.max_total_bytes
    }

    /// The bytes that a generation reserves.
    pub fn required_reserved_bytes(self) -> (bytes: Result<usize, NativeStateError>)
        ensures
            match bytes {
                Ok(bytes) => bytes == self.reservation(),
                Err(error) => self.reservation() > usize::MAX && error
                    == NativeStateError::LimitExceeded,
            },
    {
        let slot: usize = std::mem::size_of::<Option<CachedNativeHistoryRecord>>();
        proof {
            assert(self.max_records * slot >= 0) by (nonlinear_arith)
                requires
                    self.max_records >= 0,
                    slot >= 0,
            ;
        }
        let table: usize = match self.max_records.checked_mul(slot) {
            Some(table) => table,
            None => {
                return Err(NativeStateError::LimitExceeded);
            },
        };
        match table.checked_add(self.max_total_bytes) {
            Some(bytes) => Ok(bytes),
            None => Err(NativeStateError::LimitExceeded),
        }
    }
}

/// One record of a generation. It does not change once it is there.
#[derive(Debug, PartialEq, Eq)]
pub struct CachedNativeHistoryRecord {
    /// Its bytes.
    pub bytes: Bytes,
    /// The rows it stands for.
    pub rows: usize,
    /// Whether it completes the history.
    pub finish: bool,
}

impl Clone for CachedNativeHistoryRecord {
    fn clone(&self) -> (copy: Self)
        ensures
            copy == *self,
    {
        CachedNativeHistoryRecord {
            bytes: self.bytes.clone(),
            rows: self.rows,
            finish: self.finish,
        }
    }
}

/// A record as contracts speak of it.
#[verifier::ext_equal]
pub struct RecordV {
    /// Its bytes.
    pub bytes: Seq<u8>,
    /// The rows it stands for.
    pub rows: usize,
    /// Whether it completes the history.
    pub finish: bool,
}

impl View for CachedNativeHistoryRecord {
    type V = RecordV;

    open spec fn view(&self) -> RecordV {
        RecordV { bytes: contents(self.bytes), rows: self.rows, finish: self.finish }
    }
}

impl RecordV {
    /// What a request gets of this record: all of it, or how much room it
    /// takes.
    pub open spec fn requested(self, max_bytes: int, max_rows: int) -> Result<
        RecordV,
        NativeStateError,
    > {
        if self.bytes.len() > max_bytes || self.rows > max_rows {
            Err(
                NativeStateError::OutOfSpace {
                    required_bytes: self.bytes.len() as usize,
                    required_rows: self.rows,
                },
            )
        } else {
            Ok(self)
        }
    }
}

/// A record behind a result, as contracts speak of it.
pub open spec fn record_view(
    record: Result<CachedNativeHistoryRecord, NativeStateError>,
) -> Result<RecordV, NativeStateError> {
    match record {
        Ok(record) => Ok(record@),
        Err(error) => Err(error),
    }
}

impl CachedNativeHistoryRecord {
    /// What a request gets of this record.
    pub fn for_request(&self, max_bytes: usize, max_rows: usize) -> (record: Result<
        Self,
        NativeStateError,
    >)
        ensures
            record_view(record) == self@.requested(max_bytes as int, max_rows as int),
            record matches Ok(record) ==> record == *self,
    {
        if self.bytes.len() > max_bytes || self.rows > max_rows {
            return Err(
                NativeStateError::OutOfSpace {
                    required_bytes: self.bytes.len(),
                    required_rows: self.rows,
                },
            );
        }
        Ok(self.clone())
    }
}

/// What the engine answered to an empty buffer.
#[derive(Debug, Clone, Copy, PartialEq, Eq, Structural)]
pub enum HistoryProbe {
    /// It looked further.
    Scan,
    /// Something happened that takes no bytes.
    Event(CaptureEvent),
    /// The next record takes so many bytes.
    Required(usize),
}

/// A generation.
#[derive(Debug)]
pub struct NativeCheckpointGeneration {
    records: Vec<CachedNativeHistoryRecord>,
    live: bool,
    failure: Option<NativeStateError>,
    pending: Vec<u8>,
    retained_bytes: usize,
    bounds: NativeGenerationBounds,
    owners: usize,
    charge: Arc<NativeGenerationCharge>,
}

/// A generation as contracts speak of it.
#[verifier::ext_equal]
pub struct GenerationV {
    /// The cursor of the cut.
    pub cursor: Seq<u8>,
    /// The records so far.
    pub records: Seq<RecordV>,
    /// Whether the cut can still be read from.
    pub live: bool,
    /// Why the cut was spent before its end, if it was.
    pub failure: Option<NativeStateError>,
    /// The bytes of the record that is being put together.
    pub pending: Seq<u8>,
    /// The bytes of all records.
    pub retained_bytes: int,
    /// The bounds.
    pub bounds: NativeGenerationBounds,
    /// The owners.
    pub owners: int,
}

/// The bytes of the first `n` records.
pub open spec fn bytes_of(records: Seq<RecordV>, n: nat) -> int
    decreases n,
{
    if n == 0 || n > records.len() {
        0
    } else {
        bytes_of(records, (n - 1) as nat) + records[n - 1].bytes.len()
    }
}

/// What became of a probe.
#[derive(Debug, Clone, Copy, PartialEq, Eq, Structural)]
pub enum Probed {
    /// It is dealt with.
    Settled,
    /// The record must be read, into so many bytes.
    Read {
        /// The bytes.
        required: usize,
    },
}

impl GenerationV {
    /// A generation of a fresh cut, with one owner.
    pub open spec fn fresh(cursor: Seq<u8>, bounds: NativeGenerationBounds) -> Self {
        GenerationV {
            cursor,
            records: Seq::empty(),
            live: true,
            failure: None,
            pending: Seq::empty(),
            retained_bytes: 0,
            bounds,
            owners: 1,
        }
    }

    /// The records keep to the bounds, the bytes are accounted for, and a cut
    /// that failed is not live.
    pub open spec fn valid(self) -> bool {
        &&& self.records.len() <= self.bounds.max_records
        &&& self.retained_bytes == bytes_of(self.records, self.records.len())
        &&& 0 <= self.retained_bytes <= self.bounds.max_total_bytes
        &&& forall|i: int|
            0 <= i < self.records.len() ==> (#[trigger] self.records[i]).bytes.len()
                <= self.bounds.max_record_bytes && self.records[i].rows <= self.bounds.max_rows
        &&& self.failure is Some ==> !self.live
        &&& 1 <= self.owners <= usize::MAX
    }

    /// The cut cannot go on, and why.
    pub open spec fn spent(self, error: NativeStateError) -> Self {
        GenerationV { live: false, failure: Some(error), ..self }
    }

    /// Whether what is pending fits as a record of `rows` rows.
    pub open spec fn fits(self, rows: int) -> bool {
        &&& self.retained_bytes + self.pending.len() <= self.bounds.max_total_bytes
        &&& self.pending.len() <= self.bounds.max_record_bytes
        &&& rows <= self.bounds.max_rows
        &&& self.records.len() < self.bounds.max_records
    }

    /// The generation after what is pending became a record.
    pub open spec fn stored(self, rows: usize, finish: bool) -> Self {
        GenerationV {
            records: self.records.push(RecordV { bytes: self.pending, rows, finish }),
            pending: Seq::empty(),
            retained_bytes: self.retained_bytes + self.pending.len(),
            ..self
        }
    }

    /// The generation after an engine event, and whether it failed.
    pub open spec fn on_event(self, event: CaptureEvent) -> (Self, Result<(), NativeStateError>) {
        match event {
            CaptureEvent::Scan => (self, Ok(())),
            CaptureEvent::Record { .. } => (self, Ok(())),
            CaptureEvent::HistoryPage { rows, .. } => if self.fits(rows as int) {
                (self.stored(rows, false), Ok(()))
            } else {
                (self, Err(NativeStateError::LimitExceeded))
            },
            CaptureEvent::Finish { .. } => if self.fits(0) {
                (GenerationV { live: false, ..self.stored(0, true) }, Ok(()))
            } else {
                (self, Err(NativeStateError::LimitExceeded))
            },
            CaptureEvent::Invalidated(reason) => (
                self.spent(invalidation(reason)),
                Err(invalidation(reason)),
            ),
            CaptureEvent::Ready { .. } => (
                self.spent(NativeStateError::InvalidState),
                Err(NativeStateError::InvalidState),
            ),
        }
    }

    /// The generation after the engine answered a probe.
    pub open spec fn on_probe(self, answer: Result<CaptureEvent, EngineError>) -> (
        Self,
        Result<Probed, NativeStateError>,
    ) {
        if !self.live {
            (self, Err(NativeStateError::InvalidHandle))
        } else {
            match answer {
                Err(error) => match error {
                    EngineError::OutOfSpace { required } => if required
                        > self.bounds.max_record_bytes {
                        (self, Err(NativeStateError::LimitExceeded))
                    } else {
                        (self, Ok(Probed::Read { required }))
                    },
                    _ => (self.spent(engine_failure(error)), Err(engine_failure(error))),
                },
                Ok(event) => if event.bytes() == 0 {
                    let (after, result) = self.on_event(event);
                    (
                        after,
                        match result {
                            Ok(_) => Ok(Probed::Settled),
                            Err(error) => Err(error),
                        },
                    )
                } else {
                    (
                        self.spent(NativeStateError::InvalidState),
                        Err(NativeStateError::InvalidState),
                    )
                },
            }
        }
    }

    /// The generation with `data` appended to what is pending.
    pub open spec fn gathered(self, data: Seq<u8>) -> Self {
        GenerationV { pending: self.pending + data, ..self }
    }

    /// The generation after the engine read a record into `scratch`, where
    /// what is pending takes `pending_capacity` and the buffer
    /// `scratch_capacity` bytes of memory.
    pub open spec fn on_read(
        self,
        answer: Result<CaptureEvent, EngineError>,
        scratch: Seq<u8>,
        pending_capacity: int,
        scratch_capacity: int,
    ) -> (Self, Result<(), NativeStateError>) {
        if !self.live {
            (self, Err(NativeStateError::InvalidHandle))
        } else {
            match answer {
                Err(error) => match error {
                    EngineError::OutOfSpace { .. } => (self, Err(engine_failure(error))),
                    _ => (self.spent(engine_failure(error)), Err(engine_failure(error))),
                },
                Ok(event) => {
                    let more = self.gathered(scratch.take(event.bytes() as int));
                    if self.retained_bytes + pending_capacity + scratch_capacity
                        > self.bounds.max_total_bytes {
                        (more, Err(NativeStateError::LimitExceeded))
                    } else {
                        more.on_event(event)
                    }
                },
            }
        }
    }

    /// What a request for record `index` gets now.
    pub open spec fn served(self, index: int, max_bytes: int, max_rows: int) -> Result<
        RecordV,
        NativeStateError,
    > {
        if index < self.records.len() {
            self.records[index].requested(max_bytes, max_rows)
        } else {
            match self.failure {
                Some(failure) => Err(failure),
                None => Err(NativeStateError::ImportBusy),
            }
        }
    }
}

proof fn lemma_bytes_of_prefix(records: Seq<RecordV>, more: RecordV, n: nat)
    requires
        n <= records.len(),
    ensures
        bytes_of(records.push(more), n) == bytes_of(records, n),
    decreases n,
{
    if n > 0 {
        lemma_bytes_of_prefix(records, more, (n - 1) as nat);
    }
}

impl View for NativeCheckpointGeneration {
    type V = GenerationV;

    closed spec fn view(&self) -> GenerationV {
        GenerationV {
            cursor: self.charge.cursor@,
            records: self.records@.map_values(|record: CachedNativeHistoryRecord| record@),
            live: self.live,
            failure: self.failure,
            pending: self.pending@,
            retained_bytes: self.retained_bytes as int,
            bounds: self.bounds,
            owners: self.owners as int,
        }
    }
}

impl NativeCheckpointGeneration {
    /// A generation of a fresh cut, with one owner.
    pub fn new(cursor: OpaqueHistoryCursor, bounds: NativeGenerationBounds) -> (generation: Self)
        ensures
            generation@ == GenerationV::fresh(cursor@, bounds),
            generation@.valid(),
    {
        let generation = NativeCheckpointGeneration {
            records: Vec::new(),
            live: true,
            failure: None,
            pending: Vec::new(),
            retained_bytes: 0,
            bounds,
            owners: 1,
            charge: Arc::new(NativeGenerationCharge { cursor }),
        };
        assert(generation@ =~= GenerationV::fresh(cursor@, bounds));
        generation
    }

    /// Whether the cut can still be read from.
    pub fn is_live(&self) -> (live: bool)
        ensures
            live == self@.live,
    {
        self.live
    }

    /// Why the cut was spent before its end, if it was.
    pub fn failure(&self) -> (failure: Option<NativeStateError>)
        ensures
            failure == self@.failure,
    {
        self.failure
    }

    /// What the payloads are charged to; the generation is gone, and its own
    /// handles to them.
    pub fn into_charge(self) -> (charge: Arc<NativeGenerationCharge>)
        ensures
            charge.cursor@ == self@.cursor,
    {
        self.charge
    }

    /// One more owner.
    pub fn retain(&mut self) -> (done: Result<(), NativeStateError>)
        requires
            old(self)@.valid(),
        ensures
            final(self)@.valid(),
            match done {
                Ok(_) => final(self)@ == (GenerationV {
                    owners: old(self)@.owners + 1,
                    ..old(self)@
                }),
                Err(error) => old(self)@.owners == usize::MAX && error
                    == NativeStateError::LimitExceeded && final(self)@ == old(self)@,
            },
    {
        match self.owners.checked_add(1) {
            Some(owners) => {
                self.owners = owners;
                Ok(())
            },
            None => Err(NativeStateError::LimitExceeded),
        }
    }

    /// One owner less; whether it was the last.
    pub fn release(&mut self) -> (last: bool)
        requires
            old(self)@.valid(),
        ensures
            last == (old(self)@.owners == 1),
            !last ==> final(self)@.valid(),
            final(self)@ == (GenerationV { owners: old(self)@.owners - 1, ..old(self)@ }),
    {
        self.owners = self.owners - 1;
        self.owners == 0
    }

    /// Give up a cut that cannot go on, and keep the reason for every later
    /// request.
    fn spend(&mut self, error: NativeStateError) -> (reason: NativeStateError)
        ensures
            reason == error,
            final(self)@ == old(self)@.spent(error),
    {
        self.live = false;
        self.failure = Some(error);
        error
    }

    fn store_history_record(&mut self, rows: usize, finish: bool) -> (done: Result<
        (),
        NativeStateError,
    >)
        requires
            old(self)@.valid(),
        ensures
            final(self)@.valid(),
            if old(self)@.fits(rows as int) {
                done == Ok::<(), NativeStateError>(()) && final(self)@ == old(self)@.stored(
                    rows,
                    finish,
                )
            } else {
                done == Err::<(), NativeStateError>(NativeStateError::LimitExceeded)
                    && final(self)@ == old(self)@
            },
    {
        let ghost before = self@;
        let next_bytes: usize = match self.retained_bytes.checked_add(self.pending.len()) {
            Some(bytes) => bytes,
            None => {
                return Err(NativeStateError::LimitExceeded);
            },
        };
        if next_bytes > self.bounds.max_total_bytes {
            return Err(NativeStateError::LimitExceeded);
        }
        if self.pending.len() > self.bounds.max_record_bytes || rows > self.bounds.max_rows
            || self.records.len() >= self.bounds.max_records {
            return Err(NativeStateError::LimitExceeded);
        }
        let mut payload: Vec<u8> = Vec::new();
        std::mem::swap(&mut payload, &mut self.pending);
        let payload = ChargedNativePayload { bytes: payload, charge: self.charge.clone() };
        let record = CachedNativeHistoryRecord { bytes: charged_payload(payload), rows, finish };
        let ghost added = record@;
        let ghost records = self.records@;
        self.records.push(record);
        self.retained_bytes = next_bytes;
        proof {
            assert(self@.records =~= before.records.push(added));
            lemma_bytes_of_prefix(before.records, added, before.records.len());
            assert(self@ =~= before.stored(rows, finish));
        }
        Ok(())
    }

    fn store_history_event(&mut self, event: CaptureEvent) -> (done: Result<(), NativeStateError>)
        requires
            old(self)@.valid(),
        ensures
            final(self)@.valid(),
            (final(self)@, done) == old(self)@.on_event(event),
    {
        let ghost before = self@;
        match event {
            CaptureEvent::Scan => Ok(()),
            CaptureEvent::Record { .. } => Ok(()),
            CaptureEvent::HistoryPage { rows, .. } => self.store_history_record(rows, false),
            CaptureEvent::Finish { .. } => {
                match self.store_history_record(0, true) {
                    Ok(_) => {
                        self.live = false;
                        assert(self@ =~= GenerationV { live: false, ..before.stored(0, true) });
                        Ok(())
                    },
                    Err(error) => Err(error),
                }
            },
            CaptureEvent::Invalidated(reason) => {
                let error = self.spend(invalidation_error(reason));
                Err(error)
            },
            CaptureEvent::Ready { .. } => {
                let error = self.spend(NativeStateError::InvalidState);
                Err(error)
            },
        }
    }

    fn probe_history_capture(&mut self, answer: Result<CaptureEvent, EngineError>) -> (probe:
        Result<HistoryProbe, NativeStateError>)
        requires
            old(self)@.valid(),
        ensures
            final(self)@.valid(),
            ({
                let before = old(self)@;
                if !before.live {
                    final(self)@ == before && probe == Err::<HistoryProbe, NativeStateError>(
                        NativeStateError::InvalidHandle,
                    )
                } else {
                    match answer {
                        Err(EngineError::OutOfSpace { required }) => final(self)@ == before
                            && probe == Ok::<HistoryProbe, NativeStateError>(
                            HistoryProbe::Required(required),
                        ),
                        Ok(CaptureEvent::Scan) => final(self)@ == before && probe == Ok::<
                            HistoryProbe,
                            NativeStateError,
                        >(HistoryProbe::Scan),
                        Ok(event) => if event.bytes() == 0 {
                            final(self)@ == before && probe == Ok::<HistoryProbe, NativeStateError>(
                                HistoryProbe::Event(event),
                            )
                        } else {
                            final(self)@ == before.spent(NativeStateError::InvalidState) && probe
                                == Err::<HistoryProbe, NativeStateError>(
                                NativeStateError::InvalidState,
                            )
                        },
                        Err(error) => final(self)@ == before.spent(engine_failure(error)) && probe
                            == Err::<HistoryProbe, NativeStateError>(engine_failure(error)),
                    }
                }
            }),
    {
        if !self.live {
            return Err(NativeStateError::InvalidHandle);
        }
        match answer {
            Err(error) => match error {
                EngineError::OutOfSpace { required } => Ok(HistoryProbe::Required(required)),
                _ => {
                    let reason = self.spend(NativeStateError::from(error));
                    Err(reason)
                },
            },
            Ok(event) => match event {
                CaptureEvent::Scan => Ok(HistoryProbe::Scan),
                _ => if event.written() == 0 {
                    Ok(HistoryProbe::Event(event))
                } else {
                    let reason = self.spend(NativeStateError::InvalidState);
                    Err(reason)
                },
            },
        }
    }

    /// The engine answered a probe with an empty buffer.
    pub fn probed(&mut self, answer: Result<CaptureEvent, EngineError>) -> (result: Result<
        Probed,
        NativeStateError,
    >)
        requires
            old(self)@.valid(),
        ensures
            final(self)@.valid(),
            (final(self)@, result) == old(self)@.on_probe(answer),
    {
        let required: usize = match self.probe_history_capture(answer) {
            Ok(HistoryProbe::Scan) => {
                return Ok(Probed::Settled);
            },
            Ok(HistoryProbe::Event(event)) => {
                return match self.store_history_event(event) {
                    Ok(_) => Ok(Probed::Settled),
                    Err(error) => Err(error),
                };
            },
            Ok(HistoryProbe::Required(required)) => required,
            Err(error) => {
                return Err(error);
            },
        };
        if required > self.bounds.max_record_bytes {
            return Err(NativeStateError::LimitExceeded);
        }
        Ok(Probed::Read { required })
    }

    fn read_history_capture(&mut self, answer: Result<CaptureEvent, EngineError>) -> (event: Result<
        CaptureEvent,
        NativeStateError,
    >)
        requires
            old(self)@.valid(),
        ensures
            final(self)@.valid(),
            ({
                let before = old(self)@;
                if !before.live {
                    final(self)@ == before && event == Err::<CaptureEvent, NativeStateError>(
                        NativeStateError::InvalidHandle,
                    )
                } else {
                    match answer {
                        Ok(read) => final(self)@ == before && event == Ok::<
                            CaptureEvent,
                            NativeStateError,
                        >(read),
                        Err(error) => event == Err::<CaptureEvent, NativeStateError>(
                            engine_failure(error),
                        ) && final(self)@ == (if error is OutOfSpace {
                            before
                        } else {
                            before.spent(engine_failure(error))
                        }),
                    }
                }
            }),
    {
        if !self.live {
            return Err(NativeStateError::InvalidHandle);
        }
        match answer {
            Ok(event) => Ok(event),
            Err(error) => match error {
                EngineError::OutOfSpace { required } => Err(
                    NativeStateError::OutOfSpace { required_bytes: required, required_rows: 0 },
                ),
                _ => {
                    let reason = self.spend(NativeStateError::from(error));
                    Err(reason)
                },
            },
        }
    }

    /// Add what the engine wrote to the record that is being put together.
    fn gather(&mut self, scratch: &[u8], written: usize)
        requires
            written <= scratch@.len(),
        ensures
            final(self)@ == old(self)@.gathered(scratch@.take(written as int)),
            final(self).pending@.len() == old(self).pending@.len() + written,
    {
        let ghost mid = *self;
        self.pending.reserve(written);
        let mut i: usize = 0;
        while i < written
            invariant
                i <= written <= scratch@.len(),
                self.records == mid.records,
                self.live == mid.live,
                self.failure == mid.failure,
                self.retained_bytes == mid.retained_bytes,
                self.bounds == mid.bounds,
                self.owners == mid.owners,
                self.charge == mid.charge,
                self.pending@ == mid.pending@ + scratch@.take(i as int),
            decreases written - i,
        {
            self.pending.push(scratch[i]);
            i += 1;
            assert(self.pending@ =~= mid.pending@ + scratch@.take(i as int));
        }
        assert(self@ =~= mid@.gathered(scratch@.take(written as int)));
    }

    /// Store what was gathered, where the memory that it and the buffer take
    /// keeps within the bounds.
    fn settle(&mut self, event: CaptureEvent, pending_capacity: usize, scratch_capacity: usize) -> (
    result: Result<(), NativeStateError>)
        requires
            old(self)@.valid(),
        ensures
            final(self)@.valid(),
            (final(self)@, result) == (if old(self)@.retained_bytes + pending_capacity
                + scratch_capacity > old(self)@.bounds.max_total_bytes {
                (old(self)@, Err(NativeStateError::LimitExceeded))
            } else {
                old(self)@.on_event(event)
            }),
    {
        let over = match self.retained_bytes.checked_add(pending_capacity) {
            Some(bytes) => match bytes.checked_add(scratch_capacity) {
                Some(bytes) => bytes > self.bounds.max_total_bytes,
                None => true,
            },
            None => true,
        };
        if over {
            Err(NativeStateError::LimitExceeded)
        } else {
            self.store_history_event(event)
        }
    }

    /// The engine read a record into `scratch`, a buffer that takes
    /// `scratch_capacity` bytes of memory; what is gathered takes
    /// `pending_capacity`.
    pub fn read_with_capacity(
        &mut self,
        answer: Result<CaptureEvent, EngineError>,
        scratch: &[u8],
        pending_capacity: usize,
        scratch_capacity: usize,
    ) -> (result: Result<(), NativeStateError>)
        requires
            old(self)@.valid(),
            answer matches Ok(event) ==> event.bytes() <= scratch@.len(),
        ensures
            final(self)@.valid(),
            (final(self)@, result) == old(self)@.on_read(
                answer,
                scratch@,
                pending_capacity as int,
                scratch_capacity as int,
            ),
    {
        let event = match self.read_history_capture(answer) {
            Ok(event) => event,
            Err(error) => {
                return Err(error);
            },
        };
        self.gather(scratch, event.written());
        self.settle(event, pending_capacity, scratch_capacity)
    }

    /// The engine read a record into `scratch`, a buffer that takes
    /// `scratch_capacity` bytes of memory.
    pub fn read(
        &mut self,
        answer: Result<CaptureEvent, EngineError>,
        scratch: &[u8],
        scratch_capacity: usize,
    ) -> (result: Result<(), NativeStateError>)
        requires
            old(self)@.valid(),
            answer matches Ok(event) ==> event.bytes() <= scratch@.len(),
        ensures
            final(self)@.valid(),
            exists|pending_capacity: int|
                pending_capacity >= old(self)@.pending.len() + written_by(answer)
                    && (final(self)@, result)
                    == #[trigger] old(self)@.on_read(
                    answer,
                    scratch@,
                    pending_capacity,
                    scratch_capacity as int,
                ),
    {
        let ghost before = self@;
        let event = match self.read_history_capture(answer) {
            Ok(event) => event,
            Err(error) => {
                proof {
                    let least = before.pending.len() + written_by(answer);
                    assert((self@, Err::<(), NativeStateError>(error)) == before.on_read(
                        answer,
                        scratch@,
                        least,
                        scratch_capacity as int,
                    ));
                }
                return Err(error);
            },
        };
        self.gather(scratch, event.written());
        let pending_capacity: usize = allocated(&self.pending);
        let result = self.settle(event, pending_capacity, scratch_capacity);
        assert((self@, result) == before.on_read(
            answer,
            scratch@,
            pending_capacity as int,
            scratch_capacity as int,
        ));
        result
    }

    /// What a request for record `index` gets now.
    pub fn serve(&self, index: usize, max_bytes: usize, max_rows: usize) -> (record: Result<
        CachedNativeHistoryRecord,
        NativeStateError,
    >)
        ensures
            record_view(record) == self@.served(index as int, max_bytes as int, max_rows as int),
    {
        if index < self.records.len() {
            let record = self.records[index].for_request(max_bytes, max_rows);
            assert(self@.records[index as int] == self.records@[index as int]@);
            record
        } else {
            match self.failure {
                Some(failure) => Err(failure),
                None => Err(NativeStateError::ImportBusy),
            }
        }
    }

    /// Whether record `index` is there.
    pub fn holds(&self, index: usize) -> (there: bool)
        ensures
            there == (index < self@.records.len()),
    {
        index < self.records.len()
    }
}

/// Records are append-only: whatever the engine answers, what was captured
/// stays, and a request for it is served the same.
pub proof fn law_records_are_append_only(
    generation: GenerationV,
    event: CaptureEvent,
    index: int,
)
    requires
        0 <= index < generation.records.len(),
    ensures
        ({
            let (after, _) = generation.on_event(event);
            &&& after.records.len() >= generation.records.len()
            &&& after.records[index] == generation.records[index]
            &&& forall|max_bytes: int, max_rows: int| #[trigger]
                after.served(index, max_bytes, max_rows) == generation.served(
                    index,
                    max_bytes,
                    max_rows,
                )
        }),
{
}

/// Once the engine gave up a cut, every later request past its frontier gets
/// the engine's reason, whoever asks.
pub proof fn law_every_owner_gets_the_reason(
    generation: GenerationV,
    error: NativeStateError,
    index: int,
    max_bytes: int,
    max_rows: int,
)
    requires
        index >= generation.records.len(),
    ensures
        generation.spent(error).served(index, max_bytes, max_rows) == Err::<
            RecordV,
            NativeStateError,
        >(error),
        !generation.spent(error).live,
{
}

/// A generation keeps within its bounds, whatever the engine answers.
pub proof fn law_generations_keep_within_bounds(generation: GenerationV, event: CaptureEvent)
    requires
        generation.valid(),
    ensures
        generation.on_event(event).0.valid(),
{
    match event {
        CaptureEvent::HistoryPage { rows, .. } => {
            lemma_bytes_of_prefix(
                generation.records,
                RecordV { bytes: generation.pending, rows, finish: false },
                generation.records.len(),
            );
        },
        CaptureEvent::Finish { .. } => {
            lemma_bytes_of_prefix(
                generation.records,
                RecordV { bytes: generation.pending, rows: 0, finish: true },
                generation.records.len(),
            );
        },
        _ => {},
    }
}

} // verus!
