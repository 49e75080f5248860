//! The cuts of one terminal: the prefix that is being captured, and the
//! generations that are served.
//!
//! A prefix capture takes the terminal away until it is finished or aborted.
//! A finished capture leaves a cut; the cut becomes a generation when it is
//! installed, and every owner of the generation shares its records.

use super::capture::{
    least, NativeCheckpointChunk, NativeCheckpointChunkKind, MAX_NATIVE_PREFIX_BYTES,
    MAX_NATIVE_PREFIX_CHUNKS,
};
use super::cut::{cursor_for, sha256, OpaqueHistoryCursor};
use super::error::{engine_failure, written_by, CaptureEvent, EngineError, NativeStateError};
use super::generation::{
    record_view, CachedNativeHistoryRecord, GenerationV, NativeCheckpointGeneration,
    NativeGenerationBounds, Probed, RecordV,
};
use crate::assoc::Assoc;
use crate::payload::{handles, NativeGenerationCharge};
use crate::wire::{BootstrapLimits, EngineCodec};
use std::sync::Arc;
use vstd::prelude::*;
use vstd::slice::*;

verus! {

/// What a prefix capture asks of the engine.
#[derive(Debug, Clone, Copy, PartialEq, Eq, Structural)]
pub struct CaptureOptions {
    /// The largest record.
    pub max_record_bytes: usize,
    /// The most pages.
    pub max_pages: usize,
}

/// A cut that is not installed yet.
#[derive(Debug, PartialEq, Eq)]
pub struct NativeGenerationSeed {
    bounds: NativeGenerationBounds,
}

impl NativeGenerationSeed {
    /// The bounds of the generation that the cut will be.
    pub closed spec fn spec_bounds(&self) -> NativeGenerationBounds {
        self.bounds
    }

    /// The bounds of the generation that the cut will be.
    pub fn bounds(&self) -> (bounds: NativeGenerationBounds)
        ensures
            bounds == self.spec_bounds(),
    {
        self.bounds
    }
}

/// A prefix capture under way.
#[derive(Debug)]
pub struct NativeManagedCapture {
    hashed: Vec<u8>,
    generation: u64,
    bounds: NativeGenerationBounds,
    ready: bool,
}

/// A prefix capture as contracts speak of it.
#[verifier::ext_equal]
pub struct ManagedV {
    /// The records so far.
    pub prefix: Seq<u8>,
    /// The number that tells this capture from every other.
    pub generation: u64,
    /// The bounds of the generation that the cut will be.
    pub bounds: NativeGenerationBounds,
    /// Whether READY was captured.
    pub ready: bool,
}

impl View for NativeManagedCapture {
    type V = ManagedV;

    closed spec fn view(&self) -> ManagedV {
        ManagedV {
            prefix: self.hashed@,
            generation: self.generation,
            bounds: self.bounds,
            ready: self.ready,
        }
    }
}

impl ManagedV {
    /// What the cut's cursor is the digest of: the prefix and the number.
    pub open spec fn named_by(self) -> Seq<u8> {
        self.prefix + vstd::bytes::spec_u64_to_le_bytes(self.generation)
    }

    /// The capture after the engine wrote a record into `buffer`.
    pub open spec fn stepped(self, event: CaptureEvent, buffer: Seq<u8>) -> Self {
        ManagedV {
            prefix: self.prefix + buffer.take(event.bytes() as int),
            ready: self.ready || event is Ready,
            ..self
        }
    }
}

impl NativeManagedCapture {
    /// The largest record.
    pub fn max_record_bytes(&self) -> (bound: usize)
        ensures
            bound == self@.bounds.max_record_bytes,
    {
        self.bounds.max_record_bytes
    }

    /// The engine wrote its next record into `buffer`.
    pub fn step<'buffer>(
        &mut self,
        answer: Result<CaptureEvent, EngineError>,
        buffer: &'buffer [u8],
    ) -> (chunk: Result<NativeCheckpointChunk<'buffer>, NativeStateError>)
        requires
            answer matches Ok(event) ==> event.bytes() <= buffer@.len(),
        ensures
            ({
                let before = old(self)@;
                if before.ready {
                    &&& final(self)@ == before
                    &&& chunk matches Err(error)
                    &&& error == NativeStateError::InvalidState
                } else {
                    match answer {
                        Err(failure) => {
                            &&& final(self)@ == before
                            &&& chunk matches Err(error)
                            &&& error == engine_failure(failure)
                        },
                        Ok(event) => {
                            &&& final(self)@ == before.stepped(event, buffer@)
                            &&& if event is Ready || event is Record {
                                chunk matches Ok(chunk) && chunk.bytes@ == buffer@.take(
                                    event.bytes() as int,
                                ) && chunk.codec_version == EngineCodec::LibghosttySnapshotV1 && (
                                chunk.kind is Ready) == (event is Ready)
                            } else {
                                chunk matches Err(error) && error == NativeStateError::InvalidState
                            }
                        },
                    }
                }
            }),
    {
        if self.ready {
            return Err(NativeStateError::InvalidState);
        }
        let event = match answer {
            Ok(event) => event,
            Err(error) => {
                return Err(NativeStateError::from(error));
            },
        };
        let ghost before = *self;
        let written: usize = event.written();
        let mut i: usize = 0;
        while i < written
            invariant
                i <= written <= buffer@.len(),
                self.generation == before.generation,
                self.bounds == before.bounds,
                self.ready == before.ready,
                self.hashed@ == before.hashed@ + buffer@.take(i as int),
            decreases written - i,
        {
            self.hashed.push(buffer[i]);
            i += 1;
            assert(self.hashed@ =~= before.hashed@ + buffer@.take(i as int));
        }
        let kind = match event {
            CaptureEvent::Ready { .. } => {
                self.ready = true;
                NativeCheckpointChunkKind::Ready
            },
            CaptureEvent::Record { .. } => NativeCheckpointChunkKind::Record,
            _ => {
                return Err(NativeStateError::InvalidState);
            },
        };
        let bytes = slice_subrange(buffer, 0, written);
        assert(bytes@ =~= buffer@.take(written as int));
        Ok(
            NativeCheckpointChunk {
                kind,
                codec_version: EngineCodec::LibghosttySnapshotV1,
                bytes,
            },
        )
    }
}

/// The cuts of one terminal.
#[derive(Debug)]
pub struct NativeTerminalManager {
    generations: Assoc<OpaqueHistoryCursor, NativeCheckpointGeneration>,
    retired: Vec<Arc<NativeGenerationCharge>>,
    capacity: usize,
    capture_active: bool,
    next_generation: u64,
}

/// The cuts of one terminal as contracts speak of them.
#[verifier::ext_equal]
pub struct ManagerV {
    /// The generations, by cursor.
    pub generations: Map<Seq<u8>, GenerationV>,
    /// The generations that are gone and were still charged for when last
    /// looked at, by cursor.
    pub retired: Seq<Seq<u8>>,
    /// The most generations, those that are gone included while they are charged
    /// for.
    pub capacity: usize,
    /// Whether a prefix capture holds the terminal.
    pub capture_active: bool,
    /// The number of the next capture.
    pub next_generation: u64,
}

impl View for NativeTerminalManager {
    type V = ManagerV;

    closed spec fn view(&self) -> ManagerV {
        ManagerV {
            generations: self.generations@.map_values(
                |generation: NativeCheckpointGeneration| generation@,
            ),
            retired: charge_cursors(self.retired@),
            capacity: self.capacity,
            capture_active: self.capture_active,
            next_generation: self.next_generation,
        }
    }
}

/// The generations that charges stand for.
pub open spec fn charge_cursors(charges: Seq<Arc<NativeGenerationCharge>>) -> Seq<Seq<u8>> {
    charges.map_values(|charge: Arc<NativeGenerationCharge>| charge.cursor@)
}

/// Those of the first `n` generations that are held.
pub open spec fn held_among(retired: Seq<Seq<u8>>, held: Seq<bool>, n: nat) -> Seq<Seq<u8>>
    decreases n,
{
    if n == 0 || n > held.len() {
        Seq::empty()
    } else {
        let before = held_among(retired, held, (n - 1) as nat);
        if held[n - 1] {
            before.push(retired[n - 1])
        } else {
            before
        }
    }
}

/// Whether anybody else holds a payload, by the number of handles to what it is
/// charged to.
pub open spec fn charged(handles: Seq<usize>) -> Seq<bool> {
    handles.map_values(|count: usize| count > 1)
}

/// Whether `order` names every one of `cursors`, each once.
pub open spec fn lists(order: Seq<Seq<u8>>, cursors: Set<Seq<u8>>) -> bool {
    &&& order.len() == cursors.len()
    &&& forall|cursor: Seq<u8>| #[trigger] cursors.contains(cursor) <==> order.contains(cursor)
}

/// What a request for a history record needs next.
#[derive(Debug)]
pub enum HistoryStep {
    /// Nothing: here it is.
    Record(CachedNativeHistoryRecord),
    /// The engine must be asked with an empty buffer.
    Probe,
    /// The engine must read into a buffer.
    Read {
        /// The bytes the buffer takes.
        required: usize,
    },
}

/// A history step as contracts speak of it.
#[verifier::ext_equal]
pub enum StepV {
    /// Nothing: here it is.
    Record(RecordV),
    /// The engine must be asked with an empty buffer.
    Probe,
    /// The engine must read into a buffer of so many bytes.
    Read(usize),
}

/// A history step behind a result, as contracts speak of it.
pub open spec fn step_view(step: Result<HistoryStep, NativeStateError>) -> Result<
    StepV,
    NativeStateError,
> {
    match step {
        Ok(HistoryStep::Record(record)) => Ok(StepV::Record(record@)),
        Ok(HistoryStep::Probe) => Ok(StepV::Probe),
        Ok(HistoryStep::Read { required }) => Ok(StepV::Read(required)),
        Err(error) => Err(error),
    }
}

/// A served record as a history step.
pub open spec fn served_step(record: Result<RecordV, NativeStateError>) -> Result<
    StepV,
    NativeStateError,
> {
    match record {
        Ok(record) => Ok(StepV::Record(record)),
        Err(error) => Err(error),
    }
}

/// The options of a capture, or why there can be none.
pub open spec fn capture_plan(
    capture_active: bool,
    next_generation: u64,
    limits: BootstrapLimits,
    max_prefix_bytes: int,
    max_prefix_chunks: int,
) -> Result<CaptureOptions, NativeStateError> {
    if capture_active || max_prefix_chunks == 0 || max_prefix_bytes == 0 {
        Err(NativeStateError::InvalidState)
    } else if next_generation == u64::MAX {
        Err(NativeStateError::LimitExceeded)
    } else {
        Ok(
            CaptureOptions {
                max_record_bytes: if limits.max_history_page_bytes == 0 {
                    1
                } else {
                    least(limits.max_history_page_bytes as int, max_prefix_bytes) as usize
                },
                max_pages: least(max_prefix_chunks, MAX_NATIVE_PREFIX_CHUNKS as int) as usize,
            },
        )
    }
}

impl ManagerV {
    /// The generations are valid, and each is the one its cursor names.
    pub open spec fn valid(self) -> bool {
        &&& forall|cursor: Seq<u8>| #[trigger]
            self.generations.contains_key(cursor) ==> self.generations[cursor].valid()
            && self.generations[cursor].cursor == cursor
        &&& self.generations.dom().finite()
    }

    /// The manager after it was looked at which of the generations that are gone
    /// are still charged for.
    pub open spec fn reaped(self, held: Seq<bool>) -> Self {
        ManagerV { retired: held_among(self.retired, held, held.len()), ..self }
    }

    /// Installing a cut with bounds `cut` under `cursor`, where `held` says which
    /// of the generations that are gone are still charged for.
    pub open spec fn installed(
        self,
        cursor: Seq<u8>,
        cut: NativeGenerationBounds,
        bounds: NativeGenerationBounds,
        reserved_bytes: int,
        held: Seq<bool>,
    ) -> (Self, Result<(), NativeStateError>) {
        let reaped = self.reaped(held);
        if bounds.reservation() > usize::MAX {
            (self, Err(NativeStateError::LimitExceeded))
        } else if reaped.retained() >= self.capacity || self.generations.contains_key(cursor)
            || bounds != cut || reserved_bytes < bounds.reservation() {
            (reaped, Err(NativeStateError::LimitExceeded))
        } else {
            (reaped.with(cursor, GenerationV::fresh(cursor, bounds)), Ok(()))
        }
    }

    /// Letting one owner of the generation under `cursor` go, where `held` says
    /// whether anybody else holds one of its payloads.
    pub open spec fn released(self, cursor: Seq<u8>, held: bool) -> (
        Self,
        Result<(), NativeStateError>,
    ) {
        if !self.generations.contains_key(cursor) {
            (self, Err(NativeStateError::InvalidHandle))
        } else {
            let generation = self.generations[cursor];
            if generation.owners > 1 {
                (
                    self.with(cursor, GenerationV { owners: generation.owners - 1, ..generation }),
                    Ok(()),
                )
            } else {
                (
                    ManagerV {
                        generations: self.generations.remove(cursor),
                        retired: if held {
                            self.retired.push(cursor)
                        } else {
                            self.retired
                        },
                        ..self
                    },
                    Ok(()),
                )
            }
        }
    }

    /// The manager after the engine read the record of a request, and what the
    /// request gets.
    pub open spec fn read(
        self,
        cursor: Seq<u8>,
        index: int,
        max_bytes: int,
        max_rows: int,
        answer: Result<CaptureEvent, EngineError>,
        scratch: Seq<u8>,
        pending_capacity: int,
        scratch_capacity: int,
    ) -> (Self, Result<RecordV, NativeStateError>) {
        if !self.generations.contains_key(cursor) {
            (self, Err(NativeStateError::InvalidHandle))
        } else {
            let (after, read) = self.generations[cursor].on_read(
                answer,
                scratch,
                pending_capacity,
                scratch_capacity,
            );
            (
                self.with(cursor, after),
                match read {
                    Ok(_) => after.served(index, max_bytes, max_rows),
                    Err(error) => Err(error),
                },
            )
        }
    }

    /// The manager with every generation gone, one after the other in `order`,
    /// before it is looked at which are still charged for.
    pub open spec fn emptied(self, order: Seq<Seq<u8>>) -> Self {
        ManagerV {
            generations: Map::empty(),
            retired: self.retired + order,
            ..self
        }
    }

    /// The generations that count against the capacity.
    pub open spec fn retained(self) -> nat {
        self.generations.len() + self.retired.len()
    }

    /// The manager with another generation under `cursor`.
    pub open spec fn with(self, cursor: Seq<u8>, generation: GenerationV) -> Self {
        ManagerV { generations: self.generations.insert(cursor, generation), ..self }
    }

    /// The options of a capture, or why there can be none.
    pub open spec fn options(
        self,
        limits: BootstrapLimits,
        max_prefix_bytes: int,
        max_prefix_chunks: int,
    ) -> Result<CaptureOptions, NativeStateError> {
        capture_plan(
            self.capture_active,
            self.next_generation,
            limits,
            max_prefix_bytes,
            max_prefix_chunks,
        )
    }

    /// What a request for record `index` under `cursor` needs next.
    pub open spec fn request(
        self,
        cursor: Seq<u8>,
        index: int,
        max_bytes: int,
        max_rows: int,
    ) -> Result<StepV, NativeStateError> {
        if max_bytes == 0 || max_rows == 0 {
            Err(NativeStateError::LimitExceeded)
        } else if !self.generations.contains_key(cursor) {
            Err(NativeStateError::InvalidHandle)
        } else {
            let generation = self.generations[cursor];
            if index < generation.records.len() {
                served_step(generation.served(index, max_bytes, max_rows))
            } else {
                match generation.failure {
                    Some(failure) => Err(failure),
                    None => if !generation.live {
                        Err(NativeStateError::InvalidHandle)
                    } else if self.capture_active {
                        Err(NativeStateError::ImportBusy)
                    } else {
                        Ok(StepV::Probe)
                    },
                }
            }
        }
    }
}

/// The bounds of the generation that a capture with `options` leaves.
pub open spec fn generation_bounds(options: CaptureOptions, max_history_page_rows: u32) -> NativeGenerationBounds {
    NativeGenerationBounds {
        max_record_bytes: options.max_record_bytes,
        max_rows: max_history_page_rows as usize,
        max_records: if options.max_pages == usize::MAX {
            usize::MAX
        } else {
            (options.max_pages + 1) as usize
        },
        max_total_bytes: MAX_NATIVE_PREFIX_BYTES,
    }
}

/// Whether anybody else holds a payload of a generation that is gone, by the
/// number of handles to what its payloads are charged to.
pub fn is_charged(handles: usize) -> (charged: bool)
    ensures
        charged == (handles > 1),
{
    handles > 1
}

/// Which generations that are gone somebody else holds a payload of, by the
/// numbers of handles to what their payloads are charged to.
pub fn are_charged(handles: &Vec<usize>) -> (held: Vec<bool>)
    ensures
        held@ == charged(handles@),
{
    let mut held: Vec<bool> = Vec::new();
    let mut i: usize = 0;
    while i < handles.len()
        invariant
            i <= handles@.len(),
            held@ =~= charged(handles@.take(i as int)),
        decreases handles@.len() - i,
    {
        held.push(is_charged(handles[i]));
        i += 1;
    }
    assert(handles@.take(i as int) =~= handles@);
    held
}

impl NativeTerminalManager {
    /// The tables are well formed and the generations valid.
    pub closed spec fn wf(&self) -> bool {
        &&& self.generations.wf()
        &&& self@.valid()
    }

    /// Every generation of a well-formed manager is valid.
    pub proof fn lemma_valid(&self)
        requires
            self.wf(),
        ensures
            self@.valid(),
    {
    }

    /// A manager for a terminal that is at hand. `supported` says whether the
    /// engine can encode, `continuation` whether the terminal took its
    /// continuation limit.
    pub fn new(supported: bool, capacity: usize, continuation: bool) -> (manager: Result<
        Self,
        NativeStateError,
    >)
        ensures
            match manager {
                Ok(manager) => {
                    &&& supported && capacity > 0 && continuation
                    &&& manager.wf()
                    &&& manager@ == (ManagerV {
                        generations: Map::empty(),
                        retired: Seq::empty(),
                        capacity,
                        capture_active: false,
                        next_generation: 1,
                    })
                },
                Err(error) => error == (if !supported {
                    NativeStateError::UnsupportedFeature
                } else if capacity == 0 {
                    NativeStateError::LimitExceeded
                } else {
                    NativeStateError::ContinuationUnavailable
                }) && (!supported || capacity == 0 || !continuation),
            },
    {
        if !supported {
            return Err(NativeStateError::UnsupportedFeature);
        }
        if capacity == 0 {
            return Err(NativeStateError::LimitExceeded);
        }
        if !continuation {
            return Err(NativeStateError::ContinuationUnavailable);
        }
        let manager = NativeTerminalManager {
            generations: Assoc::new(),
            retired: Vec::new(),
            capacity,
            capture_active: false,
            next_generation: 1,
        };
        proof {
            assert(manager@.generations =~= Map::<Seq<u8>, GenerationV>::empty());
            assert(manager@.retired =~= Seq::<Seq<u8>>::empty());
        }
        Ok(manager)
    }

    /// Whether a prefix capture holds the terminal.
    pub fn is_capturing(&self) -> (active: bool)
        ensures
            active == self@.capture_active,
    {
        self.capture_active
    }

    /// The options of a capture, or why there can be none.
    pub fn capture_options(
        &self,
        limits: BootstrapLimits,
        max_prefix_bytes: usize,
        max_prefix_chunks: usize,
    ) -> (options: Result<CaptureOptions, NativeStateError>)
        ensures
            options == self@.options(limits, max_prefix_bytes as int, max_prefix_chunks as int),
    {
        if self.capture_active || max_prefix_chunks == 0 || max_prefix_bytes == 0 {
            return Err(NativeStateError::InvalidState);
        }
        let page: usize = limits.max_history_page_bytes as usize;
        let bound: usize = if page < max_prefix_bytes {
            page
        } else {
            max_prefix_bytes
        };
        let max_record_bytes: usize = if bound == 0 {
            1
        } else {
            bound
        };
        let max_pages: usize = if max_prefix_chunks < MAX_NATIVE_PREFIX_CHUNKS {
            max_prefix_chunks
        } else {
            MAX_NATIVE_PREFIX_CHUNKS
        };
        if self.next_generation == u64::MAX {
            return Err(NativeStateError::LimitExceeded);
        }
        Ok(CaptureOptions { max_record_bytes, max_pages })
    }

    /// Begin a prefix capture. `started` says whether the engine took the
    /// terminal, with the options of [`Self::capture_options`].
    pub fn begin_generation_capture(
        &mut self,
        limits: BootstrapLimits,
        max_prefix_bytes: usize,
        max_prefix_chunks: usize,
        max_history_page_rows: u32,
        started: Result<(), EngineError>,
    ) -> (capture: Result<NativeManagedCapture, NativeStateError>)
        requires
            old(self).wf(),
        ensures
            final(self).wf(),
            match old(self)@.options(limits, max_prefix_bytes as int, max_prefix_chunks as int) {
                Err(error) => capture == Err::<NativeManagedCapture, NativeStateError>(error)
                    && final(self)@ == old(self)@,
                Ok(options) => match started {
                    Err(failure) => capture == Err::<NativeManagedCapture, NativeStateError>(
                        engine_failure(failure),
                    ) && final(self)@ == old(self)@,
                    Ok(_) => {
                        &&& final(self)@ == (ManagerV {
                            capture_active: true,
                            next_generation: (old(self)@.next_generation + 1) as u64,
                            ..old(self)@
                        })
                        &&& capture matches Ok(capture)
                        &&& capture@ == (ManagedV {
                            prefix: Seq::empty(),
                            generation: old(self)@.next_generation,
                            bounds: generation_bounds(options, max_history_page_rows),
                            ready: false,
                        })
                    },
                },
            },
    {
        let options = match self.capture_options(limits, max_prefix_bytes, max_prefix_chunks) {
            Ok(options) => options,
            Err(error) => {
                return Err(error);
            },
        };
        match started {
            Ok(_) => {},
            Err(failure) => {
                return Err(NativeStateError::from(failure));
            },
        }
        let generation: u64 = self.next_generation;
        self.next_generation = generation + 1;
        self.capture_active = true;
        let max_records: usize = if options.max_pages == usize::MAX {
            usize::MAX
        } else {
            options.max_pages + 1
        };
        let capture = NativeManagedCapture {
            hashed: Vec::new(),
            generation,
            bounds: NativeGenerationBounds {
                max_record_bytes: options.max_record_bytes,
                max_rows: max_history_page_rows as usize,
                max_records,
                max_total_bytes: MAX_NATIVE_PREFIX_BYTES,
            },
            ready: false,
        };
        assert(capture@.prefix =~= Seq::<u8>::empty());
        Ok(capture)
    }

    /// Finish a prefix capture and put the terminal back. `detached` says
    /// whether the engine let the cut go. The cursor is the digest of the
    /// prefix and the capture's number.
    pub fn finish_generation_capture(
        &mut self,
        capture: NativeManagedCapture,
        detached: Result<(), EngineError>,
    ) -> (cut: Result<(OpaqueHistoryCursor, NativeGenerationSeed), NativeStateError>)
        requires
            old(self).wf(),
        ensures
            final(self).wf(),
            final(self)@ == (ManagerV { capture_active: false, ..old(self)@ }),
            if !old(self)@.capture_active || !capture@.ready {
                cut matches Err(error) && error == NativeStateError::InvalidState
            } else {
                match detached {
                    Err(failure) => cut matches Err(error) && error == engine_failure(failure),
                    Ok(_) => cut matches Ok((cursor, seed)) && cursor@ == sha256(
                        capture@.named_by(),
                    ) && seed.spec_bounds() == capture@.bounds,
                }
            },
    {
        if !self.capture_active {
            assert(self@ =~= ManagerV { capture_active: false, ..old(self)@ });
            return Err(NativeStateError::InvalidState);
        }
        self.capture_active = false;
        if !capture.ready {
            return Err(NativeStateError::InvalidState);
        }
        let ghost named = capture@.named_by();
        let mut preimage = capture.hashed;
        let mut number = vstd::bytes::u64_to_le_bytes(capture.generation);
        preimage.append(&mut number);
        assert(preimage@ =~= named);
        let cursor = cursor_for(preimage.as_slice());
        match detached {
            Ok(_) => Ok((cursor, NativeGenerationSeed { bounds: capture.bounds })),
            Err(failure) => Err(NativeStateError::from(failure)),
        }
    }

    /// Abandon a prefix capture and put the terminal back.
    pub fn abort_generation_capture(&mut self, _capture: NativeManagedCapture)
        requires
            old(self).wf(),
        ensures
            final(self).wf(),
            final(self)@ == (ManagerV { capture_active: false, ..old(self)@ }),
    {
        self.capture_active = false;
    }

    /// Whether there is a generation under `cursor`.
    pub fn has_generation(&self, cursor: &OpaqueHistoryCursor) -> (there: bool)
        requires
            self.wf(),
        ensures
            there == self@.generations.contains_key(cursor@),
    {
        self.generations.get(cursor).is_some()
    }

    /// The generation under `cursor`.
    pub fn generation(&self, cursor: &OpaqueHistoryCursor) -> (found: Option<
        &NativeCheckpointGeneration,
    >)
        requires
            self.wf(),
        ensures
            match found {
                Some(generation) => self@.generations.contains_key(cursor@) && generation@
                    == self@.generations[cursor@],
                None => !self@.generations.contains_key(cursor@),
            },
    {
        self.generations.get(cursor)
    }

    /// Which of the generations that are gone are still charged for. How many
    /// handles there are to what a generation's payloads are charged to is left
    /// unsaid: it depends on who else holds one.
    pub fn charges_held(&self) -> (held: Vec<bool>)
        ensures
            exists|counts: Seq<usize>|
                counts.len() == self@.retired.len() && held@ == #[trigger] charged(counts),
            held@.len() == self@.retired.len(),
    {
        let mut counts: Vec<usize> = Vec::new();
        let mut i: usize = 0;
        while i < self.retired.len()
            invariant
                i <= self.retired@.len(),
                counts@.len() == i,
            decreases self.retired@.len() - i,
        {
            counts.push(handles(&self.retired[i]));
            i += 1;
        }
        are_charged(&counts)
    }

    /// Forget the generations that are gone and not charged for any more, by
    /// what [`Self::charges_held`] said.
    pub fn reap_with(&mut self, held: &Vec<bool>)
        requires
            old(self).wf(),
            held@.len() == old(self)@.retired.len(),
        ensures
            final(self).wf(),
            final(self)@ == old(self)@.reaped(held@),
    {
        let mut kept: Vec<Arc<NativeGenerationCharge>> = Vec::new();
        let mut i: usize = 0;
        while i < self.retired.len()
            invariant
                held@.len() == self.retired@.len(),
                i <= self.retired@.len(),
                charge_cursors(kept@) == held_among(charge_cursors(self.retired@), held@, i as nat),
            decreases self.retired@.len() - i,
        {
            if held[i] {
                let ghost before = kept@;
                kept.push(self.retired[i].clone());
                assert(charge_cursors(kept@) =~= charge_cursors(before).push(
                    charge_cursors(self.retired@)[i as int],
                ));
            }
            i += 1;
        }
        self.retired = kept;
        assert(self@ =~= old(self)@.reaped(held@));
    }

    /// Install a cut as a generation with one owner, where `held` is what
    /// [`Self::charges_held`] said.
    pub fn install_with(
        &mut self,
        cursor: OpaqueHistoryCursor,
        seed: NativeGenerationSeed,
        bounds: NativeGenerationBounds,
        reserved_bytes: usize,
        held: &Vec<bool>,
    ) -> (done: Result<(), NativeStateError>)
        requires
            old(self).wf(),
            held@.len() == old(self)@.retired.len(),
        ensures
            final(self).wf(),
            (final(self)@, done) == old(self)@.installed(
                cursor@,
                seed.spec_bounds(),
                bounds,
                reserved_bytes as int,
                held@,
            ),
    {
        let required: usize = match bounds.required_reserved_bytes() {
            Ok(required) => required,
            Err(error) => {
                return Err(error);
            },
        };
        self.reap_with(held);
        let ghost mid = self@;
        let ghost entries = self.generations@;
        let live: usize = self.generations.len();
        proof {
            assert(mid.generations.dom() =~= entries.dom());
        }
        let full = match live.checked_add(self.retired.len()) {
            Some(retained) => retained >= self.capacity,
            None => true,
        };
        if full || self.has_generation(&cursor) || bounds != seed.bounds || reserved_bytes
            < required {
            return Err(NativeStateError::LimitExceeded);
        }
        let generation = NativeCheckpointGeneration::new(cursor, bounds);
        self.generations.insert(cursor, generation);
        proof {
            assert(self@ =~= mid.with(cursor@, GenerationV::fresh(cursor@, bounds)));
        }
        Ok(())
    }

    /// Install a cut as a generation with one owner. The reservation must cover
    /// the bounds, and the cut's own bounds are the only ones that will do.
    pub fn install_generation(
        &mut self,
        cursor: OpaqueHistoryCursor,
        seed: NativeGenerationSeed,
        bounds: NativeGenerationBounds,
        reserved_bytes: usize,
    ) -> (done: Result<(), NativeStateError>)
        requires
            old(self).wf(),
        ensures
            final(self).wf(),
            exists|held: Seq<bool>|
                held.len() == old(self)@.retired.len() && (final(self)@, done)
                    == #[trigger] old(self)@.installed(
                    cursor@,
                    seed.spec_bounds(),
                    bounds,
                    reserved_bytes as int,
                    held,
                ),
    {
        let held = self.charges_held();
        self.install_with(cursor, seed, bounds, reserved_bytes, &held)
    }

    /// One more owner of a generation.
    pub fn retain_generation(&mut self, cursor: &OpaqueHistoryCursor) -> (done: Result<
        (),
        NativeStateError,
    >)
        requires
            old(self).wf(),
        ensures
            final(self).wf(),
            if !old(self)@.generations.contains_key(cursor@) {
                &&& done == Err::<(), NativeStateError>(NativeStateError::InvalidHandle)
                &&& final(self)@ == old(self)@
            } else {
                let generation = old(self)@.generations[cursor@];
                if generation.owners == usize::MAX {
                    &&& done == Err::<(), NativeStateError>(NativeStateError::LimitExceeded)
                    &&& final(self)@ == old(self)@
                } else {
                    &&& done == Ok::<(), NativeStateError>(())
                    &&& final(self)@ == old(self)@.with(
                        cursor@,
                        GenerationV { owners: generation.owners + 1, ..generation },
                    )
                }
            },
    {
        let ghost before = self@;
        match self.generations.remove(cursor) {
            Some(generation) => {
                let mut generation = generation;
                assert(before.generations[cursor@] == generation@);
                assert(before.generations.contains_key(cursor@));
                let done = generation.retain();
                let ghost after = generation@;
                self.generations.insert(*cursor, generation);
                proof {
                    assert(self@ =~= before.with(cursor@, after));
                    assert(done is Err ==> self@ =~= before);
                }
                match done {
                    Ok(_) => Ok(()),
                    Err(error) => Err(error),
                }
            },
            None => {
                assert(self@ =~= before);
                Err(NativeStateError::InvalidHandle)
            },
        }
    }

    /// What a request for record `index` needs next. A request names how many
    /// bytes and rows it takes.
    pub fn history_record_at(
        &self,
        cursor: &OpaqueHistoryCursor,
        index: usize,
        requested_max_bytes: u32,
        requested_max_rows: u32,
    ) -> (step: Result<HistoryStep, NativeStateError>)
        requires
            self.wf(),
        ensures
            step_view(step) == self@.request(
                cursor@,
                index as int,
                requested_max_bytes as int,
                requested_max_rows as int,
            ),
    {
        let (max_bytes, max_rows) = match requested_record_window(
            requested_max_bytes,
            requested_max_rows,
        ) {
            Ok(window) => window,
            Err(error) => {
                return Err(error);
            },
        };
        let generation = match self.generation(cursor) {
            Some(generation) => generation,
            None => {
                return Err(NativeStateError::InvalidHandle);
            },
        };
        if generation.holds(index) {
            return match generation.serve(index, max_bytes, max_rows) {
                Ok(record) => Ok(HistoryStep::Record(record)),
                Err(error) => Err(error),
            };
        }
        match generation.failure() {
            Some(failure) => {
                return Err(failure);
            },
            None => {},
        }
        if !generation.is_live() {
            return Err(NativeStateError::InvalidHandle);
        }
        if self.capture_active {
            return Err(NativeStateError::ImportBusy);
        }
        Ok(HistoryStep::Probe)
    }

    /// The engine answered the probe of a request.
    pub fn history_probed(
        &mut self,
        cursor: &OpaqueHistoryCursor,
        index: usize,
        requested_max_bytes: u32,
        requested_max_rows: u32,
        answer: Result<CaptureEvent, EngineError>,
    ) -> (step: Result<HistoryStep, NativeStateError>)
        requires
            old(self).wf(),
        ensures
            final(self).wf(),
            if !old(self)@.generations.contains_key(cursor@) {
                &&& step_view(step) == Err::<StepV, NativeStateError>(
                    NativeStateError::InvalidHandle,
                )
                &&& final(self)@ == old(self)@
            } else {
                let (after, probed) = old(self)@.generations[cursor@].on_probe(answer);
                &&& final(self)@ == old(self)@.with(cursor@, after)
                &&& step_view(step) == (match probed {
                    Ok(Probed::Settled) => served_step(
                        after.served(
                            index as int,
                            requested_max_bytes as int,
                            requested_max_rows as int,
                        ),
                    ),
                    Ok(Probed::Read { required }) => Ok(StepV::Read(required)),
                    Err(error) => Err(error),
                })
            },
    {
        let ghost before = self@;
        match self.generations.remove(cursor) {
            Some(generation) => {
                let mut generation = generation;
                assert(before.generations[cursor@] == generation@);
                assert(before.generations.contains_key(cursor@));
                let probed = generation.probed(answer);
                let ghost after = generation@;
                let step = match probed {
                    Ok(Probed::Settled) => match generation.serve(
                        index,
                        requested_max_bytes as usize,
                        requested_max_rows as usize,
                    ) {
                        Ok(record) => Ok(HistoryStep::Record(record)),
                        Err(error) => Err(error),
                    },
                    Ok(Probed::Read { required }) => Ok(HistoryStep::Read { required }),
                    Err(error) => Err(error),
                };
                self.generations.insert(*cursor, generation);
                assert(self@ =~= before.with(cursor@, after));
                step
            },
            None => {
                assert(self@ =~= before);
                Err(NativeStateError::InvalidHandle)
            },
        }
    }

    /// The engine read the record of a request into `scratch`; what is gathered
    /// takes `pending_capacity` bytes of memory, the buffer `scratch_capacity`.
    pub fn history_read_with_capacity(
        &mut self,
        cursor: &OpaqueHistoryCursor,
        index: usize,
        requested_max_bytes: u32,
        requested_max_rows: u32,
        answer: Result<CaptureEvent, EngineError>,
        scratch: &[u8],
        pending_capacity: usize,
        scratch_capacity: usize,
    ) -> (record: Result<CachedNativeHistoryRecord, NativeStateError>)
        requires
            old(self).wf(),
            answer matches Ok(event) ==> event.bytes() <= scratch@.len(),
        ensures
            final(self).wf(),
            (final(self)@, record_view(record)) == old(self)@.read(
                cursor@,
                index as int,
                requested_max_bytes as int,
                requested_max_rows as int,
                answer,
                scratch@,
                pending_capacity as int,
                scratch_capacity as int,
            ),
    {
        let ghost before = self@;
        match self.generations.remove(cursor) {
            Some(generation) => {
                let mut generation = generation;
                assert(before.generations[cursor@] == generation@);
                assert(before.generations.contains_key(cursor@));
                let read = generation.read_with_capacity(
                    answer,
                    scratch,
                    pending_capacity,
                    scratch_capacity,
                );
                let ghost after = generation@;
                let record = match read {
                    Ok(_) => generation.serve(
                        index,
                        requested_max_bytes as usize,
                        requested_max_rows as usize,
                    ),
                    Err(error) => Err(error),
                };
                self.generations.insert(*cursor, generation);
                assert(self@ =~= before.with(cursor@, after));
                record
            },
            None => {
                assert(self@ =~= before);
                Err(NativeStateError::InvalidHandle)
            },
        }
    }

    /// The engine read the record of a request into `scratch`.
    pub fn history_read(
        &mut self,
        cursor: &OpaqueHistoryCursor,
        index: usize,
        requested_max_bytes: u32,
        requested_max_rows: u32,
        answer: Result<CaptureEvent, EngineError>,
        scratch: &[u8],
        scratch_capacity: usize,
    ) -> (record: Result<CachedNativeHistoryRecord, NativeStateError>)
        requires
            old(self).wf(),
            answer matches Ok(event) ==> event.bytes() <= scratch@.len(),
        ensures
            final(self).wf(),
            exists|pending_capacity: int|
                (old(self)@.generations.contains_key(cursor@) ==> pending_capacity >= old(
                    self,
                )@.generations[cursor@].pending.len() + written_by(answer)) && (
                final(self)@,
                record_view(record)) == #[trigger] old(self)@.read(
                    cursor@,
                    index as int,
                    requested_max_bytes as int,
                    requested_max_rows as int,
                    answer,
                    scratch@,
                    pending_capacity,
                    scratch_capacity as int,
                ),
    {
        let ghost before = self@;
        match self.generations.remove(cursor) {
            Some(generation) => {
                let mut generation = generation;
                assert(before.generations[cursor@] == generation@);
                assert(before.generations.contains_key(cursor@));
                let ghost was = generation@;
                let read = generation.read(answer, scratch, scratch_capacity);
                let ghost after = generation@;
                let ghost capacity = choose|pending_capacity: int|
                    pending_capacity >= was.pending.len() + written_by(answer) && (after, read)
                        == #[trigger] was.on_read(
                        answer,
                        scratch@,
                        pending_capacity,
                        scratch_capacity as int,
                    );
                let record = match read {
                    Ok(_) => generation.serve(
                        index,
                        requested_max_bytes as usize,
                        requested_max_rows as usize,
                    ),
                    Err(error) => Err(error),
                };
                self.generations.insert(*cursor, generation);
                proof {
                    assert(self@ =~= before.with(cursor@, after));
                    assert((self@, record_view(record)) == before.read(
                        cursor@,
                        index as int,
                        requested_max_bytes as int,
                        requested_max_rows as int,
                        answer,
                        scratch@,
                        capacity,
                        scratch_capacity as int,
                    ));
                }
                record
            },
            None => {
                proof {
                    assert(self@ =~= before);
                    assert(before.read(
                        cursor@,
                        index as int,
                        requested_max_bytes as int,
                        requested_max_rows as int,
                        answer,
                        scratch@,
                        0,
                        scratch_capacity as int,
                    ) == (before, Err::<RecordV, NativeStateError>(
                        NativeStateError::InvalidHandle,
                    )));
                }
                Err(NativeStateError::InvalidHandle)
            },
        }
    }

    /// One owner of a generation less; what the payloads are charged to, where it
    /// was the last.
    fn let_go(&mut self, cursor: &OpaqueHistoryCursor) -> (gone: Result<
        Option<Arc<NativeGenerationCharge>>,
        NativeStateError,
    >)
        requires
            old(self).wf(),
        ensures
            final(self).wf(),
            final(self)@ == old(self)@.released(cursor@, false).0,
            match gone {
                Ok(charge) => {
                    &&& old(self)@.generations.contains_key(cursor@)
                    &&& (charge is Some) == (old(self)@.generations[cursor@].owners == 1)
                    &&& charge matches Some(charge) ==> charge.cursor@ == cursor@
                },
                Err(error) => !old(self)@.generations.contains_key(cursor@) && error
                    == NativeStateError::InvalidHandle,
            },
    {
        let ghost before = self@;
        proof {
            self.lemma_valid();
        }
        match self.generations.remove(cursor) {
            Some(generation) => {
                let mut generation = generation;
                assert(before.generations[cursor@] == generation@);
                assert(before.generations.contains_key(cursor@));
                if !generation.release() {
                    let ghost after = generation@;
                    self.generations.insert(*cursor, generation);
                    assert(self@ =~= before.with(cursor@, after));
                    return Ok(None);
                }
                let charge = generation.into_charge();
                proof {
                    assert(self@.generations =~= before.generations.remove(cursor@));
                    assert(self@ =~= before.released(cursor@, false).0);
                }
                Ok(Some(charge))
            },
            None => {
                assert(self@ =~= before);
                Err(NativeStateError::InvalidHandle)
            },
        }
    }

    fn retire(&mut self, charge: Arc<NativeGenerationCharge>, held: bool)
        requires
            old(self).wf(),
        ensures
            final(self).wf(),
            final(self)@ == (ManagerV {
                retired: if held {
                    old(self)@.retired.push(charge.cursor@)
                } else {
                    old(self)@.retired
                },
                ..old(self)@
            }),
    {
        if held {
            self.retired.push(charge);
            assert(self@.retired =~= old(self)@.retired.push(charge.cursor@));
        }
        assert(self@.generations =~= old(self)@.generations);
    }

    /// One owner of a generation less, where `held` says whether anybody else
    /// holds one of its payloads once it is gone.
    pub fn release_with(&mut self, cursor: &OpaqueHistoryCursor, held: bool) -> (done: Result<
        (),
        NativeStateError,
    >)
        requires
            old(self).wf(),
        ensures
            final(self).wf(),
            (final(self)@, done) == old(self)@.released(cursor@, held),
    {
        proof {
            self.lemma_valid();
        }
        match self.let_go(cursor) {
            Ok(Some(charge)) => {
                self.retire(charge, held);
                Ok(())
            },
            Ok(None) => Ok(()),
            Err(error) => Err(error),
        }
    }

    /// One owner of a generation less. With the last owner the generation goes,
    /// but it counts against the capacity as long as somebody holds one of its
    /// payloads.
    pub fn release_generation(&mut self, cursor: &OpaqueHistoryCursor) -> (done: Result<
        (),
        NativeStateError,
    >)
        requires
            old(self).wf(),
        ensures
            final(self).wf(),
            exists|held: bool|
                (final(self)@, done) == #[trigger] old(self)@.released(cursor@, held),
    {
        proof {
            self.lemma_valid();
        }
        let ghost before = self@;
        match self.let_go(cursor) {
            Ok(Some(charge)) => {
                let held = is_charged(handles(&charge));
                self.retire(charge, held);
                assert((self@, Ok::<(), NativeStateError>(())) == before.released(cursor@, held));
                Ok(())
            },
            Ok(None) => {
                assert((self@, Ok::<(), NativeStateError>(())) == before.released(cursor@, false));
                Ok(())
            },
            Err(error) => {
                assert((self@, Err::<(), NativeStateError>(error)) == before.released(
                    cursor@,
                    false,
                ));
                Err(error)
            },
        }
    }

    /// Let every generation go, and keep what each is charged to.
    fn retire_all_generations(&mut self)
        requires
            old(self).wf(),
        ensures
            final(self).wf(),
            exists|order: Seq<Seq<u8>>|
                lists(order, old(self)@.generations.dom()) && final(self)@ == #[trigger] old(
                    self,
                )@.emptied(order),
    {
        let ghost before = self@;
        let ghost mut order: Seq<Seq<u8>> = Seq::empty();
        let mut generations: Assoc<OpaqueHistoryCursor, NativeCheckpointGeneration> = Assoc::new();
        std::mem::swap(&mut generations, &mut self.generations);
        let ghost entries = generations@;
        proof {
            assert(before.generations.dom() =~= entries.dom());
            assert(self@.generations =~= Map::<Seq<u8>, GenerationV>::empty());
            assert(generations@.len() == before.generations.len());
            assert(self@.retired =~= before.retired + order);
        }
        while generations.len() > 0
            invariant
                generations.wf(),
                self.generations.wf(),
                generations@.dom().finite(),
                order.len() + generations@.len() == before.generations.len(),
                forall|cursor: Seq<u8>| #[trigger]
                    before.generations.contains_key(cursor) <==> order.contains(cursor)
                        || generations@.contains_key(cursor),
                forall|cursor: Seq<u8>| #[trigger]
                    generations@.contains_key(cursor) ==> generations@[cursor]@.cursor == cursor,
                self@ == before.emptied(order),
            decreases generations@.len(),
        {
            let ghost left = generations@;
            match generations.pop() {
                Some((cursor, generation)) => {
                    assert(left.contains_key(cursor@));
                    assert(generations@.len() == left.len() - 1);
                    let ghost listed = order;
                    let ghost charges = self.retired@;
                    let charge = generation.into_charge();
                    assert(charge.cursor@ == cursor@);
                    self.retired.push(charge);
                    proof {
                        order = listed.push(cursor@);
                        assert(self@.retired =~= charge_cursors(charges).push(cursor@));
                        assert(self@.retired =~= before.retired + order);
                        assert(self@.generations =~= Map::<Seq<u8>, GenerationV>::empty());
                        assert forall|one: Seq<u8>| #[trigger]
                            before.generations.contains_key(one) <==> order.contains(one)
                                || generations@.contains_key(one) by {
                            assert(order.last() == cursor@);
                            if listed.contains(one) {
                                let i = choose|i: int|
                                    0 <= i < listed.len() && listed[i] == one;
                                assert(order[i] == one);
                            }
                            if order.contains(one) && one != cursor@ {
                                let i = choose|i: int| 0 <= i < order.len() && order[i] == one;
                                assert(listed[i] == one);
                            }
                        }
                    }
                },
                None => {},
            }
        }
        proof {
            assert(generations@.dom() =~= Set::<Seq<u8>>::empty());
            assert(lists(order, before.generations.dom()));
            assert(self@ == before.emptied(order));
        }
    }

    /// The terminal was asked to resize: every generation goes, whether or not
    /// it did. `held` says which of all that are gone by now are still charged
    /// for: those that were gone before, and then the others.
    pub fn resize_with(&mut self, resized: Result<(), EngineError>, held: &Vec<bool>) -> (result:
        Result<(), EngineError>)
        requires
            old(self).wf(),
            !old(self)@.capture_active,
            held@.len() == old(self)@.retained(),
        ensures
            final(self).wf(),
            result == resized,
            exists|order: Seq<Seq<u8>>|
                lists(order, old(self)@.generations.dom()) && final(self)@ == #[trigger] old(
                    self,
                )@.emptied(order).reaped(held@),
    {
        self.retire_all_generations();
        self.reap_with(held);
        resized
    }

    /// The terminal was asked to resize: every generation goes, whether or not
    /// it did.
    pub fn resize(&mut self, resized: Result<(), EngineError>) -> (result: Result<(), EngineError>)
        requires
            old(self).wf(),
            !old(self)@.capture_active,
        ensures
            final(self).wf(),
            result == resized,
            exists|order: Seq<Seq<u8>>, held: Seq<bool>|
                lists(order, old(self)@.generations.dom()) && held.len() == old(self)@.retained()
                    && final(self)@ == #[trigger] old(self)@.emptied(order).reaped(held),
    {
        self.retire_all_generations();
        let held = self.charges_held();
        self.reap_with(&held);
        resized
    }
}

/// Two captures never share a cursor's preimage: their numbers differ, so what
/// their cursors are digests of differs, whatever their prefixes hold.
pub proof fn law_captures_are_named_apart(first: ManagedV, second: ManagedV)
    requires
        first.generation != second.generation,
    ensures
        first.named_by() != second.named_by(),
{
    vstd::bytes::lemma_auto_spec_u64_to_from_le_bytes();
    let a = vstd::bytes::spec_u64_to_le_bytes(first.generation);
    let b = vstd::bytes::spec_u64_to_le_bytes(second.generation);
    assert(a.len() == 8 && b.len() == 8);
    if first.named_by() == second.named_by() {
        let whole = first.named_by();
        let tail = whole.skip(whole.len() - 8);
        assert(tail =~= a);
        assert(tail =~= b);
    }
}

proof fn lemma_held_among(retired: Seq<Seq<u8>>, held: Seq<bool>, n: nat)
    requires
        n <= held.len(),
    ensures
        held_among(retired, held, n).len() <= n,
        forall|i: int|
            0 <= i < n && #[trigger] held[i] ==> held_among(retired, held, n).contains(retired[i]),
        forall|cursor: Seq<u8>| #[trigger]
            held_among(retired, held, n).contains(cursor) ==> exists|i: int|
                0 <= i < n && #[trigger] held[i] && retired[i] == cursor,
    decreases n,
{
    if n > 0 {
        lemma_held_among(retired, held, (n - 1) as nat);
        let before = held_among(retired, held, (n - 1) as nat);
        let after = held_among(retired, held, n);
        assert forall|i: int| 0 <= i < n && #[trigger] held[i] implies after.contains(
            retired[i],
        ) by {
            if i == n - 1 {
                assert(after.last() == retired[i]);
            } else {
                let j = choose|j: int| 0 <= j < before.len() && before[j] == retired[i];
                assert(after[j] == retired[i]);
            }
        }
        assert forall|cursor: Seq<u8>| #[trigger] after.contains(cursor) implies exists|i: int|
            0 <= i < n && #[trigger] held[i] && retired[i] == cursor by {
            let j = choose|j: int| 0 <= j < after.len() && after[j] == cursor;
            if held[n - 1] && j == after.len() - 1 {
                assert(held[n - 1] && retired[n - 1] == cursor);
            } else {
                assert(before[j] == cursor);
                assert(before.contains(cursor));
            }
        }
    }
}

/// Of the generations that are gone, exactly those that are held go on
/// counting.
pub proof fn law_reaping_keeps_what_is_held(manager: ManagerV, held: Seq<bool>, cursor: Seq<u8>)
    requires
        held.len() == manager.retired.len(),
    ensures
        manager.reaped(held).retired.contains(cursor) <==> exists|i: int|
            0 <= i < held.len() && #[trigger] held[i] && manager.retired[i] == cursor,
{
    lemma_held_among(manager.retired, held, held.len());
}

/// An installed generation leaves the manager within its capacity.
pub proof fn law_installing_keeps_within_capacity(
    manager: ManagerV,
    cursor: Seq<u8>,
    bounds: NativeGenerationBounds,
)
    requires
        manager.valid(),
        manager.retained() < manager.capacity,
        !manager.generations.contains_key(cursor),
    ensures
        manager.with(cursor, GenerationV::fresh(cursor, bounds)).retained() <= manager.capacity,
        manager.with(cursor, GenerationV::fresh(cursor, bounds)).retained() == manager.retained() + 1,
{
}

/// Looking at the charges never makes more count against the capacity.
pub proof fn law_reaping_frees_room(manager: ManagerV, held: Seq<bool>)
    requires
        held.len() == manager.retired.len(),
    ensures
        manager.reaped(held).retained() <= manager.retained(),
        manager.reaped(held).generations == manager.generations,
{
    lemma_held_among(manager.retired, held, held.len());
}

/// Once nobody holds a payload of the generations that are gone, they cost
/// nothing: whoever fits beside the live ones is installed.
pub proof fn law_released_payloads_free_their_slots(
    manager: ManagerV,
    cursor: Seq<u8>,
    bounds: NativeGenerationBounds,
    held: Seq<bool>,
)
    requires
        held.len() == manager.retired.len(),
        forall|i: int| 0 <= i < held.len() ==> !#[trigger] held[i],
        manager.generations.len() < manager.capacity,
        !manager.generations.contains_key(cursor),
        bounds.reservation() <= usize::MAX,
    ensures
        manager.reaped(held).retired.len() == 0,
        manager.installed(cursor, bounds, bounds, bounds.reservation(), held).1 is Ok,
{
    lemma_held_among(manager.retired, held, held.len());
    let kept = manager.reaped(held).retired;
    if kept.len() > 0 {
        assert(kept.contains(kept[0]));
    }
}

/// While a new prefix holds the terminal, an old cut waits: it is busy, not
/// lost, and what was captured is still served.
pub proof fn law_old_cuts_wait_for_a_new_prefix(
    manager: ManagerV,
    cursor: Seq<u8>,
    index: int,
    max_bytes: int,
    max_rows: int,
)
    requires
        manager.capture_active,
        max_bytes > 0,
        max_rows > 0,
        manager.generations.contains_key(cursor),
        manager.generations[cursor].live,
        manager.generations[cursor].valid(),
    ensures
        index >= manager.generations[cursor].records.len() ==> manager.request(
            cursor,
            index,
            max_bytes,
            max_rows,
        ) == Err::<StepV, NativeStateError>(NativeStateError::ImportBusy),
        index < manager.generations[cursor].records.len() ==> manager.request(
            cursor,
            index,
            max_bytes,
            max_rows,
        ) == served_step(manager.generations[cursor].records[index].requested(max_bytes, max_rows)),
{
}

/// A spent frontier gives every owner the engine's reason, and a generation
/// that is gone is no handle at all.
pub proof fn law_failures_reach_every_request(
    manager: ManagerV,
    cursor: Seq<u8>,
    index: int,
    max_bytes: int,
    max_rows: int,
    failure: NativeStateError,
)
    requires
        max_bytes > 0,
        max_rows > 0,
        manager.generations.contains_key(cursor),
        manager.generations[cursor].failure == Some(failure),
        index >= manager.generations[cursor].records.len(),
    ensures
        manager.request(cursor, index, max_bytes, max_rows) == Err::<StepV, NativeStateError>(
            failure,
        ),
        (ManagerV { generations: manager.generations.remove(cursor), ..manager }).request(
            cursor,
            index,
            max_bytes,
            max_rows,
        ) == Err::<StepV, NativeStateError>(NativeStateError::InvalidHandle),
{
}

/// The window that a request names.
pub fn requested_record_window(requested_max_bytes: u32, requested_max_rows: u32) -> (window: Result<
    (usize, usize),
    NativeStateError,
>)
    ensures
        window == (if requested_max_bytes == 0 || requested_max_rows == 0 {
            Err(NativeStateError::LimitExceeded)
        } else {
            Ok((requested_max_bytes as usize, requested_max_rows as usize))
        }),
{
    let requested_bytes: usize = requested_max_bytes as usize;
    let requested_rows: usize = requested_max_rows as usize;
    if requested_bytes == 0 || requested_rows == 0 {
        return Err(NativeStateError::LimitExceeded);
    }
    Ok((requested_bytes, requested_rows))
}

} // verus!
