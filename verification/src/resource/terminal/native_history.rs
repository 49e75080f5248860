//! Serving history: one request, one answer.
//!
//! A cursor that cannot be honoured is a routine race, not a fault: a resize
//! ends every hold while a request for one is still under way. Such a request
//! is answered with a tombstone, which costs the one replica its scrollback and
//! leaves the attachment alone.

use super::native_live::{hold_matches, holds_this};
use super::native_model::{
    hold_from, stream_view, NativeCursorOwner, NativeHost, NativeV, StreamV,
};
use crate::ids::{BootstrapId, StreamId, TerminalId};
use crate::native_state::cut::OpaqueHistoryCursor;
use crate::native_state::error::{written_by, CaptureEvent, EngineError, NativeStateError};
use crate::native_state::generation::{record_view, CachedNativeHistoryRecord, Probed, RecordV};
use crate::native_state::manager::{HistoryStep, StepV};
use crate::payload::{contents, payload_bytes};
use crate::wire::{BootstrapLimits, FrameKind, HistoryRejectionReason, HistoryTombstoneReason};
use bytes::Bytes;
use vstd::prelude::*;

verus! {

/// A request for a page of history.
#[derive(Debug, PartialEq, Eq)]
pub struct NativeHistoryRequest {
    /// The consumer's pump.
    pub owner: u64,
    /// The terminal, as the consumer names it.
    pub terminal_id: TerminalId,
    /// The stream.
    pub stream_id: StreamId,
    /// The generation.
    pub bootstrap_id: BootstrapId,
    /// The cursor that the consumer echoes.
    pub cursor: Bytes,
    /// The most bytes.
    pub max_bytes: u32,
    /// The most rows.
    pub max_rows: u32,
    /// The per-frame bounds.
    pub limits: BootstrapLimits,
}

/// A request whose cursor can be honoured.
#[derive(Debug)]
pub struct HistoryTicket {
    /// The request.
    pub req: NativeHistoryRequest,
    /// The history.
    pub cursor: OpaqueHistoryCursor,
    /// The next record.
    pub record_index: usize,
    /// The page's number.
    pub page_seq: u64,
    /// The most bytes.
    pub bound: u32,
}

/// Where the handling of a request stands.
#[derive(Debug)]
pub enum HistoryProgress {
    /// It is answered. Where `keep` is set and the answer cannot be delivered,
    /// the owner is to be released.
    Answer {
        /// The answer.
        result: Result<FrameKind, NativeStateError>,
        /// Whether the owner still holds the history.
        keep: bool,
    },
    /// The engine must be asked with an empty buffer.
    Probe {
        /// The request.
        ticket: HistoryTicket,
    },
    /// The engine must read into a buffer.
    Read {
        /// The request.
        ticket: HistoryTicket,
        /// The bytes the buffer takes.
        required: usize,
    },
}

/// An answer as contracts speak of it.
pub open spec fn answer_view(result: Result<FrameKind, NativeStateError>) -> Result<
    StreamV,
    NativeStateError,
> {
    match result {
        Ok(frame) => Ok(stream_view(frame)),
        Err(error) => Err(error),
    }
}

/// The tombstone of a request's cursor.
pub open spec fn tombstoned(req: NativeHistoryRequest, reason: HistoryTombstoneReason) -> StreamV {
    StreamV::HistoryTombstone {
        terminal_id: req.terminal_id,
        stream_id: req.stream_id,
        bootstrap_id: req.bootstrap_id,
        cursor: contents(req.cursor),
        reason,
    }
}

/// The refusal of a request; the cursor stays usable.
pub open spec fn rejected(
    req: NativeHistoryRequest,
    reason: HistoryRejectionReason,
    required_bytes: u32,
    required_rows: u32,
) -> StreamV {
    StreamV::Rejected {
        terminal_id: req.terminal_id,
        stream_id: req.stream_id,
        bootstrap_id: req.bootstrap_id,
        cursor: contents(req.cursor),
        reason,
        required_bytes,
        required_rows,
    }
}

/// A page; the cursor goes on while more records remain.
pub open spec fn page_of(
    req: NativeHistoryRequest,
    page_seq: u64,
    payload: Seq<u8>,
    rows: u32,
    finish: bool,
) -> StreamV {
    StreamV::Page {
        terminal_id: req.terminal_id,
        stream_id: req.stream_id,
        bootstrap_id: req.bootstrap_id,
        page_seq,
        cursor: contents(req.cursor),
        next_cursor: if finish {
            None
        } else {
            Some(contents(req.cursor))
        },
        payload,
        rows,
    }
}

impl NativeHistoryRequest {
    fn tombstone(self, reason: HistoryTombstoneReason) -> (frame: FrameKind)
        ensures
            stream_view(frame) == tombstoned(self, reason),
    {
        FrameKind::HistoryTombstone {
            terminal_id: self.terminal_id,
            stream_id: self.stream_id,
            bootstrap_id: self.bootstrap_id,
            cursor: self.cursor,
            reason,
        }
    }

    fn rejected(
        self,
        reason: HistoryRejectionReason,
        required_bytes: u32,
        required_rows: u32,
    ) -> (frame: FrameKind)
        ensures
            stream_view(frame) == rejected(self, reason, required_bytes, required_rows),
    {
        FrameKind::HistoryRejected {
            terminal_id: self.terminal_id,
            stream_id: self.stream_id,
            bootstrap_id: self.bootstrap_id,
            cursor: self.cursor,
            reason,
            required_bytes,
            required_rows,
        }
    }

    fn page(self, page_seq: u64, payload: Bytes, rows: u32, finish: bool) -> (frame: FrameKind)
        ensures
            stream_view(frame) == page_of(self, page_seq, contents(payload), rows, finish),
    {
        let next_cursor = if finish {
            None
        } else {
            Some(self.cursor.clone())
        };
        FrameKind::HistoryPage {
            terminal_id: self.terminal_id,
            stream_id: self.stream_id,
            bootstrap_id: self.bootstrap_id,
            page_seq,
            cursor: self.cursor,
            next_cursor,
            payload,
            rows,
        }
    }
}

/// The tombstone reason that a failure comes to.
pub open spec fn reason_for(error: NativeStateError) -> HistoryTombstoneReason {
    match error {
        NativeStateError::Stale | NativeStateError::WrongGeneration => HistoryTombstoneReason::Stale,
        NativeStateError::Pruned => HistoryTombstoneReason::Pruned,
        NativeStateError::Reset => HistoryTombstoneReason::Reset,
        NativeStateError::Resize => HistoryTombstoneReason::Resize,
        NativeStateError::LimitExceeded => HistoryTombstoneReason::Limit,
        _ => HistoryTombstoneReason::CodecFailure,
    }
}

/// The tombstone reason that a failure comes to.
pub fn history_tombstone_reason(error: NativeStateError) -> (reason: HistoryTombstoneReason)
    ensures
        reason == reason_for(error),
{
    match error {
        NativeStateError::Stale | NativeStateError::WrongGeneration => HistoryTombstoneReason::Stale,
        NativeStateError::Pruned => HistoryTombstoneReason::Pruned,
        NativeStateError::Reset => HistoryTombstoneReason::Reset,
        NativeStateError::Resize => HistoryTombstoneReason::Resize,
        NativeStateError::LimitExceeded => HistoryTombstoneReason::Limit,
        _ => HistoryTombstoneReason::CodecFailure,
    }
}

/// A hold after the record it points at was served.
pub open spec fn moved(binding: NativeCursorOwner, next_page_seq: u64, now_ms: u64) ->
    NativeCursorOwner {
    NativeCursorOwner {
        record_index: if binding.record_index == usize::MAX {
            usize::MAX
        } else {
            (binding.record_index + 1) as usize
        },
        next_page_seq,
        touched_ms: now_ms,
        ..binding
    }
}

/// The first `n` holds after the one of `owner` moved on to the next record.
pub open spec fn moved_on(
    owners: Seq<NativeCursorOwner>,
    n: nat,
    owner: u64,
    next_page_seq: u64,
    now_ms: u64,
) -> Seq<NativeCursorOwner>
    decreases n,
{
    if n == 0 || n > owners.len() {
        Seq::empty()
    } else {
        let binding = owners[n - 1];
        moved_on(owners, (n - 1) as nat, owner, next_page_seq, now_ms).push(
            if binding.owner == owner {
                moved(binding, next_page_seq, now_ms)
            } else {
                binding
            },
        )
    }
}

/// Where the handling of a request starts: with an answer, or with the next
/// record of a page.
pub enum HistoryStart {
    /// It is answered.
    Answer(StreamV),
    /// A record has to be served.
    Serve {
        /// The next record.
        record_index: usize,
        /// The page's number.
        page_seq: u64,
        /// The most bytes.
        bound: u32,
    },
}

/// The lesser of two bounds.
pub open spec fn tighter(a: u32, b: u32) -> u32 {
    if a < b {
        a
    } else {
        b
    }
}

/// What one delivery comes to.
#[verifier::ext_equal]
pub struct DeliveryV {
    /// The host.
    pub host: NativeV,
    /// The answer.
    pub answer: Result<StreamV, NativeStateError>,
    /// Whether the owner still holds the history.
    pub keep: bool,
}

impl NativeV {
    /// Where the handling of `req` starts.
    pub open spec fn history_start(self, req: NativeHistoryRequest) -> HistoryStart {
        let stale = HistoryStart::Answer(tombstoned(req, HistoryTombstoneReason::Stale));
        if contents(req.cursor).len() != 32 {
            stale
        } else {
            match self.hold(req.owner) {
                Some(binding) if holds_this(
                    binding,
                    contents(req.cursor),
                    req.terminal_id,
                    req.stream_id,
                    req.bootstrap_id,
                ) => {
                    let bound = tighter(req.max_bytes, req.limits.max_history_page_bytes);
                    if bound == 0 || req.max_rows == 0 {
                        HistoryStart::Answer(
                            rejected(req, HistoryRejectionReason::ZeroLimit, 1, 1),
                        )
                    } else {
                        HistoryStart::Serve {
                            record_index: binding.record_index,
                            page_seq: binding.next_page_seq,
                            bound,
                        }
                    }
                },
                _ => stale,
            }
        }
    }

    /// What a request gets for what was delivered.
    pub open spec fn delivered(
        self,
        req: NativeHistoryRequest,
        page_seq: u64,
        bound: u32,
        delivery: Result<RecordV, NativeStateError>,
        now_ms: u64,
    ) -> DeliveryV {
        let gone = self.released(req.owner);
        match delivery {
            Ok(record) => if page_seq == u64::MAX || record.rows > u32::MAX {
                DeliveryV {
                    host: gone,
                    answer: Err(NativeStateError::LimitExceeded),
                    keep: false,
                }
            } else {
                DeliveryV {
                    host: if record.finish {
                        gone
                    } else {
                        NativeV {
                            owners: moved_on(
                                self.owners,
                                self.owners.len(),
                                req.owner,
                                (page_seq + 1) as u64,
                                now_ms,
                            ),
                            ..self
                        }
                    },
                    answer: Ok(
                        page_of(req, page_seq, record.bytes, record.rows as u32, record.finish),
                    ),
                    keep: !record.finish,
                }
            },
            Err(NativeStateError::OutOfSpace { required_bytes, required_rows }) => {
                let rows = if required_rows == 0 {
                    1
                } else {
                    required_rows as int
                };
                if 0 < required_bytes <= req.limits.max_history_page_bytes && rows
                    <= self.budgets.max_history_page_rows {
                    DeliveryV {
                        host: self,
                        answer: Ok(
                            rejected(
                                req,
                                HistoryRejectionReason::TooSmall,
                                required_bytes as u32,
                                rows as u32,
                            ),
                        ),
                        keep: self.hold(req.owner) is Some,
                    }
                } else {
                    DeliveryV {
                        host: gone,
                        answer: Ok(tombstoned(req, HistoryTombstoneReason::Limit)),
                        keep: gone.hold(req.owner) is Some,
                    }
                }
            },
            Err(NativeStateError::ImportBusy) => DeliveryV {
                host: self,
                answer: Ok(rejected(req, HistoryRejectionReason::Busy, bound, req.max_rows)),
                keep: true,
            },
            Err(error) => DeliveryV {
                host: gone,
                answer: Ok(tombstoned(req, reason_for(error))),
                keep: false,
            },
        }
    }

    /// What a request for record `index` under `cursor` needs next.
    pub open spec fn record_step(
        self,
        cursor: Seq<u8>,
        index: int,
        max_bytes: int,
        max_rows: int,
    ) -> Result<StepV, NativeStateError> {
        match self.plain {
            Some(error) => Err(error),
            None => crate::native_state::manager::ManagerV {
                generations: self.generations,
                retired: Seq::empty(),
                capacity: 0,
                capture_active: self.capture_active,
                next_generation: 0,
            }.request(cursor, index, max_bytes, max_rows),
        }
    }

    /// What a request gets once the engine read its record into `scratch`, where
    /// what is gathered takes `pending_capacity` and the buffer
    /// `scratch_capacity` bytes of memory.
    pub open spec fn history_read(
        self,
        ticket: HistoryTicket,
        answer: Result<CaptureEvent, EngineError>,
        scratch: Seq<u8>,
        pending_capacity: int,
        scratch_capacity: int,
        now_ms: u64,
    ) -> DeliveryV {
        let cursor = ticket.cursor@;
        if !self.generations.contains_key(cursor) {
            self.delivered(
                ticket.req,
                ticket.page_seq,
                ticket.bound,
                Err(NativeStateError::InvalidHandle),
                now_ms,
            )
        } else {
            let (after, read) = self.generations[cursor].on_read(
                answer,
                scratch,
                pending_capacity,
                scratch_capacity,
            );
            let mid = NativeV { generations: self.generations.insert(cursor, after), ..self };
            mid.delivered(
                ticket.req,
                ticket.page_seq,
                ticket.bound,
                (match read {
                    Ok(_) => after.served(
                        ticket.record_index as int,
                        ticket.bound as int,
                        ticket.req.max_rows as int,
                    ),
                    Err(error) => Err(error),
                }),
                now_ms,
            )
        }
    }
}

fn cursor_of(bytes: &Bytes) -> (cursor: Option<OpaqueHistoryCursor>)
    ensures
        match cursor {
            Some(cursor) => cursor@ == contents(*bytes),
            None => contents(*bytes).len() != 32,
        },
{
    let slice = payload_bytes(bytes);
    if slice.len() != 32 {
        return None;
    }
    let mut cursor: OpaqueHistoryCursor = [0u8;32];
    let mut i: usize = 0;
    while i < 32
        invariant
            i <= 32,
            slice@.len() == 32,
            cursor@.len() == 32,
            forall|j: int| 0 <= j < i ==> cursor@[j] == slice@[j],
        decreases 32 - i,
    {
        cursor[i] = slice[i];
        i += 1;
    }
    assert(cursor@ =~= slice@);
    Some(cursor)
}

/// Whether a ticket is what `history_start` serves.
pub open spec fn issued(host: NativeV, req: NativeHistoryRequest, ticket: HistoryTicket) -> bool {
    &&& ticket.req == req
    &&& ticket.cursor@ == contents(req.cursor)
    &&& host.history_start(req) == (HistoryStart::Serve {
        record_index: ticket.record_index,
        page_seq: ticket.page_seq,
        bound: ticket.bound,
    })
}

impl NativeHost {
    /// Move the hold of `owner` on past the record that was served. A hold that
    /// cannot move on is released, and so is one whose history is finished.
    fn advance_history_binding(
        &mut self,
        owner: u64,
        record: &CachedNativeHistoryRecord,
        page_seq: u64,
        now_ms: u64,
    ) -> (rows: Result<u32, NativeStateError>)
        requires
            old(self).wf(),
        ensures
            final(self).wf(),
            old(self).sheds(*final(self)),
            if page_seq == u64::MAX || record.rows > u32::MAX {
                &&& rows == Err::<u32, NativeStateError>(NativeStateError::LimitExceeded)
                &&& final(self)@ == old(self)@.released(owner)
            } else {
                &&& rows == Ok::<u32, NativeStateError>(record.rows as u32)
                &&& final(self)@ == (if record.finish {
                    old(self)@.released(owner)
                } else {
                    NativeV {
                        owners: moved_on(
                            old(self)@.owners,
                            old(self)@.owners.len(),
                            owner,
                            (page_seq + 1) as u64,
                            now_ms,
                        ),
                        ..old(self)@
                    }
                })
            },
    {
        if page_seq == u64::MAX || record.rows > u32::MAX as usize {
            self.release_native_owner(owner);
            return Err(NativeStateError::LimitExceeded);
        }
        let next_page_seq: u64 = page_seq + 1;
        if record.finish {
            self.release_native_owner(owner);
        } else {
            let ghost all = self.owners@;
            let mut i: usize = 0;
            assert(self.owners@.take(0) =~= moved_on(all, 0, owner, next_page_seq, now_ms));
            while i < self.owners.len()
                invariant
                    all == old(self).owners@,
                    self.manager == old(self).manager,
                    self.pending == old(self).pending,
                    self.backlog == old(self).backlog,
                    self.publications == old(self).publications,
                    self.budgets == old(self).budgets,
                    self.owners@.len() == all.len(),
                    i <= all.len(),
                    forall|j: int| i <= j < all.len() ==> #[trigger] self.owners@[j] == all[j],
                    self.owners@.take(i as int) == moved_on(
                        all,
                        i as nat,
                        owner,
                        next_page_seq,
                        now_ms,
                    ),
                decreases all.len() - i,
            {
                let ghost kept = self.owners@.take(i as int);
                assert(self.owners@[i as int] == all[i as int]);
                if self.owners[i].owner == owner {
                    let at: usize = self.owners[i].record_index;
                    self.owners[i].record_index = if at == usize::MAX {
                        usize::MAX
                    } else {
                        at + 1
                    };
                    self.owners[i].next_page_seq = next_page_seq;
                    self.owners[i].touched_ms = now_ms;
                }
                i += 1;
                assert(self.owners@.take(i as int) =~= kept.push(self.owners@[i - 1]));
            }
            proof {
                assert(self.owners@.take(i as int) =~= self.owners@);
                assert(self@ =~= NativeV {
                    owners: moved_on(all, all.len(), owner, next_page_seq, now_ms),
                    ..old(self)@
                });
            }
        }
        Ok(record.rows as u32)
    }

    /// Answer a request with what was delivered for it.
    pub fn deliver_history(
        &mut self,
        ticket: HistoryTicket,
        delivery: Result<CachedNativeHistoryRecord, NativeStateError>,
        now_ms: u64,
    ) -> (answer: (Result<FrameKind, NativeStateError>, bool))
        requires
            old(self).wf(),
        ensures
            final(self).wf(),
            old(self).sheds(*final(self)),
            ({
                let done = old(self)@.delivered(
                    ticket.req,
                    ticket.page_seq,
                    ticket.bound,
                    record_view(delivery),
                    now_ms,
                );
                &&& final(self)@ == done.host
                &&& answer_view(answer.0) == done.answer
                &&& answer.1 == done.keep
            }),
    {
        let owner: u64 = ticket.req.owner;
        match delivery {
            Ok(record) => {
                let finish = record.finish;
                match self.advance_history_binding(owner, &record, ticket.page_seq, now_ms) {
                    Ok(rows) => (
                        Ok(ticket.req.page(ticket.page_seq, record.bytes, rows, finish)),
                        !finish,
                    ),
                    Err(error) => (Err(error), false),
                }
            },
            Err(error) => match error {
                NativeStateError::OutOfSpace { required_bytes, required_rows } => {
                    let limits = ticket.req.limits;
                    let most: u32 = self.budgets.max_history_page_rows;
                    let rows: usize = if required_rows == 0 {
                        1
                    } else {
                        required_rows
                    };
                    if required_bytes != 0 && required_bytes
                        <= limits.max_history_page_bytes as usize && rows <= most as usize {
                        let keep = self.hold_of(owner).is_some();
                        (
                            Ok(
                                ticket.req.rejected(
                                    HistoryRejectionReason::TooSmall,
                                    required_bytes as u32,
                                    rows as u32,
                                ),
                            ),
                            keep,
                        )
                    } else {
                        self.release_native_owner(owner);
                        let keep = self.hold_of(owner).is_some();
                        (Ok(ticket.req.tombstone(HistoryTombstoneReason::Limit)), keep)
                    }
                },
                NativeStateError::ImportBusy => {
                    let max_rows: u32 = ticket.req.max_rows;
                    let bound: u32 = ticket.bound;
                    (
                        Ok(ticket.req.rejected(HistoryRejectionReason::Busy, bound, max_rows)),
                        true,
                    )
                },
                _ => {
                    let reason = history_tombstone_reason(error);
                    self.release_native_owner(owner);
                    (Ok(ticket.req.tombstone(reason)), false)
                },
            },
        }
    }

    /// A consumer asks for a page of history. Every request is answered exactly
    /// once: here, or after the engine was asked.
    pub fn handle_native_history(&mut self, req: NativeHistoryRequest, now_ms: u64) -> (progress:
        HistoryProgress)
        requires
            old(self).wf(),
        ensures
            final(self).wf(),
            old(self).sheds(*final(self)),
            match old(self)@.history_start(req) {
                HistoryStart::Answer(frame) => {
                    &&& final(self)@ == old(self)@
                    &&& progress matches HistoryProgress::Answer { result, keep }
                    &&& answer_view(result) == Ok::<StreamV, NativeStateError>(frame)
                    &&& !keep
                },
                HistoryStart::Serve { record_index, page_seq, bound } => {
                    match old(self)@.record_step(
                        contents(req.cursor),
                        record_index as int,
                        bound as int,
                        req.max_rows as int,
                    ) {
                        Ok(StepV::Probe) => {
                            &&& final(self)@ == old(self)@
                            &&& progress matches HistoryProgress::Probe { ticket }
                            &&& issued(old(self)@, req, ticket)
                        },
                        Ok(StepV::Read(_)) => false,
                        Ok(StepV::Record(record)) => {
                            let done = old(self)@.delivered(
                                req,
                                page_seq,
                                bound,
                                Ok(record),
                                now_ms,
                            );
                            &&& final(self)@ == done.host
                            &&& progress matches HistoryProgress::Answer { result, keep }
                            &&& answer_view(result) == done.answer
                            &&& keep == done.keep
                        },
                        Err(error) => {
                            let done = old(self)@.delivered(
                                req,
                                page_seq,
                                bound,
                                Err(error),
                                now_ms,
                            );
                            &&& final(self)@ == done.host
                            &&& progress matches HistoryProgress::Answer { result, keep }
                            &&& answer_view(result) == done.answer
                            &&& keep == done.keep
                        },
                    }
                },
            },
    {
        let cursor = match cursor_of(&req.cursor) {
            Some(cursor) => cursor,
            None => {
                let frame = req.tombstone(HistoryTombstoneReason::Stale);
                return HistoryProgress::Answer { result: Ok(frame), keep: false };
            },
        };
        let binding = match self.hold_of(req.owner) {
            Some(binding) => if hold_matches(
                &binding,
                &cursor,
                &req.terminal_id,
                req.stream_id,
                req.bootstrap_id,
            ) {
                Some((binding.next_page_seq, binding.record_index))
            } else {
                None
            },
            None => None,
        };
        let (page_seq, record_index): (u64, usize) = match binding {
            Some(binding) => binding,
            None => {
                let frame = req.tombstone(HistoryTombstoneReason::Stale);
                return HistoryProgress::Answer { result: Ok(frame), keep: false };
            },
        };
        let limit: u32 = req.limits.max_history_page_bytes;
        let bound: u32 = if req.max_bytes < limit {
            req.max_bytes
        } else {
            limit
        };
        let max_rows: u32 = req.max_rows;
        if bound == 0 || max_rows == 0 {
            let frame = req.rejected(HistoryRejectionReason::ZeroLimit, 1, 1);
            return HistoryProgress::Answer { result: Ok(frame), keep: false };
        }
        let step = match &self.manager {
            Ok(manager) => manager.history_record_at(&cursor, record_index, bound, max_rows),
            Err(error) => Err(*error),
        };
        let ticket = HistoryTicket { req, cursor, record_index, page_seq, bound };
        match step {
            Ok(HistoryStep::Probe) => HistoryProgress::Probe { ticket },
            Ok(HistoryStep::Read { required }) => HistoryProgress::Read { ticket, required },
            Ok(HistoryStep::Record(record)) => {
                let (result, keep) = self.deliver_history(ticket, Ok(record), now_ms);
                HistoryProgress::Answer { result, keep }
            },
            Err(error) => {
                let (result, keep) = self.deliver_history(ticket, Err(error), now_ms);
                HistoryProgress::Answer { result, keep }
            },
        }
    }

    /// The engine answered the probe of a request.
    pub fn native_history_probed(
        &mut self,
        ticket: HistoryTicket,
        answer: Result<CaptureEvent, EngineError>,
        now_ms: u64,
    ) -> (progress: HistoryProgress)
        requires
            old(self).wf(),
            old(self)@.plain is None,
        ensures
            final(self).wf(),
            old(self).sheds(*final(self)),
            ({
                let host = old(self)@;
                let cursor = ticket.cursor@;
                let known = host.generations.contains_key(cursor);
                let (after, probed) = if known {
                    host.generations[cursor].on_probe(answer)
                } else {
                    (arbitrary(), Err(NativeStateError::InvalidHandle))
                };
                let mid = if known {
                    NativeV { generations: host.generations.insert(cursor, after), ..host }
                } else {
                    host
                };
                match probed {
                    Ok(Probed::Read { required: wanted }) => {
                        &&& final(self)@ == mid
                        &&& progress matches HistoryProgress::Read { ticket: kept, required }
                        &&& kept == ticket
                        &&& required == wanted
                    },
                    Ok(Probed::Settled) => {
                        let done = mid.delivered(
                            ticket.req,
                            ticket.page_seq,
                            ticket.bound,
                            after.served(
                                ticket.record_index as int,
                                ticket.bound as int,
                                ticket.req.max_rows as int,
                            ),
                            now_ms,
                        );
                        &&& final(self)@ == done.host
                        &&& progress matches HistoryProgress::Answer { result, keep }
                        &&& answer_view(result) == done.answer
                        &&& keep == done.keep
                    },
                    Err(error) => {
                        let done = mid.delivered(
                            ticket.req,
                            ticket.page_seq,
                            ticket.bound,
                            Err(error),
                            now_ms,
                        );
                        &&& final(self)@ == done.host
                        &&& progress matches HistoryProgress::Answer { result, keep }
                        &&& answer_view(result) == done.answer
                        &&& keep == done.keep
                    },
                }
            }),
    {
        let ghost start = self@;
        let ghost cursor = ticket.cursor@;
        let step = match &mut self.manager {
            Ok(manager) => manager.history_probed(
                &ticket.cursor,
                ticket.record_index,
                ticket.bound,
                ticket.req.max_rows,
                answer,
            ),
            Err(error) => Err(*error),
        };
        proof {
            if start.generations.contains_key(cursor) {
                assert(self@ =~= NativeV {
                    generations: start.generations.insert(
                        cursor,
                        start.generations[cursor].on_probe(answer).0,
                    ),
                    ..start
                });
            } else {
                assert(self@ =~= start);
            }
        }
        match step {
            Ok(HistoryStep::Probe) => HistoryProgress::Probe { ticket },
            Ok(HistoryStep::Read { required }) => HistoryProgress::Read { ticket, required },
            Ok(HistoryStep::Record(record)) => {
                let (result, keep) = self.deliver_history(ticket, Ok(record), now_ms);
                HistoryProgress::Answer { result, keep }
            },
            Err(error) => {
                let (result, keep) = self.deliver_history(ticket, Err(error), now_ms);
                HistoryProgress::Answer { result, keep }
            },
        }
    }

    /// The engine read the record of a request into `scratch`, a buffer that
    /// takes `scratch_capacity` bytes of memory; what is gathered takes
    /// `pending_capacity`.
    pub fn native_history_read_with_capacity(
        &mut self,
        ticket: HistoryTicket,
        answer: Result<CaptureEvent, EngineError>,
        scratch: &[u8],
        pending_capacity: usize,
        scratch_capacity: usize,
        now_ms: u64,
    ) -> (reply: (Result<FrameKind, NativeStateError>, bool))
        requires
            old(self).wf(),
            old(self)@.plain is None,
            answer matches Ok(event) ==> event.bytes() <= scratch@.len(),
        ensures
            final(self).wf(),
            old(self).sheds(*final(self)),
            ({
                let done = old(self)@.history_read(
                    ticket,
                    answer,
                    scratch@,
                    pending_capacity as int,
                    scratch_capacity as int,
                    now_ms,
                );
                &&& final(self)@ == done.host
                &&& answer_view(reply.0) == done.answer
                &&& reply.1 == done.keep
            }),
    {
        let ghost start = self@;
        let ghost cursor = ticket.cursor@;
        let delivery = match &mut self.manager {
            Ok(manager) => manager.history_read_with_capacity(
                &ticket.cursor,
                ticket.record_index,
                ticket.bound,
                ticket.req.max_rows,
                answer,
                scratch,
                pending_capacity,
                scratch_capacity,
            ),
            Err(error) => Err(*error),
        };
        proof {
            lemma_read_shows(
                start,
                self@,
                cursor,
                answer,
                scratch@,
                pending_capacity as int,
                scratch_capacity as int,
            );
        }
        self.deliver_history(ticket, delivery, now_ms)
    }

    /// The engine read the record of a request into `scratch`, a buffer that
    /// takes `scratch_capacity` bytes of memory.
    pub fn native_history_read(
        &mut self,
        ticket: HistoryTicket,
        answer: Result<CaptureEvent, EngineError>,
        scratch: &[u8],
        scratch_capacity: usize,
        now_ms: u64,
    ) -> (reply: (Result<FrameKind, NativeStateError>, bool))
        requires
            old(self).wf(),
            old(self)@.plain is None,
            answer matches Ok(event) ==> event.bytes() <= scratch@.len(),
        ensures
            final(self).wf(),
            old(self).sheds(*final(self)),
            exists|pending_capacity: int|
                (old(self)@.generations.contains_key(ticket.cursor@) ==> pending_capacity >= old(
                    self,
                )@.generations[ticket.cursor@].pending.len() + written_by(answer)) && ({
                    let done = #[trigger] old(self)@.history_read(
                        ticket,
                        answer,
                        scratch@,
                        pending_capacity,
                        scratch_capacity as int,
                        now_ms,
                    );
                    &&& final(self)@ == done.host
                    &&& answer_view(reply.0) == done.answer
                    &&& reply.1 == done.keep
                }),
    {
        let ghost start = self@;
        let ghost cursor = ticket.cursor@;
        let ghost manager = self.manager->Ok_0@;
        let delivery = match &mut self.manager {
            Ok(manager) => manager.history_read(
                &ticket.cursor,
                ticket.record_index,
                ticket.bound,
                ticket.req.max_rows,
                answer,
                scratch,
                scratch_capacity,
            ),
            Err(error) => Err(*error),
        };
        let ghost capacity = choose|pending_capacity: int|
            (manager.generations.contains_key(cursor) ==> pending_capacity
                >= manager.generations[cursor].pending.len() + written_by(answer)) && (
            self.manager->Ok_0@,
            record_view(delivery)) == #[trigger] manager.read(
                cursor,
                ticket.record_index as int,
                ticket.bound as int,
                ticket.req.max_rows as int,
                answer,
                scratch@,
                pending_capacity,
                scratch_capacity as int,
            );
        proof {
            lemma_read_shows(
                start,
                self@,
                cursor,
                answer,
                scratch@,
                capacity,
                scratch_capacity as int,
            );
        }
        let reply = self.deliver_history(ticket, delivery, now_ms);
        proof {
            let done = start.history_read(
                ticket,
                answer,
                scratch@,
                capacity,
                scratch_capacity as int,
                now_ms,
            );
            assert(self@ == done.host);
        }
        reply
    }
}

/// What a read changes of the manager shows in the host as a change of one
/// generation.
proof fn lemma_read_shows(
    before: NativeV,
    after: NativeV,
    cursor: Seq<u8>,
    answer: Result<CaptureEvent, EngineError>,
    scratch: Seq<u8>,
    pending_capacity: int,
    scratch_capacity: int,
)
    requires
        after == (NativeV { generations: after.generations, ..before }),
        after.generations == (if before.generations.contains_key(cursor) {
            before.generations.insert(
                cursor,
                before.generations[cursor].on_read(
                    answer,
                    scratch,
                    pending_capacity,
                    scratch_capacity,
                ).0,
            )
        } else {
            before.generations
        }),
    ensures
        before.generations.contains_key(cursor) ==> after == (NativeV {
            generations: before.generations.insert(
                cursor,
                before.generations[cursor].on_read(
                    answer,
                    scratch,
                    pending_capacity,
                    scratch_capacity,
                ).0,
            ),
            ..before
        }),
        !before.generations.contains_key(cursor) ==> after == before,
{
}

/// A history request that the host cannot honour is answered with a tombstone
/// and changes nothing: the hold, where there is another, stays.
pub proof fn law_stale_requests_are_answered(host: NativeV, req: NativeHistoryRequest)
    requires
        host.hold(req.owner) is None,
    ensures
        host.history_start(req) == HistoryStart::Answer(
            tombstoned(req, HistoryTombstoneReason::Stale),
        ),
{
}

proof fn lemma_moved_on(
    owners: Seq<NativeCursorOwner>,
    n: nat,
    owner: u64,
    next_page_seq: u64,
    now_ms: u64,
)
    requires
        n <= owners.len(),
    ensures
        moved_on(owners, n, owner, next_page_seq, now_ms).len() == n,
        forall|i: int|
            0 <= i < n ==> #[trigger] moved_on(owners, n, owner, next_page_seq, now_ms)[i] == (
            if owners[i].owner == owner {
                moved(owners[i], next_page_seq, now_ms)
            } else {
                owners[i]
            }),
    decreases n,
{
    if n > 0 {
        lemma_moved_on(owners, (n - 1) as nat, owner, next_page_seq, now_ms);
    }
}

proof fn lemma_moved_hold(
    owners: Seq<NativeCursorOwner>,
    owner: u64,
    next_page_seq: u64,
    now_ms: u64,
    i: int,
)
    requires
        0 <= i,
        hold_from(owners, owner, i) is Some,
    ensures
        hold_from(moved_on(owners, owners.len(), owner, next_page_seq, now_ms), owner, i) == Some(
            moved(hold_from(owners, owner, i)->Some_0, next_page_seq, now_ms),
        ),
    decreases owners.len() - i,
{
    lemma_moved_on(owners, owners.len(), owner, next_page_seq, now_ms);
    let after = moved_on(owners, owners.len(), owner, next_page_seq, now_ms);
    assert(after.len() == owners.len());
    assert(after[i].owner == owners[i].owner);
    if owners[i].owner != owner {
        lemma_moved_hold(owners, owner, next_page_seq, now_ms, i + 1);
    }
}

/// Pages are numbered in order: after a page that is not the last, the hold
/// points at the next record of the same history, under the next number.
pub proof fn law_pages_are_numbered_in_order(
    host: NativeV,
    req: NativeHistoryRequest,
    binding: NativeCursorOwner,
    bound: u32,
    record: RecordV,
    now_ms: u64,
)
    requires
        host.hold(req.owner) == Some(binding),
        binding.next_page_seq < u64::MAX,
        !record.finish,
        record.rows <= u32::MAX,
    ensures
        ({
            let done = host.delivered(req, binding.next_page_seq, bound, Ok(record), now_ms);
            &&& done.keep
            &&& done.host.hold(req.owner) == Some(
                moved(binding, (binding.next_page_seq + 1) as u64, now_ms),
            )
            &&& moved(binding, (binding.next_page_seq + 1) as u64, now_ms).cursor == binding.cursor
        }),
{
    lemma_moved_hold(host.owners, req.owner, (binding.next_page_seq + 1) as u64, now_ms, 0);
}

/// The last page ends the hold: its owner holds nothing any more.
pub proof fn law_the_last_page_ends_the_hold(
    host: NativeV,
    req: NativeHistoryRequest,
    page_seq: u64,
    bound: u32,
    record: RecordV,
    now_ms: u64,
)
    requires
        record.finish,
    ensures
        ({
            let done = host.delivered(req, page_seq, bound, Ok(record), now_ms);
            &&& !done.keep
            &&& done.host == host.released(req.owner)
        }),
{
}

/// A request that asks for too little, or that comes while the engine is busy,
/// is refused and keeps its cursor.
pub proof fn law_refused_requests_keep_their_cursor(
    host: NativeV,
    req: NativeHistoryRequest,
    page_seq: u64,
    bound: u32,
    error: NativeStateError,
    now_ms: u64,
)
    requires
        error is ImportBusy || (error matches NativeStateError::OutOfSpace {
            required_bytes,
            required_rows,
        } && 0 < required_bytes <= req.limits.max_history_page_bytes && 1
            <= host.budgets.max_history_page_rows && required_rows
            <= host.budgets.max_history_page_rows),
    ensures
        host.delivered(req, page_seq, bound, Err(error), now_ms).host == host,
{
}

} // verus!
