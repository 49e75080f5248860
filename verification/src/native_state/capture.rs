//! The host of a checkpoint's prefix, and the reader of its history.

use super::cut::{cut_outcome, encode_cut, OpaqueHistoryCursor, SnapshotCut};
use super::error::{EngineError, NativeStateError};
use crate::payload::{contents, payload_bytes};
use crate::wire::{BootstrapLimits, EngineCodec, EngineFeatureSet};
use bytes::Bytes;
use vstd::prelude::*;
use vstd::slice::*;

verus! {

/// The greatest number of codec records that are kept before READY.
pub const MAX_NATIVE_PREFIX_CHUNKS: usize = 4_096;

/// The greatest number of codec bytes that are kept before READY.
pub const MAX_NATIVE_PREFIX_BYTES: usize = 67_108_864;

/// What a server can bootstrap with.
#[derive(Debug, Clone, Copy, PartialEq, Eq)]
pub struct BootstrapCapabilities {
    /// The per-frame bounds.
    pub limits: BootstrapLimits,
    /// The engine's own encoding, if the engine can encode.
    pub native: Option<(EngineCodec, EngineFeatureSet)>,
}

/// Whether the engine can encode a snapshot: a small terminal could be made,
/// took its continuation limit, and encoded to some bytes.
pub fn official_snapshot_available(
    created: bool,
    continuation: bool,
    encoded: &Result<Vec<u8>, EngineError>,
) -> (available: bool)
    ensures
        available == (created && continuation && (encoded matches Ok(bytes) && bytes@.len() > 0)),
{
    if !created {
        return false;
    }
    if !continuation {
        return false;
    }
    match encoded {
        Ok(bytes) => bytes.len() > 0,
        Err(_) => false,
    }
}

/// What to advertise: the progressive snapshot, where the engine can encode
/// one.
pub fn native_bootstrap_capabilities(
    available: bool,
    limits: BootstrapLimits,
    required_native: EngineFeatureSet,
) -> (capabilities: BootstrapCapabilities)
    ensures
        capabilities == (BootstrapCapabilities {
            limits,
            native: if available {
                Some((EngineCodec::LibghosttySnapshotV1, required_native))
            } else {
                None
            },
        }),
{
    if !available {
        return BootstrapCapabilities { limits, native: None };
    }
    BootstrapCapabilities {
        limits,
        native: Some((EngineCodec::LibghosttySnapshotV1, required_native)),
    }
}

/// What a piece of a prefix is.
#[derive(Debug, Clone, Copy, PartialEq, Eq, Structural)]
pub enum NativeCheckpointChunkKind {
    /// Not the last.
    Record,
    /// The last: the client can render.
    Ready,
}

/// One piece of a prefix, written into the caller's buffer.
#[derive(Debug)]
pub struct NativeCheckpointChunk<'buffer> {
    /// What it is.
    pub kind: NativeCheckpointChunkKind,
    /// The codec that the wire names.
    pub codec_version: EngineCodec,
    /// Its bytes.
    pub bytes: &'buffer [u8],
}

/// The lesser of two.
pub open spec fn least(a: int, b: int) -> int {
    if a < b {
        a
    } else {
        b
    }
}

fn lesser(a: usize, b: usize) -> (least_of_both: usize)
    ensures
        least_of_both == least(a as int, b as int),
{
    if a < b {
        a
    } else {
        b
    }
}

fn chunk_plan(remaining: usize, max_record_bytes: usize) -> (want: Result<usize, NativeStateError>)
    ensures
        want == (if remaining == 0 || max_record_bytes == 0 {
            Err(NativeStateError::InvalidState)
        } else {
            Ok(least(remaining as int, max_record_bytes as int) as usize)
        }),
{
    if remaining == 0 || max_record_bytes == 0 {
        return Err(NativeStateError::InvalidState);
    }
    Ok(lesser(remaining, max_record_bytes))
}

/// The largest piece of a prefix of `prefix_len` bytes.
pub open spec fn piece_bound(max_chunk_bytes: int, prefix_len: int) -> int {
    let chunk = if max_chunk_bytes < 1 {
        1
    } else {
        least(max_chunk_bytes, MAX_NATIVE_PREFIX_BYTES as int)
    };
    least(
        chunk,
        if prefix_len < 1 {
            1
        } else {
            prefix_len
        },
    )
}

/// The largest piece of a prefix of `prefix_len` bytes.
pub fn prefix_record_bound(limits: BootstrapLimits, prefix_len: usize) -> (bound: Result<
    usize,
    NativeStateError,
>)
    ensures
        match bound {
            Ok(bound) => prefix_len <= MAX_NATIVE_PREFIX_BYTES && bound == piece_bound(
                limits.max_chunk_bytes as int,
                prefix_len as int,
            ),
            Err(error) => prefix_len > MAX_NATIVE_PREFIX_BYTES && error
                == NativeStateError::LimitExceeded,
        },
{
    let chunk: usize = limits.max_chunk_bytes as usize;
    if prefix_len > MAX_NATIVE_PREFIX_BYTES {
        return Err(NativeStateError::LimitExceeded);
    }
    let bound: usize = if chunk < 1 {
        1
    } else {
        lesser(chunk, MAX_NATIVE_PREFIX_BYTES)
    };
    let room: usize = if prefix_len < 1 {
        1
    } else {
        prefix_len
    };
    Ok(lesser(bound, room))
}

/// The bytes that a step of a prefix hands out, or why it does not.
pub open spec fn step_plan(
    len: int,
    pos: int,
    ready: bool,
    max_record_bytes: int,
    room: int,
) -> Result<int, NativeStateError> {
    let want = least(len - pos, max_record_bytes);
    if ready || len - pos == 0 || max_record_bytes == 0 {
        Err(NativeStateError::InvalidState)
    } else if room < want {
        Err(NativeStateError::OutOfSpace { required_bytes: want as usize, required_rows: 0 })
    } else {
        Ok(want)
    }
}

fn copy_into(bytes: &[u8], start: usize, want: usize, buffer: &mut [u8])
    requires
        start + want <= bytes@.len(),
        want <= old(buffer)@.len(),
    ensures
        final(buffer)@ == bytes@.subrange(start as int, start + want) + old(buffer)@.skip(
            want as int,
        ),
{
    let ghost before = buffer@;
    let ghost len = bytes@.len();
    let room: usize = bytes.len();
    let mut i: usize = 0;
    while i < want
        invariant
            room == bytes@.len(),
            start + want <= room,
            i <= want <= before.len(),
            buffer@ == bytes@.subrange(start as int, start + i) + before.skip(i as int),
        decreases want - i,
    {
        buffer[i] = bytes[start + i];
        i += 1;
        assert(buffer@ =~= bytes@.subrange(start as int, start + i) + before.skip(i as int));
    }
}

fn step_prefix<'buffer>(
    prefix: &Bytes,
    pos: &mut usize,
    ready: &mut bool,
    max_record_bytes: usize,
    buffer: &'buffer mut [u8],
) -> (chunk: Result<NativeCheckpointChunk<'buffer>, NativeStateError>)
    requires
        *old(pos) <= contents(*prefix).len(),
    ensures
        ({
            let data = contents(*prefix);
            let start = *old(pos) as int;
            match step_plan(
                data.len() as int,
                start,
                *old(ready),
                max_record_bytes as int,
                old(buffer)@.len() as int,
            ) {
                Ok(want) => {
                    let end = start + want;
                    let last = end == data.len();
                    &&& *final(pos) == end
                    &&& *final(ready) == last
                    &&& chunk matches Ok(chunk)
                    &&& chunk.bytes@ == data.subrange(start, end)
                    &&& chunk.codec_version == EngineCodec::LibghosttyCheckpointV2
                    &&& chunk.kind == (if last {
                        NativeCheckpointChunkKind::Ready
                    } else {
                        NativeCheckpointChunkKind::Record
                    })
                },
                Err(error) => {
                    &&& *final(pos) == *old(pos)
                    &&& *final(ready) == *old(ready)
                    &&& chunk matches Err(refused)
                    &&& refused == error
                },
            }
        }),
{
    if *ready {
        return Err(NativeStateError::InvalidState);
    }
    let remaining: usize = prefix.len() - *pos;
    let want: usize = match chunk_plan(remaining, max_record_bytes) {
        Ok(want) => want,
        Err(error) => {
            return Err(error);
        },
    };
    if buffer.len() < want {
        return Err(NativeStateError::OutOfSpace { required_bytes: want, required_rows: 0 });
    }
    let start: usize = *pos;
    let bytes = payload_bytes(prefix);
    copy_into(bytes, start, want, buffer);
    let end: usize = start + want;
    *pos = end;
    let last = end >= prefix.len();
    if last {
        *ready = true;
    }
    let piece = slice_subrange(buffer, 0, want);
    assert(piece@ =~= contents(*prefix).subrange(start as int, end as int));
    Ok(
        NativeCheckpointChunk {
            kind: if last {
                NativeCheckpointChunkKind::Ready
            } else {
                NativeCheckpointChunkKind::Record
            },
            codec_version: EngineCodec::LibghosttyCheckpointV2,
            bytes: piece,
        },
    )
}

/// The host of a prefix: hands out a snapshot in bounded pieces.
#[derive(Debug)]
pub struct NativeCheckpointCapture {
    prefix: Bytes,
    suffix: Bytes,
    cursor: OpaqueHistoryCursor,
    pos: usize,
    max_record_bytes: usize,
    ready: bool,
}

/// A prefix host as contracts speak of it.
#[verifier::ext_equal]
pub struct CaptureV {
    /// The snapshot.
    pub prefix: Seq<u8>,
    /// What was handed out.
    pub pos: int,
    /// The largest piece.
    pub max_record_bytes: int,
    /// Whether READY was handed out.
    pub ready: bool,
}

impl View for NativeCheckpointCapture {
    type V = CaptureV;

    closed spec fn view(&self) -> CaptureV {
        CaptureV {
            prefix: contents(self.prefix),
            pos: self.pos as int,
            max_record_bytes: self.max_record_bytes as int,
            ready: self.ready,
        }
    }
}

impl CaptureV {
    /// What was handed out lies within the snapshot, and READY is all of it.
    pub open spec fn valid(self) -> bool {
        &&& 0 <= self.pos <= self.prefix.len()
        &&& 1 <= self.max_record_bytes
        &&& self.ready == (self.pos == self.prefix.len())
    }

    /// The host after a piece of `want` bytes.
    pub open spec fn after(self, want: int) -> Self {
        CaptureV {
            pos: self.pos + want,
            ready: self.pos + want == self.prefix.len(),
            ..self
        }
    }
}

impl NativeCheckpointCapture {
    /// Take one snapshot and prepare to hand it out. `encoded` is what the
    /// engine encoded, `position` where its decoder stopped after READY.
    pub fn new(
        encoded: Result<Vec<u8>, EngineError>,
        position: Result<u64, EngineError>,
        limits: BootstrapLimits,
    ) -> (host: Result<Self, NativeStateError>)
        ensures
            exists|cut: Result<SnapshotCut, NativeStateError>| #[trigger]
                cut_outcome(encoded, position, cut) && (match cut {
                    Err(error) => host == Err::<Self, NativeStateError>(error),
                    Ok(cut) => {
                        let prefix = contents(cut.prefix);
                        if prefix.len() > MAX_NATIVE_PREFIX_BYTES {
                            host == Err::<Self, NativeStateError>(NativeStateError::LimitExceeded)
                        } else {
                            host matches Ok(host) && host@.valid() && host@ == (CaptureV {
                                prefix,
                                pos: 0,
                                max_record_bytes: piece_bound(
                                    limits.max_chunk_bytes as int,
                                    prefix.len() as int,
                                ),
                                ready: false,
                            })
                        }
                    },
                }),
    {
        let outcome = encode_cut(encoded, position);
        let cut = match outcome {
            Ok(cut) => cut,
            Err(error) => {
                assert(cut_outcome(
                    encoded,
                    position,
                    Err::<SnapshotCut, NativeStateError>(error),
                ));
                return Err(error);
            },
        };
        assert(cut_outcome(encoded, position, Ok::<SnapshotCut, NativeStateError>(cut)));
        let max_record_bytes: usize = match prefix_record_bound(limits, cut.prefix.len()) {
            Ok(bound) => bound,
            Err(error) => {
                return Err(error);
            },
        };
        Ok(
            NativeCheckpointCapture {
                prefix: cut.prefix,
                suffix: cut.suffix,
                cursor: cut.cursor,
                pos: 0,
                max_record_bytes,
                ready: false,
            },
        )
    }

    /// Write the next piece into `buffer`. The last piece is READY.
    pub fn step<'buffer>(&mut self, buffer: &'buffer mut [u8]) -> (chunk: Result<
        NativeCheckpointChunk<'buffer>,
        NativeStateError,
    >)
        requires
            old(self)@.valid(),
        ensures
            final(self)@.valid(),
            ({
                let host = old(self)@;
                match step_plan(
                    host.prefix.len() as int,
                    host.pos,
                    host.ready,
                    host.max_record_bytes,
                    old(buffer)@.len() as int,
                ) {
                    Ok(want) => {
                        &&& final(self)@ == host.after(want)
                        &&& chunk matches Ok(chunk)
                        &&& chunk.bytes@ == host.prefix.subrange(host.pos, host.pos + want)
                        &&& chunk.codec_version == EngineCodec::LibghosttyCheckpointV2
                        &&& (chunk.kind is Ready) == host.after(want).ready
                    },
                    Err(error) => {
                        &&& final(self)@ == host
                        &&& chunk matches Err(refused)
                        &&& refused == error
                    },
                }
            }),
    {
        step_prefix(&self.prefix, &mut self.pos, &mut self.ready, self.max_record_bytes, buffer)
    }

    /// The largest piece.
    pub fn max_record_bytes(&self) -> (bound: usize)
        ensures
            bound == self@.max_record_bytes,
    {
        self.max_record_bytes
    }

    /// Whether READY was handed out.
    pub fn is_ready(&self) -> (ready: bool)
        ensures
            ready == self@.ready,
    {
        self.ready
    }

    /// Let go of the snapshot without serving its history.
    pub fn abort(self) -> (done: Result<(), NativeStateError>)
        ensures
            done is Ok,
    {
        Ok(())
    }
}

/// One answer of a history reader.
#[derive(Debug)]
pub enum NativeHistoryEvent<'buffer> {
    /// A piece of history.
    Page {
        /// Its bytes, in the caller's buffer.
        bytes: &'buffer [u8],
        /// The terminal rows it stands for.
        rows: usize,
        /// Whether it completes the history.
        page_complete: bool,
        /// The cursor for the next request.
        next_cursor: OpaqueHistoryCursor,
    },
    /// Nothing older remains.
    End,
}

/// The reader of the history that one cut froze.
#[derive(Debug)]
pub struct NativeHistoryCursor {
    suffix: Bytes,
    cursor: OpaqueHistoryCursor,
    pos: usize,
    max_unit_bytes: usize,
    invalidated: Option<NativeStateError>,
}

/// A history reader as contracts speak of it.
#[verifier::ext_equal]
pub struct HistoryV {
    /// The frozen history.
    pub suffix: Seq<u8>,
    /// The cursor that names it.
    pub cursor: Seq<u8>,
    /// What was handed out.
    pub pos: int,
    /// The largest piece.
    pub max_unit_bytes: int,
    /// Why the history can no longer be read.
    pub invalidated: Option<NativeStateError>,
}

impl View for NativeHistoryCursor {
    type V = HistoryV;

    closed spec fn view(&self) -> HistoryV {
        HistoryV {
            suffix: contents(self.suffix),
            cursor: self.cursor@,
            pos: self.pos as int,
            max_unit_bytes: self.max_unit_bytes as int,
            invalidated: self.invalidated,
        }
    }
}

/// What a history request comes to.
pub enum HistoryPlan {
    /// A piece of so many bytes.
    Page(int),
    /// Nothing older remains.
    End,
    /// It is refused.
    Refused(NativeStateError),
}

impl HistoryV {
    /// What was handed out lies within the history.
    pub open spec fn valid(self) -> bool {
        &&& 0 <= self.pos <= self.suffix.len()
        &&& 1 <= self.max_unit_bytes
    }

    /// What a request for `max_bytes`, with `room` for them, comes to.
    pub open spec fn plan(self, max_bytes: int, room: int) -> HistoryPlan {
        let remaining = self.suffix.len() - self.pos;
        let want = least(least(remaining, self.max_unit_bytes), max_bytes);
        match self.invalidated {
            Some(error) => HistoryPlan::Refused(error),
            None => if max_bytes == 0 {
                HistoryPlan::Refused(NativeStateError::LimitExceeded)
            } else if remaining == 0 {
                HistoryPlan::End
            } else if room < want {
                HistoryPlan::Refused(
                    NativeStateError::OutOfSpace {
                        required_bytes: want as usize,
                        required_rows: 0,
                    },
                )
            } else {
                HistoryPlan::Page(want)
            },
        }
    }
}

impl NativeHistoryCursor {
    /// Freeze the history of one cut. `encoded` is what the engine encoded,
    /// `position` where its decoder stopped after READY.
    pub fn new(
        encoded: Result<Vec<u8>, EngineError>,
        position: Result<u64, EngineError>,
        limits: BootstrapLimits,
    ) -> (reader: Result<Self, NativeStateError>)
        ensures
            exists|cut: Result<SnapshotCut, NativeStateError>| #[trigger]
                cut_outcome(encoded, position, cut) && (match cut {
                    Err(error) => reader == Err::<Self, NativeStateError>(error),
                    Ok(cut) => reader matches Ok(reader) && reader@.valid() && reader@ == (
                    HistoryV {
                        suffix: contents(cut.suffix),
                        cursor: cut.cursor@,
                        pos: 0,
                        max_unit_bytes: if limits.max_history_page_bytes == 0 {
                            1
                        } else {
                            limits.max_history_page_bytes as int
                        },
                        invalidated: None,
                    }),
                }),
    {
        let outcome = encode_cut(encoded, position);
        let cut = match outcome {
            Ok(cut) => cut,
            Err(error) => {
                assert(cut_outcome(
                    encoded,
                    position,
                    Err::<SnapshotCut, NativeStateError>(error),
                ));
                return Err(error);
            },
        };
        assert(cut_outcome(encoded, position, Ok::<SnapshotCut, NativeStateError>(cut)));
        let max_unit_bytes: usize = if limits.max_history_page_bytes == 0 {
            1
        } else {
            limits.max_history_page_bytes as usize
        };
        Ok(
            NativeHistoryCursor {
                suffix: cut.suffix,
                cursor: cut.cursor,
                pos: 0,
                max_unit_bytes,
                invalidated: None,
            },
        )
    }

    /// The checkpoint that the history belongs to.
    pub fn checkpoint(&self) -> (cursor: &OpaqueHistoryCursor)
        ensures
            cursor@ == self@.cursor,
    {
        &self.cursor
    }

    /// The cursor that is advertised with READY.
    pub fn cursor(&self) -> (cursor: &OpaqueHistoryCursor)
        ensures
            cursor@ == self@.cursor,
    {
        &self.cursor
    }

    /// The terminal was reset: the history can no longer be read.
    pub fn reset(&mut self)
        ensures
            final(self)@ == (HistoryV {
                invalidated: Some(NativeStateError::Reset),
                ..old(self)@
            }),
    {
        self.invalidated = Some(NativeStateError::Reset);
    }

    /// The terminal was asked to resize. Where it did, the history can no
    /// longer be read.
    pub fn resize(&mut self, resized: Result<(), EngineError>) -> (result: Result<(), EngineError>)
        ensures
            result == resized,
            final(self)@ == (if resized is Ok {
                HistoryV { invalidated: Some(NativeStateError::Resize), ..old(self)@ }
            } else {
                old(self)@
            }),
    {
        if resized.is_ok() {
            self.invalidated = Some(NativeStateError::Resize);
        }
        resized
    }

    /// Write the next piece of history into `buffer`, at most `max_bytes`.
    pub fn next<'buffer>(&mut self, max_bytes: u32, buffer: &'buffer mut [u8]) -> (event: Result<
        NativeHistoryEvent<'buffer>,
        NativeStateError,
    >)
        requires
            old(self)@.valid(),
        ensures
            final(self)@.valid(),
            ({
                let reader = old(self)@;
                match reader.plan(max_bytes as int, old(buffer)@.len() as int) {
                    HistoryPlan::Page(want) => {
                        &&& final(self)@ == (HistoryV { pos: reader.pos + want, ..reader })
                        &&& event matches Ok(
                            NativeHistoryEvent::Page { bytes, rows, page_complete, next_cursor },
                        )
                        &&& bytes@ == reader.suffix.subrange(reader.pos, reader.pos + want)
                        &&& rows == 0
                        &&& page_complete == (reader.pos + want == reader.suffix.len())
                        &&& next_cursor@ == reader.cursor
                    },
                    HistoryPlan::End => {
                        &&& final(self)@ == reader
                        &&& event matches Ok(NativeHistoryEvent::End)
                    },
                    HistoryPlan::Refused(error) => {
                        &&& final(self)@ == reader
                        &&& event matches Err(refused)
                        &&& refused == error
                    },
                }
            }),
    {
        match self.invalidated {
            Some(error) => {
                return Err(error);
            },
            None => {},
        }
        let requested: usize = max_bytes as usize;
        if requested == 0 {
            return Err(NativeStateError::LimitExceeded);
        }
        let remaining: usize = self.suffix.len() - self.pos;
        if remaining == 0 {
            return Ok(NativeHistoryEvent::End);
        }
        let want: usize = lesser(lesser(remaining, self.max_unit_bytes), requested);
        if buffer.len() < want {
            return Err(NativeStateError::OutOfSpace { required_bytes: want, required_rows: 0 });
        }
        let start: usize = self.pos;
        let bytes = payload_bytes(&self.suffix);
        copy_into(bytes, start, want, buffer);
        let end: usize = start + want;
        self.pos = end;
        let piece = slice_subrange(buffer, 0, want);
        assert(piece@ =~= contents(self.suffix).subrange(start as int, end as int));
        Ok(
            NativeHistoryEvent::Page {
                bytes: piece,
                rows: 0,
                page_complete: end >= self.suffix.len(),
                next_cursor: self.cursor,
            },
        )
    }
}

/// The pieces of `data` from `pos` on, none larger than `most`.
pub open spec fn pieces(data: Seq<u8>, pos: int, most: int) -> Seq<Seq<u8>>
    decreases data.len() - pos,
{
    if pos < 0 || pos >= data.len() || most < 1 {
        Seq::empty()
    } else {
        let want = least(data.len() - pos, most);
        seq![data.subrange(pos, pos + want)] + pieces(data, pos + want, most)
    }
}

/// A prefix arrives whole: its pieces, in order, are the snapshot, and none is
/// larger than the bound.
pub proof fn law_pieces_rejoin_to_the_prefix(data: Seq<u8>, pos: int, most: int)
    requires
        0 <= pos <= data.len(),
        most >= 1,
    ensures
        pieces(data, pos, most).flatten() == data.skip(pos),
        forall|i: int|
            0 <= i < pieces(data, pos, most).len() ==> 1 <= (#[trigger] pieces(
                data,
                pos,
                most,
            )[i]).len() <= most,
    decreases data.len() - pos,
{
    if pos < data.len() {
        let want = least(data.len() - pos, most);
        let first = data.subrange(pos, pos + want);
        let rest = pieces(data, pos + want, most);
        law_pieces_rejoin_to_the_prefix(data, pos + want, most);
        let all = pieces(data, pos, most);
        assert(all =~= seq![first] + rest);
        assert(all.drop_first() =~= rest);
        assert(all.first() == first);
        assert(all.flatten() == first + rest.flatten());
        assert(first + data.skip(pos + want) =~= data.skip(pos));
        assert forall|i: int| 0 <= i < all.len() implies 1 <= (#[trigger] all[i]).len() <= most by {
            if i > 0 {
                assert(all[i] == rest[i - 1]);
            }
        }
    } else {
        assert(pieces(data, pos, most).flatten() =~= data.skip(pos));
    }
}

/// Every step that has room hands out the next of the pieces, and READY comes
/// with the last of them and with no other.
pub proof fn law_steps_hand_out_the_pieces(host: CaptureV, room: int)
    requires
        host.valid(),
        !host.ready,
        room >= host.max_record_bytes,
    ensures
        ({
            let plan = step_plan(
                host.prefix.len() as int,
                host.pos,
                host.ready,
                host.max_record_bytes,
                room,
            );
            let all = pieces(host.prefix, host.pos, host.max_record_bytes);
            &&& plan matches Ok(want)
            &&& all.len() > 0
            &&& host.prefix.subrange(host.pos, host.pos + want) == all[0]
            &&& pieces(host.prefix, host.after(want).pos, host.max_record_bytes)
                == all.drop_first()
            &&& host.after(want).ready == (all.len() == 1)
            &&& host.after(want).valid()
        }),
{
    let want = least(host.prefix.len() - host.pos, host.max_record_bytes);
    let all = pieces(host.prefix, host.pos, host.max_record_bytes);
    let rest = pieces(host.prefix, host.pos + want, host.max_record_bytes);
    assert(all =~= seq![host.prefix.subrange(host.pos, host.pos + want)] + rest);
    assert(all.drop_first() =~= rest);
    if host.pos + want < host.prefix.len() {
        assert(rest.len() > 0);
    }
}

/// A reset or a resize ends the history: no later request gets any of it.
pub proof fn law_invalidated_history_stays_unreadable(
    reader: HistoryV,
    error: NativeStateError,
    max_bytes: int,
    room: int,
)
    requires
        reader.invalidated == Some(error),
    ensures
        reader.plan(max_bytes, room) == HistoryPlan::Refused(error),
{
}

} // verus!
