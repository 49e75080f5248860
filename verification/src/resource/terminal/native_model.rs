//! The native side of a terminal: who bootstraps, who reads which history, and
//! who waits for which publication.

use crate::ids::{BootstrapId, StreamId, TerminalId};
use crate::native_state::cut::OpaqueHistoryCursor;
use crate::native_state::error::NativeStateError;
use crate::native_state::generation::GenerationV;
use crate::native_state::manager::{
    CaptureOptions, ManagedV, NativeManagedCapture, NativeTerminalManager,
};
use crate::payload::contents;
use crate::wire::{
    BootstrapLimits, BootstrapStreamProfile, FrameKind, HistoryRejectionReason,
    HistoryTombstoneReason, TombstoneReason,
};
use bytes::Bytes;
use vstd::prelude::*;

verus! {

/// The bounds that every native bootstrap of a terminal keeps to.
#[derive(Debug, Clone, Copy, PartialEq, Eq, Structural)]
pub struct NativeBudgets {
    /// The most consumers that share one capture.
    pub max_history_clients: usize,
    /// The most live output that is kept for a capture or a publication.
    pub max_replay_bytes: usize,
    /// How long a history cursor lasts without use, in milliseconds.
    pub history_ttl_ms: u64,
    /// The room that a READY frame's cursor takes.
    pub max_history_cursor_bytes: usize,
    /// The most rows of a history page.
    pub max_history_page_rows: u32,
}

/// Where the answer to one request goes.
#[derive(Debug, Clone, Copy, PartialEq, Eq, Structural)]
pub struct ReplyToken(pub u64);

/// A request for a bootstrap.
#[derive(Debug, PartialEq, Eq)]
pub struct NativeBootstrapRequest {
    /// The consumer's pump.
    pub owner: u64,
    /// Where the answer goes.
    pub reply: ReplyToken,
    /// The terminal, as the consumer names it.
    pub terminal_id: TerminalId,
    /// The stream.
    pub stream_id: StreamId,
    /// The generation to make.
    pub bootstrap_id: BootstrapId,
    /// The per-frame bounds.
    pub limits: BootstrapLimits,
    /// The most bytes of the answer.
    pub max_bytes: usize,
    /// The most frames of the answer.
    pub max_frames: usize,
}

impl Clone for NativeBootstrapRequest {
    fn clone(&self) -> (copy: Self)
        ensures
            copy == *self,
    {
        NativeBootstrapRequest {
            owner: self.owner,
            reply: self.reply,
            terminal_id: self.terminal_id.clone(),
            stream_id: self.stream_id,
            bootstrap_id: self.bootstrap_id,
            limits: self.limits,
            max_bytes: self.max_bytes,
            max_frames: self.max_frames,
        }
    }
}

/// A consumer's hold on a history.
#[derive(Debug, PartialEq, Eq)]
pub struct NativeCursorOwner {
    /// The consumer's pump.
    pub owner: u64,
    /// The history.
    pub cursor: OpaqueHistoryCursor,
    /// The next record.
    pub record_index: usize,
    /// When it was last used, in milliseconds.
    pub touched_ms: u64,
    /// The next page's number.
    pub next_page_seq: u64,
    /// The terminal, as the consumer names it.
    pub terminal_id: TerminalId,
    /// The stream.
    pub stream_id: StreamId,
    /// The generation.
    pub bootstrap_id: BootstrapId,
}

impl Clone for NativeCursorOwner {
    fn clone(&self) -> (copy: Self)
        ensures
            copy == *self,
    {
        NativeCursorOwner {
            owner: self.owner,
            cursor: self.cursor,
            record_index: self.record_index,
            touched_ms: self.touched_ms,
            next_page_seq: self.next_page_seq,
            terminal_id: self.terminal_id.clone(),
            stream_id: self.stream_id,
            bootstrap_id: self.bootstrap_id,
        }
    }
}

/// A piece of live output with its number.
#[derive(Debug, PartialEq, Eq)]
pub struct Output {
    /// The number.
    pub seq: u64,
    /// The output.
    pub bytes: Bytes,
}

impl Clone for Output {
    fn clone(&self) -> (copy: Self)
        ensures
            copy == *self,
    {
        Output { seq: self.seq, bytes: self.bytes.clone() }
    }
}

/// How far a capture is.
#[derive(Debug, Clone, Copy, PartialEq, Eq, Structural)]
pub enum Phase {
    /// The engine was asked to take the terminal.
    Starting,
    /// The engine hands out records.
    Capturing,
    /// The engine was asked to let the cut go.
    Detaching,
}

/// A bootstrap that is being captured.
#[derive(Debug)]
pub struct PendingNativeBootstrap {
    /// How far it is.
    pub phase: Phase,
    /// The capture, once the engine has the terminal.
    pub capture: Option<NativeManagedCapture>,
    /// Who waits for it.
    pub waiters: Vec<NativeBootstrapRequest>,
    /// The records so far.
    pub records: Vec<Bytes>,
    /// The memory that the records take.
    pub retained_bytes: usize,
    /// The most memory that the records may take.
    pub capture_bytes: usize,
    /// The length of the buffer that the engine writes to.
    pub scratch_len: usize,
    /// The most chunks.
    pub max_chunks: usize,
    /// The largest chunk.
    pub chunk_bytes: usize,
    /// The output that the capture includes.
    pub base_seq: u64,
    /// The chunks so far.
    pub chunk_count: usize,
    /// The per-frame bounds.
    pub limits: BootstrapLimits,
    /// The output since the capture began.
    pub replay: Vec<Output>,
    /// The bytes of that output.
    pub replay_bytes: usize,
}

/// A pending bootstrap as contracts speak of it.
#[verifier::ext_equal]
pub struct PendingV {
    /// How far it is.
    pub phase: Phase,
    /// The capture.
    pub capture: Option<ManagedV>,
    /// Who waits for it.
    pub waiters: Seq<NativeBootstrapRequest>,
    /// The records so far.
    pub records: Seq<Seq<u8>>,
    /// The memory that the records take.
    pub retained_bytes: int,
    /// The most memory that the records may take.
    pub capture_bytes: int,
    /// The length of the buffer that the engine writes to.
    pub scratch_len: int,
    /// The most chunks.
    pub max_chunks: int,
    /// The largest chunk.
    pub chunk_bytes: int,
    /// The output that the capture includes.
    pub base_seq: u64,
    /// The chunks so far.
    pub chunk_count: int,
    /// The per-frame bounds.
    pub limits: BootstrapLimits,
    /// The output since the capture began.
    pub replay: Seq<Output>,
    /// The bytes of that output.
    pub replay_bytes: int,
}

/// Payloads as contracts speak of them.
pub open spec fn contents_of(payloads: Seq<Bytes>) -> Seq<Seq<u8>> {
    payloads.map_values(|payload: Bytes| contents(payload))
}

impl View for PendingNativeBootstrap {
    type V = PendingV;

    open spec fn view(&self) -> PendingV {
        PendingV {
            phase: self.phase,
            capture: match self.capture {
                Some(capture) => Some(capture@),
                None => None,
            },
            waiters: self.waiters@,
            records: contents_of(self.records@),
            retained_bytes: self.retained_bytes as int,
            capture_bytes: self.capture_bytes as int,
            scratch_len: self.scratch_len as int,
            max_chunks: self.max_chunks as int,
            chunk_bytes: self.chunk_bytes as int,
            base_seq: self.base_seq,
            chunk_count: self.chunk_count as int,
            limits: self.limits,
            replay: self.replay@,
            replay_bytes: self.replay_bytes as int,
        }
    }
}

/// A finished capture that consumers have yet to pick their output up from.
#[derive(Debug)]
pub struct NativePublicationGeneration {
    /// The history it goes with.
    pub cursor: OpaqueHistoryCursor,
    /// The output that the capture includes.
    pub base_seq: u64,
    /// The output since.
    pub replay: Vec<Output>,
    /// The bytes of that output.
    pub replay_bytes: usize,
    /// Who has yet to pick it up.
    pub waiting: Vec<u64>,
}

/// A publication as contracts speak of it.
#[verifier::ext_equal]
pub struct PublicationV {
    /// The history it goes with.
    pub cursor: Seq<u8>,
    /// The output that the capture includes.
    pub base_seq: u64,
    /// The output since.
    pub replay: Seq<Output>,
    /// The bytes of that output.
    pub replay_bytes: int,
    /// Who has yet to pick it up.
    pub waiting: Seq<u64>,
}

impl View for NativePublicationGeneration {
    type V = PublicationV;

    open spec fn view(&self) -> PublicationV {
        PublicationV {
            cursor: self.cursor@,
            base_seq: self.base_seq,
            replay: self.replay@,
            replay_bytes: self.replay_bytes as int,
            waiting: self.waiting@,
        }
    }
}

/// A frame of the bootstrap and history streams as contracts speak of it.
#[verifier::ext_equal]
#[allow(inconsistent_fields)]
pub enum StreamV {
    /// A generation starts.
    Begin {
        /// The terminal.
        terminal_id: TerminalId,
        /// Its stream.
        stream_id: StreamId,
        /// The generation.
        bootstrap_id: BootstrapId,
        /// How it is encoded.
        profile: BootstrapStreamProfile,
        /// Grid width.
        cols: u16,
        /// Grid height.
        rows: u16,
        /// The output that it includes.
        base_seq: u64,
    },
    /// A piece of a generation.
    Chunk {
        /// The terminal.
        terminal_id: TerminalId,
        /// Its stream.
        stream_id: StreamId,
        /// The generation.
        bootstrap_id: BootstrapId,
        /// Its place.
        chunk_seq: u32,
        /// The piece.
        payload: Seq<u8>,
    },
    /// A generation is complete.
    Ready {
        /// The terminal.
        terminal_id: TerminalId,
        /// Its stream.
        stream_id: StreamId,
        /// The generation.
        bootstrap_id: BootstrapId,
        /// Where history continues.
        history_cursor: Option<Seq<u8>>,
    },
    /// A generation ended early.
    Tombstone {
        /// The terminal.
        terminal_id: TerminalId,
        /// Its stream.
        stream_id: StreamId,
        /// The generation.
        bootstrap_id: BootstrapId,
        /// Why.
        reason: TombstoneReason,
        /// The last output that it is good for.
        last_valid_seq: u64,
    },
    /// A page of history.
    Page {
        /// The terminal.
        terminal_id: TerminalId,
        /// Its stream.
        stream_id: StreamId,
        /// The generation.
        bootstrap_id: BootstrapId,
        /// Its place.
        page_seq: u64,
        /// The cursor that was asked for.
        cursor: Seq<u8>,
        /// Where the next page starts.
        next_cursor: Option<Seq<u8>>,
        /// The page.
        payload: Seq<u8>,
        /// Its rows.
        rows: u32,
    },
    /// A history cursor is gone.
    HistoryTombstone {
        /// The terminal.
        terminal_id: TerminalId,
        /// Its stream.
        stream_id: StreamId,
        /// The generation.
        bootstrap_id: BootstrapId,
        /// The cursor.
        cursor: Seq<u8>,
        /// Why.
        reason: HistoryTombstoneReason,
    },
    /// A history request was refused.
    Rejected {
        /// The terminal.
        terminal_id: TerminalId,
        /// Its stream.
        stream_id: StreamId,
        /// The generation.
        bootstrap_id: BootstrapId,
        /// The cursor.
        cursor: Seq<u8>,
        /// Why.
        reason: HistoryRejectionReason,
        /// The bytes that it takes.
        required_bytes: u32,
        /// The rows that it takes.
        required_rows: u32,
    },
    /// Any other frame.
    Other,
}

/// The bytes behind an optional payload.
pub open spec fn optional_contents(payload: Option<Bytes>) -> Option<Seq<u8>> {
    match payload {
        Some(payload) => Some(contents(payload)),
        None => None,
    }
}

/// A frame as contracts speak of it.
pub open spec fn stream_view(frame: FrameKind) -> StreamV {
    match frame {
        FrameKind::BootstrapBegin {
            terminal_id,
            stream_id,
            bootstrap_id,
            profile,
            cols,
            rows,
            base_seq,
        } => StreamV::Begin {
            terminal_id,
            stream_id,
            bootstrap_id,
            profile,
            cols,
            rows,
            base_seq,
        },
        FrameKind::BootstrapChunk { terminal_id, stream_id, bootstrap_id, chunk_seq, payload } =>
            StreamV::Chunk {
                terminal_id,
                stream_id,
                bootstrap_id,
                chunk_seq,
                payload: contents(payload),
            },
        FrameKind::BootstrapReady { terminal_id, stream_id, bootstrap_id, history_cursor } =>
            StreamV::Ready {
                terminal_id,
                stream_id,
                bootstrap_id,
                history_cursor: optional_contents(history_cursor),
            },
        FrameKind::BootstrapTombstone {
            terminal_id,
            stream_id,
            bootstrap_id,
            reason,
            last_valid_seq,
        } => StreamV::Tombstone { terminal_id, stream_id, bootstrap_id, reason, last_valid_seq },
        FrameKind::HistoryPage {
            terminal_id,
            stream_id,
            bootstrap_id,
            page_seq,
            cursor,
            next_cursor,
            payload,
            rows,
        } => StreamV::Page {
            terminal_id,
            stream_id,
            bootstrap_id,
            page_seq,
            cursor: contents(cursor),
            next_cursor: optional_contents(next_cursor),
            payload: contents(payload),
            rows,
        },
        FrameKind::HistoryTombstone { terminal_id, stream_id, bootstrap_id, cursor, reason } =>
            StreamV::HistoryTombstone {
                terminal_id,
                stream_id,
                bootstrap_id,
                cursor: contents(cursor),
                reason,
            },
        FrameKind::HistoryRejected {
            terminal_id,
            stream_id,
            bootstrap_id,
            cursor,
            reason,
            required_bytes,
            required_rows,
        } => StreamV::Rejected {
            terminal_id,
            stream_id,
            bootstrap_id,
            cursor: contents(cursor),
            reason,
            required_bytes,
            required_rows,
        },
        _ => StreamV::Other,
    }
}

/// The answer to a bootstrap request.
#[derive(Debug)]
pub struct NativeBootstrapReply {
    /// The frames.
    pub frames: Vec<FrameKind>,
    /// The memory that they take.
    pub retained_bytes: usize,
    /// The output that they include.
    pub base_seq: u64,
    /// The history that goes with them.
    pub publication_cursor: OpaqueHistoryCursor,
}

/// The answer to a bootstrap request as contracts speak of it.
#[verifier::ext_equal]
pub struct ReplyV {
    /// The frames.
    pub frames: Seq<StreamV>,
    /// The memory that they take.
    pub retained_bytes: int,
    /// The output that they include.
    pub base_seq: u64,
    /// The history that goes with them.
    pub publication_cursor: Seq<u8>,
}

/// Frames as contracts speak of them.
pub open spec fn frames_view(frames: Seq<FrameKind>) -> Seq<StreamV> {
    frames.map_values(|frame: FrameKind| stream_view(frame))
}

impl View for NativeBootstrapReply {
    type V = ReplyV;

    open spec fn view(&self) -> ReplyV {
        ReplyV {
            frames: frames_view(self.frames@),
            retained_bytes: self.retained_bytes as int,
            base_seq: self.base_seq,
            publication_cursor: self.publication_cursor@,
        }
    }
}

/// Something to be done outside: answers to send, and work for the engine.
#[derive(Debug)]
pub enum NativeAction {
    /// Refuse a bootstrap request.
    Refuse {
        /// Where the answer goes.
        reply: ReplyToken,
        /// Why.
        error: NativeStateError,
    },
    /// Answer a bootstrap request. If the answer cannot be delivered, the owner
    /// is to be released.
    Answer {
        /// Where the answer goes.
        reply: ReplyToken,
        /// Who asked.
        owner: u64,
        /// The answer.
        answer: NativeBootstrapReply,
    },
    /// Send a frame to one consumer's pump.
    Control {
        /// The pump.
        owner: u64,
        /// The frame.
        frame: FrameKind,
    },
    /// Write output to the terminal that was held back from it.
    Replay {
        /// The output.
        output: Vec<Output>,
    },
    /// Ask the engine to take the terminal, and report whether it did.
    Capture {
        /// With these options.
        options: CaptureOptions,
    },
    /// Ask the engine to give the terminal back.
    Abort,
    /// Ask the engine to let the cut go, and report whether it did.
    Detach,
}

/// A [`NativeAction`] as contracts speak of it.
#[verifier::ext_equal]
pub enum ActionV {
    /// Refuse a bootstrap request.
    Refuse(ReplyToken, NativeStateError),
    /// Answer a bootstrap request.
    Answer(ReplyToken, u64, ReplyV),
    /// Send a frame to one consumer's pump.
    Control(u64, StreamV),
    /// Write output to the terminal.
    Replay(Seq<Output>),
    /// Ask the engine to take the terminal.
    Capture(CaptureOptions),
    /// Ask the engine to give the terminal back.
    Abort,
    /// Ask the engine to let the cut go.
    Detach,
}

impl View for NativeAction {
    type V = ActionV;

    open spec fn view(&self) -> ActionV {
        match *self {
            NativeAction::Refuse { reply, error } => ActionV::Refuse(reply, error),
            NativeAction::Answer { reply, owner, answer } => ActionV::Answer(reply, owner, answer@),
            NativeAction::Control { owner, frame } => ActionV::Control(owner, stream_view(frame)),
            NativeAction::Replay { output } => ActionV::Replay(output@),
            NativeAction::Capture { options } => ActionV::Capture(options),
            NativeAction::Abort => ActionV::Abort,
            NativeAction::Detach => ActionV::Detach,
        }
    }
}

/// Actions as contracts speak of them.
pub open spec fn actions(done: Seq<NativeAction>) -> Seq<ActionV> {
    done.map_values(|action: NativeAction| action@)
}

/// Record one more action.
pub fn act(out: &mut Vec<NativeAction>, action: NativeAction)
    ensures
        actions(final(out)@) == actions(old(out)@).push(action@),
{
    let ghost before = out@;
    out.push(action);
    assert(actions(out@) =~= actions(before).push(action@));
}

/// The native side of a terminal.
#[derive(Debug)]
pub struct NativeHost {
    /// The cuts of the terminal, or why it has none.
    pub manager: Result<NativeTerminalManager, NativeStateError>,
    /// The bootstrap that is being captured.
    pub pending: Option<PendingNativeBootstrap>,
    /// The bootstraps that come next.
    pub backlog: Vec<NativeBootstrapRequest>,
    /// Who reads which history.
    pub owners: Vec<NativeCursorOwner>,
    /// What is published.
    pub publications: Vec<NativePublicationGeneration>,
    /// The bounds.
    pub budgets: NativeBudgets,
}

/// The native side of a terminal as contracts speak of it.
#[verifier::ext_equal]
pub struct NativeV {
    /// Why the terminal has no cuts, if it has none.
    pub plain: Option<NativeStateError>,
    /// The generations, by cursor.
    pub generations: Map<Seq<u8>, GenerationV>,
    /// The most generations.
    pub capacity: usize,
    /// Whether a prefix capture holds the terminal.
    pub capture_active: bool,
    /// The number of the next capture.
    pub next_generation: u64,
    /// The bootstrap that is being captured.
    pub pending: Option<PendingV>,
    /// The bootstraps that come next.
    pub backlog: Seq<NativeBootstrapRequest>,
    /// Who reads which history.
    pub owners: Seq<NativeCursorOwner>,
    /// What is published.
    pub publications: Seq<PublicationV>,
    /// The bounds.
    pub budgets: NativeBudgets,
}

/// Publications as contracts speak of them.
pub open spec fn publications_view(
    publications: Seq<NativePublicationGeneration>,
) -> Seq<PublicationV> {
    publications.map_values(|publication: NativePublicationGeneration| publication@)
}

impl View for NativeHost {
    type V = NativeV;

    open spec fn view(&self) -> NativeV {
        NativeV {
            plain: match self.manager {
                Ok(_) => None,
                Err(error) => Some(error),
            },
            generations: match self.manager {
                Ok(manager) => manager@.generations,
                Err(_) => Map::empty(),
            },
            capacity: match self.manager {
                Ok(manager) => manager@.capacity,
                Err(_) => 0,
            },
            capture_active: self.manager matches Ok(manager) && manager@.capture_active,
            next_generation: match self.manager {
                Ok(manager) => manager@.next_generation,
                Err(_) => 0,
            },
            pending: match self.pending {
                Some(pending) => Some(pending@),
                None => None,
            },
            backlog: self.backlog@,
            owners: self.owners@,
            publications: publications_view(self.publications@),
            budgets: self.budgets,
        }
    }
}

impl NativeHost {
    /// The generations that are gone and were still charged for when last
    /// looked at, by cursor.
    pub open spec fn retired(&self) -> Seq<Seq<u8>> {
        match self.manager {
            Ok(manager) => manager@.retired,
            Err(_) => Seq::empty(),
        }
    }

    /// Whether `after` has no generation more than this host, and what is gone
    /// and counts for it is what counted here, then some of the generations
    /// that went since, each once. Which of them count depends on who holds one
    /// of their payloads.
    pub open spec fn sheds(&self, after: NativeHost) -> bool {
        shed_from(self.retired(), self@.generations.dom(), after)
    }
}

/// Whether the generations of `after` are among `there`, and what is gone and
/// counts for it is `base`, then some of the others of `there`, each once.
pub open spec fn shed_from(
    base: Seq<Seq<u8>>,
    there: Set<Seq<u8>>,
    after: NativeHost,
) -> bool {
    let now = after.retired();
    &&& forall|cursor: Seq<u8>| #[trigger]
        after@.generations.contains_key(cursor) ==> there.contains(cursor)
    &&& base.len() <= now.len()
    &&& forall|i: int| 0 <= i < base.len() ==> #[trigger] now[i] == base[i]
    &&& forall|i: int|
        base.len() <= i < now.len() ==> there.contains(#[trigger] now[i])
            && !after@.generations.contains_key(now[i])
    &&& forall|i: int, j: int|
        base.len() <= i < j < now.len() ==> #[trigger] now[i] != #[trigger] now[j]
}

/// What goes in two steps goes in one.
pub proof fn lemma_shed_twice(
    base: Seq<Seq<u8>>,
    there: Set<Seq<u8>>,
    mid: NativeHost,
    after: NativeHost,
)
    requires
        shed_from(base, there, mid),
        mid.sheds(after),
    ensures
        shed_from(base, there, after),
{
    let first = mid.retired();
    let now = after.retired();
    assert forall|i: int| 0 <= i < base.len() implies #[trigger] now[i] == base[i] by {
        assert(now[i] == first[i]);
    }
    assert forall|i: int| base.len() <= i < now.len() implies there.contains(#[trigger] now[i])
        && !after@.generations.contains_key(now[i]) by {
        if i < first.len() {
            assert(now[i] == first[i]);
        } else {
            assert(mid@.generations.contains_key(now[i]));
        }
    }
    assert forall|i: int, j: int|
        base.len() <= i < j < now.len() implies #[trigger] now[i] != #[trigger] now[j] by {
        if j < first.len() {
            assert(now[i] == first[i] && now[j] == first[j]);
        } else {
            assert(mid@.generations.contains_key(now[j]));
            if i < first.len() {
                assert(now[i] == first[i]);
            }
        }
    }
}

/// The first `n` of `requests` that are not `owner`'s.
pub open spec fn without_requests(
    requests: Seq<NativeBootstrapRequest>,
    n: nat,
    owner: u64,
) -> Seq<NativeBootstrapRequest>
    decreases n,
{
    if n == 0 || n > requests.len() {
        Seq::empty()
    } else {
        let before = without_requests(requests, (n - 1) as nat, owner);
        if requests[n - 1].owner == owner {
            before
        } else {
            before.push(requests[n - 1])
        }
    }
}

/// The first `n` of `owners` that are not `owner`.
pub open spec fn without_owner(owners: Seq<NativeCursorOwner>, n: nat, owner: u64) -> Seq<
    NativeCursorOwner,
>
    decreases n,
{
    if n == 0 || n > owners.len() {
        Seq::empty()
    } else {
        let before = without_owner(owners, (n - 1) as nat, owner);
        if owners[n - 1].owner == owner {
            before
        } else {
            before.push(owners[n - 1])
        }
    }
}

/// The hold of `owner`, by the first of `owners` from `i` on.
pub open spec fn hold_from(owners: Seq<NativeCursorOwner>, owner: u64, i: int) -> Option<
    NativeCursorOwner,
>
    decreases owners.len() - i,
{
    if i < 0 || i >= owners.len() {
        None
    } else if owners[i].owner == owner {
        Some(owners[i])
    } else {
        hold_from(owners, owner, i + 1)
    }
}

/// The first `n` of `waiting` that are not `owner`.
pub open spec fn without_waiting(waiting: Seq<u64>, n: nat, owner: u64) -> Seq<u64>
    decreases n,
{
    if n == 0 || n > waiting.len() {
        Seq::empty()
    } else {
        let before = without_waiting(waiting, (n - 1) as nat, owner);
        if waiting[n - 1] == owner {
            before
        } else {
            before.push(waiting[n - 1])
        }
    }
}

/// The first `n` of `publications` after `owner` left the one that goes with
/// `cursor`. A publication that nobody waits for any more is gone.
pub open spec fn left_publication(
    publications: Seq<PublicationV>,
    n: nat,
    cursor: Seq<u8>,
    owner: u64,
) -> Seq<PublicationV>
    decreases n,
{
    if n == 0 || n > publications.len() {
        Seq::empty()
    } else {
        let before = left_publication(publications, (n - 1) as nat, cursor, owner);
        let publication = publications[n - 1];
        if publication.cursor != cursor {
            before.push(publication)
        } else {
            let waiting = without_waiting(publication.waiting, publication.waiting.len(), owner);
            if waiting.len() == 0 {
                before
            } else {
                before.push(PublicationV { waiting, ..publication })
            }
        }
    }
}

/// The generations after one owner let go of the one under `cursor`.
pub open spec fn let_go(generations: Map<Seq<u8>, GenerationV>, cursor: Seq<u8>) -> Map<
    Seq<u8>,
    GenerationV,
> {
    if !generations.contains_key(cursor) {
        generations
    } else if generations[cursor].owners > 1 {
        generations.insert(
            cursor,
            GenerationV { owners: generations[cursor].owners - 1, ..generations[cursor] },
        )
    } else {
        generations.remove(cursor)
    }
}

impl NativeV {
    /// The host without `owner`'s requests.
    pub open spec fn forgotten(self, owner: u64) -> Self {
        NativeV {
            pending: match self.pending {
                Some(pending) => Some(
                    PendingV {
                        waiters: without_requests(pending.waiters, pending.waiters.len(), owner),
                        ..pending
                    },
                ),
                None => None,
            },
            backlog: without_requests(self.backlog, self.backlog.len(), owner),
            ..self
        }
    }

    /// The hold of `owner`.
    pub open spec fn hold(self, owner: u64) -> Option<NativeCursorOwner> {
        hold_from(self.owners, owner, 0)
    }

    /// The host after `owner` let go of the history under `cursor`.
    pub open spec fn unbound(self, owner: u64, cursor: Seq<u8>) -> Self {
        NativeV {
            owners: without_owner(self.owners, self.owners.len(), owner),
            publications: left_publication(
                self.publications,
                self.publications.len(),
                cursor,
                owner,
            ),
            generations: let_go(self.generations, cursor),
            ..self
        }
    }

    /// The host after `owner` was released.
    pub open spec fn released(self, owner: u64) -> Self {
        let host = self.forgotten(owner);
        match self.hold(owner) {
            Some(binding) => host.unbound(owner, binding.cursor@),
            None => host,
        }
    }

    /// A capture holds the terminal exactly while a pending bootstrap has one,
    /// what is retained is bounded, and a terminal without cuts has no
    /// generations.
    pub open spec fn valid(self) -> bool {
        &&& self.plain is Some ==> self.generations == Map::<Seq<u8>, GenerationV>::empty()
        &&& self.pending matches Some(pending) ==> pending.valid(self)
        &&& self.capture_active ==> self.pending is Some
    }
}

impl PendingV {
    /// The phase says whether there is a capture, and the bounds are kept.
    pub open spec fn valid(self, host: NativeV) -> bool {
        &&& self.phase is Starting <==> self.capture is None
        &&& self.phase is Starting ==> !host.capture_active
        &&& !(self.phase is Starting) ==> host.capture_active
        &&& host.plain is None
        &&& 0 <= self.retained_bytes <= self.capture_bytes
        &&& 1 <= self.chunk_bytes
        &&& 1 <= self.limits.max_chunk_bytes
        &&& self.chunk_bytes <= self.limits.max_chunk_bytes
        &&& 0 <= self.replay_bytes
        &&& forall|i: int|
            0 <= i < self.waiters.len() ==> (#[trigger] self.waiters[i]).limits == self.limits
    }
}

impl NativeHost {
    /// The tables are well formed.
    pub open spec fn wf(&self) -> bool {
        &&& self.manager matches Ok(manager) ==> manager.wf()
        &&& self@.valid()
    }
}

} // verus!
