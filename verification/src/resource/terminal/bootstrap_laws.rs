//! What a consumer that bootstraps can rely on: whose capture it shares, and
//! what its reply holds.

use super::native_bootstrap::{chunk_count, has_room, refusals, said_of, saturating, step_bytes};
use super::native_laws::law_every_waiter_is_refused_once;
use super::native_model::{
    ActionV, NativeBootstrapRequest, NativeV, Output, PendingV, PublicationV, ReplyToken, ReplyV,
    StreamV,
};
use super::native_live::NativePublicationRequest;
use super::native_publication::{
    cut_of, prepare, published_from, refuse_each, CutV, PreparedV,
};
use super::native_reply::{
    chunk_frames, fragments, law_chunks_rejoin_to_the_records, reply_for,
};
use super::serving_laws::law_invalidating_ends_one_hold;
use crate::native_state::capture::{law_pieces_rejoin_to_the_prefix, pieces};
use crate::native_state::cut::OpaqueHistoryCursor;
use crate::native_state::error::{CaptureEvent, EngineError, NativeStateError};
use crate::native_state::generation::{GenerationV, NativeGenerationBounds};
use crate::native_state::manager::capture_plan;
use crate::wire::{BootstrapStreamProfile, EngineCodec, TombstoneReason};
use vstd::prelude::*;

verus! {

proof fn lemma_fragment_sizes(records: Seq<Seq<u8>>, n: nat, most: int)
    requires
        n <= records.len(),
        most >= 1,
    ensures
        forall|i: int|
            0 <= i < fragments(records, n, most).len() ==> 1 <= (#[trigger] fragments(
                records,
                n,
                most,
            )[i]).len() <= most,
    decreases n,
{
    if n > 0 {
        lemma_fragment_sizes(records, (n - 1) as nat, most);
        law_pieces_rejoin_to_the_prefix(records[n - 1], 0, most);
        let before = fragments(records, (n - 1) as nat, most);
        let more = pieces(records[n - 1], 0, most);
        assert forall|i: int| 0 <= i < (before + more).len() implies 1 <= (
        #[trigger] (before + more)[i]).len() <= most by {
            if i < before.len() {
                assert((before + more)[i] == before[i]);
            } else {
                assert((before + more)[i] == more[i - before.len()]);
            }
        }
    }
}

/// The payload of a chunk.
pub open spec fn payload_of_chunk(frame: StreamV) -> Seq<u8> {
    match frame {
        StreamV::Chunk { payload, .. } => payload,
        _ => Seq::empty(),
    }
}

/// A reply starts with BEGIN, ends with READY, and holds nothing but chunks in
/// between, numbered from zero on. BEGIN names the size and the output that the
/// cut includes, READY the cursor where history goes on. The chunks joined are
/// the records joined, none of them empty or larger than the consumer takes.
/// Every frame is about the consumer's own terminal, stream and bootstrap, and
/// there are no more of them, and no more bytes, than it takes.
pub proof fn law_replies_hold_the_cut(
    req: NativeBootstrapRequest,
    records: Seq<Seq<u8>>,
    record_retained_bytes: int,
    cursor: Seq<u8>,
    base_seq: u64,
    cols: u16,
    rows: u16,
)
    requires
        req.limits.max_chunk_bytes >= 1,
        reply_for(req, records, record_retained_bytes, cursor, base_seq, cols, rows) is Ok,
    ensures
        ({
            let reply = reply_for(
                req,
                records,
                record_retained_bytes,
                cursor,
                base_seq,
                cols,
                rows,
            )->Ok_0;
            let n = reply.frames.len() as int;
            &&& n >= 2
            &&& reply.frames[0] matches StreamV::Begin {
                terminal_id,
                stream_id,
                bootstrap_id,
                profile,
                cols: width,
                rows: height,
                base_seq: base,
            } && terminal_id == req.terminal_id && stream_id == req.stream_id && bootstrap_id
                == req.bootstrap_id && width == cols && height == rows && base == base_seq
                && profile == (BootstrapStreamProfile::NativeState {
                codec: EngineCodec::LibghosttyCheckpointV2,
            })
            &&& reply.frames[n - 1] matches StreamV::Ready {
                terminal_id,
                stream_id,
                bootstrap_id,
                history_cursor,
            } && terminal_id == req.terminal_id && stream_id == req.stream_id && bootstrap_id
                == req.bootstrap_id && history_cursor == Some(cursor)
            &&& forall|i: int|
                1 <= i < n - 1 ==> (#[trigger] reply.frames[i] matches StreamV::Chunk {
                    terminal_id,
                    stream_id,
                    bootstrap_id,
                    chunk_seq,
                    payload,
                } && terminal_id == req.terminal_id && stream_id == req.stream_id && bootstrap_id
                    == req.bootstrap_id && chunk_seq == i - 1 && 1 <= payload.len()
                    <= req.limits.max_chunk_bytes)
            &&& Seq::new(
                (n - 2) as nat,
                |i: int| payload_of_chunk(reply.frames[i + 1]),
            ).flatten() == records.flatten()
            &&& n > 2 ==> n <= req.max_frames
            &&& reply.retained_bytes <= req.max_bytes
            &&& reply.retained_bytes == record_retained_bytes + 32
            &&& reply.base_seq == base_seq
            &&& reply.publication_cursor == cursor
        }),
{
    let most = req.limits.max_chunk_bytes as int;
    let chunks = fragments(records, records.len(), most);
    lemma_fragment_sizes(records, records.len(), most);
    law_chunks_rejoin_to_the_records(records, records.len(), most);
    assert(records.take(records.len() as int) == records);
    let reply = reply_for(req, records, record_retained_bytes, cursor, base_seq, cols, rows)->Ok_0;
    let n = reply.frames.len() as int;
    let middle = chunk_frames(req, chunks);
    assert forall|i: int| 1 <= i < n - 1 implies #[trigger] reply.frames[i] == middle[i - 1] by {}
    let payloads = Seq::new((n - 2) as nat, |i: int| payload_of_chunk(reply.frames[i + 1]));
    assert(payloads == chunks) by {
        assert forall|i: int| 0 <= i < n - 2 implies #[trigger] payloads[i] == chunks[i] by {
            assert(reply.frames[i + 1] == middle[i]);
        }
    }
}

/// A cut that takes more frames or more bytes than the consumer takes is refused
/// as over the limit, and no other cut is.
pub proof fn law_replies_keep_to_the_consumers_bounds(
    req: NativeBootstrapRequest,
    records: Seq<Seq<u8>>,
    record_retained_bytes: int,
    cursor: Seq<u8>,
    base_seq: u64,
    cols: u16,
    rows: u16,
)
    ensures
        ({
            let chunks = fragments(records, records.len(), req.limits.max_chunk_bytes as int).len();
            let reply = reply_for(
                req,
                records,
                record_retained_bytes,
                cursor,
                base_seq,
                cols,
                rows,
            );
            &&& reply is Err <==> record_retained_bytes + 32 > req.max_bytes || chunks > u32::MAX
                || (chunks > 0 && chunks + 2 > req.max_frames)
            &&& reply matches Err(error) ==> error is LimitExceeded
        }),
{
}

proof fn lemma_prepared(waiters: Seq<NativeBootstrapRequest>, n: nat, cut: CutV, k: int)
    requires
        n <= waiters.len(),
        0 <= k < prepare(waiters, n, cut).0.len(),
    ensures
        ({
            let one = prepare(waiters, n, cut).0[k];
            &&& exists|i: int| 0 <= i < n && #[trigger] waiters[i] == one.req
            &&& reply_for(
                one.req,
                cut.records,
                cut.retained_bytes,
                cut.cursor,
                cut.base_seq,
                cut.cols,
                cut.rows,
            ) == Ok::<ReplyV, NativeStateError>(one.answer)
        }),
    decreases n,
{
    if n > 0 {
        let before = prepare(waiters, (n - 1) as nat, cut).0;
        let now = prepare(waiters, n, cut).0;
        if k < before.len() {
            lemma_prepared(waiters, (n - 1) as nat, cut, k);
            assert(now[k] == before[k]);
        } else {
            assert(now[k].req == waiters[n - 1]);
        }
    }
}

/// Each reply that is prepared is for one of those who wait, and is the reply
/// that its own request asks for.
pub proof fn law_each_waiter_gets_its_own_reply(
    waiters: Seq<NativeBootstrapRequest>,
    cut: CutV,
    k: int,
)
    requires
        0 <= k < prepare(waiters, waiters.len(), cut).0.len(),
    ensures
        ({
            let one: PreparedV = prepare(waiters, waiters.len(), cut).0[k];
            &&& exists|i: int| 0 <= i < waiters.len() && #[trigger] waiters[i] == one.req
            &&& reply_for(
                one.req,
                cut.records,
                cut.retained_bytes,
                cut.cursor,
                cut.base_seq,
                cut.cols,
                cut.rows,
            ) == Ok::<ReplyV, NativeStateError>(one.answer)
        }),
{
    lemma_prepared(waiters, waiters.len(), cut, k);
}

/// A consumer that is answered gets what was prepared for it, holds the cursor
/// from the first record and page one on, under its own terminal, stream and
/// bootstrap, and is waited for. Whoever else has a hold keeps it.
pub proof fn law_answered_consumers_hold_the_cursor(
    host: NativeV,
    one: PreparedV,
    cursor: OpaqueHistoryCursor,
    now_ms: u64,
    other: u64,
)
    requires
        other != one.req.owner,
    ensures
        ({
            let done = host.registered(
                seq![one],
                1,
                cursor,
                true,
                Seq::<ReplyToken>::empty(),
                now_ms,
            );
            &&& done.said == seq![ActionV::Answer(one.req.reply, one.req.owner, one.answer)]
            &&& done.waiting == seq![one.req.owner]
            &&& done.host.hold(one.req.owner) matches Some(binding)
            &&& binding.cursor == cursor
            &&& binding.record_index == 0
            &&& binding.next_page_seq == 1
            &&& binding.touched_ms == now_ms
            &&& binding.terminal_id == one.req.terminal_id
            &&& binding.stream_id == one.req.stream_id
            &&& binding.bootstrap_id == one.req.bootstrap_id
            &&& done.host.hold(other) == host.hold(other)
            &&& done.host == (NativeV { owners: done.host.owners, ..host })
        }),
{
    let all = seq![one];
    assert(all[0] == one);
    assert(host.registered(all, 0, cursor, true, Seq::<ReplyToken>::empty(), now_ms).host == host);
    super::serving_laws::law_rebinding_replaces_one_hold(
        host.owners,
        super::native_publication::fresh_hold(one.req, cursor, now_ms),
        other,
    );
    let done = host.registered(all, 1, cursor, true, Seq::<ReplyToken>::empty(), now_ms);
    assert(!Seq::<u64>::empty().contains(one.req.owner));
    assert(done.waiting == seq![one.req.owner]);
}

/// The first request takes the terminal: its own bounds decide what the engine
/// may write, and it waits alone, with nothing gathered and nothing held back.
pub proof fn law_a_first_request_takes_the_terminal(
    host: NativeV,
    req: NativeBootstrapRequest,
    last_valid_seq: u64,
)
    requires
        host.pending is None,
        host.hold(req.owner) is None,
        host.plain is None,
        !host.capture_active,
        host.next_generation < u64::MAX,
        has_room(req, host.budgets.max_history_cursor_bytes as int),
    ensures
        ({
            let (after, said) = host.requested(req, last_valid_seq);
            let pending = after.pending->Some_0;
            let prefix = req.max_bytes - host.budgets.max_history_cursor_bytes;
            &&& after.pending is Some
            &&& pending.waiters == seq![req]
            &&& pending.phase is Starting
            &&& pending.limits == req.limits
            &&& pending.records.len() == 0
            &&& pending.replay.len() == 0
            &&& pending.replay_bytes == 0
            &&& pending.capture_bytes == prefix
            &&& pending.max_chunks == req.max_frames - 2
            &&& pending.chunk_bytes <= req.limits.max_chunk_bytes
            &&& pending.chunk_bytes <= req.max_bytes
            &&& pending.chunk_bytes == req.limits.max_chunk_bytes || pending.chunk_bytes
                == req.max_bytes
            &&& pending.chunk_count == 0
            &&& pending.retained_bytes == 0
            &&& said.len() == 1
            &&& said[0] matches ActionV::Capture(options)
            &&& options.max_record_bytes <= prefix
            &&& req.limits.max_history_page_bytes > 0 ==> options.max_record_bytes
                <= req.limits.max_history_page_bytes && (options.max_record_bytes == prefix
                || options.max_record_bytes == req.limits.max_history_page_bytes)
            &&& options.max_pages <= req.max_frames - 2
            &&& after.owners == host.owners
            &&& after.publications == host.publications
        }),
{
    assert(host.released(req.owner).owners == host.owners);
}

/// A request without room for BEGIN, READY and a cursor, or on a terminal that
/// has no native state, is refused, and takes nothing.
pub proof fn law_hopeless_requests_are_refused(
    host: NativeV,
    req: NativeBootstrapRequest,
    last_valid_seq: u64,
)
    requires
        host.pending is None,
        host.hold(req.owner) is None,
        req.limits.max_chunk_bytes == 0 || req.max_frames <= 2 || req.max_bytes
            <= host.budgets.max_history_cursor_bytes || host.plain is Some,
    ensures
        ({
            let (after, said) = host.requested(req, last_valid_seq);
            &&& after.pending is None
            &&& said.len() == 1
            &&& said[0] matches ActionV::Refuse(to, error) && to == req.reply && (has_room(
                req,
                host.budgets.max_history_cursor_bytes as int,
            ) ==> Some(error) == host.plain) && (!has_room(
                req,
                host.budgets.max_history_cursor_bytes as int,
            ) ==> error is LimitExceeded)
        }),
{
}

/// A later request with the same bounds joins the capture that runs, behind those
/// who wait already, and no new one starts; any other request queues behind the
/// backlog. Either way nothing that was gathered or held back changes.
pub proof fn law_later_requests_join_or_queue(
    host: NativeV,
    req: NativeBootstrapRequest,
    last_valid_seq: u64,
)
    requires
        host.pending is Some,
        host.hold(req.owner) is None,
        forall|i: int|
            0 <= i < host.pending->Some_0.waiters.len() ==> (
            #[trigger] host.pending->Some_0.waiters[i]).owner != req.owner,
        forall|i: int|
            0 <= i < host.backlog.len() ==> (#[trigger] host.backlog[i]).owner != req.owner,
    ensures
        ({
            let before = host.pending->Some_0;
            let (after, said) = host.requested(req, last_valid_seq);
            let same = before.limits == req.limits && before.capture_bytes == saturating(
                req.max_bytes as int,
                host.budgets.max_history_cursor_bytes as int,
            ) && before.max_chunks == saturating(req.max_frames as int, 2) && before.waiters.len()
                < host.budgets.max_history_clients;
            &&& said.len() == 0
            &&& after.pending matches Some(pending)
            &&& pending.records == before.records
            &&& pending.replay == before.replay
            &&& pending.phase == before.phase
            &&& pending.capture == before.capture
            &&& same ==> pending.waiters == before.waiters.push(req) && after.backlog
                == host.backlog
            &&& !same ==> pending.waiters == before.waiters && after.backlog == host.backlog.push(
                req,
            )
        }),
{
    lemma_none_left_out(host.pending->Some_0.waiters, host.pending->Some_0.waiters.len(), req.owner);
    lemma_none_left_out(host.backlog, host.backlog.len(), req.owner);
    let waiters = host.pending->Some_0.waiters;
    assert(waiters.take(waiters.len() as int) == waiters);
    assert(host.backlog.take(host.backlog.len() as int) == host.backlog);
}

proof fn lemma_none_left_out(requests: Seq<NativeBootstrapRequest>, n: nat, owner: u64)
    requires
        n <= requests.len(),
        forall|i: int| 0 <= i < requests.len() ==> (#[trigger] requests[i]).owner != owner,
    ensures
        super::native_model::without_requests(requests, n, owner) == requests.take(n as int),
    decreases n,
{
    if n > 0 {
        lemma_none_left_out(requests, (n - 1) as nat, owner);
        assert(requests.take(n as int) == requests.take(n - 1).push(requests[n - 1]));
    }
}

/// Whoever starts over is told that its bootstrap is over, for having attached
/// again, before anything else is said.
pub proof fn law_starting_over_ends_what_was(
    host: NativeV,
    req: NativeBootstrapRequest,
    last_valid_seq: u64,
)
    requires
        host.hold(req.owner) is Some,
    ensures
        ({
            let said = host.requested(req, last_valid_seq).1;
            &&& said.len() >= 1
            &&& said[0] matches ActionV::Control(
                to,
                StreamV::Tombstone { reason, last_valid_seq: last, .. },
            ) && to == host.hold(req.owner)->Some_0.owner && reason
                == TombstoneReason::ExplicitReattach && last == last_valid_seq
        }),
{
    law_invalidating_ends_one_hold(
        host,
        req.owner,
        TombstoneReason::ExplicitReattach,
        last_valid_seq,
    );
}

/// The backlog is served first come, first served, once the terminal is free.
pub proof fn law_the_backlog_is_served_in_order(host: NativeV)
    ensures
        host.pending is None && host.backlog.len() > 0 ==> {
            let (after, said) = host.next_started();
            &&& after.backlog == host.backlog.drop_first()
            &&& after.pending is Some ==> after.pending->Some_0.waiters == seq![host.backlog[0]]
            &&& after.pending is None ==> said.len() == 1 && (said[0] matches ActionV::Refuse(to, _)
                && to == host.backlog[0].reply)
        },
        host.pending is Some || host.backlog.len() == 0 ==> host.next_started() == (
            host,
            Seq::<ActionV>::empty(),
        ),
{
}

/// A capture that the engine starts has the number that was next, which is then
/// used up, includes the output written so far, and has gathered nothing.
pub proof fn law_captures_are_numbered_and_based(host: NativeV, base_seq: u64)
    requires
        host.pending is Some,
        host.pending->Some_0.phase is Starting,
        host.begun(Ok(()), base_seq).0.pending is Some,
    ensures
        ({
            let before = host.pending->Some_0;
            let (after, said) = host.begun(Ok(()), base_seq);
            let pending = after.pending->Some_0;
            &&& said.len() == 0
            &&& after.capture_active
            &&& host.next_generation < u64::MAX
            &&& after.next_generation == host.next_generation + 1
            &&& pending.phase is Capturing
            &&& pending.base_seq == base_seq
            &&& pending.waiters == before.waiters
            &&& pending.records == before.records
            &&& pending.replay == before.replay
            &&& pending.limits == before.limits
            &&& pending.capture matches Some(capture)
            &&& capture.generation == host.next_generation
            &&& capture.prefix.len() == 0
            &&& !capture.ready
            &&& capture.bounds.max_rows == host.budgets.max_history_page_rows
            &&& 0 < pending.scratch_len <= capture.bounds.max_record_bytes
            &&& pending.scratch_len <= before.capture_bytes
        }),
{
}

/// Where the engine cannot start, everyone who waited is refused with its reason
/// and the terminal is free.
pub proof fn law_failed_starts_refuse_everyone(
    host: NativeV,
    failure: EngineError,
    base_seq: u64,
    i: int,
)
    requires
        host.pending is Some,
        host.pending->Some_0.phase is Starting,
        0 <= i < host.pending->Some_0.waiters.len(),
        capture_plan(
            host.capture_active,
            host.next_generation,
            host.pending->Some_0.limits,
            host.pending->Some_0.capture_bytes,
            host.pending->Some_0.max_chunks,
        ) is Ok,
    ensures
        ({
            let waiters = host.pending->Some_0.waiters;
            let (after, said) = host.begun(Err(failure), base_seq);
            &&& after.pending is None
            &&& said.len() == waiters.len()
            &&& said[i] matches ActionV::Refuse(to, error) && to == waiters[i].reply && (
            failure is OutOfMemory <==> error is OutOfMemory) && (failure is LimitExceeded
                <==> error is LimitExceeded) && (failure is IoError <==> error is Corruption) && (
            failure is InvalidValue <==> error is UnsupportedFeature)
            &&& after.next_generation == host.next_generation
        }),
{
    let waiters = host.pending->Some_0.waiters;
    law_every_waiter_is_refused_once(
        waiters,
        waiters.len(),
        crate::native_state::error::engine_failure(failure),
    );
}

/// Each record that the engine writes is kept behind those before it, byte for
/// byte, and named into the cut's cursor; READY ends the capture and asks the
/// engine to let the cut go. Who waits and what was held back stay.
pub proof fn law_records_are_gathered_in_order(
    host: NativeV,
    event: CaptureEvent,
    buffer: Seq<u8>,
    capacity: int,
)
    requires
        host.pending is Some,
        host.pending->Some_0.phase is Capturing,
        host.pending->Some_0.capture is Some,
        !host.pending->Some_0.capture->Some_0.ready,
        event is Record || event is Ready,
        ({
            let pending = host.pending->Some_0;
            let capture = pending.capture->Some_0;
            &&& step_bytes(
                pending.capture_bytes,
                pending.retained_bytes,
                capture.bounds.max_record_bytes as int,
            ) is Ok
            &&& pending.retained_bytes + capacity <= pending.capture_bytes
            &&& pending.chunk_count + chunk_count(
                buffer.take(event.bytes() as int).len() as int,
                pending.chunk_bytes,
            ) <= pending.max_chunks
        }),
    ensures
        ({
            let before = host.pending->Some_0;
            let (after, said) = host.stepped(Ok(event), buffer, capacity);
            let record = buffer.take(
                (match event {
                    CaptureEvent::Record { written } => written as int,
                    CaptureEvent::Ready { written } => written as int,
                    _ => 0,
                }),
            );
            &&& after.pending matches Some(pending)
            &&& pending.records == before.records.push(record)
            &&& pending.retained_bytes == before.retained_bytes + capacity
            &&& before.chunk_bytes >= 1 ==> pending.chunk_count == before.chunk_count + pieces(
                record,
                0,
                before.chunk_bytes,
            ).len()
            &&& pending.capture matches Some(capture)
            &&& capture.prefix == before.capture->Some_0.prefix + record
            &&& capture.generation == before.capture->Some_0.generation
            &&& capture.ready <==> event is Ready
            &&& pending.waiters == before.waiters
            &&& pending.replay == before.replay
            &&& pending.base_seq == before.base_seq
            &&& event is Ready ==> pending.phase is Detaching && said == seq![ActionV::Detach]
            &&& event is Record ==> pending.phase is Capturing && said.len() == 0
        }),
{
    let record = buffer.take(event.bytes() as int);
    let most = host.pending->Some_0.chunk_bytes;
    if most >= 1 {
        law_records_cost_their_chunks(record, 0, most);
    }
}

/// A record costs as many chunks as it takes to send it.
pub proof fn law_records_cost_their_chunks(record: Seq<u8>, pos: int, most: int)
    requires
        0 <= pos <= record.len(),
        most >= 1,
    ensures
        pieces(record, pos, most).len() == chunk_count(record.len() - pos, most),
    decreases record.len() - pos,
{
    let left = record.len() - pos;
    if left > 0 {
        let want = if left < most {
            left
        } else {
            most
        };
        law_records_cost_their_chunks(record, pos + want, most);
        if left <= most {
            assert((left - 1) / most == 0) by (nonlinear_arith)
                requires
                    1 <= left <= most,
            ;
            assert(pieces(record, pos + want, most).len() == 0);
        } else {
            assert((left - 1) / most == (left - most - 1) / most + 1) by (nonlinear_arith)
                requires
                    left > most,
                    most >= 1,
            ;
        }
    }
}

/// A record that does not fit the buffer asks for exactly the room that it takes,
/// as long as the capture may still hold that much; nothing else changes.
pub proof fn law_small_buffers_grow_to_what_it_takes(
    host: NativeV,
    required: usize,
    buffer: Seq<u8>,
    capacity: int,
)
    requires
        host.pending is Some,
        host.pending->Some_0.phase is Capturing,
        host.pending->Some_0.capture is Some,
        !host.pending->Some_0.capture->Some_0.ready,
        ({
            let pending = host.pending->Some_0;
            let capture = pending.capture->Some_0;
            &&& pending.retained_bytes + required <= pending.capture_bytes
            &&& pending.scratch_len < required <= capture.bounds.max_record_bytes
            &&& 0 <= pending.scratch_len
        }),
    ensures
        ({
            let before = host.pending->Some_0;
            let (after, said) = host.stepped(
                Err(EngineError::OutOfSpace { required }),
                buffer,
                capacity,
            );
            &&& said.len() == 0
            &&& after.pending == Some(PendingV { scratch_len: required as int, ..before })
            &&& after.capture_active == host.capture_active
        }),
{
}

/// What outgrows the bounds of its consumers, or is no record, ends the capture:
/// everyone who waited is refused.
pub proof fn law_oversized_captures_are_given_up(
    host: NativeV,
    event: CaptureEvent,
    buffer: Seq<u8>,
    capacity: int,
    i: int,
)
    requires
        host.pending is Some,
        host.backlog.len() == 0,
        host.pending->Some_0.phase is Capturing,
        host.pending->Some_0.capture is Some,
        0 <= i < host.pending->Some_0.waiters.len(),
        ({
            let pending = host.pending->Some_0;
            ||| pending.retained_bytes >= pending.capture_bytes
            ||| pending.retained_bytes + capacity > pending.capture_bytes
            ||| !(event is Record || event is Ready)
        }),
    ensures
        ({
            let (after, said) = host.stepped(Ok(event), buffer, capacity);
            &&& after.pending is None
            &&& !after.capture_active
            &&& said.contains(
                ActionV::Refuse(
                    host.pending->Some_0.waiters[i].reply,
                    NativeStateError::LimitExceeded,
                ),
            )
            &&& said.contains(ActionV::Abort)
        }),
{
    let waiters = host.pending->Some_0.waiters;
    law_every_waiter_is_refused_once(waiters, waiters.len(), NativeStateError::LimitExceeded);
    let (after, said) = host.stepped(Ok(event), buffer, capacity);
    let first = host.drop_actions();
    let told = refusals(waiters, waiters.len(), NativeStateError::LimitExceeded);
    assert(said == first + told + Seq::<ActionV>::empty());
    assert(said[0] == ActionV::Abort);
    assert(said[first.len() + i] == told[i]);
}

/// When the engine has let the cut go, what was held back meanwhile is written
/// first, the terminal is free, and where the engine failed everyone who waited
/// is refused.
pub proof fn law_letting_the_cut_go_writes_what_was_held(
    host: NativeV,
    outcome: Result<(), EngineError>,
    cursor: OpaqueHistoryCursor,
    room: bool,
    gone: Seq<ReplyToken>,
    cols: u16,
    rows: u16,
    now_ms: u64,
    i: int,
)
    requires
        host.pending is Some,
        host.backlog.len() == 0,
        host.pending->Some_0.phase is Detaching,
        host.pending->Some_0.capture is Some,
        0 <= i < host.pending->Some_0.waiters.len(),
    ensures
        ({
            let pending = host.pending->Some_0;
            let (after, said) = host.detached(outcome, cursor, room, gone, cols, rows, now_ms);
            &&& pending.replay.len() > 0 ==> said.len() > 0 && said[0] == ActionV::Replay(
                pending.replay,
            )
            &&& outcome is Err || !pending.capture->Some_0.ready ==> {
                &&& after.pending is None
                &&& !after.capture_active
                &&& after.owners == host.owners
                &&& after.publications == host.publications
                &&& after.generations == host.generations
                &&& exists|k: int|
                    0 <= k < said.len() && (#[trigger] said[k] matches ActionV::Refuse(to, _) && to
                        == pending.waiters[i].reply)
            }
        }),
{
    let pending = host.pending->Some_0;
    let (after, said) = host.detached(outcome, cursor, room, gone, cols, rows, now_ms);
    let held = super::native_bootstrap::replay_actions(pending.replay);
    if outcome is Err || !pending.capture->Some_0.ready {
        let error = if !pending.capture->Some_0.ready {
            NativeStateError::InvalidState
        } else {
            crate::native_state::error::engine_failure(outcome->Err_0)
        };
        law_every_waiter_is_refused_once(pending.waiters, pending.waiters.len(), error);
        let told = refusals(pending.waiters, pending.waiters.len(), error);
        assert(said == held + told + Seq::<ActionV>::empty());
        assert(said[held.len() + i] == told[i]);
    }
}

/// A cut that is ready and has room is published to the consumer that waits for
/// it: the consumer gets its reply, holds the cut's cursor, and picks up exactly
/// the output that was held back, which was written to the terminal as well.
pub proof fn law_a_cut_is_published_to_its_consumer(
    host: NativeV,
    req: NativeBootstrapRequest,
    pickup: NativePublicationRequest,
    cursor: OpaqueHistoryCursor,
    cols: u16,
    rows: u16,
    now_ms: u64,
)
    requires
        host.pending is Some,
        host.backlog.len() == 0,
        ({
            let pending = host.pending->Some_0;
            &&& pending.phase is Detaching
            &&& pending.capture is Some
            &&& pending.capture->Some_0.ready
            &&& pending.waiters == seq![req]
            &&& reply_for(
                req,
                pending.records,
                pending.retained_bytes,
                cursor@,
                pending.base_seq,
                cols,
                rows,
            ) is Ok
        }),
        !host.generations.contains_key(cursor@),
        forall|i: int|
            0 <= i < host.publications.len() ==> (#[trigger] host.publications[i]).cursor
                != cursor@,
        pickup.owner == req.owner,
        pickup.cursor@ == cursor@,
        pickup.terminal_id == req.terminal_id,
        pickup.stream_id == req.stream_id,
        pickup.bootstrap_id == req.bootstrap_id,
    ensures
        ({
            let pending = host.pending->Some_0;
            let reply = reply_for(
                req,
                pending.records,
                pending.retained_bytes,
                cursor@,
                pending.base_seq,
                cols,
                rows,
            )->Ok_0;
            let (after, said) = host.detached(
                Ok(()),
                cursor,
                true,
                Seq::<ReplyToken>::empty(),
                cols,
                rows,
                now_ms,
            );
            &&& said.last() == ActionV::Answer(req.reply, req.owner, reply)
            &&& said.len() == (if pending.replay.len() > 0 {
                2int
            } else {
                1
            })
            &&& after.pending is None
            &&& !after.capture_active
            &&& after.generations.contains_key(cursor@)
            &&& after.generations[cursor@].owners == 1
            &&& after.hold(req.owner) is Some
            &&& after.publications.len() == host.publications.len() + 1
            &&& after.publications.last().base_seq == pending.base_seq
            &&& after.picked_up(pickup).1 == Ok::<Seq<Output>, NativeStateError>(pending.replay)
        }),
{
    let pending = host.pending->Some_0;
    let free = host.dropped();
    let cut = cut_of(pending, cursor@, cols, rows);
    assert(pending.waiters[0] == req);
    assert(prepare(pending.waiters, 0, cut).0.len() == 0);
    let prepared = prepare(pending.waiters, 1, cut).0;
    let one = PreparedV {
        req,
        answer: reply_for(
            req,
            pending.records,
            pending.retained_bytes,
            cursor@,
            pending.base_seq,
            cols,
            rows,
        )->Ok_0,
    };
    assert(prepared == seq![one]);
    let bounds = pending.capture->Some_0.bounds;
    let fresh = NativeV {
        generations: free.generations.insert(cursor@, GenerationV::fresh(cursor@, bounds)),
        ..free
    };
    lemma_unpublished(fresh.publications, cursor@, 0);
    let other: u64 = if req.owner == 0 {
        1
    } else {
        0
    };
    law_answered_consumers_hold_the_cursor(fresh, one, cursor, now_ms, other);
    let done = fresh.registered(
        seq![one],
        1,
        cursor,
        true,
        Seq::<ReplyToken>::empty(),
        now_ms,
    );
    assert(done.host.publications == host.publications);
    let after = done.host.recorded(
        cursor@,
        pending.base_seq,
        pending.replay,
        pending.replay_bytes,
        done.waiting,
    );
    lemma_published_last(host.publications, after.publications.last(), cursor@, 0);
    assert(done.waiting[0] == req.owner);
    assert(done.waiting.contains(req.owner));
    let (end, said) = host.detached(
        Ok(()),
        cursor,
        true,
        Seq::<ReplyToken>::empty(),
        cols,
        rows,
        now_ms,
    );
    assert(free.published(
        pending,
        cursor,
        bounds,
        true,
        Seq::<ReplyToken>::empty(),
        cols,
        rows,
        now_ms,
    ).0 == after);
    assert(end == after);
    assert(prepare(pending.waiters, 1, cut).1.len() == 0);
    let held = super::native_bootstrap::replay_actions(pending.replay);
    assert(said == held + (Seq::<ActionV>::empty() + done.said) + Seq::<ActionV>::empty());
    assert(said == held + done.said);
}

proof fn lemma_unpublished(publications: Seq<PublicationV>, cursor: Seq<u8>, from: int)
    requires
        0 <= from,
        forall|i: int|
            0 <= i < publications.len() ==> (#[trigger] publications[i]).cursor != cursor,
    ensures
        published_from(publications, cursor, from) is None,
    decreases publications.len() - from,
{
    if from < publications.len() {
        lemma_unpublished(publications, cursor, from + 1);
    }
}

proof fn lemma_published_last(
    publications: Seq<PublicationV>,
    last: PublicationV,
    cursor: Seq<u8>,
    from: int,
)
    requires
        0 <= from <= publications.len(),
        forall|i: int|
            0 <= i < publications.len() ==> (#[trigger] publications[i]).cursor != cursor,
        last.cursor == cursor,
    ensures
        published_from(publications.push(last), cursor, from) == Some(publications.len() as int),
    decreases publications.len() - from,
{
    if from < publications.len() {
        assert(publications.push(last)[from] == publications[from]);
        lemma_published_last(publications, last, cursor, from + 1);
    } else {
        assert(publications.push(last)[from] == last);
    }
}

/// A failure is told as what it was where memory ran out, and as a limit
/// otherwise.
pub proof fn law_failures_are_told_as_memory_or_limit(error: NativeStateError)
    ensures
        said_of(error) is OutOfMemory <==> error is OutOfMemory,
        said_of(error) is LimitExceeded <==> !(error is OutOfMemory),
{
}

/// A consumer that went away meanwhile gets no reply and keeps no hold, and is
/// not waited for.
pub proof fn law_consumers_that_left_are_not_waited_for(
    host: NativeV,
    one: PreparedV,
    cursor: OpaqueHistoryCursor,
    now_ms: u64,
)
    ensures
        ({
            let done = host.registered(
                seq![one],
                1,
                cursor,
                true,
                seq![one.req.reply],
                now_ms,
            );
            &&& done.said.len() == 0
            &&& done.waiting.len() == 0
            &&& done.host.hold(one.req.owner) is None
        }),
{
    let all = seq![one];
    let gone = seq![one.req.reply];
    assert(all[0] == one);
    assert(gone[0] == one.req.reply);
    assert(gone.contains(one.req.reply));
    assert(host.registered(all, 0, cursor, true, gone, now_ms).host == host);
    assert(super::native_model::without_waiting(Seq::<u64>::empty(), 0, one.req.owner).len() == 0);
    let binding = super::native_publication::fresh_hold(one.req, cursor, now_ms);
    let bound = NativeV {
        owners: super::native_model::without_owner(
            host.owners,
            host.owners.len(),
            one.req.owner,
        ).push(binding),
        ..host
    };
    super::native_laws::law_released_owners_hold_nothing(bound, one.req.owner);
}

/// A cut for which the terminal has no room, or that conflicts with what is
/// published under its cursor, is refused to everyone who could have had it.
pub proof fn law_cuts_without_room_are_refused(
    host: NativeV,
    pending: PendingV,
    cursor: OpaqueHistoryCursor,
    bounds: NativeGenerationBounds,
    gone: Seq<ReplyToken>,
    cols: u16,
    rows: u16,
    now_ms: u64,
    k: int,
)
    requires
        !host.generations.contains_key(cursor@),
        0 <= k < prepare(
            pending.waiters,
            pending.waiters.len(),
            cut_of(pending, cursor@, cols, rows),
        ).0.len(),
    ensures
        ({
            let prepared = prepare(
                pending.waiters,
                pending.waiters.len(),
                cut_of(pending, cursor@, cols, rows),
            ).0;
            let (after, said) = host.published(
                pending,
                cursor,
                bounds,
                false,
                gone,
                cols,
                rows,
                now_ms,
            );
            &&& after == host
            &&& said.contains(
                ActionV::Refuse(prepared[k].req.reply, NativeStateError::LimitExceeded),
            )
        }),
{
    let (prepared, first) = prepare(
        pending.waiters,
        pending.waiters.len(),
        cut_of(pending, cursor@, cols, rows),
    );
    lemma_refused_each(prepared, prepared.len(), k);
    let told = refuse_each(prepared, prepared.len(), NativeStateError::LimitExceeded);
    let said = host.published(pending, cursor, bounds, false, gone, cols, rows, now_ms).1;
    assert(said[first.len() + k] == told[k]);
}

proof fn lemma_refused_each(prepared: Seq<PreparedV>, n: nat, k: int)
    requires
        0 <= k < n <= prepared.len(),
    ensures
        refuse_each(prepared, n, NativeStateError::LimitExceeded).len() == n,
        refuse_each(prepared, n, NativeStateError::LimitExceeded)[k] == ActionV::Refuse(
            prepared[k].req.reply,
            NativeStateError::LimitExceeded,
        ),
    decreases n,
{
    if k < n - 1 {
        lemma_refused_each(prepared, (n - 1) as nat, k);
    } else if n > 1 {
        lemma_refused_each(prepared, (n - 1) as nat, 0);
    } else {
        assert(refuse_each(prepared, 0, NativeStateError::LimitExceeded).len() == 0);
    }
}

} // verus!
