//! What a history hands out, and who may still ask for it.

use super::capture::{least, piece_bound, step_plan, HistoryPlan, HistoryV};
use super::error::{
    engine_failure, invalidation, CaptureEvent, CaptureInvalidation, EngineError,
    NativeStateError,
};
use super::cut::{cut_outcome, sha256, SnapshotCut};
use super::generation::{GenerationV, NativeGenerationBounds, Probed, RecordV};
use super::manager::{
    capture_plan, charged, generation_bounds, held_among, CaptureOptions, ManagedV, ManagerV,
    StepV,
};
use crate::native_state::capture::{MAX_NATIVE_PREFIX_BYTES, MAX_NATIVE_PREFIX_CHUNKS};
use crate::payload::contents;
use crate::wire::BootstrapLimits;
use vstd::prelude::*;

verus! {

/// A page that the engine completes is kept behind those before it: what was
/// gathered for it, byte for byte, with its rows. The last record has no rows,
/// and nothing comes after it. What does not fit is refused and changes nothing.
pub proof fn law_completed_pages_are_kept_in_order(
    generation: GenerationV,
    event: CaptureEvent,
    rows: usize,
    written: usize,
)
    requires
        event == (CaptureEvent::HistoryPage { written, rows }) || (event == (
        CaptureEvent::Finish { written }) && rows == 0),
    ensures
        ({
            let (after, kept) = generation.on_event(event);
            let n = generation.records.len();
            let fits = n < generation.bounds.max_records && generation.pending.len()
                <= generation.bounds.max_record_bytes && rows <= generation.bounds.max_rows
                && generation.retained_bytes + generation.pending.len()
                <= generation.bounds.max_total_bytes;
            &&& kept is Ok <==> fits
            &&& fits ==> {
                &&& after.records.len() == n + 1
                &&& generation.records.is_prefix_of(after.records)
                &&& after.records[n as int].bytes == generation.pending
                &&& after.records[n as int].rows == rows
                &&& after.records[n as int].finish <==> event is Finish
                &&& after.pending.len() == 0
                &&& after.retained_bytes == generation.retained_bytes + generation.pending.len()
                &&& event is Finish ==> !after.live
                &&& event is HistoryPage ==> after.live == generation.live
                &&& after.failure == generation.failure
                &&& after.owners == generation.owners
            }
            &&& !fits ==> after == generation && kept == Err::<(), NativeStateError>(
                NativeStateError::LimitExceeded,
            )
        }),
{
}

/// What the engine writes piece by piece comes out as one page: the pieces in
/// their order.
pub proof fn law_pages_are_gathered_piece_by_piece(
    generation: GenerationV,
    first: Seq<u8>,
    second: Seq<u8>,
    rows: usize,
    some: usize,
    more: usize,
    capacity: int,
)
    requires
        generation.live,
        generation.pending.len() == 0,
        some == first.len(),
        more == second.len(),
        generation.retained_bytes + capacity <= generation.bounds.max_total_bytes,
        first.len() + second.len() <= generation.bounds.max_record_bytes,
        generation.retained_bytes + first.len() + second.len()
            <= generation.bounds.max_total_bytes,
        generation.records.len() < generation.bounds.max_records,
        rows <= generation.bounds.max_rows,
    ensures
        ({
            let (mid, gathered) = generation.on_read(
                Ok(CaptureEvent::Record { written: some }),
                first,
                capacity,
                0,
            );
            let (after, kept) = mid.on_read(
                Ok(CaptureEvent::HistoryPage { written: more, rows }),
                second,
                capacity,
                0,
            );
            &&& gathered is Ok
            &&& mid.records == generation.records
            &&& mid.pending == first
            &&& kept is Ok
            &&& after.records.last().bytes == first + second
            &&& after.records.last().rows == rows
            &&& !after.records.last().finish
        }),
{
    assert(first.take(some as int) == first);
    assert(second.take(more as int) == second);
    assert(generation.pending + first == first);
}

/// Of what the engine wrote only the bytes that it reports count.
pub proof fn law_only_written_bytes_count(
    generation: GenerationV,
    written: usize,
    scratch: Seq<u8>,
    other: Seq<u8>,
    capacity: int,
)
    requires
        written <= scratch.len(),
        written <= other.len(),
        scratch.take(written as int) == other.take(written as int),
    ensures
        generation.on_read(Ok(CaptureEvent::Record { written }), scratch, capacity, 0)
            == generation.on_read(Ok(CaptureEvent::Record { written }), other, capacity, 0),
{
}

/// A generation whose capture failed or is over is not read again, and a failure
/// of the engine other than a lack of room is remembered as the reason.
pub proof fn law_failures_are_remembered(
    generation: GenerationV,
    error: EngineError,
    scratch: Seq<u8>,
    pending_capacity: int,
    scratch_capacity: int,
)
    ensures
        ({
            let (after, read) = generation.on_read(
                Err(error),
                scratch,
                pending_capacity,
                scratch_capacity,
            );
            let (probed, answer) = generation.on_probe(Err(error));
            &&& read is Err
            &&& !generation.live ==> after == generation && probed == generation && (
            read matches Err(why) && why is InvalidHandle) && (answer matches Err(why) && why
                is InvalidHandle)
            &&& generation.live && !(error is OutOfSpace) ==> {
                &&& !after.live
                &&& after.failure == Some(read->Err_0)
                &&& after.records == generation.records
                &&& !probed.live
                &&& probed.failure == after.failure
            }
            &&& generation.live && error is OutOfSpace ==> after == generation && probed
                == generation
        }),
{
}

/// A probe says how much room the next piece takes, as long as a record may be
/// that large; the generation waits for it unchanged.
pub proof fn law_probes_say_what_the_next_piece_takes(generation: GenerationV, required: usize)
    requires
        generation.live,
    ensures
        ({
            let (after, answer) = generation.on_probe(Err(EngineError::OutOfSpace { required }));
            &&& after == generation
            &&& answer matches Ok(Probed::Read { required: said }) ==> said == required
            &&& answer is Ok <==> required <= generation.bounds.max_record_bytes
            &&& answer matches Err(why) ==> why is LimitExceeded
        }),
{
}

/// Whoever asks for a record gets that record, whole, or learns exactly what it
/// takes: asking again with that much succeeds. Where there is none yet, it is
/// told why.
pub proof fn law_records_are_served_whole(
    generation: GenerationV,
    index: int,
    max_bytes: int,
    max_rows: int,
    more_bytes: int,
    more_rows: int,
)
    requires
        0 <= index,
        forall|i: int|
            0 <= i < generation.records.len() ==> (#[trigger] generation.records[i]).bytes.len()
                <= usize::MAX,
    ensures
        ({
            let answer = generation.served(index, max_bytes, max_rows);
            &&& answer matches Ok(record) ==> index < generation.records.len() && record
                == generation.records[index] && record.bytes.len() <= max_bytes && record.rows
                <= max_rows
            &&& index < generation.records.len() && answer is Err ==> {
                &&& answer matches Err(
                    NativeStateError::OutOfSpace { required_bytes, required_rows },
                )
                &&& more_bytes >= required_bytes && more_rows >= required_rows
                    ==> generation.served(index, more_bytes, more_rows) == Ok::<
                    RecordV,
                    NativeStateError,
                >(generation.records[index])
                &&& max_bytes < required_bytes || max_rows < required_rows
            }
            &&& index >= generation.records.len() ==> (match generation.failure {
                Some(failure) => answer == Err::<RecordV, NativeStateError>(failure),
                None => answer == Err::<RecordV, NativeStateError>(NativeStateError::ImportBusy),
            })
        }),
{
    if index < generation.records.len() {
        assert(generation.records[index].bytes.len() <= usize::MAX);
    }
}

/// What ends a history is told apart: a reset, a resize, another terminal, a
/// change, an eviction.
pub proof fn law_invalidations_are_told_apart(
    generation: GenerationV,
    reason: CaptureInvalidation,
)
    ensures
        ({
            let (after, said) = generation.on_event(CaptureEvent::Invalidated(reason));
            &&& !after.live
            &&& after.failure is Some
            &&& said == Err::<(), NativeStateError>(after.failure->Some_0)
            &&& after.records == generation.records
            &&& reason is Reset <==> after.failure->Some_0 is Reset
            &&& reason is Resize <==> after.failure->Some_0 is Resize
            &&& reason is WrongTerminal <==> after.failure->Some_0 is WrongTerminal
            &&& reason is Mutation <==> after.failure->Some_0 is Stale
            &&& reason is Evicted <==> after.failure->Some_0 is Pruned
            &&& invalidation(reason) == after.failure->Some_0
        }),
{
}

/// What the engine says is told apart too: memory, room, a limit, a broken
/// stream, something it does not support.
pub proof fn law_engine_failures_are_told_apart(error: EngineError)
    ensures
        error is OutOfMemory <==> engine_failure(error) is OutOfMemory,
        error is LimitExceeded <==> engine_failure(error) is LimitExceeded,
        error is IoError <==> engine_failure(error) is Corruption,
        error is InvalidValue <==> engine_failure(error) is UnsupportedFeature,
        error matches EngineError::OutOfSpace { required } ==> (
        engine_failure(error) matches NativeStateError::OutOfSpace { required_bytes, .. }
            && required_bytes == required),
{
}

/// A cut is installed exactly where its own bounds are asked for, they were
/// reserved, its cursor is new and the terminal has a slot to spare. It then has
/// one holder, no record, and everything still to come; other histories stay.
pub proof fn law_installed_cuts_start_empty(
    manager: ManagerV,
    cursor: Seq<u8>,
    cut: NativeGenerationBounds,
    bounds: NativeGenerationBounds,
    reserved_bytes: int,
    held: Seq<bool>,
    other: Seq<u8>,
)
    requires
        other != cursor,
    ensures
        ({
            let (after, done) = manager.installed(cursor, cut, bounds, reserved_bytes, held);
            &&& done is Ok <==> bounds == cut && !manager.generations.contains_key(cursor)
                && manager.generations.len() + manager.reaped(held).retired.len()
                < manager.capacity && bounds.reservation() <= usize::MAX && bounds.reservation()
                <= reserved_bytes
            &&& done matches Err(why) ==> why is LimitExceeded && after.generations
                == manager.generations
            &&& done is Ok ==> {
                &&& after.generations.contains_key(cursor)
                &&& after.generations[cursor].cursor == cursor
                &&& after.generations[cursor].owners == 1
                &&& after.generations[cursor].records.len() == 0
                &&& after.generations[cursor].pending.len() == 0
                &&& after.generations[cursor].retained_bytes == 0
                &&& after.generations[cursor].live
                &&& after.generations[cursor].failure is None
                &&& after.generations[cursor].bounds == bounds
                &&& after.generations.contains_key(other) <==> manager.generations.contains_key(
                    other,
                )
                &&& manager.generations.contains_key(other) ==> after.generations[other]
                    == manager.generations[other]
            }
            &&& after.capacity == manager.capacity
            &&& after.capture_active == manager.capture_active
            &&& after.next_generation == manager.next_generation
        }),
{
}

/// The last holder to go takes the history along; while its bytes are still
/// handed around it counts against the terminal. Before that there is only one
/// holder less.
pub proof fn law_the_last_holder_ends_the_history(
    manager: ManagerV,
    cursor: Seq<u8>,
    held: bool,
    other: Seq<u8>,
)
    requires
        other != cursor,
    ensures
        ({
            let (after, done) = manager.released(cursor, held);
            &&& done is Ok <==> manager.generations.contains_key(cursor)
            &&& done is Err ==> after == manager
            &&& done is Ok && manager.generations[cursor].owners > 1 ==> {
                &&& after.generations[cursor].owners == manager.generations[cursor].owners - 1
                &&& after.generations[cursor].records == manager.generations[cursor].records
                &&& after.retired == manager.retired
            }
            &&& done is Ok && manager.generations[cursor].owners <= 1 ==> {
                &&& !after.generations.contains_key(cursor)
                &&& held ==> after.retired.len() == manager.retired.len() + 1
                    && after.retired.last() == cursor && manager.retired.is_prefix_of(
                    after.retired,
                )
                &&& !held ==> after.retired == manager.retired
            }
            &&& after.generations.contains_key(other) <==> manager.generations.contains_key(other)
            &&& manager.generations.contains_key(other) ==> after.generations[other]
                == manager.generations[other]
        }),
{
}

/// A request for a record is answered from the history of its own cursor: the
/// record itself where it is there and fits, and a look at the live terminal
/// where it is not there yet. Nothing is served within no room at all, or from a
/// cursor that nobody knows.
pub proof fn law_requests_are_answered_from_their_own_history(
    manager: ManagerV,
    cursor: Seq<u8>,
    index: int,
    max_bytes: int,
    max_rows: int,
)
    requires
        0 <= index,
    ensures
        ({
            let answer = manager.request(cursor, index, max_bytes, max_rows);
            let known = manager.generations.contains_key(cursor);
            let generation = manager.generations[cursor];
            &&& answer matches Ok(StepV::Record(record)) ==> known && index
                < generation.records.len() && record == generation.records[index]
            &&& answer matches Ok(StepV::Probe) ==> known && index >= generation.records.len()
                && generation.live && generation.failure is None && !manager.capture_active
            &&& !(answer matches Ok(StepV::Read(_)))
            &&& max_bytes > 0 && max_rows > 0 && known && index < generation.records.len()
                && generation.records[index].bytes.len() <= max_bytes
                && generation.records[index].rows <= max_rows ==> answer == Ok::<
                StepV,
                NativeStateError,
            >(StepV::Record(generation.records[index]))
            &&& max_bytes > 0 && max_rows > 0 && known && index >= generation.records.len()
                && generation.live && generation.failure is None && !manager.capture_active
                ==> answer == Ok::<StepV, NativeStateError>(StepV::Probe)
            &&& max_bytes > 0 && max_rows > 0 && !known ==> (answer matches Err(why) && why
                is InvalidHandle)
            &&& max_bytes == 0 || max_rows == 0 ==> (answer matches Err(why) && why
                is LimitExceeded)
        }),
{
}

/// A capture is planned within what its consumers take: no record larger than a
/// page or than the prefix, no more pages than chunks. None is planned while one
/// runs, nor without room, nor once the numbers are used up.
pub proof fn law_captures_are_planned_within_bounds(
    capture_active: bool,
    next_generation: u64,
    limits: BootstrapLimits,
    max_prefix_bytes: int,
    max_prefix_chunks: int,
)
    requires
        0 <= max_prefix_bytes <= usize::MAX,
        0 <= max_prefix_chunks <= usize::MAX,
    ensures
        ({
            let plan = capture_plan(
                capture_active,
                next_generation,
                limits,
                max_prefix_bytes,
                max_prefix_chunks,
            );
            &&& plan is Ok <==> !capture_active && max_prefix_bytes > 0 && max_prefix_chunks > 0
                && next_generation < u64::MAX
            &&& plan matches Err(why) ==> why is LimitExceeded || why is InvalidState
            &&& next_generation == u64::MAX && !capture_active && max_prefix_bytes > 0
                && max_prefix_chunks > 0 ==> plan->Err_0 is LimitExceeded
            &&& plan matches Ok(options) ==> {
                &&& 1 <= options.max_record_bytes <= max_prefix_bytes
                &&& limits.max_history_page_bytes > 0 ==> options.max_record_bytes
                    <= limits.max_history_page_bytes && (options.max_record_bytes
                    == limits.max_history_page_bytes || options.max_record_bytes
                    == max_prefix_bytes)
                &&& limits.max_history_page_bytes == 0 ==> options.max_record_bytes == 1
                &&& 1 <= options.max_pages <= max_prefix_chunks
                &&& options.max_pages <= MAX_NATIVE_PREFIX_CHUNKS
                &&& options.max_pages == max_prefix_chunks || options.max_pages
                    == MAX_NATIVE_PREFIX_CHUNKS
            }
        }),
{
}

/// A history may hold one record more than the pages of its capture, none larger
/// than that capture's, with no more rows than a page has.
pub proof fn law_histories_are_bounded_by_their_capture(options: CaptureOptions, rows: u32)
    requires
        options.max_pages < usize::MAX,
    ensures
        generation_bounds(options, rows).max_record_bytes == options.max_record_bytes,
        generation_bounds(options, rows).max_rows == rows,
        generation_bounds(options, rows).max_records == options.max_pages + 1,
        generation_bounds(options, rows).max_total_bytes == MAX_NATIVE_PREFIX_BYTES,
{
}

/// The name of a cut is made of everything that was written into it, in order,
/// and of its number; READY is never taken back.
pub proof fn law_cuts_are_named_by_what_was_written(
    capture: ManagedV,
    event: CaptureEvent,
    buffer: Seq<u8>,
)
    requires
        event.bytes() <= buffer.len(),
    ensures
        ({
            let after = capture.stepped(event, buffer);
            &&& after.prefix == capture.prefix + buffer.take(event.bytes() as int)
            &&& after.generation == capture.generation
            &&& after.bounds == capture.bounds
            &&& capture.ready ==> after.ready
            &&& event is Ready ==> after.ready
            &&& after.ready ==> capture.ready || event is Ready
            &&& capture.prefix.is_prefix_of(after.named_by())
        }),
{
    let after = capture.stepped(event, buffer);
    assert(capture.prefix == after.named_by().take(capture.prefix.len() as int));
}

/// Each event says how many bytes it brought.
pub proof fn law_events_say_what_they_wrote(event: CaptureEvent)
    ensures
        event matches CaptureEvent::Record { written } ==> event.bytes() == written,
        event matches CaptureEvent::Ready { written } ==> event.bytes() == written,
        event matches CaptureEvent::HistoryPage { written, .. } ==> event.bytes() == written,
        event matches CaptureEvent::Finish { written } ==> event.bytes() == written,
        event is Scan || event is Invalidated ==> event.bytes() == 0,
{
}

/// A reader hands out as much as it may: the rest, or a unit, or what was asked
/// for, whichever is least. It ends exactly when there is no rest.
pub proof fn law_readers_hand_out_as_much_as_they_may(
    reader: HistoryV,
    max_bytes: int,
    room: int,
)
    requires
        reader.valid(),
        reader.invalidated is None,
        max_bytes >= 0,
    ensures
        ({
            let rest = reader.suffix.len() - reader.pos;
            let plan = reader.plan(max_bytes, room);
            &&& plan matches HistoryPlan::Page(want) ==> {
                &&& 1 <= want <= rest
                &&& want <= reader.max_unit_bytes
                &&& want <= max_bytes
                &&& want <= room
                &&& want == rest || want == reader.max_unit_bytes || want == max_bytes
            }
            &&& plan is End <==> max_bytes > 0 && rest == 0
            &&& max_bytes == 0 ==> (plan matches HistoryPlan::Refused(why) && why
                is LimitExceeded)
            &&& max_bytes > 0 && rest > 0 && room >= least(
                least(rest, reader.max_unit_bytes),
                max_bytes,
            ) ==> plan is Page
        }),
{
}

/// A probe that finds something without bytes settles it at once, as if it had
/// been read; one that finds bytes where there was no room for any has gone
/// wrong.
pub proof fn law_probes_settle_what_takes_no_room(generation: GenerationV, event: CaptureEvent)
    requires
        generation.live,
    ensures
        ({
            let (after, answer) = generation.on_probe(Ok(event));
            let (done, kept) = generation.on_event(event);
            &&& event.bytes() == 0 ==> after == done && (answer is Ok <==> kept is Ok) && (answer
                is Ok ==> answer->Ok_0 is Settled)
            &&& event.bytes() > 0 ==> !after.live && (answer matches Err(why) && why
                is InvalidState) && after.records == generation.records
        }),
{
}

/// A read of one history leaves every other as it is, and answers with the record
/// that was asked for as soon as it is there.
pub proof fn law_reads_keep_to_their_history(
    manager: ManagerV,
    cursor: Seq<u8>,
    index: int,
    max_bytes: int,
    max_rows: int,
    answer: Result<CaptureEvent, EngineError>,
    scratch: Seq<u8>,
    pending_capacity: int,
    scratch_capacity: int,
    other: Seq<u8>,
)
    requires
        other != cursor,
        0 <= index,
    ensures
        ({
            let (after, said) = manager.read(
                cursor,
                index,
                max_bytes,
                max_rows,
                answer,
                scratch,
                pending_capacity,
                scratch_capacity,
            );
            &&& after.generations.contains_key(other) <==> manager.generations.contains_key(other)
            &&& manager.generations.contains_key(other) ==> after.generations[other]
                == manager.generations[other]
            &&& after.retired == manager.retired
            &&& !manager.generations.contains_key(cursor) ==> after == manager && (said matches Err(
                why,
            ) && why is InvalidHandle)
            &&& said matches Ok(record) ==> index < after.generations[cursor].records.len()
                && record == after.generations[cursor].records[index] && record.bytes.len()
                <= max_bytes && record.rows <= max_rows
        }),
{
}

/// A step hands out as much as one record holds, and says how much room it takes
/// where there is too little: with that much it goes through.
pub proof fn law_steps_say_what_they_take(
    len: int,
    pos: int,
    max_record_bytes: int,
    room: int,
    more: int,
)
    requires
        0 <= pos < len <= usize::MAX,
        1 <= max_record_bytes,
    ensures
        step_plan(len, pos, false, max_record_bytes, room) matches Ok(want) ==> 1 <= want <= len
            - pos && want <= max_record_bytes && want <= room && (want == len - pos || want
            == max_record_bytes),
        step_plan(len, pos, false, max_record_bytes, room) matches Err(why) ==> (
        why matches NativeStateError::OutOfSpace { required_bytes, .. } && room < required_bytes && (
        more >= required_bytes ==> step_plan(len, pos, false, max_record_bytes, more) == Ok::<
            int,
            NativeStateError,
        >(required_bytes as int))),
        step_plan(len, pos, true, max_record_bytes, room) is Err,
{
}

/// Pieces are never empty and never larger than a chunk or the whole prefix.
pub proof fn law_pieces_are_bounded(max_chunk_bytes: int, prefix_len: int)
    ensures
        1 <= piece_bound(max_chunk_bytes, prefix_len) <= MAX_NATIVE_PREFIX_BYTES,
        max_chunk_bytes >= 1 ==> piece_bound(max_chunk_bytes, prefix_len) <= max_chunk_bytes,
        prefix_len >= 1 ==> piece_bound(max_chunk_bytes, prefix_len) <= prefix_len,
        1 <= max_chunk_bytes <= prefix_len && max_chunk_bytes <= MAX_NATIVE_PREFIX_BYTES
            ==> piece_bound(max_chunk_bytes, prefix_len) == max_chunk_bytes,
{
}

/// A terminal that is given up keeps counting every history that it had, until
/// nobody holds their bytes.
pub proof fn law_given_up_histories_still_count(manager: ManagerV, order: Seq<Seq<u8>>)
    requires
        order.len() == manager.generations.len(),
    ensures
        manager.emptied(order).retained() == manager.retained(),
        manager.emptied(order).generations.len() == 0,
        manager.retired.is_prefix_of(manager.emptied(order).retired),
        forall|i: int|
            0 <= i < order.len() ==> manager.emptied(order).retired.contains(#[trigger] order[i]),
{
    let after = manager.emptied(order).retired;
    assert forall|i: int| 0 <= i < order.len() implies after.contains(#[trigger] order[i]) by {
        assert(after[manager.retired.len() + i] == order[i]);
    }
}

/// A history that was given up counts for as long as anybody else holds its
/// bytes: its own handle alone does not keep it.
pub proof fn law_bytes_are_held_by_others(handles: Seq<usize>, i: int)
    requires
        0 <= i < handles.len(),
    ensures
        charged(handles).len() == handles.len(),
        charged(handles)[i] <==> handles[i] >= 2,
{
}

/// Reaping keeps the order of what is still held, drops the rest, and goes
/// through the given up histories one after the other.
pub proof fn law_reaping_keeps_the_order(
    manager: ManagerV,
    held: Seq<bool>,
    cursor: Seq<u8>,
    holds: bool,
)
    requires
        manager.retired.len() == held.len(),
    ensures
        ({
            let more = ManagerV { retired: manager.retired.push(cursor), ..manager };
            let before = manager.reaped(held).retired;
            let after = more.reaped(held.push(holds)).retired;
            &&& holds ==> after == before.push(cursor)
            &&& !holds ==> after == before
            &&& held.len() == 0 ==> before.len() == 0
        }),
        manager.reaped(held).generations == manager.generations,
        manager.reaped(held).capacity == manager.capacity,
{
    let n = held.len();
    lemma_held_prefix(manager.retired, held, cursor, holds, n);
    assert(held.push(holds)[n as int] == holds);
    assert(manager.retired.push(cursor)[n as int] == cursor);
}

proof fn lemma_held_prefix(
    retired: Seq<Seq<u8>>,
    held: Seq<bool>,
    cursor: Seq<u8>,
    holds: bool,
    n: nat,
)
    requires
        n <= held.len(),
        retired.len() == held.len(),
    ensures
        held_among(retired.push(cursor), held.push(holds), n) == held_among(retired, held, n),
    decreases n,
{
    if n > 0 {
        lemma_held_prefix(retired, held, cursor, holds, (n - 1) as nat);
        assert(held.push(holds)[n - 1] == held[n - 1]);
        assert(retired.push(cursor)[n - 1] == retired[n - 1]);
    }
}

/// A snapshot is cut where its decoder stopped: the bytes up to READY and the
/// rest make up what the engine encoded, and its cursor names all of it. An
/// engine that encoded nothing, or a decoder that read nothing, makes no cut.
pub proof fn law_snapshots_are_cut_at_ready(
    encoded: Vec<u8>,
    at: u64,
    cut: Result<SnapshotCut, NativeStateError>,
)
    requires
        cut_outcome(Ok(encoded), Ok(at), cut),
    ensures
        cut is Ok <==> encoded@.len() > 0 && at > 0,
        cut matches Err(why) ==> why is InvalidState,
        cut matches Ok(cut) ==> {
            &&& contents(cut.prefix) == encoded@
            &&& cut.cursor@ == sha256(encoded@)
            &&& at <= encoded@.len() ==> encoded@.take(at as int) + contents(cut.suffix)
                == encoded@
            &&& at > encoded@.len() ==> contents(cut.suffix).len() == 0
        },
{
    if cut is Ok {
        if at <= encoded@.len() {
            assert(encoded@.take(at as int) + encoded@.skip(at as int) == encoded@);
        }
    }
}

/// A failure of the engine or of its decoder is the outcome of the cut.
pub proof fn law_failed_cuts_say_why(
    encoded: Result<Vec<u8>, EngineError>,
    position: Result<u64, EngineError>,
    cut: Result<SnapshotCut, NativeStateError>,
)
    requires
        cut_outcome(encoded, position, cut),
    ensures
        encoded matches Err(error) ==> cut == Err::<SnapshotCut, NativeStateError>(
            engine_failure(error),
        ),
        encoded matches Ok(bytes) ==> bytes@.len() > 0 ==> (position matches Err(error) ==> cut
            == Err::<SnapshotCut, NativeStateError>(engine_failure(error))),
{
}

} // verus!
