//! How a satellite's bootstrap generations run, from BEGIN to READY.

use crate::hub::fault::{BoundFrame, RelayFault};
use crate::hub::flow::{
    expected_profile, FlowsV, MAX_RELAY_CONNECTION_BYTES, MAX_RELAY_CONNECTION_FRAMES,
    MAX_RELAY_GENERATION_BYTES, MAX_RELAY_GENERATION_FRAMES,
};
use crate::hub::session::flow_step;
use crate::ids::{BootstrapId, StreamId, TerminalId};
use crate::payload::contents;
use crate::wire::{BootstrapProfile, BootstrapStreamProfile, FrameKind};
use vstd::prelude::*;

verus! {

/// A generation of this terminal is under way and not READY.
pub open spec fn under_way(
    flows: FlowsV,
    terminal: u32,
    stream_id: StreamId,
    bootstrap_id: BootstrapId,
) -> bool {
    &&& flows.flows.contains_key(terminal)
    &&& !flows.flows[terminal].ready
    &&& flows.flows[terminal].stream_id == stream_id
    &&& flows.flows[terminal].bootstrap_id == bootstrap_id
}

/// The link's profile decides what a generation may be encoded as: the same
/// codec, or the same kind of text; nothing where the link's is unknown.
pub proof fn law_generations_match_the_link(negotiated: BootstrapProfile)
    ensures
        negotiated matches BootstrapProfile::NativeState { codec, .. } ==> expected_profile(
            negotiated,
        ) == Some(BootstrapStreamProfile::NativeState { codec }),
        negotiated is SynthesizedVtRaw <==> expected_profile(negotiated) == Some(
            BootstrapStreamProfile::SynthesizedVtRaw,
        ),
        negotiated is SynthesizedVtStateSync <==> expected_profile(negotiated) == Some(
            BootstrapStreamProfile::SynthesizedVtStateSync,
        ),
        negotiated is Unrecognized <==> expected_profile(negotiated) is None,
{
}

/// A generation starts exactly where its profile is the link's, none runs for
/// that terminal and the connection has a frame to spare. It starts at chunk
/// zero, costs one frame, and is not READY; other terminals are as they were.
pub proof fn law_generations_start_fresh(
    flows: FlowsV,
    negotiated: BootstrapProfile,
    terminal: u32,
    stream_id: StreamId,
    bootstrap_id: BootstrapId,
    profile: BootstrapStreamProfile,
    other: u32,
)
    ensures
        ({
            let begun = flows.begin(negotiated, terminal, stream_id, bootstrap_id, profile);
            &&& begun is Ok <==> expected_profile(negotiated) == Some(profile)
                && !flows.flows.contains_key(terminal) && flows.frames
                < MAX_RELAY_CONNECTION_FRAMES
            &&& begun matches Ok(after) ==> {
                &&& under_way(after, terminal, stream_id, bootstrap_id)
                &&& after.flows[terminal].profile == profile
                &&& after.flows[terminal].next_chunk_seq == 0
                &&& after.flows[terminal].generation_bytes == 0
                &&& after.flows[terminal].generation_frames == 1
                &&& after.bytes == flows.bytes
                &&& after.frames == flows.frames + 1
                &&& other != terminal ==> (after.flows.contains_key(other)
                    <==> flows.flows.contains_key(other)) && (flows.flows.contains_key(other)
                    ==> after.flows[other] == flows.flows[other])
            }
            &&& expected_profile(negotiated) != Some(profile) ==> begun == Err::<
                FlowsV,
                RelayFault,
            >(RelayFault::ProfileMismatch { sent: profile, negotiated })
            &&& expected_profile(negotiated) == Some(profile) && flows.flows.contains_key(terminal)
                ==> begun == Err::<FlowsV, RelayFault>(RelayFault::OverlappingBegin { terminal })
        }),
{
}

/// Chunks are taken in order, each once: after chunk `k` only chunk `k + 1` is
/// taken, whatever chunk came before, and a chunk that is out of order is
/// refused with the number that was expected.
pub proof fn law_chunks_follow_each_other(
    flows: FlowsV,
    terminal: u32,
    stream_id: StreamId,
    bootstrap_id: BootstrapId,
    chunk_seq: u32,
    len: nat,
    next: u32,
    next_len: nat,
)
    requires
        flows.chunk(terminal, stream_id, bootstrap_id, chunk_seq, len) is Ok,
        chunk_seq < MAX_RELAY_GENERATION_FRAMES,
    ensures
        ({
            let after = flows.chunk(terminal, stream_id, bootstrap_id, chunk_seq, len)->Ok_0;
            let then_next = after.chunk(terminal, stream_id, bootstrap_id, next, next_len);
            &&& under_way(after, terminal, stream_id, bootstrap_id)
            &&& then_next is Ok ==> next == chunk_seq + 1
            &&& next != chunk_seq + 1 ==> then_next == Err::<FlowsV, RelayFault>(
                RelayFault::ChunkSequence { sent: next, expected: (chunk_seq + 1) as u32 },
            )
        }),
{
}

/// A chunk is taken exactly where it continues the generation that runs and the
/// generation and the connection have room for it, and it costs its bytes and
/// one frame, of both.
pub proof fn law_chunks_cost_their_bytes_and_a_frame(
    flows: FlowsV,
    terminal: u32,
    stream_id: StreamId,
    bootstrap_id: BootstrapId,
    chunk_seq: u32,
    len: nat,
    other: u32,
)
    requires
        flows.flows.contains_key(terminal) ==> flows.flows[terminal].wf(),
    ensures
        ({
            let taken = flows.chunk(terminal, stream_id, bootstrap_id, chunk_seq, len);
            let flow = flows.flows[terminal];
            &&& taken is Ok <==> {
                &&& under_way(flows, terminal, stream_id, bootstrap_id)
                &&& chunk_seq == flow.next_chunk_seq
                &&& flow.generation_frames < MAX_RELAY_GENERATION_FRAMES
                &&& flow.generation_bytes + len <= MAX_RELAY_GENERATION_BYTES
                &&& flows.frames < MAX_RELAY_CONNECTION_FRAMES
                &&& flows.bytes + len <= MAX_RELAY_CONNECTION_BYTES
            }
            &&& taken matches Ok(after) ==> {
                &&& after.bytes == flows.bytes + len
                &&& after.frames == flows.frames + 1
                &&& after.flows[terminal].generation_bytes == flow.generation_bytes + len
                &&& after.flows[terminal].generation_frames == flow.generation_frames + 1
                &&& after.flows[terminal].profile == flow.profile
                &&& other != terminal && flows.flows.contains_key(other)
                    ==> after.flows.contains_key(other) && after.flows[other]
                    == flows.flows[other]
            }
        }),
{
}

/// READY ends what BEGIN began, and gives back everything that the generation
/// cost the connection; so does a generation that is retired before.
pub proof fn law_finished_generations_give_back_their_cost(
    flows: FlowsV,
    negotiated: BootstrapProfile,
    terminal: u32,
    stream_id: StreamId,
    bootstrap_id: BootstrapId,
    profile: BootstrapStreamProfile,
    len: nat,
)
    requires
        flows.begin(negotiated, terminal, stream_id, bootstrap_id, profile) is Ok,
        flows.begin(negotiated, terminal, stream_id, bootstrap_id, profile)->Ok_0.chunk(
            terminal,
            stream_id,
            bootstrap_id,
            0,
            len,
        ) is Ok,
    ensures
        ({
            let begun = flows.begin(negotiated, terminal, stream_id, bootstrap_id, profile)->Ok_0;
            let fed = begun.chunk(terminal, stream_id, bootstrap_id, 0, len)->Ok_0;
            let done = fed.finish(terminal, stream_id, bootstrap_id);
            &&& done matches Ok(after)
            &&& after.bytes == flows.bytes
            &&& after.frames == flows.frames
            &&& after.flows.contains_key(terminal)
            &&& after.flows[terminal].ready
            &&& after.flows[terminal].stream_id == stream_id
            &&& after.flows[terminal].bootstrap_id == bootstrap_id
            &&& after.flows[terminal].profile == profile
            &&& fed.retired(terminal).bytes == flows.bytes
            &&& fed.retired(terminal).frames == flows.frames
            &&& !fed.retired(terminal).flows.contains_key(terminal)
            &&& after.retired(terminal).bytes == flows.bytes
            &&& after.retired(terminal).frames == flows.frames
            &&& !after.retired(terminal).flows.contains_key(terminal)
        }),
{
}

/// READY is taken exactly for the generation that is under way; a second READY,
/// another identity and a terminal without a generation are refused.
pub proof fn law_ready_ends_the_generation_under_way(
    flows: FlowsV,
    terminal: u32,
    stream_id: StreamId,
    bootstrap_id: BootstrapId,
    other: u32,
)
    requires
        flows.flows.contains_key(terminal) ==> flows.flows[terminal].wf(),
    ensures
        ({
            let done = flows.finish(terminal, stream_id, bootstrap_id);
            &&& done is Ok <==> under_way(flows, terminal, stream_id, bootstrap_id)
                && flows.flows[terminal].generation_frames < MAX_RELAY_GENERATION_FRAMES
            &&& done matches Ok(after) ==> {
                &&& after.flows[terminal].ready
                &&& after.finish(terminal, stream_id, bootstrap_id) == Err::<FlowsV, RelayFault>(
                    RelayFault::ReadyIdentity { terminal },
                )
                &&& other != terminal && flows.flows.contains_key(other)
                    ==> after.flows.contains_key(other) && after.flows[other]
                    == flows.flows[other]
            }
            &&& !flows.flows.contains_key(terminal) ==> done == Err::<FlowsV, RelayFault>(
                RelayFault::ReadyBeforeBegin { terminal },
            )
        }),
{
}

/// Live output, history pages and what is said of history pass exactly for the
/// generation that is READY, under the link's profile; a generation's tombstone
/// passes for the generation that is known, READY or not, and ends it. Nothing
/// else moves a generation.
pub proof fn law_streams_need_their_generation(
    flows: FlowsV,
    negotiated: BootstrapProfile,
    id: u32,
    frame: FrameKind,
    stream_id: StreamId,
    bootstrap_id: BootstrapId,
)
    requires
        ({
            ||| (frame matches FrameKind::TerminalOutput { stream_id: a, bootstrap_id: b, .. } && a
                == stream_id && b == bootstrap_id)
            ||| (frame matches FrameKind::HistoryPage { stream_id: a, bootstrap_id: b, .. } && a
                == stream_id && b == bootstrap_id)
            ||| (frame matches FrameKind::HistoryTombstone { stream_id: a, bootstrap_id: b, .. }
                && a == stream_id && b == bootstrap_id)
            ||| (frame matches FrameKind::HistoryRejected { stream_id: a, bootstrap_id: b, .. } && a
                == stream_id && b == bootstrap_id)
            ||| (frame matches FrameKind::BootstrapTombstone { stream_id: a, bootstrap_id: b, .. }
                && a == stream_id && b == bootstrap_id)
        }),
    ensures
        ({
            let flow = flows.flows[id];
            let known = flows.flows.contains_key(id) && flow.stream_id == stream_id
                && flow.bootstrap_id == bootstrap_id && expected_profile(negotiated) == Some(
                flow.profile,
            );
            let passed = flow_step(flows, negotiated, id, frame);
            &&& frame is BootstrapTombstone ==> (passed is Ok <==> known)
            &&& !(frame is BootstrapTombstone) ==> (passed is Ok <==> known && flow.ready)
            &&& passed matches Ok(after) ==> (if frame is BootstrapTombstone {
                !after.flows.contains_key(id)
            } else {
                after == flows
            })
            &&& !flows.flows.contains_key(id) ==> (passed matches Err(
                RelayFault::NoGeneration { terminal, .. },
            ) && terminal == id)
            &&& flows.flows.contains_key(id) && !known ==> (passed matches Err(
                RelayFault::InactiveIdentity { terminal, .. },
            ) && terminal == id)
            &&& known && !flow.ready && !(frame is BootstrapTombstone) ==> (passed matches Err(
                RelayFault::BeforeReady { terminal, .. },
            ) && terminal == id)
        }),
{
}

/// A fault names the kind of frame that was out of place.
pub proof fn law_faults_name_the_frame(
    flows: FlowsV,
    negotiated: BootstrapProfile,
    id: u32,
    frame: FrameKind,
    kind: BoundFrame,
)
    requires
        flow_step(flows, negotiated, id, frame) matches Err(fault) && ((
        fault matches RelayFault::NoGeneration { frame: named, .. } && named == kind) || (
        fault matches RelayFault::InactiveIdentity { frame: named, .. } && named == kind) || (
        fault matches RelayFault::BeforeReady { frame: named, .. } && named == kind)),
    ensures
        kind is TerminalOutput <==> frame is TerminalOutput,
        kind is HistoryPage <==> frame is HistoryPage,
        kind is BootstrapTombstone <==> frame is BootstrapTombstone,
        kind is HistoryTombstone <==> frame is HistoryTombstone,
        kind is HistoryRejected <==> frame is HistoryRejected,
{
}

/// The steps of a generation are taken from the frames that announce them: BEGIN
/// with its profile, chunks with their number and their length, READY. Events
/// move nothing.
pub proof fn law_bootstrap_frames_step_their_generation(
    flows: FlowsV,
    negotiated: BootstrapProfile,
    id: u32,
    frame: FrameKind,
)
    ensures
        frame matches FrameKind::BootstrapBegin { stream_id, bootstrap_id, profile, .. }
            ==> flow_step(flows, negotiated, id, frame) == flows.begin(
            negotiated,
            id,
            stream_id,
            bootstrap_id,
            profile,
        ),
        frame matches FrameKind::BootstrapChunk {
            stream_id,
            bootstrap_id,
            chunk_seq,
            payload,
            ..
        } ==> flow_step(flows, negotiated, id, frame) == flows.chunk(
            id,
            stream_id,
            bootstrap_id,
            chunk_seq,
            contents(payload).len(),
        ),
        frame matches FrameKind::BootstrapReady { stream_id, bootstrap_id, .. } ==> flow_step(
            flows,
            negotiated,
            id,
            frame,
        ) == flows.finish(id, stream_id, bootstrap_id),
        frame is Event ==> flow_step(flows, negotiated, id, frame) == Ok::<FlowsV, RelayFault>(
            flows,
        ),
{
}

/// A whole bootstrap on one terminal, frame by frame, ends with its live output
/// let through.
pub proof fn law_a_bootstrap_leads_to_live_output(
    flows: FlowsV,
    negotiated: BootstrapProfile,
    id: u32,
    at: TerminalId,
    begin: FrameKind,
    ready: FrameKind,
    output: FrameKind,
    stream_id: StreamId,
    bootstrap_id: BootstrapId,
)
    requires
        begin matches FrameKind::BootstrapBegin {
            stream_id: a,
            bootstrap_id: b,
            profile,
            ..
        } && a == stream_id && b == bootstrap_id && expected_profile(negotiated) == Some(profile),
        ready matches FrameKind::BootstrapReady { stream_id: a, bootstrap_id: b, .. } && a
            == stream_id && b == bootstrap_id,
        output matches FrameKind::TerminalOutput { stream_id: a, bootstrap_id: b, .. } && a
            == stream_id && b == bootstrap_id,
        !flows.flows.contains_key(id),
        flows.frames < MAX_RELAY_CONNECTION_FRAMES,
    ensures
        flow_step(flows, negotiated, id, output) is Err,
        flow_step(flows, negotiated, id, begin) matches Ok(begun) && flow_step(
            begun,
            negotiated,
            id,
            output,
        ) is Err && (flow_step(begun, negotiated, id, ready) matches Ok(done) && flow_step(
            done,
            negotiated,
            id,
            output,
        ) == Ok::<FlowsV, RelayFault>(done) && flow_step(done, negotiated, id, begin) is Err),
{
}

} // verus!
