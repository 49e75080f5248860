//! Bootstrap generations on one satellite link.
//!
//! A satellite announces a generation, sends it in numbered chunks and
//! declares it complete; only then may live output and history refer to it.
//! Unfinished generations are charged against bounds, one per generation and
//! one for the whole connection, so that no satellite can commit the hub to
//! unbounded work.

use crate::hub::fault::{BoundFrame, RelayFault};
use crate::ids::{BootstrapId, StreamId};
use crate::table::{lemma_entry, map_of, Table};
use crate::wire::{BootstrapProfile, BootstrapStreamProfile};
use vstd::prelude::*;

verus! {

/// Most payload bytes of one generation.
pub const MAX_RELAY_GENERATION_BYTES: u64 = 16_777_216;

/// Most frames of one generation, its BEGIN and READY included.
pub const MAX_RELAY_GENERATION_FRAMES: u32 = 128;

/// Most payload bytes of all unfinished generations together.
pub const MAX_RELAY_CONNECTION_BYTES: u64 = 33_554_432;

/// Most frames of all unfinished generations together.
pub const MAX_RELAY_CONNECTION_FRAMES: u32 = 256;

/// The generation that a satellite terminal's stream currently follows.
#[derive(Debug, Clone, Copy, PartialEq, Eq, Structural)]
pub struct RelayBootstrapFlow {
    /// The stream.
    pub stream_id: StreamId,
    /// The generation.
    pub bootstrap_id: BootstrapId,
    /// How the generation is encoded.
    pub profile: BootstrapStreamProfile,
    /// Sequence that the next chunk must carry.
    pub next_chunk_seq: u32,
    /// Payload bytes seen so far.
    pub generation_bytes: u64,
    /// Frames seen so far.
    pub generation_frames: u32,
    /// Whether the generation is complete.
    pub ready: bool,
}

impl RelayBootstrapFlow {
    /// The counters respect the bounds, and every frame of an unfinished
    /// generation but its BEGIN is a chunk.
    pub open spec fn wf(&self) -> bool {
        &&& 1 <= self.generation_frames <= MAX_RELAY_GENERATION_FRAMES
        &&& self.generation_bytes <= MAX_RELAY_GENERATION_BYTES
        &&& self.next_chunk_seq < self.generation_frames
    }
}

/// Frames charged for unfinished generations.
pub open spec fn unfinished_frames(flows: Seq<(u32, RelayBootstrapFlow)>) -> int
    decreases flows.len(),
{
    if flows.len() == 0 {
        0
    } else {
        unfinished_frames(flows.drop_last()) + if flows.last().1.ready {
            0
        } else {
            flows.last().1.generation_frames as int
        }
    }
}

/// Payload bytes charged for unfinished generations.
pub open spec fn unfinished_bytes(flows: Seq<(u32, RelayBootstrapFlow)>) -> int
    decreases flows.len(),
{
    if flows.len() == 0 {
        0
    } else {
        unfinished_bytes(flows.drop_last()) + if flows.last().1.ready {
            0
        } else {
            flows.last().1.generation_bytes as int
        }
    }
}

spec fn frame_charge(flow: RelayBootstrapFlow) -> int {
    if flow.ready {
        0
    } else {
        flow.generation_frames as int
    }
}

spec fn byte_charge(flow: RelayBootstrapFlow) -> int {
    if flow.ready {
        0
    } else {
        flow.generation_bytes as int
    }
}

proof fn lemma_charges_nonnegative(flows: Seq<(u32, RelayBootstrapFlow)>)
    ensures
        unfinished_frames(flows) >= 0,
        unfinished_bytes(flows) >= 0,
    decreases flows.len(),
{
    if flows.len() > 0 {
        lemma_charges_nonnegative(flows.drop_last());
    }
}

proof fn lemma_charge_remove(flows: Seq<(u32, RelayBootstrapFlow)>, i: int)
    requires
        0 <= i < flows.len(),
    ensures
        unfinished_frames(flows.remove(i)) == unfinished_frames(flows) - frame_charge(flows[i].1),
        unfinished_bytes(flows.remove(i)) == unfinished_bytes(flows) - byte_charge(flows[i].1),
        unfinished_frames(flows) >= frame_charge(flows[i].1),
        unfinished_bytes(flows) >= byte_charge(flows[i].1),
    decreases flows.len(),
{
    if i == flows.len() - 1 {
        assert(flows.remove(i) =~= flows.drop_last());
        lemma_charges_nonnegative(flows.drop_last());
    } else {
        lemma_charge_remove(flows.drop_last(), i);
        assert(flows.remove(i).drop_last() =~= flows.drop_last().remove(i));
        assert(flows.remove(i).last() == flows.last());
    }
}

proof fn lemma_charge_push(flows: Seq<(u32, RelayBootstrapFlow)>, key: u32, flow: RelayBootstrapFlow)
    ensures
        unfinished_frames(flows.push((key, flow))) == unfinished_frames(flows) + frame_charge(flow),
        unfinished_bytes(flows.push((key, flow))) == unfinished_bytes(flows) + byte_charge(flow),
{
    assert(flows.push((key, flow)).drop_last() =~= flows);
}

proof fn lemma_charge_update(
    flows: Seq<(u32, RelayBootstrapFlow)>,
    i: int,
    key: u32,
    flow: RelayBootstrapFlow,
)
    requires
        0 <= i < flows.len(),
    ensures
        unfinished_frames(flows.update(i, (key, flow))) == unfinished_frames(flows) - frame_charge(
            flows[i].1,
        ) + frame_charge(flow),
        unfinished_bytes(flows.update(i, (key, flow))) == unfinished_bytes(flows) - byte_charge(
            flows[i].1,
        ) + byte_charge(flow),
    decreases flows.len(),
{
    let after = flows.update(i, (key, flow));
    if i == flows.len() - 1 {
        assert(after.drop_last() =~= flows.drop_last());
    } else {
        lemma_charge_update(flows.drop_last(), i, key, flow);
        assert(after.drop_last() =~= flows.drop_last().update(i, (key, flow)));
    }
}

/// The generations of one link and what is charged for them.
pub struct FlowBook {
    /// The selected generation of each satellite terminal.
    pub bootstrap_flows: Table<RelayBootstrapFlow>,
    /// Payload bytes charged for unfinished generations.
    pub inflight_generation_bytes: u64,
    /// Frames charged for unfinished generations.
    pub inflight_generation_frames: u32,
}

/// The stream encoding that a connection profile asks for.
pub open spec fn expected_profile(profile: BootstrapProfile) -> Option<BootstrapStreamProfile> {
    match profile {
        BootstrapProfile::NativeState { codec, .. } => Some(
            BootstrapStreamProfile::NativeState { codec },
        ),
        BootstrapProfile::SynthesizedVtRaw => Some(BootstrapStreamProfile::SynthesizedVtRaw),
        BootstrapProfile::SynthesizedVtStateSync => Some(
            BootstrapStreamProfile::SynthesizedVtStateSync,
        ),
        BootstrapProfile::Unrecognized { .. } => None,
    }
}

/// The generations of one link, as contracts speak of them.
#[verifier::ext_equal]
pub struct FlowsV {
    /// The selected generation of each satellite terminal.
    pub flows: Map<u32, RelayBootstrapFlow>,
    /// Payload bytes charged for unfinished generations.
    pub bytes: u64,
    /// Frames charged for unfinished generations.
    pub frames: u32,
}

impl FlowsV {
    /// No generation.
    pub open spec fn none() -> Self {
        FlowsV { flows: Map::empty(), bytes: 0, frames: 0 }
    }

    /// What a BEGIN comes to.
    pub open spec fn begin(
        self,
        negotiated: BootstrapProfile,
        terminal: u32,
        stream_id: StreamId,
        bootstrap_id: BootstrapId,
        profile: BootstrapStreamProfile,
    ) -> Result<Self, RelayFault> {
        if Some(profile) != expected_profile(negotiated) {
            Err(RelayFault::ProfileMismatch { sent: profile, negotiated })
        } else if self.flows.contains_key(terminal) {
            Err(RelayFault::OverlappingBegin { terminal })
        } else if self.frames >= MAX_RELAY_CONNECTION_FRAMES {
            Err(RelayFault::ConnectionFrames)
        } else {
            Ok(
                FlowsV {
                    flows: self.flows.insert(
                        terminal,
                        RelayBootstrapFlow {
                            stream_id,
                            bootstrap_id,
                            profile,
                            next_chunk_seq: 0,
                            generation_bytes: 0,
                            generation_frames: 1,
                            ready: false,
                        },
                    ),
                    bytes: self.bytes,
                    frames: (self.frames + 1) as u32,
                },
            )
        }
    }

    /// What a chunk of `len` payload bytes comes to.
    pub open spec fn chunk(
        self,
        terminal: u32,
        stream_id: StreamId,
        bootstrap_id: BootstrapId,
        chunk_seq: u32,
        len: nat,
    ) -> Result<Self, RelayFault> {
        let flow = self.flows[terminal];
        if !self.flows.contains_key(terminal) {
            Err(RelayFault::ChunkBeforeBegin { terminal })
        } else if flow.ready || flow.stream_id != stream_id || flow.bootstrap_id != bootstrap_id {
            Err(RelayFault::ChunkIdentity { terminal })
        } else if chunk_seq != flow.next_chunk_seq {
            Err(RelayFault::ChunkSequence { sent: chunk_seq, expected: flow.next_chunk_seq })
        } else if flow.generation_frames + 1 > MAX_RELAY_GENERATION_FRAMES {
            Err(RelayFault::GenerationFrames)
        } else if flow.generation_bytes + len > MAX_RELAY_GENERATION_BYTES {
            Err(RelayFault::GenerationBytes)
        } else if self.frames + 1 > MAX_RELAY_CONNECTION_FRAMES {
            Err(RelayFault::ConnectionFrames)
        } else if self.bytes + len > MAX_RELAY_CONNECTION_BYTES {
            Err(RelayFault::ConnectionBytes)
        } else {
            Ok(
                FlowsV {
                    flows: self.flows.insert(
                        terminal,
                        RelayBootstrapFlow {
                            next_chunk_seq: (flow.next_chunk_seq + 1) as u32,
                            generation_bytes: (flow.generation_bytes + len) as u64,
                            generation_frames: (flow.generation_frames + 1) as u32,
                            ..flow
                        },
                    ),
                    bytes: (self.bytes + len) as u64,
                    frames: (self.frames + 1) as u32,
                },
            )
        }
    }

    /// What a READY comes to.
    pub open spec fn finish(
        self,
        terminal: u32,
        stream_id: StreamId,
        bootstrap_id: BootstrapId,
    ) -> Result<Self, RelayFault> {
        let flow = self.flows[terminal];
        if !self.flows.contains_key(terminal) {
            Err(RelayFault::ReadyBeforeBegin { terminal })
        } else if flow.ready || flow.stream_id != stream_id || flow.bootstrap_id != bootstrap_id {
            Err(RelayFault::ReadyIdentity { terminal })
        } else if flow.generation_frames >= MAX_RELAY_GENERATION_FRAMES {
            Err(RelayFault::GenerationFrames)
        } else {
            Ok(
                FlowsV {
                    flows: self.flows.insert(
                        terminal,
                        RelayBootstrapFlow {
                            generation_frames: (flow.generation_frames + 1) as u32,
                            ready: true,
                            ..flow
                        },
                    ),
                    bytes: (self.bytes - flow.generation_bytes) as u64,
                    frames: (self.frames - flow.generation_frames) as u32,
                },
            )
        }
    }

    /// Why a frame does not belong to the selected generation, if it does not.
    pub open spec fn known_fault(
        self,
        negotiated: BootstrapProfile,
        terminal: u32,
        stream_id: StreamId,
        bootstrap_id: BootstrapId,
        frame: BoundFrame,
    ) -> Option<RelayFault> {
        let flow = self.flows[terminal];
        if !self.flows.contains_key(terminal) {
            Some(RelayFault::NoGeneration { frame, terminal })
        } else if flow.stream_id != stream_id || flow.bootstrap_id != bootstrap_id || Some(
            flow.profile,
        ) != expected_profile(negotiated) {
            Some(RelayFault::InactiveIdentity { frame, terminal })
        } else {
            None
        }
    }

    /// Why a frame does not belong to the selected generation once complete, if
    /// it does not.
    pub open spec fn ready_fault(
        self,
        negotiated: BootstrapProfile,
        terminal: u32,
        stream_id: StreamId,
        bootstrap_id: BootstrapId,
        frame: BoundFrame,
    ) -> Option<RelayFault> {
        match self.known_fault(negotiated, terminal, stream_id, bootstrap_id, frame) {
            Some(fault) => Some(fault),
            None => if self.flows[terminal].ready {
                None
            } else {
                Some(RelayFault::BeforeReady { frame, terminal })
            },
        }
    }

    /// The generations once `terminal`'s is forgotten.
    pub open spec fn retired(self, terminal: u32) -> Self {
        let flow = self.flows[terminal];
        if self.flows.contains_key(terminal) && !flow.ready {
            FlowsV {
                flows: self.flows.remove(terminal),
                bytes: (self.bytes - flow.generation_bytes) as u64,
                frames: (self.frames - flow.generation_frames) as u32,
            }
        } else {
            FlowsV { flows: self.flows.remove(terminal), ..self }
        }
    }
}

impl View for FlowBook {
    type V = FlowsV;

    open spec fn view(&self) -> FlowsV {
        FlowsV {
            flows: self.bootstrap_flows@,
            bytes: self.inflight_generation_bytes,
            frames: self.inflight_generation_frames,
        }
    }
}

/// The stream encoding that a connection profile asks for.
pub fn expected_stream_profile(profile: BootstrapProfile) -> (expected: Option<
    BootstrapStreamProfile,
>)
    ensures
        expected == expected_profile(profile),
{
    match profile {
        BootstrapProfile::NativeState { codec, .. } => Some(
            BootstrapStreamProfile::NativeState { codec },
        ),
        BootstrapProfile::SynthesizedVtRaw => Some(BootstrapStreamProfile::SynthesizedVtRaw),
        BootstrapProfile::SynthesizedVtStateSync => Some(
            BootstrapStreamProfile::SynthesizedVtStateSync,
        ),
        BootstrapProfile::Unrecognized { .. } => None,
    }
}

/// One more frame against `limit`, or `fault`.
fn charge_frame(current: u32, limit: u32, fault: RelayFault) -> (charged: Result<u32, RelayFault>)
    ensures
        charged == (if current + 1 <= limit {
            Ok((current + 1) as u32)
        } else {
            Err(fault)
        }),
{
    match current.checked_add(1) {
        Some(count) => if count <= limit {
            Ok(count)
        } else {
            Err(fault)
        },
        None => Err(fault),
    }
}

/// `len` more bytes against `limit`, or `fault`.
fn charge_bytes(current: u64, len: u64, limit: u64, fault: RelayFault) -> (charged: Result<
    u64,
    RelayFault,
>)
    ensures
        charged == (if current + len <= limit {
            Ok((current + len) as u64)
        } else {
            Err(fault)
        }),
{
    match current.checked_add(len) {
        Some(bytes) => if bytes <= limit {
            Ok(bytes)
        } else {
            Err(fault)
        },
        None => Err(fault),
    }
}

impl FlowBook {
    /// What the book charges is what the unfinished generations add up to, and
    /// it respects the bounds of the connection.
    pub open spec fn wf(&self) -> bool {
        &&& self.bootstrap_flows.wf()
        &&& forall|i: int|
            0 <= i < self.bootstrap_flows.entries@.len() ==> (
            #[trigger] self.bootstrap_flows.entries@[i]).1.wf()
        &&& self.inflight_generation_frames == unfinished_frames(self.bootstrap_flows.entries@)
        &&& self.inflight_generation_bytes == unfinished_bytes(self.bootstrap_flows.entries@)
        &&& self.inflight_generation_frames <= MAX_RELAY_CONNECTION_FRAMES
        &&& self.inflight_generation_bytes <= MAX_RELAY_CONNECTION_BYTES
    }

    proof fn lemma_flow(&self, terminal: u32)
        requires
            self.wf(),
            self.bootstrap_flows@.contains_key(terminal),
        ensures
            self.bootstrap_flows@[terminal].wf(),
            frame_charge(self.bootstrap_flows@[terminal]) <= self.inflight_generation_frames,
            byte_charge(self.bootstrap_flows@[terminal]) <= self.inflight_generation_bytes,
    {
        let entries = self.bootstrap_flows.entries@;
        let i = choose|i: int| 0 <= i < entries.len() && (#[trigger] entries[i]).0 == terminal;
        lemma_entry(entries, i);
        lemma_charge_remove(entries, i);
    }

    /// A book without generations.
    pub fn new() -> (book: Self)
        ensures
            book.wf(),
            book@ == FlowsV::none(),
    {
        FlowBook {
            bootstrap_flows: Table::new(),
            inflight_generation_bytes: 0,
            inflight_generation_frames: 0,
        }
    }

    fn replace_flow(
        &mut self,
        terminal: u32,
        flow: RelayBootstrapFlow,
        inflight_bytes: u64,
        inflight_frames: u32,
    )
        requires
            old(self).wf(),
            flow.wf(),
            inflight_frames <= MAX_RELAY_CONNECTION_FRAMES,
            inflight_bytes <= MAX_RELAY_CONNECTION_BYTES,
            if old(self)@.flows.contains_key(terminal) {
                inflight_frames == old(self).inflight_generation_frames - frame_charge(
                    old(self)@.flows[terminal],
                ) + frame_charge(flow) && inflight_bytes == old(self).inflight_generation_bytes
                    - byte_charge(old(self)@.flows[terminal]) + byte_charge(flow)
            } else {
                inflight_frames == old(self).inflight_generation_frames + frame_charge(flow)
                    && inflight_bytes == old(self).inflight_generation_bytes + byte_charge(flow)
            },
        ensures
            final(self).wf(),
            final(self)@ == (FlowsV {
                flows: old(self)@.flows.insert(terminal, flow),
                bytes: inflight_bytes,
                frames: inflight_frames,
            }),
    {
        let ghost before = self.bootstrap_flows.entries@;
        self.bootstrap_flows.insert(terminal, flow);
        self.inflight_generation_bytes = inflight_bytes;
        self.inflight_generation_frames = inflight_frames;
        proof {
            if map_of(before).contains_key(terminal) {
                let i = choose|i: int|
                    0 <= i < before.len() && (#[trigger] before[i]).0 == terminal
                        && self.bootstrap_flows.entries@ == before.update(i, (terminal, flow));
                lemma_entry(before, i);
                lemma_charge_update(before, i, terminal, flow);
            } else {
                lemma_charge_push(before, terminal, flow);
            }
        }
    }

    /// A generation begins.
    pub fn begin_bootstrap_flow(
        &mut self,
        negotiated: BootstrapProfile,
        terminal: u32,
        stream_id: StreamId,
        bootstrap_id: BootstrapId,
        profile: BootstrapStreamProfile,
    ) -> (outcome: Result<(), RelayFault>)
        requires
            old(self).wf(),
        ensures
            final(self).wf(),
            match old(self)@.begin(negotiated, terminal, stream_id, bootstrap_id, profile) {
                Ok(after) => outcome is Ok && final(self)@ == after,
                Err(fault) => outcome == Err::<(), _>(fault) && final(self)@ == old(self)@,
            },
    {
        let expected = expected_stream_profile(negotiated);
        let matches = match expected {
            Some(expected) => expected == profile,
            None => false,
        };
        if !matches {
            return Err(RelayFault::ProfileMismatch { sent: profile, negotiated });
        }
        if self.bootstrap_flows.contains(terminal) {
            return Err(RelayFault::OverlappingBegin { terminal });
        }
        if self.inflight_generation_frames >= MAX_RELAY_CONNECTION_FRAMES {
            return Err(RelayFault::ConnectionFrames);
        }
        let bytes = self.inflight_generation_bytes;
        let frames = self.inflight_generation_frames + 1;
        self.replace_flow(
            terminal,
            RelayBootstrapFlow {
                stream_id,
                bootstrap_id,
                profile,
                next_chunk_seq: 0,
                generation_bytes: 0,
                generation_frames: 1,
                ready: false,
            },
            bytes,
            frames,
        );
        Ok(())
    }

    /// A chunk of the selected generation arrives.
    pub fn accept_bootstrap_chunk(
        &mut self,
        terminal: u32,
        stream_id: StreamId,
        bootstrap_id: BootstrapId,
        chunk_seq: u32,
        payload_len: usize,
    ) -> (outcome: Result<(), RelayFault>)
        requires
            old(self).wf(),
        ensures
            final(self).wf(),
            match old(self)@.chunk(
                terminal,
                stream_id,
                bootstrap_id,
                chunk_seq,
                payload_len as nat,
            ) {
                Ok(after) => outcome is Ok && final(self)@ == after,
                Err(fault) => outcome == Err::<(), _>(fault) && final(self)@ == old(self)@,
            },
    {
        let payload_len = payload_len as u64;
        let flow = match self.bootstrap_flows.get(terminal) {
            Some(flow) => *flow,
            None => {
                return Err(RelayFault::ChunkBeforeBegin { terminal });
            },
        };
        proof {
            self.lemma_flow(terminal);
        }
        if flow.ready || flow.stream_id != stream_id || flow.bootstrap_id != bootstrap_id {
            return Err(RelayFault::ChunkIdentity { terminal });
        }
        if chunk_seq != flow.next_chunk_seq {
            return Err(
                RelayFault::ChunkSequence { sent: chunk_seq, expected: flow.next_chunk_seq },
            );
        }
        let generation_frames = charge_frame(
            flow.generation_frames,
            MAX_RELAY_GENERATION_FRAMES,
            RelayFault::GenerationFrames,
        )?;
        let generation_bytes = charge_bytes(
            flow.generation_bytes,
            payload_len,
            MAX_RELAY_GENERATION_BYTES,
            RelayFault::GenerationBytes,
        )?;
        let inflight_frames = charge_frame(
            self.inflight_generation_frames,
            MAX_RELAY_CONNECTION_FRAMES,
            RelayFault::ConnectionFrames,
        )?;
        let inflight_bytes = charge_bytes(
            self.inflight_generation_bytes,
            payload_len,
            MAX_RELAY_CONNECTION_BYTES,
            RelayFault::ConnectionBytes,
        )?;
        self.replace_flow(
            terminal,
            RelayBootstrapFlow {
                next_chunk_seq: flow.next_chunk_seq + 1,
                generation_bytes,
                generation_frames,
                ..flow
            },
            inflight_bytes,
            inflight_frames,
        );
        Ok(())
    }

    /// The selected generation is complete; it is no longer charged.
    pub fn finish_bootstrap_flow(
        &mut self,
        terminal: u32,
        stream_id: StreamId,
        bootstrap_id: BootstrapId,
    ) -> (outcome: Result<(), RelayFault>)
        requires
            old(self).wf(),
        ensures
            final(self).wf(),
            match old(self)@.finish(terminal, stream_id, bootstrap_id) {
                Ok(after) => outcome is Ok && final(self)@ == after,
                Err(fault) => outcome == Err::<(), _>(fault) && final(self)@ == old(self)@,
            },
    {
        let flow = match self.bootstrap_flows.get(terminal) {
            Some(flow) => *flow,
            None => {
                return Err(RelayFault::ReadyBeforeBegin { terminal });
            },
        };
        proof {
            self.lemma_flow(terminal);
        }
        if flow.ready || flow.stream_id != stream_id || flow.bootstrap_id != bootstrap_id {
            return Err(RelayFault::ReadyIdentity { terminal });
        }
        if flow.generation_frames >= MAX_RELAY_GENERATION_FRAMES {
            return Err(RelayFault::GenerationFrames);
        }
        let bytes = self.inflight_generation_bytes - flow.generation_bytes;
        let frames = self.inflight_generation_frames - flow.generation_frames;
        self.replace_flow(
            terminal,
            RelayBootstrapFlow {
                generation_frames: flow.generation_frames + 1,
                ready: true,
                ..flow
            },
            bytes,
            frames,
        );
        Ok(())
    }

    /// Check that a frame belongs to the selected generation.
    pub fn validate_known_identity(
        &self,
        negotiated: BootstrapProfile,
        terminal: u32,
        stream_id: StreamId,
        bootstrap_id: BootstrapId,
        frame: BoundFrame,
    ) -> (outcome: Result<(), RelayFault>)
        requires
            self.wf(),
        ensures
            outcome == (match self@.known_fault(
                negotiated,
                terminal,
                stream_id,
                bootstrap_id,
                frame,
            ) {
                Some(fault) => Err(fault),
                None => Ok(()),
            }),
    {
        let flow = match self.bootstrap_flows.get(terminal) {
            Some(flow) => *flow,
            None => {
                return Err(RelayFault::NoGeneration { frame, terminal });
            },
        };
        let expected = match expected_stream_profile(negotiated) {
            Some(expected) => expected == flow.profile,
            None => false,
        };
        if flow.stream_id != stream_id || flow.bootstrap_id != bootstrap_id || !expected {
            return Err(RelayFault::InactiveIdentity { frame, terminal });
        }
        Ok(())
    }

    /// Check that a frame belongs to the selected generation and that the
    /// generation is complete.
    pub fn validate_ready_identity(
        &self,
        negotiated: BootstrapProfile,
        terminal: u32,
        stream_id: StreamId,
        bootstrap_id: BootstrapId,
        frame: BoundFrame,
    ) -> (outcome: Result<(), RelayFault>)
        requires
            self.wf(),
        ensures
            outcome == (match self@.ready_fault(
                negotiated,
                terminal,
                stream_id,
                bootstrap_id,
                frame,
            ) {
                Some(fault) => Err(fault),
                None => Ok(()),
            }),
    {
        self.validate_known_identity(negotiated, terminal, stream_id, bootstrap_id, frame)?;
        match self.bootstrap_flows.get(terminal) {
            Some(flow) => if flow.ready {
                Ok(())
            } else {
                Err(RelayFault::BeforeReady { frame, terminal })
            },
            None => Err(RelayFault::NoGeneration { frame, terminal }),
        }
    }

    /// Forget the selected generation; an unfinished one is no longer charged.
    pub fn retire_bootstrap_flow(&mut self, terminal: u32)
        requires
            old(self).wf(),
        ensures
            final(self).wf(),
            final(self)@ == old(self)@.retired(terminal),
    {
        let ghost before = self.bootstrap_flows.entries@;
        proof {
            if self.bootstrap_flows@.contains_key(terminal) {
                self.lemma_flow(terminal);
            }
        }
        if let Some(flow) = self.bootstrap_flows.remove(terminal) {
            proof {
                let i = choose|i: int|
                    0 <= i < before.len() && (#[trigger] before[i]).0 == terminal
                        && self.bootstrap_flows.entries@ == before.remove(i);
                lemma_entry(before, i);
                lemma_charge_remove(before, i);
            }
            if !flow.ready {
                self.inflight_generation_bytes =
                self.inflight_generation_bytes - flow.generation_bytes;
                self.inflight_generation_frames =
                self.inflight_generation_frames - flow.generation_frames;
            }
        }
    }

    /// Forget every generation.
    pub fn clear(&mut self)
        ensures
            final(self).wf(),
            final(self)@ == FlowsV::none(),
    {
        self.bootstrap_flows.clear();
        self.inflight_generation_bytes = 0;
        self.inflight_generation_frames = 0;
    }
}

/// With no unfinished generation, nothing is charged: a link whose generations
/// are all complete or gone has its whole budget back.
pub proof fn law_finished_generations_cost_nothing(book: FlowBook)
    requires
        book.wf(),
        forall|terminal: u32| #[trigger]
            book.bootstrap_flows@.contains_key(terminal) ==> book.bootstrap_flows@[terminal].ready,
    ensures
        book.inflight_generation_frames == 0,
        book.inflight_generation_bytes == 0,
{
    let entries = book.bootstrap_flows.entries@;
    assert forall|i: int| 0 <= i < entries.len() implies (#[trigger] entries[i]).1.ready by {
        lemma_entry(entries, i);
        assert(book.bootstrap_flows@.contains_key(entries[i].0));
    }
    lemma_all_ready(entries);
}

proof fn lemma_all_ready(flows: Seq<(u32, RelayBootstrapFlow)>)
    requires
        forall|i: int| 0 <= i < flows.len() ==> (#[trigger] flows[i]).1.ready,
    ensures
        unfinished_frames(flows) == 0,
        unfinished_bytes(flows) == 0,
    decreases flows.len(),
{
    if flows.len() > 0 {
        assert(flows[flows.len() - 1].1.ready);
        assert forall|i: int| 0 <= i < flows.drop_last().len() implies (
        #[trigger] flows.drop_last()[i]).1.ready by {
            assert(flows[i].1.ready);
        }
        lemma_all_ready(flows.drop_last());
    }
}

} // verus!
