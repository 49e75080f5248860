//! The engine of an agent session: it validates what its producer appends,
//! stamps the sequence and the time it owns, retains a bounded ring, and hands
//! the stamped records out as live output.

use super::record::{
    law_accepted_records_are_well_placed, law_nothing_follows_a_session_end, record_views, validate,
    validated, AskV, RecordError, RecordV, StreamAsk, StreamEvidence, ValidRecord,
};
use super::ring::{capped, lemma_pruning_counts, RecordRing, RingV};
use crate::clock::{millis_at, now_ms, saturated};
use crate::payload::{contents, payload_bytes, payload_of};
use crate::resource::base::{
    AgentSessionHandle, ControlReply, ControlRequest, PaneOutput, ResourceCore,
    ResourceFacetHandle, ResourceHandle, ResourceId,
};
use crate::wire::ResourceKind;
use bytes::Bytes;
use vstd::prelude::*;

verus! {

/// Depth of the engine's mailboxes. A backlog this deep means that the engine
/// is not draining.
pub const AGENT_SESSION_MAILBOX: usize = 64;

/// What the server stamped onto an accepted append.
#[derive(Debug, Clone, PartialEq, Eq)]
pub struct AppendAccepted {
    /// Sequence of the append's first record.
    pub first_seq: u64,
    /// Sequence of the append's last record, and of the live output that
    /// carries it.
    pub last_seq: u64,
    /// The wall-clock milliseconds stamped on every record of the append.
    pub ts_ms: u64,
    /// What the records say about the session's state. The last record that
    /// says anything wins.
    pub evidence: Option<StreamEvidence>,
    /// The question that the last question-bearing record carried.
    pub ask: Option<StreamAsk>,
}

/// Why an append was refused.
#[derive(Debug, Clone, PartialEq, Eq)]
pub enum AppendRejection {
    /// A record failed validation; nothing was appended.
    Invalid(RecordError),
    /// The engine's mailbox is full, or its sequence space is exhausted.
    Overflow(String),
    /// The engine is gone.
    Closed,
}

/// The replayable state of a session at a cut.
#[derive(Debug, PartialEq, Eq)]
pub struct AgentSessionBootstrap {
    /// The sequence that the cut includes; live output resumes after it.
    pub base_seq: u64,
    /// Retained records, oldest first.
    pub records: Vec<Bytes>,
    /// How many records retention has dropped.
    pub dropped: u64,
}

/// The engine of an agent session.
#[derive(Debug)]
pub struct AgentSessionActor {
    /// What every resource has.
    pub core: ResourceCore,
    /// Retained records.
    pub ring: RecordRing,
    /// Whether a `session_end` was accepted; nothing follows it.
    pub ended: bool,
}

/// An engine and the handle that the rest of the server holds.
#[derive(Debug)]
pub struct AgentSessionBundle {
    /// The engine.
    pub actor: AgentSessionActor,
    /// The handle.
    pub handle: ResourceHandle,
}

/// What an append comes to.
#[derive(Debug)]
pub struct AppendOutcome {
    /// The answer to the producer.
    pub reply: Result<AppendAccepted, AppendRejection>,
    /// What is broadcast.
    pub output: Option<PaneOutput>,
}

/// A session as contracts speak of it.
#[verifier::ext_equal]
pub struct SessionV {
    /// The last sequence issued.
    pub seq: int,
    /// The ring.
    pub ring: RingV,
    /// Whether the session has ended.
    pub ended: bool,
}

impl View for AgentSessionActor {
    type V = SessionV;

    open spec fn view(&self) -> SessionV {
        SessionV { seq: self.core.seq as int, ring: self.ring@, ended: self.ended }
    }
}

/// The stamped line of record `i` of a run that begins at `first_seq`.
pub open spec fn stamped_at(records: Seq<RecordV>, i: int, first_seq: int, ts_ms: u64) -> Seq<u8> {
    records[i].stamped((first_seq + i) as u64, ts_ms)
}

/// The ring after the first `n` records of a run were retained.
pub open spec fn ring_after(
    ring: RingV,
    records: Seq<RecordV>,
    n: nat,
    first_seq: int,
    ts_ms: u64,
) -> RingV
    decreases n,
{
    if n == 0 {
        ring
    } else {
        ring_after(ring, records, (n - 1) as nat, first_seq, ts_ms).pushed(
            stamped_at(records, n - 1, first_seq, ts_ms),
        )
    }
}

/// The first `n` stamped lines of a run, one after another.
pub open spec fn lines_of(records: Seq<RecordV>, n: nat, first_seq: int, ts_ms: u64) -> Seq<u8>
    decreases n,
{
    if n == 0 {
        Seq::empty()
    } else {
        lines_of(records, (n - 1) as nat, first_seq, ts_ms) + stamped_at(
            records,
            n - 1,
            first_seq,
            ts_ms,
        )
    }
}

/// The last thing that the first `n` records say about the state.
pub open spec fn last_evidence(records: Seq<RecordV>, n: nat) -> Option<StreamEvidence>
    decreases n,
{
    if n == 0 {
        None
    } else if records[n - 1].evidence() is Some {
        records[n - 1].evidence()
    } else {
        last_evidence(records, (n - 1) as nat)
    }
}

/// The last question that the first `n` records carry.
pub open spec fn last_ask(records: Seq<RecordV>, n: nat) -> Option<AskV>
    decreases n,
{
    if n == 0 {
        None
    } else if records[n - 1].ask() is Some {
        records[n - 1].ask()
    } else {
        last_ask(records, (n - 1) as nat)
    }
}

/// Whether one of the first `n` records ends the session.
pub open spec fn ends(records: Seq<RecordV>, n: nat) -> bool
    decreases n,
{
    n > 0 && (records[n - 1].ends_session() || ends(records, (n - 1) as nat))
}

impl SessionV {
    /// The session after a run of records was appended.
    pub open spec fn appended(self, records: Seq<RecordV>, ts_ms: u64) -> SessionV {
        SessionV {
            seq: self.seq + records.len(),
            ring: ring_after(self.ring, records, records.len(), self.seq + 1, ts_ms),
            ended: self.ended || ends(records, records.len()),
        }
    }
}

/// A question as contracts speak of it.
pub open spec fn ask_view(ask: Option<StreamAsk>) -> Option<AskV> {
    match ask {
        Some(ask) => Some(ask@),
        None => None,
    }
}

/// Whether `outcome` answers an accepted run of records.
pub open spec fn accepts(
    outcome: AppendOutcome,
    records: Seq<RecordV>,
    first_seq: int,
    ts_ms: u64,
) -> bool {
    &&& outcome.reply matches Ok(accepted)
    &&& accepted.first_seq == first_seq
    &&& accepted.last_seq == first_seq + records.len() - 1
    &&& accepted.ts_ms == ts_ms
    &&& accepted.evidence == last_evidence(records, records.len())
    &&& ask_view(accepted.ask) == last_ask(records, records.len())
    &&& outcome.output matches Some(PaneOutput::Live { seq, bytes })
    &&& seq == first_seq + records.len() - 1
    &&& contents(bytes) == lines_of(records, records.len(), first_seq, ts_ms)
}

/// What an append of `bytes` at `ts_ms` comes to.
pub open spec fn append_answers(
    before: SessionV,
    bytes: Seq<u8>,
    ts_ms: u64,
    after: SessionV,
    outcome: AppendOutcome,
) -> bool {
    match validated(bytes, before.ended) {
        Err(refused) => {
            &&& after == before
            &&& outcome.output is None
            &&& outcome.reply matches Err(AppendRejection::Invalid(error))
            &&& error@ == refused
        },
        Ok(records) => if before.seq + records.len() > u64::MAX {
            &&& after == before
            &&& outcome.output is None
            &&& outcome.reply matches Err(AppendRejection::Overflow(message))
            &&& message@ == "the session's sequence space is exhausted"@
        } else {
            &&& after == before.appended(records, ts_ms)
            &&& accepts(outcome, records, before.seq + 1, ts_ms)
        },
    }
}

fn add_bytes(payload: &mut Vec<u8>, line: &Bytes)
    ensures
        final(payload)@ == old(payload)@ + contents(*line),
{
    let bytes = payload_bytes(line);
    let mut i: usize = 0;
    assert(old(payload)@ + bytes@.take(0) =~= old(payload)@);
    while i < bytes.len()
        invariant
            i <= bytes@.len(),
            payload@ == old(payload)@ + bytes@.take(i as int),
        decreases bytes@.len() - i,
    {
        payload.push(bytes[i]);
        i += 1;
        assert(payload@ =~= old(payload)@ + bytes@.take(i as int));
    }
    assert(bytes@.take(i as int) =~= bytes@);
}

fn overflow() -> (outcome: AppendOutcome)
    ensures
        outcome.output is None,
        outcome.reply matches Err(AppendRejection::Overflow(message)) && message@
            == "the session's sequence space is exhausted"@,
{
    AppendOutcome {
        reply: Err(
            AppendRejection::Overflow("the session's sequence space is exhausted".to_owned()),
        ),
        output: None,
    }
}

/// A string, or its absence, as contracts speak of it.
pub open spec fn text_view(text: Option<String>) -> Option<Seq<char>> {
    match text {
        Some(text) => Some(text@),
        None => None,
    }
}

impl AgentSessionActor {
    /// A session bound to `parent` that retains at most `log_bytes` of records.
    pub fn build(
        parent: ResourceId,
        provider: &str,
        native_id: Option<&str>,
        log_bytes: u32,
    ) -> (bundle: AgentSessionBundle)
        ensures
            bundle.actor@ == (SessionV {
                seq: 0,
                ring: RingV {
                    records: Seq::empty(),
                    bytes: 0,
                    ceiling: log_bytes as int,
                    dropped: 0,
                },
                ended: false,
            }),
            bundle.actor.core.kind == ResourceKind::AgentSession,
            bundle.actor.core.parent == Some(parent),
            bundle.actor.core.exit_report is None,
            bundle.handle.kind == ResourceKind::AgentSession,
            bundle.handle.parent == Some(parent),
            bundle.handle.facet matches ResourceFacetHandle::AgentSession(facet) && facet.provider@
                == provider@ && text_view(facet.native_id) == (match native_id {
                Some(id) => Some(id@),
                None => None,
            }),
    {
        let facet = AgentSessionHandle {
            provider: provider.to_owned(),
            native_id: match native_id {
                Some(id) => Some(id.to_owned()),
                None => None,
            },
        };
        AgentSessionBundle {
            actor: AgentSessionActor {
                core: ResourceCore::new(ResourceKind::AgentSession, Some(parent)),
                ring: RecordRing::new(log_bytes as usize),
                ended: false,
            },
            handle: ResourceHandle {
                kind: ResourceKind::AgentSession,
                parent: Some(parent),
                facet: ResourceFacetHandle::AgentSession(facet),
            },
        }
    }

    /// The current cut: the retained ring and the sequence it reaches.
    pub fn bootstrap(&self) -> (cut: AgentSessionBootstrap)
        ensures
            cut.base_seq == self@.seq,
            cut.records@.map_values(|record: Bytes| contents(record)) == self@.ring.records,
            cut.dropped == self@.ring.dropped,
    {
        AgentSessionBootstrap {
            base_seq: self.core.seq(),
            records: self.ring.records(),
            dropped: self.ring.dropped(),
        }
    }

    /// Stamp, retain and collect the records of an accepted append.
    fn commit(&mut self, records: &Vec<ValidRecord>, ts_ms: u64) -> (outcome: AppendOutcome)
        requires
            records@.len() > 0,
            old(self)@.seq + records@.len() <= u64::MAX,
        ensures
            final(self)@ == old(self)@.appended(record_views(records@), ts_ms),
            accepts(outcome, record_views(records@), old(self)@.seq + 1, ts_ms),
            final(self).core == (ResourceCore { seq: final(self).core.seq, ..old(self).core }),
    {
        let ghost views = record_views(records@);
        let ghost first = self@.seq + 1;
        let first_seq: u64 = self.core.seq() + 1;
        let mut last_seq: u64 = self.core.seq();
        let mut evidence: Option<StreamEvidence> = None;
        let mut ask: Option<StreamAsk> = None;
        let mut payload: Vec<u8> = Vec::new();
        let mut i: usize = 0;
        assert(payload@ =~= lines_of(views, 0, first, ts_ms));
        while i < records.len()
            invariant
                i <= records@.len(),
                views == record_views(records@),
                views.len() == records@.len(),
                first == old(self)@.seq + 1,
                old(self)@.seq + records@.len() <= u64::MAX,
                self.core.seq == old(self)@.seq + i,
                last_seq == self.core.seq,
                self.core == (ResourceCore { seq: self.core.seq, ..old(self).core }),
                self.ring@ == ring_after(old(self)@.ring, views, i as nat, first, ts_ms),
                self.ended == (old(self)@.ended || ends(views, i as nat)),
                evidence == last_evidence(views, i as nat),
                ask_view(ask) == last_ask(views, i as nat),
                payload@ == lines_of(views, i as nat, first, ts_ms),
            decreases records@.len() - i,
        {
            let entry = &records[i];
            assert(views[i as int] == entry@);
            match self.core.next_seq() {
                Some(seq) => {
                    let line = entry.stamp(seq, ts_ms);
                    assert(contents(line) == stamped_at(views, i as int, first, ts_ms));
                    add_bytes(&mut payload, &line);
                    self.ring.push(line);
                    last_seq = seq;
                },
                None => {},
            }
            let found = entry.evidence();
            if found.is_some() {
                evidence = found;
            }
            let question = entry.ask();
            if question.is_some() {
                ask = question;
            }
            if entry.ends_session() {
                self.ended = true;
            }
            i += 1;
        }
        AppendOutcome {
            reply: Ok(AppendAccepted { first_seq, last_seq, ts_ms, evidence, ask }),
            output: Some(PaneOutput::Live { seq: last_seq, bytes: payload_of(payload) }),
        }
    }

    /// Validate, stamp, retain and hand out one append, at a given time.
    ///
    /// All or nothing: a run whose last record is malformed appends none of the
    /// others, and one that would exhaust the sequence space leaves the ring as
    /// it was. Every record takes its own sequence, and the whole run ships as
    /// one output, sequenced by its last record.
    pub fn append_at(&mut self, bytes: &Bytes, ts_ms: u64) -> (outcome: AppendOutcome)
        ensures
            append_answers(old(self)@, contents(*bytes), ts_ms, final(self)@, outcome),
            final(self).core == (ResourceCore { seq: final(self).core.seq, ..old(self).core }),
    {
        proof {
            law_accepted_records_are_well_placed(contents(*bytes), self.ended);
        }
        let records = match validate(payload_bytes(bytes), self.ended) {
            Ok(records) => records,
            Err(error) => {
                return AppendOutcome {
                    reply: Err(AppendRejection::Invalid(error)),
                    output: None,
                };
            },
        };
        let room: u64 = u64::MAX - self.core.seq();
        if records.len() as u64 > room {
            return overflow();
        }
        self.commit(&records, ts_ms)
    }

    /// Validate, stamp, retain and hand out one append, now.
    pub fn handle_append(&mut self, bytes: &Bytes) -> (outcome: AppendOutcome)
        ensures
            exists|at: std::time::SystemTime|
                append_answers(
                    old(self)@,
                    contents(*bytes),
                    saturated(#[trigger] millis_at(at)),
                    final(self)@,
                    outcome,
                ),
            final(self).core == (ResourceCore { seq: final(self).core.seq, ..old(self).core }),
    {
        let ts_ms: u64 = now_ms();
        self.append_at(bytes, ts_ms)
    }

    /// Answer a supervisory request: it belongs to another kind. The requests
    /// that carry a reply get a refusal; the others are dropped.
    pub fn refuse_control(request: ControlRequest) -> (refusal: Option<(ControlReply, String)>)
        ensures
            match request {
                ControlRequest::ReportAgentState { reply, .. } => refusal matches Some(
                    (to, message),
                ) && to == reply && message@
                    == "an agent session derives its state from its own stream"@,
                ControlRequest::SynthesizeAgentStateRecord { reply, .. } => refusal matches Some(
                    (to, message),
                ) && to == reply && message@
                    == "an agent session derives its state from its own stream"@,
                ControlRequest::Signal { reply, .. } => refusal matches Some((to, message)) && to
                    == reply && message@ == "an agent session has no process to signal"@,
                _ => refusal is None,
            },
    {
        match request {
            ControlRequest::ReportAgentState { reply, .. } => Some(
                (reply, "an agent session derives its state from its own stream".to_owned()),
            ),
            ControlRequest::SynthesizeAgentStateRecord { reply, .. } => Some(
                (reply, "an agent session derives its state from its own stream".to_owned()),
            ),
            ControlRequest::Signal { reply, .. } => Some(
                (reply, "an agent session has no process to signal".to_owned()),
            ),
            ControlRequest::LeaseChanged { .. } => None,
            ControlRequest::AgentRecordInvalidated => None,
        }
    }

    /// The engine stops: its exit is reported, without a status.
    pub fn finish(&mut self)
        ensures
            final(self)@ == old(self)@,
            final(self).core == (ResourceCore {
                exit_report: match old(self).core.exit_report {
                    Some(reported) => Some(reported),
                    None => Some(None),
                },
                ..old(self).core
            }),
    {
        self.core.notify_exit(None);
    }
}

/// A refused append commits nothing and broadcasts nothing.
pub proof fn law_refused_appends_commit_nothing(
    before: SessionV,
    bytes: Seq<u8>,
    ts_ms: u64,
    after: SessionV,
    outcome: AppendOutcome,
)
    requires
        append_answers(before, bytes, ts_ms, after, outcome),
        outcome.reply is Err,
    ensures
        after == before,
        outcome.output is None,
{
}

/// The records of consecutive appends take consecutive sequences, and the cut
/// after an append reaches exactly the output that carried it.
pub proof fn law_sequences_are_contiguous(
    before: SessionV,
    first: Seq<u8>,
    first_ms: u64,
    between: SessionV,
    earlier: AppendOutcome,
    second: Seq<u8>,
    second_ms: u64,
    after: SessionV,
    later: AppendOutcome,
)
    requires
        append_answers(before, first, first_ms, between, earlier),
        append_answers(between, second, second_ms, after, later),
        earlier.reply is Ok,
        later.reply is Ok,
    ensures
        earlier.reply->Ok_0.first_seq == before.seq + 1,
        between.seq == earlier.reply->Ok_0.last_seq,
        later.reply->Ok_0.first_seq == earlier.reply->Ok_0.last_seq + 1,
        later.reply->Ok_0.first_seq <= later.reply->Ok_0.last_seq,
        earlier.output matches Some(PaneOutput::Live { seq, .. }) && seq == between.seq,
{
    law_accepted_records_are_well_placed(second, between.ended);
}

proof fn lemma_run_counts(ring: RingV, records: Seq<RecordV>, n: nat, first_seq: int, ts_ms: u64)
    requires
        ring.dropped + ring.records.len() + n <= u64::MAX,
    ensures
        ({
            let after = ring_after(ring, records, n, first_seq, ts_ms);
            after.dropped + after.records.len() == ring.dropped + ring.records.len() + n
        }),
    decreases n,
{
    if n > 0 {
        lemma_run_counts(ring, records, (n - 1) as nat, first_seq, ts_ms);
        let before = ring_after(ring, records, (n - 1) as nat, first_seq, ts_ms);
        let record = stamped_at(records, n - 1, first_seq, ts_ms);
        lemma_pruning_counts(
            RingV {
                records: before.records.push(record),
                bytes: capped(before.bytes + record.len(), usize::MAX as int),
                ..before
            },
        );
    }
}

/// What is retained and what was dropped account for every record that took a
/// sequence.
pub proof fn law_every_record_is_accounted_for(
    before: SessionV,
    bytes: Seq<u8>,
    ts_ms: u64,
    after: SessionV,
    outcome: AppendOutcome,
)
    requires
        append_answers(before, bytes, ts_ms, after, outcome),
        before.ring.dropped + before.ring.records.len() == before.seq,
    ensures
        after.ring.dropped + after.ring.records.len() == after.seq,
{
    match validated(bytes, before.ended) {
        Err(_) => {},
        Ok(records) => {
            if before.seq + records.len() <= u64::MAX {
                lemma_run_counts(before.ring, records, records.len(), before.seq + 1, ts_ms);
            }
        },
    }
}

/// A session that has ended stays ended, and refuses every append.
pub proof fn law_sessions_end_for_good(
    before: SessionV,
    bytes: Seq<u8>,
    ts_ms: u64,
    after: SessionV,
    outcome: AppendOutcome,
)
    requires
        append_answers(before, bytes, ts_ms, after, outcome),
        before.ended,
    ensures
        outcome.reply matches Err(AppendRejection::Invalid(_)),
        after == before,
{
    law_nothing_follows_a_session_end(bytes);
}

} // verus!
