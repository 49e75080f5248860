//! What a terminal tells the rest of the server: semantic events sourced from
//! its output, the detector's findings, and supervisory control.
//!
//! What the engine alone can know (the tracked title, the marks in a chunk, the
//! kernel's working directory, the detector's verdicts) is handed in; here it is
//! decided what becomes of it.

use crate::ids::ClientId;
use crate::mailbox::{MailboxV, Mailboxes};
use crate::payload::{contents, payload_bytes};
use crate::resource::base::{
    fanned_out, ControlReply, ControlRequest, ResourceCore, ResourceId,
};
use crate::resource::event_sink::{EventSink, SinkV};
use crate::text::same_text;
use crate::wire::{
    AgentEvent, ControlAction, ReportedAgentState, ResourceKind, TerminalLifecycle, TerminalSignal,
};
use bytes::Bytes;
use std::collections::VecDeque;
use vstd::prelude::*;
use vstd::string::*;

verus! {

broadcast use vstd::std_specs::vecdeque::group_vec_dequeue_axioms;

/// A mark that a shell or a program wrote into its output.
#[derive(Debug, PartialEq, Eq)]
pub enum OscMark {
    /// A command starts.
    CommandStart,
    /// A command ended.
    CommandEnd {
        /// The status that the shell reported.
        exit_code: Option<i32>,
    },
    /// Progress, as the program reports it.
    Progress(String),
}

/// A question that a pane's title carries.
#[derive(Debug, PartialEq, Eq)]
pub struct AskMarker {
    /// Question id.
    pub id: String,
    /// Question text.
    pub question: String,
    /// Offered answers.
    pub suggestions: Vec<String>,
}

/// A pending question, as it is reported.
#[derive(Debug, PartialEq, Eq)]
pub struct AskedPayload {
    /// Question id.
    pub id: String,
    /// Question text.
    pub question: String,
    /// Offered answers.
    pub suggestions: Vec<String>,
    /// How long it has been asked; not tracked here.
    pub elapsed_seconds: Option<u64>,
}

/// A question as contracts speak of it.
#[verifier::ext_equal]
pub struct MarkerV {
    /// Question id.
    pub id: Seq<char>,
    /// Question text.
    pub question: Seq<char>,
    /// Offered answers.
    pub suggestions: Seq<Seq<char>>,
}

/// Texts as contracts speak of them.
pub open spec fn texts(items: Seq<String>) -> Seq<Seq<char>> {
    items.map_values(|item: String| item@)
}

impl View for AskMarker {
    type V = MarkerV;

    open spec fn view(&self) -> MarkerV {
        MarkerV {
            id: self.id@,
            question: self.question@,
            suggestions: texts(self.suggestions@),
        }
    }
}

/// A marker, or its absence, as contracts speak of it.
pub open spec fn marker_view(marker: Option<AskMarker>) -> Option<MarkerV> {
    match marker {
        Some(marker) => Some(marker@),
        None => None,
    }
}

/// A chunk of output that the engine applied, and what it read right after.
#[derive(Debug)]
pub struct AppliedChunk {
    /// The chunk.
    pub bytes: Bytes,
    /// The title that the engine tracks.
    pub title: String,
    /// The marks in the chunk.
    pub marks: Vec<OscMark>,
    /// A reading of the working directory for each mark that ends a command.
    pub cwds: Vec<Option<String>>,
    /// The question that the title carries.
    pub ask: Option<AskMarker>,
}

/// What the detector makes of an agent's state.
#[derive(Debug, Clone, Copy, PartialEq, Eq, Structural)]
pub enum DetectedState {
    /// Doing work.
    Working,
    /// Waiting on a human.
    Blocked,
    /// Finished its turn.
    Done,
}

/// A finding about the agent in a pane, for the arbiter.
#[derive(Debug, PartialEq, Eq)]
pub enum AgentDetectEvent {
    /// Its state, as the detector reports it.
    State(String),
    /// Another agent runs in the pane.
    Reidentified {
        /// Kind of agent.
        kind: String,
        /// Its name.
        name: String,
    },
    /// The agent is gone.
    Retract,
    /// Who occupies the pane.
    Occupant(String),
    /// The title carries a question, or carries it no longer.
    AskSentinel(Option<AskedPayload>),
}

/// A finding as contracts speak of it.
pub enum DetectV {
    /// The agent's state.
    State(Seq<char>),
    /// Another agent runs in the pane.
    Reidentified {
        /// Kind of agent.
        kind: Seq<char>,
        /// Its name.
        name: Seq<char>,
    },
    /// The agent is gone.
    Retract,
    /// Who occupies the pane.
    Occupant(Seq<char>),
    /// The title carries a question, asked for so many seconds, or carries it no
    /// longer.
    AskSentinel(Option<(MarkerV, Option<u64>)>),
}

impl View for AgentDetectEvent {
    type V = DetectV;

    open spec fn view(&self) -> DetectV {
        match self {
            AgentDetectEvent::State(report) => DetectV::State(report@),
            AgentDetectEvent::Reidentified { kind, name } => DetectV::Reidentified {
                kind: kind@,
                name: name@,
            },
            AgentDetectEvent::Retract => DetectV::Retract,
            AgentDetectEvent::Occupant(occupant) => DetectV::Occupant(occupant@),
            AgentDetectEvent::AskSentinel(ask) => DetectV::AskSentinel(
                match ask {
                    Some(ask) => Some(
                        (
                            MarkerV {
                                id: ask.id@,
                                question: ask.question@,
                                suggestions: texts(ask.suggestions@),
                            },
                            ask.elapsed_seconds,
                        ),
                    ),
                    None => None,
                },
            ),
        }
    }
}

/// The finding that a title carries a question, or carries it no longer. How
/// long it has been asked is not tracked.
pub open spec fn ask_finding(ask: Option<MarkerV>) -> DetectV {
    DetectV::AskSentinel(
        match ask {
            Some(marker) => Some((marker, None)),
            None => None,
        },
    )
}

/// A bounded queue of findings, from an engine to the arbiter.
#[derive(Debug)]
pub struct StateSink {
    /// The most findings that wait.
    pub capacity: usize,
    /// The findings that wait, oldest first.
    pub queue: VecDeque<AgentDetectEvent>,
    /// Whether anybody drains it.
    pub open: bool,
}

/// A sink as contracts speak of it.
#[verifier::ext_equal]
pub struct StateSinkV {
    /// The most findings that wait.
    pub capacity: usize,
    /// The findings that wait, oldest first.
    pub queue: Seq<DetectV>,
    /// Whether anybody drains it.
    pub open: bool,
}

impl View for StateSink {
    type V = StateSinkV;

    open spec fn view(&self) -> StateSinkV {
        StateSinkV {
            capacity: self.capacity,
            queue: self.queue@.map_values(|event: AgentDetectEvent| event@),
            open: self.open,
        }
    }
}

impl StateSinkV {
    /// Whether the sink takes another finding.
    pub open spec fn takes(self) -> bool {
        self.open && self.queue.len() < self.capacity
    }

    /// The sink after a finding was offered.
    pub open spec fn offered(self, event: DetectV) -> StateSinkV {
        if self.takes() {
            StateSinkV { queue: self.queue.push(event), ..self }
        } else {
            self
        }
    }
}

impl StateSink {
    /// A sink of `capacity` findings.
    pub fn new(capacity: usize) -> (sink: Self)
        ensures
            sink@ == (StateSinkV { capacity, queue: Seq::empty(), open: true }),
    {
        let sink = StateSink { capacity, queue: VecDeque::new(), open: true };
        assert(sink@.queue =~= Seq::empty());
        sink
    }

    /// Queue a finding unless the sink refuses.
    pub fn offer(&mut self, event: AgentDetectEvent) -> (taken: bool)
        ensures
            taken == old(self)@.takes(),
            final(self)@ == old(self)@.offered(event@),
    {
        if !self.open || self.queue.len() >= self.capacity {
            return false;
        }
        self.queue.push_back(event);
        assert(self@.queue =~= old(self)@.queue.push(event@));
        true
    }

    /// The next finding that waits.
    pub fn try_recv(&mut self) -> (event: Option<AgentDetectEvent>)
        ensures
            match event {
                Some(event) => {
                    &&& old(self)@.queue.len() > 0
                    &&& event@ == old(self)@.queue[0]
                    &&& final(self)@ == (StateSinkV {
                        queue: old(self)@.queue.drop_first(),
                        ..old(self)@
                    })
                },
                None => old(self)@.queue.len() == 0 && final(self)@ == old(self)@,
            },
    {
        let event = self.queue.pop_front();
        assert(event is Some ==> self@.queue =~= old(self)@.queue.drop_first());
        event
    }
}

/// The part of a terminal's engine that sources events and answers control.
#[derive(Debug)]
pub struct TerminalActor {
    /// What every resource has.
    pub core: ResourceCore,
    /// Where semantic events go.
    pub event_sink: Option<EventSink>,
    /// Where findings go.
    pub agent_state_sink: Option<StateSink>,
    /// Whether a detector watches the pane.
    pub detecting: bool,
    /// The title last seen.
    pub last_title: String,
    /// The progress last reported.
    pub last_progress: String,
    /// The question last reported.
    pub last_ask: Option<AskMarker>,
    /// Whether a change of the question is still to be reported.
    pub ask_retry_owed: bool,
    /// The working directory last seen.
    pub last_known_cwd: String,
    /// Whether the process group runs.
    pub lifecycle: TerminalLifecycle,
    /// Whether the grid changed since the detector last read it.
    pub agent_dirty_since_detect: bool,
    /// Whether the grid changed since the last tick that sent it out.
    pub terminal_dirty_since_tick: bool,
    /// Whether output arrived since the last idle tick.
    pub output_since_idle_tick: bool,
    /// Whether an output burst is under way.
    pub in_output_burst: bool,
    /// Whether subscribers were told of the burst.
    pub dirty_event_emitted_this_burst: bool,
}

/// A terminal, and the mailboxes it sends to, as contracts speak of them.
#[verifier::ext_equal]
pub struct SceneV {
    /// What every resource has.
    pub core: ResourceCore,
    /// Where semantic events go.
    pub sink: Option<SinkV>,
    /// Where findings go.
    pub state_sink: Option<StateSinkV>,
    /// Whether a detector watches the pane.
    pub detecting: bool,
    /// The title last seen.
    pub last_title: String,
    /// The progress last reported.
    pub last_progress: String,
    /// The question last reported.
    pub last_ask: Option<MarkerV>,
    /// Whether a change of the question is still to be reported.
    pub ask_retry_owed: bool,
    /// The working directory last seen.
    pub last_known_cwd: String,
    /// Whether the process group runs.
    pub lifecycle: TerminalLifecycle,
    /// Whether the grid changed since the detector last read it.
    pub agent_dirty: bool,
    /// Whether the grid changed since the last tick that sent it out.
    pub terminal_dirty: bool,
    /// Whether output arrived since the last idle tick.
    pub output_since_idle_tick: bool,
    /// Whether an output burst is under way.
    pub in_output_burst: bool,
    /// Whether subscribers were told of the burst.
    pub dirty_told: bool,
    /// The mailboxes.
    pub boxes: Seq<MailboxV>,
}

impl TerminalActor {
    /// This terminal beside some mailboxes.
    pub open spec fn beside(&self, boxes: Seq<MailboxV>) -> SceneV {
        SceneV {
            core: self.core,
            sink: match self.event_sink {
                Some(sink) => Some(sink@),
                None => None,
            },
            state_sink: match self.agent_state_sink {
                Some(sink) => Some(sink@),
                None => None,
            },
            detecting: self.detecting,
            last_title: self.last_title,
            last_progress: self.last_progress,
            last_ask: marker_view(self.last_ask),
            ask_retry_owed: self.ask_retry_owed,
            last_known_cwd: self.last_known_cwd,
            lifecycle: self.lifecycle,
            agent_dirty: self.agent_dirty_since_detect,
            terminal_dirty: self.terminal_dirty_since_tick,
            output_since_idle_tick: self.output_since_idle_tick,
            in_output_burst: self.in_output_burst,
            dirty_told: self.dirty_event_emitted_this_burst,
            boxes,
        }
    }
}

impl SceneV {
    /// After an event went to the sink.
    pub open spec fn emitted(self, event: AgentEvent) -> SceneV {
        SceneV {
            sink: match self.sink {
                Some(sink) => Some(sink.emitted(event)),
                None => None,
            },
            ..self
        }
    }

    /// After an event went to the subscribers.
    pub open spec fn broadcast(self, event: AgentEvent) -> SceneV {
        SceneV {
            boxes: fanned_out(
                self.boxes,
                self.core.event_subscribers@,
                self.core.event_subscribers@.len(),
                self.core.wire_id,
                event,
            ),
            ..self
        }
    }

    /// After an event went to the sink and to the subscribers.
    pub open spec fn told(self, event: AgentEvent) -> SceneV {
        self.emitted(event).broadcast(event)
    }

    /// Whether a finding would be taken.
    pub open spec fn takes_findings(self) -> bool {
        self.state_sink matches Some(sink) && sink.takes()
    }

    /// After a finding was offered to the arbiter.
    pub open spec fn found(self, event: DetectV) -> SceneV {
        SceneV {
            state_sink: match self.state_sink {
                Some(sink) => Some(sink.offered(event)),
                None => None,
            },
            ..self
        }
    }

    /// After the kernel was asked for the working directory.
    pub open spec fn cwd_checked(self, reading: Option<String>) -> SceneV {
        match reading {
            Some(cwd) if cwd@ != self.last_known_cwd@ => SceneV {
                last_known_cwd: cwd,
                ..self
            }.told(AgentEvent::CwdChanged { cwd }),
            _ => self,
        }
    }

    /// After one mark was handled.
    pub open spec fn marked(self, mark: OscMark, reading: Option<String>) -> SceneV {
        match mark {
            OscMark::CommandStart => self.told(AgentEvent::CommandStarted),
            OscMark::CommandEnd { exit_code } => self.told(
                AgentEvent::CommandFinished { exit_code },
            ).cwd_checked(reading),
            OscMark::Progress(_) => self,
        }
    }

    /// After the title's question was compared with the last one reported.
    pub open spec fn ask_sourced(self, ask: Option<MarkerV>) -> SceneV {
        if ask == self.last_ask {
            SceneV { ask_retry_owed: false, ..self }
        } else if self.takes_findings() || self.state_sink is None {
            SceneV { last_ask: ask, ask_retry_owed: false, ..self }.found(ask_finding(ask))
        } else {
            SceneV { ask_retry_owed: true, ..self }
        }
    }

    /// After the burst that a chunk begins was announced.
    pub open spec fn burst_begun(self) -> SceneV {
        if self.in_output_burst {
            self
        } else {
            let begun = SceneV { in_output_burst: true, ..self }.emitted(AgentEvent::Dirty);
            if self.dirty_told {
                begun
            } else {
                SceneV { dirty_told: true, ..begun.broadcast(AgentEvent::Dirty) }
            }
        }
    }
}

/// How many of the first `n` marks end a command.
pub open spec fn command_ends(marks: Seq<OscMark>, n: nat) -> nat
    decreases n,
{
    if n == 0 || n > marks.len() {
        0
    } else {
        command_ends(marks, (n - 1) as nat) + (if marks[n - 1] is CommandEnd {
            1nat
        } else {
            0
        })
    }
}

/// The reading of the working directory that belongs to mark `i`.
pub open spec fn reading_at(marks: Seq<OscMark>, i: int, cwds: Seq<Option<String>>) -> Option<
    String,
> {
    let k = command_ends(marks, i as nat);
    if k < cwds.len() {
        cwds[k as int]
    } else {
        None
    }
}

/// After the first `n` marks of a chunk were handled.
pub open spec fn all_marked(
    scene: SceneV,
    marks: Seq<OscMark>,
    n: nat,
    cwds: Seq<Option<String>>,
) -> SceneV
    decreases n,
{
    if n == 0 || n > marks.len() {
        scene
    } else {
        all_marked(scene, marks, (n - 1) as nat, cwds).marked(
            marks[n - 1],
            reading_at(marks, n - 1, cwds),
        )
    }
}

/// The progress after the first `n` marks: the last one reported.
pub open spec fn progress_after(progress: String, marks: Seq<OscMark>, n: nat) -> String
    decreases n,
{
    if n == 0 || n > marks.len() {
        progress
    } else {
        match marks[n - 1] {
            OscMark::Progress(reported) => reported,
            _ => progress_after(progress, marks, (n - 1) as nat),
        }
    }
}

impl SceneV {
    /// After a chunk rang the bell, moved the title, or moved its question.
    pub open spec fn sounded(
        self,
        chunk: Seq<u8>,
        title_changed: bool,
        title: String,
        ask: Option<MarkerV>,
    ) -> SceneV {
        let rung = if chunk.contains(7) {
            self.emitted(AgentEvent::Bell)
        } else {
            self
        };
        let titled = if title_changed {
            rung.emitted(AgentEvent::TitleChanged { title })
        } else {
            rung
        };
        if title_changed || titled.ask_retry_owed {
            titled.ask_sourced(ask)
        } else {
            titled
        }
    }

    /// After a chunk of output was applied.
    pub open spec fn chunk(
        self,
        chunk: Seq<u8>,
        title: String,
        marks: Seq<OscMark>,
        cwds: Seq<Option<String>>,
        ask: Option<MarkerV>,
    ) -> SceneV {
        let title_changed = title@ != self.last_title@;
        let seen = SceneV {
            last_title: if title_changed {
                title
            } else {
                self.last_title
            },
            last_progress: progress_after(self.last_progress, marks, marks.len()),
            ..self
        };
        if self.sink is None && self.core.event_subscribers@.len() == 0 {
            seen
        } else {
            let marked = all_marked(
                SceneV { output_since_idle_tick: true, ..seen },
                marks,
                marks.len(),
                cwds,
            );
            marked.sounded(chunk, title_changed, title, ask).burst_begun()
        }
    }

    /// After the first `n` of `chunks` were applied.
    pub open spec fn all_applied(self, chunks: Seq<AppliedChunk>, n: nat) -> SceneV
        decreases n,
    {
        if n == 0 || n > chunks.len() {
            self
        } else {
            let one = chunks[n - 1];
            self.all_applied(chunks, (n - 1) as nat).chunk(
                contents(one.bytes),
                one.title,
                one.marks@,
                one.cwds@,
                marker_view(one.ask),
            )
        }
    }

    /// After output that was held back was applied.
    pub open spec fn replayed(self, chunks: Seq<AppliedChunk>) -> SceneV {
        if chunks.len() == 0 {
            self
        } else {
            SceneV {
                agent_dirty: true,
                terminal_dirty: true,
                ..self.all_applied(chunks, chunks.len())
            }
        }
    }

    /// After an idle tick.
    pub open spec fn ticked(self, reading: Option<String>) -> SceneV {
        let seen = SceneV { output_since_idle_tick: false, ..self };
        if self.in_output_burst && !self.output_since_idle_tick {
            SceneV { in_output_burst: false, dirty_told: false, ..seen }.told(
                AgentEvent::Idle,
            ).cwd_checked(reading)
        } else {
            seen
        }
    }

    /// After a control event went to the subscribers.
    pub open spec fn controlled(
        self,
        action: ControlAction,
        input_holder: Option<ClientId>,
        actor: Option<ClientId>,
        exit_status: Option<i32>,
    ) -> SceneV {
        self.broadcast(
            AgentEvent::TerminalControl {
                lifecycle: self.lifecycle,
                exit_status,
                input_holder,
                action,
                actor,
            },
        )
    }
}

/// `memchr::memchr`: where `needle` first stands in `haystack`.
pub assume_specification[ memchr::memchr ](needle: u8, haystack: &[u8]) -> (found: Option<usize>)
    ensures
        match found {
            Some(i) => {
                &&& i < haystack@.len()
                &&& haystack@[i as int] == needle
                &&& forall|j: int| 0 <= j < i ==> haystack@[j] != needle
            },
            None => !haystack@.contains(needle),
        },
;

fn copied_texts(items: &Vec<String>) -> (copies: Vec<String>)
    ensures
        texts(copies@) == texts(items@),
{
    let mut copies: Vec<String> = Vec::new();
    let mut i: usize = 0;
    while i < items.len()
        invariant
            i <= items@.len(),
            copies@.len() == i,
            forall|j: int| 0 <= j < i ==> copies@[j]@ == items@[j]@,
        decreases items@.len() - i,
    {
        copies.push(items[i].clone());
        i += 1;
    }
    assert(texts(copies@) =~= texts(items@));
    copies
}

impl AskMarker {
    fn same(&self, other: &AskMarker) -> (same: bool)
        ensures
            same == (self@ == other@),
    {
        if !same_text(self.id.as_str(), other.id.as_str()) {
            return false;
        }
        if !same_text(self.question.as_str(), other.question.as_str()) {
            return false;
        }
        if self.suggestions.len() != other.suggestions.len() {
            assert(self@.suggestions.len() != other@.suggestions.len());
            return false;
        }
        let mut i: usize = 0;
        while i < self.suggestions.len()
            invariant
                i <= self.suggestions@.len(),
                self.suggestions@.len() == other.suggestions@.len(),
                forall|j: int|
                    0 <= j < i ==> self.suggestions@[j]@ == #[trigger] other.suggestions@[j]@,
            decreases self.suggestions@.len() - i,
        {
            if !same_text(self.suggestions[i].as_str(), other.suggestions[i].as_str()) {
                assert(self@.suggestions[i as int] != other@.suggestions[i as int]);
                return false;
            }
            i += 1;
        }
        assert(self@.suggestions =~= other@.suggestions);
        true
    }

    fn payload(&self) -> (payload: AskedPayload)
        ensures
            AgentDetectEvent::AskSentinel(Some(payload))@ == ask_finding(Some(self@)),
    {
        AskedPayload {
            id: self.id.clone(),
            question: self.question.clone(),
            suggestions: copied_texts(&self.suggestions),
            elapsed_seconds: None,
        }
    }
}

/// A verdict of the detector.
#[derive(Debug, PartialEq, Eq)]
pub enum DetectOutcome {
    /// Nothing new.
    Quiet,
    /// The agent's state.
    Publish(String),
    /// Another agent runs in the pane.
    Reidentified {
        /// Kind of agent.
        kind: String,
        /// Its name.
        name: String,
    },
    /// The agent is gone.
    Retract,
}

/// The finding that a verdict becomes.
pub open spec fn finding(outcome: DetectOutcome) -> Option<DetectV> {
    match outcome {
        DetectOutcome::Quiet => None,
        DetectOutcome::Publish(report) => Some(DetectV::State(report@)),
        DetectOutcome::Reidentified { kind, name } => Some(
            DetectV::Reidentified { kind: kind@, name: name@ },
        ),
        DetectOutcome::Retract => Some(DetectV::Retract),
    }
}

/// What became of the occupant that the detector had to report.
#[derive(Debug, Clone, Copy, PartialEq, Eq, Structural)]
pub enum OccupantFate {
    /// There was none.
    Nothing,
    /// It is on its way.
    Sent,
    /// It is to be reported again.
    Retry,
}

/// A signal of the operating system.
#[derive(Debug, Clone, Copy, PartialEq, Eq, Structural)]
pub enum PosixSignal {
    /// `SIGINT`.
    Int,
    /// `SIGSTOP`.
    Stop,
    /// `SIGCONT`.
    Cont,
    /// `SIGTERM`.
    Term,
    /// `SIGKILL`.
    Kill,
}

/// The operating system's signal for a request.
pub open spec fn posix_signal(signal: TerminalSignal) -> PosixSignal {
    match signal {
        TerminalSignal::Interrupt => PosixSignal::Int,
        TerminalSignal::Freeze => PosixSignal::Stop,
        TerminalSignal::Resume => PosixSignal::Cont,
        TerminalSignal::Terminate => PosixSignal::Term,
        TerminalSignal::Kill => PosixSignal::Kill,
    }
}

/// What subscribers are told of a signal.
pub open spec fn signal_action(signal: TerminalSignal) -> ControlAction {
    match signal {
        TerminalSignal::Interrupt => ControlAction::Interrupted,
        TerminalSignal::Freeze => ControlAction::Frozen,
        TerminalSignal::Resume => ControlAction::Resumed,
        TerminalSignal::Terminate => ControlAction::Terminated,
        TerminalSignal::Kill => ControlAction::Killed,
    }
}

/// Whether the group runs after a signal. A signal that ends the group leaves
/// it running until its end is seen.
pub open spec fn lifecycle_after(signal: TerminalSignal, before: TerminalLifecycle) ->
    TerminalLifecycle {
    match signal {
        TerminalSignal::Freeze => TerminalLifecycle::Frozen,
        TerminalSignal::Resume => TerminalLifecycle::Running,
        _ => before,
    }
}

/// A signal for a process group.
#[derive(Debug, Clone, Copy, PartialEq, Eq, Structural)]
pub struct SignalPlan {
    /// The group. The child leads its own group, so this is the child's pid.
    pub pgid: i32,
    /// The signal.
    pub signal: PosixSignal,
}

/// The signal to deliver to the group of a terminal's child.
pub fn deliver_signal(pid: Option<u32>, signal: TerminalSignal) -> (plan: Result<
    SignalPlan,
    String,
>)
    ensures
        match pid {
            Some(pid) if pid <= i32::MAX => plan == Ok::<SignalPlan, String>(
                SignalPlan { pgid: pid as i32, signal: posix_signal(signal) },
            ),
            _ => plan matches Err(message) && message@ == "no PTY child to signal"@,
        },
{
    let pgid: i32 = match pid {
        Some(pid) => if pid <= i32::MAX as u32 {
            pid as i32
        } else {
            return Err("no PTY child to signal".to_owned());
        },
        None => {
            return Err("no PTY child to signal".to_owned());
        },
    };
    let signal = match signal {
        TerminalSignal::Interrupt => PosixSignal::Int,
        TerminalSignal::Freeze => PosixSignal::Stop,
        TerminalSignal::Resume => PosixSignal::Cont,
        TerminalSignal::Terminate => PosixSignal::Term,
        TerminalSignal::Kill => PosixSignal::Kill,
    };
    Ok(SignalPlan { pgid, signal })
}

/// A signal that a client asked for.
#[derive(Debug, Clone, Copy, PartialEq, Eq, Structural)]
pub struct SignalRequest {
    /// The signal.
    pub signal: TerminalSignal,
    /// Who holds the input lease.
    pub input_holder: Option<ClientId>,
    /// Who asks.
    pub by_client: ClientId,
    /// Where the answer goes.
    pub reply: ControlReply,
}

/// What a control request asks of the engine next.
#[derive(Debug, PartialEq, Eq)]
pub enum ControlStep {
    /// Nothing.
    Done,
    /// The detector forgets what it last published.
    InvalidateDetector,
    /// The detector takes a hook's report.
    ReportHook {
        /// The state.
        state: DetectedState,
        /// Where the answer goes.
        reply: ControlReply,
    },
    /// Deliver a signal.
    Deliver {
        /// The signal and the group.
        plan: SignalPlan,
        /// The request.
        request: SignalRequest,
    },
    /// Answer the request.
    Answer {
        /// Where the answer goes.
        reply: ControlReply,
        /// The answer.
        result: Result<(), String>,
    },
}

/// The detector's state for a hook's.
pub open spec fn hook_state(state: ReportedAgentState) -> DetectedState {
    match state {
        ReportedAgentState::Working => DetectedState::Working,
        ReportedAgentState::Blocked => DetectedState::Blocked,
        ReportedAgentState::Done => DetectedState::Done,
    }
}

impl TerminalActor {
    /// A terminal that nobody watches yet.
    pub fn new(parent: Option<ResourceId>) -> (actor: Self)
        ensures
            actor.core.kind == ResourceKind::Terminal,
            actor.core.parent == parent,
            actor.core.seq == 0,
            actor.core.event_subscribers@.len() == 0,
            actor.event_sink is None,
            actor.agent_state_sink is None,
            !actor.detecting,
            actor.last_title@.len() == 0,
            actor.last_progress@.len() == 0,
            actor.last_ask is None,
            !actor.ask_retry_owed,
            actor.last_known_cwd@.len() == 0,
            actor.lifecycle == TerminalLifecycle::Running,
            !actor.agent_dirty_since_detect,
            !actor.terminal_dirty_since_tick,
            !actor.output_since_idle_tick,
            !actor.in_output_burst,
            !actor.dirty_event_emitted_this_burst,
    {
        TerminalActor {
            core: ResourceCore::new(ResourceKind::Terminal, parent),
            event_sink: None,
            agent_state_sink: None,
            detecting: false,
            last_title: String::new(),
            last_progress: String::new(),
            last_ask: None,
            ask_retry_owed: false,
            last_known_cwd: String::new(),
            lifecycle: TerminalLifecycle::Running,
            agent_dirty_since_detect: false,
            terminal_dirty_since_tick: false,
            output_since_idle_tick: false,
            in_output_burst: false,
            dirty_event_emitted_this_burst: false,
        }
    }

    /// Wire the sink for semantic events.
    pub fn set_event_sink(&mut self, sink: EventSink)
        ensures
            *final(self) == (TerminalActor { event_sink: Some(sink), ..*old(self) }),
    {
        self.event_sink = Some(sink);
    }

    /// Wire the sink for findings.
    pub fn set_agent_state_sink(&mut self, sink: StateSink)
        ensures
            *final(self) == (TerminalActor { agent_state_sink: Some(sink), ..*old(self) }),
    {
        self.agent_state_sink = Some(sink);
    }

    /// Emit an event to the sink; without one, nothing happens.
    pub fn emit_event(&mut self, event: AgentEvent)
        ensures
            forall|boxes: Seq<MailboxV>|
                #![trigger final(self).beside(boxes)]
                final(self).beside(boxes) == old(self).beside(boxes).emitted(event),
    {
        match &mut self.event_sink {
            Some(sink) => {
                sink.emit(event);
            },
            None => {},
        }
    }

    /// Fan an event out to the subscribers.
    pub fn broadcast_agent_event(&self, event: &AgentEvent, mailboxes: &mut Mailboxes)
        ensures
            self.beside(final(mailboxes)@) == self.beside(old(mailboxes)@).broadcast(*event),
    {
        self.core.fan_out_event(event, mailboxes);
    }

    fn tell(&mut self, event: AgentEvent, mailboxes: &mut Mailboxes)
        ensures
            final(self).beside(final(mailboxes)@) == old(self).beside(old(mailboxes)@).told(event),
    {
        let copy = event.clone();
        self.emit_event(event);
        assert(self.beside(mailboxes@) == old(self).beside(mailboxes@).emitted(event));
        self.broadcast_agent_event(&copy, mailboxes);
    }

    /// Offer a finding to the arbiter.
    pub fn try_emit_agent_state(&mut self, event: AgentDetectEvent) -> (taken: bool)
        ensures
            forall|boxes: Seq<MailboxV>|
                #![trigger final(self).beside(boxes)]
                final(self).beside(boxes) == old(self).beside(boxes).found(event@) && taken == old(
                    self,
                ).beside(boxes).takes_findings(),
    {
        match &mut self.agent_state_sink {
            Some(sink) => sink.offer(event),
            None => false,
        }
    }

    /// Sync the title with the one that the engine tracks. Returns whether it
    /// changed.
    pub fn refresh_title(&mut self, title: &String) -> (changed: bool)
        ensures
            changed == (title@ != old(self).last_title@),
            *final(self) == (TerminalActor {
                last_title: if changed {
                    *title
                } else {
                    old(self).last_title
                },
                ..*old(self)
            }),
    {
        if same_text(title.as_str(), self.last_title.as_str()) {
            false
        } else {
            self.last_title = title.clone();
            true
        }
    }

    /// The kernel was asked for the child's working directory. A change is
    /// announced; no answer is silence.
    pub fn check_cwd_changed(&mut self, reading: &Option<String>, mailboxes: &mut Mailboxes)
        ensures
            final(self).beside(final(mailboxes)@) == old(self).beside(
                old(mailboxes)@,
            ).cwd_checked(*reading),
    {
        let cwd = match reading {
            Some(cwd) => cwd,
            None => {
                return ;
            },
        };
        if same_text(cwd.as_str(), self.last_known_cwd.as_str()) {
            return ;
        }
        self.last_known_cwd = cwd.clone();
        assert(self.beside(mailboxes@) == SceneV {
            last_known_cwd: *cwd,
            ..old(self).beside(old(mailboxes)@)
        });
        self.tell(AgentEvent::CwdChanged { cwd: cwd.clone() }, mailboxes);
    }

    fn note_progress(&mut self, marks: &Vec<OscMark>)
        ensures
            *final(self) == (TerminalActor {
                last_progress: progress_after(old(self).last_progress, marks@, marks@.len()),
                ..*old(self)
            }),
    {
        let mut i: usize = 0;
        while i < marks.len()
            invariant
                i <= marks@.len(),
                *self == (TerminalActor {
                    last_progress: progress_after(old(self).last_progress, marks@, i as nat),
                    ..*old(self)
                }),
            decreases marks@.len() - i,
        {
            match &marks[i] {
                OscMark::Progress(progress) => {
                    self.last_progress = progress.clone();
                },
                _ => {},
            }
            i += 1;
        }
    }

    fn handle_marks(
        &mut self,
        marks: &Vec<OscMark>,
        cwds: &Vec<Option<String>>,
        mailboxes: &mut Mailboxes,
    )
        ensures
            final(self).beside(final(mailboxes)@) == all_marked(
                old(self).beside(old(mailboxes)@),
                marks@,
                marks@.len(),
                cwds@,
            ),
    {
        let nothing: Option<String> = None;
        let mut ended: usize = 0;
        let mut i: usize = 0;
        while i < marks.len()
            invariant
                i <= marks@.len(),
                ended <= i,
                ended == command_ends(marks@, i as nat),
                nothing is None,
                self.beside(mailboxes@) == all_marked(
                    old(self).beside(old(mailboxes)@),
                    marks@,
                    i as nat,
                    cwds@,
                ),
            decreases marks@.len() - i,
        {
            match &marks[i] {
                OscMark::CommandStart => {
                    self.tell(AgentEvent::CommandStarted, mailboxes);
                },
                OscMark::CommandEnd { exit_code } => {
                    self.tell(AgentEvent::CommandFinished { exit_code: *exit_code }, mailboxes);
                    // The shell is back at a prompt and any change of directory
                    // has landed.
                    if ended < cwds.len() {
                        self.check_cwd_changed(&cwds[ended], mailboxes);
                    } else {
                        self.check_cwd_changed(&nothing, mailboxes);
                    }
                    ended += 1;
                },
                OscMark::Progress(_) => {},
            }
            i += 1;
        }
    }

    /// Compare the title's question with the last one reported, and report a
    /// change. Both edges travel: a question that appears, and one that is gone.
    /// The last one reported moves only once the change is under way; a full
    /// sink leaves it, and the report is tried again.
    pub fn source_ask_marker(&mut self, ask: Option<AskMarker>)
        ensures
            forall|boxes: Seq<MailboxV>|
                #![trigger final(self).beside(boxes)]
                final(self).beside(boxes) == old(self).beside(boxes).ask_sourced(marker_view(ask)),
    {
        let unchanged = match (&ask, &self.last_ask) {
            (Some(current), Some(last)) => current.same(last),
            (None, None) => true,
            _ => false,
        };
        if unchanged {
            self.ask_retry_owed = false;
            return ;
        }
        let payload = match &ask {
            Some(marker) => Some(marker.payload()),
            None => None,
        };
        let event = AgentDetectEvent::AskSentinel(payload);
        assert(event@ == ask_finding(marker_view(ask)));
        let wired = self.agent_state_sink.is_some();
        let ghost start = *self;
        let taken = self.try_emit_agent_state(event);
        assert forall|boxes: Seq<MailboxV>|
            #![trigger self.beside(boxes)]
            self.beside(boxes) == start.beside(boxes).found(event@) && taken == start.beside(
                boxes,
            ).takes_findings() by {}
        let ghost offered = *self;
        if taken || !wired {
            self.last_ask = ask;
            self.ask_retry_owed = false;
        } else {
            self.ask_retry_owed = true;
        }
        assert forall|boxes: Seq<MailboxV>| #![trigger self.beside(boxes)] self.beside(boxes)
            == old(self).beside(boxes).ask_sourced(marker_view(ask)) by {
            assert(offered.beside(boxes) == start.beside(boxes).found(event@));
            if !(taken || !wired) {
                assert(start.beside(boxes).found(event@) =~= start.beside(boxes));
            }
            assert(self.beside(boxes) =~= old(self).beside(boxes).ask_sourced(marker_view(ask)));
        }
    }

    fn begin_burst(&mut self, mailboxes: &mut Mailboxes)
        ensures
            final(self).beside(final(mailboxes)@) == old(self).beside(
                old(mailboxes)@,
            ).burst_begun(),
    {
        if !self.in_output_burst {
            self.in_output_burst = true;
            let ghost start = *self;
            self.emit_event(AgentEvent::Dirty);
            assert(self.beside(mailboxes@) == start.beside(mailboxes@).emitted(AgentEvent::Dirty));
            if !self.dirty_event_emitted_this_burst {
                self.broadcast_agent_event(&AgentEvent::Dirty, mailboxes);
                self.dirty_event_emitted_this_burst = true;
            }
        }
    }

    fn sound(
        &mut self,
        chunk: &[u8],
        title_changed: bool,
        title: &String,
        ask: Option<AskMarker>,
    )
        ensures
            forall|boxes: Seq<MailboxV>|
                #![trigger final(self).beside(boxes)]
                final(self).beside(boxes) == old(self).beside(boxes).sounded(
                    chunk@,
                    title_changed,
                    *title,
                    marker_view(ask),
                ),
    {
        let ghost start = *self;
        if memchr::memchr(7, chunk).is_some() {
            self.emit_event(AgentEvent::Bell);
        }
        let ghost rung = *self;
        assert forall|boxes: Seq<MailboxV>|
            #![trigger rung.beside(boxes)]
            rung.beside(boxes) == (if chunk@.contains(7) {
                start.beside(boxes).emitted(AgentEvent::Bell)
            } else {
                start.beside(boxes)
            }) by {}
        if title_changed {
            self.emit_event(AgentEvent::TitleChanged { title: title.clone() });
        }
        let ghost titled = *self;
        assert forall|boxes: Seq<MailboxV>|
            #![trigger titled.beside(boxes)]
            titled.beside(boxes) == (if title_changed {
                rung.beside(boxes).emitted(AgentEvent::TitleChanged { title: *title })
            } else {
                rung.beside(boxes)
            }) by {}
        if title_changed || self.ask_retry_owed {
            self.source_ask_marker(ask);
        }
        assert forall|boxes: Seq<MailboxV>|
            #![trigger self.beside(boxes)]
            self.beside(boxes) == (if title_changed || titled.beside(boxes).ask_retry_owed {
                titled.beside(boxes).ask_sourced(marker_view(ask))
            } else {
                titled.beside(boxes)
            }) by {}
    }

    /// Source events from a chunk of output that was just applied: the marks in
    /// it, a bell, a new title, the question in the title, and the beginning of
    /// a burst. `cwds` holds one reading of the working directory for each mark
    /// that ends a command.
    ///
    /// The title and the progress are kept even where nobody listens: the
    /// detector reads them on its own time.
    pub fn source_events_from_chunk(
        &mut self,
        chunk: &[u8],
        title: &String,
        marks: &Vec<OscMark>,
        cwds: &Vec<Option<String>>,
        ask: Option<AskMarker>,
        mailboxes: &mut Mailboxes,
    )
        ensures
            final(self).beside(final(mailboxes)@) == old(self).beside(old(mailboxes)@).chunk(
                chunk@,
                *title,
                marks@,
                cwds@,
                marker_view(ask),
            ),
    {
        let title_changed = self.refresh_title(title);
        self.note_progress(marks);
        if self.event_sink.is_none() && self.core.has_no_event_subscribers() {
            return ;
        }
        self.output_since_idle_tick = true;
        self.handle_marks(marks, cwds, mailboxes);
        let ghost marked = *self;
        self.sound(chunk, title_changed, title, ask);
        assert(self.beside(mailboxes@) == marked.beside(mailboxes@).sounded(
            chunk@,
            title_changed,
            *title,
            marker_view(ask),
        ));
        self.begin_burst(mailboxes);
    }

    /// Output that was held back was applied, chunk by chunk. Each sources its
    /// events as live output does, and the grid counts as changed.
    pub fn apply_native_replay(&mut self, chunks: Vec<AppliedChunk>, mailboxes: &mut Mailboxes)
        ensures
            final(self).beside(final(mailboxes)@) == old(self).beside(old(mailboxes)@).replayed(
                chunks@,
            ),
    {
        let ghost all = chunks@;
        let ghost start = self.beside(mailboxes@);
        if chunks.len() == 0 {
            return ;
        }
        let mut left = chunks;
        let ghost mut n: nat = 0;
        assert(left@ =~= all.skip(0));
        while left.len() > 0
            invariant
                n <= all.len(),
                left@ == all.skip(n as int),
                self.beside(mailboxes@) == start.all_applied(all, n),
            decreases left@.len(),
        {
            let one = left.remove(0);
            proof {
                assert(one == all[n as int]);
                assert(left@ =~= all.skip(n as int + 1));
                n = n + 1;
            }
            let AppliedChunk { bytes, title, marks, cwds, ask } = one;
            self.source_events_from_chunk(
                payload_bytes(&bytes),
                &title,
                &marks,
                &cwds,
                ask,
                mailboxes,
            );
        }
        self.terminal_dirty_since_tick = true;
        self.agent_dirty_since_detect = true;
        assert(self.beside(mailboxes@) =~= start.replayed(all));
    }

    /// An idle tick. The first one without output since the tick before it
    /// settles the burst; later ones are silent until the next burst.
    pub fn maybe_emit_idle(&mut self, reading: &Option<String>, mailboxes: &mut Mailboxes)
        ensures
            final(self).beside(final(mailboxes)@) == old(self).beside(old(mailboxes)@).ticked(
                *reading,
            ),
    {
        let had_output = self.output_since_idle_tick;
        self.output_since_idle_tick = false;
        if self.in_output_burst && !had_output {
            self.in_output_burst = false;
            self.dirty_event_emitted_this_burst = false;
            self.tell(AgentEvent::Idle, mailboxes);
            self.check_cwd_changed(reading, mailboxes);
        }
    }

    /// The detector asked for the screen, and it was read or not. Only a scan
    /// that happened consumes the evidence that one is owed.
    pub fn screen_scanned(&mut self, read: bool)
        ensures
            *final(self) == (TerminalActor {
                agent_dirty_since_detect: old(self).agent_dirty_since_detect && !read,
                ..*old(self)
            }),
    {
        if read {
            self.agent_dirty_since_detect = false;
        }
    }

    /// The detector came to a verdict, and may have an occupant to report.
    pub fn detect_tick(&mut self, occupant: Option<String>, outcome: DetectOutcome) -> (fate:
        OccupantFate)
        ensures
            forall|boxes: Seq<MailboxV>|
                #![trigger final(self).beside(boxes)]
                {
                    let start = old(self).beside(boxes);
                    let told = match occupant {
                        Some(occupant) => start.found(DetectV::Occupant(occupant@)),
                        None => start,
                    };
                    &&& final(self).beside(boxes) == (match finding(outcome) {
                        Some(event) => told.found(event),
                        None => told,
                    })
                    &&& fate == (match occupant {
                        Some(_) => if start.takes_findings() {
                            OccupantFate::Sent
                        } else {
                            OccupantFate::Retry
                        },
                        None => OccupantFate::Nothing,
                    })
                },
    {
        let ghost start = *self;
        let mut fate = OccupantFate::Nothing;
        match occupant {
            Some(occupant) => {
                if self.try_emit_agent_state(AgentDetectEvent::Occupant(occupant)) {
                    fate = OccupantFate::Sent;
                } else {
                    fate = OccupantFate::Retry;
                }
            },
            None => {},
        }
        let ghost told = *self;
        assert forall|boxes: Seq<MailboxV>|
            #![trigger told.beside(boxes)]
            told.beside(boxes) == (match occupant {
                Some(occupant) => start.beside(boxes).found(DetectV::Occupant(occupant@)),
                None => start.beside(boxes),
            }) && fate == (match occupant {
                Some(_) => if start.beside(boxes).takes_findings() {
                    OccupantFate::Sent
                } else {
                    OccupantFate::Retry
                },
                None => OccupantFate::Nothing,
            }) by {}
        match outcome {
            DetectOutcome::Quiet => {},
            DetectOutcome::Publish(report) => {
                let _ = self.try_emit_agent_state(AgentDetectEvent::State(report));
            },
            DetectOutcome::Reidentified { kind, name } => {
                let _ = self.try_emit_agent_state(AgentDetectEvent::Reidentified { kind, name });
            },
            DetectOutcome::Retract => {
                let _ = self.try_emit_agent_state(AgentDetectEvent::Retract);
            },
        }
        assert forall|boxes: Seq<MailboxV>|
            #![trigger self.beside(boxes)]
            self.beside(boxes) == (match finding(outcome) {
                Some(event) => told.beside(boxes).found(event),
                None => told.beside(boxes),
            }) by {}
        fate
    }

    /// Tell the subscribers of a supervisory action.
    pub fn emit_terminal_control(
        &self,
        action: ControlAction,
        input_holder: Option<ClientId>,
        actor: Option<ClientId>,
        exit_status: Option<i32>,
        mailboxes: &mut Mailboxes,
    )
        ensures
            self.beside(final(mailboxes)@) == self.beside(old(mailboxes)@).controlled(
                action,
                input_holder,
                actor,
                exit_status,
            ),
    {
        self.broadcast_agent_event(
            &AgentEvent::TerminalControl {
                lifecycle: self.lifecycle,
                exit_status,
                input_holder,
                action,
                actor,
            },
            mailboxes,
        );
    }

    /// A supervisory request. `pid` is the child's, where there is one.
    pub fn handle_control_request(
        &mut self,
        req: ControlRequest,
        pid: Option<u32>,
        mailboxes: &mut Mailboxes,
    ) -> (step: ControlStep)
        ensures
            *final(self) == *old(self),
            match req {
                ControlRequest::LeaseChanged { input_holder, action, actor } => {
                    &&& step is Done
                    &&& final(self).beside(final(mailboxes)@) == old(self).beside(
                        old(mailboxes)@,
                    ).controlled(action, input_holder, Some(actor), None)
                },
                ControlRequest::AgentRecordInvalidated => {
                    &&& final(mailboxes)@ == old(mailboxes)@
                    &&& if old(self).detecting {
                        step is InvalidateDetector
                    } else {
                        step is Done
                    }
                },
                ControlRequest::ReportAgentState { state, reply } => {
                    &&& final(mailboxes)@ == old(mailboxes)@
                    &&& if old(self).detecting {
                        step == (ControlStep::ReportHook { state: hook_state(state), reply })
                    } else {
                        step matches ControlStep::Answer { reply: to, result: Err(message) } && to
                            == reply && message@ == "agent detection is unavailable for this pane"@
                    }
                },
                ControlRequest::SynthesizeAgentStateRecord { reply, .. } => {
                    &&& final(mailboxes)@ == old(mailboxes)@
                    &&& step matches ControlStep::Answer { reply: to, result: Err(message) } && to
                        == reply && message@ == "agent detection is unavailable for this pane"@
                },
                ControlRequest::Signal { signal, input_holder, by_client, reply } => {
                    &&& final(mailboxes)@ == old(mailboxes)@
                    &&& match pid {
                        Some(pid) if pid <= i32::MAX => step == (ControlStep::Deliver {
                            plan: SignalPlan { pgid: pid as i32, signal: posix_signal(signal) },
                            request: SignalRequest { signal, input_holder, by_client, reply },
                        }),
                        _ => step matches ControlStep::Answer { reply: to, result: Err(message) }
                            && to == reply && message@ == "no PTY child to signal"@,
                    }
                },
            },
    {
        match req {
            ControlRequest::LeaseChanged { input_holder, action, actor } => {
                self.emit_terminal_control(action, input_holder, Some(actor), None, mailboxes);
                ControlStep::Done
            },
            ControlRequest::AgentRecordInvalidated => if self.detecting {
                ControlStep::InvalidateDetector
            } else {
                ControlStep::Done
            },
            ControlRequest::ReportAgentState { state, reply } => if self.detecting {
                let state = match state {
                    ReportedAgentState::Working => DetectedState::Working,
                    ReportedAgentState::Blocked => DetectedState::Blocked,
                    ReportedAgentState::Done => DetectedState::Done,
                };
                ControlStep::ReportHook { state, reply }
            } else {
                ControlStep::Answer {
                    reply,
                    result: Err("agent detection is unavailable for this pane".to_owned()),
                }
            },
            ControlRequest::SynthesizeAgentStateRecord { reply, .. } => ControlStep::Answer {
                reply,
                result: Err("agent detection is unavailable for this pane".to_owned()),
            },
            ControlRequest::Signal { signal, input_holder, by_client, reply } => {
                match deliver_signal(pid, signal) {
                    Ok(plan) => ControlStep::Deliver {
                        plan,
                        request: SignalRequest { signal, input_holder, by_client, reply },
                    },
                    Err(message) => ControlStep::Answer { reply, result: Err(message) },
                }
            },
        }
    }

    /// The detector took a hook's report, and may have something to publish.
    /// One normal derivation is owed after it, so that a hook's report never
    /// latches on a quiet screen.
    pub fn hook_reported(&mut self, report: Option<String>)
        ensures
            forall|boxes: Seq<MailboxV>|
                #![trigger final(self).beside(boxes)]
                final(self).beside(boxes) == (SceneV {
                    agent_dirty: true,
                    ..(match report {
                        Some(report) => old(self).beside(boxes).found(DetectV::State(report@)),
                        None => old(self).beside(boxes),
                    })
                }),
    {
        let ghost start = *self;
        match report {
            Some(report) => {
                let _ = self.try_emit_agent_state(AgentDetectEvent::State(report));
            },
            None => {},
        }
        let ghost told = *self;
        assert forall|boxes: Seq<MailboxV>|
            #![trigger told.beside(boxes)]
            told.beside(boxes) == (match report {
                Some(report) => start.beside(boxes).found(DetectV::State(report@)),
                None => start.beside(boxes),
            }) by {}
        self.agent_dirty_since_detect = true;
        assert forall|boxes: Seq<MailboxV>|
            #![trigger self.beside(boxes)]
            self.beside(boxes) == (SceneV { agent_dirty: true, ..told.beside(boxes) }) by {}
    }

    /// A signal was delivered, or the operating system refused it. Returns the
    /// answer to the request.
    pub fn signal_delivered(
        &mut self,
        request: SignalRequest,
        refusal: Option<String>,
        mailboxes: &mut Mailboxes,
    ) -> (result: Result<(), String>)
        ensures
            match refusal {
                Some(error) => {
                    &&& *final(self) == *old(self)
                    &&& final(mailboxes)@ == old(mailboxes)@
                    &&& result matches Err(message) && message@ == "killpg failed: "@ + error@
                },
                None => {
                    &&& result == Ok::<(), String>(())
                    &&& final(self).beside(final(mailboxes)@) == (SceneV {
                        lifecycle: lifecycle_after(request.signal, old(self).lifecycle),
                        ..old(self).beside(old(mailboxes)@)
                    }).controlled(
                        signal_action(request.signal),
                        request.input_holder,
                        Some(request.by_client),
                        None,
                    )
                },
            },
    {
        match refusal {
            Some(error) => {
                return Err("killpg failed: ".to_owned().concat(error.as_str()));
            },
            None => {},
        }
        match request.signal {
            TerminalSignal::Freeze => {
                self.lifecycle = TerminalLifecycle::Frozen;
            },
            TerminalSignal::Resume => {
                self.lifecycle = TerminalLifecycle::Running;
            },
            _ => {},
        }
        let action = match request.signal {
            TerminalSignal::Interrupt => ControlAction::Interrupted,
            TerminalSignal::Freeze => ControlAction::Frozen,
            TerminalSignal::Resume => ControlAction::Resumed,
            TerminalSignal::Terminate => ControlAction::Terminated,
            TerminalSignal::Kill => ControlAction::Killed,
        };
        assert(self.beside(mailboxes@) == (SceneV {
            lifecycle: lifecycle_after(request.signal, old(self).lifecycle),
            ..old(self).beside(old(mailboxes)@)
        }));
        self.emit_terminal_control(
            action,
            request.input_holder,
            Some(request.by_client),
            None,
            mailboxes,
        );
        Ok(())
    }
}

/// A burst is announced once: while it lasts, more output announces nothing.
pub proof fn law_a_burst_is_announced_once(scene: SceneV)
    ensures
        scene.burst_begun().in_output_burst,
        scene.burst_begun().burst_begun() == scene.burst_begun(),
{
}

proof fn lemma_cwd_keeps_flags(scene: SceneV, reading: Option<String>)
    ensures
        scene.cwd_checked(reading).in_output_burst == scene.in_output_burst,
        scene.cwd_checked(reading).output_since_idle_tick == scene.output_since_idle_tick,
        scene.cwd_checked(reading).dirty_told == scene.dirty_told,
{
}

/// A settled burst is announced once: ticks without output after it change
/// nothing.
pub proof fn law_idle_is_announced_once(
    scene: SceneV,
    first: Option<String>,
    second: Option<String>,
)
    requires
        !scene.output_since_idle_tick,
    ensures
        scene.ticked(first).ticked(second) == scene.ticked(first),
{
    let seen = SceneV { output_since_idle_tick: false, ..scene };
    let settled = SceneV { in_output_burst: false, dirty_told: false, ..seen }.told(
        AgentEvent::Idle,
    );
    lemma_cwd_keeps_flags(settled, first);
    assert(scene.ticked(first).ticked(second) =~= scene.ticked(first));
}

/// A tick right after output does not settle the burst.
pub proof fn law_output_postpones_idle(scene: SceneV, reading: Option<String>)
    requires
        scene.output_since_idle_tick,
    ensures
        scene.ticked(reading) == (SceneV { output_since_idle_tick: false, ..scene }),
{
}

/// Where nobody listens, output still moves the title and the progress, and
/// nothing else.
pub proof fn law_unheard_panes_keep_their_title(
    scene: SceneV,
    chunk: Seq<u8>,
    title: String,
    marks: Seq<OscMark>,
    cwds: Seq<Option<String>>,
    ask: Option<MarkerV>,
)
    requires
        scene.sink is None,
        scene.core.event_subscribers@.len() == 0,
    ensures
        ({
            let after = scene.chunk(chunk, title, marks, cwds, ask);
            &&& after.last_title@ == title@
            &&& after == (SceneV {
                last_title: after.last_title,
                last_progress: progress_after(scene.last_progress, marks, marks.len()),
                ..scene
            })
        }),
{
}

/// A question that the arbiter's sink refused is still owed, and is reported
/// once the sink takes it.
pub proof fn law_refused_questions_are_retried(scene: SceneV, ask: Option<MarkerV>)
    requires
        ask != scene.last_ask,
        scene.state_sink is Some,
        !scene.takes_findings(),
    ensures
        scene.ask_sourced(ask).ask_retry_owed,
        scene.ask_sourced(ask).last_ask == scene.last_ask,
        scene.ask_sourced(ask).state_sink == scene.state_sink,
{
}

/// A question that was reported is not reported again.
pub proof fn law_questions_are_reported_once(scene: SceneV, ask: Option<MarkerV>)
    requires
        scene.takes_findings(),
        ask != scene.last_ask,
    ensures
        ({
            let after = scene.ask_sourced(ask);
            &&& after.state_sink->Some_0.queue == scene.state_sink->Some_0.queue.push(
                ask_finding(ask),
            )
            &&& after.ask_sourced(ask) == after
        }),
{
    let after = scene.ask_sourced(ask);
    assert(after.ask_sourced(ask) =~= after);
}

/// Freezing is undone by resuming, and no other signal moves the lifecycle.
pub proof fn law_the_brake_is_reversible(signal: TerminalSignal, before: TerminalLifecycle)
    ensures
        lifecycle_after(TerminalSignal::Freeze, before) == TerminalLifecycle::Frozen,
        lifecycle_after(
            TerminalSignal::Resume,
            lifecycle_after(TerminalSignal::Freeze, before),
        ) == TerminalLifecycle::Running,
        signal != TerminalSignal::Freeze && signal != TerminalSignal::Resume ==> lifecycle_after(
            signal,
            before,
        ) == before,
{
}

} // verus!
