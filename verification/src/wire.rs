//! The wire vocabulary that the server's decisions are about.
//!
//! Payload bytes are opaque here: the server routes, retains and orders
//! frames without reading what they carry.

use crate::ids::{BootstrapId, ClientId, GroupId, SatelliteHost, StreamId, TerminalId};
use bytes::Bytes;
use vstd::prelude::*;

verus! {

// ---- capabilities -----------------------------------------------------------

/// Per-frame bounds that a connection negotiated.
#[derive(Debug, Clone, Copy, PartialEq, Eq, Structural)]
pub struct BootstrapLimits {
    /// Largest bootstrap chunk payload.
    pub max_chunk_bytes: u32,
    /// Largest history page payload.
    pub max_history_page_bytes: u32,
}

/// A checkpoint encoding that a terminal engine produces.
#[derive(Debug, Clone, Copy, PartialEq, Eq, Structural)]
pub enum EngineCodec {
    /// Whole-state checkpoint.
    LibghosttyCheckpointV2,
    /// Progressive snapshot.
    LibghosttySnapshotV1,
}

/// Optional engine features, one bit each.
#[derive(Debug, Clone, Copy, PartialEq, Eq, Structural)]
pub struct EngineFeatureSet {
    /// The feature bits.
    pub bits: u32,
}

/// How one connection bootstraps a terminal replica.
#[derive(Debug, Clone, Copy, PartialEq, Eq, Structural)]
pub enum BootstrapProfile {
    /// The engine's own serialized state.
    NativeState {
        /// Encoding of the state.
        codec: EngineCodec,
        /// Features that both ends support.
        features: EngineFeatureSet,
    },
    /// Synthesized escape sequences, then raw output.
    SynthesizedVtRaw,
    /// Synthesized escape sequences, then state synchronization.
    SynthesizedVtStateSync,
    /// A profile that this server does not know.
    Unrecognized {
        /// Its number on the wire.
        code: u16,
    },
}

/// How one stream's generation is encoded.
#[derive(Debug, Clone, Copy, PartialEq, Eq, Structural)]
pub enum BootstrapStreamProfile {
    /// The engine's own serialized state.
    NativeState {
        /// Encoding of the state.
        codec: EngineCodec,
    },
    /// Synthesized escape sequences, then raw output.
    SynthesizedVtRaw,
    /// Synthesized escape sequences, then state synchronization.
    SynthesizedVtStateSync,
}

// ---- outcomes ---------------------------------------------------------------

/// Category of a protocol error.
#[derive(Debug, Clone, Copy, PartialEq, Eq, Structural)]
pub enum ErrorCode {
    /// A bounded resource is full; retrying may help.
    ResourceExhausted,
    /// The satellite that owns the target cannot be reached.
    SatelliteUnreachable,
    /// The two ends share no encoding for the request.
    CodecUnavailable,
    /// The command is not valid in this state.
    InvalidCommand,
    /// No such terminal.
    TerminalNotFound,
    /// The connection may not do this.
    Unauthorized,
    /// The server failed.
    InternalError,
    /// A category that this server does not interpret.
    Other {
        /// Its number on the wire.
        code: u16,
    },
}

/// A value that a command returns.
#[derive(Debug, PartialEq, Eq)]
pub enum CommandValue {
    /// A JSON document.
    Json(String),
}

impl Clone for CommandValue {
    fn clone(&self) -> (copy: Self)
        ensures
            copy == *self,
    {
        match self {
            CommandValue::Json(text) => CommandValue::Json(text.clone()),
        }
    }
}

/// Outcome of a command.
#[derive(Debug, PartialEq, Eq)]
pub enum CommandResult {
    /// Done.
    Done,
    /// Done, with a value.
    DoneWith(CommandValue),
    /// Refused or failed.
    Error {
        /// Category.
        code: ErrorCode,
        /// Human-readable detail.
        message: String,
    },
}

impl Clone for CommandResult {
    fn clone(&self) -> (copy: Self)
        ensures
            copy == *self,
    {
        match self {
            CommandResult::Done => CommandResult::Done,
            CommandResult::DoneWith(value) => CommandResult::DoneWith(value.clone()),
            CommandResult::Error { code, message } => CommandResult::Error {
                code: *code,
                message: message.clone(),
            },
        }
    }
}

/// Why a spawn failed.
#[derive(Debug, PartialEq, Eq)]
pub enum SpawnError {
    /// No such group.
    GroupNotFound,
    /// The spawn was tried and failed.
    SpawnFailed(String),
    /// The satellite cannot be reached.
    SatelliteUnreachable(String),
}

impl Clone for SpawnError {
    fn clone(&self) -> (copy: Self)
        ensures
            copy == *self,
    {
        match self {
            SpawnError::GroupNotFound => SpawnError::GroupNotFound,
            SpawnError::SpawnFailed(message) => SpawnError::SpawnFailed(message.clone()),
            SpawnError::SatelliteUnreachable(message) => SpawnError::SatelliteUnreachable(
                message.clone(),
            ),
        }
    }
}

/// Outcome of a spawn: the new terminal, or why there is none.
pub type SpawnResult = Result<TerminalId, SpawnError>;

// ---- commands ---------------------------------------------------------------

/// A caller-chosen identity of sixteen bytes, read as one number, that makes a
/// retried operation recognizable; never zero.
#[derive(Debug, Clone, Copy, PartialEq, Eq, Structural)]
pub struct IdempotencyKey {
    /// The identity.
    pub raw: u128,
}

impl IdempotencyKey {
    /// The identity `raw`; zero is none.
    pub fn new(raw: u128) -> (key: Option<Self>)
        ensures
            key == (if raw == 0 {
                None
            } else {
                Some(IdempotencyKey { raw })
            }),
    {
        if raw == 0 {
            None
        } else {
            Some(IdempotencyKey { raw })
        }
    }
}

/// One input event; the body stays encoded.
#[derive(Debug, PartialEq, Eq)]
pub enum TerminalInput {
    /// A keystroke.
    Key(Bytes),
    /// A mouse event.
    Mouse(Bytes),
    /// Focus gained or lost.
    Focus(Bytes),
    /// A bracketed paste.
    Paste(Bytes),
}

impl Clone for TerminalInput {
    fn clone(&self) -> (copy: Self)
        ensures
            copy == *self,
    {
        match self {
            TerminalInput::Key(body) => TerminalInput::Key(body.clone()),
            TerminalInput::Mouse(body) => TerminalInput::Mouse(body.clone()),
            TerminalInput::Focus(body) => TerminalInput::Focus(body.clone()),
            TerminalInput::Paste(body) => TerminalInput::Paste(body.clone()),
        }
    }
}

/// How an input lease shares the keyboard.
#[derive(Debug, Clone, Copy, PartialEq, Eq, Structural)]
pub enum InputMode {
    /// Everyone may type.
    Cooperative,
    /// Only the holder may type.
    Exclusive,
}

/// A signal for a terminal's process group.
#[derive(Debug, Clone, Copy, PartialEq, Eq, Structural)]
pub enum TerminalSignal {
    /// Interrupt.
    Interrupt,
    /// Stop until resumed.
    Freeze,
    /// Continue after a freeze.
    Resume,
    /// Ask to terminate.
    Terminate,
    /// Kill.
    Kill,
}

/// A lifecycle state that an agent hook reports.
#[derive(Debug, Clone, Copy, PartialEq, Eq, Structural)]
pub enum ReportedAgentState {
    /// Doing work.
    Working,
    /// Waiting on a human.
    Blocked,
    /// Finished its turn.
    Done,
}

/// What a state query covers.
#[derive(Debug, Clone, Copy, PartialEq, Eq, Structural)]
pub enum StateScope {
    /// The whole server.
    Server,
}

/// Semantic event classes a subscriber can filter by.
#[derive(Debug, Clone, Copy, PartialEq, Eq, Structural)]
pub enum TerminalEventType {
    /// A command started.
    CommandStarted,
    /// A command ended.
    CommandEnded,
    /// The working directory changed.
    CwdChanged,
    /// The grid changed.
    GridChanged,
    /// Output arrived.
    OutputReceived,
}

/// A command that a consumer sends.
#[allow(inconsistent_fields)]
#[derive(Debug, Clone, PartialEq, Eq)]
pub enum Command {
    /// Start receiving a terminal's content.
    AttachTerminal {
        /// Target.
        terminal_id: TerminalId,
    },
    /// Stop receiving a terminal's content.
    DetachTerminal {
        /// Target.
        terminal_id: TerminalId,
    },
    /// Kill a terminal.
    KillTerminal {
        /// Target.
        terminal_id: TerminalId,
        /// Identity under which retries are recognized.
        operation_id: Option<IdempotencyKey>,
    },
    /// Read the screen.
    GetScreen {
        /// Target.
        terminal_id: TerminalId,
        /// Rows of history to add.
        request_scrollback: Option<u32>,
        /// Whether to return cells instead of text.
        cells: bool,
    },
    /// Deliver one input event.
    RouteInput {
        /// Target.
        terminal_id: TerminalId,
        /// The event.
        event: TerminalInput,
    },
    /// Read a terminal's state.
    GetTerminalState {
        /// Target.
        terminal_id: TerminalId,
        /// Whether to add history.
        include_scrollback: bool,
        /// Most rows of history to add.
        max_scrollback_lines: u32,
    },
    /// Subscribe to semantic events.
    SubscribeTerminalEvents {
        /// Target.
        terminal_id: TerminalId,
        /// Classes of interest; empty means all.
        event_types: Vec<TerminalEventType>,
    },
    /// Take the input lease.
    AcquireInput {
        /// Target.
        terminal_id: TerminalId,
        /// How the lease shares the keyboard.
        mode: InputMode,
        /// Lease duration in milliseconds.
        ttl_ms: u32,
    },
    /// Give the input lease back.
    ReleaseInput {
        /// Target.
        terminal_id: TerminalId,
    },
    /// Signal a terminal's process group.
    SignalTerminal {
        /// Target.
        terminal_id: TerminalId,
        /// The signal.
        signal: TerminalSignal,
        /// Identity under which retries are recognized.
        operation_id: Option<IdempotencyKey>,
    },
    /// Upload a piece of a file.
    PutFile {
        /// The upload that the piece belongs to.
        upload_id: u64,
        /// Target.
        terminal_id: TerminalId,
        /// File name extension.
        extension: String,
        /// Where the piece starts.
        offset: u64,
        /// The piece.
        data: Bytes,
        /// Whether this is the last piece.
        final_chunk: bool,
        /// Digest of the whole file, on the last piece.
        sha256: Option<[u8; 32]>,
    },
    /// Report a question that waits for a human.
    ReportAsked {
        /// Target.
        terminal_id: TerminalId,
        /// Identity of the question.
        id: String,
        /// The question.
        question: String,
        /// Offered answers.
        suggestions: Vec<String>,
        /// How long the question has been waiting.
        elapsed_seconds: Option<u32>,
    },
    /// Report an agent's lifecycle state.
    ReportAgentState {
        /// Target.
        terminal_id: TerminalId,
        /// The state.
        state: ReportedAgentState,
    },
    /// Apply a batch of input events exactly once.
    ApplyInput {
        /// Identity of the batch.
        operation_id: IdempotencyKey,
        /// Target.
        terminal_id: TerminalId,
        /// The events.
        events: Vec<TerminalInput>,
    },
    /// Kill several terminals, of any owner.
    KillTerminals {
        /// Targets.
        ids: Vec<TerminalId>,
    },
    /// Read server state.
    GetState {
        /// What to cover.
        scope: StateScope,
    },
    /// Replace the running server image.
    Upgrade,
}

impl Command {
    /// The identity under which a retried supervisory command is recognized.
    pub fn idempotency_key(&self) -> (key: Option<IdempotencyKey>)
        ensures
            key == (match *self {
                Command::KillTerminal { operation_id, .. } => operation_id,
                Command::SignalTerminal { operation_id, .. } => operation_id,
                _ => None,
            }),
    {
        match self {
            Command::KillTerminal { operation_id, .. } => *operation_id,
            Command::SignalTerminal { operation_id, .. } => *operation_id,
            _ => None,
        }
    }
}

// ---- events -----------------------------------------------------------------

/// Whether a terminal's process group runs.
#[derive(Debug, Clone, Copy, PartialEq, Eq, Structural)]
pub enum TerminalLifecycle {
    /// Running.
    Running,
    /// Stopped by a freeze.
    Frozen,
}

/// A supervisory action that subscribers are told about.
#[derive(Debug, Clone, Copy, PartialEq, Eq, Structural)]
pub enum ControlAction {
    /// The input lease was taken.
    Acquired,
    /// The input lease was taken from its holder.
    Seized,
    /// The input lease was given back.
    Released,
    /// The group was interrupted.
    Interrupted,
    /// The group was frozen.
    Frozen,
    /// The group was resumed.
    Resumed,
    /// The group was asked to terminate.
    Terminated,
    /// The group was killed.
    Killed,
}

/// A semantic event about one terminal.
#[derive(Debug, PartialEq, Eq)]
pub enum AgentEvent {
    /// The terminal rang.
    Bell,
    /// An output burst began.
    Dirty,
    /// An output burst settled.
    Idle,
    /// A shell command started.
    CommandStarted,
    /// A shell command ended.
    CommandFinished {
        /// The status that the shell reported.
        exit_code: Option<i32>,
    },
    /// The title changed.
    TitleChanged {
        /// The new title.
        title: String,
    },
    /// The working directory changed.
    CwdChanged {
        /// The new directory.
        cwd: String,
    },
    /// Supervision changed hands or acted.
    TerminalControl {
        /// Whether the process group runs.
        lifecycle: TerminalLifecycle,
        /// Exit status, once there is one.
        exit_status: Option<i32>,
        /// Who holds the input lease.
        input_holder: Option<ClientId>,
        /// What happened.
        action: ControlAction,
        /// Who did it.
        actor: Option<ClientId>,
    },
}

impl Clone for AgentEvent {
    fn clone(&self) -> (copy: Self)
        ensures
            copy == *self,
    {
        match self {
            AgentEvent::Bell => AgentEvent::Bell,
            AgentEvent::Dirty => AgentEvent::Dirty,
            AgentEvent::Idle => AgentEvent::Idle,
            AgentEvent::CommandStarted => AgentEvent::CommandStarted,
            AgentEvent::CommandFinished { exit_code } => AgentEvent::CommandFinished {
                exit_code: *exit_code,
            },
            AgentEvent::TitleChanged { title } => AgentEvent::TitleChanged { title: title.clone() },
            AgentEvent::CwdChanged { cwd } => AgentEvent::CwdChanged { cwd: cwd.clone() },
            AgentEvent::TerminalControl {
                lifecycle,
                exit_status,
                input_holder,
                action,
                actor,
            } => AgentEvent::TerminalControl {
                lifecycle: *lifecycle,
                exit_status: *exit_status,
                input_holder: *input_holder,
                action: *action,
                actor: *actor,
            },
        }
    }
}

// ---- frames -----------------------------------------------------------------

/// Why a terminal closed.
#[derive(Debug, Clone, Copy, PartialEq, Eq, Structural)]
pub enum CloseReason {
    /// Not stated.
    Unknown,
    /// Its process exited.
    Exited,
    /// It was killed.
    Killed,
    /// The resource that it belongs to closed.
    ParentClosed,
}

/// Why a bootstrap generation ended early.
#[derive(Debug, Clone, Copy, PartialEq, Eq, Structural)]
pub enum TombstoneReason {
    /// The consumer attached anew.
    ExplicitReattach,
    /// The terminal was resized.
    Resize,
    /// Another reason, by its number on the wire.
    Other {
        /// The number.
        code: u16,
    },
}

/// Why a history cursor will never be served again.
#[derive(Debug, Clone, Copy, PartialEq, Eq, Structural)]
pub enum HistoryTombstoneReason {
    /// The cursor belongs to another generation.
    Stale,
    /// The rows are gone.
    Pruned,
    /// The terminal was reset.
    Reset,
    /// The terminal was resized.
    Resize,
    /// A bound was outrun.
    Limit,
    /// The engine failed.
    CodecFailure,
    /// The cursor was not used for too long.
    Expired,
}

/// Why one history request was refused.
#[derive(Debug, Clone, Copy, PartialEq, Eq, Structural)]
pub enum HistoryRejectionReason {
    /// The request leaves no room at all.
    ZeroLimit,
    /// The terminal is busy; retry.
    Busy,
    /// The next record does not fit the request.
    TooSmall,
}

/// What kind of engine backs a resource.
#[derive(Debug, Clone, Copy, PartialEq, Eq, Structural)]
pub enum ResourceKind {
    /// A terminal.
    Terminal,
    /// A producer-fed agent session.
    AgentSession,
}

/// Kind and provenance of a spawned resource.
#[derive(Debug, Clone, PartialEq, Eq)]
pub struct SpawnResource {
    /// The kind to spawn.
    pub kind: ResourceKind,
    /// The resource to bind it to.
    pub parent: Option<TerminalId>,
    /// The harness that feeds an agent session.
    pub provider: Option<String>,
    /// The harness's own session id.
    pub native_id: Option<String>,
}

/// One frame of the protocol.
#[allow(inconsistent_fields)]
#[derive(Debug, PartialEq, Eq)]
pub enum FrameKind {
    /// A command and the id its reply carries.
    Command {
        /// Correlates the reply.
        request_id: u32,
        /// The command.
        command: Command,
    },
    /// The outcome of a command.
    CommandResult {
        /// The command's id.
        request_id: u32,
        /// The outcome.
        result: CommandResult,
    },
    /// A request for a new terminal.
    SpawnTerminal {
        /// Correlates the reply.
        request_id: u32,
        /// Group to spawn under.
        group: GroupId,
        /// Program and arguments.
        command: Option<Vec<String>>,
        /// Working directory.
        cwd: Option<String>,
        /// Environment additions.
        env: Option<Vec<(String, String)>>,
        /// `TERM` override.
        term: Option<String>,
        /// Satellite to spawn on.
        satellite: Option<SatelliteHost>,
        /// Terminal whose window the new one joins.
        owner_terminal: Option<TerminalId>,
        /// Agent session that the terminal belongs to.
        agent_session: Option<String>,
        /// Initial columns and rows.
        initial_size: Option<(u16, u16)>,
        /// Kind and provenance, when not a plain terminal.
        resource: Option<Box<SpawnResource>>,
    },
    /// The outcome of a spawn.
    TerminalSpawned {
        /// The spawn's id.
        request_id: u32,
        /// The outcome.
        result: SpawnResult,
    },
    /// An error, about one request or about the connection.
    Error {
        /// The request it answers.
        request_id: Option<u32>,
        /// Category.
        code: ErrorCode,
        /// Human-readable detail.
        message: String,
    },
    /// A semantic event.
    Event {
        /// The terminal it is about.
        terminal: Option<TerminalId>,
        /// The event.
        event: AgentEvent,
    },
    /// Live terminal output.
    TerminalOutput {
        /// The terminal.
        terminal_id: TerminalId,
        /// Its stream.
        stream_id: StreamId,
        /// The generation that the output continues.
        bootstrap_id: BootstrapId,
        /// Sequence of the output.
        seq: u64,
        /// The output.
        bytes: Bytes,
    },
    /// A bootstrap generation starts.
    BootstrapBegin {
        /// The terminal.
        terminal_id: TerminalId,
        /// Its stream.
        stream_id: StreamId,
        /// The new generation.
        bootstrap_id: BootstrapId,
        /// How it is encoded.
        profile: BootstrapStreamProfile,
        /// Grid width.
        cols: u16,
        /// Grid height.
        rows: u16,
        /// Output sequence that the generation includes.
        base_seq: u64,
    },
    /// A piece of a generation.
    BootstrapChunk {
        /// The terminal.
        terminal_id: TerminalId,
        /// Its stream.
        stream_id: StreamId,
        /// The generation.
        bootstrap_id: BootstrapId,
        /// Position of the piece, from zero.
        chunk_seq: u32,
        /// The piece.
        payload: Bytes,
    },
    /// A generation is complete.
    BootstrapReady {
        /// The terminal.
        terminal_id: TerminalId,
        /// Its stream.
        stream_id: StreamId,
        /// The generation.
        bootstrap_id: BootstrapId,
        /// Where history continues.
        history_cursor: Option<Bytes>,
    },
    /// A generation ended without becoming complete.
    BootstrapTombstone {
        /// The terminal.
        terminal_id: TerminalId,
        /// Its stream.
        stream_id: StreamId,
        /// The generation.
        bootstrap_id: BootstrapId,
        /// Why.
        reason: TombstoneReason,
        /// The last output that the generation is good for.
        last_valid_seq: u64,
    },
    /// A page of history.
    HistoryPage {
        /// The terminal.
        terminal_id: TerminalId,
        /// Its stream.
        stream_id: StreamId,
        /// The generation.
        bootstrap_id: BootstrapId,
        /// Position of the page, from one.
        page_seq: u64,
        /// The cursor that was asked for.
        cursor: Bytes,
        /// Where the next page starts, while there is one.
        next_cursor: Option<Bytes>,
        /// The page.
        payload: Bytes,
        /// Rows in the page.
        rows: u32,
    },
    /// A history cursor is gone.
    HistoryTombstone {
        /// The terminal.
        terminal_id: TerminalId,
        /// Its stream.
        stream_id: StreamId,
        /// The generation.
        bootstrap_id: BootstrapId,
        /// The cursor.
        cursor: Bytes,
        /// Why.
        reason: HistoryTombstoneReason,
    },
    /// A history request was refused; the cursor stays usable.
    HistoryRejected {
        /// The terminal.
        terminal_id: TerminalId,
        /// Its stream.
        stream_id: StreamId,
        /// The generation.
        bootstrap_id: BootstrapId,
        /// The cursor.
        cursor: Bytes,
        /// Why.
        reason: HistoryRejectionReason,
        /// Bytes that the next record needs.
        required_bytes: u32,
        /// Rows that the next record needs.
        required_rows: u32,
    },
    /// A terminal is gone.
    TerminalClosed {
        /// The terminal.
        terminal_id: TerminalId,
        /// Exit status, when known.
        exit_status: Option<i32>,
        /// Why.
        reason: CloseReason,
    },
    /// A terminal rang.
    Bell {
        /// The terminal.
        terminal_id: TerminalId,
    },
    /// Subscribe to events, of one terminal or of all.
    SubscribeEvents {
        /// The terminal; all when absent.
        terminal: Option<TerminalId>,
    },
    /// One input event.
    Input {
        /// Target.
        terminal_id: TerminalId,
        /// The event.
        event: TerminalInput,
    },
    /// Output up to a sequence was applied.
    FrameAck {
        /// The terminal.
        terminal_id: TerminalId,
        /// Its stream.
        stream_id: StreamId,
        /// The generation.
        bootstrap_id: BootstrapId,
        /// The sequence.
        seq: u64,
    },
    /// A terminal's grid changes size.
    TerminalResize {
        /// Target.
        terminal_id: TerminalId,
        /// New width.
        cols: u16,
        /// New height.
        rows: u16,
    },
    /// The connection leaves its session.
    Detach,
    /// The server accepts a connection.
    HelloOk {
        /// How the connection bootstraps.
        selected_profile: BootstrapProfile,
        /// The connection's frame bounds.
        bootstrap_limits: BootstrapLimits,
        /// The server's process incarnation.
        server_id: Bytes,
    },
}

impl FrameKind {
    /// Frames whose copies equal them: every frame that is fanned out. A
    /// command or a spawn request travels to one place only.
    pub open spec fn copies_exactly(&self) -> bool {
        !(*self is Command) && !(*self is SpawnTerminal)
    }
}

fn copy_scope(terminal: &Option<TerminalId>) -> (copy: Option<TerminalId>)
    ensures
        copy == *terminal,
{
    match terminal {
        Some(id) => Some(id.clone()),
        None => None,
    }
}

fn copy_cursor(cursor: &Option<Bytes>) -> (copy: Option<Bytes>)
    ensures
        copy == *cursor,
{
    match cursor {
        Some(bytes) => Some(bytes.clone()),
        None => None,
    }
}

impl Clone for FrameKind {
    fn clone(&self) -> (copy: Self)
        ensures
            self.copies_exactly() ==> copy == *self,
    {
        match self {
            FrameKind::Command { request_id, command } => FrameKind::Command {
                request_id: *request_id,
                command: command.clone(),
            },
            FrameKind::CommandResult { request_id, result } => FrameKind::CommandResult {
                request_id: *request_id,
                result: result.clone(),
            },
            FrameKind::SpawnTerminal {
                request_id,
                group,
                command,
                cwd,
                env,
                term,
                satellite,
                owner_terminal,
                agent_session,
                initial_size,
                resource,
            } => FrameKind::SpawnTerminal {
                request_id: *request_id,
                group: *group,
                command: command.clone(),
                cwd: cwd.clone(),
                env: env.clone(),
                term: term.clone(),
                satellite: satellite.clone(),
                owner_terminal: owner_terminal.clone(),
                agent_session: agent_session.clone(),
                initial_size: *initial_size,
                resource: resource.clone(),
            },
            FrameKind::TerminalSpawned { request_id, result } => FrameKind::TerminalSpawned {
                request_id: *request_id,
                result: match result {
                    Ok(terminal) => Ok(terminal.clone()),
                    Err(error) => Err(error.clone()),
                },
            },
            FrameKind::Error { request_id, code, message } => FrameKind::Error {
                request_id: *request_id,
                code: *code,
                message: message.clone(),
            },
            FrameKind::Event { terminal, event } => FrameKind::Event {
                terminal: copy_scope(terminal),
                event: event.clone(),
            },
            FrameKind::TerminalOutput { terminal_id, stream_id, bootstrap_id, seq, bytes } =>
                FrameKind::TerminalOutput {
                    terminal_id: terminal_id.clone(),
                    stream_id: *stream_id,
                    bootstrap_id: *bootstrap_id,
                    seq: *seq,
                    bytes: bytes.clone(),
                },
            FrameKind::BootstrapBegin {
                terminal_id,
                stream_id,
                bootstrap_id,
                profile,
                cols,
                rows,
                base_seq,
            } => FrameKind::BootstrapBegin {
                terminal_id: terminal_id.clone(),
                stream_id: *stream_id,
                bootstrap_id: *bootstrap_id,
                profile: *profile,
                cols: *cols,
                rows: *rows,
                base_seq: *base_seq,
            },
            FrameKind::BootstrapChunk {
                terminal_id,
                stream_id,
                bootstrap_id,
                chunk_seq,
                payload,
            } => FrameKind::BootstrapChunk {
                terminal_id: terminal_id.clone(),
                stream_id: *stream_id,
                bootstrap_id: *bootstrap_id,
                chunk_seq: *chunk_seq,
                payload: payload.clone(),
            },
            FrameKind::BootstrapReady { terminal_id, stream_id, bootstrap_id, history_cursor } =>
                FrameKind::BootstrapReady {
                    terminal_id: terminal_id.clone(),
                    stream_id: *stream_id,
                    bootstrap_id: *bootstrap_id,
                    history_cursor: copy_cursor(history_cursor),
                },
            FrameKind::BootstrapTombstone {
                terminal_id,
                stream_id,
                bootstrap_id,
                reason,
                last_valid_seq,
            } => FrameKind::BootstrapTombstone {
                    terminal_id: terminal_id.clone(),
                    stream_id: *stream_id,
                    bootstrap_id: *bootstrap_id,
                    reason: *reason,
                    last_valid_seq: *last_valid_seq,
                },
            FrameKind::HistoryPage {
                terminal_id,
                stream_id,
                bootstrap_id,
                page_seq,
                cursor,
                next_cursor,
                payload,
                rows,
            } => FrameKind::HistoryPage {
                terminal_id: terminal_id.clone(),
                stream_id: *stream_id,
                bootstrap_id: *bootstrap_id,
                page_seq: *page_seq,
                cursor: cursor.clone(),
                next_cursor: copy_cursor(next_cursor),
                payload: payload.clone(),
                rows: *rows,
            },
            FrameKind::HistoryTombstone { terminal_id, stream_id, bootstrap_id, cursor, reason } =>
                FrameKind::HistoryTombstone {
                    terminal_id: terminal_id.clone(),
                    stream_id: *stream_id,
                    bootstrap_id: *bootstrap_id,
                    cursor: cursor.clone(),
                    reason: *reason,
                },
            FrameKind::HistoryRejected {
                terminal_id,
                stream_id,
                bootstrap_id,
                cursor,
                reason,
                required_bytes,
                required_rows,
            } => FrameKind::HistoryRejected {
                terminal_id: terminal_id.clone(),
                stream_id: *stream_id,
                bootstrap_id: *bootstrap_id,
                cursor: cursor.clone(),
                reason: *reason,
                required_bytes: *required_bytes,
                required_rows: *required_rows,
            },
            FrameKind::TerminalClosed { terminal_id, exit_status, reason } =>
                FrameKind::TerminalClosed {
                    terminal_id: terminal_id.clone(),
                    exit_status: *exit_status,
                    reason: *reason,
                },
            FrameKind::Bell { terminal_id } => FrameKind::Bell { terminal_id: terminal_id.clone() },
            FrameKind::SubscribeEvents { terminal } => FrameKind::SubscribeEvents {
                terminal: copy_scope(terminal),
            },
            FrameKind::Input { terminal_id, event } => FrameKind::Input {
                terminal_id: terminal_id.clone(),
                event: event.clone(),
            },
            FrameKind::FrameAck { terminal_id, stream_id, bootstrap_id, seq } =>
                FrameKind::FrameAck {
                    terminal_id: terminal_id.clone(),
                    stream_id: *stream_id,
                    bootstrap_id: *bootstrap_id,
                    seq: *seq,
                },
            FrameKind::TerminalResize { terminal_id, cols, rows } => FrameKind::TerminalResize {
                terminal_id: terminal_id.clone(),
                cols: *cols,
                rows: *rows,
            },
            FrameKind::Detach => FrameKind::Detach,
            FrameKind::HelloOk { selected_profile, bootstrap_limits, server_id } =>
                FrameKind::HelloOk {
                    selected_profile: *selected_profile,
                    bootstrap_limits: *bootstrap_limits,
                    server_id: server_id.clone(),
                },
        }
    }
}

} // verus!
