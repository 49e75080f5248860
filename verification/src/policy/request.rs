//! What the guard reads of a request.

use super::scope::{Verb, Verbs};
use crate::ids::{SatelliteHost, SessionId, TerminalId};
use crate::metadata::Scope;
use vstd::prelude::*;

verus! {

/// What a row of the classification says its verbs are needed on.
#[derive(Debug, Clone, Copy, PartialEq, Eq, Structural)]
pub enum Subject {
    /// Nothing.
    Nothing,
    /// The connection that asks.
    CallingConnection,
    /// The one terminal that the request names.
    NamedTerminal,
    /// Every terminal that the request names.
    EveryNamedTerminal,
    /// Every terminal of the session the connection is attached to.
    AttachedTerminals,
    /// The terminal that moves and the one it moves beside.
    MovedAndOwnerTerminals,
    /// The parent of the resource that the request names.
    ParentOfNamed,
    /// The group that an attach resolves to.
    ResolvedGroup,
    /// The local group that the request selects.
    SelectedLocalGroup,
    /// The session that the request names.
    NamedSession,
    /// The group in a spawn's payload.
    PayloadGroup,
    /// The group of a spawn's owner.
    OwnerTerminalGroup,
    /// The group of a spawn's parent.
    ParentTerminalGroup,
    /// A satellite.
    SatelliteHost,
    /// A satellite and a parent on it.
    SatelliteHostAndParent,
    /// The scope of a metadata request.
    MetadataScope,
    /// The terminals that an event subscription covers.
    ObservableTerminals,
    /// What an inventory lists.
    InventoryMatches,
    /// The server.
    Global {
        /// Whether only the owner's socket may ask.
        owner_uds_only: bool,
    },
}

/// Why a row needs no verb.
#[derive(Debug, Clone, Copy, PartialEq, Eq, Structural)]
pub enum Exemption {
    /// Belongs to the handshake.
    Handshake,
    /// Keeps the connection alive.
    Liveness,
    /// Ends something the connection holds.
    Cleanup,
    /// Reads the connection's own grant.
    SelfRead,
}

/// A row of the classification of frames and commands.
#[derive(Debug, Clone, Copy, PartialEq, Eq, Structural)]
pub enum Classification {
    /// Refused.
    Deny,
    /// Needs no verb.
    Exempt(Exemption),
    /// Needs verbs on a subject.
    Allow {
        /// The verbs.
        verbs: Verbs,
        /// The subject.
        subject: Subject,
    },
}

/// The session that an attach asks for.
#[derive(Debug, PartialEq, Eq)]
pub enum AttachTarget {
    /// The session that was used last.
    Last,
    /// A session by wire id.
    ById(SessionId),
    /// A session by name.
    ByName(String),
    /// A session by name, made if it is missing.
    CreateIfMissing {
        /// The name.
        name: String,
    },
    /// Anything else.
    Unrecognized,
}

/// A held command that waits for a decision.
#[derive(Debug, Clone, Copy, PartialEq, Eq, Structural)]
pub struct ApprovalId(pub u64);

/// A command, as far as the guard reads it.
#[derive(Debug, PartialEq, Eq)]
#[allow(inconsistent_fields)]
pub enum ClientCommand {
    /// Subscribe to a terminal.
    AttachResource {
        /// The terminal.
        terminal_id: TerminalId,
    },
    /// End a subscription.
    DetachResource {
        /// The terminal.
        terminal_id: TerminalId,
    },
    /// End a terminal.
    KillResource {
        /// The terminal.
        terminal_id: TerminalId,
    },
    /// End a terminal under a condition.
    KillResourceIf {
        /// The terminal.
        terminal_id: TerminalId,
    },
    /// Read the screen.
    GetScreen {
        /// The terminal.
        terminal_id: TerminalId,
    },
    /// Type one event.
    RouteInput {
        /// The terminal.
        terminal_id: TerminalId,
    },
    /// Type a batch of events.
    ApplyInput {
        /// The terminal.
        terminal_id: TerminalId,
    },
    /// Read the terminal's state.
    GetTerminalState {
        /// The terminal.
        terminal_id: TerminalId,
    },
    /// Subscribe to the terminal's events.
    SubscribeResourceEvents {
        /// The terminal.
        terminal_id: TerminalId,
    },
    /// Take the input lease.
    AcquireInput {
        /// The terminal.
        terminal_id: TerminalId,
    },
    /// Give the input lease back.
    ReleaseInput {
        /// The terminal.
        terminal_id: TerminalId,
    },
    /// Signal the foreground.
    SignalTerminal {
        /// The terminal.
        terminal_id: TerminalId,
    },
    /// Report that the agent asks something.
    ReportAsked {
        /// The terminal.
        terminal_id: TerminalId,
    },
    /// Report the agent's state.
    ReportAgentState {
        /// The terminal.
        terminal_id: TerminalId,
    },
    /// Upload a file for a terminal.
    PutFile {
        /// The terminal.
        terminal_id: TerminalId,
    },
    /// Transcribe an upload into a terminal.
    Transcribe {
        /// The terminal.
        terminal_id: TerminalId,
    },
    /// Append to an agent session.
    AppendResourceOutput {
        /// The session.
        terminal_id: TerminalId,
    },
    /// End several terminals.
    KillResources {
        /// The terminals.
        ids: Vec<TerminalId>,
    },
    /// Close a tab of terminals.
    CloseTabResources {
        /// The terminals.
        ids: Vec<TerminalId>,
    },
    /// Detach every client of a session, or of the server.
    DetachClients {
        /// The session.
        session: Option<String>,
    },
    /// Any other command.
    Other,
}

/// A frame, as far as the guard reads it.
#[derive(Debug, PartialEq, Eq)]
#[allow(inconsistent_fields)]
pub enum ClientFrame {
    /// A command, with its own row.
    Command {
        /// The command.
        command: ClientCommand,
        /// Its row.
        row: Classification,
    },
    /// Attach to a session.
    Attach {
        /// The session.
        target: AttachTarget,
    },
    /// Ask for history.
    HistoryRequest {
        /// The terminal.
        terminal_id: TerminalId,
    },
    /// Acknowledge output.
    FrameAck {
        /// The terminal.
        terminal_id: TerminalId,
    },
    /// A key.
    InputKey {
        /// The terminal.
        terminal_id: TerminalId,
    },
    /// A mouse event.
    InputMouse {
        /// The terminal.
        terminal_id: TerminalId,
    },
    /// A focus event.
    InputFocus {
        /// The terminal.
        terminal_id: TerminalId,
    },
    /// A paste.
    InputPaste {
        /// The terminal.
        terminal_id: TerminalId,
    },
    /// A reply of the outer terminal.
    InputTerminalReply {
        /// The terminal.
        terminal_id: TerminalId,
    },
    /// Resize a terminal.
    ResizeTerminal {
        /// The terminal.
        terminal_id: TerminalId,
    },
    /// Subscribe to events.
    SubscribeEvents {
        /// One terminal's, or everybody's.
        terminal: Option<TerminalId>,
    },
    /// Resize what the connection is attached to.
    ViewportResize,
    /// Spawn a resource.
    SpawnResource {
        /// The satellite to spawn on.
        satellite: Option<SatelliteHost>,
        /// The terminal to spawn beside.
        owner_terminal: Option<TerminalId>,
        /// The parent of the resource.
        parent: Option<TerminalId>,
    },
    /// Move a terminal.
    MoveResource {
        /// The terminal.
        terminal: TerminalId,
        /// The terminal to move beside.
        owner_terminal: TerminalId,
    },
    /// Read a record.
    GetMetadata {
        /// What it is attached to.
        scope: Scope,
    },
    /// Write a record.
    SetMetadata {
        /// What it is attached to.
        scope: Scope,
        /// The session that the value names, where it is a keep-empty mark.
        keep_empty: Option<String>,
        /// The approval that the key decides, where it decides one.
        decides: Option<ApprovalId>,
    },
    /// Remove a record.
    DeleteMetadata {
        /// What it is attached to.
        scope: Scope,
    },
    /// List records.
    ListMetadata {
        /// What they are attached to.
        scope: Scope,
    },
    /// Subscribe to a record.
    SubscribeMetadata {
        /// What it is attached to.
        scope: Scope,
    },
    /// Any other frame.
    Other,
}

/// What the guard is asked to let through, with its row of the classification.
#[derive(Debug, Clone, Copy)]
pub enum Request<'a> {
    /// A frame.
    Frame(&'a ClientFrame, Classification),
    /// A nested command.
    Command(&'a ClientCommand, Classification),
    /// A stream that binds to a terminal.
    StreamBind(&'a TerminalId),
}

impl<'a> Request<'a> {
    /// A command frame stands for its command.
    pub open spec fn unwrapped(self) -> Request<'a> {
        match self {
            Request::Frame(frame, row) => match frame {
                ClientFrame::Command { command, row: nested } => Request::Command(
                    command,
                    *nested,
                ),
                _ => self,
            },
            _ => self,
        }
    }

    /// The row of this request; binding a stream observes the terminal.
    pub open spec fn row(self) -> Classification {
        match self {
            Request::Frame(_, row) => row,
            Request::Command(_, row) => row,
            Request::StreamBind(_) => Classification::Allow {
                verbs: Verbs::only(Verb::Observe),
                subject: Subject::NamedTerminal,
            },
        }
    }

    /// The terminal that this request names.
    pub open spec fn terminal(self) -> Option<TerminalId> {
        match self {
            Request::Frame(frame, _) => frame_target(*frame),
            Request::Command(command, _) => command_target(*command),
            Request::StreamBind(terminal) => Some(*terminal),
        }
    }
}

/// The terminal that a frame names.
pub open spec fn frame_target(frame: ClientFrame) -> Option<TerminalId> {
    match frame {
        ClientFrame::HistoryRequest { terminal_id } => Some(terminal_id),
        ClientFrame::FrameAck { terminal_id } => Some(terminal_id),
        ClientFrame::InputKey { terminal_id } => Some(terminal_id),
        ClientFrame::InputMouse { terminal_id } => Some(terminal_id),
        ClientFrame::InputFocus { terminal_id } => Some(terminal_id),
        ClientFrame::InputPaste { terminal_id } => Some(terminal_id),
        ClientFrame::InputTerminalReply { terminal_id } => Some(terminal_id),
        ClientFrame::ResizeTerminal { terminal_id } => Some(terminal_id),
        ClientFrame::SubscribeEvents { terminal } => terminal,
        _ => None,
    }
}

/// The terminal that a command names.
pub open spec fn command_target(command: ClientCommand) -> Option<TerminalId> {
    match command {
        ClientCommand::AttachResource { terminal_id } => Some(terminal_id),
        ClientCommand::DetachResource { terminal_id } => Some(terminal_id),
        ClientCommand::KillResource { terminal_id } => Some(terminal_id),
        ClientCommand::KillResourceIf { terminal_id } => Some(terminal_id),
        ClientCommand::GetScreen { terminal_id } => Some(terminal_id),
        ClientCommand::RouteInput { terminal_id } => Some(terminal_id),
        ClientCommand::ApplyInput { terminal_id } => Some(terminal_id),
        ClientCommand::GetTerminalState { terminal_id } => Some(terminal_id),
        ClientCommand::SubscribeResourceEvents { terminal_id } => Some(terminal_id),
        ClientCommand::AcquireInput { terminal_id } => Some(terminal_id),
        ClientCommand::ReleaseInput { terminal_id } => Some(terminal_id),
        ClientCommand::SignalTerminal { terminal_id } => Some(terminal_id),
        ClientCommand::ReportAsked { terminal_id } => Some(terminal_id),
        ClientCommand::ReportAgentState { terminal_id } => Some(terminal_id),
        ClientCommand::PutFile { terminal_id } => Some(terminal_id),
        ClientCommand::Transcribe { terminal_id } => Some(terminal_id),
        ClientCommand::AppendResourceOutput { terminal_id } => Some(terminal_id),
        _ => None,
    }
}

/// The terminal behind an optional reference.
pub open spec fn deref(terminal: Option<&TerminalId>) -> Option<TerminalId> {
    match terminal {
        Some(terminal) => Some(*terminal),
        None => None,
    }
}

/// The terminal that a frame names.
pub fn frame_terminal(frame: &ClientFrame) -> (terminal: Option<&TerminalId>)
    ensures
        deref(terminal) == frame_target(*frame),
{
    match frame {
        ClientFrame::HistoryRequest { terminal_id } => Some(terminal_id),
        ClientFrame::FrameAck { terminal_id } => Some(terminal_id),
        ClientFrame::InputKey { terminal_id } => Some(terminal_id),
        ClientFrame::InputMouse { terminal_id } => Some(terminal_id),
        ClientFrame::InputFocus { terminal_id } => Some(terminal_id),
        ClientFrame::InputPaste { terminal_id } => Some(terminal_id),
        ClientFrame::InputTerminalReply { terminal_id } => Some(terminal_id),
        ClientFrame::ResizeTerminal { terminal_id } => Some(terminal_id),
        ClientFrame::SubscribeEvents { terminal } => match terminal {
            Some(terminal) => Some(terminal),
            None => None,
        },
        _ => None,
    }
}

/// The terminal that a command names.
pub fn command_terminal(command: &ClientCommand) -> (terminal: Option<&TerminalId>)
    ensures
        deref(terminal) == command_target(*command),
{
    match command {
        ClientCommand::AttachResource { terminal_id } => Some(terminal_id),
        ClientCommand::DetachResource { terminal_id } => Some(terminal_id),
        ClientCommand::KillResource { terminal_id } => Some(terminal_id),
        ClientCommand::KillResourceIf { terminal_id } => Some(terminal_id),
        ClientCommand::GetScreen { terminal_id } => Some(terminal_id),
        ClientCommand::RouteInput { terminal_id } => Some(terminal_id),
        ClientCommand::ApplyInput { terminal_id } => Some(terminal_id),
        ClientCommand::GetTerminalState { terminal_id } => Some(terminal_id),
        ClientCommand::SubscribeResourceEvents { terminal_id } => Some(terminal_id),
        ClientCommand::AcquireInput { terminal_id } => Some(terminal_id),
        ClientCommand::ReleaseInput { terminal_id } => Some(terminal_id),
        ClientCommand::SignalTerminal { terminal_id } => Some(terminal_id),
        ClientCommand::ReportAsked { terminal_id } => Some(terminal_id),
        ClientCommand::ReportAgentState { terminal_id } => Some(terminal_id),
        ClientCommand::PutFile { terminal_id } => Some(terminal_id),
        ClientCommand::Transcribe { terminal_id } => Some(terminal_id),
        ClientCommand::AppendResourceOutput { terminal_id } => Some(terminal_id),
        _ => None,
    }
}

/// A command frame stands for its command.
pub fn unwrap_command<'a>(request: Request<'a>) -> (unwrapped: Request<'a>)
    ensures
        unwrapped == request.unwrapped(),
{
    match request {
        Request::Frame(frame, row) => match frame {
            ClientFrame::Command { command, row: nested } => Request::Command(command, *nested),
            _ => Request::Frame(frame, row),
        },
        other => other,
    }
}

/// The row of a request.
pub fn classify<'a>(request: Request<'a>) -> (row: Classification)
    ensures
        row == request.row(),
{
    match request {
        Request::Frame(_, row) => row,
        Request::Command(_, row) => row,
        Request::StreamBind(_) => Classification::Allow {
            verbs: Verbs::of(Verb::Observe),
            subject: Subject::NamedTerminal,
        },
    }
}

/// The terminal that a request names.
pub fn named_terminal<'a>(request: Request<'a>) -> (terminal: Option<&'a TerminalId>)
    ensures
        deref(terminal) == request.terminal(),
{
    match request {
        Request::Frame(frame, _) => frame_terminal(frame),
        Request::Command(command, _) => command_terminal(command),
        Request::StreamBind(terminal) => Some(terminal),
    }
}

} // verus!
