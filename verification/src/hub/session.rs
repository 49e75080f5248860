//! What one established satellite connection is, and what happens to it.
//!
//! A session numbers the hub's requests on the link and hands each reply to
//! the consumer that waits for it, keeps track of who observes what, fences
//! old output behind confirmed stream stops, and tags every id that a
//! satellite sends with the satellite's name. Its state lives as long as the
//! connection; `teardown` tells everyone who depended on it.

use crate::hub::fault::{profile_label, profile_text, BoundFrame, RelayFault};
use crate::hub::flow::FlowsV;
use crate::hub::gate::{fan, fan_past_gates, total_bytes, total_frames, SubV};
use crate::hub::registry::{
    not_observing, registered, registration_effect, rolled_back, ProxySubscription,
};
use crate::hub::requests::{
    PendingCommand, PendingDetach, PendingSubscription, ReplyId, RequestsV,
};
use crate::ids::{GroupId, SatelliteHost, TerminalId};
use crate::mailbox::MailboxV;
use crate::payload::contents;
use crate::text::{decimal, decimal_text};
use crate::wire::{
    BootstrapLimits, BootstrapProfile, Command, CommandResult, ErrorCode, FrameKind, SpawnError,
    SpawnResource, SpawnResult,
};
use vstd::prelude::*;
use vstd::string::*;

verus! {

/// How long the hub waits for a satellite's reply, in milliseconds.
pub const RELAY_COMMAND_TIMEOUT_MS: u64 = 30_000;

/// How long the hub waits for a satellite's reply, in seconds.
pub const RELAY_COMMAND_TIMEOUT_SECONDS: u64 = 30;

/// What a link was negotiated to be.
pub struct Link {
    /// The satellite.
    pub host: SatelliteHost,
    /// Frame bounds.
    pub bootstrap_limits: BootstrapLimits,
    /// How terminals are bootstrapped.
    pub bootstrap_profile: BootstrapProfile,
    /// Whether generations are checked frame by frame.
    pub enforce_bootstrap_flow: bool,
}

/// A spawn for one satellite, already in the satellite's own terminal space.
#[derive(Debug)]
pub struct SatelliteSpawn {
    /// Group to spawn under.
    pub group: GroupId,
    /// Program and arguments.
    pub command: Option<Vec<String>>,
    /// Working directory.
    pub cwd: Option<String>,
    /// Environment additions.
    pub env: Option<Vec<(String, String)>>,
    /// `TERM` override.
    pub term: Option<String>,
    /// Terminal whose window the new one joins.
    pub owner_terminal: Option<u32>,
    /// Initial columns and rows.
    pub initial_size: Option<(u16, u16)>,
    /// Kind and provenance, when not a plain terminal.
    pub resource: Option<Box<SpawnResource>>,
}

/// What a consumer asks of a satellite.
#[derive(Debug)]
pub enum RelayRequest {
    /// Run a command, already in the satellite's own terminal space.
    Command {
        /// The command.
        command: Command,
        /// Who waits for the result.
        reply: ReplyId,
        /// A subscriber to register in the same step; undone if the satellite
        /// refuses the command.
        subscribe: Option<ProxySubscription>,
    },
    /// Send a frame that has no reply.
    Forward {
        /// The frame.
        frame: FrameKind,
    },
    /// Spawn a terminal.
    Spawn {
        /// What to spawn.
        spawn: SatelliteSpawn,
        /// Who waits for the result.
        reply: ReplyId,
    },
    /// Register a subscriber and send a frame, as one step.
    Subscribe {
        /// The subscriber.
        subscription: ProxySubscription,
        /// The frame.
        forward: FrameKind,
    },
    /// Mirror a terminal's records. What goes out for it are the record
    /// frames of `RelaySession::mirror_terminal`; the request itself adds none.
    MirrorTerminal {
        /// The terminal, in the satellite's own space.
        terminal: u32,
    },
}

/// A command's result for the consumer that waits for it.
#[derive(Debug)]
pub struct CommandReply {
    /// Who waits.
    pub to: ReplyId,
    /// The result.
    pub result: CommandResult,
}

/// A spawn's result for the consumer that waits for it.
#[derive(Debug)]
pub struct SpawnReply {
    /// Who waits.
    pub to: ReplyId,
    /// The result.
    pub result: SpawnResult,
}

/// What servicing a request produced.
#[derive(Debug)]
pub struct Serviced {
    /// The frame for the satellite, unless the request was refused.
    pub wire: Option<FrameKind>,
    /// The refusal, when the consumer waits for a reply.
    pub refusal: Option<CommandReply>,
}

/// Who is answered by a frame from the satellite.
#[allow(inconsistent_fields)]
#[derive(Debug)]
pub enum Resolved {
    /// Nobody.
    Nobody,
    /// A consumer that waits for a command.
    Command {
        /// Its reply.
        reply: CommandReply,
    },
    /// A consumer that waits for a spawn.
    Spawn {
        /// Its reply.
        reply: SpawnReply,
    },
}

/// Who is answered when a connection ends.
#[derive(Debug)]
pub struct Teardown {
    /// Replies to commands in flight.
    pub commands: Vec<CommandReply>,
    /// Replies to spawns in flight.
    pub spawns: Vec<SpawnReply>,
}

/// A session as contracts speak of it.
#[verifier::ext_equal]
pub struct SessionV {
    /// What the link was negotiated to be.
    pub link: Link,
    /// Requests in flight.
    pub requests: RequestsV,
    /// Subscribers.
    pub subs: Seq<SubV>,
    /// Generations.
    pub flows: FlowsV,
    /// Terminals whose content some consumer asked for since the last stop.
    pub explicit: Set<u32>,
    /// Terminals with an event subscription that a stop removes.
    pub legacy: Set<u32>,
    /// Terminals whose records are mirrored.
    pub mirrored: Set<u32>,
}

// ---- messages ---------------------------------------------------------------

/// The text for an unreachable satellite.
pub open spec fn unreachable_text(host: Seq<char>, why: Seq<char>) -> Seq<char> {
    "satellite "@ + host + " is unreachable: "@ + why
}

/// That a satellite is unreachable, and why.
pub fn unreachable_message(host: &SatelliteHost, why: &str) -> (message: String)
    ensures
        message@ == unreachable_text(host.name@, why@),
{
    "satellite ".to_owned().concat(host.name.as_str()).concat(" is unreachable: ").concat(why)
}

/// The error frame for consumers that observe an unreachable satellite.
pub fn unreachable_error(host: &SatelliteHost, why: &str) -> (frame: FrameKind)
    ensures
        is_unreachable_error(frame, host.name@, why@),
{
    FrameKind::Error {
        request_id: None,
        code: ErrorCode::SatelliteUnreachable,
        message: unreachable_message(host, why),
    }
}

/// `frame` says that satellite `host` is unreachable, and why.
pub open spec fn is_unreachable_error(frame: FrameKind, host: Seq<char>, why: Seq<char>) -> bool {
    match frame {
        FrameKind::Error { request_id, code, message } => request_id is None && code
            == ErrorCode::SatelliteUnreachable && message@ == unreachable_text(host, why),
        _ => false,
    }
}

/// `result` says that satellite `host` is unreachable, and why.
pub open spec fn is_unreachable_result(
    result: CommandResult,
    host: Seq<char>,
    why: Seq<char>,
) -> bool {
    match result {
        CommandResult::Error { code, message } => code == ErrorCode::SatelliteUnreachable
            && message@ == unreachable_text(host, why),
        _ => false,
    }
}

/// `result` says that satellite `host` is unreachable, and why.
pub open spec fn is_unreachable_spawn(result: SpawnResult, host: Seq<char>, why: Seq<char>) -> bool {
    match result {
        Err(SpawnError::SatelliteUnreachable(message)) => message@ == unreachable_text(host, why),
        _ => false,
    }
}

/// How frame bounds are written in a message.
pub open spec fn limits_label(limits: BootstrapLimits) -> Seq<char> {
    "BootstrapLimits { max_chunk_bytes: "@ + decimal(limits.max_chunk_bytes as nat)
        + ", max_history_page_bytes: "@ + decimal(limits.max_history_page_bytes as nat) + " }"@
}

fn limits_text(limits: BootstrapLimits) -> (text: String)
    ensures
        text@ == limits_label(limits),
{
    "BootstrapLimits { max_chunk_bytes: ".to_owned().concat(
        decimal_text(limits.max_chunk_bytes as u64).as_str(),
    ).concat(", max_history_page_bytes: ").concat(
        decimal_text(limits.max_history_page_bytes as u64).as_str(),
    ).concat(" }")
}

/// How an optional profile is written in a message.
pub open spec fn optional_profile_label(profile: Option<BootstrapProfile>) -> Seq<char> {
    match profile {
        Some(profile) => "Some("@ + profile_label(profile) + ")"@,
        None => "None"@,
    }
}

/// How optional frame bounds are written in a message.
pub open spec fn optional_limits_label(limits: Option<BootstrapLimits>) -> Seq<char> {
    match limits {
        Some(limits) => "Some("@ + limits_label(limits) + ")"@,
        None => "None"@,
    }
}

/// Why a subscriber with content is refused on `link`.
pub open spec fn rejection_text(link: Link, sub: ProxySubscription) -> Seq<char> {
    "satellite "@ + link.host.name@ + " link uses profile "@ + profile_label(link.bootstrap_profile)
        + " and limits "@ + limits_label(link.bootstrap_limits)
        + "; downstream content connection selected profile "@ + optional_profile_label(
        sub.bootstrap_profile,
    ) + " and limits "@ + optional_limits_label(sub.bootstrap_limits)
        + "; relay transcoding is unavailable"@
}

/// A subscriber with content must have negotiated exactly what the link did.
pub open spec fn rejects(link: Link, sub: ProxySubscription) -> bool {
    sub.awaits_snapshot && !(sub.bootstrap_profile == Some(link.bootstrap_profile)
        && sub.bootstrap_limits == Some(link.bootstrap_limits))
}

/// How an error category is written in a message.
pub open spec fn code_label(code: ErrorCode) -> Seq<char> {
    match code {
        ErrorCode::ResourceExhausted => "ResourceExhausted"@,
        ErrorCode::SatelliteUnreachable => "SatelliteUnreachable"@,
        ErrorCode::CodecUnavailable => "CodecUnavailable"@,
        ErrorCode::InvalidCommand => "InvalidCommand"@,
        ErrorCode::TerminalNotFound => "TerminalNotFound"@,
        ErrorCode::Unauthorized => "Unauthorized"@,
        ErrorCode::InternalError => "InternalError"@,
        ErrorCode::Other { code } => "Other { code: "@ + decimal(code as nat) + " }"@,
    }
}

pub(crate) fn code_text(code: ErrorCode) -> (text: String)
    ensures
        text@ == code_label(code),
{
    match code {
        ErrorCode::ResourceExhausted => "ResourceExhausted".to_owned(),
        ErrorCode::SatelliteUnreachable => "SatelliteUnreachable".to_owned(),
        ErrorCode::CodecUnavailable => "CodecUnavailable".to_owned(),
        ErrorCode::InvalidCommand => "InvalidCommand".to_owned(),
        ErrorCode::TerminalNotFound => "TerminalNotFound".to_owned(),
        ErrorCode::Unauthorized => "Unauthorized".to_owned(),
        ErrorCode::InternalError => "InternalError".to_owned(),
        ErrorCode::Other { code } => "Other { code: ".to_owned().concat(
            decimal_text(code as u64).as_str(),
        ).concat(" }"),
    }
}

impl Link {
    /// The refusal for a subscriber with content that negotiated otherwise.
    pub fn subscription_rejection(&self, sub: &ProxySubscription) -> (rejection: Option<
        (ErrorCode, String),
    >)
        ensures
            match rejection {
                Some((code, message)) => rejects(*self, *sub) && code == ErrorCode::CodecUnavailable
                    && message@ == rejection_text(*self, *sub),
                None => !rejects(*self, *sub),
            },
    {
        if !sub.awaits_snapshot {
            return None;
        }
        let profile_matches = match sub.bootstrap_profile {
            Some(profile) => profile == self.bootstrap_profile,
            None => false,
        };
        let limits_match = match sub.bootstrap_limits {
            Some(limits) => limits == self.bootstrap_limits,
            None => false,
        };
        if profile_matches && limits_match {
            return None;
        }
        let selected_profile = match sub.bootstrap_profile {
            Some(profile) => "Some(".to_owned().concat(profile_text(profile).as_str()).concat(")"),
            None => "None".to_owned(),
        };
        let selected_limits = match sub.bootstrap_limits {
            Some(limits) => "Some(".to_owned().concat(limits_text(limits).as_str()).concat(")"),
            None => "None".to_owned(),
        };
        let message = "satellite ".to_owned().concat(self.host.name.as_str()).concat(
            " link uses profile ",
        ).concat(profile_text(self.bootstrap_profile).as_str()).concat(" and limits ").concat(
            limits_text(self.bootstrap_limits).as_str(),
        ).concat("; downstream content connection selected profile ").concat(
            selected_profile.as_str(),
        ).concat(" and limits ").concat(selected_limits.as_str()).concat(
            "; relay transcoding is unavailable",
        );
        Some((ErrorCode::CodecUnavailable, message))
    }
}

// ---- requests ---------------------------------------------------------------

impl SessionV {
    /// The session once `sub` is registered.
    pub open spec fn registering(self, sub: ProxySubscription) -> Self {
        SessionV { subs: registered(self.subs, sub), ..self }
    }

    /// The session once a command with an optional rider is in flight.
    pub open spec fn commanding(self, reply: ReplyId, subscribe: Option<ProxySubscription>) -> Self {
        match subscribe {
            None => SessionV {
                requests: self.requests.with_command(PendingCommand { reply, subscription: None }),
                ..self
            },
            Some(sub) => SessionV {
                requests: self.requests.with_command(
                    PendingCommand {
                        reply,
                        subscription: Some(
                            PendingSubscription {
                                terminal: sub.terminal,
                                client: sub.client,
                                effect: registration_effect(self.subs, sub),
                            },
                        ),
                    },
                ),
                explicit: if sub.awaits_snapshot {
                    self.explicit.insert(sub.terminal)
                } else {
                    self.explicit
                },
                ..self.registering(sub)
            },
        }
    }

    /// The session after a request.
    pub open spec fn requested(self, request: RelayRequest) -> Self {
        match request {
            RelayRequest::Command { reply, subscribe, .. } => match subscribe {
                Some(sub) if rejects(self.link, sub) => self,
                _ => self.commanding(reply, subscribe),
            },
            RelayRequest::Forward { .. } | RelayRequest::MirrorTerminal { .. } => self,
            RelayRequest::Spawn { reply, .. } => SessionV {
                requests: self.requests.with_spawn(reply),
                ..self
            },
            RelayRequest::Subscribe { subscription, forward } => if rejects(
                self.link,
                subscription,
            ) {
                self
            } else {
                SessionV {
                    legacy: match forward {
                        FrameKind::SubscribeEvents {
                            terminal: Some(TerminalId::Local { id }),
                        } => self.legacy.insert(id),
                        _ => self.legacy,
                    },
                    ..self.registering(subscription)
                }
            },
        }
    }

    /// The frame that a request puts on the wire, unless it is refused.
    pub open spec fn wire_of(self, request: RelayRequest) -> Option<FrameKind> {
        match request {
            RelayRequest::Command { command, subscribe, .. } => match subscribe {
                Some(sub) if rejects(self.link, sub) => None,
                _ => Some(FrameKind::Command { request_id: self.requests.fresh(), command }),
            },
            RelayRequest::Forward { frame } => Some(frame),
            RelayRequest::MirrorTerminal { .. } => None,
            RelayRequest::Spawn { spawn, .. } => Some(
                FrameKind::SpawnTerminal {
                    request_id: self.requests.fresh(),
                    group: spawn.group,
                    command: spawn.command,
                    cwd: spawn.cwd,
                    env: spawn.env,
                    term: spawn.term,
                    satellite: None,
                    owner_terminal: match spawn.owner_terminal {
                        Some(id) => Some(TerminalId::Local { id }),
                        None => None,
                    },
                    agent_session: None,
                    initial_size: spawn.initial_size,
                    resource: spawn.resource,
                },
            ),
            RelayRequest::Subscribe { subscription, forward } => if rejects(
                self.link,
                subscription,
            ) {
                None
            } else {
                Some(forward)
            },
        }
    }

    /// The session once `terminal`'s stream was asked to stop.
    pub open spec fn detaching(self, terminal: u32, now_ms: u64) -> Self {
        SessionV {
            requests: self.requests.with_detach(PendingDetach { terminal, issued_ms: now_ms }),
            explicit: self.explicit.remove(terminal),
            legacy: self.legacy.remove(terminal),
            ..self
        }
    }

    /// The frame that asks `terminal`'s stream to stop.
    pub open spec fn detach_frame(self, terminal: u32) -> FrameKind {
        FrameKind::Command {
            request_id: self.requests.fresh(),
            command: Command::DetachTerminal { terminal_id: TerminalId::Local { id: terminal } },
        }
    }

    /// The session once the streams of the first `n` of `terminals` were asked
    /// to stop.
    pub open spec fn detaching_all(self, terminals: Seq<u32>, n: nat, now_ms: u64) -> Self
        decreases n,
    {
        if n == 0 || n > terminals.len() {
            self
        } else {
            self.detaching_all(terminals, (n - 1) as nat, now_ms).detaching(
                terminals[n - 1],
                now_ms,
            )
        }
    }

    /// The frames that ask the streams of the first `n` of `terminals` to stop.
    pub open spec fn detach_frames(self, terminals: Seq<u32>, n: nat, now_ms: u64) -> Seq<FrameKind>
        decreases n,
    {
        if n == 0 || n > terminals.len() {
            Seq::empty()
        } else {
            self.detach_frames(terminals, (n - 1) as nat, now_ms).push(
                self.detaching_all(terminals, (n - 1) as nat, now_ms).detach_frame(
                    terminals[n - 1],
                ),
            )
        }
    }

    /// Whether `request` must be preceded by a stop of the terminal's stream: a
    /// first attach, while no stop is in flight.
    pub open spec fn needs_cut(self, request: RelayRequest) -> Option<u32> {
        match request {
            RelayRequest::Command {
                command: Command::AttachTerminal { .. },
                subscribe: Some(sub),
                ..
            } => if self.explicit.contains(sub.terminal) || self.requests.barred(sub.terminal)
                || rejects(self.link, sub) {
                None
            } else {
                Some(sub.terminal)
            },
            _ => None,
        }
    }

    /// The session once `terminal`'s stream was cut: its event subscription
    /// survives the stop.
    pub open spec fn cutting(self, terminal: u32, now_ms: u64) -> Self {
        let stopped = self.detaching(terminal, now_ms);
        if self.legacy.contains(terminal) {
            SessionV { legacy: stopped.legacy.insert(terminal), ..stopped }
        } else {
            stopped
        }
    }

    /// The frames that cut `terminal`'s stream.
    pub open spec fn cut_frames(self, terminal: u32) -> Seq<FrameKind> {
        if self.legacy.contains(terminal) {
            seq![
                self.detach_frame(terminal),
                FrameKind::SubscribeEvents { terminal: Some(TerminalId::Local { id: terminal }) },
            ]
        } else {
            seq![self.detach_frame(terminal)]
        }
    }
}

// ---- frames from the satellite ----------------------------------------------

/// The terminal that a stream frame is about.
pub open spec fn stream_scope(frame: FrameKind) -> Option<TerminalId> {
    match frame {
        FrameKind::Event { terminal, .. } => terminal,
        FrameKind::TerminalOutput { terminal_id, .. } => Some(terminal_id),
        FrameKind::BootstrapBegin { terminal_id, .. } => Some(terminal_id),
        FrameKind::BootstrapChunk { terminal_id, .. } => Some(terminal_id),
        FrameKind::BootstrapReady { terminal_id, .. } => Some(terminal_id),
        FrameKind::HistoryPage { terminal_id, .. } => Some(terminal_id),
        FrameKind::BootstrapTombstone { terminal_id, .. } => Some(terminal_id),
        FrameKind::HistoryTombstone { terminal_id, .. } => Some(terminal_id),
        FrameKind::HistoryRejected { terminal_id, .. } => Some(terminal_id),
        _ => None,
    }
}

/// Frames that belong to a terminal's stream.
pub open spec fn is_stream(frame: FrameKind) -> bool {
    frame is Event || frame is TerminalOutput || frame is BootstrapBegin || frame is BootstrapChunk
        || frame is BootstrapReady || frame is HistoryPage || frame is BootstrapTombstone
        || frame is HistoryTombstone || frame is HistoryRejected
}

/// A stream frame with its terminal tagged by the satellite that owns it.
pub open spec fn retagged(frame: FrameKind, host: SatelliteHost, id: u32) -> FrameKind {
    let scope = TerminalId::Satellite { host, id };
    match frame {
        FrameKind::Event { event, .. } => FrameKind::Event { terminal: Some(scope), event },
        FrameKind::TerminalOutput { stream_id, bootstrap_id, seq, bytes, .. } =>
            FrameKind::TerminalOutput { terminal_id: scope, stream_id, bootstrap_id, seq, bytes },
        FrameKind::BootstrapBegin { stream_id, bootstrap_id, profile, cols, rows, base_seq, .. } =>
            FrameKind::BootstrapBegin {
                terminal_id: scope,
                stream_id,
                bootstrap_id,
                profile,
                cols,
                rows,
                base_seq,
            },
        FrameKind::BootstrapChunk { stream_id, bootstrap_id, chunk_seq, payload, .. } =>
            FrameKind::BootstrapChunk {
                terminal_id: scope,
                stream_id,
                bootstrap_id,
                chunk_seq,
                payload,
            },
        FrameKind::BootstrapReady { stream_id, bootstrap_id, history_cursor, .. } =>
            FrameKind::BootstrapReady { terminal_id: scope, stream_id, bootstrap_id, history_cursor },
        FrameKind::HistoryPage {
            stream_id,
            bootstrap_id,
            page_seq,
            cursor,
            next_cursor,
            payload,
            rows,
            ..
        } => FrameKind::HistoryPage {
            terminal_id: scope,
            stream_id,
            bootstrap_id,
            page_seq,
            cursor,
            next_cursor,
            payload,
            rows,
        },
        FrameKind::BootstrapTombstone { stream_id, bootstrap_id, reason, last_valid_seq, .. } =>
            FrameKind::BootstrapTombstone {
                terminal_id: scope,
                stream_id,
                bootstrap_id,
                reason,
                last_valid_seq,
            },
        FrameKind::HistoryTombstone { stream_id, bootstrap_id, cursor, reason, .. } =>
            FrameKind::HistoryTombstone {
                terminal_id: scope,
                stream_id,
                bootstrap_id,
                cursor,
                reason,
            },
        FrameKind::HistoryRejected {
            stream_id,
            bootstrap_id,
            cursor,
            reason,
            required_bytes,
            required_rows,
            ..
        } => FrameKind::HistoryRejected {
            terminal_id: scope,
            stream_id,
            bootstrap_id,
            cursor,
            reason,
            required_bytes,
            required_rows,
        },
        _ => frame,
    }
}

/// What a stream frame does to the generations.
pub open spec fn flow_step(
    flows: FlowsV,
    negotiated: BootstrapProfile,
    id: u32,
    frame: FrameKind,
) -> Result<FlowsV, RelayFault> {
    match frame {
        FrameKind::TerminalOutput { stream_id, bootstrap_id, .. } => unless(
            flows.ready_fault(
                negotiated,
                id,
                stream_id,
                bootstrap_id,
                BoundFrame::TerminalOutput,
            ),
            flows,
        ),
        FrameKind::BootstrapBegin { stream_id, bootstrap_id, profile, .. } => flows.begin(
            negotiated,
            id,
            stream_id,
            bootstrap_id,
            profile,
        ),
        FrameKind::BootstrapChunk { stream_id, bootstrap_id, chunk_seq, payload, .. } =>
            flows.chunk(id, stream_id, bootstrap_id, chunk_seq, contents(payload).len()),
        FrameKind::BootstrapReady { stream_id, bootstrap_id, .. } => flows.finish(
            id,
            stream_id,
            bootstrap_id,
        ),
        FrameKind::HistoryPage { stream_id, bootstrap_id, .. } => unless(
            flows.ready_fault(negotiated, id, stream_id, bootstrap_id, BoundFrame::HistoryPage),
            flows,
        ),
        FrameKind::BootstrapTombstone { stream_id, bootstrap_id, .. } => unless(
            flows.known_fault(
                negotiated,
                id,
                stream_id,
                bootstrap_id,
                BoundFrame::BootstrapTombstone,
            ),
            flows.retired(id),
        ),
        FrameKind::HistoryTombstone { stream_id, bootstrap_id, .. } => unless(
            flows.ready_fault(
                negotiated,
                id,
                stream_id,
                bootstrap_id,
                BoundFrame::HistoryTombstone,
            ),
            flows,
        ),
        FrameKind::HistoryRejected { stream_id, bootstrap_id, .. } => unless(
            flows.ready_fault(
                negotiated,
                id,
                stream_id,
                bootstrap_id,
                BoundFrame::HistoryRejected,
            ),
            flows,
        ),
        _ => Ok(flows),
    }
}

/// `flows`, unless there is a fault.
pub open spec fn unless(fault: Option<RelayFault>, flows: FlowsV) -> Result<FlowsV, RelayFault> {
    match fault {
        Some(fault) => Err(fault),
        None => Ok(flows),
    }
}

/// Where a frame from the satellite leaves a session.
#[verifier::ext_equal]
pub struct Inbound {
    /// The session.
    pub state: SessionV,
    /// The mailboxes.
    pub boxes: Seq<MailboxV>,
    /// The fault that ends the link, if any.
    pub fault: Option<RelayFault>,
}

/// The request that a frame answers with success or refusal, as far as a
/// stream stop is concerned.
pub open spec fn stop_answer(frame: FrameKind) -> Option<(u32, bool)> {
    match frame {
        FrameKind::CommandResult { request_id, result } => Some((request_id, result is Done)),
        FrameKind::Error { request_id: Some(request_id), .. } => Some((request_id, false)),
        _ => None,
    }
}

impl SessionV {
    /// `frame` answers a stream stop in flight.
    pub open spec fn answers_stop(self, frame: FrameKind) -> bool {
        match stop_answer(frame) {
            Some((id, _)) => self.requests.detaches.contains_key(id),
            None => false,
        }
    }

    /// A stream frame arrives.
    pub open spec fn streamed(self, frame: FrameKind, boxes: Seq<MailboxV>) -> Inbound {
        match stream_scope(frame) {
            Some(TerminalId::Local { id }) => if !(frame is Event) && self.requests.barred(id) {
                Inbound { state: self, boxes, fault: None }
            } else {
                let flows = if self.link.enforce_bootstrap_flow {
                    flow_step(self.flows, self.link.bootstrap_profile, id, frame)
                } else {
                    Ok(self.flows)
                };
                match flows {
                    Err(fault) => Inbound { state: self, boxes, fault: Some(fault) },
                    Ok(flows) => {
                        let walk = fan(
                            self.subs,
                            self.subs.len(),
                            id,
                            retagged(frame, self.link.host, id),
                            self.link.enforce_bootstrap_flow,
                            boxes,
                            total_bytes(self.subs),
                            total_frames(self.subs),
                        );
                        Inbound {
                            state: SessionV { subs: walk.kept, flows, ..self },
                            boxes: walk.boxes,
                            fault: None,
                        }
                    },
                }
            },
            _ => Inbound { state: self, boxes, fault: None },
        }
    }

    /// A frame arrives that goes past every gate.
    pub open spec fn notified(self, id: u32, frame: FrameKind, boxes: Seq<MailboxV>) -> Inbound {
        let (subs, boxes) = fan_past_gates(self.subs, self.subs.len(), id, frame, boxes);
        Inbound { state: SessionV { subs, ..self }, boxes, fault: None }
    }

    /// Terminal `id` is gone, and everything that depended on it.
    pub open spec fn without_terminal(self, id: u32) -> Self {
        SessionV {
            subs: not_observing(self.subs, self.subs.len(), id),
            flows: self.flows.retired(id),
            explicit: self.explicit.remove(id),
            legacy: self.legacy.remove(id),
            ..self
        }
    }

    /// The command `id` is answered with `result`.
    pub open spec fn answered(self, id: u32, result: CommandResult) -> Self {
        if self.requests.commands.contains_key(id) {
            let pending = self.requests.commands[id];
            SessionV {
                requests: RequestsV {
                    commands: self.requests.commands.remove(id),
                    ..self.requests
                },
                subs: match pending.subscription {
                    Some(sub) => if result is Error {
                        rolled_back(self.subs, sub.terminal, sub.client, sub.effect)
                    } else {
                        self.subs
                    },
                    None => self.subs,
                },
                ..self
            }
        } else {
            self
        }
    }

    /// The spawn `id` is answered.
    pub open spec fn spawned(self, id: u32) -> Self {
        SessionV {
            requests: RequestsV { spawns: self.requests.spawns.remove(id), ..self.requests },
            ..self
        }
    }

    /// The read `id` is answered.
    pub open spec fn read(self, id: u32) -> Self {
        SessionV {
            requests: RequestsV { reads: self.requests.reads.remove(id), ..self.requests },
            ..self
        }
    }

    /// A frame arrives from the satellite.
    pub open spec fn inbound(self, frame: FrameKind, boxes: Seq<MailboxV>) -> Inbound {
        if self.answers_stop(frame) {
            let (id, succeeded) = stop_answer(frame)->0;
            let terminal = self.requests.detaches[id].terminal;
            let released = SessionV {
                requests: RequestsV {
                    detaches: self.requests.detaches.remove(id),
                    ..self.requests
                },
                ..self
            };
            if succeeded {
                Inbound {
                    state: SessionV { flows: self.flows.retired(terminal), ..released },
                    boxes,
                    fault: None,
                }
            } else {
                Inbound { state: released, boxes, fault: Some(RelayFault::DetachRefused { terminal }) }
            }
        } else if is_stream(frame) {
            self.streamed(frame, boxes)
        } else {
            match frame {
                FrameKind::CommandResult { request_id, result } => Inbound {
                    state: self.answered(request_id, result),
                    boxes,
                    fault: None,
                },
                FrameKind::TerminalSpawned { request_id, .. } => Inbound {
                    state: self.spawned(request_id),
                    boxes,
                    fault: None,
                },
                FrameKind::Error { request_id: Some(request_id), code, message } => Inbound {
                    state: if self.requests.reads.contains_key(request_id) {
                        self.read(request_id)
                    } else if self.requests.spawns.contains_key(request_id) {
                        self.spawned(request_id)
                    } else {
                        self.answered(request_id, CommandResult::Error { code, message })
                    },
                    boxes,
                    fault: None,
                },
                FrameKind::TerminalClosed { terminal_id, exit_status, reason } => match terminal_id {
                    TerminalId::Local { id } => {
                        let told = self.notified(
                            id,
                            FrameKind::TerminalClosed {
                                terminal_id: TerminalId::Satellite { host: self.link.host, id },
                                exit_status,
                                reason,
                            },
                            boxes,
                        );
                        Inbound { state: told.state.without_terminal(id), ..told }
                    },
                    TerminalId::Satellite { .. } => Inbound { state: self, boxes, fault: None },
                },
                FrameKind::Bell { terminal_id } => match terminal_id {
                    TerminalId::Local { id } => self.notified(
                        id,
                        FrameKind::Bell {
                            terminal_id: TerminalId::Satellite { host: self.link.host, id },
                        },
                        boxes,
                    ),
                    TerminalId::Satellite { .. } => Inbound { state: self, boxes, fault: None },
                },
                _ => Inbound { state: self, boxes, fault: Some(RelayFault::DirectionInvalid) },
            }
        }
    }

    /// `resolved` is who `frame` answers, and with what.
    pub open spec fn resolves(self, frame: FrameKind, resolved: Resolved) -> bool {
        if self.answers_stop(frame) {
            resolved is Nobody
        } else {
            match frame {
                FrameKind::CommandResult { request_id, result } => self.resolves_command(
                    request_id,
                    result,
                    resolved,
                ),
                FrameKind::TerminalSpawned { request_id, result } =>
                    if self.requests.spawns.contains_key(request_id) {
                        match resolved {
                            Resolved::Spawn { reply } => reply.to
                                == self.requests.spawns[request_id] && spawn_relayed(
                                self.link.host,
                                result,
                                reply.result,
                            ),
                            _ => false,
                        }
                    } else {
                        resolved is Nobody
                    },
                FrameKind::Error { request_id: Some(request_id), code, message } =>
                    if self.requests.reads.contains_key(request_id) {
                        resolved is Nobody
                    } else if self.requests.spawns.contains_key(request_id) {
                        match resolved {
                            Resolved::Spawn { reply } => reply.to
                                == self.requests.spawns[request_id] && match reply.result {
                                Err(SpawnError::SpawnFailed(text)) => text@
                                    == "satellite refused the spawn: "@ + code_label(code) + ": "@
                                    + message@,
                                _ => false,
                            },
                            _ => false,
                        }
                    } else {
                        self.resolves_command(
                            request_id,
                            CommandResult::Error { code, message },
                            resolved,
                        )
                    },
                _ => resolved is Nobody,
            }
        }
    }

    /// `resolved` is who waits for command `id`, with `result`.
    pub open spec fn resolves_command(
        self,
        id: u32,
        result: CommandResult,
        resolved: Resolved,
    ) -> bool {
        if self.requests.commands.contains_key(id) {
            match resolved {
                Resolved::Command { reply } => reply.to == self.requests.commands[id].reply
                    && reply.result == result,
                _ => false,
            }
        } else {
            resolved is Nobody
        }
    }
}

/// `relayed` is the satellite's spawn result as its consumer sees it: the new
/// terminal tagged with the satellite, errors unchanged, and a terminal of yet
/// another server refused.
pub open spec fn spawn_relayed(
    host: SatelliteHost,
    result: SpawnResult,
    relayed: SpawnResult,
) -> bool {
    match result {
        Ok(TerminalId::Local { id }) => relayed == Ok::<TerminalId, SpawnError>(
            TerminalId::Satellite { host, id },
        ),
        Ok(TerminalId::Satellite { .. }) => match relayed {
            Err(SpawnError::SpawnFailed(message)) => message@
                == "satellite returned a chained satellite id"@,
            _ => false,
        },
        Err(error) => relayed == Err::<TerminalId, SpawnError>(error),
    }
}

} // verus!
