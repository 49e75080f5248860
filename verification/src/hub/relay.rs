//! The session that a link supervisor drives while its connection is up.

use crate::hub::fault::{BoundFrame, RelayFault};
use crate::hub::flow::{FlowBook, FlowsV};
use crate::hub::gate::{flush_all, SubV};
use crate::hub::registry::{
    departed, orphans, withdrawal, withdrawn, ProxySubscription, Registry,
};
use crate::hub::requests::{
    awaited_commands, awaited_spawns, PendingCommand, PendingDetach, PendingSubscription, ReplyId,
    RequestBook, RequestsV,
};
use crate::hub::session::{
    code_text, flow_step, is_stream, is_unreachable_error, is_unreachable_result,
    is_unreachable_spawn, rejection_text, rejects, retagged, spawn_relayed, stream_scope,
    unreachable_error, unreachable_message, CommandReply, Link, RelayRequest, Resolved,
    SatelliteSpawn, Serviced, SessionV, SpawnReply, Teardown, RELAY_COMMAND_TIMEOUT_MS,
    RELAY_COMMAND_TIMEOUT_SECONDS,
};
use crate::ids::{ClientId, SatelliteHost, TerminalId};
use crate::mailbox::{after_send, MailboxV, Mailboxes, Outbound};
use crate::wire::{
    BootstrapLimits, BootstrapProfile, CloseReason, Command, CommandResult, ErrorCode, FrameKind,
    SpawnError, SpawnResult,
};
use std::collections::HashSet;
use vstd::prelude::*;
use vstd::std_specs::hash::*;
use vstd::string::*;

verus! {

broadcast use vstd::std_specs::hash::group_hash_axioms;

/// One established connection to a satellite.
pub struct RelaySession {
    /// What the link was negotiated to be.
    pub link: Link,
    /// Requests in flight.
    pub requests: RequestBook,
    /// Who observes what.
    pub registry: Registry,
    /// Generations.
    pub flows: FlowBook,
    /// Terminals whose content some consumer asked for since the last stop.
    pub explicit_content: HashSet<u32>,
    /// Terminals with an event subscription that a stop removes.
    pub legacy_events: HashSet<u32>,
    /// Terminals whose records are mirrored.
    pub mirrored: HashSet<u32>,
}

impl View for RelaySession {
    type V = SessionV;

    open spec fn view(&self) -> SessionV {
        SessionV {
            link: self.link,
            requests: self.requests@,
            subs: self.registry.subs(),
            flows: self.flows@,
            explicit: self.explicit_content@,
            legacy: self.legacy_events@,
            mirrored: self.mirrored@,
        }
    }
}

/// A withdrawal of what a consumer observes.
#[derive(Debug, Clone, Copy)]
pub enum Unsubscribe {
    /// Everything that the consumer observes on this link.
    Client(ClientId),
    /// One terminal.
    Terminal {
        /// The consumer.
        client: ClientId,
        /// The satellite's number for the terminal.
        terminal: u32,
        /// Issue order.
        seq: u64,
    },
}

/// The outcome of a withdrawal that someone waits for. The link and the waiter
/// decide it together: whoever comes first settles it.
pub struct WithdrawalReceipt {
    /// The outcome, once settled.
    pub outcome: Option<CommandResult>,
}

/// The text of a withdrawal that was given up.
pub open spec fn withdrawal_cancelled_text(host: Seq<char>) -> Seq<char> {
    "satellite "@ + host
        + " proxy withdrawal cancelled before application after 30s; subscription preserved"@
}

/// `refusal` tells `to` that `sub` is refused on `link`.
pub open spec fn is_rejection(
    refusal: CommandReply,
    to: ReplyId,
    link: Link,
    sub: ProxySubscription,
) -> bool {
    refusal.to == to && match refusal.result {
        CommandResult::Error { code, message } => code == ErrorCode::CodecUnavailable && message@
            == rejection_text(link, sub),
        _ => false,
    }
}

/// The refusal of a withdrawal that a newer registration overtook.
pub open spec fn is_superseded(result: CommandResult) -> bool {
    match result {
        CommandResult::Error { code, message } => code == ErrorCode::InvalidCommand && message@
            == "terminal detach was superseded by a newer attachment"@,
        _ => false,
    }
}

impl WithdrawalReceipt {
    /// An unsettled receipt.
    pub fn new() -> (receipt: Self)
        ensures
            receipt.outcome is None,
    {
        WithdrawalReceipt { outcome: None }
    }

    /// The waiter's time is up: give the withdrawal up unless it was applied,
    /// and learn what stands.
    pub fn expire(&mut self, host: &SatelliteHost) -> (result: CommandResult)
        ensures
            final(self).outcome == Some(result),
            match old(self).outcome {
                Some(settled) => result == settled,
                None => match result {
                    CommandResult::Error { code, message } => code
                        == ErrorCode::SatelliteUnreachable && message@ == withdrawal_cancelled_text(
                        host.name@,
                    ),
                    _ => false,
                },
            },
    {
        if self.outcome.is_none() {
            self.outcome =
            Some(
                CommandResult::Error {
                    code: ErrorCode::SatelliteUnreachable,
                    message: "satellite ".to_owned().concat(host.name.as_str()).concat(
                        " proxy withdrawal cancelled before application after 30s; subscription preserved",
                    ),
                },
            );
        }
        match &self.outcome {
            Some(result) => result.clone(),
            None => CommandResult::Done,
        }
    }
}

impl RelaySession {
    /// The parts are consistent.
    pub open spec fn wf(&self) -> bool {
        self.requests.wf() && self.registry.wf() && self.flows.wf()
    }

    /// A session pinned to the profile that its connection negotiated.
    pub fn new_negotiated(
        host: SatelliteHost,
        bootstrap_limits: BootstrapLimits,
        bootstrap_profile: BootstrapProfile,
    ) -> (session: Self)
        ensures
            session.wf(),
            session.requests.in_flight() == 0,
            session@ == (SessionV {
                link: Link {
                    host,
                    bootstrap_limits,
                    bootstrap_profile,
                    enforce_bootstrap_flow: true,
                },
                requests: RequestsV {
                    next: 1,
                    commands: Map::empty(),
                    spawns: Map::empty(),
                    detaches: Map::empty(),
                    reads: Map::empty(),
                },
                subs: Seq::empty(),
                flows: FlowsV::none(),
                explicit: Set::empty(),
                legacy: Set::empty(),
                mirrored: Set::empty(),
            }),
    {
        RelaySession {
            link: Link {
                host,
                bootstrap_limits,
                bootstrap_profile,
                enforce_bootstrap_flow: true,
            },
            requests: RequestBook::new(),
            registry: Registry::new(),
            flows: FlowBook::new(),
            explicit_content: HashSet::new(),
            legacy_events: HashSet::new(),
            mirrored: HashSet::new(),
        }
    }

    /// A session with synthesized bootstraps that does not check generations
    /// frame by frame.
    pub fn new(host: SatelliteHost, bootstrap_limits: BootstrapLimits) -> (session: Self)
        ensures
            session.wf(),
            session.requests.in_flight() == 0,
            session@ == (SessionV {
                link: Link {
                    host,
                    bootstrap_limits,
                    bootstrap_profile: BootstrapProfile::SynthesizedVtRaw,
                    enforce_bootstrap_flow: false,
                },
                requests: RequestsV {
                    next: 1,
                    commands: Map::empty(),
                    spawns: Map::empty(),
                    detaches: Map::empty(),
                    reads: Map::empty(),
                },
                subs: Seq::empty(),
                flows: FlowsV::none(),
                explicit: Set::empty(),
                legacy: Set::empty(),
                mirrored: Set::empty(),
            }),
    {
        let mut session = RelaySession::new_negotiated(
            host,
            bootstrap_limits,
            BootstrapProfile::SynthesizedVtRaw,
        );
        session.link.enforce_bootstrap_flow = false;
        session
    }

    /// Ask `terminal`'s stream to stop.
    pub fn encode_terminal_detach(&mut self, terminal: u32, now_ms: u64) -> (frame: FrameKind)
        requires
            old(self).wf(),
            old(self).requests.has_room(),
        ensures
            final(self).wf(),
            final(self).requests.in_flight() == old(self).requests.in_flight() + 1,
            final(self)@ == old(self)@.detaching(terminal, now_ms),
            frame == old(self)@.detach_frame(terminal),
    {
        self.explicit_content.remove(&terminal);
        self.legacy_events.remove(&terminal);
        let request_id = self.requests.allocate_request_id();
        self.requests.pending_detaches.insert(
            request_id,
            PendingDetach { terminal, issued_ms: now_ms },
        );
        assert(self@ =~= old(self)@.detaching(terminal, now_ms));
        FrameKind::Command {
            request_id,
            command: Command::DetachTerminal { terminal_id: TerminalId::local(terminal) },
        }
    }

    fn prepare_content_cut(&mut self, terminal: u32, now_ms: u64) -> (frames: Vec<FrameKind>)
        requires
            old(self).wf(),
            old(self).requests.has_room(),
        ensures
            final(self).wf(),
            final(self)@ == old(self)@.cutting(terminal, now_ms),
            frames@ == old(self)@.cut_frames(terminal),
    {
        let restore_events = self.legacy_events.contains(&terminal);
        let mut frames: Vec<FrameKind> = Vec::new();
        frames.push(self.encode_terminal_detach(terminal, now_ms));
        if restore_events {
            self.legacy_events.insert(terminal);
            frames.push(
                FrameKind::SubscribeEvents { terminal: Some(TerminalId::local(terminal)) },
            );
        }
        assert(self@ =~= old(self)@.cutting(terminal, now_ms));
        assert(frames@ =~= old(self)@.cut_frames(terminal));
        frames
    }

    /// What must go out before `request`: a first attach must start after
    /// whatever the link streamed on its own has stopped.
    pub fn prepare_request(&mut self, request: &RelayRequest, now_ms: u64) -> (frames: Vec<
        FrameKind,
    >)
        requires
            old(self).wf(),
            old(self).requests.has_room(),
        ensures
            final(self).wf(),
            match old(self)@.needs_cut(*request) {
                Some(terminal) => final(self)@ == old(self)@.cutting(terminal, now_ms) && frames@
                    == old(self)@.cut_frames(terminal),
                None => final(self)@ == old(self)@ && frames@.len() == 0,
            },
    {
        let sub = match request {
            RelayRequest::Command { command, subscribe, .. } => match command {
                Command::AttachTerminal { .. } => match subscribe {
                    Some(sub) => *sub,
                    None => {
                        return Vec::new();
                    },
                },
                _ => {
                    return Vec::new();
                },
            },
            _ => {
                return Vec::new();
            },
        };
        if self.explicit_content.contains(&sub.terminal) || self.requests.is_barred(sub.terminal)
            || self.link.subscription_rejection(&sub).is_some() {
            return Vec::new();
        }
        self.prepare_content_cut(sub.terminal, now_ms)
    }

    /// Service one request.
    pub fn handle_request_checked(&mut self, request: RelayRequest, mailboxes: &mut Mailboxes) -> (serviced:
        Serviced)
        requires
            old(self).wf(),
            old(self).requests.has_room(),
        ensures
            final(self).wf(),
            final(self)@ == old(self)@.requested(request),
            serviced.wire == old(self)@.wire_of(request),
            match request {
                RelayRequest::Command { reply, subscribe: Some(sub), .. } if rejects(
                    old(self).link,
                    sub,
                ) => {
                    &&& final(mailboxes)@ == old(mailboxes)@
                    &&& serviced.refusal matches Some(refusal) && is_rejection(
                        refusal,
                        reply,
                        old(self).link,
                        sub,
                    )
                },
                RelayRequest::Subscribe { subscription, .. } if rejects(
                    old(self).link,
                    subscription,
                ) => {
                    &&& serviced.refusal is None
                    &&& exists|message: String|
                        #![trigger message@]
                        message@ == rejection_text(old(self).link, subscription)
                            && final(mailboxes)@ == after_send(
                            old(mailboxes)@,
                            subscription.mailbox,
                            Outbound::Frame(
                                FrameKind::Error {
                                    request_id: None,
                                    code: ErrorCode::CodecUnavailable,
                                    message,
                                },
                            ),
                        )
                },
                _ => serviced.refusal is None && final(mailboxes)@ == old(mailboxes)@,
            },
    {
        match request {
            RelayRequest::Command { command, reply, subscribe } => {
                let mut subscription: Option<PendingSubscription> = None;
                if let Some(sub) = subscribe {
                    if let Some((code, message)) = self.link.subscription_rejection(&sub) {
                        return Serviced {
                            wire: None,
                            refusal: Some(
                                CommandReply {
                                    to: reply,
                                    result: CommandResult::Error { code, message },
                                },
                            ),
                        };
                    }
                    if sub.awaits_snapshot {
                        self.explicit_content.insert(sub.terminal);
                    }
                    let effect = self.registry.register_subscriber(sub);
                    subscription =
                    Some(
                        PendingSubscription { terminal: sub.terminal, client: sub.client, effect },
                    );
                }
                let request_id = self.requests.allocate_request_id();
                self.requests.pending.insert(request_id, PendingCommand { reply, subscription });
                assert(self@ =~= old(self)@.requested(request));
                Serviced { wire: Some(FrameKind::Command { request_id, command }), refusal: None }
            },
            RelayRequest::Forward { frame } => Serviced { wire: Some(frame), refusal: None },
            RelayRequest::MirrorTerminal { .. } => Serviced { wire: None, refusal: None },
            RelayRequest::Spawn { spawn, reply } => {
                let request_id = self.requests.allocate_request_id();
                self.requests.pending_spawns.insert(request_id, reply);
                assert(self@ =~= old(self)@.requested(request));
                Serviced {
                    wire: Some(spawn_frame(request_id, spawn)),
                    refusal: None,
                }
            },
            RelayRequest::Subscribe { subscription, forward } => self.subscribe_forward(
                subscription,
                forward,
                mailboxes,
            ),
        }
    }

    fn subscribe_forward(
        &mut self,
        subscription: ProxySubscription,
        forward: FrameKind,
        mailboxes: &mut Mailboxes,
    ) -> (serviced: Serviced)
        requires
            old(self).wf(),
        ensures
            final(self).wf(),
            final(self)@ == old(self)@.requested(
                RelayRequest::Subscribe { subscription, forward },
            ),
            serviced.wire == old(self)@.wire_of(RelayRequest::Subscribe { subscription, forward }),
            serviced.refusal is None,
            if rejects(old(self).link, subscription) {
                exists|message: String|
                    #![trigger message@]
                    message@ == rejection_text(old(self).link, subscription) && final(mailboxes)@
                        == after_send(
                        old(mailboxes)@,
                        subscription.mailbox,
                        Outbound::Frame(
                            FrameKind::Error {
                                request_id: None,
                                code: ErrorCode::CodecUnavailable,
                                message,
                            },
                        ),
                    )
            } else {
                final(mailboxes)@ == old(mailboxes)@
            },
    {
        if let Some((code, message)) = self.link.subscription_rejection(&subscription) {
            assert(message@ == rejection_text(self.link, subscription));
            mailboxes.try_send(
                subscription.mailbox,
                Outbound::Frame(FrameKind::Error { request_id: None, code, message }),
            );
            return Serviced { wire: None, refusal: None };
        }
        if let FrameKind::SubscribeEvents { terminal } = &forward {
            if let Some(TerminalId::Local { id }) = terminal {
                self.legacy_events.insert(*id);
            }
        }
        self.registry.register_subscriber(subscription);
        assert(self@ =~= old(self)@.requested(RelayRequest::Subscribe { subscription, forward }));
        Serviced { wire: Some(forward), refusal: None }
    }

    fn encode_withdrawals(&mut self, orphaned: Vec<u32>, now_ms: u64) -> (frames: Vec<FrameKind>)
        requires
            old(self).wf(),
            old(self).requests.in_flight() + orphaned@.len() < u32::MAX,
        ensures
            final(self).wf(),
            final(self)@ == old(self)@.detaching_all(orphaned@, orphaned@.len(), now_ms),
            frames@ == old(self)@.detach_frames(orphaned@, orphaned@.len(), now_ms),
    {
        let mut frames: Vec<FrameKind> = Vec::new();
        let mut i: usize = 0;
        while i < orphaned.len()
            invariant
                self.wf(),
                i <= orphaned@.len(),
                self.requests.in_flight() == old(self).requests.in_flight() + i,
                old(self).requests.in_flight() + orphaned@.len() < u32::MAX,
                self@ == old(self)@.detaching_all(orphaned@, i as nat, now_ms),
                frames@ == old(self)@.detach_frames(orphaned@, i as nat, now_ms),
            decreases orphaned@.len() - i,
        {
            frames.push(self.encode_terminal_detach(orphaned[i], now_ms));
            i += 1;
        }
        frames
    }

    fn apply_terminal_withdrawal(
        &mut self,
        client: ClientId,
        terminal: u32,
        seq: u64,
        now_ms: u64,
    ) -> (applied: (CommandResult, Vec<FrameKind>))
        requires
            old(self).wf(),
            old(self).requests.in_flight() + 1 < u32::MAX,
        ensures
            final(self).wf(),
            ({
                let remaining = SessionV {
                    subs: withdrawn(old(self)@.subs, terminal, client, seq),
                    ..old(self)@
                };
                match withdrawal(old(self)@.subs, terminal, client, seq) {
                    Err(_) => is_superseded(applied.0) && final(self)@ == remaining
                        && applied.1@.len() == 0,
                    Ok(None) => applied.0 is Done && final(self)@ == remaining
                        && applied.1@.len() == 0,
                    Ok(Some(orphan)) => applied.0 is Done && final(self)@ == remaining.detaching(
                        orphan,
                        now_ms,
                    ) && applied.1@ == seq![remaining.detach_frame(orphan)],
                }
            }),
    {
        let ghost remaining = SessionV {
            subs: withdrawn(old(self)@.subs, terminal, client, seq),
            ..old(self)@
        };
        match self.registry.withdraw_terminal(client, terminal, seq) {
            Ok(orphaned) => {
                assert(self@ =~= remaining);
                let mut frames: Vec<FrameKind> = Vec::new();
                if let Some(orphan) = orphaned {
                    frames.push(self.encode_terminal_detach(orphan, now_ms));
                    assert(frames@ =~= seq![remaining.detach_frame(orphan)]);
                }
                (CommandResult::Done, frames)
            },
            Err(_) => {
                assert(self@ =~= remaining);
                (
                    CommandResult::Error {
                        code: ErrorCode::InvalidCommand,
                        message: "terminal detach was superseded by a newer attachment".to_owned(),
                    },
                    Vec::new(),
                )
            },
        }
    }

    /// Withdraw what a consumer observes, without anyone waiting for it; the
    /// frames that stop streams nobody observes any more.
    pub fn handle_unsubscribe(&mut self, unsubscribe: Unsubscribe, now_ms: u64) -> (frames: Vec<
        FrameKind,
    >)
        requires
            old(self).wf(),
            old(self).requests.in_flight() + old(self)@.subs.len() + 1 < u32::MAX,
        ensures
            final(self).wf(),
            match unsubscribe {
                Unsubscribe::Client(client) => {
                    let remaining = SessionV {
                        subs: departed(old(self)@.subs, client),
                        ..old(self)@
                    };
                    let orphaned = orphans(old(self)@.subs, client);
                    &&& final(self)@ == remaining.detaching_all(orphaned, orphaned.len(), now_ms)
                    &&& frames@ == remaining.detach_frames(orphaned, orphaned.len(), now_ms)
                },
                Unsubscribe::Terminal { client, terminal, seq } => {
                    let remaining = SessionV {
                        subs: withdrawn(old(self)@.subs, terminal, client, seq),
                        ..old(self)@
                    };
                    match withdrawal(old(self)@.subs, terminal, client, seq) {
                        Ok(Some(orphan)) => final(self)@ == remaining.detaching(orphan, now_ms)
                            && frames@ == seq![remaining.detach_frame(orphan)],
                        _ => final(self)@ == remaining && frames@.len() == 0,
                    }
                },
            },
    {
        match unsubscribe {
            Unsubscribe::Client(client) => {
                let orphaned = self.registry.withdraw_client(client);
                proof {
                    lemma_orphans_are_few(old(self)@.subs, client);
                    assert(self@ =~= (SessionV {
                        subs: departed(old(self)@.subs, client),
                        ..old(self)@
                    }));
                }
                self.encode_withdrawals(orphaned, now_ms)
            },
            Unsubscribe::Terminal { client, terminal, seq } => {
                let (_, frames) = self.apply_terminal_withdrawal(client, terminal, seq, now_ms);
                frames
            },
        }
    }

    /// Withdraw one terminal while someone waits for the outcome. A withdrawal
    /// that was given up is not applied.
    pub fn handle_awaited_unsubscribe(
        &mut self,
        client: ClientId,
        terminal: u32,
        seq: u64,
        receipt: &mut WithdrawalReceipt,
        now_ms: u64,
    ) -> (frames: Vec<FrameKind>)
        requires
            old(self).wf(),
            old(self).requests.in_flight() + 1 < u32::MAX,
        ensures
            final(self).wf(),
            match old(receipt).outcome {
                Some(_) => final(self)@ == old(self)@ && frames@.len() == 0 && *final(receipt)
                    == *old(receipt),
                None => {
                    let remaining = SessionV {
                        subs: withdrawn(old(self)@.subs, terminal, client, seq),
                        ..old(self)@
                    };
                    &&& final(receipt).outcome matches Some(result) && match withdrawal(
                        old(self)@.subs,
                        terminal,
                        client,
                        seq,
                    ) {
                        Err(_) => is_superseded(result) && final(self)@ == remaining
                            && frames@.len() == 0,
                        Ok(None) => result is Done && final(self)@ == remaining && frames@.len()
                            == 0,
                        Ok(Some(orphan)) => result is Done && final(self)@ == remaining.detaching(
                            orphan,
                            now_ms,
                        ) && frames@ == seq![remaining.detach_frame(orphan)],
                    }
                },
            },
    {
        if receipt.outcome.is_some() {
            return Vec::new();
        }
        let (result, frames) = self.apply_terminal_withdrawal(client, terminal, seq, now_ms);
        receipt.outcome = Some(result);
        frames
    }
}

proof fn lemma_orphans_are_few(subs: Seq<SubV>, client: ClientId)
    ensures
        orphans(subs, client).len() <= subs.len(),
{
    lemma_terminals_are_few(subs, subs.len(), client);
    let terminals = crate::hub::registry::terminals_of(subs, subs.len(), client);
    lemma_unobserved_are_few(terminals, terminals.len(), departed(subs, client));
}

proof fn lemma_terminals_are_few(subs: Seq<SubV>, n: nat, client: ClientId)
    ensures
        crate::hub::registry::terminals_of(subs, n, client).len() <= n,
    decreases n,
{
    if n > 0 && n <= subs.len() {
        lemma_terminals_are_few(subs, (n - 1) as nat, client);
    }
}

proof fn lemma_unobserved_are_few(terminals: Seq<u32>, n: nat, subs: Seq<SubV>)
    ensures
        crate::hub::registry::unobserved(terminals, n, subs).len() <= n,
    decreases n,
{
    if n > 0 && n <= terminals.len() {
        lemma_unobserved_are_few(terminals, (n - 1) as nat, subs);
    }
}

fn spawn_frame(request_id: u32, spawn: SatelliteSpawn) -> (frame: FrameKind)
    ensures
        frame == (FrameKind::SpawnTerminal {
            request_id,
            group: spawn.group,
            command: spawn.command,
            cwd: spawn.cwd,
            env: spawn.env,
            term: spawn.term,
            satellite: None,
            owner_terminal: match spawn.owner_terminal {
                Some(id) => Some(TerminalId::Local { id }),
                None => None,
            },
            agent_session: None,
            initial_size: spawn.initial_size,
            resource: spawn.resource,
        }),
{
    FrameKind::SpawnTerminal {
        request_id,
        group: spawn.group,
        command: spawn.command,
        cwd: spawn.cwd,
        env: spawn.env,
        term: spawn.term,
        satellite: None,
        owner_terminal: match spawn.owner_terminal {
            Some(id) => Some(TerminalId::local(id)),
            None => None,
        },
        agent_session: None,
        initial_size: spawn.initial_size,
        resource: spawn.resource,
    }
}

// ---- frames from the satellite ----------------------------------------------

/// The satellite's number for an id that the satellite itself sent. Unscoped
/// frames have none, and neither have ids of yet another server: satellites do
/// not chain.
fn local_scope(terminal: &Option<TerminalId>) -> (id: Option<u32>)
    ensures
        id == (match *terminal {
            Some(TerminalId::Local { id }) => Some(id),
            _ => None,
        }),
{
    match terminal {
        Some(TerminalId::Local { id }) => Some(*id),
        _ => None,
    }
}

/// The terminal that a stream frame is about.
fn stream_frame_scope(frame: &FrameKind) -> (scope: Option<TerminalId>)
    ensures
        scope == stream_scope(*frame),
{
    match frame {
        FrameKind::Event { terminal, .. } => match terminal {
            Some(id) => Some(id.clone()),
            None => None,
        },
        FrameKind::TerminalOutput { terminal_id, .. } => Some(terminal_id.clone()),
        FrameKind::BootstrapBegin { terminal_id, .. } => Some(terminal_id.clone()),
        FrameKind::BootstrapChunk { terminal_id, .. } => Some(terminal_id.clone()),
        FrameKind::BootstrapReady { terminal_id, .. } => Some(terminal_id.clone()),
        FrameKind::HistoryPage { terminal_id, .. } => Some(terminal_id.clone()),
        FrameKind::BootstrapTombstone { terminal_id, .. } => Some(terminal_id.clone()),
        FrameKind::HistoryTombstone { terminal_id, .. } => Some(terminal_id.clone()),
        FrameKind::HistoryRejected { terminal_id, .. } => Some(terminal_id.clone()),
        _ => None,
    }
}

/// Tag a stream frame's terminal with the satellite that owns it; every other
/// field stays as it is.
pub fn retag_stream_frame(host: &SatelliteHost, frame: FrameKind, id: u32) -> (tagged: FrameKind)
    ensures
        tagged == retagged(frame, *host, id),
{
    let scope = TerminalId::satellite(host.clone(), id);
    let mut frame = frame;
    match &mut frame {
        FrameKind::Event { terminal, .. } => {
            *terminal = Some(scope);
        },
        FrameKind::TerminalOutput { terminal_id, .. } => {
            *terminal_id = scope;
        },
        FrameKind::BootstrapBegin { terminal_id, .. } => {
            *terminal_id = scope;
        },
        FrameKind::BootstrapChunk { terminal_id, .. } => {
            *terminal_id = scope;
        },
        FrameKind::BootstrapReady { terminal_id, .. } => {
            *terminal_id = scope;
        },
        FrameKind::HistoryPage { terminal_id, .. } => {
            *terminal_id = scope;
        },
        FrameKind::BootstrapTombstone { terminal_id, .. } => {
            *terminal_id = scope;
        },
        FrameKind::HistoryTombstone { terminal_id, .. } => {
            *terminal_id = scope;
        },
        FrameKind::HistoryRejected { terminal_id, .. } => {
            *terminal_id = scope;
        },
        _ => {},
    }
    frame
}

impl RelaySession {
    /// What a stream frame does to the generations.
    fn enforce_stream_frame_flow(&mut self, id: u32, frame: &FrameKind) -> (outcome: Result<
        (),
        RelayFault,
    >)
        requires
            old(self).wf(),
        ensures
            final(self).wf(),
            match flow_step(old(self)@.flows, old(self).link.bootstrap_profile, id, *frame) {
                Ok(flows) => outcome is Ok && final(self)@ == (SessionV { flows, ..old(self)@ }),
                Err(fault) => outcome == Err::<(), _>(fault) && final(self)@ == old(self)@,
            },
    {
        let negotiated = self.link.bootstrap_profile;
        match frame {
            FrameKind::TerminalOutput { stream_id, bootstrap_id, .. } =>
                self.flows.validate_ready_identity(
                negotiated,
                id,
                *stream_id,
                *bootstrap_id,
                BoundFrame::TerminalOutput,
            ),
            FrameKind::BootstrapBegin { stream_id, bootstrap_id, profile, .. } =>
                self.flows.begin_bootstrap_flow(
                negotiated,
                id,
                *stream_id,
                *bootstrap_id,
                *profile,
            ),
            FrameKind::BootstrapChunk { stream_id, bootstrap_id, chunk_seq, payload, .. } =>
                self.flows.accept_bootstrap_chunk(
                id,
                *stream_id,
                *bootstrap_id,
                *chunk_seq,
                payload.len(),
            ),
            FrameKind::BootstrapReady { stream_id, bootstrap_id, .. } =>
                self.flows.finish_bootstrap_flow(id, *stream_id, *bootstrap_id),
            FrameKind::HistoryPage { stream_id, bootstrap_id, .. } =>
                self.flows.validate_ready_identity(
                negotiated,
                id,
                *stream_id,
                *bootstrap_id,
                BoundFrame::HistoryPage,
            ),
            FrameKind::BootstrapTombstone { stream_id, bootstrap_id, .. } => {
                match self.flows.validate_known_identity(
                    negotiated,
                    id,
                    *stream_id,
                    *bootstrap_id,
                    BoundFrame::BootstrapTombstone,
                ) {
                    Ok(()) => {
                        self.flows.retire_bootstrap_flow(id);
                        Ok(())
                    },
                    Err(fault) => Err(fault),
                }
            },
            FrameKind::HistoryTombstone { stream_id, bootstrap_id, .. } =>
                self.flows.validate_ready_identity(
                negotiated,
                id,
                *stream_id,
                *bootstrap_id,
                BoundFrame::HistoryTombstone,
            ),
            FrameKind::HistoryRejected { stream_id, bootstrap_id, .. } =>
                self.flows.validate_ready_identity(
                negotiated,
                id,
                *stream_id,
                *bootstrap_id,
                BoundFrame::HistoryRejected,
            ),
            _ => Ok(()),
        }
    }

    /// Pass one stream frame on: old output behind a stop is dropped, the
    /// generations are kept in step, and the frame is tagged and fanned out.
    fn relay_stream_frame(&mut self, frame: FrameKind, mailboxes: &mut Mailboxes) -> (outcome:
        Result<(), RelayFault>)
        requires
            old(self).wf(),
            is_stream(frame),
        ensures
            final(self).wf(),
            ({
                let step = old(self)@.streamed(frame, old(mailboxes)@);
                &&& final(self)@ == step.state
                &&& final(mailboxes)@ == step.boxes
                &&& outcome == (match step.fault {
                    Some(fault) => Err(fault),
                    None => Ok(()),
                })
            }),
    {
        let id = match local_scope(&stream_frame_scope(&frame)) {
            Some(id) => id,
            None => {
                return Ok(());
            },
        };
        let is_event = match &frame {
            FrameKind::Event { .. } => true,
            _ => false,
        };
        if !is_event && self.requests.is_barred(id) {
            return Ok(());
        }
        if self.link.enforce_bootstrap_flow {
            match self.enforce_stream_frame_flow(id, &frame) {
                Ok(()) => {},
                Err(fault) => {
                    return Err(fault);
                },
            }
        }
        let tagged = retag_stream_frame(&self.link.host, frame, id);
        let enforce = self.link.enforce_bootstrap_flow;
        self.registry.fan_out(id, &tagged, enforce, mailboxes);
        assert(self@ =~= old(self)@.streamed(frame, old(mailboxes)@).state);
        Ok(())
    }

    /// The satellite confirms or refuses a stream stop. Whether the frame was
    /// that, or the fault of a refusal: what follows a refused stop cannot be
    /// told from what precedes it.
    fn resolve_detach_reply(&mut self, frame: &FrameKind) -> (outcome: Result<bool, RelayFault>)
        requires
            old(self).wf(),
        ensures
            final(self).wf(),
            if old(self)@.answers_stop(*frame) {
                let step = old(self)@.inbound(*frame, Seq::empty());
                &&& final(self)@ == step.state
                &&& outcome == (match step.fault {
                    Some(fault) => Err(fault),
                    None => Ok(true),
                })
            } else {
                final(self)@ == old(self)@ && outcome == Ok::<_, RelayFault>(false)
            },
    {
        let (request_id, succeeded) = match frame {
            FrameKind::CommandResult { request_id, result } => (
                *request_id,
                match result {
                    CommandResult::Done => true,
                    _ => false,
                },
            ),
            FrameKind::Error { request_id, .. } => match request_id {
                Some(request_id) => (*request_id, false),
                None => {
                    return Ok(false);
                },
            },
            _ => {
                return Ok(false);
            },
        };
        match self.requests.pending_detaches.remove(request_id) {
            Some(pending) => {
                let terminal = pending.terminal;
                if !succeeded {
                    assert(self@ =~= old(self)@.inbound(*frame, Seq::empty()).state);
                    return Err(RelayFault::DetachRefused { terminal });
                }
                self.flows.retire_bootstrap_flow(terminal);
                assert(self@ =~= old(self)@.inbound(*frame, Seq::empty()).state);
                Ok(true)
            },
            None => {
                assert(self@ =~= old(self)@);
                Ok(false)
            },
        }
    }

    fn resolve_pending(&mut self, request_id: u32, result: CommandResult) -> (resolved: Resolved)
        requires
            old(self).wf(),
        ensures
            final(self).wf(),
            final(self)@ == old(self)@.answered(request_id, result),
            old(self)@.resolves_command(request_id, result, resolved),
    {
        match self.requests.pending.remove(request_id) {
            Some(pending) => {
                let refused = match &result {
                    CommandResult::Error { .. } => true,
                    _ => false,
                };
                if refused {
                    if let Some(sub) = pending.subscription {
                        self.registry.roll_back_subscription(sub.terminal, sub.client, sub.effect);
                    }
                }
                assert(self@ =~= old(self)@.answered(request_id, result));
                Resolved::Command { reply: CommandReply { to: pending.reply, result } }
            },
            None => {
                assert(self@ =~= old(self)@);
                Resolved::Nobody
            },
        }
    }

    fn resolve_pending_spawn(&mut self, request_id: u32, result: SpawnResult) -> (resolved: Resolved)
        requires
            old(self).wf(),
        ensures
            final(self).wf(),
            final(self)@ == old(self)@.spawned(request_id),
            if old(self)@.requests.spawns.contains_key(request_id) {
                resolved matches Resolved::Spawn { reply } && reply.to == old(
                    self,
                )@.requests.spawns[request_id] && spawn_relayed(
                    old(self).link.host,
                    result,
                    reply.result,
                )
            } else {
                resolved is Nobody
            },
    {
        match self.requests.pending_spawns.remove(request_id) {
            Some(reply) => {
                assert(self@ =~= old(self)@.spawned(request_id));
                let relayed = match result {
                    Ok(terminal) => match terminal {
                        TerminalId::Local { id } => Ok(
                            TerminalId::satellite(self.link.host.clone(), id),
                        ),
                        TerminalId::Satellite { .. } => Err(
                            SpawnError::SpawnFailed(
                                "satellite returned a chained satellite id".to_owned(),
                            ),
                        ),
                    },
                    Err(error) => Err(error),
                };
                Resolved::Spawn { reply: SpawnReply { to: reply, result: relayed } }
            },
            None => {
                assert(self@ =~= old(self)@.spawned(request_id));
                Resolved::Nobody
            },
        }
    }

    /// A satellite may answer a spawn or a read with a plain correlated error.
    fn resolve_correlated_error(&mut self, request_id: u32, code: ErrorCode, message: String) -> (resolved:
        Resolved)
        requires
            old(self).wf(),
        ensures
            final(self).wf(),
            final(self)@ == (if old(self)@.requests.reads.contains_key(request_id) {
                old(self)@.read(request_id)
            } else if old(self)@.requests.spawns.contains_key(request_id) {
                old(self)@.spawned(request_id)
            } else {
                old(self)@.answered(request_id, CommandResult::Error { code, message })
            }),
            !old(self)@.answers_stop(
                FrameKind::Error { request_id: Some(request_id), code, message },
            ) ==> old(self)@.resolves(
                FrameKind::Error { request_id: Some(request_id), code, message },
                resolved,
            ),
    {
        if self.requests.pending_reads.contains(request_id) {
            self.requests.pending_reads.remove(request_id);
            assert(self@ =~= old(self)@.read(request_id));
            Resolved::Nobody
        } else if self.requests.pending_spawns.contains(request_id) {
            let text = "satellite refused the spawn: ".to_owned().concat(
                code_text(code).as_str(),
            ).concat(": ").concat(message.as_str());
            self.resolve_pending_spawn(request_id, Err(SpawnError::SpawnFailed(text)))
        } else {
            self.resolve_pending(request_id, CommandResult::Error { code, message })
        }
    }

    /// A terminal is gone: tell whoever observes it, past every gate, and
    /// forget it.
    fn relay_terminal_closed(
        &mut self,
        terminal_id: TerminalId,
        exit_status: Option<i32>,
        reason: CloseReason,
        mailboxes: &mut Mailboxes,
    )
        requires
            old(self).wf(),
        ensures
            final(self).wf(),
            ({
                let step = old(self)@.inbound(
                    FrameKind::TerminalClosed { terminal_id, exit_status, reason },
                    old(mailboxes)@,
                );
                final(self)@ == step.state && final(mailboxes)@ == step.boxes
            }),
    {
        let id = match &terminal_id {
            TerminalId::Local { id } => *id,
            TerminalId::Satellite { .. } => {
                return;
            },
        };
        let frame = FrameKind::TerminalClosed {
            terminal_id: TerminalId::satellite(self.link.host.clone(), id),
            exit_status,
            reason,
        };
        self.registry.fan_out_ungated(id, &frame, mailboxes);
        self.registry.drop_terminal(id);
        self.flows.retire_bootstrap_flow(id);
        self.explicit_content.remove(&id);
        self.legacy_events.remove(&id);
        assert(self@ =~= old(self)@.inbound(
            FrameKind::TerminalClosed { terminal_id, exit_status, reason },
            old(mailboxes)@,
        ).state);
    }

    /// A terminal rang: tell whoever observes it, past every gate.
    fn relay_bell(&mut self, terminal_id: TerminalId, mailboxes: &mut Mailboxes)
        requires
            old(self).wf(),
        ensures
            final(self).wf(),
            ({
                let step = old(self)@.inbound(FrameKind::Bell { terminal_id }, old(mailboxes)@);
                final(self)@ == step.state && final(mailboxes)@ == step.boxes
            }),
    {
        let id = match &terminal_id {
            TerminalId::Local { id } => *id,
            TerminalId::Satellite { .. } => {
                return;
            },
        };
        let frame = FrameKind::Bell {
            terminal_id: TerminalId::satellite(self.link.host.clone(), id),
        };
        self.registry.fan_out_ungated(id, &frame, mailboxes);
        assert(self@ =~= old(self)@.inbound(
            FrameKind::Bell { terminal_id },
            old(mailboxes)@,
        ).state);
    }

    /// Take one frame from the satellite.
    pub fn handle_inbound(&mut self, frame: FrameKind, mailboxes: &mut Mailboxes) -> (outcome:
        Result<Resolved, RelayFault>)
        requires
            old(self).wf(),
        ensures
            final(self).wf(),
            ({
                let step = old(self)@.inbound(frame, old(mailboxes)@);
                &&& final(self)@ == step.state
                &&& final(mailboxes)@ == step.boxes
                &&& match step.fault {
                    Some(fault) => outcome == Err::<Resolved, _>(fault),
                    None => outcome matches Ok(resolved) && old(self)@.resolves(frame, resolved),
                }
            }),
    {
        match self.resolve_detach_reply(&frame) {
            Ok(answered) => {
                if answered {
                    return Ok(Resolved::Nobody);
                }
            },
            Err(fault) => {
                return Err(fault);
            },
        }
        let streams = match &frame {
            FrameKind::Event { .. } => true,
            FrameKind::TerminalOutput { .. } => true,
            FrameKind::BootstrapBegin { .. } => true,
            FrameKind::BootstrapChunk { .. } => true,
            FrameKind::BootstrapReady { .. } => true,
            FrameKind::HistoryPage { .. } => true,
            FrameKind::BootstrapTombstone { .. } => true,
            FrameKind::HistoryTombstone { .. } => true,
            FrameKind::HistoryRejected { .. } => true,
            _ => false,
        };
        if streams {
            return match self.relay_stream_frame(frame, mailboxes) {
                Ok(()) => Ok(Resolved::Nobody),
                Err(fault) => Err(fault),
            };
        }
        match frame {
            FrameKind::CommandResult { request_id, result } => Ok(
                self.resolve_pending(request_id, result),
            ),
            FrameKind::TerminalSpawned { request_id, result } => Ok(
                self.resolve_pending_spawn(request_id, result),
            ),
            FrameKind::Error { request_id, code, message } => match request_id {
                Some(request_id) => Ok(self.resolve_correlated_error(request_id, code, message)),
                None => Err(RelayFault::DirectionInvalid),
            },
            FrameKind::TerminalClosed { terminal_id, exit_status, reason } => {
                self.relay_terminal_closed(terminal_id, exit_status, reason, mailboxes);
                Ok(Resolved::Nobody)
            },
            FrameKind::Bell { terminal_id } => {
                self.relay_bell(terminal_id, mailboxes);
                Ok(Resolved::Nobody)
            },
            _ => Err(RelayFault::DirectionInvalid),
        }
    }
}

// ---- the end of a connection ------------------------------------------------

/// The consumers among the first `n` of `subs`, each once.
pub open spec fn consumers(subs: Seq<SubV>, n: nat) -> Seq<ClientId>
    decreases n,
{
    if n == 0 || n > subs.len() {
        Seq::empty()
    } else {
        let before = consumers(subs, (n - 1) as nat);
        if before.contains(subs[n - 1].client) {
            before
        } else {
            before.push(subs[n - 1].client)
        }
    }
}

/// The mailboxes once each consumer among the first `n` of `subs` was sent
/// `frame`, at the first mailbox it observes with.
pub open spec fn told_once(
    subs: Seq<SubV>,
    n: nat,
    frame: FrameKind,
    boxes: Seq<MailboxV>,
) -> Seq<MailboxV>
    decreases n,
{
    if n == 0 || n > subs.len() {
        boxes
    } else {
        let before = told_once(subs, (n - 1) as nat, frame, boxes);
        if consumers(subs, (n - 1) as nat).contains(subs[n - 1].client) {
            before
        } else {
            after_send(before, subs[n - 1].mailbox, Outbound::Frame(frame))
        }
    }
}

/// When a connection ends, every consumer that observed anything is told, and
/// none is told twice.
pub proof fn law_each_consumer_is_told_once(subs: Seq<SubV>, n: nat)
    requires
        n <= subs.len(),
    ensures
        consumers(subs, n).no_duplicates(),
        forall|i: int| 0 <= i < n ==> consumers(subs, n).contains((#[trigger] subs[i]).client),
        forall|k: int|
            0 <= k < consumers(subs, n).len() ==> exists|i: int|
                0 <= i < n && (#[trigger] subs[i]).client == #[trigger] consumers(subs, n)[k],
    decreases n,
{
    if n > 0 {
        let m = (n - 1) as nat;
        law_each_consumer_is_told_once(subs, m);
        let before = consumers(subs, m);
        let after = consumers(subs, n);
        assert forall|i: int| 0 <= i < n implies after.contains((#[trigger] subs[i]).client) by {
            if i < m {
                assert(before.contains(subs[i].client));
                let k = choose|k: int| 0 <= k < before.len() && before[k] == subs[i].client;
                assert(after[k] == subs[i].client);
            } else if !before.contains(subs[i].client) {
                assert(after[before.len() as int] == subs[i].client);
            }
        }
        assert forall|k: int| 0 <= k < after.len() implies exists|i: int|
            0 <= i < n && (#[trigger] subs[i]).client == #[trigger] after[k] by {
            if k < before.len() {
                assert(after[k] == before[k]);
                let i = choose|i: int| 0 <= i < m && (#[trigger] subs[i]).client == before[k];
                assert(subs[i].client == after[k]);
            } else {
                assert(subs[m as int].client == after[k]);
            }
        }
    }
}

fn was_told(told: &Vec<ClientId>, client: ClientId) -> (found: bool)
    ensures
        found == told@.contains(client),
{
    let mut i: usize = 0;
    while i < told.len()
        invariant
            i <= told@.len(),
            forall|j: int| 0 <= j < i ==> #[trigger] told@[j] != client,
        decreases told@.len() - i,
    {
        if told[i] == client {
            return true;
        }
        i += 1;
    }
    false
}

impl RelaySession {
    /// The connection ended: answer everyone who waits, tell everyone who
    /// observes, and forget everything about the satellite's terminals.
    pub fn teardown(&mut self, why: &str, mailboxes: &mut Mailboxes) -> (teardown: Teardown)
        requires
            old(self).wf(),
        ensures
            final(self).wf(),
            final(self)@ == (SessionV {
                link: old(self).link,
                requests: RequestsV {
                    next: old(self)@.requests.next,
                    commands: Map::empty(),
                    spawns: Map::empty(),
                    detaches: Map::empty(),
                    reads: Map::empty(),
                },
                subs: Seq::empty(),
                flows: FlowsV::none(),
                explicit: Set::empty(),
                legacy: Set::empty(),
                mirrored: Set::empty(),
            }),
            teardown.commands@.len() == old(self).requests.pending.entries@.len(),
            forall|i: int|
                0 <= i < teardown.commands@.len() ==> (#[trigger] teardown.commands@[i]).to == old(
                    self,
                ).requests.pending.entries@[i].1.reply && is_unreachable_result(
                    teardown.commands@[i].result,
                    old(self).link.host.name@,
                    why@,
                ),
            teardown.spawns@.len() == old(self).requests.pending_spawns.entries@.len(),
            forall|i: int|
                0 <= i < teardown.spawns@.len() ==> (#[trigger] teardown.spawns@[i]).to == old(
                    self,
                ).requests.pending_spawns.entries@[i].1 && is_unreachable_spawn(
                    teardown.spawns@[i].result,
                    old(self).link.host.name@,
                    why@,
                ),
            exists|error: FrameKind| #[trigger]
                is_unreachable_error(error, old(self).link.host.name@, why@) && final(mailboxes)@
                    == told_once(old(self)@.subs, old(self)@.subs.len(), error, old(mailboxes)@),
    {
        let mut commands: Vec<CommandReply> = Vec::new();
        let mut i: usize = 0;
        while i < self.requests.pending.entries.len()
            invariant
                *self == *old(self),
                i <= self.requests.pending.entries@.len(),
                commands@.len() == i,
                forall|j: int|
                    0 <= j < i ==> (#[trigger] commands@[j]).to
                        == self.requests.pending.entries@[j].1.reply && is_unreachable_result(
                        commands@[j].result,
                        self.link.host.name@,
                        why@,
                    ),
            decreases self.requests.pending.entries@.len() - i,
        {
            commands.push(
                CommandReply {
                    to: self.requests.pending.entries[i].1.reply,
                    result: CommandResult::Error {
                        code: ErrorCode::SatelliteUnreachable,
                        message: unreachable_message(&self.link.host, why),
                    },
                },
            );
            i += 1;
        }
        let mut spawns: Vec<SpawnReply> = Vec::new();
        let mut k: usize = 0;
        while k < self.requests.pending_spawns.entries.len()
            invariant
                *self == *old(self),
                k <= self.requests.pending_spawns.entries@.len(),
                spawns@.len() == k,
                forall|j: int|
                    0 <= j < k ==> (#[trigger] spawns@[j]).to
                        == self.requests.pending_spawns.entries@[j].1 && is_unreachable_spawn(
                        spawns@[j].result,
                        self.link.host.name@,
                        why@,
                    ),
            decreases self.requests.pending_spawns.entries@.len() - k,
        {
            spawns.push(
                SpawnReply {
                    to: self.requests.pending_spawns.entries[k].1,
                    result: Err(
                        SpawnError::SatelliteUnreachable(
                            unreachable_message(&self.link.host, why),
                        ),
                    ),
                },
            );
            k += 1;
        }
        let error = unreachable_error(&self.link.host, why);
        let ghost subs = self.registry.subs();
        let ghost boxes = mailboxes@;
        let mut told: Vec<ClientId> = Vec::new();
        let mut n: usize = 0;
        while n < self.registry.subscribers.len()
            invariant
                *self == *old(self),
                subs == self.registry.subs(),
                error.copies_exactly(),
                n <= subs.len(),
                told@ == consumers(subs, n as nat),
                mailboxes@ == told_once(subs, n as nat, error, boxes),
            decreases subs.len() - n,
        {
            let client = self.registry.subscribers[n].client;
            let mailbox = self.registry.subscribers[n].mailbox;
            assert(subs[n as int] == self.registry.subscribers@[n as int]@);
            if !was_told(&told, client) {
                told.push(client);
                mailboxes.try_send(mailbox, Outbound::Frame(error.clone()));
            }
            n += 1;
        }
        self.requests.pending.clear();
        self.requests.pending_spawns.clear();
        self.requests.pending_detaches.clear();
        self.requests.pending_reads.clear();
        self.registry.clear();
        self.flows.clear();
        self.explicit_content.clear();
        self.legacy_events.clear();
        self.mirrored.clear();
        assert(is_unreachable_error(error, self.link.host.name@, why@));
        Teardown { commands, spawns }
    }

    /// Drop commands and spawns whose consumer, one of `gone`, stopped waiting;
    /// how many went.
    pub fn prune_abandoned(&mut self, gone: &Vec<ReplyId>) -> (pruned: usize)
        requires
            old(self).wf(),
            old(self).requests.in_flight() <= usize::MAX,
        ensures
            final(self).wf(),
            final(self).requests.pending.entries@ == awaited_commands(
                old(self).requests.pending.entries@,
                old(self).requests.pending.entries@.len(),
                gone@,
            ),
            final(self).requests.pending_spawns.entries@ == awaited_spawns(
                old(self).requests.pending_spawns.entries@,
                old(self).requests.pending_spawns.entries@.len(),
                gone@,
            ),
            final(self)@ == (SessionV {
                requests: RequestsV {
                    commands: final(self)@.requests.commands,
                    spawns: final(self)@.requests.spawns,
                    ..old(self)@.requests
                },
                ..old(self)@
            }),
            pruned == old(self).requests.in_flight() - final(self).requests.in_flight(),
    {
        let pruned = self.requests.prune_abandoned(gone);
        assert(self@ =~= (SessionV {
            requests: RequestsV {
                commands: self@.requests.commands,
                spawns: self@.requests.spawns,
                ..old(self)@.requests
            },
            ..old(self)@
        }));
        pruned
    }

    /// A satellite that never confirms a stream stop leaves unclear whose
    /// output arrives; the link is given up once a stop is overdue.
    pub fn check_detach_deadlines(&self, now_ms: u64) -> (outcome: Result<(), RelayFault>)
        requires
            self.wf(),
        ensures
            outcome == (if self@.requests.overdue(now_ms, RELAY_COMMAND_TIMEOUT_MS) {
                Err(RelayFault::DetachOverdue { seconds: RELAY_COMMAND_TIMEOUT_SECONDS })
            } else {
                Ok(())
            }),
    {
        if self.requests.is_overdue(now_ms, RELAY_COMMAND_TIMEOUT_MS) {
            Err(RelayFault::DetachOverdue { seconds: RELAY_COMMAND_TIMEOUT_SECONDS })
        } else {
            Ok(())
        }
    }

    /// Retry what every subscriber keeps; driven by a timer, so that a consumer
    /// converges even if its terminal stays silent.
    pub fn flush_pending_snapshots(&mut self, mailboxes: &mut Mailboxes)
        requires
            old(self).wf(),
        ensures
            final(self).wf(),
            ({
                let (subs, boxes) = flush_all(
                    old(self)@.subs,
                    old(self)@.subs.len(),
                    old(mailboxes)@,
                );
                final(self)@ == (SessionV { subs, ..old(self)@ }) && final(mailboxes)@ == boxes
            }),
    {
        self.registry.flush_pending_snapshots(mailboxes);
    }
}

/// Refuse one request while there is no connection, because of `why`. The
/// consumer that waits for a reply gets it; one that only observes is told
/// through its mailbox.
pub fn fail_fast(
    request: RelayRequest,
    host: &SatelliteHost,
    why: &str,
    mailboxes: &mut Mailboxes,
) -> (resolved: Resolved)
    ensures
        match request {
            RelayRequest::Command { reply, .. } => {
                &&& final(mailboxes)@ == old(mailboxes)@
                &&& resolved matches Resolved::Command { reply: answer } && answer.to == reply
                    && is_unreachable_result(answer.result, host.name@, why@)
            },
            RelayRequest::Spawn { reply, .. } => {
                &&& final(mailboxes)@ == old(mailboxes)@
                &&& resolved matches Resolved::Spawn { reply: answer } && answer.to == reply
                    && is_unreachable_spawn(answer.result, host.name@, why@)
            },
            RelayRequest::Forward { .. } | RelayRequest::MirrorTerminal { .. } => {
                &&& resolved is Nobody
                &&& final(mailboxes)@ == old(mailboxes)@
            },
            RelayRequest::Subscribe { subscription, .. } => {
                &&& resolved is Nobody
                &&& exists|error: FrameKind| #[trigger]
                    is_unreachable_error(error, host.name@, why@) && final(mailboxes)@
                        == after_send(
                        old(mailboxes)@,
                        subscription.mailbox,
                        Outbound::Frame(error),
                    )
            },
        },
{
    match request {
        RelayRequest::Command { reply, .. } => Resolved::Command {
            reply: CommandReply {
                to: reply,
                result: CommandResult::Error {
                    code: ErrorCode::SatelliteUnreachable,
                    message: unreachable_message(host, why),
                },
            },
        },
        RelayRequest::Spawn { reply, .. } => Resolved::Spawn {
            reply: SpawnReply {
                to: reply,
                result: Err(
                    SpawnError::SatelliteUnreachable(unreachable_message(host, why)),
                ),
            },
        },
        RelayRequest::Forward { .. } | RelayRequest::MirrorTerminal { .. } => Resolved::Nobody,
        RelayRequest::Subscribe { subscription, .. } => {
            let error = unreachable_error(host, why);
            assert(is_unreachable_error(error, host.name@, why@));
            mailboxes.try_send(subscription.mailbox, Outbound::Frame(error));
            Resolved::Nobody
        },
    }
}

} // verus!
