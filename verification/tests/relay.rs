//! The hub's relay sessions and handles.

use bytes::Bytes;
use phux_server::hub::fault::RelayFault;
use phux_server::hub::gate::{
    flush_pending_snapshot, push_bootstrap_frame, ProxySubscriber, SnapshotGate, MAX_RELAY_CONNECTION_RETAINED_BYTES, MAX_RELAY_SUBSCRIBER_RETAINED_FRAMES,
    RETAINED_FRAME_OVERHEAD,
};
use phux_server::hub::handle::{
    frame_label, refusal_reason, CommandWait, HubRelays, RelayHandle, RelayMailbox, SpawnWait,
    RELAY_MAILBOX,
};
use phux_server::hub::registry::ProxySubscription;
use phux_server::hub::relay::{fail_fast, RelaySession, Unsubscribe, WithdrawalReceipt};
use phux_server::hub::requests::ReplyId;
use phux_server::hub::route::route_to_satellite;
use phux_server::hub::session::{
    RelayRequest, Resolved, SatelliteSpawn, RELAY_COMMAND_TIMEOUT_MS,
};
use phux_server::ids::{BootstrapId, ClientId, GroupId, SatelliteHost, StreamId, TerminalId};
use phux_server::mailbox::{MailboxId, Mailboxes, Outbound, SendOutcome};
use phux_server::wire::{
    AgentEvent, BootstrapLimits, BootstrapProfile, BootstrapStreamProfile, CloseReason, Command,
    CommandResult, CommandValue, EngineCodec, EngineFeatureSet, ErrorCode, FrameKind,
    IdempotencyKey, InputMode, ReportedAgentState, SpawnError, SpawnResult, StateScope,
    TerminalInput, TerminalSignal,
};

fn host() -> SatelliteHost {
    SatelliteHost::new("devbox")
}

fn remote(id: u32) -> TerminalId {
    TerminalId::satellite(host(), id)
}

fn limits() -> BootstrapLimits {
    BootstrapLimits {
        max_chunk_bytes: 256 * 1024,
        max_history_page_bytes: 1024 * 1024,
    }
}

fn stream(raw: u64) -> StreamId {
    StreamId::new(raw).expect("test stream id")
}

fn generation(raw: u64) -> BootstrapId {
    BootstrapId::new(raw).expect("test bootstrap id")
}

fn plain_session() -> RelaySession {
    RelaySession::new(host(), limits())
}

fn native_profile() -> BootstrapProfile {
    BootstrapProfile::NativeState {
        codec: EngineCodec::LibghosttyCheckpointV2,
        features: EngineFeatureSet { bits: 1 },
    }
}

fn native_stream_profile() -> BootstrapStreamProfile {
    BootstrapStreamProfile::NativeState {
        codec: EngineCodec::LibghosttyCheckpointV2,
    }
}

fn native_session() -> RelaySession {
    RelaySession::new_negotiated(host(), limits(), native_profile())
}

fn request(
    session: &mut RelaySession,
    boxes: &mut Mailboxes,
    request: RelayRequest,
) -> FrameKind {
    session
        .handle_request_checked(request, boxes)
        .wire
        .expect("a frame for the satellite")
}

fn inbound(session: &mut RelaySession, boxes: &mut Mailboxes, frame: FrameKind) -> Resolved {
    session
        .handle_inbound(frame, boxes)
        .expect("valid satellite frame")
}

fn command_request_id(frame: &FrameKind) -> u32 {
    match frame {
        FrameKind::Command { request_id, .. } => *request_id,
        other => panic!("expected COMMAND on the wire, got {other:?}"),
    }
}

fn spawn_request_id(frame: &FrameKind) -> u32 {
    match frame {
        FrameKind::SpawnTerminal { request_id, .. } => *request_id,
        other => panic!("expected SPAWN_TERMINAL on the wire, got {other:?}"),
    }
}

fn answer(resolved: Resolved) -> (ReplyId, CommandResult) {
    match resolved {
        Resolved::Command { reply } => (reply.to, reply.result),
        other => panic!("expected a command reply, got {other:?}"),
    }
}

fn spawn_answer(resolved: Resolved) -> (ReplyId, SpawnResult) {
    match resolved {
        Resolved::Spawn { reply } => (reply.to, reply.result),
        other => panic!("expected a spawn reply, got {other:?}"),
    }
}

fn frame(boxes: &mut Mailboxes, id: MailboxId) -> FrameKind {
    match boxes.try_recv(id) {
        Some(Outbound::Frame(frame)) => frame,
        other => panic!("expected a frame, got {other:?}"),
    }
}

fn fill(boxes: &mut Mailboxes, id: MailboxId) {
    assert_eq!(
        boxes.try_send(id, Outbound::Frame(FrameKind::Detach)),
        SendOutcome::Accepted
    );
}

fn subscription(
    terminal: u32,
    client: ClientId,
    seq: u64,
    mailbox: MailboxId,
) -> ProxySubscription {
    ProxySubscription {
        terminal,
        client,
        mailbox,
        seq,
        awaits_snapshot: false,
        bootstrap_profile: None,
        bootstrap_limits: None,
    }
}

fn content_subscription(
    terminal: u32,
    client: ClientId,
    seq: u64,
    mailbox: MailboxId,
    awaits_snapshot: bool,
) -> ProxySubscription {
    ProxySubscription {
        terminal,
        client,
        mailbox,
        seq,
        awaits_snapshot,
        bootstrap_profile: Some(BootstrapProfile::SynthesizedVtRaw),
        bootstrap_limits: Some(limits()),
    }
}

fn subscribe(
    session: &mut RelaySession,
    boxes: &mut Mailboxes,
    terminal: u32,
    client: ClientId,
    mailbox: MailboxId,
) {
    subscribe_at(session, boxes, terminal, client, 1, mailbox);
}

fn subscribe_at(
    session: &mut RelaySession,
    boxes: &mut Mailboxes,
    terminal: u32,
    client: ClientId,
    seq: u64,
    mailbox: MailboxId,
) {
    let serviced = session.handle_request_checked(
        RelayRequest::Subscribe {
            subscription: subscription(terminal, client, seq, mailbox),
            forward: FrameKind::SubscribeEvents {
                terminal: Some(TerminalId::local(terminal)),
            },
        },
        boxes,
    );
    assert_eq!(
        serviced.wire,
        Some(FrameKind::SubscribeEvents {
            terminal: Some(TerminalId::local(terminal)),
        }),
        "atomic subscribe must produce the forward frame"
    );
}

fn attach(
    session: &mut RelaySession,
    boxes: &mut Mailboxes,
    terminal: u32,
    client: ClientId,
    mailbox: MailboxId,
) {
    let selected_profile = session.link.bootstrap_profile;
    let selected_limits = session.link.bootstrap_limits;
    let serviced = session.handle_request_checked(
        RelayRequest::Command {
            command: Command::AttachTerminal {
                terminal_id: TerminalId::local(terminal),
            },
            reply: ReplyId(900),
            subscribe: Some(ProxySubscription {
                terminal,
                client,
                mailbox,
                seq: 1,
                awaits_snapshot: true,
                bootstrap_profile: Some(selected_profile),
                bootstrap_limits: Some(selected_limits),
            }),
        },
        boxes,
    );
    assert!(
        serviced.wire.is_some(),
        "attach must produce the COMMAND frame"
    );
}

fn upgrade(reply: u64) -> RelayRequest {
    RelayRequest::Command {
        command: Command::Upgrade,
        reply: ReplyId(reply),
        subscribe: None,
    }
}

fn attach_request(reply: u64, subscribe: ProxySubscription) -> RelayRequest {
    RelayRequest::Command {
        command: Command::AttachTerminal {
            terminal_id: TerminalId::local(subscribe.terminal),
        },
        reply: ReplyId(reply),
        subscribe: Some(subscribe),
    }
}

fn spawn_request(reply: u64) -> RelayRequest {
    RelayRequest::Spawn {
        spawn: SatelliteSpawn {
            group: GroupId(1),
            command: None,
            cwd: None,
            env: None,
            term: None,
            owner_terminal: None,
            initial_size: None,
            resource: None,
        },
        reply: ReplyId(reply),
    }
}

fn started(id: u32) -> FrameKind {
    FrameKind::Event {
        terminal: Some(TerminalId::local(id)),
        event: AgentEvent::CommandStarted,
    }
}

fn remote_started(id: u32) -> FrameKind {
    FrameKind::Event {
        terminal: Some(remote(id)),
        event: AgentEvent::CommandStarted,
    }
}

fn snapshot_frame(id: u32) -> FrameKind {
    FrameKind::BootstrapReady {
        terminal_id: TerminalId::local(id),
        stream_id: stream(1),
        bootstrap_id: generation(1),
        history_cursor: None,
    }
}

fn begin_frame(id: u32, bootstrap: u64) -> FrameKind {
    FrameKind::BootstrapBegin {
        terminal_id: TerminalId::local(id),
        stream_id: stream(1),
        bootstrap_id: generation(bootstrap),
        profile: BootstrapStreamProfile::SynthesizedVtRaw,
        cols: 80,
        rows: 24,
        base_seq: 0,
    }
}

fn output_frame(id: u32, seq: u64, bytes: &'static [u8]) -> FrameKind {
    FrameKind::TerminalOutput {
        terminal_id: TerminalId::local(id),
        stream_id: stream(1),
        bootstrap_id: generation(1),
        seq,
        bytes: Bytes::from_static(bytes),
    }
}

fn is_output(frame: &FrameKind, id: u32, expected: u64) -> bool {
    match frame {
        FrameKind::TerminalOutput {
            terminal_id, seq, ..
        } => *terminal_id == remote(id) && *seq == expected,
        _ => false,
    }
}

fn is_error(result: &CommandResult, expected: ErrorCode) -> bool {
    match result {
        CommandResult::Error { code, .. } => *code == expected,
        _ => false,
    }
}

// ---- outbound routing -------------------------------------------------------

#[test]
fn route_to_satellite_rewrites_terminal_ids_to_local() {
    let command = Command::GetScreen {
        terminal_id: remote(7),
        request_scrollback: Some(10),
        cells: true,
    };
    let (routed_host, rewritten) = route_to_satellite(&command).expect("satellite target");
    assert!(routed_host.same(&host()));
    assert_eq!(
        rewritten,
        Command::GetScreen {
            terminal_id: TerminalId::local(7),
            request_scrollback: Some(10),
            cells: true,
        }
    );
}

#[test]
fn route_to_satellite_ignores_local_and_unscoped_commands() {
    assert!(route_to_satellite(&Command::GetScreen {
        terminal_id: TerminalId::local(7),
        request_scrollback: None,
        cells: false,
    })
    .is_none());
    assert!(route_to_satellite(&Command::GetState {
        scope: StateScope::Server,
    })
    .is_none());
    assert!(route_to_satellite(&Command::Upgrade).is_none());
    assert!(
        route_to_satellite(&Command::ApplyInput {
            operation_id: IdempotencyKey::new(0x0101_0101_0101_0101_0101_0101_0101_0101)
                .expect("id"),
            terminal_id: remote(7),
            events: vec![],
        })
        .is_none(),
        "APPLY_INPUT is local-only and must never touch a satellite link"
    );
    assert!(route_to_satellite(&Command::KillTerminals {
        ids: vec![remote(1)],
    })
    .is_none());
}

#[test]
fn route_to_satellite_covers_every_per_terminal_command() {
    let commands = [
        Command::AttachTerminal {
            terminal_id: remote(3),
        },
        Command::DetachTerminal {
            terminal_id: remote(3),
        },
        Command::KillTerminal {
            terminal_id: remote(3),
            operation_id: None,
        },
        Command::GetTerminalState {
            terminal_id: remote(3),
            include_scrollback: false,
            max_scrollback_lines: 0,
        },
        Command::SubscribeTerminalEvents {
            terminal_id: remote(3),
            event_types: vec![],
        },
        Command::AcquireInput {
            terminal_id: remote(3),
            mode: InputMode::Cooperative,
            ttl_ms: 0,
        },
        Command::ReleaseInput {
            terminal_id: remote(3),
        },
        Command::SignalTerminal {
            terminal_id: remote(3),
            signal: TerminalSignal::Interrupt,
            operation_id: None,
        },
        Command::ReportAsked {
            terminal_id: remote(3),
            id: "q".to_owned(),
            question: "?".to_owned(),
            suggestions: vec![],
            elapsed_seconds: None,
        },
        Command::ReportAgentState {
            terminal_id: remote(3),
            state: ReportedAgentState::Done,
        },
    ];
    for command in commands {
        let (routed_host, rewritten) =
            route_to_satellite(&command).expect("per-terminal command routes");
        assert!(routed_host.same(&host()));
        assert!(
            route_to_satellite(&rewritten).is_none(),
            "rewritten command must be local: {rewritten:?}"
        );
    }
}

// ---- generations ------------------------------------------------------------

#[test]
fn post_negotiation_hello_ok_is_fatal_to_relay_session() {
    let mut session = plain_session();
    let mut boxes = Mailboxes::new();
    let fault = session
        .handle_inbound(
            FrameKind::HelloOk {
                selected_profile: BootstrapProfile::SynthesizedVtRaw,
                bootstrap_limits: limits(),
                server_id: Bytes::new(),
            },
            &mut boxes,
        )
        .expect_err("duplicate HELLO_OK must tear down the relay");
    assert!(fault.message(&host()).contains("direction-invalid"));
}

#[test]
fn relay_rejects_bootstrap_profile_mismatch_before_fanout() {
    let mut session = native_session();
    let mut boxes = Mailboxes::new();
    let out = boxes.open(8);
    attach(&mut session, &mut boxes, 7, ClientId(1), out);
    let fault = session
        .handle_inbound(
            FrameKind::BootstrapBegin {
                terminal_id: TerminalId::local(7),
                stream_id: stream(1),
                bootstrap_id: generation(1),
                profile: BootstrapStreamProfile::SynthesizedVtRaw,
                cols: 80,
                rows: 24,
                base_seq: 0,
            },
            &mut boxes,
        )
        .expect_err("profile mismatch must fail the link");
    assert!(fault.message(&host()).contains("negotiated"));
    assert!(boxes.try_recv(out).is_none(), "mismatched BEGIN leaked");
    assert_eq!(session.flows.bootstrap_flows.len(), 0);
}

#[test]
fn relay_rejects_gapped_chunks_and_live_delta_before_ready() {
    let mut boxes = Mailboxes::new();
    let stream_id = stream(2);
    let bootstrap_id = generation(3);
    let begin = FrameKind::BootstrapBegin {
        terminal_id: TerminalId::local(7),
        stream_id,
        bootstrap_id,
        profile: native_stream_profile(),
        cols: 80,
        rows: 24,
        base_seq: 10,
    };

    let mut gapped = native_session();
    inbound(&mut gapped, &mut boxes, begin.clone());
    let fault = gapped
        .handle_inbound(
            FrameKind::BootstrapChunk {
                terminal_id: TerminalId::local(7),
                stream_id,
                bootstrap_id,
                chunk_seq: 1,
                payload: Bytes::from_static(b"opaque"),
            },
            &mut boxes,
        )
        .expect_err("gapped chunk must fail the link");
    assert!(fault.message(&host()).contains("expected 0"));

    let mut early_live = native_session();
    inbound(&mut early_live, &mut boxes, begin);
    let fault = early_live
        .handle_inbound(
            FrameKind::TerminalOutput {
                terminal_id: TerminalId::local(7),
                stream_id,
                bootstrap_id,
                seq: 11,
                bytes: Bytes::from_static(b"x"),
            },
            &mut boxes,
        )
        .expect_err("live output before READY must fail the link");
    assert!(fault.message(&host()).contains("before BOOTSTRAP_READY"));
}

#[test]
fn relay_fans_out_complete_native_prefix_before_live_delta() {
    let mut session = native_session();
    let mut boxes = Mailboxes::new();
    let out = boxes.open(8);
    attach(&mut session, &mut boxes, 7, ClientId(1), out);
    let stream_id = stream(4);
    let bootstrap_id = generation(5);
    for each in [
        FrameKind::BootstrapBegin {
            terminal_id: TerminalId::local(7),
            stream_id,
            bootstrap_id,
            profile: native_stream_profile(),
            cols: 80,
            rows: 24,
            base_seq: 20,
        },
        FrameKind::BootstrapChunk {
            terminal_id: TerminalId::local(7),
            stream_id,
            bootstrap_id,
            chunk_seq: 0,
            payload: Bytes::from_static(b"opaque"),
        },
        FrameKind::BootstrapReady {
            terminal_id: TerminalId::local(7),
            stream_id,
            bootstrap_id,
            history_cursor: None,
        },
        FrameKind::TerminalOutput {
            terminal_id: TerminalId::local(7),
            stream_id,
            bootstrap_id,
            seq: 21,
            bytes: Bytes::from_static(b"live"),
        },
    ] {
        inbound(&mut session, &mut boxes, each);
    }
    assert!(matches!(
        frame(&mut boxes, out),
        FrameKind::BootstrapBegin { .. }
    ));
    assert!(matches!(
        frame(&mut boxes, out),
        FrameKind::BootstrapChunk { .. }
    ));
    assert!(matches!(
        frame(&mut boxes, out),
        FrameKind::BootstrapReady { .. }
    ));
    assert!(matches!(
        frame(&mut boxes, out),
        FrameKind::TerminalOutput { seq: 21, .. }
    ));
    let flow = session
        .flows
        .bootstrap_flows
        .get(7)
        .expect("active generation");
    assert!(flow.ready);
    assert_eq!(flow.stream_id, stream_id);
    assert_eq!(flow.bootstrap_id, bootstrap_id);
    assert_eq!(flow.profile, native_stream_profile());
}

#[test]
fn content_subscription_requires_exact_downstream_profile_and_bounds() {
    let mut session = native_session();
    let mut boxes = Mailboxes::new();
    let out = boxes.open(8);
    let serviced = session.handle_request_checked(
        attach_request(
            1,
            ProxySubscription {
                terminal: 7,
                client: ClientId(1),
                mailbox: out,
                seq: 1,
                awaits_snapshot: true,
                bootstrap_profile: Some(BootstrapProfile::SynthesizedVtRaw),
                bootstrap_limits: Some(limits()),
            },
        ),
        &mut boxes,
    );
    assert!(
        serviced.wire.is_none(),
        "mismatched content request reached the link"
    );
    assert!(session.registry.subscribers.is_empty());
    assert_eq!(session.requests.pending.len(), 0);
    let refusal = serviced.refusal.expect("typed local refusal");
    assert_eq!(refusal.to, ReplyId(1));
    match refusal.result {
        CommandResult::Error {
            code: ErrorCode::CodecUnavailable,
            message,
        } => {
            assert!(message.contains("transcoding is unavailable"), "{message}");
            assert!(message.contains("NativeState"), "{message}");
            assert!(message.contains("SynthesizedVtRaw"), "{message}");
        }
        other => panic!("expected a codec refusal, got {other:?}"),
    }

    let smaller = BootstrapLimits {
        max_chunk_bytes: 64 * 1024,
        max_history_page_bytes: 128 * 1024,
    };
    let out = boxes.open(8);
    let serviced = session.handle_request_checked(
        attach_request(
            2,
            ProxySubscription {
                terminal: 8,
                client: ClientId(2),
                mailbox: out,
                seq: 1,
                awaits_snapshot: true,
                bootstrap_profile: Some(native_profile()),
                bootstrap_limits: Some(smaller),
            },
        ),
        &mut boxes,
    );
    assert!(serviced.wire.is_none(), "mismatched bounds reached the link");
    let refusal = serviced.refusal.expect("typed bounds refusal");
    assert!(is_error(&refusal.result, ErrorCode::CodecUnavailable));
}

#[test]
fn relay_rejects_identity_change_after_ready_without_fanout_or_mutation() {
    let mut session = native_session();
    let mut boxes = Mailboxes::new();
    let out = boxes.open(8);
    attach(&mut session, &mut boxes, 7, ClientId(1), out);
    let stream_id = stream(4);
    let bootstrap_id = generation(5);
    for each in [
        FrameKind::BootstrapBegin {
            terminal_id: TerminalId::local(7),
            stream_id,
            bootstrap_id,
            profile: native_stream_profile(),
            cols: 80,
            rows: 24,
            base_seq: 20,
        },
        FrameKind::BootstrapReady {
            terminal_id: TerminalId::local(7),
            stream_id,
            bootstrap_id,
            history_cursor: None,
        },
    ] {
        inbound(&mut session, &mut boxes, each);
    }
    let _ = frame(&mut boxes, out);
    let _ = frame(&mut boxes, out);
    let before = *session.flows.bootstrap_flows.get(7).expect("active");
    let fault = session
        .handle_inbound(
            FrameKind::TerminalOutput {
                terminal_id: TerminalId::local(7),
                stream_id,
                bootstrap_id: generation(6),
                seq: 21,
                bytes: Bytes::from_static(b"invalid"),
            },
            &mut boxes,
        )
        .expect_err("identity change must terminate the link");
    assert!(fault
        .message(&host())
        .contains("non-active bootstrap identity"));
    assert!(
        boxes.try_recv(out).is_none(),
        "invalid frame reached consumer"
    );
    assert_eq!(
        *session.flows.bootstrap_flows.get(7).expect("active"),
        before
    );
}

#[test]
fn generation_byte_budget_fails_without_allocating_chunk_payloads() {
    let mut session = native_session();
    let stream_id = stream(1);
    let bootstrap_id = generation(1);
    session
        .flows
        .begin_bootstrap_flow(
            native_profile(),
            7,
            stream_id,
            bootstrap_id,
            native_stream_profile(),
        )
        .expect("begin");
    for chunk_seq in 0..64 {
        session
            .flows
            .accept_bootstrap_chunk(7, stream_id, bootstrap_id, chunk_seq, 256 * 1024)
            .expect("within 16 MiB generation budget");
    }
    let fault = session
        .flows
        .accept_bootstrap_chunk(7, stream_id, bootstrap_id, 64, 256 * 1024)
        .expect_err("generation above 16 MiB must fail");
    assert_eq!(fault, RelayFault::GenerationBytes);
    assert!(fault
        .message(&host())
        .contains("per-generation bootstrap byte budget"));
}

// ---- bounded retention ------------------------------------------------------

#[test]
fn saturated_open_closed_and_retained_subscribers_are_reaped() {
    let mut boxes = Mailboxes::new();
    let mut open = plain_session();
    let open_box = boxes.open(1);
    subscribe(&mut open, &mut boxes, 9, ClientId(1), open_box);
    fill(&mut boxes, open_box);
    open.registry
        .fan_out(9, &remote_started(9), false, &mut boxes);
    assert!(!open.registry.observes(9));
    let _ = frame(&mut boxes, open_box);

    let mut closed = plain_session();
    let closed_box = boxes.open(1);
    subscribe(&mut closed, &mut boxes, 9, ClientId(1), closed_box);
    boxes.close(closed_box);
    closed
        .registry
        .fan_out(9, &remote_started(9), false, &mut boxes);
    assert!(!closed.registry.observes(9));

    let mut retained = plain_session();
    let retained_box = boxes.open(1);
    subscribe(&mut retained, &mut boxes, 9, ClientId(1), retained_box);
    fill(&mut boxes, retained_box);
    for chunk_seq in 0..=MAX_RELAY_SUBSCRIBER_RETAINED_FRAMES {
        retained.registry.fan_out(
            9,
            &FrameKind::BootstrapChunk {
                terminal_id: remote(9),
                stream_id: stream(1),
                bootstrap_id: generation(1),
                chunk_seq: u32::try_from(chunk_seq).expect("small sequence"),
                payload: Bytes::from_static(b"x"),
            },
            false,
            &mut boxes,
        );
    }
    assert!(!retained.registry.observes(9));
    assert_eq!(retained.registry.retained_bytes, 0);
    assert_eq!(retained.registry.retained_frames, 0);
}

#[test]
fn connection_wide_retention_budget_reaps_excess_subscriber() {
    let mut session = plain_session();
    let mut boxes = Mailboxes::new();
    for client in 1..=9 {
        let out = boxes.open(1);
        subscribe(&mut session, &mut boxes, 9, ClientId(client), out);
        fill(&mut boxes, out);
    }
    let payload = Bytes::from(vec![0; 1024 * 1024 - RETAINED_FRAME_OVERHEAD]);
    session.registry.fan_out(
        9,
        &FrameKind::BootstrapChunk {
            terminal_id: remote(9),
            stream_id: stream(1),
            bootstrap_id: generation(1),
            chunk_seq: 0,
            payload,
        },
        false,
        &mut boxes,
    );
    assert_eq!(session.registry.subscribers.len(), 8);
    assert_eq!(
        session.registry.retained_bytes,
        MAX_RELAY_CONNECTION_RETAINED_BYTES
    );
    assert_eq!(session.registry.retained_frames, 8);
}

// ---- correlation ------------------------------------------------------------

#[test]
fn session_remaps_request_ids_and_resolves_replies() {
    let mut session = plain_session();
    let mut boxes = Mailboxes::new();
    let wire_a = request(
        &mut session,
        &mut boxes,
        RelayRequest::Command {
            command: Command::GetState {
                scope: StateScope::Server,
            },
            reply: ReplyId(1),
            subscribe: None,
        },
    );
    let wire_b = request(&mut session, &mut boxes, upgrade(2));
    let id_a = command_request_id(&wire_a);
    let id_b = command_request_id(&wire_b);
    assert_ne!(id_a, id_b, "link-side request ids must be distinct");

    let b = inbound(
        &mut session,
        &mut boxes,
        FrameKind::CommandResult {
            request_id: id_b,
            result: CommandResult::DoneWith(CommandValue::Json("b".to_owned())),
        },
    );
    let a = inbound(
        &mut session,
        &mut boxes,
        FrameKind::CommandResult {
            request_id: id_a,
            result: CommandResult::Done,
        },
    );
    assert_eq!(answer(a), (ReplyId(1), CommandResult::Done));
    assert_eq!(
        answer(b),
        (
            ReplyId(2),
            CommandResult::DoneWith(CommandValue::Json("b".to_owned()))
        )
    );
}

#[test]
fn session_maps_correlated_error_frames_to_command_errors() {
    let mut session = plain_session();
    let mut boxes = Mailboxes::new();
    let wire = request(&mut session, &mut boxes, upgrade(1));
    let request_id = command_request_id(&wire);
    let resolved = inbound(
        &mut session,
        &mut boxes,
        FrameKind::Error {
            request_id: Some(request_id),
            code: ErrorCode::TerminalNotFound,
            message: "nope".to_owned(),
        },
    );
    assert_eq!(
        answer(resolved),
        (
            ReplyId(1),
            CommandResult::Error {
                code: ErrorCode::TerminalNotFound,
                message: "nope".to_owned(),
            }
        )
    );
}

#[test]
fn session_relays_spawn_with_stripped_addressing_and_retags_the_reply() {
    let mut session = plain_session();
    let mut boxes = Mailboxes::new();
    let wire = request(&mut session, &mut boxes, spawn_request(1));
    let request_id = match wire {
        FrameKind::SpawnTerminal {
            request_id,
            satellite,
            ..
        } => {
            assert_eq!(
                satellite, None,
                "the addressing field never crosses the link (no chaining)"
            );
            request_id
        }
        other => panic!("expected SPAWN_TERMINAL on the wire, got {other:?}"),
    };
    let resolved = inbound(
        &mut session,
        &mut boxes,
        FrameKind::TerminalSpawned {
            request_id,
            result: Ok(TerminalId::local(42)),
        },
    );
    assert_eq!(spawn_answer(resolved), (ReplyId(1), Ok(remote(42))));
}

#[test]
fn session_rejects_chained_ids_and_relays_spawn_errors_verbatim() {
    let mut session = plain_session();
    let mut boxes = Mailboxes::new();
    let wire = request(&mut session, &mut boxes, spawn_request(1));
    let request_id = spawn_request_id(&wire);
    let resolved = inbound(
        &mut session,
        &mut boxes,
        FrameKind::TerminalSpawned {
            request_id,
            result: Ok(TerminalId::satellite(SatelliteHost::new("nested"), 7)),
        },
    );
    let (to, result) = spawn_answer(resolved);
    assert_eq!(to, ReplyId(1));
    assert!(matches!(result, Err(SpawnError::SpawnFailed(_))));

    let wire = request(&mut session, &mut boxes, spawn_request(2));
    let request_id = spawn_request_id(&wire);
    let resolved = inbound(
        &mut session,
        &mut boxes,
        FrameKind::TerminalSpawned {
            request_id,
            result: Err(SpawnError::GroupNotFound),
        },
    );
    assert_eq!(
        spawn_answer(resolved),
        (ReplyId(2), Err(SpawnError::GroupNotFound))
    );
}

#[test]
fn handle_and_session_preserve_spawn_owner_geometry_and_pty_options() {
    let handle = RelayHandle::new(host());
    let mut mailbox = RelayMailbox::new();
    let spawn = SatelliteSpawn {
        group: GroupId(7),
        command: Some(vec!["/bin/cat".to_owned()]),
        cwd: Some("/work".to_owned()),
        env: Some(vec![("SPLIT".to_owned(), "yes".to_owned())]),
        term: Some("xterm-256color".to_owned()),
        owner_terminal: Some(91),
        initial_size: Some((132, 43)),
        resource: None,
    };
    assert_eq!(handle.offer_spawn(&mut mailbox, spawn, ReplyId(1)), None);
    let mut session = plain_session();
    let mut boxes = Mailboxes::new();
    let wire = request(&mut session, &mut boxes, mailbox.requests.remove(0));
    let link_request_id = spawn_request_id(&wire);
    assert_eq!(
        wire,
        FrameKind::SpawnTerminal {
            request_id: link_request_id,
            group: GroupId(7),
            command: Some(vec!["/bin/cat".to_owned()]),
            cwd: Some("/work".to_owned()),
            env: Some(vec![("SPLIT".to_owned(), "yes".to_owned())]),
            term: Some("xterm-256color".to_owned()),
            satellite: None,
            owner_terminal: Some(TerminalId::local(91)),
            agent_session: None,
            initial_size: Some((132, 43)),
            resource: None,
        }
    );
    let resolved = inbound(
        &mut session,
        &mut boxes,
        FrameKind::TerminalSpawned {
            request_id: link_request_id,
            result: Ok(TerminalId::local(92)),
        },
    );
    let (to, result) = spawn_answer(resolved);
    assert_eq!(to, ReplyId(1));
    assert_eq!(
        handle.spawn_outcome(SpawnWait::Answered(result)),
        Ok(remote(92))
    );
}

#[test]
fn teardown_and_fail_fast_resolve_spawns_with_satellite_unreachable() {
    let mut session = plain_session();
    let mut boxes = Mailboxes::new();
    let _ = request(&mut session, &mut boxes, spawn_request(1));
    let ended = session.teardown("satellite went away", &mut boxes);
    assert_eq!(ended.spawns.len(), 1);
    assert_eq!(ended.spawns[0].to, ReplyId(1));
    assert!(matches!(
        ended.spawns[0].result,
        Err(SpawnError::SatelliteUnreachable(_))
    ));

    let resolved = fail_fast(spawn_request(2), &host(), "backoff", &mut boxes);
    let (to, result) = spawn_answer(resolved);
    assert_eq!(to, ReplyId(2));
    assert_eq!(
        result,
        Err(SpawnError::SatelliteUnreachable(
            "satellite devbox is unreachable: backoff".to_owned()
        ))
    );
}

#[test]
fn prune_abandoned_covers_pending_spawns() {
    let mut session = plain_session();
    let mut boxes = Mailboxes::new();
    let _ = request(&mut session, &mut boxes, spawn_request(1));
    assert_eq!(session.prune_abandoned(&vec![]), 0, "consumer still waits");
    assert_eq!(
        session.prune_abandoned(&vec![ReplyId(1)]),
        1,
        "abandoned spawn pruned"
    );
}

// ---- return leg -------------------------------------------------------------

#[test]
fn session_retags_subscribed_streams_local_to_satellite() {
    let mut session = plain_session();
    let mut boxes = Mailboxes::new();
    let out = boxes.open(8);
    subscribe(&mut session, &mut boxes, 9, ClientId(1), out);
    inbound(&mut session, &mut boxes, started(9));
    inbound(&mut session, &mut boxes, output_frame(9, 42, b"hi"));
    inbound(&mut session, &mut boxes, started(10));

    assert_eq!(frame(&mut boxes, out), remote_started(9));
    assert!(is_output(&frame(&mut boxes, out), 9, 42));
    assert!(
        boxes.try_recv(out).is_none(),
        "unsubscribed terminal leaked"
    );
}

#[test]
fn session_drops_chained_satellite_tags_from_the_return_leg() {
    let mut session = plain_session();
    let mut boxes = Mailboxes::new();
    let out = boxes.open(8);
    subscribe(&mut session, &mut boxes, 9, ClientId(1), out);
    inbound(
        &mut session,
        &mut boxes,
        FrameKind::Event {
            terminal: Some(TerminalId::satellite(SatelliteHost::new("nested"), 9)),
            event: AgentEvent::CommandStarted,
        },
    );
    assert!(boxes.try_recv(out).is_none());
}

#[test]
fn terminal_closed_retags_and_drops_the_proxy_subscription() {
    let mut session = plain_session();
    let mut boxes = Mailboxes::new();
    let out = boxes.open(8);
    subscribe(&mut session, &mut boxes, 9, ClientId(1), out);
    inbound(
        &mut session,
        &mut boxes,
        FrameKind::TerminalClosed {
            terminal_id: TerminalId::local(9),
            exit_status: Some(0),
            reason: CloseReason::Unknown,
        },
    );
    assert_eq!(
        frame(&mut boxes, out),
        FrameKind::TerminalClosed {
            terminal_id: remote(9),
            exit_status: Some(0),
            reason: CloseReason::Unknown,
        }
    );
    inbound(&mut session, &mut boxes, started(9));
    assert!(boxes.try_recv(out).is_none());
}

// ---- snapshot ordering ------------------------------------------------------

#[test]
fn full_mailbox_retains_the_snapshot_so_a_delta_never_overtakes_it() {
    let mut session = plain_session();
    let mut boxes = Mailboxes::new();
    let out = boxes.open(2);
    subscribe(&mut session, &mut boxes, 9, ClientId(1), out);
    fill(&mut boxes, out);
    fill(&mut boxes, out);

    inbound(&mut session, &mut boxes, snapshot_frame(9));
    assert_eq!(frame(&mut boxes, out), FrameKind::Detach);
    assert_eq!(frame(&mut boxes, out), FrameKind::Detach);

    inbound(&mut session, &mut boxes, output_frame(9, 1, b"delta"));
    let first = frame(&mut boxes, out);
    assert!(
        matches!(first, FrameKind::BootstrapReady { .. }),
        "the snapshot must reach the consumer before any delta, got {first:?}"
    );
    let second = frame(&mut boxes, out);
    assert!(
        is_output(&second, 9, 1),
        "the delta must ride after the snapshot, re-tagged, got {second:?}"
    );
}

#[test]
fn deltas_are_suppressed_until_the_retained_snapshot_flushes_on_the_tick() {
    let mut session = plain_session();
    let mut boxes = Mailboxes::new();
    let out = boxes.open(1);
    subscribe(&mut session, &mut boxes, 9, ClientId(1), out);
    fill(&mut boxes, out);

    inbound(&mut session, &mut boxes, snapshot_frame(9));
    inbound(&mut session, &mut boxes, output_frame(9, 1, b"delta"));
    assert_eq!(frame(&mut boxes, out), FrameKind::Detach);
    assert!(
        boxes.try_recv(out).is_none(),
        "no frame may reach the consumer while the snapshot is stuck"
    );

    session.flush_pending_snapshots(&mut boxes);
    let flushed = frame(&mut boxes, out);
    assert!(
        matches!(flushed, FrameKind::BootstrapReady { .. }),
        "the tick flush delivers the retained snapshot, got {flushed:?}"
    );
    assert!(
        boxes.try_recv(out).is_none(),
        "the suppressed delta was dropped, not delivered before the snapshot"
    );
}

#[test]
fn a_fresher_snapshot_replaces_a_retained_one() {
    let mut session = plain_session();
    let mut boxes = Mailboxes::new();
    let out = boxes.open(1);
    subscribe(&mut session, &mut boxes, 9, ClientId(1), out);
    fill(&mut boxes, out);

    inbound(&mut session, &mut boxes, begin_frame(9, 1));
    inbound(&mut session, &mut boxes, begin_frame(9, 2));
    assert_eq!(frame(&mut boxes, out), FrameKind::Detach);
    session.flush_pending_snapshots(&mut boxes);
    match frame(&mut boxes, out) {
        FrameKind::BootstrapBegin { bootstrap_id, .. } => assert_eq!(
            bootstrap_id.get(),
            2,
            "the freshest retained generation must win"
        ),
        other => panic!("expected a bootstrap BEGIN, got {other:?}"),
    }
}

#[test]
fn a_second_attach_sees_its_snapshot_before_any_delta_of_the_ongoing_stream() {
    let mut session = plain_session();
    let mut boxes = Mailboxes::new();
    let a = boxes.open(8);
    let b = boxes.open(8);

    attach(&mut session, &mut boxes, 9, ClientId(1), a);
    inbound(&mut session, &mut boxes, snapshot_frame(9));
    assert!(matches!(
        frame(&mut boxes, a),
        FrameKind::BootstrapReady { .. }
    ));

    attach(&mut session, &mut boxes, 9, ClientId(2), b);
    inbound(&mut session, &mut boxes, output_frame(9, 1, b"a-stream"));
    assert!(matches!(
        frame(&mut boxes, a),
        FrameKind::TerminalOutput { seq: 1, .. }
    ));
    assert!(
        boxes.try_recv(b).is_none(),
        "B must not see a delta before its own snapshot"
    );

    inbound(&mut session, &mut boxes, snapshot_frame(9));
    let first = frame(&mut boxes, b);
    assert!(
        matches!(first, FrameKind::BootstrapReady { .. }),
        "B's first frame must be its snapshot, got {first:?}"
    );
    inbound(&mut session, &mut boxes, output_frame(9, 2, b"after"));
    let delta = frame(&mut boxes, b);
    assert!(
        is_output(&delta, 9, 2),
        "B's delta must follow its snapshot, re-tagged, got {delta:?}"
    );
}

#[test]
fn a_gated_attach_still_receives_terminal_closed_before_being_reaped() {
    let mut session = plain_session();
    let mut boxes = Mailboxes::new();
    let b = boxes.open(8);
    attach(&mut session, &mut boxes, 9, ClientId(2), b);

    inbound(&mut session, &mut boxes, output_frame(9, 1, b"suppressed"));
    assert!(
        boxes.try_recv(b).is_none(),
        "a content delta is suppressed before the snapshot"
    );
    inbound(
        &mut session,
        &mut boxes,
        FrameKind::TerminalClosed {
            terminal_id: TerminalId::local(9),
            exit_status: Some(0),
            reason: CloseReason::Unknown,
        },
    );
    assert_eq!(
        frame(&mut boxes, b),
        FrameKind::TerminalClosed {
            terminal_id: remote(9),
            exit_status: Some(0),
            reason: CloseReason::Unknown,
        },
        "a gated subscriber must still see TERMINAL_CLOSED"
    );
    inbound(&mut session, &mut boxes, output_frame(9, 2, b"after-close"));
    assert!(
        boxes.try_recv(b).is_none(),
        "subscription must be reaped on close"
    );
}

#[test]
fn an_event_only_subscription_is_not_gated_by_the_snapshot() {
    let mut session = plain_session();
    let mut boxes = Mailboxes::new();
    let out = boxes.open(8);
    subscribe(&mut session, &mut boxes, 9, ClientId(1), out);
    inbound(&mut session, &mut boxes, started(9));
    assert_eq!(frame(&mut boxes, out), remote_started(9));
}

#[test]
fn subscribe_then_attach_upgrade_gates_deltas_until_the_attach_snapshot() {
    let mut session = plain_session();
    let mut boxes = Mailboxes::new();
    let out = boxes.open(8);
    subscribe(&mut session, &mut boxes, 9, ClientId(1), out);
    inbound(&mut session, &mut boxes, started(9));
    assert!(
        boxes.try_recv(out).is_some(),
        "the event-only stream must be flowing before the upgrade"
    );

    attach(&mut session, &mut boxes, 9, ClientId(1), out);
    inbound(
        &mut session,
        &mut boxes,
        output_frame(9, 1, b"pre-snapshot"),
    );
    assert!(
        boxes.try_recv(out).is_none(),
        "the upgrade must gate deltas until its own snapshot"
    );

    inbound(&mut session, &mut boxes, snapshot_frame(9));
    let first = frame(&mut boxes, out);
    assert!(
        matches!(first, FrameKind::BootstrapReady { .. }),
        "the first post-upgrade frame must be the snapshot, got {first:?}"
    );
    inbound(
        &mut session,
        &mut boxes,
        output_frame(9, 2, b"post-snapshot"),
    );
    let delta = frame(&mut boxes, out);
    assert!(
        is_output(&delta, 9, 2),
        "the delta must follow the snapshot, re-tagged, got {delta:?}"
    );
}

#[test]
fn an_event_only_re_subscribe_does_not_re_gate_a_flowing_stream() {
    let mut session = plain_session();
    let mut boxes = Mailboxes::new();
    let out = boxes.open(8);
    subscribe(&mut session, &mut boxes, 9, ClientId(1), out);
    subscribe(&mut session, &mut boxes, 9, ClientId(1), out);
    inbound(&mut session, &mut boxes, started(9));
    assert!(
        boxes.try_recv(out).is_some(),
        "an event-only re-subscribe must not re-gate the flowing stream"
    );
}

#[test]
fn a_gated_attach_still_receives_a_bell_past_the_gate() {
    let mut session = plain_session();
    let mut boxes = Mailboxes::new();
    let out = boxes.open(8);
    attach(&mut session, &mut boxes, 9, ClientId(2), out);
    inbound(&mut session, &mut boxes, output_frame(9, 1, b"suppressed"));
    assert!(
        boxes.try_recv(out).is_none(),
        "a content delta is suppressed before the snapshot"
    );
    inbound(
        &mut session,
        &mut boxes,
        FrameKind::Bell {
            terminal_id: TerminalId::local(9),
        },
    );
    assert_eq!(
        frame(&mut boxes, out),
        FrameKind::Bell {
            terminal_id: remote(9),
        },
        "a gated subscriber must still see a BELL"
    );
    inbound(&mut session, &mut boxes, output_frame(9, 2, b"still-gated"));
    assert!(
        boxes.try_recv(out).is_none(),
        "the bell bypass must not open the snapshot gate"
    );
}

// ---- lifecycle --------------------------------------------------------------

#[test]
fn teardown_fails_pending_and_notifies_each_consumer_once() {
    let mut session = plain_session();
    let mut boxes = Mailboxes::new();
    let _ = request(&mut session, &mut boxes, upgrade(1));
    let out = boxes.open(8);
    subscribe(&mut session, &mut boxes, 1, ClientId(7), out);
    subscribe(&mut session, &mut boxes, 2, ClientId(7), out);

    let ended = session.teardown("satellite went away", &mut boxes);
    assert_eq!(ended.commands.len(), 1);
    assert_eq!(ended.commands[0].to, ReplyId(1));
    assert!(is_error(
        &ended.commands[0].result,
        ErrorCode::SatelliteUnreachable
    ));
    assert_eq!(
        frame(&mut boxes, out),
        FrameKind::Error {
            request_id: None,
            code: ErrorCode::SatelliteUnreachable,
            message: "satellite devbox is unreachable: satellite went away".to_owned(),
        }
    );
    assert!(
        boxes.try_recv(out).is_none(),
        "one typed notification per consumer, not per subscription"
    );
}

#[test]
fn unsubscribe_client_stops_fan_out() {
    let mut session = plain_session();
    let mut boxes = Mailboxes::new();
    let out = boxes.open(8);
    subscribe(&mut session, &mut boxes, 9, ClientId(1), out);
    let frames = session.handle_unsubscribe(Unsubscribe::Client(ClientId(1)), 0);
    inbound(&mut session, &mut boxes, started(9));
    assert!(boxes.try_recv(out).is_none());
    assert_eq!(frames.len(), 1, "one satellite-side detach expected");
    match &frames[0] {
        FrameKind::Command { command, .. } => assert_eq!(
            *command,
            Command::DetachTerminal {
                terminal_id: TerminalId::local(9),
            }
        ),
        other => panic!("expected COMMAND on the wire, got {other:?}"),
    }
}

#[test]
fn unsubscribe_keeps_satellite_streaming_while_other_subscribers_remain() {
    let mut session = plain_session();
    let mut boxes = Mailboxes::new();
    let a = boxes.open(8);
    let b = boxes.open(8);
    subscribe(&mut session, &mut boxes, 9, ClientId(1), a);
    subscribe(&mut session, &mut boxes, 9, ClientId(2), b);
    let frames = session.handle_unsubscribe(
        Unsubscribe::Terminal {
            client: ClientId(1),
            terminal: 9,
            seq: 2,
        },
        0,
    );
    assert!(
        frames.is_empty(),
        "satellite-side detach must wait for the last subscriber"
    );
    inbound(&mut session, &mut boxes, started(9));
    let _ = frame(&mut boxes, b);
    let frames = session.handle_unsubscribe(
        Unsubscribe::Terminal {
            client: ClientId(2),
            terminal: 9,
            seq: 2,
        },
        0,
    );
    assert_eq!(frames.len(), 1);
}

#[test]
fn stale_terminal_unsubscribe_does_not_tear_down_a_fresher_reattach() {
    let mut session = plain_session();
    let mut boxes = Mailboxes::new();
    let out = boxes.open(8);
    subscribe_at(&mut session, &mut boxes, 9, ClientId(1), 1, out);
    subscribe_at(&mut session, &mut boxes, 9, ClientId(1), 3, out);

    let frames = session.handle_unsubscribe(
        Unsubscribe::Terminal {
            client: ClientId(1),
            terminal: 9,
            seq: 2,
        },
        0,
    );
    assert!(
        frames.is_empty(),
        "a stale detach must not emit a satellite-side DETACH for a re-attached terminal"
    );
    inbound(&mut session, &mut boxes, output_frame(9, 7, b"live"));
    assert!(is_output(&frame(&mut boxes, out), 9, 7));

    let frames = session.handle_unsubscribe(
        Unsubscribe::Terminal {
            client: ClientId(1),
            terminal: 9,
            seq: 4,
        },
        0,
    );
    assert_eq!(frames.len(), 1, "an in-order detach still tears down");
}

#[test]
fn unsubscribe_survives_a_full_relay_mailbox() {
    let mut handle = RelayHandle::new(host());
    let mut mailbox = RelayMailbox::new();
    for _ in 0..RELAY_MAILBOX {
        assert_eq!(
            handle.forward(&mut mailbox, FrameKind::Detach),
            SendOutcome::Accepted
        );
    }
    handle.unsubscribe_client(&mut mailbox, ClientId(1));
    handle.unsubscribe_terminal(&mut mailbox, ClientId(2), 7);
    assert!(matches!(
        mailbox.unsubscribes.remove(0),
        Unsubscribe::Client(ClientId(1))
    ));
    assert!(matches!(
        mailbox.unsubscribes.remove(0),
        Unsubscribe::Terminal {
            client: ClientId(2),
            terminal: 7,
            ..
        }
    ));
    let mut receipt = WithdrawalReceipt::new();
    assert_eq!(
        handle.withdrawal_outcome(CommandWait::Dropped, &mut receipt),
        CommandResult::Done
    );
}

#[test]
fn withdrawal_receipt_fences_retained_replay_and_live_fanout() {
    let mut session = plain_session();
    let mut boxes = Mailboxes::new();
    let out = boxes.open(1);
    subscribe(&mut session, &mut boxes, 9, ClientId(1), out);
    fill(&mut boxes, out);
    inbound(&mut session, &mut boxes, snapshot_frame(9));
    assert!(session.registry.retained_bytes > 0);
    let mut receipt = WithdrawalReceipt::new();
    let frames = session.handle_awaited_unsubscribe(ClientId(1), 9, 2, &mut receipt, 0);
    assert_eq!(receipt.outcome, Some(CommandResult::Done));
    assert_eq!(
        frames.len(),
        1,
        "last observer releases the upstream subscription"
    );
    assert_eq!(session.registry.retained_bytes, 0);
    assert!(!session.registry.observes(9));
    let _ = frame(&mut boxes, out);
    session.flush_pending_snapshots(&mut boxes);
    inbound(
        &mut session,
        &mut boxes,
        output_frame(9, 1, b"after detach"),
    );
    assert!(
        boxes.try_recv(out).is_none(),
        "no retained or new terminal frame after receipt"
    );
}

/// The withdrawal that `handle` queued, as client, terminal and issue order.
fn queued_withdrawal(mailbox: &mut RelayMailbox) -> (ClientId, u32, u64) {
    match mailbox.unsubscribes.remove(0) {
        Unsubscribe::Terminal {
            client,
            terminal,
            seq,
        } => (client, terminal, seq),
        other => panic!("expected one terminal's withdrawal, got {other:?}"),
    }
}

#[test]
fn withdrawal_timeout_cancels_unapplied_teardown() {
    let mut handle = RelayHandle::new(host());
    let mut mailbox = RelayMailbox::new();
    handle.unsubscribe_terminal(&mut mailbox, ClientId(1), 9);
    let mut receipt = WithdrawalReceipt::new();
    let told = handle.withdrawal_outcome(CommandWait::TimedOut, &mut receipt);
    assert!(is_error(&told, ErrorCode::SatelliteUnreachable));

    let mut session = plain_session();
    let mut boxes = Mailboxes::new();
    let out = boxes.open(1);
    subscribe_at(&mut session, &mut boxes, 9, ClientId(1), 0, out);
    let (client, terminal, seq) = queued_withdrawal(&mut mailbox);
    let frames = session.handle_awaited_unsubscribe(client, terminal, seq, &mut receipt, 0);
    assert!(
        frames.is_empty(),
        "safe refusal must cancel queued teardown"
    );
    assert!(session.registry.observes(9));
}

#[test]
fn applied_withdrawal_wins_even_when_waiter_resumes_past_deadline() {
    let mut handle = RelayHandle::new(host());
    let mut mailbox = RelayMailbox::new();
    handle.unsubscribe_terminal(&mut mailbox, ClientId(1), 9);
    let mut receipt = WithdrawalReceipt::new();
    let mut session = plain_session();
    let mut boxes = Mailboxes::new();
    let out = boxes.open(8);
    subscribe_at(&mut session, &mut boxes, 9, ClientId(1), 0, out);
    let (client, terminal, seq) = queued_withdrawal(&mut mailbox);
    let frames = session.handle_awaited_unsubscribe(client, terminal, seq, &mut receipt, 0);
    assert_eq!(frames.len(), 1);
    assert_eq!(
        handle.withdrawal_outcome(CommandWait::TimedOut, &mut receipt),
        CommandResult::Done,
        "a committed removal is never a safe refusal"
    );
    assert!(!session.registry.observes(9));
}

#[test]
fn abandoned_withdrawal_still_cleans_up_without_a_timeout_refusal() {
    let mut handle = RelayHandle::new(host());
    let mut mailbox = RelayMailbox::new();
    handle.unsubscribe_terminal(&mut mailbox, ClientId(1), 9);
    let mut session = plain_session();
    let mut boxes = Mailboxes::new();
    let out = boxes.open(8);
    subscribe_at(&mut session, &mut boxes, 9, ClientId(1), 0, out);
    let frames = session.handle_unsubscribe(mailbox.unsubscribes.remove(0), 0);
    assert_eq!(frames.len(), 1);
    assert!(
        !session.registry.observes(9),
        "disconnected callers still get undroppable cleanup"
    );
}

#[test]
fn withdrawal_without_a_live_session_is_idempotent() {
    let mut handle = RelayHandle::new(host());
    let mut mailbox = RelayMailbox::new();
    handle.unsubscribe_terminal(&mut mailbox, ClientId(1), 9);
    assert_eq!(mailbox.unsubscribes.len(), 1);
    mailbox.unsubscribes.clear();
    let mut receipt = WithdrawalReceipt::new();
    assert_eq!(
        handle.withdrawal_outcome(CommandWait::Dropped, &mut receipt),
        CommandResult::Done
    );
    mailbox.open = false;
    handle.unsubscribe_terminal(&mut mailbox, ClientId(1), 9);
    assert!(mailbox.unsubscribes.is_empty());
    assert_eq!(
        handle.withdrawal_outcome(CommandWait::Dropped, &mut receipt),
        CommandResult::Done
    );
}

#[test]
fn stale_withdrawal_is_refused_while_the_newer_proxy_stays_live() {
    let mut handle = RelayHandle::new(host());
    let mut mailbox = RelayMailbox::new();
    handle.unsubscribe_terminal(&mut mailbox, ClientId(1), 9);
    let mut receipt = WithdrawalReceipt::new();
    let mut session = plain_session();
    let mut boxes = Mailboxes::new();
    let out = boxes.open(8);
    subscribe_at(&mut session, &mut boxes, 9, ClientId(1), u64::MAX, out);
    let (client, terminal, seq) = queued_withdrawal(&mut mailbox);
    let frames = session.handle_awaited_unsubscribe(client, terminal, seq, &mut receipt, 0);
    assert!(frames.is_empty());
    let settled = receipt.outcome.clone().expect("settled");
    assert!(is_error(&settled, ErrorCode::InvalidCommand));
    inbound(
        &mut session,
        &mut boxes,
        output_frame(9, 1, b"newer attachment"),
    );
    assert!(matches!(
        frame(&mut boxes, out),
        FrameKind::TerminalOutput { .. }
    ));
    assert_eq!(
        session.requests.pending_detaches.len(),
        0,
        "newer upstream stream is untouched"
    );
}

// ---- detach barriers --------------------------------------------------------

#[test]
fn upstream_detach_barrier_discards_old_frames_before_a_fresh_attach() {
    let mut session =
        RelaySession::new_negotiated(host(), limits(), BootstrapProfile::SynthesizedVtRaw);
    let mut boxes = Mailboxes::new();
    inbound(&mut session, &mut boxes, begin_frame(9, 1));
    inbound(&mut session, &mut boxes, snapshot_frame(9));
    let events = boxes.open(8);
    subscribe(&mut session, &mut boxes, 9, ClientId(2), events);
    let out = boxes.open(8);
    let attaching = attach_request(1, content_subscription(9, ClientId(1), 1, out, true));
    let prepared = session.prepare_request(&attaching, 0);
    assert_eq!(
        prepared.len(),
        2,
        "detach and event restoration before attach"
    );
    assert_eq!(
        prepared[1],
        FrameKind::SubscribeEvents {
            terminal: Some(TerminalId::local(9)),
        }
    );
    let request_id = command_request_id(&prepared[0]);
    assert_eq!(
        prepared[0],
        FrameKind::Command {
            request_id,
            command: Command::DetachTerminal {
                terminal_id: TerminalId::local(9),
            },
        }
    );
    assert!(
        session.prepare_request(&attaching, 0).is_empty(),
        "reuse an in-flight barrier"
    );
    let _ = request(&mut session, &mut boxes, attaching);
    inbound(&mut session, &mut boxes, started(9));
    assert!(
        matches!(frame(&mut boxes, events), FrameKind::Event { .. }),
        "an event observer stays live during the barrier"
    );
    assert!(
        boxes.try_recv(out).is_none(),
        "new content proxy still waits for its own prefix"
    );
    inbound(&mut session, &mut boxes, begin_frame(9, 2));
    inbound(&mut session, &mut boxes, snapshot_frame(9));
    inbound(&mut session, &mut boxes, output_frame(9, 1, b"old"));
    assert!(boxes.try_recv(out).is_none());
    inbound(
        &mut session,
        &mut boxes,
        FrameKind::CommandResult {
            request_id,
            result: CommandResult::Done,
        },
    );
    assert_eq!(session.requests.pending_detaches.len(), 0);
    assert!(!session.flows.bootstrap_flows.contains(9));
    inbound(&mut session, &mut boxes, begin_frame(9, 1));
    inbound(&mut session, &mut boxes, snapshot_frame(9));
    inbound(&mut session, &mut boxes, output_frame(9, 1, b"fresh"));
    assert_eq!(
        boxes.boxes[out.0].queue.len(),
        3,
        "only the fresh BEGIN, READY and output reach the proxy"
    );
}

#[test]
fn detach_without_a_proxy_retires_automatic_spawn_output() {
    let mut session =
        RelaySession::new_negotiated(host(), limits(), BootstrapProfile::SynthesizedVtRaw);
    let mut boxes = Mailboxes::new();
    inbound(&mut session, &mut boxes, begin_frame(9, 1));
    inbound(&mut session, &mut boxes, snapshot_frame(9));
    let frames = session.handle_unsubscribe(
        Unsubscribe::Terminal {
            client: ClientId(1),
            terminal: 9,
            seq: 1,
        },
        0,
    );
    assert_eq!(
        frames.len(),
        1,
        "unobserved spawn producer still needs upstream detach"
    );
    let request_id = command_request_id(&frames[0]);
    inbound(
        &mut session,
        &mut boxes,
        output_frame(9, 1, b"queued before detach"),
    );
    inbound(
        &mut session,
        &mut boxes,
        FrameKind::CommandResult {
            request_id,
            result: CommandResult::Done,
        },
    );
    assert_eq!(session.requests.pending_detaches.len(), 0);
    assert_eq!(session.flows.bootstrap_flows.len(), 0);
}

#[test]
fn upstream_detach_barrier_refusal_fails_the_link_closed() {
    for result in [
        CommandResult::Error {
            code: ErrorCode::SatelliteUnreachable,
            message: "refused".to_owned(),
        },
        CommandResult::DoneWith(CommandValue::Json("{}".to_owned())),
    ] {
        let mut session = plain_session();
        let mut boxes = Mailboxes::new();
        let detach = session.encode_terminal_detach(9, 0);
        let request_id = command_request_id(&detach);
        assert!(session
            .handle_inbound(FrameKind::CommandResult { request_id, result }, &mut boxes)
            .is_err());
    }
}

#[test]
fn upstream_detach_barriers_expire_and_reserve_their_request_ids() {
    let mut session = plain_session();
    let mut boxes = Mailboxes::new();
    let detach = session.encode_terminal_detach(9, 5_000);
    let request_id = command_request_id(&detach);
    session.requests.next_request_id = request_id;
    assert_ne!(
        session.requests.allocate_request_id(),
        request_id,
        "in-flight detach owns its correlation"
    );
    assert!(session.check_detach_deadlines(5_000).is_ok());
    assert!(session
        .check_detach_deadlines(5_000 + RELAY_COMMAND_TIMEOUT_MS - 1)
        .is_ok());
    assert!(session
        .check_detach_deadlines(5_000 + RELAY_COMMAND_TIMEOUT_MS)
        .is_err());
    let _ = session.teardown("expired upstream detach", &mut boxes);
    assert_eq!(session.requests.pending_detaches.len(), 0);
}

#[test]
fn subscribe_on_a_full_mailbox_registers_nothing_and_notifies_the_consumer() {
    let mut handle = RelayHandle::new(host());
    let mut mailbox = RelayMailbox::new();
    for _ in 0..RELAY_MAILBOX {
        let _ = handle.forward(&mut mailbox, FrameKind::Detach);
    }
    let mut boxes = Mailboxes::new();
    let out = boxes.open(8);
    handle.subscribe(
        &mut mailbox,
        subscription(9, ClientId(1), 0, out),
        FrameKind::SubscribeEvents {
            terminal: Some(TerminalId::local(9)),
        },
        &mut boxes,
    );
    assert!(matches!(
        frame(&mut boxes, out),
        FrameKind::Error {
            request_id: None,
            code: ErrorCode::ResourceExhausted,
            ..
        }
    ));
    assert_eq!(mailbox.requests.len(), RELAY_MAILBOX);
}

#[test]
fn satellite_error_rolls_back_the_commands_subscription() {
    let mut session = plain_session();
    let mut boxes = Mailboxes::new();
    let out = boxes.open(8);
    let wire = request(
        &mut session,
        &mut boxes,
        attach_request(1, content_subscription(9, ClientId(1), 1, out, false)),
    );
    let request_id = command_request_id(&wire);
    let resolved = inbound(
        &mut session,
        &mut boxes,
        FrameKind::CommandResult {
            request_id,
            result: CommandResult::Error {
                code: ErrorCode::TerminalNotFound,
                message: "nope".to_owned(),
            },
        },
    );
    let (to, result) = answer(resolved);
    assert_eq!(to, ReplyId(1));
    assert!(matches!(result, CommandResult::Error { .. }));
    inbound(&mut session, &mut boxes, output_frame(9, 1, b"leak"));
    assert!(
        boxes.try_recv(out).is_none(),
        "rolled-back subscriber leaked"
    );
}

#[test]
fn errored_upgrade_preserves_a_concurrently_retained_snapshot() {
    let mut session = plain_session();
    let mut boxes = Mailboxes::new();
    let b = boxes.open(2);
    let c = boxes.open(8);
    subscribe(&mut session, &mut boxes, 9, ClientId(2), b);
    inbound(&mut session, &mut boxes, started(9));
    assert!(
        boxes.try_recv(b).is_some(),
        "B's event stream must be open"
    );

    let wire = request(
        &mut session,
        &mut boxes,
        attach_request(1, content_subscription(9, ClientId(2), 2, b, true)),
    );
    let request_id = command_request_id(&wire);

    attach(&mut session, &mut boxes, 9, ClientId(3), c);
    fill(&mut boxes, b);
    fill(&mut boxes, b);
    inbound(&mut session, &mut boxes, snapshot_frame(9));
    assert!(matches!(
        frame(&mut boxes, c),
        FrameKind::BootstrapReady { .. }
    ));

    let resolved = inbound(
        &mut session,
        &mut boxes,
        FrameKind::Error {
            request_id: Some(request_id),
            code: ErrorCode::InternalError,
            message: "transient".to_owned(),
        },
    );
    assert!(matches!(answer(resolved).1, CommandResult::Error { .. }));

    assert_eq!(frame(&mut boxes, b), FrameKind::Detach);
    assert_eq!(frame(&mut boxes, b), FrameKind::Detach);
    inbound(&mut session, &mut boxes, output_frame(9, 1, b"after-error"));
    assert!(matches!(
        frame(&mut boxes, b),
        FrameKind::BootstrapReady { .. }
    ));
    assert!(matches!(
        frame(&mut boxes, b),
        FrameKind::TerminalOutput { seq: 1, .. }
    ));
}

#[test]
fn satellite_error_never_rolls_back_a_preexisting_subscription() {
    let mut session = plain_session();
    let mut boxes = Mailboxes::new();
    let out = boxes.open(8);
    subscribe(&mut session, &mut boxes, 9, ClientId(1), out);
    let wire = request(
        &mut session,
        &mut boxes,
        attach_request(1, content_subscription(9, ClientId(1), 2, out, true)),
    );
    let request_id = command_request_id(&wire);
    inbound(
        &mut session,
        &mut boxes,
        FrameKind::Error {
            request_id: Some(request_id),
            code: ErrorCode::InternalError,
            message: "transient".to_owned(),
        },
    );
    inbound(&mut session, &mut boxes, output_frame(9, 1, b"still here"));
    assert!(
        boxes.try_recv(out).is_some(),
        "pre-existing subscription must survive the errored re-subscribe"
    );
}

// ---- handles ----------------------------------------------------------------

#[test]
fn fail_fast_resolves_commands_with_satellite_unreachable() {
    let mut boxes = Mailboxes::new();
    let resolved = fail_fast(upgrade(1), &host(), "backoff", &mut boxes);
    let (to, result) = answer(resolved);
    assert_eq!(to, ReplyId(1));
    assert!(is_error(&result, ErrorCode::SatelliteUnreachable));
}

#[test]
fn handle_command_times_out_against_a_silent_satellite() {
    let mut handle = RelayHandle::new(host());
    let mut mailbox = RelayMailbox::new();
    assert_eq!(
        handle.offer_command(&mut mailbox, Command::Upgrade, ReplyId(1), None),
        None
    );
    match handle.command_outcome(CommandWait::TimedOut) {
        CommandResult::Error { code, message } => {
            assert_eq!(code, ErrorCode::SatelliteUnreachable);
            assert!(message.contains("did not answer within"), "{message}");
            assert_eq!(message, "satellite devbox did not answer within 30s");
        }
        other => panic!("expected a timeout, got {other:?}"),
    }
}

#[test]
fn prune_abandoned_drops_only_commands_whose_consumer_gave_up() {
    let mut session = plain_session();
    let mut boxes = Mailboxes::new();
    let _ = request(&mut session, &mut boxes, upgrade(1));
    let wire = request(&mut session, &mut boxes, upgrade(2));
    let request_id = command_request_id(&wire);

    assert_eq!(
        session.prune_abandoned(&vec![]),
        0,
        "both consumers still wait"
    );
    assert_eq!(
        session.prune_abandoned(&vec![ReplyId(2)]),
        1,
        "abandoned entry pruned"
    );
    let resolved = inbound(
        &mut session,
        &mut boxes,
        FrameKind::CommandResult {
            request_id,
            result: CommandResult::Done,
        },
    );
    assert!(
        matches!(resolved, Resolved::Nobody),
        "live command still pending"
    );
    let ended = session.teardown("done", &mut boxes);
    assert_eq!(ended.commands.len(), 1);
    assert_eq!(ended.commands[0].to, ReplyId(1));
    assert!(is_error(
        &ended.commands[0].result,
        ErrorCode::SatelliteUnreachable
    ));
}

#[test]
fn handle_command_fails_fast_when_mailbox_is_full_or_closed() {
    let mut handle = RelayHandle::new(host());
    let mut mailbox = RelayMailbox::new();
    for _ in 0..RELAY_MAILBOX {
        let _ = handle.forward(&mut mailbox, FrameKind::Detach);
    }
    let refusal = handle
        .offer_command(&mut mailbox, Command::Upgrade, ReplyId(1), None)
        .expect("refused");
    assert!(is_error(&refusal, ErrorCode::ResourceExhausted));
    mailbox.open = false;
    mailbox.requests.clear();
    let refusal = handle
        .offer_command(&mut mailbox, Command::Upgrade, ReplyId(2), None)
        .expect("refused");
    assert!(is_error(&refusal, ErrorCode::SatelliteUnreachable));
}

#[test]
fn a_refused_spawn_says_whether_a_retry_may_help() {
    let handle = RelayHandle::new(host());
    let spawn = SatelliteSpawn {
        group: GroupId(1),
        command: None,
        cwd: None,
        env: None,
        term: None,
        owner_terminal: None,
        initial_size: None,
        resource: None,
    };
    let mut mailbox = RelayMailbox::new();
    mailbox.open = false;
    assert_eq!(
        handle.offer_spawn(&mut mailbox, spawn, ReplyId(1)),
        Some(SpawnError::SatelliteUnreachable(
            "satellite devbox link is down".to_owned()
        ))
    );
    assert_eq!(
        handle.spawn_outcome(SpawnWait::TimedOut),
        Err(SpawnError::SatelliteUnreachable(
            "satellite devbox did not answer the spawn within 30s".to_owned()
        ))
    );
    assert_eq!(
        handle.spawn_outcome(SpawnWait::Dropped),
        Err(SpawnError::SatelliteUnreachable(
            "satellite devbox link dropped before the spawn reply".to_owned()
        ))
    );
}

#[test]
fn the_newest_handle_of_a_host_answers_for_it() {
    let mut relays = HubRelays::new();
    assert!(relays.get(&host()).is_none());
    relays.insert(RelayHandle::new(host()));
    let mut newer = RelayHandle::new(host());
    let _ = newer.next_seq();
    relays.insert(newer);
    relays.insert(RelayHandle::new(SatelliteHost::new("other")));
    assert_eq!(relays.all().len(), 2);
    assert_eq!(relays.get(&host()).expect("known").next_token, 2);
}

#[test]
fn links_are_listed_by_the_names_of_their_hosts() {
    let mut relays = HubRelays::new();
    for name in ["web", "dev", "devbox", "", "\u{e9}", "Web"] {
        relays.insert(RelayHandle::new(SatelliteHost::new(name)));
    }
    let names: Vec<&str> = relays
        .all()
        .iter()
        .map(|handle| handle.host.name.as_str())
        .collect();
    assert_eq!(names, vec!["", "Web", "dev", "devbox", "web", "\u{e9}"]);
    assert!(relays.get(&SatelliteHost::new("de")).is_none());
    assert!(relays.get(&SatelliteHost::new("dev")).is_some());
}

#[test]
fn labels_show_nothing_of_a_payload() {
    let label = |event: TerminalInput| {
        frame_label(&FrameKind::Input {
            terminal_id: TerminalId::local(1),
            event,
        })
    };
    let body = Bytes::from_static(b"hunter2");
    assert_eq!(label(TerminalInput::Key(body.clone())), "INPUT_KEY");
    assert_eq!(label(TerminalInput::Mouse(body.clone())), "INPUT_MOUSE");
    assert_eq!(label(TerminalInput::Focus(body.clone())), "INPUT_FOCUS");
    assert_eq!(label(TerminalInput::Paste(body)), "INPUT_PASTE");
    assert_eq!(frame_label(&FrameKind::Detach), "other");
    assert_eq!(refusal_reason(SendOutcome::Full), "mailbox full");
    assert_eq!(refusal_reason(SendOutcome::Closed), "link task gone");
}

#[test]
fn every_token_is_issued_once() {
    let mut handle = RelayHandle::new(host());
    let mut mailbox = RelayMailbox::new();
    let mut boxes = Mailboxes::new();
    let out = boxes.open(8);
    let forward = || FrameKind::SubscribeEvents {
        terminal: Some(TerminalId::local(9)),
    };
    handle.subscribe(
        &mut mailbox,
        subscription(9, ClientId(1), 0, out),
        forward(),
        &mut boxes,
    );
    handle.unsubscribe_terminal(&mut mailbox, ClientId(1), 9);
    handle.subscribe(
        &mut mailbox,
        subscription(9, ClientId(1), 0, out),
        forward(),
        &mut boxes,
    );
    assert_eq!(handle.next_token, 4);
    let tokens: Vec<u64> = mailbox
        .requests
        .iter()
        .map(|queued| match queued {
            RelayRequest::Subscribe { subscription, .. } => subscription.seq,
            other => panic!("expected a subscription, got {other:?}"),
        })
        .collect();
    assert_eq!(tokens, vec![1, 3]);

    // The detach of the first attach arrives after the second attach.
    let mut session = plain_session();
    while !mailbox.requests.is_empty() {
        let queued = mailbox.requests.remove(0);
        request(&mut session, &mut boxes, queued);
    }
    let stale = mailbox.unsubscribes.remove(0);
    assert!(matches!(stale, Unsubscribe::Terminal { seq: 2, .. }));
    assert!(session.handle_unsubscribe(stale, 0).is_empty());
    inbound(&mut session, &mut boxes, output_frame(9, 7, b"live"));
    assert!(is_output(&frame(&mut boxes, out), 9, 7));
}

#[test]
fn a_subscriber_that_must_go_keeps_nothing() {
    let mut boxes = Mailboxes::new();
    let out = boxes.open(1);
    let mut sub = ProxySubscriber {
        terminal: 9,
        client: ClientId(1),
        mailbox: out,
        seq: 1,
        gate: SnapshotGate::AwaitingFirst,
    };
    fill(&mut boxes, out);
    let (mut bytes, mut frames) = (0_usize, 0_usize);
    assert!(push_bootstrap_frame(
        &mut sub,
        snapshot_frame(9),
        true,
        &mut bytes,
        &mut frames,
        &mut boxes
    ));
    assert!(matches!(sub.gate, SnapshotGate::Retained { .. }));
    boxes.close(out);
    assert_eq!(flush_pending_snapshot(&mut sub, &mut boxes), (false, false));
    assert!(matches!(sub.gate, SnapshotGate::Open));

    sub.gate = SnapshotGate::AwaitingFirst;
    assert!(!push_bootstrap_frame(
        &mut sub,
        snapshot_frame(9),
        true,
        &mut bytes,
        &mut frames,
        &mut boxes
    ));
    assert!(matches!(sub.gate, SnapshotGate::Open));
}
