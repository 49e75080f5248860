//! Grants, engines, posture and the guard.

use phux_server::clock::Timestamp;
use phux_server::ids::{ClientId, GroupId, SatelliteHost, SessionId, TerminalId};
use phux_server::metadata::Scope;
use phux_server::policy::enforce::{
    authorize_command, authorize_frame, authorize_stream_bind, enforce, enforce_at, Denial,
};
use phux_server::policy::engine::{
    AuthenticatedCredential, PeerIdentity, PermissivePolicy, PolicyError, ScopedPolicy,
    TransportType, WorkloadRecord, WorkloadRegistry, WorkloadSnapshot,
};
use phux_server::policy::grant::{
    Authority, ConnectionGrant, DetachReason, RegistryStamp, Revocation, ScopeError,
};
use phux_server::policy::hold::{
    admission, held_action_needs, refuse_viewer_decision, Admission,
};
use phux_server::policy::posture::{PolicyMode, PolicyPosture, PostureError};
use phux_server::policy::request::{
    ApprovalId, AttachTarget, Classification, ClientCommand, ClientFrame, Exemption, Request,
    Subject,
};
use phux_server::policy::scope::{
    Clause, ScopeGrant, Selector, TerminalScopeSet, Verb, Verbs,
};
use phux_server::policy::topology::{
    AttachRow, PendingApproval, ResourceRow, SessionRow, SubscriptionRow, Topology, ViewerRow,
    WindowRow,
};

const CLIENT: ClientId = ClientId(7);

// ---- scopes by their text ---------------------------------------------------

fn verb_named(name: &str) -> Verb {
    match name {
        "inventory" => Verb::Inventory,
        "observe" => Verb::Observe,
        "create" => Verb::Create,
        "bind" => Verb::Bind,
        "input" => Verb::Input,
        "signal" => Verb::Signal,
        other => panic!("no verb {other}"),
    }
}

fn verbs_named(names: &str) -> Verbs {
    if names == "*" {
        return Verbs::every();
    }
    names
        .split(',')
        .fold(Verbs::empty(), |verbs, name| verbs.and(verb_named(name)))
}

fn selector_named(text: &str) -> Selector {
    match text.split_once(':') {
        None if text == "global" => Selector::Global,
        None if text == "host" => Selector::HostLocal,
        Some(("host", name)) => Selector::HostSatellite(SatelliteHost::new(name)),
        Some(("group", id)) => Selector::Group(id.parse().expect("group id")),
        Some(("terminal", id)) => Selector::TerminalLocal(id.parse().expect("terminal id")),
        _ => panic!("no selector {text}"),
    }
}

fn grants_of(scopes: &[&str]) -> Vec<ScopeGrant> {
    scopes
        .iter()
        .map(|scope| {
            let (verbs, selector) = scope.split_once('@').expect("verbs@selector");
            ScopeGrant {
                verbs: verbs_named(verbs),
                held: Verbs::empty(),
                selector: selector_named(selector),
            }
        })
        .collect()
}

fn scoped(scopes: &[&str]) -> ConnectionGrant {
    ConnectionGrant::scoped(
        TerminalScopeSet {
            grants: grants_of(scopes),
        },
        Ok(()),
        Some("sha256:test".to_owned()),
    )
    .expect("fits")
}

fn need(verbs: &str, subject: Subject) -> Classification {
    Classification::Allow {
        verbs: verbs_named(verbs),
        subject,
    }
}

// ---- the world --------------------------------------------------------------

/// Two sessions, one terminal each, with the client attached to `alpha`.
struct World {
    state: Topology,
    alpha: TerminalId,
    beta: TerminalId,
    alpha_group: u32,
}

const ALPHA_CORE: u64 = 100;
const BETA_CORE: u64 = 200;
const ALPHA_WINDOW: u64 = 10;
const BETA_WINDOW: u64 = 20;

fn world() -> World {
    let session = |session, name: &str, wire, window| SessionRow {
        session,
        name: name.to_owned(),
        wire: Some(wire),
        windows: vec![window],
    };
    let resource = |core, wire, window| ResourceRow {
        core,
        wire: Some(wire),
        window: Some(window),
        parent: None,
    };
    World {
        state: Topology {
            resources: vec![
                resource(ALPHA_CORE, 1, ALPHA_WINDOW),
                resource(BETA_CORE, 2, BETA_WINDOW),
            ],
            windows: vec![
                WindowRow {
                    window: ALPHA_WINDOW,
                    session: 1,
                    slots: vec![ALPHA_CORE],
                },
                WindowRow {
                    window: BETA_WINDOW,
                    session: 2,
                    slots: vec![BETA_CORE],
                },
            ],
            sessions: vec![
                session(1, "alpha", 1, ALPHA_WINDOW),
                session(2, "beta", 2, BETA_WINDOW),
            ],
            attached: vec![AttachRow {
                client: CLIENT,
                session: 1,
            }],
            subscriptions: vec![SubscriptionRow {
                client: CLIENT,
                core: ALPHA_CORE,
            }],
            viewers: Vec::new(),
            approvals: vec![PendingApproval {
                id: ApprovalId(1),
                requester: ClientId(99),
                command: ClientCommand::KillResource {
                    terminal_id: TerminalId::local(1),
                },
                row: need("signal", Subject::NamedTerminal),
            }],
            last_touched: Some(1),
            touch_history: true,
            pre_seeded: None,
        },
        alpha: TerminalId::local(1),
        beta: TerminalId::local(2),
        alpha_group: 1,
    }
}

fn local_id(wire: &TerminalId) -> u32 {
    match wire {
        TerminalId::Local { id } | TerminalId::Satellite { id, .. } => *id,
    }
}

type Sample = (ClientFrame, Classification);
type CommandSample = (ClientCommand, Classification);

fn admits(world: &World, grant: &ConnectionGrant, sample: &Sample) -> bool {
    enforce(
        &world.state,
        CLIENT,
        grant,
        Request::Frame(&sample.0, sample.1),
    )
    .is_ok()
}

fn refuse(world: &World, grant: &ConnectionGrant, sample: &Sample) -> Denial {
    enforce(
        &world.state,
        CLIENT,
        grant,
        Request::Frame(&sample.0, sample.1),
    )
    .expect_err("refused")
}

fn admits_command(world: &World, grant: &ConnectionGrant, sample: CommandSample) -> bool {
    enforce(
        &world.state,
        CLIENT,
        grant,
        Request::Command(&sample.0, sample.1),
    )
    .is_ok()
}

fn refuse_command(world: &World, grant: &ConnectionGrant, sample: CommandSample) -> Denial {
    enforce(
        &world.state,
        CLIENT,
        grant,
        Request::Command(&sample.0, sample.1),
    )
    .expect_err("refused")
}

fn get_screen(terminal_id: TerminalId) -> CommandSample {
    (
        ClientCommand::GetScreen { terminal_id },
        need("observe", Subject::NamedTerminal),
    )
}

fn attach(target: AttachTarget) -> Sample {
    (
        ClientFrame::Attach { target },
        need("observe", Subject::ResolvedGroup),
    )
}

fn spawn(owner_terminal: TerminalId) -> Sample {
    (
        ClientFrame::SpawnResource {
            satellite: None,
            owner_terminal: Some(owner_terminal),
            parent: None,
        },
        need("create,bind", Subject::OwnerTerminalGroup),
    )
}

fn spawn_session(parent: TerminalId) -> Sample {
    (
        ClientFrame::SpawnResource {
            satellite: None,
            owner_terminal: None,
            parent: Some(parent),
        },
        need("create,bind", Subject::ParentTerminalGroup),
    )
}

fn set(scope: Scope) -> Sample {
    (
        ClientFrame::SetMetadata {
            scope,
            keep_empty: None,
            decides: None,
        },
        need("bind", Subject::MetadataScope),
    )
}

fn shutdown() -> CommandSample {
    (
        ClientCommand::Other,
        need("signal", Subject::Global { owner_uds_only: true }),
    )
}

fn upgrade() -> CommandSample {
    (
        ClientCommand::Other,
        need("signal", Subject::Global { owner_uds_only: false }),
    )
}

fn ping() -> Sample {
    (
        ClientFrame::Other,
        Classification::Exempt(Exemption::Liveness),
    )
}

fn satellite(host: &str, id: u32) -> TerminalId {
    TerminalId::satellite(SatelliteHost::new(host), id)
}

fn spawned(
    satellite: Option<&str>,
    owner_terminal: Option<TerminalId>,
    parent: Option<TerminalId>,
    row: Classification,
) -> Sample {
    (
        ClientFrame::SpawnResource {
            satellite: satellite.map(SatelliteHost::new),
            owner_terminal,
            parent,
        },
        row,
    )
}

fn marked(keep_empty: Option<&str>, decides: Option<ApprovalId>, row: Classification) -> Sample {
    (
        ClientFrame::SetMetadata {
            scope: Scope::Global,
            keep_empty: keep_empty.map(str::to_owned),
            decides,
        },
        row,
    )
}

fn command(command: ClientCommand, row: Classification) -> Sample {
    (ClientFrame::Command { command, row }, Classification::Deny)
}

/// A sample for every message that a client can send.
fn samples(world: &World) -> Vec<Sample> {
    let t = || world.alpha.clone();
    let global = Subject::Global {
        owner_uds_only: false,
    };
    let owner_only = Subject::Global {
        owner_uds_only: true,
    };
    let exempt = Classification::Exempt;
    let mut samples = vec![
        (ClientFrame::Other, exempt(Exemption::Handshake)),
        ping(),
        (ClientFrame::Other, exempt(Exemption::Cleanup)),
        attach(AttachTarget::Last),
        attach(AttachTarget::ByName("alpha".to_owned())),
        attach(AttachTarget::ById(SessionId(world.alpha_group))),
        (
            ClientFrame::Attach {
                target: AttachTarget::CreateIfMissing {
                    name: "fresh".to_owned(),
                },
            },
            need("create", Subject::SelectedLocalGroup),
        ),
    ];
    for (frame, verb) in [
        (ClientFrame::HistoryRequest { terminal_id: t() }, "observe"),
        (ClientFrame::FrameAck { terminal_id: t() }, "observe"),
        (ClientFrame::InputKey { terminal_id: t() }, "input"),
        (ClientFrame::InputMouse { terminal_id: t() }, "input"),
        (ClientFrame::InputFocus { terminal_id: t() }, "input"),
        (ClientFrame::InputPaste { terminal_id: t() }, "input"),
        (ClientFrame::InputTerminalReply { terminal_id: t() }, "input"),
        (ClientFrame::ResizeTerminal { terminal_id: t() }, "bind"),
        (ClientFrame::SubscribeEvents { terminal: Some(t()) }, "observe"),
    ] {
        samples.push((frame, need(verb, Subject::NamedTerminal)));
    }
    samples.extend([
        (
            ClientFrame::ViewportResize,
            need("bind", Subject::AttachedTerminals),
        ),
        spawned(Some("h"), None, None, need("create", Subject::SatelliteHost)),
        spawned(None, None, None, need("create", Subject::PayloadGroup)),
        spawn(t()),
        spawned(
            Some("h"),
            Some(t()),
            None,
            need("create,bind", Subject::OwnerTerminalGroup),
        ),
        spawn_session(t()),
        spawned(
            Some("h"),
            None,
            Some(satellite("h", 7)),
            need("create,bind", Subject::SatelliteHostAndParent),
        ),
        spawned(None, None, None, Classification::Deny),
        (
            ClientFrame::MoveResource {
                terminal: t(),
                owner_terminal: world.beta.clone(),
            },
            need("bind", Subject::MovedAndOwnerTerminals),
        ),
        (
            ClientFrame::SubscribeEvents { terminal: None },
            need("observe", Subject::ObservableTerminals),
        ),
        (
            ClientFrame::GetMetadata {
                scope: Scope::Global,
            },
            exempt(Exemption::SelfRead),
        ),
        (
            ClientFrame::GetMetadata {
                scope: Scope::Resource(t()),
            },
            need("observe", Subject::MetadataScope),
        ),
        // A session is made, a mark is set, cleared or malformed.
        marked(None, None, need("create", global)),
        marked(Some("alpha"), None, need("create,bind", global)),
        marked(Some("alpha"), None, need("signal", Subject::NamedSession)),
        marked(None, None, Classification::Deny),
        // The configuration is read again, and an approval decided.
        marked(None, None, need("bind", owner_only)),
        marked(
            None,
            Some(ApprovalId(1)),
            need("signal", Subject::MetadataScope),
        ),
        marked(None, Some(ApprovalId(1)), Classification::Deny),
        (
            ClientFrame::SubscribeMetadata {
                scope: Scope::Global,
            },
            need("observe", Subject::MetadataScope),
        ),
        set(Scope::Resource(t())),
        (
            ClientFrame::DeleteMetadata {
                scope: Scope::Resource(t()),
            },
            need("bind", Subject::MetadataScope),
        ),
        (
            ClientFrame::ListMetadata {
                scope: Scope::Global,
            },
            need("observe", Subject::MetadataScope),
        ),
        (ClientFrame::Other, need("inventory", global)),
        (
            ClientFrame::SubscribeMetadata {
                scope: Scope::Resource(t()),
            },
            need("observe", Subject::MetadataScope),
        ),
        ping(),
        (ClientFrame::Other, Classification::Deny),
    ]);
    for (named, verb) in [
        (ClientCommand::AttachResource { terminal_id: t() }, "observe"),
        (ClientCommand::KillResource { terminal_id: t() }, "signal"),
        (ClientCommand::KillResourceIf { terminal_id: t() }, "signal"),
        (ClientCommand::GetScreen { terminal_id: t() }, "observe"),
        (ClientCommand::RouteInput { terminal_id: t() }, "input"),
        (ClientCommand::ApplyInput { terminal_id: t() }, "input"),
        (ClientCommand::GetTerminalState { terminal_id: t() }, "observe"),
        (
            ClientCommand::SubscribeResourceEvents { terminal_id: t() },
            "observe",
        ),
        (ClientCommand::AcquireInput { terminal_id: t() }, "bind"),
        (ClientCommand::ReleaseInput { terminal_id: t() }, "bind"),
        (ClientCommand::SignalTerminal { terminal_id: t() }, "signal"),
        (ClientCommand::ReportAsked { terminal_id: t() }, "bind"),
        (ClientCommand::ReportAgentState { terminal_id: t() }, "bind"),
        (ClientCommand::PutFile { terminal_id: t() }, "input"),
        (ClientCommand::Transcribe { terminal_id: t() }, "input"),
    ] {
        samples.push(command(named, need(verb, Subject::NamedTerminal)));
    }
    samples.extend([
        command(
            ClientCommand::DetachResource { terminal_id: t() },
            exempt(Exemption::Cleanup),
        ),
        command(
            ClientCommand::KillResources { ids: vec![t()] },
            need("signal", Subject::EveryNamedTerminal),
        ),
        command(
            ClientCommand::CloseTabResources { ids: vec![t()] },
            need("signal", Subject::EveryNamedTerminal),
        ),
        command(
            ClientCommand::Other,
            need("inventory", Subject::InventoryMatches),
        ),
        command(
            ClientCommand::DetachClients {
                session: Some("alpha".to_owned()),
            },
            need("signal", Subject::NamedSession),
        ),
        command(
            ClientCommand::DetachClients { session: None },
            need("signal", global),
        ),
        // Upgrade, shutdown, a new listener.
        command(ClientCommand::Other, need("signal", global)),
        command(ClientCommand::Other, need("signal", owner_only)),
        command(ClientCommand::Other, need("create", owner_only)),
        command(ClientCommand::Other, need("create", global)),
        // Performance is read, and read and started over.
        command(ClientCommand::Other, need("inventory", global)),
        command(ClientCommand::Other, need("bind", global)),
        command(
            ClientCommand::AppendResourceOutput { terminal_id: t() },
            need("bind,input", Subject::ParentOfNamed),
        ),
        command(ClientCommand::Other, Classification::Deny),
    ]);
    samples
}

fn row_of(sample: &Sample) -> Classification {
    match &sample.0 {
        ClientFrame::Command { row, .. } => *row,
        _ => sample.1,
    }
}

/// What a grant of only `verb`, on everything, decides for a row.
fn expected(row: Classification, verb: Verb) -> bool {
    match row {
        Classification::Allow { verbs, subject } => {
            verbs == Verbs::of(verb)
                && subject
                    != (Subject::Global {
                        owner_uds_only: true,
                    })
        }
        Classification::Exempt(exemption) => exemption != Exemption::Handshake,
        Classification::Deny => false,
    }
}

fn verb_only_connection_matrix(name: &str) {
    let world = world();
    let verb = verb_named(name);
    let grant = scoped(&[&format!("{name}@global")]);
    let samples = samples(&world);
    for sample in &samples {
        assert_eq!(
            admits(&world, &grant, sample),
            expected(row_of(sample), verb),
            "{name}-only grant on {sample:?}"
        );
    }
    let hit: Vec<Subject> = samples
        .iter()
        .filter_map(|sample| match row_of(sample) {
            Classification::Allow { subject, .. } => Some(subject),
            _ => None,
        })
        .collect();
    for subject in [
        Subject::NamedTerminal,
        Subject::EveryNamedTerminal,
        Subject::AttachedTerminals,
        Subject::MovedAndOwnerTerminals,
        Subject::ParentOfNamed,
        Subject::ResolvedGroup,
        Subject::SelectedLocalGroup,
        Subject::NamedSession,
        Subject::PayloadGroup,
        Subject::OwnerTerminalGroup,
        Subject::ParentTerminalGroup,
        Subject::SatelliteHost,
        Subject::SatelliteHostAndParent,
        Subject::MetadataScope,
        Subject::ObservableTerminals,
        Subject::InventoryMatches,
        Subject::Global {
            owner_uds_only: false,
        },
        Subject::Global {
            owner_uds_only: true,
        },
    ] {
        assert!(hit.contains(&subject), "no sample reaches {subject:?}");
    }
}

#[test]
fn inventory_only_connection_matrix() {
    verb_only_connection_matrix("inventory");
}

#[test]
fn observe_only_connection_matrix() {
    verb_only_connection_matrix("observe");
}

#[test]
fn create_only_connection_matrix() {
    verb_only_connection_matrix("create");
}

#[test]
fn bind_only_connection_matrix() {
    verb_only_connection_matrix("bind");
}

#[test]
fn input_only_connection_matrix() {
    verb_only_connection_matrix("input");
}

#[test]
fn signal_only_connection_matrix() {
    verb_only_connection_matrix("signal");
}

#[test]
fn a_full_64_grant_ceiling_loads_and_admits_as_one_clause_per_grant() {
    let mut scopes = vec!["*@global".to_owned()];
    scopes.extend((0..63).map(|n| format!("observe@host:h{n}")));
    let names: Vec<&str> = scopes.iter().map(String::as_str).collect();
    let grant = scoped(&names);
    let Authority::Scoped { granted, effective } = &grant.authority else {
        panic!("a scoped grant");
    };
    assert_eq!(effective.clauses.len(), 64);
    for (clause, granted) in effective.clauses.iter().zip(&granted.grants) {
        assert_eq!(
            *clause,
            Clause {
                verbs: granted.verbs,
                held: granted.held,
                requested: granted.selector.clone(),
                ceiling: granted.selector.clone(),
            }
        );
    }
}

#[test]
fn the_owner_grant_admits_every_sample() {
    let world = world();
    let owner = ConnectionGrant::owner();
    for frame in &samples(&world) {
        assert!(admits(&world, &owner, frame), "{frame:?}");
    }
}

// ---- selectors against the live topology ------------------------------------

#[test]
fn terminal_scoped_grant_cannot_reach_another_terminal_group_or_satellite() {
    let world = world();
    let grant = scoped(&[&format!("*@terminal:{}", local_id(&world.alpha))]);
    assert!(admits_command(&world, &grant, get_screen(world.alpha.clone())));
    assert!(!admits_command(&world, &grant, get_screen(world.beta.clone())));
    let same_id_elsewhere = satellite("devbox", local_id(&world.alpha));
    assert!(!admits_command(&world, &grant, get_screen(same_id_elsewhere)));
    // A Terminal grant never reaches the Group that holds it.
    assert!(!admits(
        &world,
        &grant,
        &attach(AttachTarget::ByName("alpha".to_owned()))
    ));
    assert!(!admits_command(
        &world,
        &grant,
        (
            ClientCommand::DetachClients {
                session: Some("alpha".to_owned()),
            },
            need("signal", Subject::NamedSession)
        )
    ));
    assert!(!admits(&world, &grant, &spawn(world.alpha.clone())));
    // Nor server-global data.
    assert!(!admits_command(
        &world,
        &grant,
        (
            ClientCommand::Other,
            need("inventory", Subject::Global { owner_uds_only: false })
        )
    ));
    // A satellite grant reaches only its own host's Terminals.
    let devbox = scoped(&["*@host:devbox"]);
    assert!(admits_command(
        &world,
        &devbox,
        get_screen(satellite("devbox", 3))
    ));
    assert!(!admits_command(
        &world,
        &devbox,
        get_screen(satellite("other", 3))
    ));
    assert!(!admits_command(
        &world,
        &devbox,
        get_screen(world.alpha.clone())
    ));
}

#[test]
fn group_ceiling_stops_matching_when_the_terminal_moves_out_and_resumes_when_it_returns() {
    let mut world = world();
    let grant = scoped(&[&format!("observe,bind@group:{}", world.alpha_group)]);
    let screen = || get_screen(TerminalId::local(1));
    assert!(admits_command(&world, &grant, screen()));

    world.state.resources[0].window = Some(BETA_WINDOW);
    world.state.windows[0].slots = Vec::new();
    world.state.windows[1].slots = vec![BETA_CORE, ALPHA_CORE];
    assert!(
        !admits_command(&world, &grant, screen()),
        "the Group clause was flattened into a Terminal grant"
    );

    world.state.resources[0].window = Some(ALPHA_WINDOW);
    world.state.windows[0].slots = vec![ALPHA_CORE];
    world.state.windows[1].slots = vec![BETA_CORE];
    assert!(admits_command(&world, &grant, screen()));
}

#[test]
fn absent_and_unauthorized_targets_get_the_same_denial() {
    let world = world();
    let grant = scoped(&[&format!("*@group:{}", world.alpha_group)]);
    assert_eq!(
        refuse_command(&world, &grant, get_screen(world.beta.clone())),
        refuse_command(&world, &grant, get_screen(TerminalId::local(999)))
    );
    assert_eq!(
        refuse(&world, &grant, &spawn(world.beta.clone())),
        refuse(&world, &grant, &spawn(TerminalId::local(999)))
    );
    let refuse_attach =
        |name: &str| refuse(&world, &grant, &attach(AttachTarget::ByName(name.to_owned())));
    assert_eq!(refuse_attach("beta"), refuse_attach("nowhere"));
}

#[test]
fn owner_addressed_spawn_needs_create_on_the_owners_group_and_bind_on_the_owner() {
    let world = world();
    let owned = spawn(world.alpha.clone());
    let group = world.alpha_group;
    let terminal = local_id(&world.alpha);
    assert!(admits(
        &world,
        &scoped(&[&format!("create,bind@group:{group}")]),
        &owned
    ));
    assert!(admits(
        &world,
        &scoped(&[
            &format!("create@group:{group}"),
            &format!("bind@terminal:{terminal}")
        ]),
        &owned
    ));
    assert!(!admits(
        &world,
        &scoped(&[&format!("create,bind@terminal:{terminal}")]),
        &owned
    ));
    assert!(!admits(
        &world,
        &scoped(&[&format!("bind@group:{group}")]),
        &owned
    ));
}

#[test]
fn a_local_agent_session_spawn_with_a_satellite_parent_fails_closed() {
    let world = world();
    let grant = scoped(&["*@global"]);
    assert!(!admits(&world, &grant, &spawn_session(satellite("h", 7))));
    assert!(admits(&world, &grant, &spawn_session(world.alpha.clone())));
}

#[test]
fn shutdown_and_open_listener_deny_remote_paired_signal_global() {
    let world = world();
    let grant = scoped(&["signal@global"]);
    assert!(!admits_command(&world, &grant, shutdown()));
    assert!(!admits_command(
        &world,
        &grant,
        (
            ClientCommand::Other,
            need("signal", Subject::Global { owner_uds_only: true })
        )
    ));
    assert!(admits_command(&world, &grant, upgrade()));
    assert!(admits_command(
        &world,
        &grant,
        (
            ClientCommand::DetachClients { session: None },
            need("signal", Subject::Global { owner_uds_only: false })
        )
    ));
}

#[test]
fn stream_bind_is_guarded_by_observe() {
    let world = world();
    let observe_one = scoped(&[&format!("observe@terminal:{}", local_id(&world.alpha))]);
    let bind = |grant: &ConnectionGrant, terminal: &TerminalId| {
        enforce(&world.state, CLIENT, grant, Request::StreamBind(terminal)).is_ok()
    };
    assert!(bind(&observe_one, &world.alpha));
    assert!(!bind(&observe_one, &world.beta));
    assert!(!bind(&scoped(&["input,bind@global"]), &world.alpha));
}

#[test]
fn handler_bypass_canary_unclassified_frame_is_denied() {
    let world = world();
    let grant = scoped(&["*@global"]);
    for row in [
        Classification::Deny,
        Classification::Exempt(Exemption::Handshake),
    ] {
        let frame = (ClientFrame::Other, row);
        assert!(!admits(&world, &grant, &frame), "{frame:?}");
    }
    // A clause for every verb at Global still cannot reach a default-deny row.
    let (frame, _) = set(Scope::Global);
    assert!(!admits(&world, &grant, &(frame, Classification::Deny)));
}

#[test]
fn frame_ack_needs_the_connections_current_stream() {
    let world = world();
    let grant = scoped(&["observe@global"]);
    let ack = |terminal_id: TerminalId| {
        (
            ClientFrame::FrameAck { terminal_id },
            need("observe", Subject::NamedTerminal),
        )
    };
    assert!(
        admits(&world, &grant, &ack(world.alpha.clone())),
        "subscribed"
    );
    assert!(
        !admits(&world, &grant, &ack(world.beta.clone())),
        "OBSERVE without a subscription is no stream to acknowledge"
    );
}

#[test]
fn metadata_scopes_resolve_to_their_subjects() {
    let world = world();
    let pane = scoped(&[&format!("bind@terminal:{}", local_id(&world.alpha))]);
    assert!(admits(
        &world,
        &pane,
        &set(Scope::Resource(world.alpha.clone()))
    ));
    assert!(!admits(
        &world,
        &pane,
        &set(Scope::Resource(world.beta.clone()))
    ));
    // The opaque group key is host-wide, and Global is Global.
    assert!(!admits(&world, &pane, &set(Scope::Group(GroupId(1)))));
    assert!(admits(
        &world,
        &scoped(&["bind@host"]),
        &set(Scope::Group(GroupId(1)))
    ));
    assert!(!admits(
        &world,
        &scoped(&["bind@host"]),
        &set(Scope::Global)
    ));
}

#[test]
fn append_resource_output_is_admitted_through_the_parent_alone() {
    let mut world = world();
    world.state.resources.push(ResourceRow {
        core: 300,
        wire: Some(3),
        window: None,
        parent: Some(ALPHA_CORE),
    });
    let child_wire = TerminalId::local(3);
    let append = || {
        (
            ClientCommand::AppendResourceOutput {
                terminal_id: TerminalId::local(3),
            },
            need("bind,input", Subject::ParentOfNamed),
        )
    };
    let parent = local_id(&world.alpha);
    let on_parent = scoped(&[&format!("bind,input@terminal:{parent}")]);
    let on_child = scoped(&[&format!("bind,input@terminal:{}", local_id(&child_wire))]);
    assert!(admits_command(&world, &on_parent, append()));
    assert!(
        !admits_command(&world, &on_child, append()),
        "a grant naming only the child does not suffice"
    );
    // Every other named-Terminal row admits a child through its parent.
    let observe_parent = scoped(&[&format!("observe@terminal:{parent}")]);
    assert!(admits_command(
        &world,
        &observe_parent,
        get_screen(child_wire)
    ));
}

#[test]
fn append_to_a_satellite_child_fails_closed() {
    let world = world();
    for scopes in [["*@global"], ["*@host:h"]] {
        assert!(!admits_command(
            &world,
            &scoped(&scopes),
            (
                ClientCommand::AppendResourceOutput {
                    terminal_id: satellite("h", 3),
                },
                need("bind,input", Subject::ParentOfNamed)
            )
        ));
    }
}

#[test]
fn viewport_resize_checks_every_pane_including_unnamed_ones() {
    let mut world = world();
    let resize = (
        ClientFrame::ViewportResize,
        need("bind", Subject::AttachedTerminals),
    );
    let one_pane = scoped(&[&format!("bind@terminal:{}", local_id(&world.alpha))]);
    assert!(
        admits(&world, &one_pane, &resize),
        "the only pane is granted"
    );
    // A second pane no client has a wire id for yet.
    world.state.resources.push(ResourceRow {
        core: 101,
        wire: None,
        window: Some(ALPHA_WINDOW),
        parent: None,
    });
    world.state.windows[0].slots = vec![ALPHA_CORE, 101];
    assert!(
        !admits(&world, &one_pane, &resize),
        "an unnamed pane in the session is checked, not skipped"
    );
    let group = scoped(&[&format!("bind@group:{}", world.alpha_group)]);
    assert!(admits(&world, &group, &resize), "the Group contains it");
}

#[test]
fn any_grant_reads_its_own_whoami() {
    let world = world();
    let whoami = (
        ClientFrame::GetMetadata {
            scope: Scope::Global,
        },
        Classification::Exempt(Exemption::SelfRead),
    );
    let terminal = format!("input@terminal:{}", local_id(&world.alpha));
    for grant in [scoped(&["observe@host:x"]), scoped(&[&terminal])] {
        assert!(admits(&world, &grant, &whoami));
    }
    // Any other Global key still needs OBSERVE on Global.
    let other = (
        ClientFrame::GetMetadata {
            scope: Scope::Global,
        },
        need("observe", Subject::MetadataScope),
    );
    assert!(!admits(&world, &scoped(&["observe@host:x"]), &other));
    assert!(admits(&world, &scoped(&["observe@global"]), &other));
}

#[test]
fn clearing_keep_empty_is_signal_on_the_named_session() {
    let world = world();
    let keep = |name: Option<&str>, row| {
        (
            ClientFrame::SetMetadata {
                scope: Scope::Global,
                keep_empty: name.map(str::to_owned),
                decides: None,
            },
            row,
        )
    };
    let clear = |name: &str| keep(Some(name), need("signal", Subject::NamedSession));
    let on_alpha = scoped(&[&format!("signal@group:{}", world.alpha_group)]);
    assert!(admits(&world, &on_alpha, &clear("alpha")));
    assert!(
        !admits(&world, &on_alpha, &clear("beta")),
        "another session"
    );
    assert!(
        !admits(&world, &on_alpha, &clear("nowhere")),
        "an absent session is refused like a foreign one"
    );
    assert!(
        !admits(
            &world,
            &scoped(&[&format!("bind@group:{}", world.alpha_group)]),
            &clear("alpha")
        ),
        "SIGNAL, not BIND"
    );
    assert!(admits(&world, &scoped(&["signal@host"]), &clear("nowhere")));
    // Setting the mark stays CREATE and BIND on Global.
    let mark = keep(
        Some("alpha"),
        need("create,bind", Subject::Global { owner_uds_only: false }),
    );
    assert!(!admits(&world, &on_alpha, &mark));
    assert!(admits(&world, &scoped(&["create,bind@global"]), &mark));
    // Any other value, and deleting the key, stay default-deny.
    let all = scoped(&["*@global"]);
    assert!(!admits(&world, &all, &keep(None, Classification::Deny)));
    let delete = (
        ClientFrame::DeleteMetadata {
            scope: Scope::Global,
        },
        Classification::Deny,
    );
    assert!(!admits(&world, &all, &delete));
}

// ---- viewers, holds and time ------------------------------------------------

#[test]
fn a_viewer_cannot_type_whatever_its_grant() {
    let mut world = world();
    let grant = scoped(&["*@global"]);
    let frame = ClientFrame::InputKey {
        terminal_id: world.alpha.clone(),
    };
    let row = need("input", Subject::NamedTerminal);
    assert_eq!(
        authorize_frame(&world.state, CLIENT, Some(&grant), &frame, row),
        Ok(())
    );
    world.state.viewers.push(ViewerRow {
        client: CLIENT,
        terminal: world.alpha.clone(),
    });
    assert_eq!(
        authorize_frame(&world.state, CLIENT, Some(&grant), &frame, row),
        Err(Denial {
            verbs: Verbs::of(Verb::Input),
            subject: "viewer",
        })
    );
    let (command, row) = get_screen(world.alpha.clone());
    assert_eq!(
        authorize_command(&world.state, CLIENT, Some(&grant), &command, row),
        Ok(())
    );
    assert_eq!(
        authorize_stream_bind(&world.state, CLIENT, None, &world.alpha),
        Err(Denial {
            verbs: Verbs::empty(),
            subject: "ungranted",
        })
    );
}

#[test]
fn a_held_verb_holds_commands_and_refuses_frames() {
    let world = world();
    let held = ConnectionGrant::scoped(
        TerminalScopeSet {
            grants: vec![ScopeGrant {
                verbs: Verbs::of(Verb::Signal),
                held: Verbs::of(Verb::Signal),
                selector: Selector::Global,
            }],
        },
        Ok(()),
        None,
    )
    .expect("fits");
    let kill = ClientCommand::KillResource {
        terminal_id: world.alpha.clone(),
    };
    let row = need("signal", Subject::NamedTerminal);
    assert_eq!(
        admission(&world.state, CLIENT, &held, Request::Command(&kill, row)),
        Ok(Admission::Hold)
    );
    assert_eq!(
        admission(
            &world.state,
            CLIENT,
            &scoped(&["signal@global"]),
            Request::Command(&kill, row)
        ),
        Ok(Admission::Run)
    );
    assert_eq!(
        admission(
            &world.state,
            CLIENT,
            &ConnectionGrant::owner(),
            Request::Command(&kill, row)
        ),
        Ok(Admission::Run)
    );
    let frame = ClientFrame::SetMetadata {
        scope: Scope::Global,
        keep_empty: None,
        decides: None,
    };
    assert_eq!(
        admission(
            &world.state,
            CLIENT,
            &held,
            Request::Frame(
                &frame,
                need("signal", Subject::Global { owner_uds_only: false })
            )
        ),
        Err(Denial {
            verbs: Verbs::of(Verb::Signal),
            subject: "held",
        }),
        "a frame has no result to defer"
    );
}

#[test]
fn a_decision_needs_a_signal_on_the_held_subject() {
    let world = world();
    let row = need("signal", Subject::Global { owner_uds_only: false });
    let decide = ClientFrame::SetMetadata {
        scope: Scope::Global,
        keep_empty: None,
        decides: Some(ApprovalId(1)),
    };
    let needs = held_action_needs(&world.state, Request::Frame(&decide, row)).expect("held");
    assert_eq!(needs.len(), 1);
    assert_eq!(needs[0].verbs, Verbs::of(Verb::Signal));
    let absent = ClientFrame::SetMetadata {
        scope: Scope::Global,
        keep_empty: None,
        decides: Some(ApprovalId(99)),
    };
    assert_eq!(
        held_action_needs(&world.state, Request::Frame(&absent, row)),
        None
    );
}

#[test]
fn a_viewer_cannot_decide_a_held_action() {
    let mut world = world();
    let decide = ClientFrame::SetMetadata {
        scope: Scope::Global,
        keep_empty: None,
        decides: Some(ApprovalId(1)),
    };
    let request = Request::Frame(&decide, need("signal", Subject::Global { owner_uds_only: false }));
    assert_eq!(
        refuse_viewer_decision(&world.state, CLIENT, request),
        Ok(())
    );
    world.state.viewers.push(ViewerRow {
        client: CLIENT,
        terminal: world.alpha.clone(),
    });
    assert_eq!(
        refuse_viewer_decision(&world.state, CLIENT, request),
        Err(Denial {
            verbs: Verbs::of(Verb::Signal),
            subject: "viewer",
        })
    );
}

#[test]
fn an_expired_grant_admits_nothing() {
    let world = world();
    let mut grant = scoped(&["*@global"]);
    assert!(admits_command(&world, &grant, get_screen(world.alpha.clone())));
    // A second after the epoch is long past.
    grant.expires_at = Some(Timestamp {
        seconds: 1,
        nanos: 0,
    });
    assert!(!admits_command(&world, &grant, get_screen(world.alpha.clone())));
    assert!(
        !admits(&world, &grant, &ping()),
        "past its expiry the grant admits nothing, not even liveness"
    );
}

#[test]
fn a_grant_expires_on_its_second() {
    let world = world();
    let mut grant = scoped(&["*@global"]);
    grant.expires_at = Some(Timestamp {
        seconds: 100,
        nanos: 0,
    });
    let at = |seconds, nanos| {
        enforce_at(
            &world.state,
            CLIENT,
            &grant,
            Request::StreamBind(&world.alpha),
            Timestamp { seconds, nanos },
        )
        .is_ok()
    };
    assert!(at(99, 999_999_999));
    assert!(!at(100, 0));
    assert!(grant.is_expired_at(Timestamp {
        seconds: 100,
        nanos: 1
    }));
}

#[test]
fn denial_errors_are_limited_to_one_per_interval() {
    let mut grant = scoped(&["observe@global"]);
    let start: u64 = 1_000_000_000;
    assert!(grant.admit_denial_error(start));
    assert!(!grant.admit_denial_error(start + 999_000_000));
    assert!(grant.admit_denial_error(start + 1_000_000_000));
}

#[test]
fn the_first_revocation_sticks() {
    let mut grant = scoped(&["*@global"]);
    assert_eq!(grant.revocation(), None);
    grant.revoke(Revocation::Expired);
    grant.revoke(Revocation::Revoked);
    assert_eq!(grant.revocation(), Some(Revocation::Expired));
    assert_eq!(
        Revocation::Expired.detach_reason(),
        DetachReason::AuthorizationExpired
    );
    assert_eq!(
        Revocation::Revoked.detach_reason(),
        DetachReason::AuthorizationRevoked
    );
    assert_ne!(Revocation::Expired.message(), Revocation::Revoked.message());
    let placeholder = ConnectionGrant::revoked_placeholder(Revocation::Revoked);
    assert_eq!(placeholder.revocation(), Some(Revocation::Revoked));
}

#[test]
fn a_refreshed_grant_carries_the_new_stamp() {
    let mut grant = scoped(&["*@global"]);
    grant.refresh(RegistryStamp {
        instance: Some("i".to_owned()),
        generation: 4,
        expires_at: None,
    });
    assert_eq!(grant.registry_instance.as_deref(), Some("i"));
    assert_eq!(grant.registry_generation, 4);
}

#[test]
fn a_ceiling_that_is_too_large_mints_nothing() {
    assert_eq!(
        ConnectionGrant::scoped(
            TerminalScopeSet {
                grants: grants_of(&["*@global"])
            },
            Err(ScopeError::TooLarge),
            None
        ),
        Err(ScopeError::TooLarge)
    );
    let mut current = snapshot(&["*@global"]);
    current.records[0].encoded = Err(ScopeError::TooLarge);
    assert!(paired_policy(current)
        .decide_as(0, &peer(TransportType::Quic), Some(&credential(ENROLLED, true)))
        .is_err());
}

#[test]
fn the_owner_reports_every_verb_on_global() {
    let reported = Authority::Owner.reported_grants();
    assert_eq!(reported, grants_of(&["*@global"]));
    assert_eq!(
        scoped(&["observe@host:x"]).authority.reported_grants(),
        grants_of(&["observe@host:x"])
    );
}

// ---- engines and posture ----------------------------------------------------

/// A peer on `transport` running as the serving user.
fn peer(transport: TransportType) -> PeerIdentity {
    PeerIdentity {
        uid: nix::unistd::geteuid().as_raw(),
        transport,
    }
}

const ENROLLED: &str = "sha256:enrolled";

fn credential(id: &str, canonical: bool) -> AuthenticatedCredential {
    AuthenticatedCredential {
        id: id.to_owned(),
        canonical,
    }
}

fn snapshot(scopes: &[&str]) -> WorkloadSnapshot {
    WorkloadSnapshot {
        instance_id: Some("instance".to_owned()),
        generation: 1,
        records: vec![WorkloadRecord {
            id: ENROLLED.to_owned(),
            ceiling: Some(TerminalScopeSet {
                grants: grants_of(scopes),
            }),
            encoded: Ok(()),
            expires_at: Some(2_000_000_000),
        }],
    }
}

fn paired_policy(current: WorkloadSnapshot) -> ScopedPolicy {
    ScopedPolicy::paired(WorkloadRegistry { current })
}

fn empty_snapshot() -> WorkloadSnapshot {
    WorkloadSnapshot {
        instance_id: None,
        generation: 0,
        records: Vec::new(),
    }
}

#[test]
fn local_policy_admits_only_the_owner_socket() {
    let policy = ScopedPolicy::local();
    assert!(policy
        .decide(&peer(TransportType::UnixSocket), None)
        .expect("owner")
        .is_owner());
    for transport in [
        TransportType::Quic,
        TransportType::WebSocket,
        TransportType::WebTransport,
        TransportType::SshTunnel,
        TransportType::Localhost,
    ] {
        assert!(
            policy.decide(&peer(transport), None).is_err(),
            "{transport:?}"
        );
    }
}

#[test]
fn paired_policy_mints_the_registry_ceiling_not_the_cached_scopes() {
    let policy = paired_policy(snapshot(&["observe@host:devbox"]));
    // The owner socket keeps the owner's grant in paired mode.
    assert!(policy
        .decide(&peer(TransportType::UnixSocket), None)
        .expect("owner")
        .is_owner());
    let grant = policy
        .decide(
            &peer(TransportType::Quic),
            Some(&credential(ENROLLED, true)),
        )
        .expect("enrolled");
    let Authority::Scoped { granted, .. } = &grant.authority else {
        panic!("a workload connection got the owner's grant");
    };
    assert_eq!(granted.grants, grants_of(&["observe@host:devbox"]));
    assert_eq!(grant.credential_id.as_deref(), Some(ENROLLED));
    assert_eq!(grant.registry_generation, 1);
    assert!(grant.registry_instance.is_some());
    assert_eq!(
        grant.expires_at,
        Some(Timestamp {
            seconds: 2_000_000_000,
            nanos: 0
        })
    );
}

#[test]
fn paired_policy_refuses_bearer_unknown_and_revoked_credentials() {
    let mut policy = paired_policy(snapshot(&["*@global"]));
    let quic = peer(TransportType::Quic);
    assert!(policy.decide(&quic, None).is_err(), "no credential");
    assert!(
        policy
            .decide(&quic, Some(&credential("bearer-1", false)))
            .is_err(),
        "a bearer credential is admission, never authority"
    );
    let unknown = format!("sha256:{}", "0".repeat(64));
    assert!(policy
        .decide(&quic, Some(&credential(&unknown, true)))
        .is_err());
    assert!(policy
        .decide(&quic, Some(&credential(ENROLLED, true)))
        .is_ok());
    policy
        .registry
        .as_mut()
        .expect("paired")
        .reload(empty_snapshot());
    assert!(
        policy
            .decide(&quic, Some(&credential(ENROLLED, true)))
            .is_err(),
        "a revoked credential mints nothing at the next HELLO"
    );
}

#[test]
fn paired_mode_without_registry_denies_everything() {
    let policy = paired_policy(empty_snapshot());
    let id = format!("sha256:{}", "a".repeat(64));
    for transport in [
        TransportType::Quic,
        TransportType::WebSocket,
        TransportType::WebTransport,
    ] {
        assert!(
            policy
                .decide(&peer(transport), Some(&credential(&id, true)))
                .is_err(),
            "{transport:?}"
        );
    }
}

#[test]
fn another_uid_on_the_owner_socket_is_not_the_owner() {
    let mut stranger = peer(TransportType::UnixSocket);
    stranger.uid = stranger.uid.wrapping_add(1);
    assert!(ScopedPolicy::local().decide(&stranger, None).is_err());
    assert!(paired_policy(snapshot(&["*@global"]))
        .decide(&stranger, None)
        .is_err());
}

#[test]
fn refusals_do_not_say_which_check_failed() {
    let policy = paired_policy(snapshot(&["*@global"]));
    let refusal = policy.decide_as(1, &peer(TransportType::Quic), None);
    assert_eq!(
        refusal,
        Err(PolicyError::Unauthorized("not authorized".to_owned()))
    );
    assert_eq!(
        refusal.expect_err("refused").message(),
        "unauthorized: not authorized"
    );
    assert_eq!(
        PolicyError::Internal("x".to_owned()).message(),
        "internal: x"
    );
    assert!(PermissivePolicy
        .authorize_hello(&peer(TransportType::Quic), None)
        .expect("permissive")
        .is_owner());
}

#[test]
fn posture_follows_the_mode_the_environment_and_the_listeners() {
    let cases = [
        (
            None,
            false,
            false,
            Ok(PolicyPosture::Transitional {
                remote_listener: false,
            }),
        ),
        (
            None,
            false,
            true,
            Ok(PolicyPosture::Transitional {
                remote_listener: true,
            }),
        ),
        (None, true, true, Ok(PolicyPosture::Paired)),
        (Some(PolicyMode::Paired), false, true, Ok(PolicyPosture::Paired)),
        (Some(PolicyMode::Local), false, false, Ok(PolicyPosture::Local)),
        (
            Some(PolicyMode::Local),
            true,
            false,
            Err(PostureError::LocalWithWorkloadMtls),
        ),
        (
            Some(PolicyMode::Local),
            false,
            true,
            Err(PostureError::LocalWithRemoteListener),
        ),
    ];
    for (mode, env, remote, want) in cases {
        assert_eq!(
            PolicyPosture::resolve(mode, env, remote),
            want,
            "{mode:?} env={env} remote={remote}"
        );
    }
    assert!(PolicyPosture::Transitional {
        remote_listener: true
    }
    .warns_remote_owner_grant());
    assert!(!PolicyPosture::Transitional {
        remote_listener: false
    }
    .warns_remote_owner_grant());
    assert!(PolicyPosture::Paired.requires_workload_mtls());
    assert!(!PolicyPosture::Local.requires_workload_mtls());
    assert!(PolicyPosture::Local.is_local());
    assert!(!PolicyPosture::Paired.is_transitional());
    assert_ne!(
        PostureError::LocalWithWorkloadMtls.message(),
        PostureError::LocalWithRemoteListener.message()
    );
}

#[test]
fn an_attach_by_any_name_resolves_its_session() {
    let world = world();
    let group = scoped(&["observe@group:1"]);
    for target in [
        AttachTarget::Last,
        AttachTarget::ByName("alpha".to_owned()),
        AttachTarget::ById(SessionId(1)),
    ] {
        assert!(admits(&world, &group, &attach(target)));
    }
    assert!(!admits(&world, &group, &attach(AttachTarget::Unrecognized)));
}
