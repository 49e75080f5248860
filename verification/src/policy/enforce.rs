//! The guard: does a connection's grant reach what it asks for?
//!
//! A request comes with its row of the classification. The guard resolves the
//! row's subject against the server as it is, without changing anything, and
//! holds the connection's clauses to it. A target that is absent and one that
//! is out of reach are refused alike.
//!
//! A group here is a session: the group of a terminal is the session whose
//! window holds it. The group of a spawn's payload and of a metadata scope is
//! an opaque key; it stands for the local host as a whole.

use super::grant::{Authority, ConnectionGrant};
use super::request::{
    classify, named_terminal, unwrap_command, AttachTarget, Classification, ClientCommand,
    ClientFrame, Exemption, Request, Subject,
};
use super::scope::{Clause, EffectiveScopeSet, Selector, Verb, Verbs};
use super::topology::{
    called_from, Located, LocatedV, Pane, PaneV, TerminalPoint, TerminalPointV, Topology,
};
use crate::clock::{current_time, Timestamp};
use crate::ids::{ClientId, SatelliteHost, TerminalId};
use crate::metadata::Scope;
use vstd::prelude::*;

verus! {

/// Why a request was refused. It names the verbs and the kind of subject,
/// never the subject itself.
#[derive(Debug, Clone, Copy, PartialEq, Eq)]
pub struct Denial {
    /// The verbs that the request needed; none for a row that is always
    /// refused.
    pub verbs: Verbs,
    /// `terminal`, `group`, `host`, `global`, `unclassified`, `ungranted`,
    /// `expired`, `revoked`, `viewer` or `held`.
    pub subject: &'static str,
}

/// A [`Denial`] as contracts speak of it.
#[verifier::ext_equal]
pub struct DenialV {
    /// The verbs that the request needed.
    pub verbs: Verbs,
    /// The kind of subject.
    pub subject: Seq<char>,
}

impl View for Denial {
    type V = DenialV;

    open spec fn view(&self) -> DenialV {
        DenialV { verbs: self.verbs, subject: self.subject@ }
    }
}

/// A verdict as contracts speak of it.
pub open spec fn verdict(result: Result<(), Denial>) -> Result<(), DenialV> {
    match result {
        Ok(_) => Ok(()),
        Err(denial) => Err(denial@),
    }
}

/// A refusal that names no verb.
pub open spec fn bare(subject: Seq<char>) -> DenialV {
    DenialV { verbs: Verbs::none(), subject }
}

/// The refusal of input to a terminal that the connection only watches.
pub open spec fn viewer_denial() -> DenialV {
    DenialV { verbs: Verbs::only(Verb::Input), subject: "viewer"@ }
}

/// A resolved subject.
#[derive(Debug, PartialEq, Eq)]
pub enum Point {
    /// The server's own data.
    Global,
    /// A subject of this server that no narrower selector names.
    LocalHost,
    /// A group of this server.
    Group(u32),
    /// A satellite.
    SatelliteHost(SatelliteHost),
    /// A terminal, or a child reached through its parent.
    Terminal(TerminalPoint),
}

/// A [`Point`] as contracts speak of it.
#[verifier::ext_equal]
pub enum PointV {
    /// The server's own data.
    Global,
    /// A subject of this server that no narrower selector names.
    LocalHost,
    /// A group of this server.
    Group(u32),
    /// A satellite.
    SatelliteHost(Seq<char>),
    /// A terminal, or a child reached through its parent.
    Terminal(TerminalPointV),
}

impl View for Point {
    type V = PointV;

    open spec fn view(&self) -> PointV {
        match *self {
            Point::Global => PointV::Global,
            Point::LocalHost => PointV::LocalHost,
            Point::Group(group) => PointV::Group(group),
            Point::SatelliteHost(host) => PointV::SatelliteHost(host.name@),
            Point::Terminal(terminal) => PointV::Terminal(terminal@),
        }
    }
}

/// Verbs that are needed on one subject.
#[derive(Debug, PartialEq, Eq)]
pub struct Need {
    /// The verbs.
    pub verbs: Verbs,
    /// The subject.
    pub point: Point,
}

/// A [`Need`] as contracts speak of it.
#[verifier::ext_equal]
pub struct NeedV {
    /// The verbs.
    pub verbs: Verbs,
    /// The subject.
    pub point: PointV,
}

impl View for Need {
    type V = NeedV;

    open spec fn view(&self) -> NeedV {
        NeedV { verbs: self.verbs, point: self.point@ }
    }
}

/// Needs as contracts speak of them.
pub open spec fn needs_view(needs: Seq<Need>) -> Seq<NeedV> {
    needs.map_values(|need: Need| need@)
}

/// Whether `selector` reaches a terminal as itself.
pub open spec fn reaches_pane(selector: Selector, pane: PaneV) -> bool {
    match selector {
        Selector::Global => true,
        Selector::HostLocal => !(pane.at is Satellite),
        Selector::HostSatellite(host) => pane.at matches LocatedV::Satellite(name, _) && name
            == host.name@,
        Selector::Group(id) => !(pane.at is Satellite) && pane.group == Some(id),
        Selector::TerminalLocal(id) => pane.at == LocatedV::Local(id),
        Selector::TerminalSatellite(host, id) => pane.at == LocatedV::Satellite(host.name@, id),
    }
}

/// Whether `selector` reaches `point`. A child is reached where it or its
/// parent is.
pub open spec fn reaches(selector: Selector, point: PointV) -> bool {
    match point {
        PointV::Terminal(terminal) => reaches_pane(selector, terminal.pane) || (
        terminal.parent matches Some(parent) && reaches_pane(selector, parent)),
        PointV::Global => selector is Global,
        PointV::LocalHost => selector is Global || selector is HostLocal,
        PointV::Group(group) => selector is Global || selector is HostLocal || selector
            == Selector::Group(group),
        PointV::SatelliteHost(name) => selector is Global || (
        selector matches Selector::HostSatellite(host) && host.name@ == name),
    }
}

/// Whether `clause` grants `verb` on `point`: both its selectors reach it.
pub open spec fn clause_grants(clause: Clause, verb: Verb, point: PointV) -> bool {
    clause.verbs.has(verb) && reaches(clause.requested, point) && reaches(clause.ceiling, point)
}

/// Whether some clause grants `verb` on `point`.
pub open spec fn grants(clauses: Seq<Clause>, verb: Verb, point: PointV) -> bool {
    exists|i: int| 0 <= i < clauses.len() && clause_grants(#[trigger] clauses[i], verb, point)
}

/// Whether every verb of `need` is granted.
pub open spec fn covers(clauses: Seq<Clause>, need: NeedV) -> bool {
    forall|verb: Verb| #[trigger] need.verbs.has(verb) ==> grants(clauses, verb, need.point)
}

/// Whether every need is covered.
pub open spec fn covers_each(clauses: Seq<Clause>, needs: Seq<NeedV>) -> bool {
    forall|i: int| 0 <= i < needs.len() ==> covers(clauses, #[trigger] needs[i])
}

/// The subject `terminal` names.
pub open spec fn terminal_point(s: Topology, terminal: TerminalId) -> PointV {
    PointV::Terminal(s.terminal_at(terminal))
}

/// A pane matched only as itself.
pub open spec fn alone(pane: PaneV) -> PointV {
    PointV::Terminal(TerminalPointV { pane, parent: None })
}

/// The subject that a session is: its group, or the local host where no wire
/// id names it.
pub open spec fn session_subject(s: Topology, session: Option<u64>) -> PointV {
    match session {
        Some(session) => match s.session_wire(session) {
            Some(group) => PointV::Group(group),
            None => PointV::LocalHost,
        },
        None => PointV::LocalHost,
    }
}

/// The group that a request resolves to.
pub open spec fn group_subject(s: Topology, request: Request) -> Option<PointV> {
    match request {
        Request::Frame(frame, _) => match *frame {
            ClientFrame::Attach { target } => Some(session_subject(s, s.attach_session(target))),
            ClientFrame::SetMetadata { keep_empty, .. } => Some(
                session_subject(
                    s,
                    (match keep_empty {
                        Some(name) => called_from(s.sessions@, name@, 0),
                        None => None,
                    }),
                ),
            ),
            _ => None,
        },
        Request::Command(command, _) => match *command {
            ClientCommand::DetachClients { session } => match session {
                Some(name) => Some(session_subject(s, called_from(s.sessions@, name@, 0))),
                None => None,
            },
            _ => None,
        },
        Request::StreamBind(_) => None,
    }
}

/// The satellite that a spawn names.
pub open spec fn spawn_host(request: Request) -> Option<Seq<char>> {
    match request {
        Request::Frame(frame, _) => match *frame {
            ClientFrame::SpawnResource { satellite, .. } => match satellite {
                Some(host) => Some(host.name@),
                None => None,
            },
            _ => None,
        },
        _ => None,
    }
}

/// The terminal that a spawn goes beside.
pub open spec fn spawn_beside(request: Request) -> Option<TerminalId> {
    match request {
        Request::Frame(frame, _) => match *frame {
            ClientFrame::SpawnResource { owner_terminal, .. } => owner_terminal,
            _ => None,
        },
        _ => None,
    }
}

/// The parent that a spawn names.
pub open spec fn spawn_under(request: Request) -> Option<TerminalId> {
    match request {
        Request::Frame(frame, _) => match *frame {
            ClientFrame::SpawnResource { parent, .. } => parent,
            _ => None,
        },
        _ => None,
    }
}

/// The terminals that a request for several names.
pub open spec fn several(request: Request) -> Seq<TerminalId> {
    match request {
        Request::Command(command, _) => match *command {
            ClientCommand::KillResources { ids } => ids@,
            ClientCommand::CloseTabResources { ids } => ids@,
            _ => Seq::empty(),
        },
        _ => Seq::empty(),
    }
}

/// The scope of a metadata request.
pub open spec fn request_scope(request: Request) -> Option<Scope> {
    match request {
        Request::Frame(frame, _) => match *frame {
            ClientFrame::GetMetadata { scope } => Some(scope),
            ClientFrame::SetMetadata { scope, .. } => Some(scope),
            ClientFrame::DeleteMetadata { scope } => Some(scope),
            ClientFrame::ListMetadata { scope } => Some(scope),
            ClientFrame::SubscribeMetadata { scope } => Some(scope),
            _ => None,
        },
        _ => None,
    }
}

/// The subject of a metadata scope.
pub open spec fn scope_point(s: Topology, scope: Scope) -> PointV {
    match scope {
        Scope::Resource(id) => terminal_point(s, id),
        Scope::Group(_) => PointV::LocalHost,
        Scope::Global => PointV::Global,
    }
}

/// The parent through which a named resource is reached. A terminal is its own
/// subject; a satellite's child has none that is known here.
pub open spec fn parent_point(s: Topology, wire: TerminalId) -> Option<PointV> {
    match wire {
        TerminalId::Local { id } => {
            let core = s.core_of(wire);
            let parent = match core {
                Some(core) => s.parent_of(core),
                None => None,
            };
            Some(
                match parent {
                    Some(parent) => alone(s.local_pane(parent)),
                    None => alone(s.local_terminal_at(id, core).pane),
                },
            )
        },
        TerminalId::Satellite { .. } => None,
    }
}

/// What it takes to make something beside `anchor`: to create in its group and
/// to bind to itself. An anchor in no local group is refused.
pub open spec fn beside(s: Topology, anchor: TerminalId) -> Option<Seq<NeedV>> {
    let pane = s.terminal_at(anchor).pane;
    match pane.group {
        Some(group) if !(pane.at is Satellite) => Some(
            seq![
                NeedV { verbs: Verbs::only(Verb::Create), point: PointV::Group(group) },
                NeedV { verbs: Verbs::only(Verb::Bind), point: alone(pane) },
            ],
        ),
        _ => None,
    }
}

/// What it takes to make an agent session on a satellite.
pub open spec fn remote_agent(request: Request) -> Option<Seq<NeedV>> {
    match (spawn_host(request), spawn_under(request)) {
        (Some(host), Some(parent)) => match parent {
            TerminalId::Satellite { host: at, id } => Some(
                seq![
                    NeedV { verbs: Verbs::only(Verb::Create), point: PointV::SatelliteHost(host) },
                    NeedV {
                        verbs: Verbs::only(Verb::Bind),
                        point: alone(
                            PaneV { at: LocatedV::Satellite(at.name@, id), group: None },
                        ),
                    },
                ],
            ),
            TerminalId::Local { .. } => None,
        },
        _ => None,
    }
}

/// One need.
pub open spec fn one(verbs: Verbs, point: PointV) -> Seq<NeedV> {
    seq![NeedV { verbs, point }]
}

/// What a row needs, or `None` where its subject cannot be resolved.
pub open spec fn needed(
    s: Topology,
    client: ClientId,
    subject: Subject,
    verbs: Verbs,
    request: Request,
) -> Option<Seq<NeedV>> {
    match subject {
        Subject::NamedTerminal => match request.terminal() {
            Some(id) => Some(one(verbs, terminal_point(s, id))),
            None => None,
        },
        Subject::EveryNamedTerminal => Some(
            several(request).map_values(
                |id: TerminalId| NeedV { verbs, point: terminal_point(s, id) },
            ),
        ),
        Subject::AttachedTerminals => Some(
            s.attached_cores(client).map_values(
                |core: u64| NeedV { verbs, point: alone(s.local_pane(core)) },
            ),
        ),
        Subject::MovedAndOwnerTerminals => match request {
            Request::Frame(frame, _) => match *frame {
                ClientFrame::MoveResource { terminal, owner_terminal } => Some(
                    seq![
                        NeedV { verbs, point: terminal_point(s, terminal) },
                        NeedV { verbs, point: terminal_point(s, owner_terminal) },
                    ],
                ),
                _ => None,
            },
            _ => None,
        },
        Subject::ResolvedGroup | Subject::SelectedLocalGroup | Subject::NamedSession => match group_subject(
            s,
            request,
        ) {
            Some(point) => Some(one(verbs, point)),
            None => None,
        },
        Subject::PayloadGroup => Some(one(verbs, PointV::LocalHost)),
        Subject::SatelliteHost => match spawn_host(request) {
            Some(host) => Some(one(verbs, PointV::SatelliteHost(host))),
            None => None,
        },
        Subject::OwnerTerminalGroup => match spawn_beside(request) {
            Some(owner) => beside(s, owner),
            None => None,
        },
        Subject::ParentTerminalGroup => match spawn_under(request) {
            Some(parent) => beside(s, parent),
            None => None,
        },
        Subject::SatelliteHostAndParent => remote_agent(request),
        Subject::ParentOfNamed => match request.terminal() {
            Some(id) => match parent_point(s, id) {
                Some(point) => Some(one(verbs, point)),
                None => None,
            },
            None => None,
        },
        Subject::MetadataScope => match request_scope(request) {
            Some(scope) => Some(one(verbs, scope_point(s, scope))),
            None => None,
        },
        Subject::ObservableTerminals | Subject::InventoryMatches => Some(
            one(verbs, PointV::Global),
        ),
        Subject::Global { owner_uds_only } => if owner_uds_only {
            None
        } else {
            Some(one(verbs, PointV::Global))
        },
        Subject::Nothing | Subject::CallingConnection => None,
    }
}

/// The kind of subject that a refusal names.
pub open spec fn kind_of(subject: Subject) -> Seq<char> {
    match subject {
        Subject::NamedTerminal
        | Subject::EveryNamedTerminal
        | Subject::AttachedTerminals
        | Subject::MovedAndOwnerTerminals
        | Subject::ParentOfNamed => "terminal"@,
        Subject::ResolvedGroup
        | Subject::SelectedLocalGroup
        | Subject::NamedSession
        | Subject::PayloadGroup
        | Subject::OwnerTerminalGroup
        | Subject::ParentTerminalGroup => "group"@,
        Subject::SatelliteHost | Subject::SatelliteHostAndParent => "host"@,
        Subject::ObservableTerminals
        | Subject::InventoryMatches
        | Subject::MetadataScope
        | Subject::Global { .. } => "global"@,
        Subject::Nothing | Subject::CallingConnection => "unclassified"@,
    }
}

/// An acknowledgement comes from a connection that is subscribed to the local
/// terminal; a satellite's terminal judges its own.
pub open spec fn ack_is_current(s: Topology, client: ClientId, request: Request) -> bool {
    match request {
        Request::Frame(frame, _) => match *frame {
            ClientFrame::FrameAck { terminal_id } => !(terminal_id is Local) || (s.core_of(
                terminal_id,
            ) matches Some(core) && s.subscribed(client, core)),
            _ => true,
        },
        _ => true,
    }
}

/// What a scoped grant decides on a row.
pub open spec fn row_verdict(
    s: Topology,
    client: ClientId,
    clauses: Seq<Clause>,
    request: Request,
) -> Result<(), DenialV> {
    match request.row() {
        Classification::Deny => Err(bare("unclassified"@)),
        Classification::Exempt(exemption) => if exemption is Handshake {
            Err(bare("unclassified"@))
        } else {
            Ok(())
        },
        Classification::Allow { verbs, subject } => {
            let refused = DenialV { verbs, subject: kind_of(subject) };
            match needed(s, client, subject, verbs, request) {
                Some(needs) => if covers_each(clauses, needs) && ack_is_current(
                    s,
                    client,
                    request,
                ) {
                    Ok(())
                } else {
                    Err(refused)
                },
                None => Err(refused),
            }
        },
    }
}

/// What the guard decides at `now`.
pub open spec fn enforced(
    s: Topology,
    client: ClientId,
    grant: ConnectionGrant,
    request: Request,
    now: Timestamp,
) -> Result<(), DenialV> {
    if grant.revoked is Some {
        Err(bare("revoked"@))
    } else {
        match grant.authority {
            Authority::Owner => Ok(()),
            Authority::Scoped { effective, .. } => if grant.expired(now) {
                Err(bare("expired"@))
            } else {
                row_verdict(s, client, effective.clauses@, request.unwrapped())
            },
        }
    }
}

/// Whether a request types into the terminal it names, or asks for its lease.
pub open spec fn asks_input(request: Request) -> bool {
    ||| (request matches Request::Command(command, _) && *command is AcquireInput)
    ||| (request.row() matches Classification::Allow { verbs, subject } && subject is NamedTerminal
        && verbs.input)
}

/// Whether a request is input to a terminal that the connection only watches.
pub open spec fn viewer_input(s: Topology, client: ClientId, request: Request) -> bool {
    let request = request.unwrapped();
    request.terminal() matches Some(terminal) && asks_input(request) && s.watches(client, terminal)
}

/// What the guard decides of a live connection at `now`.
pub open spec fn authorized(
    s: Topology,
    client: ClientId,
    grant: Option<ConnectionGrant>,
    request: Request,
    now: Timestamp,
) -> Result<(), DenialV> {
    match grant {
        None => Err(bare("ungranted"@)),
        Some(grant) => match enforced(s, client, grant, request, now) {
            Ok(_) => if viewer_input(s, client, request) {
                Err(viewer_denial())
            } else {
                Ok(())
            },
            Err(denial) => Err(denial),
        },
    }
}

/// The grant behind an optional reference.
pub open spec fn held_grant(grant: Option<&ConnectionGrant>) -> Option<ConnectionGrant> {
    match grant {
        Some(grant) => Some(*grant),
        None => None,
    }
}

fn terminal_in(selector: &Selector, pane: &Pane) -> (within: bool)
    ensures
        within == reaches_pane(*selector, pane@),
{
    match (selector, &pane.at) {
        (Selector::Global, _) => true,
        (Selector::HostLocal, Located::Local(_)) => true,
        (Selector::HostLocal, Located::Unnamed) => true,
        (Selector::HostSatellite(host), Located::Satellite(name, _)) => host.same(name),
        (Selector::Group(id), Located::Local(_)) => match pane.group {
            Some(group) => group == *id,
            None => false,
        },
        (Selector::Group(id), Located::Unnamed) => match pane.group {
            Some(group) => group == *id,
            None => false,
        },
        (Selector::TerminalLocal(id), Located::Local(at)) => *id == *at,
        (Selector::TerminalSatellite(host, id), Located::Satellite(name, at)) => host.same(name)
            && *id == *at,
        _ => false,
    }
}

fn place_in(selector: &Selector, point: &Point) -> (within: bool)
    requires
        !(*point is Terminal),
    ensures
        within == reaches(*selector, point@),
{
    match (selector, point) {
        (Selector::Global, _) => true,
        (Selector::HostLocal, Point::LocalHost) => true,
        (Selector::HostLocal, Point::Group(_)) => true,
        (Selector::HostSatellite(host), Point::SatelliteHost(name)) => host.same(name),
        (Selector::Group(id), Point::Group(group)) => *id == *group,
        _ => false,
    }
}

/// Whether `selector` reaches `point`.
pub fn contains(selector: &Selector, point: &Point) -> (within: bool)
    ensures
        within == reaches(*selector, point@),
{
    match point {
        Point::Terminal(terminal) => terminal_in(selector, &terminal.pane) || match &terminal.parent {
            Some(parent) => terminal_in(selector, parent),
            None => false,
        },
        _ => place_in(selector, point),
    }
}

fn admits(effective: &EffectiveScopeSet, verb: Verb, point: &Point) -> (granted: bool)
    ensures
        granted == grants(effective.clauses@, verb, point@),
{
    let mut i: usize = 0;
    while i < effective.clauses.len()
        invariant
            i <= effective.clauses@.len(),
            forall|j: int|
                0 <= j < i ==> !clause_grants(#[trigger] effective.clauses@[j], verb, point@),
        decreases effective.clauses@.len() - i,
    {
        let clause = &effective.clauses[i];
        if clause.verbs.contains(verb) && contains(&clause.requested, point) && contains(
            &clause.ceiling,
            point,
        ) {
            return true;
        }
        i += 1;
    }
    false
}

fn covers_one(effective: &EffectiveScopeSet, need: &Need) -> (covered: bool)
    ensures
        covered == covers(effective.clauses@, need@),
{
    let verbs = need.verbs;
    let covered = (!verbs.inventory || admits(effective, Verb::Inventory, &need.point)) && (
    !verbs.observe || admits(effective, Verb::Observe, &need.point)) && (!verbs.create || admits(
        effective,
        Verb::Create,
        &need.point,
    )) && (!verbs.bind || admits(effective, Verb::Bind, &need.point)) && (!verbs.input || admits(
        effective,
        Verb::Input,
        &need.point,
    )) && (!verbs.signal || admits(effective, Verb::Signal, &need.point));
    proof {
        if !covered {
            assert(need@.verbs.has(Verb::Inventory) || !verbs.inventory);
            assert(need@.verbs.has(Verb::Observe) || !verbs.observe);
            assert(need@.verbs.has(Verb::Create) || !verbs.create);
            assert(need@.verbs.has(Verb::Bind) || !verbs.bind);
            assert(need@.verbs.has(Verb::Input) || !verbs.input);
            assert(need@.verbs.has(Verb::Signal) || !verbs.signal);
        }
    }
    covered
}

/// Whether every verb of every need is granted on its subject by some clause
/// whose two selectors both reach it.
pub fn covers_all(effective: &EffectiveScopeSet, needs: &Vec<Need>) -> (covered: bool)
    ensures
        covered == covers_each(effective.clauses@, needs_view(needs@)),
{
    let ghost views = needs_view(needs@);
    let mut i: usize = 0;
    while i < needs.len()
        invariant
            views == needs_view(needs@),
            i <= needs@.len(),
            forall|j: int| 0 <= j < i ==> covers(effective.clauses@, #[trigger] views[j]),
        decreases needs@.len() - i,
    {
        if !covers_one(effective, &needs[i]) {
            assert(!covers(effective.clauses@, views[i as int]));
            return false;
        }
        assert(covers(effective.clauses@, views[i as int]));
        i += 1;
    }
    true
}

fn single(verbs: Verbs, point: Point) -> (needs: Vec<Need>)
    ensures
        needs_view(needs@) == one(verbs, point@),
{
    let mut needs: Vec<Need> = Vec::new();
    needs.push(Need { verbs, point });
    assert(needs_view(needs@) =~= one(verbs, point@));
    needs
}

fn terminal_subject(s: &Topology, wire: &TerminalId) -> (point: Point)
    ensures
        point@ == terminal_point(*s, *wire),
{
    Point::Terminal(s.terminal_point(wire))
}

fn every_named<'a>(s: &Topology, verbs: Verbs, request: Request<'a>) -> (needs: Vec<Need>)
    ensures
        needs_view(needs@) == several(request).map_values(
            |id: TerminalId| NeedV { verbs, point: terminal_point(*s, id) },
        ),
{
    let mut needs: Vec<Need> = Vec::new();
    let ids = match request {
        Request::Command(command, _) => match command {
            ClientCommand::KillResources { ids } => ids,
            ClientCommand::CloseTabResources { ids } => ids,
            _ => {
                assert(needs_view(needs@) =~= several(request).map_values(
                    |id: TerminalId| NeedV { verbs, point: terminal_point(*s, id) },
                ));
                return needs;
            },
        },
        _ => {
            assert(needs_view(needs@) =~= several(request).map_values(
                |id: TerminalId| NeedV { verbs, point: terminal_point(*s, id) },
            ));
            return needs;
        },
    };
    let mut i: usize = 0;
    while i < ids.len()
        invariant
            i <= ids@.len(),
            needs_view(needs@) == ids@.take(i as int).map_values(
                |id: TerminalId| NeedV { verbs, point: terminal_point(*s, id) },
            ),
        decreases ids@.len() - i,
    {
        let ghost before = needs@;
        needs.push(Need { verbs, point: terminal_subject(s, &ids[i]) });
        i += 1;
        proof {
            assert(needs_view(needs@) =~= needs_view(before).push(needs@.last()@));
            assert(needs_view(needs@) =~= ids@.take(i as int).map_values(
                |id: TerminalId| NeedV { verbs, point: terminal_point(*s, id) },
            ));
        }
    }
    assert(ids@.take(i as int) =~= ids@);
    needs
}

fn attached_terminals(s: &Topology, client: ClientId, verbs: Verbs) -> (needs: Vec<Need>)
    ensures
        needs_view(needs@) == s.attached_cores(client).map_values(
            |core: u64| NeedV { verbs, point: alone(s.local_pane(core)) },
        ),
{
    let cores = s.attached_resources(client);
    let mut needs: Vec<Need> = Vec::new();
    let mut i: usize = 0;
    while i < cores.len()
        invariant
            i <= cores@.len(),
            needs_view(needs@) == cores@.take(i as int).map_values(
                |core: u64| NeedV { verbs, point: alone(s.local_pane(core)) },
            ),
        decreases cores@.len() - i,
    {
        let ghost before = needs@;
        let pane = s.local_point(cores[i]);
        needs.push(Need { verbs, point: Point::Terminal(TerminalPoint { pane, parent: None }) });
        i += 1;
        proof {
            assert(needs_view(needs@) =~= needs_view(before).push(needs@.last()@));
            assert(needs_view(needs@) =~= cores@.take(i as int).map_values(
                |core: u64| NeedV { verbs, point: alone(s.local_pane(core)) },
            ));
        }
    }
    assert(cores@.take(i as int) =~= cores@);
    needs
}

fn pair(first: Need, second: Need) -> (needs: Vec<Need>)
    ensures
        needs_view(needs@) == seq![first@, second@],
{
    let mut needs: Vec<Need> = Vec::new();
    needs.push(first);
    needs.push(second);
    assert(needs_view(needs@) =~= seq![first@, second@]);
    needs
}

/// Needs behind an option, as contracts speak of them.
pub open spec fn needs_option(needs: Option<Vec<Need>>) -> Option<Seq<NeedV>> {
    match needs {
        Some(needs) => Some(needs_view(needs@)),
        None => None,
    }
}

fn moved_and_owner<'a>(s: &Topology, verbs: Verbs, request: Request<'a>) -> (needs: Option<
    Vec<Need>,
>)
    ensures
        forall|client: ClientId|
            needs_option(needs) == #[trigger] needed(
                *s,
                client,
                Subject::MovedAndOwnerTerminals,
                verbs,
                request,
            ),
{
    match request {
        Request::Frame(frame, _) => match frame {
            ClientFrame::MoveResource { terminal, owner_terminal } => Some(
                pair(
                    Need { verbs, point: terminal_subject(s, terminal) },
                    Need { verbs, point: terminal_subject(s, owner_terminal) },
                ),
            ),
            _ => None,
        },
        _ => None,
    }
}

fn session_point(s: &Topology, session: Option<u64>) -> (point: Point)
    ensures
        point@ == session_subject(*s, session),
{
    match session {
        Some(session) => match s.wire_of_session(session) {
            Some(group) => Point::Group(group),
            None => Point::LocalHost,
        },
        None => Point::LocalHost,
    }
}

/// A subject behind an option, as contracts speak of it.
pub open spec fn point_option(point: Option<Point>) -> Option<PointV> {
    match point {
        Some(point) => Some(point@),
        None => None,
    }
}

/// The session that an attach to `target` joins. Nothing is made: a target
/// that would be made names the session it would reuse. The session that the
/// guard judged is the session that the client joins.
pub fn resolve_attach_session(s: &Topology, target: &AttachTarget) -> (session: Option<u64>)
    ensures
        session == s.attach_session(*target),
{
    s.find_attach_session(target)
}

fn resolved_group<'a>(s: &Topology, request: Request<'a>) -> (point: Option<Point>)
    ensures
        point_option(point) == group_subject(*s, request),
{
    let session = match request {
        Request::Frame(frame, _) => match frame {
            ClientFrame::Attach { target } => resolve_attach_session(s, target),
            ClientFrame::SetMetadata { keep_empty, .. } => match keep_empty {
                Some(name) => s.find_session_by_name(name.as_str()),
                None => None,
            },
            _ => {
                return None;
            },
        },
        Request::Command(command, _) => match command {
            ClientCommand::DetachClients { session } => match session {
                Some(name) => s.find_session_by_name(name.as_str()),
                None => {
                    return None;
                },
            },
            _ => {
                return None;
            },
        },
        Request::StreamBind(_) => {
            return None;
        },
    };
    Some(session_point(s, session))
}

fn spawn_satellite<'a>(request: Request<'a>) -> (host: Option<SatelliteHost>)
    ensures
        match host {
            Some(host) => spawn_host(request) == Some(host.name@),
            None => spawn_host(request) is None,
        },
{
    match request {
        Request::Frame(frame, _) => match frame {
            ClientFrame::SpawnResource { satellite, .. } => match satellite {
                Some(host) => Some(host.clone()),
                None => None,
            },
            _ => None,
        },
        _ => None,
    }
}

fn spawn_owner<'a>(request: Request<'a>) -> (owner: Option<&'a TerminalId>)
    ensures
        super::request::deref(owner) == spawn_beside(request),
{
    match request {
        Request::Frame(frame, _) => match frame {
            ClientFrame::SpawnResource { owner_terminal, .. } => match owner_terminal {
                Some(owner) => Some(owner),
                None => None,
            },
            _ => None,
        },
        _ => None,
    }
}

fn spawn_parent<'a>(request: Request<'a>) -> (parent: Option<&'a TerminalId>)
    ensures
        super::request::deref(parent) == spawn_under(request),
{
    match request {
        Request::Frame(frame, _) => match frame {
            ClientFrame::SpawnResource { parent, .. } => match parent {
                Some(parent) => Some(parent),
                None => None,
            },
            _ => None,
        },
        _ => None,
    }
}

fn create_beside(s: &Topology, anchor: &TerminalId) -> (needs: Option<Vec<Need>>)
    ensures
        needs_option(needs) == beside(*s, *anchor),
{
    let point = s.terminal_point(anchor);
    let group = match point.pane.at {
        Located::Local(_) => point.pane.group,
        Located::Unnamed => point.pane.group,
        Located::Satellite(_, _) => None,
    };
    match group {
        Some(group) => Some(
            pair(
                Need { verbs: Verbs::of(Verb::Create), point: Point::Group(group) },
                Need {
                    verbs: Verbs::of(Verb::Bind),
                    point: Point::Terminal(TerminalPoint { pane: point.pane, parent: None }),
                },
            ),
        ),
        None => None,
    }
}

fn satellite_agent_spawn<'a>(request: Request<'a>) -> (needs: Option<Vec<Need>>)
    ensures
        needs_option(needs) == remote_agent(request),
{
    let host = match spawn_satellite(request) {
        Some(host) => host,
        None => {
            return None;
        },
    };
    let parent = match spawn_parent(request) {
        Some(parent) => parent,
        None => {
            return None;
        },
    };
    match parent {
        TerminalId::Satellite { host: at, id } => {
            let pane = Pane { at: Located::Satellite(at.clone(), *id), group: None };
            Some(
                pair(
                    Need { verbs: Verbs::of(Verb::Create), point: Point::SatelliteHost(host) },
                    Need {
                        verbs: Verbs::of(Verb::Bind),
                        point: Point::Terminal(TerminalPoint { pane, parent: None }),
                    },
                ),
            )
        },
        TerminalId::Local { .. } => None,
    }
}

fn parent_subject(s: &Topology, wire: &TerminalId) -> (point: Option<Point>)
    ensures
        point_option(point) == parent_point(*s, *wire),
{
    match wire {
        TerminalId::Local { id } => {
            let core = s.terminal_from_wire(wire);
            let parent = match core {
                Some(core) => s.resource_parent(core),
                None => None,
            };
            let pane = match parent {
                Some(parent) => s.local_point(parent),
                None => s.local_terminal(*id, core).pane,
            };
            Some(Point::Terminal(TerminalPoint { pane, parent: None }))
        },
        TerminalId::Satellite { .. } => None,
    }
}

fn metadata_scope<'a>(request: Request<'a>) -> (scope: Option<&'a Scope>)
    ensures
        match scope {
            Some(scope) => request_scope(request) == Some(*scope),
            None => request_scope(request) is None,
        },
{
    match request {
        Request::Frame(frame, _) => match frame {
            ClientFrame::GetMetadata { scope } => Some(scope),
            ClientFrame::SetMetadata { scope, .. } => Some(scope),
            ClientFrame::DeleteMetadata { scope } => Some(scope),
            ClientFrame::ListMetadata { scope } => Some(scope),
            ClientFrame::SubscribeMetadata { scope } => Some(scope),
            _ => None,
        },
        _ => None,
    }
}

fn scope_subject(s: &Topology, scope: &Scope) -> (point: Point)
    ensures
        point@ == scope_point(*s, *scope),
{
    match scope {
        Scope::Resource(id) => terminal_subject(s, id),
        Scope::Group(_) => Point::LocalHost,
        Scope::Global => Point::Global,
    }
}

/// What a row needs, or `None` where its subject cannot be resolved: that is a
/// refusal, never a skip.
pub fn needs_for<'a>(
    s: &Topology,
    client: ClientId,
    subject: Subject,
    verbs: Verbs,
    request: Request<'a>,
) -> (needs: Option<Vec<Need>>)
    ensures
        needs_option(needs) == needed(*s, client, subject, verbs, request),
{
    match subject {
        Subject::NamedTerminal => match named_terminal(request) {
            Some(id) => Some(single(verbs, terminal_subject(s, id))),
            None => None,
        },
        Subject::EveryNamedTerminal => Some(every_named(s, verbs, request)),
        Subject::AttachedTerminals => Some(attached_terminals(s, client, verbs)),
        Subject::MovedAndOwnerTerminals => {
            let needs = moved_and_owner(s, verbs, request);
            assert(needs_option(needs) == needed(*s, client, subject, verbs, request));
            needs
        },
        Subject::ResolvedGroup | Subject::SelectedLocalGroup | Subject::NamedSession => match resolved_group(
            s,
            request,
        ) {
            Some(point) => Some(single(verbs, point)),
            None => None,
        },
        Subject::PayloadGroup => Some(single(verbs, Point::LocalHost)),
        Subject::SatelliteHost => match spawn_satellite(request) {
            Some(host) => Some(single(verbs, Point::SatelliteHost(host))),
            None => None,
        },
        Subject::OwnerTerminalGroup => match spawn_owner(request) {
            Some(owner) => create_beside(s, owner),
            None => None,
        },
        Subject::ParentTerminalGroup => match spawn_parent(request) {
            Some(parent) => create_beside(s, parent),
            None => None,
        },
        Subject::SatelliteHostAndParent => satellite_agent_spawn(request),
        Subject::ParentOfNamed => match named_terminal(request) {
            Some(id) => match parent_subject(s, id) {
                Some(point) => Some(single(verbs, point)),
                None => None,
            },
            None => None,
        },
        Subject::MetadataScope => match metadata_scope(request) {
            Some(scope) => Some(single(verbs, scope_subject(s, scope))),
            None => None,
        },
        Subject::ObservableTerminals | Subject::InventoryMatches => Some(
            single(verbs, Point::Global),
        ),
        Subject::Global { owner_uds_only } => if owner_uds_only {
            None
        } else {
            Some(single(verbs, Point::Global))
        },
        Subject::Nothing | Subject::CallingConnection => None,
    }
}

fn subject_kind(subject: Subject) -> (kind: &'static str)
    ensures
        kind@ == kind_of(subject),
{
    match subject {
        Subject::NamedTerminal
        | Subject::EveryNamedTerminal
        | Subject::AttachedTerminals
        | Subject::MovedAndOwnerTerminals
        | Subject::ParentOfNamed => "terminal",
        Subject::ResolvedGroup
        | Subject::SelectedLocalGroup
        | Subject::NamedSession
        | Subject::PayloadGroup
        | Subject::OwnerTerminalGroup
        | Subject::ParentTerminalGroup => "group",
        Subject::SatelliteHost | Subject::SatelliteHostAndParent => "host",
        Subject::ObservableTerminals
        | Subject::InventoryMatches
        | Subject::MetadataScope
        | Subject::Global { .. } => "global",
        Subject::Nothing | Subject::CallingConnection => "unclassified",
    }
}

fn frame_ack_is_current<'a>(s: &Topology, client: ClientId, request: Request<'a>) -> (current:
    bool)
    ensures
        current == ack_is_current(*s, client, request),
{
    match request {
        Request::Frame(frame, _) => match frame {
            ClientFrame::FrameAck { terminal_id } => {
                if !terminal_id.is_local() {
                    return true;
                }
                match s.terminal_from_wire(terminal_id) {
                    Some(core) => s.is_subscribed(client, core),
                    None => false,
                }
            },
            _ => true,
        },
        _ => true,
    }
}

/// Decide `request` for `client` under `grant` at `now`.
///
/// The owner's grant lets everything through. A scoped grant is held to the
/// request's row. A revoked connection is let nothing through, whatever shape
/// its authority had, and neither is a scoped one past its expiry.
pub fn enforce_at<'a>(
    s: &Topology,
    client: ClientId,
    grant: &ConnectionGrant,
    request: Request<'a>,
    now: Timestamp,
) -> (result: Result<(), Denial>)
    ensures
        verdict(result) == enforced(*s, client, *grant, request, now),
{
    if grant.revoked.is_some() {
        return Err(Denial { verbs: Verbs::empty(), subject: "revoked" });
    }
    let effective = match &grant.authority {
        Authority::Owner => {
            return Ok(());
        },
        Authority::Scoped { effective, .. } => effective,
    };
    if grant.is_expired_at(now) {
        return Err(Denial { verbs: Verbs::empty(), subject: "expired" });
    }
    let request = unwrap_command(request);
    match classify(request) {
        Classification::Deny => Err(Denial { verbs: Verbs::empty(), subject: "unclassified" }),
        Classification::Exempt(exemption) => match exemption {
            Exemption::Handshake => Err(
                Denial { verbs: Verbs::empty(), subject: "unclassified" },
            ),
            Exemption::Liveness | Exemption::Cleanup | Exemption::SelfRead => Ok(()),
        },
        Classification::Allow { verbs, subject } => {
            let refused = Denial { verbs, subject: subject_kind(subject) };
            match needs_for(s, client, subject, verbs, request) {
                Some(needs) => if covers_all(effective, &needs) && frame_ack_is_current(
                    s,
                    client,
                    request,
                ) {
                    Ok(())
                } else {
                    Err(refused)
                },
                None => Err(refused),
            }
        },
    }
}

/// Decide `request` for `client` under `grant` now.
pub fn enforce<'a>(
    s: &Topology,
    client: ClientId,
    grant: &ConnectionGrant,
    request: Request<'a>,
) -> (result: Result<(), Denial>)
    ensures
        exists|now: Timestamp|
            verdict(result) == #[trigger] enforced(*s, client, *grant, request, now),
{
    let now = current_time();
    let result = enforce_at(s, client, grant, request, now);
    assert(verdict(result) == enforced(*s, client, *grant, request, now));
    result
}

fn is_input_request<'a>(request: Request<'a>) -> (input: bool)
    ensures
        input == asks_input(request),
{
    match request {
        Request::Command(command, _) => match command {
            ClientCommand::AcquireInput { .. } => {
                return true;
            },
            _ => {},
        },
        _ => {},
    }
    match classify(request) {
        Classification::Allow { verbs, subject } => match subject {
            Subject::NamedTerminal => verbs.contains(Verb::Input),
            _ => false,
        },
        _ => false,
    }
}

/// Input to a terminal that the connection only watches is refused, whatever
/// the grant reaches.
pub fn refuse_viewer_input<'a>(s: &Topology, client: ClientId, request: Request<'a>) -> (result:
    Result<(), Denial>)
    ensures
        verdict(result) == (if viewer_input(*s, client, request) {
            Err::<(), DenialV>(viewer_denial())
        } else {
            Ok(())
        }),
{
    let request = unwrap_command(request);
    let terminal = match named_terminal(request) {
        Some(terminal) => terminal,
        None => {
            return Ok(());
        },
    };
    if is_input_request(request) && s.is_viewer(client, terminal) {
        return Err(Denial { verbs: Verbs::of(Verb::Input), subject: "viewer" });
    }
    Ok(())
}

/// Guard one request of a connection at `now`. A connection without a grant is
/// let nothing through.
pub fn authorize_at<'a>(
    s: &Topology,
    client: ClientId,
    grant: Option<&ConnectionGrant>,
    request: Request<'a>,
    now: Timestamp,
) -> (result: Result<(), Denial>)
    ensures
        verdict(result) == authorized(*s, client, held_grant(grant), request, now),
{
    let grant = match grant {
        Some(grant) => grant,
        None => {
            return Err(Denial { verbs: Verbs::empty(), subject: "ungranted" });
        },
    };
    match enforce_at(s, client, grant, request, now) {
        Ok(_) => refuse_viewer_input(s, client, request),
        Err(denial) => Err(denial),
    }
}

/// Guard one frame of `client`, which has the given row.
pub fn authorize_frame(
    s: &Topology,
    client: ClientId,
    grant: Option<&ConnectionGrant>,
    frame: &ClientFrame,
    row: Classification,
) -> (result: Result<(), Denial>)
    ensures
        exists|now: Timestamp|
            verdict(result) == #[trigger] authorized(
                *s,
                client,
                held_grant(grant),
                Request::Frame(frame, row),
                now,
            ),
{
    let now = current_time();
    let result = authorize_at(s, client, grant, Request::Frame(frame, row), now);
    assert(verdict(result) == authorized(
        *s,
        client,
        held_grant(grant),
        Request::Frame(frame, row),
        now,
    ));
    result
}

/// Guard one nested command of `client`, which has the given row.
pub fn authorize_command(
    s: &Topology,
    client: ClientId,
    grant: Option<&ConnectionGrant>,
    command: &ClientCommand,
    row: Classification,
) -> (result: Result<(), Denial>)
    ensures
        exists|now: Timestamp|
            verdict(result) == #[trigger] authorized(
                *s,
                client,
                held_grant(grant),
                Request::Command(command, row),
                now,
            ),
{
    let now = current_time();
    let result = authorize_at(s, client, grant, Request::Command(command, row), now);
    assert(verdict(result) == authorized(
        *s,
        client,
        held_grant(grant),
        Request::Command(command, row),
        now,
    ));
    result
}

/// Guard one stream of `client` that binds to `terminal`.
pub fn authorize_stream_bind(
    s: &Topology,
    client: ClientId,
    grant: Option<&ConnectionGrant>,
    terminal: &TerminalId,
) -> (result: Result<(), Denial>)
    ensures
        exists|now: Timestamp|
            verdict(result) == #[trigger] authorized(
                *s,
                client,
                held_grant(grant),
                Request::StreamBind(terminal),
                now,
            ),
{
    let now = current_time();
    let result = authorize_at(s, client, grant, Request::StreamBind(terminal), now);
    assert(verdict(result) == authorized(
        *s,
        client,
        held_grant(grant),
        Request::StreamBind(terminal),
        now,
    ));
    result
}

} // verus!
