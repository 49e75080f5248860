//! What a scoped grant has to hold before a request is let through.

use super::enforce::{
    authorized, clause_grants, covers, covers_each, enforced, grants, needed, reaches, row_verdict,
    viewer_denial, DenialV, NeedV, PointV,
};
use super::grant::ConnectionGrant;
use super::hold::{decided, decision_needs, viewer_decision, watches_held, watches_one};
use super::request::{
    command_target, ApprovalId, AttachTarget, Classification, ClientCommand, ClientFrame,
    Exemption, Request, Subject,
};
use super::scope::{
    clause_of, unheld, Clause, EffectiveScopeSet, ScopeGrant, Selector, Verb, Verbs,
};
use super::topology::{
    approval_from, called_from, LocatedV, PaneV, PendingApproval, TerminalPointV, Topology,
};
use crate::clock::Timestamp;
use crate::ids::{ClientId, SatelliteHost, TerminalId};
use crate::metadata::Scope;
use vstd::prelude::*;

verus! {

/// Some clause gives `verb`, and both what it was asked for and its ceiling reach
/// `point`.
pub open spec fn lets(clauses: Seq<Clause>, verb: Verb, point: PointV) -> bool {
    exists|i: int|
        {
            &&& 0 <= i < clauses.len()
            &&& (#[trigger] clauses[i]).verbs.has(verb)
            &&& reaches(clauses[i].requested, point)
            &&& reaches(clauses[i].ceiling, point)
        }
}

/// Every one of `verbs` is let onto `point`.
pub open spec fn lets_all(clauses: Seq<Clause>, verbs: Verbs, point: PointV) -> bool {
    &&& verbs.inventory ==> lets(clauses, Verb::Inventory, point)
    &&& verbs.observe ==> lets(clauses, Verb::Observe, point)
    &&& verbs.create ==> lets(clauses, Verb::Create, point)
    &&& verbs.bind ==> lets(clauses, Verb::Bind, point)
    &&& verbs.input ==> lets(clauses, Verb::Input, point)
    &&& verbs.signal ==> lets(clauses, Verb::Signal, point)
}

/// The point of a pane that is looked at without its parent.
pub open spec fn pane_alone(pane: PaneV) -> PointV {
    PointV::Terminal(TerminalPointV { pane, parent: None })
}

proof fn lemma_grants(clauses: Seq<Clause>, verb: Verb, point: PointV)
    ensures
        grants(clauses, verb, point) <==> lets(clauses, verb, point),
{
    if grants(clauses, verb, point) {
        let i = choose|i: int|
            0 <= i < clauses.len() && clause_grants(#[trigger] clauses[i], verb, point);
        assert(clauses[i].verbs.has(verb));
    }
    if lets(clauses, verb, point) {
        let i = choose|i: int|
            {
                &&& 0 <= i < clauses.len()
                &&& (#[trigger] clauses[i]).verbs.has(verb)
                &&& reaches(clauses[i].requested, point)
                &&& reaches(clauses[i].ceiling, point)
            };
        assert(clause_grants(clauses[i], verb, point));
    }
}

proof fn lemma_covers(clauses: Seq<Clause>, verbs: Verbs, point: PointV)
    ensures
        covers(clauses, (NeedV { verbs, point })) <==> lets_all(clauses, verbs, point),
{
    let need = NeedV { verbs, point };
    lemma_grants(clauses, Verb::Inventory, point);
    lemma_grants(clauses, Verb::Observe, point);
    lemma_grants(clauses, Verb::Create, point);
    lemma_grants(clauses, Verb::Bind, point);
    lemma_grants(clauses, Verb::Input, point);
    lemma_grants(clauses, Verb::Signal, point);
    if covers(clauses, need) {
        assert(need.verbs.has(Verb::Inventory) == verbs.inventory);
        assert(need.verbs.has(Verb::Observe) == verbs.observe);
        assert(need.verbs.has(Verb::Create) == verbs.create);
        assert(need.verbs.has(Verb::Bind) == verbs.bind);
        assert(need.verbs.has(Verb::Input) == verbs.input);
        assert(need.verbs.has(Verb::Signal) == verbs.signal);
    }
}

proof fn lemma_one(clauses: Seq<Clause>, verbs: Verbs, point: PointV, needs: Seq<NeedV>)
    requires
        needs == seq![NeedV { verbs, point }],
    ensures
        covers_each(clauses, needs) <==> lets_all(clauses, verbs, point),
{
    lemma_covers(clauses, verbs, point);
    assert(needs[0] == (NeedV { verbs, point }));
    assert(covers_each(clauses, needs) ==> covers(clauses, needs[0]));
}

proof fn lemma_two(clauses: Seq<Clause>, first: NeedV, second: NeedV, needs: Seq<NeedV>)
    requires
        needs == seq![first, second],
    ensures
        covers_each(clauses, needs) <==> lets_all(clauses, first.verbs, first.point) && lets_all(
            clauses,
            second.verbs,
            second.point,
        ),
{
    lemma_covers(clauses, first.verbs, first.point);
    lemma_covers(clauses, second.verbs, second.point);
    assert(needs[0] == first);
    assert(needs[1] == second);
    if covers_each(clauses, needs) {
        assert(covers(clauses, needs[0]));
        assert(covers(clauses, needs[1]));
    }
}

/// A set of verbs holds what it names, and nothing else: a single verb, none of
/// them, all of them, and what is left after some are taken away.
pub proof fn law_verbs_are_told_apart(verbs: Verbs, other: Verbs, verb: Verb, asked: Verb)
    ensures
        Verbs::only(verb).has(asked) <==> verb == asked,
        !Verbs::none().has(asked),
        Verbs::all().has(asked),
        verbs.minus(other).has(asked) <==> verbs.has(asked) && !other.has(asked),
        (forall|any: Verb| #[trigger] verbs.has(any) == other.has(any)) ==> verbs == other,
{
    if forall|any: Verb| #[trigger] verbs.has(any) == other.has(any) {
        assert(verbs.has(Verb::Inventory) == other.has(Verb::Inventory));
        assert(verbs.has(Verb::Observe) == other.has(Verb::Observe));
        assert(verbs.has(Verb::Create) == other.has(Verb::Create));
        assert(verbs.has(Verb::Bind) == other.has(Verb::Bind));
        assert(verbs.has(Verb::Input) == other.has(Verb::Input));
        assert(verbs.has(Verb::Signal) == other.has(Verb::Signal));
    }
}

/// A terminal is moved only by a grant that reaches both ends of the move: what
/// moves, and whose window it joins. Every verb of the row is granted on the
/// point of each of the two ids.
pub proof fn law_moves_need_both_terminals(
    s: Topology,
    client: ClientId,
    grant: ConnectionGrant,
    request: Request,
    verbs: Verbs,
    terminal: TerminalId,
    owner_terminal: TerminalId,
    now: Timestamp,
)
    requires
        request matches Request::Frame(frame, row) && *frame == (ClientFrame::MoveResource {
            terminal,
            owner_terminal,
        }) && row == (Classification::Allow { verbs, subject: Subject::MovedAndOwnerTerminals }),
        grant.authority is Scoped,
    ensures
        enforced(s, client, grant, request, now) is Ok ==> {
            &&& lets_all(
                grant.authority->effective.clauses@,
                verbs,
                PointV::Terminal(s.terminal_at(terminal)),
            )
            &&& lets_all(
                grant.authority->effective.clauses@,
                verbs,
                PointV::Terminal(s.terminal_at(owner_terminal)),
            )
        },
        lets_all(
            grant.authority->effective.clauses@,
            verbs,
            PointV::Terminal(s.terminal_at(terminal)),
        ) && lets_all(
            grant.authority->effective.clauses@,
            verbs,
            PointV::Terminal(s.terminal_at(owner_terminal)),
        ) && grant.revoked is None && !grant.expired(now) ==> enforced(
            s,
            client,
            grant,
            request,
            now,
        ) is Ok,
{
    let clauses = grant.authority->effective.clauses@;
    let first = NeedV { verbs, point: PointV::Terminal(s.terminal_at(terminal)) };
    let second = NeedV { verbs, point: PointV::Terminal(s.terminal_at(owner_terminal)) };
    lemma_two(clauses, first, second, seq![first, second]);
}

/// A grant that reaches nothing but one terminal moves nothing into another one,
/// nor out of it, where that other is a terminal of this server without a
/// parent.
pub proof fn law_moves_stay_within_the_grant(
    s: Topology,
    client: ClientId,
    grant: ConnectionGrant,
    request: Request,
    verbs: Verbs,
    verb: Verb,
    mine: u32,
    other: u32,
    terminal: TerminalId,
    owner_terminal: TerminalId,
    now: Timestamp,
)
    requires
        request matches Request::Frame(frame, row) && *frame == (ClientFrame::MoveResource {
            terminal,
            owner_terminal,
        }) && row == (Classification::Allow { verbs, subject: Subject::MovedAndOwnerTerminals }),
        grant.authority is Scoped,
        forall|i: int|
            0 <= i < grant.authority->effective.clauses@.len() ==> (
            #[trigger] grant.authority->effective.clauses@[i]).requested == Selector::TerminalLocal(
                mine,
            ),
        verbs.has(verb),
        mine != other,
        terminal == (TerminalId::Local { id: other }) || owner_terminal == (TerminalId::Local {
            id: other,
        }),
        s.terminal_at(TerminalId::Local { id: other }).parent is None,
    ensures
        enforced(s, client, grant, request, now) is Err,
{
    law_moves_need_both_terminals(
        s,
        client,
        grant,
        request,
        verbs,
        terminal,
        owner_terminal,
        now,
    );
    let clauses = grant.authority->effective.clauses@;
    let point = PointV::Terminal(s.terminal_at(TerminalId::Local { id: other }));
    if enforced(s, client, grant, request, now) is Ok {
        assert(lets_all(clauses, verbs, point));
        assert(lets(clauses, verb, point));
        let i = choose|i: int|
            {
                &&& 0 <= i < clauses.len()
                &&& (#[trigger] clauses[i]).verbs.has(verb)
                &&& reaches(clauses[i].requested, point)
                &&& reaches(clauses[i].ceiling, point)
            };
        assert(clauses[i].requested == Selector::TerminalLocal(mine));
        assert(false);
    }
}

/// A request about one terminal is let through exactly where every verb of its
/// row is granted on that terminal; an acknowledgement has to be current as
/// well.
pub proof fn law_named_terminals_need_the_grant(
    s: Topology,
    client: ClientId,
    clauses: Seq<Clause>,
    request: Request,
    verbs: Verbs,
    terminal: TerminalId,
)
    requires
        request.row() == (Classification::Allow { verbs, subject: Subject::NamedTerminal }),
        request.terminal() == Some(terminal),
        !(request matches Request::Frame(frame, _) && *frame is FrameAck),
    ensures
        row_verdict(s, client, clauses, request) is Ok <==> lets_all(
            clauses,
            verbs,
            PointV::Terminal(s.terminal_at(terminal)),
        ),
{
    let point = PointV::Terminal(s.terminal_at(terminal));
    lemma_one(clauses, verbs, point, seq![NeedV { verbs, point }]);
}

/// A request about one terminal that names none is refused.
pub proof fn law_unnamed_terminals_are_refused(
    s: Topology,
    client: ClientId,
    clauses: Seq<Clause>,
    request: Request,
    verbs: Verbs,
    subject: Subject,
)
    requires
        request.row() == (Classification::Allow { verbs, subject }),
        subject is NamedTerminal || subject is ParentOfNamed,
        request.terminal() is None,
    ensures
        row_verdict(s, client, clauses, request) is Err,
{
}

/// Whatever carries a terminal's id is about that terminal.
pub proof fn law_frames_are_about_their_terminal(
    frame: ClientFrame,
    row: Classification,
    terminal: TerminalId,
)
    requires
        frame == (ClientFrame::HistoryRequest { terminal_id: terminal }) || frame == (
        ClientFrame::FrameAck { terminal_id: terminal }) || frame == (ClientFrame::InputKey {
            terminal_id: terminal,
        }) || frame == (ClientFrame::InputMouse { terminal_id: terminal }) || frame == (
        ClientFrame::InputFocus { terminal_id: terminal }) || frame == (ClientFrame::InputPaste {
            terminal_id: terminal,
        }) || frame == (ClientFrame::InputTerminalReply { terminal_id: terminal }) || frame == (
        ClientFrame::ResizeTerminal { terminal_id: terminal }) || frame == (
        ClientFrame::SubscribeEvents { terminal: Some(terminal) }),
    ensures
        Request::Frame(&frame, row).terminal() == Some(terminal),
        Request::StreamBind(&terminal).terminal() == Some(terminal),
        Request::StreamBind(&terminal).row() == (Classification::Allow {
            verbs: Verbs::only(Verb::Observe),
            subject: Subject::NamedTerminal,
        }),
{
}

/// Whatever command carries one terminal's id is about that terminal, inside a
/// frame and by itself; its own row counts, not the frame's.
pub proof fn law_commands_are_about_their_terminal(
    command: ClientCommand,
    frame: ClientFrame,
    outer: Classification,
    row: Classification,
    terminal: TerminalId,
)
    requires
        frame == (ClientFrame::Command { command, row }),
        command == (ClientCommand::AttachResource { terminal_id: terminal }) || command == (
        ClientCommand::DetachResource { terminal_id: terminal }) || command == (
        ClientCommand::KillResource { terminal_id: terminal }) || command == (
        ClientCommand::KillResourceIf { terminal_id: terminal }) || command == (
        ClientCommand::GetScreen { terminal_id: terminal }) || command == (
        ClientCommand::RouteInput { terminal_id: terminal }) || command == (
        ClientCommand::ApplyInput { terminal_id: terminal }) || command == (
        ClientCommand::GetTerminalState { terminal_id: terminal }) || command == (
        ClientCommand::SubscribeResourceEvents { terminal_id: terminal }) || command == (
        ClientCommand::AcquireInput { terminal_id: terminal }) || command == (
        ClientCommand::ReleaseInput { terminal_id: terminal }) || command == (
        ClientCommand::SignalTerminal { terminal_id: terminal }) || command == (
        ClientCommand::ReportAsked { terminal_id: terminal }) || command == (
        ClientCommand::ReportAgentState { terminal_id: terminal }) || command == (
        ClientCommand::PutFile { terminal_id: terminal }) || command == (
        ClientCommand::Transcribe { terminal_id: terminal }) || command == (
        ClientCommand::AppendResourceOutput { terminal_id: terminal }),
    ensures
        Request::Command(&command, row).terminal() == Some(terminal),
        Request::Frame(&frame, outer).unwrapped() == Request::Command(&command, row),
        Request::Frame(&frame, outer).unwrapped().terminal() == Some(terminal),
        Request::Frame(&frame, outer).unwrapped().row() == row,
{
}

/// A command on several terminals is let through exactly where every verb is
/// granted on every one of them: one that is out of reach spoils the command.
pub proof fn law_every_named_terminal_counts(
    s: Topology,
    client: ClientId,
    clauses: Seq<Clause>,
    command: ClientCommand,
    ids: Vec<TerminalId>,
    verbs: Verbs,
)
    requires
        command == (ClientCommand::KillResources { ids }) || command == (
        ClientCommand::CloseTabResources { ids }),
    ensures
        row_verdict(
            s,
            client,
            clauses,
            Request::Command(
                &command,
                Classification::Allow { verbs, subject: Subject::EveryNamedTerminal },
            ),
        ) is Ok <==> forall|k: int|
            0 <= k < ids@.len() ==> lets_all(
                clauses,
                verbs,
                PointV::Terminal(s.terminal_at(#[trigger] ids@[k])),
            ),
{
    let row = Classification::Allow { verbs, subject: Subject::EveryNamedTerminal };
    let request = Request::Command(&command, row);
    let needs = needed(s, client, Subject::EveryNamedTerminal, verbs, request)->Some_0;
    assert(needs.len() == ids@.len());
    assert forall|k: int| 0 <= k < ids@.len() implies (#[trigger] needs[k]) == (NeedV {
        verbs,
        point: PointV::Terminal(s.terminal_at(ids@[k])),
    }) && covers(clauses, needs[k]) == lets_all(
        clauses,
        verbs,
        PointV::Terminal(s.terminal_at(ids@[k])),
    ) by {
        lemma_covers(clauses, verbs, PointV::Terminal(s.terminal_at(ids@[k])));
    }
    if row_verdict(s, client, clauses, request) is Ok {
        assert forall|k: int| 0 <= k < ids@.len() implies lets_all(
            clauses,
            verbs,
            PointV::Terminal(s.terminal_at(#[trigger] ids@[k])),
        ) by {
            assert(covers(clauses, needs[k]));
        }
    } else {
        let k = choose|k: int| 0 <= k < needs.len() && !covers(clauses, #[trigger] needs[k]);
        assert(!lets_all(clauses, verbs, PointV::Terminal(s.terminal_at(ids@[k]))));
    }
}

/// A resize of everything that a client is attached to is let through exactly
/// where every verb is granted on every one of those panes.
pub proof fn law_attached_terminals_all_count(
    s: Topology,
    client: ClientId,
    clauses: Seq<Clause>,
    request: Request,
    verbs: Verbs,
)
    requires
        request.row() == (Classification::Allow { verbs, subject: Subject::AttachedTerminals }),
        !(request matches Request::Frame(frame, _) && *frame is FrameAck),
    ensures
        row_verdict(s, client, clauses, request) is Ok <==> forall|k: int|
            0 <= k < s.attached_cores(client).len() ==> lets_all(
                clauses,
                verbs,
                pane_alone(s.local_pane(#[trigger] s.attached_cores(client)[k])),
            ),
{
    let cores = s.attached_cores(client);
    let needs = needed(s, client, Subject::AttachedTerminals, verbs, request)->Some_0;
    assert(needs.len() == cores.len());
    assert forall|k: int| 0 <= k < cores.len() implies (#[trigger] needs[k]) == (NeedV {
        verbs,
        point: pane_alone(s.local_pane(cores[k])),
    }) && covers(clauses, needs[k]) == lets_all(
        clauses,
        verbs,
        pane_alone(s.local_pane(cores[k])),
    ) by {
        lemma_covers(clauses, verbs, pane_alone(s.local_pane(cores[k])));
    }
    if row_verdict(s, client, clauses, request) is Ok {
        assert forall|k: int| 0 <= k < cores.len() implies lets_all(
            clauses,
            verbs,
            pane_alone(s.local_pane(#[trigger] cores[k])),
        ) by {
            assert(covers(clauses, needs[k]));
        }
    } else {
        let k = choose|k: int| 0 <= k < needs.len() && !covers(clauses, #[trigger] needs[k]);
        assert(!lets_all(clauses, verbs, pane_alone(s.local_pane(cores[k]))));
    }
}

/// A spawn on a satellite is let through exactly where its verbs are granted on
/// that satellite.
pub proof fn law_remote_spawns_need_the_host(
    s: Topology,
    client: ClientId,
    clauses: Seq<Clause>,
    frame: ClientFrame,
    verbs: Verbs,
    host: SatelliteHost,
)
    requires
        frame matches ClientFrame::SpawnResource { satellite, .. } && satellite == Some(host),
    ensures
        row_verdict(
            s,
            client,
            clauses,
            Request::Frame(
                &frame,
                Classification::Allow { verbs, subject: Subject::SatelliteHost },
            ),
        ) is Ok <==> lets_all(clauses, verbs, PointV::SatelliteHost(host.name@)),
{
    let point = PointV::SatelliteHost(host.name@);
    lemma_one(clauses, verbs, point, seq![NeedV { verbs, point }]);
}

/// A spawn beside a terminal takes two grants: to create in the group that the
/// terminal stands in, and to bind to that terminal. Beside the owner it is the
/// owner that counts, and under a parent the parent. A terminal that stands in
/// no group of this server has nothing beside it.
pub proof fn law_spawns_need_the_group_and_the_anchor(
    s: Topology,
    client: ClientId,
    clauses: Seq<Clause>,
    frame: ClientFrame,
    verbs: Verbs,
    subject: Subject,
    anchor: TerminalId,
)
    requires
        frame matches ClientFrame::SpawnResource { owner_terminal, parent, .. } && (if subject
            is OwnerTerminalGroup {
            owner_terminal == Some(anchor)
        } else {
            subject is ParentTerminalGroup && parent == Some(anchor)
        }),
    ensures
        row_verdict(
            s,
            client,
            clauses,
            Request::Frame(&frame, Classification::Allow { verbs, subject }),
        ) is Ok <==> {
            let pane = s.terminal_at(anchor).pane;
            &&& !(pane.at is Satellite)
            &&& pane.group matches Some(group)
            &&& lets(clauses, Verb::Create, PointV::Group(group))
            &&& lets(clauses, Verb::Bind, pane_alone(pane))
        },
{
    let pane = s.terminal_at(anchor).pane;
    if pane.group is Some {
        let group = pane.group->Some_0;
        let first = NeedV { verbs: Verbs::only(Verb::Create), point: PointV::Group(group) };
        let second = NeedV { verbs: Verbs::only(Verb::Bind), point: pane_alone(pane) };
        lemma_two(clauses, first, second, seq![first, second]);
    }
}

/// An agent under a terminal of a satellite takes two grants: to create on the
/// host that it is spawned on, and to bind to the terminal that it stands under.
pub proof fn law_remote_agents_need_the_host_and_the_parent(
    s: Topology,
    client: ClientId,
    clauses: Seq<Clause>,
    frame: ClientFrame,
    verbs: Verbs,
    host: SatelliteHost,
    at: SatelliteHost,
    id: u32,
)
    requires
        frame matches ClientFrame::SpawnResource { satellite, parent, .. } && satellite == Some(
            host,
        ) && parent == Some(TerminalId::Satellite { host: at, id }),
    ensures
        row_verdict(
            s,
            client,
            clauses,
            Request::Frame(
                &frame,
                Classification::Allow { verbs, subject: Subject::SatelliteHostAndParent },
            ),
        ) is Ok <==> lets(clauses, Verb::Create, PointV::SatelliteHost(host.name@)) && lets(
            clauses,
            Verb::Bind,
            pane_alone(PaneV { at: LocatedV::Satellite(at.name@, id), group: None }),
        ),
{
    let first = NeedV {
        verbs: Verbs::only(Verb::Create),
        point: PointV::SatelliteHost(host.name@),
    };
    let second = NeedV {
        verbs: Verbs::only(Verb::Bind),
        point: pane_alone(PaneV { at: LocatedV::Satellite(at.name@, id), group: None }),
    };
    lemma_two(clauses, first, second, seq![first, second]);
}

/// Records are read and written exactly where the verbs are granted on what they
/// are about: a terminal, this server for a group, everything for the rest.
pub proof fn law_records_need_their_scope(
    s: Topology,
    client: ClientId,
    clauses: Seq<Clause>,
    frame: ClientFrame,
    verbs: Verbs,
    scope: Scope,
)
    requires
        frame == (ClientFrame::GetMetadata { scope }) || frame == (ClientFrame::DeleteMetadata {
            scope,
        }) || frame == (ClientFrame::ListMetadata { scope }) || frame == (
        ClientFrame::SubscribeMetadata { scope }) || (frame matches ClientFrame::SetMetadata {
            scope: written,
            ..
        } && written == scope),
    ensures
        row_verdict(
            s,
            client,
            clauses,
            Request::Frame(
                &frame,
                Classification::Allow { verbs, subject: Subject::MetadataScope },
            ),
        ) is Ok <==> lets_all(
            clauses,
            verbs,
            (match scope {
                Scope::Resource(id) => PointV::Terminal(s.terminal_at(id)),
                Scope::Group(_) => PointV::LocalHost,
                Scope::Global => PointV::Global,
            }),
        ),
{
    let point = match scope {
        Scope::Resource(id) => PointV::Terminal(s.terminal_at(id)),
        Scope::Group(_) => PointV::LocalHost,
        Scope::Global => PointV::Global,
    };
    lemma_one(clauses, verbs, point, seq![NeedV { verbs, point }]);
}

/// What concerns everything is let through exactly where the verbs are granted
/// on everything, and what only the owner may do over its own socket never is.
/// A payload group is judged on this server.
pub proof fn law_wide_requests_need_wide_grants(
    s: Topology,
    client: ClientId,
    clauses: Seq<Clause>,
    request: Request,
    verbs: Verbs,
    subject: Subject,
)
    requires
        request.row() == (Classification::Allow { verbs, subject }),
        !(request matches Request::Frame(frame, _) && *frame is FrameAck),
    ensures
        subject is ObservableTerminals || subject is InventoryMatches || subject == (
        Subject::Global { owner_uds_only: false }) ==> (row_verdict(s, client, clauses, request)
            is Ok <==> lets_all(clauses, verbs, PointV::Global)),
        subject is PayloadGroup ==> (row_verdict(s, client, clauses, request) is Ok <==> lets_all(
            clauses,
            verbs,
            PointV::LocalHost,
        )),
        subject == (Subject::Global { owner_uds_only: true }) || subject is Nothing || subject
            is CallingConnection ==> row_verdict(s, client, clauses, request) is Err,
{
    lemma_one(clauses, verbs, PointV::Global, seq![NeedV { verbs, point: PointV::Global }]);
    lemma_one(clauses, verbs, PointV::LocalHost, seq![NeedV { verbs, point: PointV::LocalHost }]);
}

/// An attach is judged on the group of the session that it resolves to, and on
/// this server where it resolves to none that has an id.
pub proof fn law_attaches_need_their_group(
    s: Topology,
    client: ClientId,
    clauses: Seq<Clause>,
    target: AttachTarget,
    frame: ClientFrame,
    verbs: Verbs,
    subject: Subject,
)
    requires
        subject is ResolvedGroup || subject is SelectedLocalGroup || subject is NamedSession,
        frame == (ClientFrame::Attach { target }),
    ensures
        row_verdict(
            s,
            client,
            clauses,
            Request::Frame(&frame, Classification::Allow { verbs, subject }),
        ) is Ok <==> lets_all(
            clauses,
            verbs,
            (match s.attach_session(target) {
                Some(session) => match s.session_wire(session) {
                    Some(group) => PointV::Group(group),
                    None => PointV::LocalHost,
                },
                None => PointV::LocalHost,
            }),
        ),
{
    let point = match s.attach_session(target) {
        Some(session) => match s.session_wire(session) {
            Some(group) => PointV::Group(group),
            None => PointV::LocalHost,
        },
        None => PointV::LocalHost,
    };
    lemma_one(clauses, verbs, point, seq![NeedV { verbs, point }]);
}

/// What names a session is judged on that session's group, and on this server
/// where no session has that name.
pub proof fn law_named_sessions_need_their_group(
    s: Topology,
    client: ClientId,
    clauses: Seq<Clause>,
    command: ClientCommand,
    frame: ClientFrame,
    name: String,
    verbs: Verbs,
    subject: Subject,
)
    requires
        subject is ResolvedGroup || subject is SelectedLocalGroup || subject is NamedSession,
        command == (ClientCommand::DetachClients { session: Some(name) }),
        frame matches ClientFrame::SetMetadata { keep_empty, .. } && keep_empty == Some(name),
    ensures
        ({
            let row = Classification::Allow { verbs, subject };
            let group = match called_from(s.sessions@, name@, 0) {
                Some(session) => match s.session_wire(session) {
                    Some(group) => PointV::Group(group),
                    None => PointV::LocalHost,
                },
                None => PointV::LocalHost,
            };
            &&& row_verdict(s, client, clauses, Request::Command(&command, row)) is Ok
                <==> lets_all(clauses, verbs, group)
            &&& row_verdict(s, client, clauses, Request::Frame(&frame, row)) is Ok
                <==> lets_all(clauses, verbs, group)
        }),
{
    let point = match called_from(s.sessions@, name@, 0) {
        Some(session) => match s.session_wire(session) {
            Some(group) => PointV::Group(group),
            None => PointV::LocalHost,
        },
        None => PointV::LocalHost,
    };
    lemma_one(clauses, verbs, point, seq![NeedV { verbs, point }]);
}

/// What a producer appends to a terminal of this server is judged on the pane of
/// the terminal's parent, or on its own where it has none; what it appends to a
/// terminal of a satellite is refused.
pub proof fn law_appends_need_the_parent(
    s: Topology,
    client: ClientId,
    clauses: Seq<Clause>,
    request: Request,
    verbs: Verbs,
    terminal: TerminalId,
)
    requires
        request.row() == (Classification::Allow { verbs, subject: Subject::ParentOfNamed }),
        request.terminal() == Some(terminal),
        !(request matches Request::Frame(frame, _) && *frame is FrameAck),
    ensures
        terminal is Satellite ==> row_verdict(s, client, clauses, request) is Err,
        terminal is Local ==> (row_verdict(s, client, clauses, request) is Ok <==> lets_all(
            clauses,
            verbs,
            pane_alone(
                match s.terminal_at(terminal).parent {
                    Some(parent) => parent,
                    None => s.terminal_at(terminal).pane,
                },
            ),
        )),
{
    let point = pane_alone(
        match s.terminal_at(terminal).parent {
            Some(parent) => parent,
            None => s.terminal_at(terminal).pane,
        },
    );
    lemma_one(clauses, verbs, point, seq![NeedV { verbs, point }]);
}

/// Liveness, clean-up and reading one's own state need no grant at all.
pub proof fn law_exempt_rows_need_no_grant(
    s: Topology,
    client: ClientId,
    clauses: Seq<Clause>,
    request: Request,
    exemption: Exemption,
)
    requires
        request.row() == Classification::Exempt(exemption),
    ensures
        row_verdict(s, client, clauses, request) is Ok <==> !(exemption is Handshake),
{
}

/// Which terminals a selector reaches: everything, those of this server, those
/// of one satellite, those of one group, or one terminal.
pub proof fn law_selectors_reach_their_panes(pane: PaneV, host: SatelliteHost, group: u32, id: u32)
    ensures
        reaches(Selector::Global, pane_alone(pane)),
        reaches(Selector::HostLocal, pane_alone(pane)) <==> !(pane.at is Satellite),
        reaches(Selector::HostSatellite(host), pane_alone(pane)) <==> (
        pane.at matches LocatedV::Satellite(name, _) && name == host.name@),
        reaches(Selector::Group(group), pane_alone(pane)) <==> !(pane.at is Satellite)
            && pane.group == Some(group),
        reaches(Selector::TerminalLocal(id), pane_alone(pane)) <==> pane.at == LocatedV::Local(id),
        reaches(Selector::TerminalSatellite(host, id), pane_alone(pane)) <==> pane.at
            == LocatedV::Satellite(host.name@, id),
{
}

/// A child is reached exactly where it or its parent is.
pub proof fn law_children_are_reached_by_either(selector: Selector, pane: PaneV, parent: PaneV)
    ensures
        reaches(
            selector,
            PointV::Terminal(TerminalPointV { pane, parent: Some(parent) }),
        ) <==> reaches(selector, pane_alone(pane)) || reaches(selector, pane_alone(parent)),
{
}

/// Which wider points a selector reaches: everything only by itself, this server
/// by itself and more, a group by itself and more, a satellite by itself and
/// more. A single terminal reaches none of them.
pub proof fn law_selectors_reach_upwards(
    selector: Selector,
    host: SatelliteHost,
    name: Seq<char>,
    group: u32,
    other: u32,
)
    ensures
        reaches(selector, PointV::Global) <==> selector is Global,
        reaches(selector, PointV::LocalHost) <==> selector is Global || selector is HostLocal,
        reaches(Selector::Global, PointV::Group(group)),
        reaches(Selector::HostLocal, PointV::Group(group)),
        reaches(Selector::Group(other), PointV::Group(group)) <==> other == group,
        reaches(Selector::HostSatellite(host), PointV::SatelliteHost(name)) <==> host.name@ == name,
        reaches(Selector::Global, PointV::SatelliteHost(name)),
        !reaches(Selector::HostLocal, PointV::SatelliteHost(name)),
        !reaches(Selector::Group(group), PointV::SatelliteHost(name)),
        !reaches(Selector::HostSatellite(host), PointV::Group(group)),
        selector is TerminalLocal || selector is TerminalSatellite ==> !reaches(
            selector,
            PointV::Group(group),
        ) && !reaches(selector, PointV::SatelliteHost(name)),
{
}

/// A clause reaches no further than its ceiling, however much was asked for, and
/// no further than was asked for, however high the ceiling.
pub proof fn law_clauses_are_bounded_both_ways(clause: Clause, verb: Verb, point: PointV)
    ensures
        lets(seq![clause], verb, point) <==> clause.verbs.has(verb) && reaches(
            clause.requested,
            point,
        ) && reaches(clause.ceiling, point),
        grants(seq![clause], verb, point) <==> lets(seq![clause], verb, point),
{
    lemma_grants(seq![clause], verb, point);
    assert(seq![clause][0] == clause);
}

/// A grant that becomes a clause keeps its verbs, what it holds back and its
/// selector, which is both what it asks for and its ceiling.
pub proof fn law_clauses_keep_their_grant(grant: ScopeGrant)
    ensures
        clause_of(grant).verbs == grant.verbs,
        clause_of(grant).held == grant.held,
        clause_of(grant).requested == grant.selector,
        clause_of(grant).ceiling == grant.selector,
{
}

/// Without what it holds back, a clause gives the rest where it gave it before.
pub proof fn law_unheld_clauses_give_the_rest(clause: Clause, verb: Verb, point: PointV)
    ensures
        clause_grants(unheld(clause), verb, point) <==> clause_grants(clause, verb, point)
            && !clause.held.has(verb),
{
}

/// A command that signals is held exactly where the grant holds something back
/// and some terminal that it needs is reached only through what is held back.
pub proof fn law_commands_are_held_for_what_is_held_back(
    s: Topology,
    client: ClientId,
    grant: ConnectionGrant,
    command: ClientCommand,
    verbs: Verbs,
    terminal: TerminalId,
)
    requires
        grant.authority is Scoped,
        Request::Command(
            &command,
            Classification::Allow { verbs, subject: Subject::NamedTerminal },
        ).terminal() == Some(terminal),
    ensures
        ({
            let row = Classification::Allow { verbs, subject: Subject::NamedTerminal };
            let clauses = grant.authority->effective.clauses@;
            let free = clauses.map_values(|clause: Clause| unheld(clause));
            let held = decided(s, client, grant, Request::Command(&command, row));
            &&& held is Ok
            &&& held->Ok_0 is Hold <==> verbs.signal && grant.authority->effective.holds()
                && !lets_all(free, verbs, PointV::Terminal(s.terminal_at(terminal)))
            &&& held->Ok_0 is Run <==> !(held->Ok_0 is Hold)
        }),
{
    let clauses = grant.authority->effective.clauses@;
    let free = clauses.map_values(|clause: Clause| unheld(clause));
    let point = PointV::Terminal(s.terminal_at(terminal));
    lemma_one(free, verbs, point, seq![NeedV { verbs, point }]);
}

proof fn lemma_watches_one(s: Topology, client: ClientId, ids: Seq<TerminalId>, n: nat)
    requires
        n <= ids.len(),
    ensures
        watches_one(s, client, ids, n) <==> exists|k: int|
            0 <= k < n && s.watches(client, #[trigger] ids[k]),
    decreases n,
{
    if n > 0 {
        lemma_watches_one(s, client, ids, (n - 1) as nat);
        if s.watches(client, ids[n - 1]) {
            assert(s.watches(client, ids[n - 1]));
        }
    }
}

/// Whoever watches any of the terminals that a held command names is a viewer of
/// that command.
pub proof fn law_viewers_of_any_terminal_are_viewers(
    s: Topology,
    client: ClientId,
    command: ClientCommand,
    ids: Vec<TerminalId>,
)
    requires
        command == (ClientCommand::KillResources { ids }) || command == (
        ClientCommand::CloseTabResources { ids }),
    ensures
        watches_held(s, client, command) <==> exists|k: int|
            0 <= k < ids@.len() && s.watches(client, #[trigger] ids@[k]),
{
    lemma_watches_one(s, client, ids@, ids@.len());
}

/// A scoped grant lets a request through exactly while it is neither revoked nor
/// over, and its clauses let the request's own row through: a command inside a
/// frame is judged as that command.
pub proof fn law_scoped_grants_judge_the_request_itself(
    s: Topology,
    client: ClientId,
    grant: ConnectionGrant,
    request: Request,
    now: Timestamp,
)
    requires
        grant.authority is Scoped,
    ensures
        enforced(s, client, grant, request, now) is Ok <==> grant.revoked is None
            && !grant.expired(now) && row_verdict(
            s,
            client,
            grant.authority->effective.clauses@,
            request.unwrapped(),
        ) is Ok,
        authorized(s, client, Some(grant), request, now) is Ok ==> enforced(
            s,
            client,
            grant,
            request,
            now,
        ) is Ok,
        !(request matches Request::Frame(frame, _) && *frame is Command) ==> request.unwrapped()
            == request,
{
}

/// Output of a terminal of this server is acknowledged by whoever is subscribed
/// to it, and by nobody else; output of a satellite's by anyone whose grant
/// reaches it.
pub proof fn law_acknowledgements_need_a_subscription(
    s: Topology,
    client: ClientId,
    clauses: Seq<Clause>,
    frame: ClientFrame,
    verbs: Verbs,
    terminal: TerminalId,
)
    requires
        frame == (ClientFrame::FrameAck { terminal_id: terminal }),
    ensures
        ({
            let row = Classification::Allow { verbs, subject: Subject::NamedTerminal };
            let verdict = row_verdict(s, client, clauses, Request::Frame(&frame, row));
            let reached = lets_all(clauses, verbs, PointV::Terminal(s.terminal_at(terminal)));
            &&& terminal is Satellite ==> (verdict is Ok <==> reached)
            &&& terminal is Local ==> (verdict is Ok <==> reached && (
            s.core_of(terminal) matches Some(core) && s.subscribed(client, core)))
        }),
{
    let point = PointV::Terminal(s.terminal_at(terminal));
    lemma_one(clauses, verbs, point, seq![NeedV { verbs, point }]);
}

/// Whoever only watches a terminal neither types into it nor takes its input,
/// with whatever grant; whoever does not watch it is judged by its grant alone.
pub proof fn law_watching_rules_typing_out(
    s: Topology,
    client: ClientId,
    grant: ConnectionGrant,
    command: ClientCommand,
    frame: ClientFrame,
    verbs: Verbs,
    row: Classification,
    terminal: TerminalId,
    now: Timestamp,
)
    requires
        command == (ClientCommand::AcquireInput { terminal_id: terminal }),
        frame == (ClientFrame::InputKey { terminal_id: terminal }) || frame == (
        ClientFrame::InputPaste { terminal_id: terminal }) || frame == (ClientFrame::InputMouse {
            terminal_id: terminal,
        }),
        verbs.input,
    ensures
        ({
            let typing = Request::Frame(
                &frame,
                Classification::Allow { verbs, subject: Subject::NamedTerminal },
            );
            let taking = Request::Command(&command, row);
            &&& s.watches(client, terminal) ==> authorized(s, client, Some(grant), typing, now)
                is Err && authorized(s, client, Some(grant), taking, now) is Err
            &&& !s.watches(client, terminal) ==> authorized(s, client, Some(grant), typing, now)
                == enforced(s, client, grant, typing, now) && authorized(
                s,
                client,
                Some(grant),
                taking,
                now,
            ) == enforced(s, client, grant, taking, now)
        }),
{
}

/// A refusal names the verbs of the row and the kind of thing that it is about,
/// never which one: a terminal, a group, a host, or everything.
pub proof fn law_refusals_name_verbs_and_kind(
    s: Topology,
    client: ClientId,
    clauses: Seq<Clause>,
    request: Request,
    verbs: Verbs,
    subject: Subject,
)
    requires
        request.row() == (Classification::Allow { verbs, subject }),
        row_verdict(s, client, clauses, request) is Err,
    ensures
        ({
            let denial = row_verdict(s, client, clauses, request)->Err_0;
            &&& denial.verbs == verbs
            &&& subject is NamedTerminal || subject is EveryNamedTerminal || subject
                is AttachedTerminals || subject is MovedAndOwnerTerminals || subject
                is ParentOfNamed ==> denial.subject == "terminal"@
            &&& subject is ResolvedGroup || subject is SelectedLocalGroup || subject is NamedSession
                || subject is PayloadGroup || subject is OwnerTerminalGroup || subject
                is ParentTerminalGroup ==> denial.subject == "group"@
            &&& subject is SatelliteHost || subject is SatelliteHostAndParent ==> denial.subject
                == "host"@
            &&& subject is ObservableTerminals || subject is InventoryMatches || subject
                is MetadataScope || subject is Global ==> denial.subject == "global"@
        }),
{
}

/// Whoever decides on a held command has to be allowed to signal what that
/// command is about, on behalf of whoever asked for it.
pub proof fn law_deciding_needs_the_signal(
    s: Topology,
    frame: ClientFrame,
    row: Classification,
    pending: PendingApproval,
    id: ApprovalId,
    verbs: Verbs,
    terminal: TerminalId,
)
    requires
        frame matches ClientFrame::SetMetadata { decides, .. } && decides == Some(id),
        approval_from(s.approvals@, id, 0) == Some(pending),
        pending.row == (Classification::Allow { verbs, subject: Subject::NamedTerminal }),
        command_target(pending.command) == Some(terminal),
    ensures
        decision_needs(s, Request::Frame(&frame, row)) == Some(
            seq![
                NeedV {
                    verbs: Verbs::only(Verb::Signal),
                    point: PointV::Terminal(s.terminal_at(terminal)),
                },
            ],
        ),
{
}

/// What decides on nothing, or on something that is not pending, has no such
/// needs.
pub proof fn law_other_requests_decide_nothing(s: Topology, request: Request)
    requires
        !(request matches Request::Frame(frame, _) && (
        *frame matches ClientFrame::SetMetadata { decides, .. } && (decides matches Some(id)
            && approval_from(s.approvals@, id, 0) is Some))),
    ensures
        decision_needs(s, request) is None,
{
}

/// A frame that would be held is refused for the signal that it lacks, and
/// whoever only watches is refused for the input, or for the signal where it
/// would decide on something held: the three are told apart.
pub proof fn law_held_and_viewers_are_told_apart(
    s: Topology,
    client: ClientId,
    grant: ConnectionGrant,
    frame: ClientFrame,
    row: Classification,
    now: Timestamp,
)
    ensures
        decided(s, client, grant, Request::Frame(&frame, row)) matches Err(denial)
            ==> denial.verbs == Verbs::only(Verb::Signal) && denial.subject == "held"@,
        viewer_decision() == (DenialV {
            verbs: Verbs::only(Verb::Signal),
            subject: viewer_denial().subject,
        }),
        enforced(s, client, grant, Request::Frame(&frame, row), now) is Ok && authorized(
            s,
            client,
            Some(grant),
            Request::Frame(&frame, row),
            now,
        ) is Err ==> ({
            let denial = authorized(
                s,
                client,
                Some(grant),
                Request::Frame(&frame, row),
                now,
            )->Err_0;
            denial.verbs == Verbs::only(Verb::Input) && denial.subject == "viewer"@
        }),
{
}

/// A set of clauses holds something back exactly where one of its clauses does:
/// one more clause that holds nothing changes nothing, one that does decides.
pub proof fn law_one_clause_is_enough_to_hold(
    held: EffectiveScopeSet,
    more: EffectiveScopeSet,
    clause: Clause,
)
    requires
        more.clauses@ == held.clauses@.push(clause),
    ensures
        more.holds() <==> held.holds() || clause.held != Verbs::none(),
        held.clauses@.len() == 0 ==> !held.holds(),
{
    let n = held.clauses@.len() as int;
    assert(more.clauses@[n] == clause);
    if held.holds() {
        let i = choose|i: int|
            0 <= i < n && (#[trigger] held.clauses@[i]).held != Verbs::none();
        assert(more.clauses@[i] == held.clauses@[i]);
    }
    if more.holds() && clause.held == Verbs::none() {
        let i = choose|i: int|
            0 <= i < n + 1 && (#[trigger] more.clauses@[i]).held != Verbs::none();
        assert(more.clauses@[i] == held.clauses@[i]);
    }
}

} // verus!
