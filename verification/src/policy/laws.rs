//! What holds of the guard as a whole.

use super::enforce::{
    ack_is_current, alone, authorized, bare, covers, enforced, grants, needed, parent_point,
    reaches, row_verdict, viewer_input, DenialV, NeedV, PointV,
};
use super::grant::ConnectionGrant;
use super::request::{Classification, Exemption, Request, Subject};
use super::scope::{Clause, Selector, Verb, Verbs};
use super::topology::{LocatedV, PaneV, TerminalPointV, Topology};
use crate::clock::Timestamp;
use crate::ids::{ClientId, TerminalId};
use vstd::prelude::*;

verus! {

/// A revoked connection is let nothing through, not even with the owner's
/// grant.
pub proof fn law_revoked_connections_do_nothing(
    s: Topology,
    client: ClientId,
    grant: ConnectionGrant,
    request: Request,
    now: Timestamp,
)
    requires
        grant.revoked is Some,
    ensures
        enforced(s, client, grant, request, now) == Err::<(), DenialV>(bare("revoked"@)),
        authorized(s, client, Some(grant), request, now) == Err::<(), DenialV>(bare("revoked"@)),
{
}

/// The owner's grant reaches every request, at every time, until it is revoked.
pub proof fn law_the_owner_reaches_everything(
    s: Topology,
    client: ClientId,
    grant: ConnectionGrant,
    request: Request,
    now: Timestamp,
)
    requires
        grant.revoked is None,
        grant.authority is Owner,
    ensures
        enforced(s, client, grant, request, now) is Ok,
{
}

/// Past its expiry a scoped grant reaches nothing, not even what needs no verb.
pub proof fn law_expired_grants_reach_nothing(
    s: Topology,
    client: ClientId,
    grant: ConnectionGrant,
    request: Request,
    now: Timestamp,
)
    requires
        grant.authority is Scoped,
        grant.expired(now),
    ensures
        enforced(s, client, grant, request, now) is Err,
{
}

/// A connection without a grant is let nothing through.
pub proof fn law_ungranted_connections_do_nothing(
    s: Topology,
    client: ClientId,
    request: Request,
    now: Timestamp,
)
    ensures
        authorized(s, client, None, request, now) == Err::<(), DenialV>(bare("ungranted"@)),
{
}

/// A refusal discloses nothing of the subject: whatever two requests of one row
/// name, and whatever there is on the server, they are refused alike.
pub proof fn law_refusals_disclose_no_subject(
    s: Topology,
    other: Topology,
    client: ClientId,
    someone: ClientId,
    clauses: Seq<Clause>,
    others: Seq<Clause>,
    request: Request,
    second: Request,
)
    requires
        request.row() == second.row(),
        row_verdict(s, client, clauses, request) is Err,
        row_verdict(other, someone, others, second) is Err,
    ensures
        row_verdict(s, client, clauses, request) == row_verdict(other, someone, others, second),
{
}

/// More clauses never reach less.
pub proof fn law_more_clauses_reach_more(
    s: Topology,
    client: ClientId,
    clauses: Seq<Clause>,
    more: Seq<Clause>,
    request: Request,
)
    requires
        forall|i: int| 0 <= i < clauses.len() ==> more.contains(#[trigger] clauses[i]),
        row_verdict(s, client, clauses, request) is Ok,
    ensures
        row_verdict(s, client, more, request) is Ok,
{
    if let Classification::Allow { verbs, subject } = request.row() {
        if let Some(needs) = needed(s, client, subject, verbs, request) {
            assert forall|i: int| 0 <= i < needs.len() implies covers(more, #[trigger] needs[i]) by {
                assert(covers(clauses, needs[i]));
                assert forall|verb: Verb| #[trigger] needs[i].verbs.has(verb) implies grants(
                    more,
                    verb,
                    needs[i].point,
                ) by {
                    assert(grants(clauses, verb, needs[i].point));
                    let k = choose|k: int|
                        0 <= k < clauses.len() && super::enforce::clause_grants(
                            #[trigger] clauses[k],
                            verb,
                            needs[i].point,
                        );
                    assert(more.contains(clauses[k]));
                    let m = choose|m: int| 0 <= m < more.len() && more[m] == clauses[k];
                    assert(super::enforce::clause_grants(more[m], verb, needs[i].point));
                }
            }
        }
    }
}

/// A terminal grant reaches its terminal and what is reached through it, and no
/// group, host, or server-wide data.
pub proof fn law_terminal_grants_stay_with_the_terminal(id: u32, point: PointV)
    requires
        reaches(Selector::TerminalLocal(id), point),
    ensures
        point matches PointV::Terminal(terminal) && (terminal.pane.at == LocatedV::Local(id) || (
        terminal.parent matches Some(parent) && parent.at == LocatedV::Local(id))),
{
}

/// A group grant follows the terminal: it reaches a terminal of this server
/// exactly while a window of that group holds it.
pub proof fn law_group_grants_follow_the_terminal(s: Topology, group: u32, id: u32)
    requires
        s.terminal_at(TerminalId::Local { id }).parent is None,
    ensures
        reaches(Selector::Group(group), PointV::Terminal(s.terminal_at(TerminalId::Local { id })))
            <==> (s.core_of(TerminalId::Local { id }) matches Some(core) && s.group_of(core)
            == Some(group)),
{
}

/// A satellite grant reaches its own host and that host's terminals only.
pub proof fn law_satellite_grants_stay_with_the_host(selector: Selector, point: PointV)
    requires
        selector is HostSatellite,
        reaches(selector, point),
        point matches PointV::Terminal(terminal) ==> terminal.parent is None,
    ensures
        selector matches Selector::HostSatellite(host) && (point == PointV::SatelliteHost(
            host.name@,
        ) || (point matches PointV::Terminal(terminal) && (
        terminal.pane.at matches LocatedV::Satellite(name, _) && name == host.name@))),
{
}

/// What is reached through the parent is reached by whatever reaches the
/// parent.
pub proof fn law_children_are_reached_through_their_parent(
    selector: Selector,
    pane: PaneV,
    parent: PaneV,
)
    requires
        reaches(selector, alone(parent)),
    ensures
        reaches(selector, PointV::Terminal(TerminalPointV { pane, parent: Some(parent) })),
{
}

/// Appending to a child is judged on its parent alone: a grant that names only
/// the child does not suffice.
pub proof fn law_appends_are_judged_on_the_parent(s: Topology, id: u32, parent: u64)
    requires
        s.core_of(TerminalId::Local { id }) matches Some(core) && s.parent_of(core) == Some(parent),
        s.local_pane(parent).at != LocatedV::Local(id),
    ensures
        parent_point(s, TerminalId::Local { id }) == Some(alone(s.local_pane(parent))),
        !reaches(Selector::TerminalLocal(id), alone(s.local_pane(parent))),
{
}

/// No clause reaches a row that is refused by default, nor one that only the
/// owner's socket may ask for.
pub proof fn law_closed_rows_stay_closed(
    s: Topology,
    client: ClientId,
    clauses: Seq<Clause>,
    request: Request,
)
    requires
        ({
            ||| request.row() is Deny
            ||| request.row() == Classification::Exempt(Exemption::Handshake)
            ||| (request.row() matches Classification::Allow { subject, .. } && subject
                == (Subject::Global { owner_uds_only: true }))
        }),
    ensures
        row_verdict(s, client, clauses, request) is Err,
{
}

/// A connection that only watches a terminal never types into it, whatever its
/// grant.
pub proof fn law_viewers_never_type(
    s: Topology,
    client: ClientId,
    grant: Option<ConnectionGrant>,
    request: Request,
    now: Timestamp,
)
    requires
        viewer_input(s, client, request),
    ensures
        authorized(s, client, grant, request, now) is Err,
{
}

/// A resize of the viewport is judged on every terminal of the attached
/// session, with or without a wire id.
pub proof fn law_resizes_check_every_terminal(
    s: Topology,
    client: ClientId,
    clauses: Seq<Clause>,
    request: Request,
    verbs: Verbs,
    k: int,
)
    requires
        request.row() == (Classification::Allow { verbs, subject: Subject::AttachedTerminals }),
        row_verdict(s, client, clauses, request) is Ok,
        0 <= k < s.attached_cores(client).len(),
    ensures
        covers(
            clauses,
            (NeedV { verbs, point: alone(s.local_pane(s.attached_cores(client)[k])) }),
        ),
{
    let needs = needed(s, client, Subject::AttachedTerminals, verbs, request)->Some_0;
    assert(covers(clauses, needs[k]));
}

/// An acknowledgement that is let through comes from a subscriber of the local
/// terminal it names.
pub proof fn law_acknowledgements_come_from_subscribers(
    s: Topology,
    client: ClientId,
    clauses: Seq<Clause>,
    request: Request,
)
    requires
        request.row() is Allow,
        row_verdict(s, client, clauses, request) is Ok,
    ensures
        ack_is_current(s, client, request),
{
}

} // verus!
