//! The guard's third outcome: a request that the grant reaches, but that waits
//! for a decision before it runs.
//!
//! [`super::enforce`] answers whether the grant reaches a request at all, and
//! lets a held verb through like any other. This module asks the next question
//! of a request that was let through: can it run now, or does a signal that it
//! needs reach its subject only through a clause that holds it? A held command
//! waits; a held signal on any other frame is refused, because there is no
//! result to defer.

use super::enforce::{
    covers_all, covers_each, needed, needs_for, needs_option, verdict, Denial, DenialV, Need, NeedV,
};
use super::grant::{Authority, ConnectionGrant};
use super::request::{
    classify, command_target, command_terminal, unwrap_command, Classification, ClientCommand,
    ClientFrame, Request,
};
use super::scope::{unheld, Clause, Verb, Verbs};
use super::topology::{approval_from, PendingApproval, Topology};
use crate::ids::{ClientId, TerminalId};
use vstd::prelude::*;

verus! {

/// What the guard does with a request that the grant reaches.
#[derive(Debug, Clone, Copy, PartialEq, Eq, Structural)]
pub enum Admission {
    /// Run it now.
    Run,
    /// Hold the command for a decision; its result is deferred.
    Hold,
}

/// The refusal of a held signal that has no result to defer.
pub open spec fn held_denial() -> DenialV {
    DenialV { verbs: Verbs::only(Verb::Signal), subject: "held"@ }
}

/// The refusal of a decision by a connection that only watches.
pub open spec fn viewer_decision() -> DenialV {
    DenialV { verbs: Verbs::only(Verb::Signal), subject: "viewer"@ }
}

/// An admission as contracts speak of it.
pub open spec fn admission_view(result: Result<Admission, Denial>) -> Result<Admission, DenialV> {
    match result {
        Ok(admission) => Ok(admission),
        Err(denial) => Err(denial@),
    }
}

/// Whether a signal that `request` needs reaches its subject only through a
/// clause that holds it.
pub open spec fn waits(
    s: Topology,
    client: ClientId,
    clauses: Seq<Clause>,
    request: Request,
) -> bool {
    let request = request.unwrapped();
    request.row() matches Classification::Allow { verbs, subject } && verbs.signal
        && !covers_each(
        clauses.map_values(|clause: Clause| unheld(clause)),
        (match needed(s, client, subject, verbs, request) {
            Some(needs) => needs,
            None => Seq::empty(),
        }),
    )
}

/// What is decided of a request that was let through.
pub open spec fn decided(
    s: Topology,
    client: ClientId,
    grant: ConnectionGrant,
    request: Request,
) -> Result<Admission, DenialV> {
    match grant.authority {
        Authority::Owner => Ok(Admission::Run),
        Authority::Scoped { effective, .. } => if effective.holds() && waits(
            s,
            client,
            effective.clauses@,
            request,
        ) {
            if request is Command {
                Ok(Admission::Hold)
            } else {
                Err(held_denial())
            }
        } else {
            Ok(Admission::Run)
        },
    }
}

/// Run or hold `request`, which the guard let through.
///
/// Only a scoped grant that holds some verb can hold anything: the owner's
/// grant always runs.
pub fn admission<'a>(
    s: &Topology,
    client: ClientId,
    grant: &ConnectionGrant,
    request: Request<'a>,
) -> (result: Result<Admission, Denial>)
    ensures
        admission_view(result) == decided(*s, client, *grant, request),
{
    let effective = match &grant.authority {
        Authority::Owner => {
            return Ok(Admission::Run);
        },
        Authority::Scoped { effective, .. } => effective,
    };
    if !effective.holds_any() {
        return Ok(Admission::Run);
    }
    let holdable = match request {
        Request::Command(_, _) => true,
        _ => false,
    };
    let request = unwrap_command(request);
    let (verbs, subject) = match classify(request) {
        Classification::Allow { verbs, subject } => (verbs, subject),
        _ => {
            return Ok(Admission::Run);
        },
    };
    if !verbs.contains(Verb::Signal) {
        return Ok(Admission::Run);
    }
    let needs = match needs_for(s, client, subject, verbs, request) {
        Some(needs) => needs,
        None => Vec::new(),
    };
    proof {
        if needed(*s, client, subject, verbs, request) is None {
            assert(super::enforce::needs_view(needs@) =~= Seq::<NeedV>::empty());
        }
    }
    if covers_all(&effective.without_holds(), &needs) {
        return Ok(Admission::Run);
    }
    if holdable {
        Ok(Admission::Hold)
    } else {
        Err(Denial { verbs: Verbs::of(Verb::Signal), subject: "held" })
    }
}

/// The approval that a request decides.
pub open spec fn decides(s: Topology, request: Request) -> Option<PendingApproval> {
    match request {
        Request::Frame(frame, _) => match *frame {
            ClientFrame::SetMetadata { decides, .. } => match decides {
                Some(id) => approval_from(s.approvals@, id, 0),
                None => None,
            },
            _ => None,
        },
        _ => None,
    }
}

fn decided_approval<'s, 'a>(s: &'s Topology, request: Request<'a>) -> (found: Option<
    &'s PendingApproval,
>)
    ensures
        match found {
            Some(pending) => decides(*s, request) == Some(*pending),
            None => decides(*s, request) is None,
        },
{
    match request {
        Request::Frame(frame, _) => match frame {
            ClientFrame::SetMetadata { decides, .. } => match decides {
                Some(id) => s.pending_approval(*id),
                None => None,
            },
            _ => None,
        },
        _ => None,
    }
}

/// What a decision needs: a signal on every subject of the held command.
pub open spec fn decision_needs(s: Topology, request: Request) -> Option<Seq<NeedV>> {
    match decides(s, request) {
        Some(pending) => match pending.row {
            Classification::Allow { subject, .. } => needed(
                s,
                pending.requester,
                subject,
                Verbs::only(Verb::Signal),
                Request::Command(&pending.command, pending.row),
            ),
            _ => None,
        },
        None => None,
    }
}

/// What a decision needs: a signal on every subject of the held command, as
/// the server is now. `None` where nothing is held under the key, which is
/// refused like an absent target.
pub fn held_action_needs<'a>(s: &Topology, request: Request<'a>) -> (needs: Option<Vec<Need>>)
    ensures
        needs_option(needs) == decision_needs(*s, request),
{
    let pending = match decided_approval(s, request) {
        Some(pending) => pending,
        None => {
            return None;
        },
    };
    let command = Request::Command(&pending.command, pending.row);
    match classify(command) {
        Classification::Allow { subject, .. } => needs_for(
            s,
            pending.requester,
            subject,
            Verbs::of(Verb::Signal),
            command,
        ),
        _ => None,
    }
}

/// Whether `client` only watches one of the first `n` of `ids`.
pub open spec fn watches_one(s: Topology, client: ClientId, ids: Seq<TerminalId>, n: nat) -> bool
    decreases n,
{
    if n == 0 || n > ids.len() {
        false
    } else {
        watches_one(s, client, ids, (n - 1) as nat) || s.watches(client, ids[n - 1])
    }
}

/// Whether `client` only watches a terminal that the held command names.
pub open spec fn watches_held(s: Topology, client: ClientId, command: ClientCommand) -> bool {
    match command {
        ClientCommand::KillResources { ids } => watches_one(s, client, ids@, ids@.len()),
        ClientCommand::CloseTabResources { ids } => watches_one(s, client, ids@, ids@.len()),
        _ => command_target(command) matches Some(terminal) && s.watches(client, terminal),
    }
}

fn watches_any(s: &Topology, client: ClientId, ids: &Vec<TerminalId>) -> (watches: bool)
    ensures
        watches == watches_one(*s, client, ids@, ids@.len()),
{
    let mut watches = false;
    let mut i: usize = 0;
    while i < ids.len()
        invariant
            i <= ids@.len(),
            watches == watches_one(*s, client, ids@, i as nat),
        decreases ids@.len() - i,
    {
        if s.is_viewer(client, &ids[i]) {
            watches = true;
        }
        i += 1;
    }
    watches
}

/// A connection that only watches a held subject cannot decide the action,
/// whatever its grant.
pub fn refuse_viewer_decision<'a>(
    s: &Topology,
    client: ClientId,
    request: Request<'a>,
) -> (result: Result<(), Denial>)
    ensures
        verdict(result) == (match decides(*s, request.unwrapped()) {
            Some(pending) if watches_held(*s, client, pending.command) => Err::<(), DenialV>(
                viewer_decision(),
            ),
            _ => Ok(()),
        }),
{
    let pending = match decided_approval(s, unwrap_command(request)) {
        Some(pending) => pending,
        None => {
            return Ok(());
        },
    };
    let watches = match &pending.command {
        ClientCommand::KillResources { ids } => watches_any(s, client, ids),
        ClientCommand::CloseTabResources { ids } => watches_any(s, client, ids),
        _ => match command_terminal(&pending.command) {
            Some(terminal) => s.is_viewer(client, terminal),
            None => false,
        },
    };
    if watches {
        return Err(Denial { verbs: Verbs::of(Verb::Signal), subject: "viewer" });
    }
    Ok(())
}

/// The owner's grant never holds anything, and neither does a grant that holds
/// no verb.
pub proof fn law_only_holding_grants_hold(
    s: Topology,
    client: ClientId,
    grant: ConnectionGrant,
    request: Request,
)
    requires
        grant.authority matches Authority::Scoped { effective, .. } ==> !effective.holds(),
    ensures
        decided(s, client, grant, request) == Ok::<Admission, DenialV>(Admission::Run),
{
}

/// A held request that is not a command is refused, and a command never is.
pub proof fn law_only_commands_are_held(
    s: Topology,
    client: ClientId,
    grant: ConnectionGrant,
    request: Request,
)
    ensures
        request is Command ==> decided(s, client, grant, request) is Ok,
        !(request is Command) ==> decided(s, client, grant, request) != Ok::<Admission, DenialV>(
            Admission::Hold,
        ),
{
}

} // verus!
