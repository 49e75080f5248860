//! That each answer finds the request it belongs to.

use crate::hub::fault::RelayFault;
use crate::hub::gate::distinct_observers;
use crate::hub::laws::law_refused_registrations_are_undone;
use crate::hub::registry::{find, registered, ProxySubscription};
use crate::hub::requests::{nth_id, PendingDetach, ReplyId, RequestsV};
use crate::hub::session::{
    flow_step, is_stream, rejects, stream_scope, Link, RelayRequest, Resolved, SatelliteSpawn,
    SessionV,
};
use crate::ids::TerminalId;
use crate::mailbox::MailboxV;
use crate::wire::{Command, CommandResult, ErrorCode, FrameKind, SpawnError, SpawnResult};
use vstd::prelude::*;

verus! {

/// There is an id that no request in flight uses.
pub open spec fn has_free_id(book: RequestsV) -> bool {
    exists|id: u32| book.first_unused(id)
}

proof fn lemma_fresh(book: RequestsV)
    requires
        has_free_id(book),
    ensures
        book.first_unused(book.fresh()),
        !book.used(book.fresh()),
{
}

/// The id of a new request is used by no other request in flight, and the search
/// for the next one starts behind it.
pub proof fn law_new_ids_are_free_and_move_on(book: RequestsV)
    requires
        has_free_id(book),
        book.next >= 1,
    ensures
        !book.commands.contains_key(book.fresh()),
        !book.spawns.contains_key(book.fresh()),
        !book.detaches.contains_key(book.fresh()),
        !book.reads.contains_key(book.fresh()),
        book.fresh() >= 1,
        book.fresh() < u32::MAX ==> book.advanced().next == book.fresh() + 1,
        book.fresh() == u32::MAX ==> book.advanced().next == 1,
        !book.used(book.next) ==> book.fresh() == book.next,
        book.advanced().commands == book.commands,
        book.advanced().spawns == book.spawns,
        book.advanced().detaches == book.detaches,
        book.advanced().reads == book.reads,
{
    lemma_fresh(book);
    let id = book.fresh();
    let k = choose|k: int|
        0 <= k < u32::MAX && #[trigger] nth_id(book.next, k) == id && forall|j: int|
            0 <= j < k ==> book.used(#[trigger] nth_id(book.next, j) as u32);
    if !book.used(book.next) {
        if k > 0 {
            assert(book.used(nth_id(book.next, 0) as u32));
        }
    }
}

/// Whoever sends a command gets the satellite's answer to that command, word for
/// word, and gets it once.
pub proof fn law_command_answers_find_their_sender(
    session: SessionV,
    request: RelayRequest,
    command: Command,
    reply: ReplyId,
    result: CommandResult,
    boxes: Seq<MailboxV>,
    resolved: Resolved,
)
    requires
        request == (RelayRequest::Command { command, reply, subscribe: None }),
        has_free_id(session.requests),
    ensures
        session.wire_of(request) matches Some(FrameKind::Command { request_id, command: sent })
            && sent == command && !session.requests.used(request_id) && ({
            let after = session.requested(request);
            let answer = FrameKind::CommandResult { request_id, result };
            let done = after.inbound(answer, boxes).state;
            &&& after.resolves(answer, resolved) ==> (resolved matches Resolved::Command { reply: told }
                && told.to == reply && told.result == result)
            &&& after.subs == session.subs
            &&& !done.requests.used(request_id)
            &&& done.subs == session.subs
            &&& done.resolves(answer, resolved) ==> resolved is Nobody
        }),
{
    lemma_fresh(session.requests);
}

/// Whoever sends a command that the satellite answers with an error about that
/// request gets that error.
pub proof fn law_command_errors_find_their_sender(
    session: SessionV,
    request: RelayRequest,
    command: Command,
    reply: ReplyId,
    code: ErrorCode,
    message: String,
    resolved: Resolved,
)
    requires
        request == (RelayRequest::Command { command, reply, subscribe: None }),
        has_free_id(session.requests),
    ensures
        session.wire_of(request) matches Some(FrameKind::Command { request_id, .. }) && (
        session.requested(request).resolves(
            FrameKind::Error { request_id: Some(request_id), code, message },
            resolved,
        ) ==> (resolved matches Resolved::Command { reply: told } && told.to == reply && told.result
            == (CommandResult::Error { code, message }))),
{
    lemma_fresh(session.requests);
}

/// A spawn goes out as it was asked for, on the satellite itself, and whoever
/// asked learns the new terminal under the satellite's name; an id of yet
/// another server is no answer, and a refusal stays a refusal.
pub proof fn law_spawn_answers_find_their_sender(
    session: SessionV,
    request: RelayRequest,
    spawn: SatelliteSpawn,
    reply: ReplyId,
    result: SpawnResult,
    resolved: Resolved,
)
    requires
        request == (RelayRequest::Spawn { spawn, reply }),
        has_free_id(session.requests),
    ensures
        session.wire_of(request) matches Some(
            FrameKind::SpawnTerminal {
                request_id,
                group,
                command,
                cwd,
                env,
                term,
                satellite,
                owner_terminal,
                agent_session,
                initial_size,
                resource,
            },
        ) && group == spawn.group && command == spawn.command && cwd == spawn.cwd && env
            == spawn.env && term == spawn.term && initial_size == spawn.initial_size && resource
            == spawn.resource && satellite is None && agent_session is None && (match spawn.owner_terminal {
            Some(id) => owner_terminal == Some(TerminalId::Local { id }),
            None => owner_terminal is None,
        }) && !session.requests.used(request_id) && ({
            let after = session.requested(request);
            let answer = FrameKind::TerminalSpawned { request_id, result };
            after.resolves(answer, resolved) ==> {
                &&& resolved matches Resolved::Spawn { reply: told }
                &&& told.to == reply
                &&& result matches Ok(TerminalId::Local { id }) ==> told.result == Ok::<
                    TerminalId,
                    SpawnError,
                >(TerminalId::Satellite { host: session.link.host, id })
                &&& result matches Ok(TerminalId::Satellite { .. }) ==> told.result is Err
                &&& result is Err ==> told.result == result
            }
        }),
{
    lemma_fresh(session.requests);
}

/// An error about a spawn refuses that spawn.
pub proof fn law_spawn_errors_find_their_sender(
    session: SessionV,
    request: RelayRequest,
    spawn: SatelliteSpawn,
    reply: ReplyId,
    code: ErrorCode,
    message: String,
    boxes: Seq<MailboxV>,
    resolved: Resolved,
)
    requires
        request == (RelayRequest::Spawn { spawn, reply }),
        has_free_id(session.requests),
    ensures
        ({
            let id = session.requests.fresh();
            let after = session.requested(request);
            let answer = FrameKind::Error { request_id: Some(id), code, message };
            &&& after.resolves(answer, resolved) ==> (resolved matches Resolved::Spawn { reply: told }
                && told.to == reply && told.result is Err)
            &&& !after.inbound(answer, boxes).state.requests.used(id)
            &&& after.inbound(answer, boxes).fault is None
        }),
{
    lemma_fresh(session.requests);
}

/// What answers a request that is not there reaches nobody and changes nothing.
pub proof fn law_unasked_answers_reach_nobody(
    session: SessionV,
    id: u32,
    result: CommandResult,
    spawned: SpawnResult,
    boxes: Seq<MailboxV>,
    resolved: Resolved,
)
    requires
        !session.requests.used(id),
    ensures
        session.resolves(FrameKind::CommandResult { request_id: id, result }, resolved)
            ==> resolved is Nobody,
        session.resolves(FrameKind::TerminalSpawned { request_id: id, result: spawned }, resolved)
            ==> resolved is Nobody,
        session.inbound(FrameKind::CommandResult { request_id: id, result }, boxes).state
            == session,
        session.inbound(
            FrameKind::TerminalSpawned { request_id: id, result: spawned },
            boxes,
        ).state == session,
        session.inbound(FrameKind::CommandResult { request_id: id, result }, boxes).boxes == boxes,
{
    assert(session.requests.spawns.remove(id) == session.requests.spawns);
}

/// A frame that is forwarded goes out as it is, and a subscription that is not
/// rejected sends its own frame; neither uses a request id.
pub proof fn law_forwarded_frames_go_out_unchanged(
    session: SessionV,
    frame: FrameKind,
    subscription: ProxySubscription,
)
    ensures
        session.wire_of(RelayRequest::Forward { frame }) == Some(frame),
        session.requested(RelayRequest::Forward { frame }) == session,
        rejects(session.link, subscription) ==> {
            let request = RelayRequest::Subscribe { subscription, forward: frame };
            session.wire_of(request) is None && session.requested(request) == session
        },
        !rejects(session.link, subscription) ==> {
            let request = RelayRequest::Subscribe { subscription, forward: frame };
            &&& session.wire_of(request) == Some(frame)
            &&& session.requested(request).subs == registered(session.subs, subscription)
            &&& session.requested(request).requests == session.requests
            &&& session.requested(request).flows == session.flows
            &&& session.requested(request).explicit == session.explicit
            &&& session.legacy.subset_of(session.requested(request).legacy)
            &&& frame matches FrameKind::SubscribeEvents {
                terminal: Some(TerminalId::Local { id }),
            } ==> session.requested(request).legacy.contains(id)
        },
{
}

/// A consumer of content is taken on exactly where its connection chose the
/// profile and the limits of the link; a consumer of events always is.
pub proof fn law_content_needs_the_profile_of_the_link(link: Link, sub: ProxySubscription)
    ensures
        !sub.awaits_snapshot ==> !rejects(link, sub),
        sub.awaits_snapshot && !rejects(link, sub) ==> sub.bootstrap_profile == Some(
            link.bootstrap_profile,
        ) && sub.bootstrap_limits == Some(link.bootstrap_limits),
        sub.bootstrap_profile == Some(link.bootstrap_profile) && sub.bootstrap_limits == Some(
            link.bootstrap_limits,
        ) ==> !rejects(link, sub),
{
}

/// A stop goes out as a detach of that terminal, and its confirmation is what
/// lifts the bar: the stream is let through again, with no generation left. A
/// satellite that refuses is at fault, and the request is over either way.
pub proof fn law_stops_are_lifted_by_their_own_answer(
    session: SessionV,
    terminal: u32,
    now_ms: u64,
    refused: CommandResult,
    boxes: Seq<MailboxV>,
)
    requires
        has_free_id(session.requests),
        !session.requests.barred(terminal),
        !(refused is Done),
    ensures
        session.detach_frame(terminal) matches FrameKind::Command {
            request_id,
            command: Command::DetachTerminal { terminal_id: TerminalId::Local { id } },
        } && id == terminal && ({
            let stopped = session.detaching(terminal, now_ms);
            let done = stopped.inbound(
                FrameKind::CommandResult { request_id, result: CommandResult::Done },
                boxes,
            );
            let fault = stopped.inbound(
                FrameKind::CommandResult { request_id, result: refused },
                boxes,
            );
            &&& stopped.requests.barred(terminal)
            &&& stopped.subs == session.subs
            &&& stopped.flows == session.flows
            &&& !stopped.explicit.contains(terminal)
            &&& !stopped.legacy.contains(terminal)
            &&& done.fault is None
            &&& !done.state.requests.barred(terminal)
            &&& !done.state.flows.flows.contains_key(terminal)
            &&& done.state.requests.commands == session.requests.commands
            &&& done.boxes == boxes
            &&& fault.fault == Some(RelayFault::DetachRefused { terminal })
            &&& !fault.state.requests.used(request_id)
        }),
{
    lemma_fresh(session.requests);
    let id = session.requests.fresh();
    let stopped = session.detaching(terminal, now_ms);
    assert(stopped.requests.detaches.contains_key(id));
    let left = stopped.requests.detaches.remove(id);
    assert forall|other: u32| #[trigger] left.contains_key(other) implies left[other].terminal
        != terminal by {
        assert(session.requests.detaches.contains_key(other));
    }
    let done = stopped.inbound(
        FrameKind::CommandResult { request_id: id, result: CommandResult::Done },
        boxes,
    );
    assert(done.state.requests.detaches == left);
}

/// A stop is overdue from the moment at which its limit has passed since it was
/// sent, and not before.
pub proof fn law_stops_are_overdue_after_their_limit(
    book: RequestsV,
    terminal: u32,
    issued_ms: u64,
    now_ms: u64,
    limit_ms: u64,
)
    requires
        has_free_id(book),
        !book.overdue(now_ms, limit_ms),
    ensures
        book.with_detach(PendingDetach { terminal, issued_ms }).overdue(now_ms, limit_ms)
            <==> issued_ms + limit_ms <= now_ms,
{
    lemma_fresh(book);
    let after = book.with_detach(PendingDetach { terminal, issued_ms });
    let id = book.fresh();
    assert(after.detaches.contains_key(id));
    assert(after.detaches[id].issued_ms == issued_ms);
    if after.overdue(now_ms, limit_ms) {
        let other = choose|other: u32| #[trigger]
            after.detaches.contains_key(other) && after.detaches[other].issued_ms + limit_ms
                <= now_ms;
        if other != id {
            assert(book.detaches.contains_key(other));
        }
    }
}

/// An attach to content cuts whatever stream runs already, before it starts its
/// own: a detach of that terminal, and, where events were followed, a
/// subscription to them again. It does so once, and not for a consumer that is
/// rejected or a stream that is stopped already.
pub proof fn law_content_cuts_the_running_stream(
    session: SessionV,
    request: RelayRequest,
    attached: TerminalId,
    reply: ReplyId,
    sub: ProxySubscription,
)
    requires
        request == (RelayRequest::Command {
            command: Command::AttachTerminal { terminal_id: attached },
            reply,
            subscribe: Some(sub),
        }),
    ensures
        session.needs_cut(request) is Some <==> !session.explicit.contains(sub.terminal)
            && !session.requests.barred(sub.terminal) && !rejects(session.link, sub),
        session.needs_cut(request) matches Some(terminal) ==> {
            let frames = session.cut_frames(terminal);
            &&& terminal == sub.terminal
            &&& frames[0] == session.detach_frame(terminal)
            &&& frames.len() == (if session.legacy.contains(terminal) {
                2int
            } else {
                1
            })
            &&& session.legacy.contains(terminal) ==> frames[1] == (FrameKind::SubscribeEvents {
                terminal: Some(TerminalId::Local { id: terminal }),
            })
        },
{
}

/// Content that is followed is remembered, with the consumer and the effect of
/// its registration, under the id of the command that asked for it.
pub proof fn law_content_commands_remember_their_consumer(
    session: SessionV,
    request: RelayRequest,
    command: Command,
    reply: ReplyId,
    sub: ProxySubscription,
)
    requires
        request == (RelayRequest::Command { command, reply, subscribe: Some(sub) }),
        has_free_id(session.requests),
        !rejects(session.link, sub),
    ensures
        session.wire_of(request) matches Some(FrameKind::Command { request_id, command: sent })
            && sent == command && ({
            let after = session.requested(request);
            &&& after.requests.commands.contains_key(request_id)
            &&& after.requests.commands[request_id].reply == reply
            &&& after.requests.commands[request_id].subscription matches Some(pending)
            &&& pending.terminal == sub.terminal
            &&& pending.client == sub.client
            &&& after.subs == registered(session.subs, sub)
            &&& sub.awaits_snapshot ==> after.explicit.contains(sub.terminal)
            &&& !sub.awaits_snapshot ==> after.explicit == session.explicit
            &&& after.legacy == session.legacy
        }),
{
    lemma_fresh(session.requests);
}

/// A rejected consumer changes nothing, and nothing goes out for it.
pub proof fn law_rejected_consumers_change_nothing(
    session: SessionV,
    request: RelayRequest,
    command: Command,
    reply: ReplyId,
    sub: ProxySubscription,
)
    requires
        request == (RelayRequest::Command { command, reply, subscribe: Some(sub) }),
        rejects(session.link, sub),
    ensures
        session.wire_of(request) is None,
        session.requested(request) == session,
{
}

proof fn lemma_detach_frames(
    session: SessionV,
    terminals: Seq<u32>,
    n: nat,
    now_ms: u64,
)
    requires
        n <= terminals.len(),
    ensures
        session.detach_frames(terminals, n, now_ms).len() == n,
        forall|i: int|
            0 <= i < n ==> (#[trigger] session.detach_frames(
                terminals,
                n,
                now_ms,
            )[i] matches FrameKind::Command {
                command: Command::DetachTerminal { terminal_id: TerminalId::Local { id } },
                ..
            } && id == terminals[i]),
        session.detaching_all(terminals, n, now_ms).subs == session.subs,
        session.detaching_all(terminals, n, now_ms).flows == session.flows,
        forall|i: int|
            0 <= i < n ==> !session.detaching_all(terminals, n, now_ms).explicit.contains(
                #[trigger] terminals[i],
            ),
    decreases n,
{
    if n > 0 {
        lemma_detach_frames(session, terminals, (n - 1) as nat, now_ms);
        let before = session.detach_frames(terminals, (n - 1) as nat, now_ms);
        let now = session.detach_frames(terminals, n, now_ms);
        assert forall|i: int| 0 <= i < n implies (#[trigger] now[i] matches FrameKind::Command {
            command: Command::DetachTerminal { terminal_id: TerminalId::Local { id } },
            ..
        } && id == terminals[i]) by {
            if i < n - 1 {
                assert(now[i] == before[i]);
            }
        }
    }
}

/// Streams that nobody observes any longer are stopped one by one, in order: one
/// detach goes out for each of those terminals.
pub proof fn law_each_orphan_is_stopped(
    session: SessionV,
    terminals: Seq<u32>,
    now_ms: u64,
    i: int,
)
    requires
        0 <= i < terminals.len(),
    ensures
        ({
            let frames = session.detach_frames(terminals, terminals.len(), now_ms);
            let after = session.detaching_all(terminals, terminals.len(), now_ms);
            &&& frames.len() == terminals.len()
            &&& frames[i] matches FrameKind::Command {
                command: Command::DetachTerminal { terminal_id: TerminalId::Local { id } },
                ..
            } && id == terminals[i]
            &&& after.subs == session.subs
            &&& !after.explicit.contains(terminals[i])
        }),
{
    lemma_detach_frames(session, terminals, terminals.len(), now_ms);
}

/// A consumer whose attach is refused by the satellite is not left registered;
/// one whose attach succeeds stays.
pub proof fn law_refused_attaches_leave_no_observer(
    session: SessionV,
    request: RelayRequest,
    command: Command,
    reply: ReplyId,
    sub: ProxySubscription,
    result: CommandResult,
    boxes: Seq<MailboxV>,
)
    requires
        request == (RelayRequest::Command { command, reply, subscribe: Some(sub) }),
        has_free_id(session.requests),
        !rejects(session.link, sub),
        distinct_observers(session.subs),
        find(session.subs, sub.terminal, sub.client) is None,
    ensures
        ({
            let after = session.requested(request);
            let id = session.requests.fresh();
            let done = after.inbound(FrameKind::CommandResult { request_id: id, result }, boxes);
            &&& result is Error ==> done.state.subs == session.subs
            &&& !(result is Error) ==> done.state.subs == registered(session.subs, sub)
            &&& !done.state.requests.used(id)
            &&& done.boxes == boxes
        }),
{
    lemma_fresh(session.requests);
    law_refused_registrations_are_undone(session.subs, sub);
}

/// A satellite that answers a stop with an error is at fault as one that refuses
/// it, and keeps its generation; the request is over either way.
pub proof fn law_stops_answered_by_errors_are_refused(
    session: SessionV,
    id: u32,
    code: ErrorCode,
    message: String,
    boxes: Seq<MailboxV>,
)
    requires
        session.requests.detaches.contains_key(id),
    ensures
        ({
            let after = session.inbound(
                FrameKind::Error { request_id: Some(id), code, message },
                boxes,
            );
            let terminal = session.requests.detaches[id].terminal;
            &&& after.fault == Some(RelayFault::DetachRefused { terminal })
            &&& !after.state.requests.detaches.contains_key(id)
            &&& after.state.flows == session.flows
            &&& after.state.subs == session.subs
            &&& after.boxes == boxes
        }),
{
}

/// On a link that enforces the order of a bootstrap a stream frame that is let
/// through moves the generation of its terminal on, and one that is out of order
/// is at fault and changes nothing. On any other link generations are not kept.
pub proof fn law_streams_move_their_generation(
    session: SessionV,
    frame: FrameKind,
    id: u32,
    boxes: Seq<MailboxV>,
)
    requires
        stream_scope(frame) == Some(TerminalId::Local { id }),
        is_stream(frame),
        !session.requests.barred(id),
    ensures
        ({
            let after = session.inbound(frame, boxes);
            let step = flow_step(session.flows, session.link.bootstrap_profile, id, frame);
            &&& !session.link.enforce_bootstrap_flow ==> after.fault is None && after.state.flows
                == session.flows
            &&& session.link.enforce_bootstrap_flow && step is Ok ==> after.fault is None
                && after.state.flows == step->Ok_0
            &&& session.link.enforce_bootstrap_flow && step is Err ==> after.fault == Some(
                step->Err_0,
            ) && after.state == session && after.boxes == boxes
        }),
{
}

} // verus!
