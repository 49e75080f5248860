//! That what is routed to a satellite stays what it was, and what is fenced or
//! mirrored is what it is about.

use crate::hub::gate::SubV;
use crate::hub::fault::RelayFault;
use crate::hub::handle::{
    is_refusal, offer_outcome, offered, token_after, RelayMailbox, RELAY_MAILBOX,
};
use crate::hub::link_mirror::RecordFrameV;
use crate::hub::metadata_mirror::{mirrored, mirrors, RESOURCE_AGENT_KEY, RESOURCE_ASKED_KEY};
use crate::hub::operation_fence::{
    admitted, distinct_operations, expired, fence_key, place, pruned, verdict, FencedOperation,
    Incarnation, OperationKey, DEDUPE_MAX_ENTRIES, DEDUPE_RETENTION_MS,
};
use crate::hub::relay::told_once;
use crate::hub::request_laws::has_free_id;
use crate::hub::route::{readdressed, routable_target};
use crate::hub::session::{RelayRequest, SessionV};
use crate::hub::stream_laws::took;
use crate::ids::{ClientId, TerminalId, TerminalV};
use crate::mailbox::{after_send, MailboxV, Outbound};
use crate::metadata::{RecordKey, ScopeV};
use crate::text::decimal;
use crate::wire::{Command, ErrorCode, FrameKind};
use vstd::prelude::*;

verus! {

/// A command that names one terminal is routed by that terminal; commands on
/// several terminals, on none, and keyed input are not routed this way.
pub proof fn law_commands_are_routed_by_their_terminal(command: Command, terminal: TerminalId)
    ensures
        command == (Command::AttachTerminal { terminal_id: terminal }) || command == (
        Command::DetachTerminal { terminal_id: terminal }) || command == (Command::ReleaseInput {
            terminal_id: terminal,
        }) ==> routable_target(command) == Some(terminal),
        command matches Command::KillTerminal { terminal_id, .. } ==> routable_target(command)
            == Some(terminal_id),
        command matches Command::GetScreen { terminal_id, .. } ==> routable_target(command) == Some(
            terminal_id,
        ),
        command matches Command::RouteInput { terminal_id, .. } ==> routable_target(command)
            == Some(terminal_id),
        command matches Command::GetTerminalState { terminal_id, .. } ==> routable_target(command)
            == Some(terminal_id),
        command matches Command::SubscribeTerminalEvents { terminal_id, .. } ==> routable_target(
            command,
        ) == Some(terminal_id),
        command matches Command::AcquireInput { terminal_id, .. } ==> routable_target(command)
            == Some(terminal_id),
        command matches Command::SignalTerminal { terminal_id, .. } ==> routable_target(command)
            == Some(terminal_id),
        command matches Command::PutFile { terminal_id, .. } ==> routable_target(command) == Some(
            terminal_id,
        ),
        command matches Command::ReportAsked { terminal_id, .. } ==> routable_target(command)
            == Some(terminal_id),
        command matches Command::ReportAgentState { terminal_id, .. } ==> routable_target(command)
            == Some(terminal_id),
        routable_target(command) is None <==> command is ApplyInput || command is KillTerminals
            || command is GetState || command is Upgrade,
{
}

/// A readdressed command is about the satellite's own terminal and is otherwise
/// the command that was sent: the same operation with the same arguments.
pub proof fn law_readdressing_changes_the_terminal_only(command: Command, sent: Command, id: u32)
    requires
        readdressed(command, sent, id),
    ensures
        routable_target(sent) == Some(TerminalId::Local { id }),
        command is AttachTerminal <==> sent is AttachTerminal,
        command is DetachTerminal <==> sent is DetachTerminal,
        command is ReleaseInput <==> sent is ReleaseInput,
        command matches Command::KillTerminal { operation_id, .. } ==> (
        sent matches Command::KillTerminal { operation_id: kept, .. } && kept == operation_id),
        command matches Command::GetScreen { request_scrollback, cells, .. } ==> (
        sent matches Command::GetScreen { request_scrollback: a, cells: b, .. } && a
            == request_scrollback && b == cells),
        command matches Command::RouteInput { event, .. } ==> (sent matches Command::RouteInput {
            event: kept,
            ..
        } && kept == event),
        command matches Command::GetTerminalState {
            include_scrollback,
            max_scrollback_lines,
            ..
        } ==> (sent matches Command::GetTerminalState {
            include_scrollback: a,
            max_scrollback_lines: b,
            ..
        } && a == include_scrollback && b == max_scrollback_lines),
        command matches Command::SubscribeTerminalEvents { event_types, .. } ==> (
        sent matches Command::SubscribeTerminalEvents { event_types: kept, .. } && kept@
            == event_types@),
        command matches Command::AcquireInput { mode, ttl_ms, .. } ==> (
        sent matches Command::AcquireInput { mode: a, ttl_ms: b, .. } && a == mode && b == ttl_ms),
        command matches Command::SignalTerminal { signal, operation_id, .. } ==> (
        sent matches Command::SignalTerminal { signal: a, operation_id: b, .. } && a == signal && b
            == operation_id),
        command matches Command::PutFile {
            upload_id,
            extension,
            offset,
            data,
            final_chunk,
            sha256,
            ..
        } ==> (sent matches Command::PutFile {
            upload_id: a,
            extension: b,
            offset: c,
            data: d,
            final_chunk: e,
            sha256: f,
            ..
        } && a == upload_id && b@ == extension@ && c == offset && d == data && e == final_chunk && f
            == sha256),
        command matches Command::ReportAsked { id, question, suggestions, elapsed_seconds, .. }
            ==> (sent matches Command::ReportAsked {
            id: a,
            question: b,
            suggestions: c,
            elapsed_seconds: d,
            ..
        } && a@ == id@ && b@ == question@ && c@ == suggestions@ && d == elapsed_seconds),
        command matches Command::ReportAgentState { state, .. } ==> (
        sent matches Command::ReportAgentState { state: kept, .. } && kept == state),
        routable_target(command) is Some,
{
}

/// Two commands are the same operation exactly where they carry the same key in
/// the same domain. Input has a domain of its own; kills and signals share one.
/// What carries no key is not fenced.
pub proof fn law_operations_are_told_apart_by_their_key(command: Command)
    ensures
        command matches Command::ApplyInput { operation_id, .. } ==> (fence_key(command)
            matches Some(found) && found.raw == operation_id.raw && found.domain is Input),
        command matches Command::KillTerminal { operation_id, .. } ==> (fence_key(command) is Some
            <==> operation_id is Some),
        command matches Command::KillTerminal { operation_id: Some(key), .. } ==> (fence_key(
            command,
        ) matches Some(found) && found.raw == key.raw && found.domain is Signal),
        command matches Command::SignalTerminal { operation_id, .. } ==> (fence_key(command) is Some
            <==> operation_id is Some),
        command matches Command::SignalTerminal { operation_id: Some(key), .. } ==> (fence_key(
            command,
        ) matches Some(found) && found.raw == key.raw && found.domain is Signal),
        fence_key(command) is Some ==> command is ApplyInput || command is KillTerminal || command
            is SignalTerminal,
{
}

proof fn lemma_place(entries: Seq<FencedOperation>, key: OperationKey)
    ensures
        match place(entries, key) {
            Some(i) => 0 <= i < entries.len() && entries[i].key == key,
            None => forall|i: int| 0 <= i < entries.len() ==> (#[trigger] entries[i]).key != key,
        },
    decreases entries.len(),
{
    if entries.len() > 0 {
        lemma_place(entries.drop_last(), key);
        if place(entries, key) is None {
            assert forall|i: int| 0 <= i < entries.len() implies (#[trigger] entries[i]).key
                != key by {
                if i < entries.len() - 1 {
                    assert(entries.drop_last()[i] == entries[i]);
                }
            }
        }
    }
}

proof fn lemma_pruned(entries: Seq<FencedOperation>, now: u64)
    ensures
        ({
            let left = pruned(entries, now);
            let k = entries.len() - left.len();
            &&& 0 <= k <= entries.len()
            &&& left == entries.skip(k)
            &&& forall|i: int|
                0 <= i < k ==> now >= (#[trigger] entries[i]).admitted_at + DEDUPE_RETENTION_MS
            &&& left.len() > 0 ==> now < left[0].admitted_at + DEDUPE_RETENTION_MS
        }),
    decreases entries.len(),
{
    if entries.len() > 0 && expired(entries[0], now) {
        lemma_pruned(entries.drop_first(), now);
        let left = pruned(entries, now);
        let k = entries.len() - left.len();
        assert(entries.drop_first().skip(k - 1) == entries.skip(k));
        assert forall|i: int| 0 <= i < k implies now >= (#[trigger] entries[i]).admitted_at
            + DEDUPE_RETENTION_MS by {
            if i > 0 {
                assert(entries.drop_first()[i - 1] == entries[i]);
            }
        }
    } else {
        assert(entries.skip(0) == entries);
    }
}

/// Operations are forgotten oldest first, and only once their time is up: ten
/// minutes after they were admitted.
pub proof fn law_operations_are_forgotten_when_their_time_is_up(
    entries: Seq<FencedOperation>,
    now: u64,
)
    ensures
        ({
            let left = pruned(entries, now);
            let k = entries.len() - left.len();
            &&& 0 <= k <= entries.len()
            &&& left == entries.skip(k)
            &&& forall|i: int|
                0 <= i < k ==> now >= (#[trigger] entries[i]).admitted_at + 600_000
            &&& left.len() > 0 ==> now < left[0].admitted_at + 600_000
        }),
{
    lemma_pruned(entries, now);
}

/// A new operation that is forwarded is remembered behind the others, with the
/// satellite it went to, its sender and its time; a record that is full refuses
/// it and stays as it is.
pub proof fn law_forwarded_operations_are_remembered(
    entries: Seq<FencedOperation>,
    key: OperationKey,
    incarnation: Incarnation,
    actor: ClientId,
    now: u64,
)
    requires
        forall|i: int| 0 <= i < entries.len() ==> (#[trigger] entries[i]).key != key,
    ensures
        ({
            let live = pruned(entries, now);
            let after = admitted(entries, key, incarnation, actor, now);
            if live.len() < DEDUPE_MAX_ENTRIES {
                &&& verdict(entries, key, incarnation, now) is Forward
                &&& after.len() == live.len() + 1
                &&& live.is_prefix_of(after)
                &&& after.last().key == key
                &&& after.last().incarnation == incarnation
                &&& after.last().actor == actor
                &&& after.last().admitted_at == now
            } else {
                &&& verdict(entries, key, incarnation, now) is Full
                &&& after == live
            }
        }),
{
    lemma_pruned(entries, now);
    let live = pruned(entries, now);
    lemma_place(live, key);
    if place(live, key) is Some {
        let i = place(live, key)->Some_0;
        assert(live[i] == entries[i + entries.len() - live.len()]);
    }
}

/// A retry that reaches the same satellite process is forwarded under its own
/// sender, with the time at which the operation was first admitted; one that
/// would reach another process is refused and changes nothing but what expired.
pub proof fn law_retries_keep_the_first_time(
    entries: Seq<FencedOperation>,
    key: OperationKey,
    incarnation: Incarnation,
    actor: ClientId,
    now: u64,
    i: int,
)
    requires
        distinct_operations(entries),
        0 <= i < entries.len(),
        entries[i].key == key,
        pruned(entries, now) == entries,
    ensures
        ({
            let after = admitted(entries, key, incarnation, actor, now);
            if entries[i].incarnation == incarnation {
                &&& verdict(entries, key, incarnation, now) is Forward
                &&& after.len() == entries.len()
                &&& after[i].key == key
                &&& after[i].incarnation == incarnation
                &&& after[i].admitted_at == entries[i].admitted_at
                &&& after[i].actor == actor
                &&& forall|k: int|
                    0 <= k < entries.len() && k != i ==> #[trigger] after[k] == entries[k]
            } else {
                &&& verdict(entries, key, incarnation, now) is IncarnationChanged
                &&& after == entries
            }
        }),
{
    lemma_place(entries, key);
}

/// Two records of a satellite's terminals are mirrored, the agent's and the
/// question's, and nothing else.
pub proof fn law_two_records_are_mirrored(
    records: Map<RecordKey, Seq<u8>>,
    host: Seq<char>,
    scope: ScopeV,
    key: Seq<char>,
    value: Option<Seq<u8>>,
)
    ensures
        mirrors(RESOURCE_AGENT_KEY@),
        mirrors(RESOURCE_ASKED_KEY@),
        key != RESOURCE_AGENT_KEY@ && key != RESOURCE_ASKED_KEY@ ==> mirrored(
            records,
            host,
            scope,
            key,
            value,
        ) == records,
        !(scope matches ScopeV::Resource(TerminalV::Local(_))) ==> mirrored(
            records,
            host,
            scope,
            key,
            value,
        ) == records,
{
}

/// A terminal that is mirrored is asked for both records, each time to hear of
/// changes first and then for the value, and the answer to each read is kept
/// under the record that was asked for.
pub proof fn law_mirrors_keep_what_they_asked_for(
    session: SessionV,
    terminal: u32,
    value: Seq<u8>,
    records: Map<RecordKey, Seq<u8>>,
)
    requires
        !session.mirrored.contains(terminal),
        has_free_id(session.requests),
        has_free_id(session.reading(terminal, false).requests),
    ensures
        ({
            let frames = session.mirror_frames(terminal);
            let scope = ScopeV::Resource(TerminalV::Local(terminal));
            let kept = ScopeV::Resource(TerminalV::Satellite(session.link.host.name@, terminal));
            let after = session.mirroring(terminal);
            &&& frames.len() == 4
            &&& frames[0] == RecordFrameV::Subscribe(scope, RESOURCE_AGENT_KEY@)
            &&& frames[2] == RecordFrameV::Subscribe(scope, RESOURCE_ASKED_KEY@)
            &&& frames[1] matches RecordFrameV::Get(agent_id, at, key) && at == scope && key
                == RESOURCE_AGENT_KEY@ && (after.reported(
                RecordFrameV::Value(agent_id, Some(value)),
                records,
            ) matches Ok((_, now)) && now.contains_key((kept, RESOURCE_AGENT_KEY@)) && now[(
                kept,
                RESOURCE_AGENT_KEY@,
            )] == value)
            &&& frames[3] matches RecordFrameV::Get(asked_id, at, key) && at == scope && key
                == RESOURCE_ASKED_KEY@ && (after.reported(
                RecordFrameV::Value(asked_id, Some(value)),
                records,
            ) matches Ok((_, now)) && now.contains_key((kept, RESOURCE_ASKED_KEY@)) && now[(
                kept,
                RESOURCE_ASKED_KEY@,
            )] == value)
            &&& after.mirrored.contains(terminal)
            &&& after.subs == session.subs
        }),
{
    let first = session.requests.fresh();
    let mid = session.reading(terminal, false);
    let second = mid.requests.fresh();
    assert(session.requests.first_unused(first));
    assert(mid.requests.first_unused(second));
    assert(mid.requests.reads.contains_key(first));
    assert(first != second);
}

/// A change that a satellite reports is kept at once, under its own name for the
/// terminal, and removed when it is removed; it uses up no request.
pub proof fn law_reported_changes_are_kept(
    session: SessionV,
    id: u32,
    key: Seq<char>,
    value: Seq<u8>,
    actor: Option<ClientId>,
    records: Map<RecordKey, Seq<u8>>,
)
    requires
        mirrors(key),
    ensures
        ({
            let scope = ScopeV::Resource(TerminalV::Local(id));
            let kept = (
                ScopeV::Resource(TerminalV::Satellite(session.link.host.name@, id)),
                key,
            );
            &&& session.reported(
                RecordFrameV::Changed(scope, key, Some(value), actor),
                records,
            ) matches Ok((after, now)) && after == session && now == records.insert(kept, value)
            &&& session.reported(
                RecordFrameV::Changed(scope, key, None, actor),
                records,
            ) matches Ok((after, now)) && after == session && now == records.remove(kept)
        }),
{
}

/// A mailbox takes a request behind those that wait there while it is open and
/// has room, and stays as it is otherwise; whoever is refused learns which: an
/// overload, or a link that is down.
pub proof fn law_link_mailboxes_keep_their_order(
    before: RelayMailbox,
    after: RelayMailbox,
    request: RelayRequest,
    host: Seq<char>,
    code: ErrorCode,
    message: Seq<char>,
)
    requires
        offered(before, after, request),
    ensures
        offer_outcome(before) is Accepted <==> before.open && before.requests@.len()
            < RELAY_MAILBOX,
        offer_outcome(before) is Accepted ==> after.requests@.len() == before.requests@.len() + 1
            && before.requests@.is_prefix_of(after.requests@) && after.requests@.last() == request,
        !(offer_outcome(before) is Accepted) ==> after.requests@ == before.requests@,
        after.open == before.open,
        is_refusal(offer_outcome(before), host, code, message) ==> {
            &&& !(offer_outcome(before) is Accepted)
            &&& before.open ==> code == ErrorCode::ResourceExhausted
            &&& !before.open ==> code == ErrorCode::SatelliteUnreachable
        },
{
}

/// One mailbox belongs to one client, and one client has one mailbox.
pub open spec fn one_mailbox_each(subs: Seq<SubV>) -> bool {
    forall|i: int, j: int|
        0 <= i < subs.len() && 0 <= j < subs.len() ==> ((#[trigger] subs[i]).client == (
        #[trigger] subs[j]).client <==> subs[i].mailbox == subs[j].mailbox)
}

proof fn lemma_told(subs: Seq<SubV>, n: nat, frame: FrameKind, boxes: Seq<MailboxV>, at: int)
    requires
        n <= subs.len(),
        one_mailbox_each(subs),
        0 <= at < boxes.len(),
        boxes[at].open,
        boxes[at].queue.len() < boxes[at].capacity,
    ensures
        told_once(subs, n, frame, boxes).len() == boxes.len(),
        if exists|i: int| 0 <= i < n && (#[trigger] subs[i]).mailbox.0 == at {
            took(told_once(subs, n, frame, boxes)[at], boxes[at], Outbound::Frame(frame))
        } else {
            told_once(subs, n, frame, boxes)[at] == boxes[at]
        },
    decreases n,
{
    if n > 0 {
        lemma_told(subs, (n - 1) as nat, frame, boxes, at);
        crate::hub::relay::law_each_consumer_is_told_once(subs, (n - 1) as nat);
        let seen = crate::hub::relay::consumers(subs, (n - 1) as nat);
        let before = told_once(subs, (n - 1) as nat, frame, boxes);
        let last = subs[n - 1];
        if last.mailbox.0 == at {
            if seen.contains(last.client) {
                let k = choose|k: int| 0 <= k < seen.len() && seen[k] == last.client;
                let i = choose|i: int| 0 <= i < n - 1 && (#[trigger] subs[i]).client == seen[k];
                assert(subs[i].mailbox == subs[n - 1].mailbox);
                assert(subs[i].mailbox.0 == at);
            } else {
                assert forall|i: int| 0 <= i < n - 1 implies (#[trigger] subs[i]).mailbox.0
                    != at by {
                    assert(seen.contains(subs[i].client));
                    if subs[i].mailbox.0 == at {
                        assert(subs[i].mailbox == subs[n - 1].mailbox);
                    }
                }
                assert(after_send(before, last.mailbox, Outbound::Frame(frame)) == told_once(
                    subs,
                    n,
                    frame,
                    boxes,
                ));
            }
        } else {
            if exists|i: int| 0 <= i < n - 1 && (#[trigger] subs[i]).mailbox.0 == at {
                let i = choose|i: int| 0 <= i < n - 1 && (#[trigger] subs[i]).mailbox.0 == at;
                assert(subs[i].mailbox.0 == at);
            }
        }
    }
}

/// When a link goes down every consumer with room in its mailbox is told once,
/// however much it observed.
pub proof fn law_a_lost_link_is_told_once(
    subs: Seq<SubV>,
    frame: FrameKind,
    boxes: Seq<MailboxV>,
    i: int,
)
    requires
        one_mailbox_each(subs),
        0 <= i < subs.len(),
        subs[i].mailbox.0 < boxes.len(),
        boxes[subs[i].mailbox.0 as int].open,
        boxes[subs[i].mailbox.0 as int].queue.len() < boxes[subs[i].mailbox.0 as int].capacity,
    ensures
        took(
            told_once(subs, subs.len(), frame, boxes)[subs[i].mailbox.0 as int],
            boxes[subs[i].mailbox.0 as int],
            Outbound::Frame(frame),
        ),
{
    lemma_told(subs, subs.len(), frame, boxes, subs[i].mailbox.0 as int);
}

/// Tokens are counted on by one, round and round: none is left out, and no two
/// of them lead to the same.
pub proof fn law_tokens_are_counted_on(token: u64, other: u64)
    ensures
        token_after(token) == (token + 1) % 0x1_0000_0000_0000_0000,
        token_after(token) == token_after(other) ==> token == other,
        token_after(token) != token,
{
}

/// What a fault says names the satellite first. A chunk out of order is told with
/// the number that was sent, then the one that was expected; what is about one
/// terminal ends with that terminal.
pub proof fn law_faults_name_both_sides(
    host: Seq<char>,
    fault: RelayFault,
    sent: u32,
    expected: u32,
    terminal: u32,
)
    ensures
        ("satellite "@ + host).is_prefix_of(fault.says(host)),
        ({
            let text = RelayFault::ChunkSequence { sent, expected }.says(host);
            &&& (", expected "@ + decimal(expected as nat)).is_suffix_of(text)
            &&& ("satellite "@ + host + " sent BOOTSTRAP_CHUNK sequence "@ + decimal(
                sent as nat,
            )).is_prefix_of(text)
        }),
        fault == (RelayFault::OverlappingBegin { terminal }) || fault == (
        RelayFault::ChunkBeforeBegin { terminal }) || fault == (RelayFault::ChunkIdentity {
            terminal,
        }) || fault == (RelayFault::ReadyBeforeBegin { terminal }) || fault == (
        RelayFault::ReadyIdentity { terminal }) || fault == (RelayFault::DetachRefused { terminal })
            ==> decimal(terminal as nat).is_suffix_of(fault.says(host)),
{
    let said = fault.says(host);
    let head = "satellite "@ + host;
    assert(said == head + fault.detail());
    assert(said.take(head.len() as int) == head);
}

} // verus!
