//! Who observes what, and what their gates let through.

use crate::hub::gate::{
    deliver, distinct_observers, flush_all, flush_gate, frame_cost, frames_cost, push_bootstrap,
    GateV, SubV, MAX_RELAY_CONNECTION_RETAINED_BYTES, MAX_RELAY_CONNECTION_RETAINED_FRAMES,
    MAX_RELAY_SUBSCRIBER_RETAINED_BYTES, MAX_RELAY_SUBSCRIBER_RETAINED_FRAMES,
    RETAINED_FRAME_OVERHEAD,
};
use crate::hub::registry::{
    departed, find, lemma_find, observed, orphans, registered, registration_effect, rolled_back,
    terminals_of, unobserved, withdrawal, withdrawn, without_client, ProxySubscription,
    Registration, Superseded,
};
use crate::hub::requests::{awaited_commands, awaited_spawns, PendingCommand, ReplyId};
use crate::ids::ClientId;
use crate::mailbox::{MailboxId, MailboxV, Outbound};
use crate::payload::contents;
use crate::wire::FrameKind;
use vstd::prelude::*;

verus! {

/// Whoever registers observes the terminal afterwards, once, through the mailbox
/// that it named, with a token no older than any before. Whoever awaits a
/// snapshot has a gate that is not open. Every other observer is as it was.
pub proof fn law_registering_takes_effect(subs: Seq<SubV>, sub: ProxySubscription, k: int)
    requires
        distinct_observers(subs),
    ensures
        ({
            let after = registered(subs, sub);
            &&& distinct_observers(after)
            &&& find(after, sub.terminal, sub.client) matches Some(i)
            &&& after[i].terminal == sub.terminal
            &&& after[i].client == sub.client
            &&& after[i].mailbox == sub.mailbox
            &&& after[i].seq >= sub.seq
            &&& sub.awaits_snapshot ==> !(after[i].gate is Open)
            &&& find(subs, sub.terminal, sub.client) is None ==> {
                &&& after.len() == subs.len() + 1
                &&& after[i].seq == sub.seq
                &&& !sub.awaits_snapshot ==> after[i].gate is Open
            }
            &&& find(subs, sub.terminal, sub.client) is Some ==> {
                &&& after.len() == subs.len()
                &&& after[i].seq >= subs[i].seq
                &&& after[i].seq == sub.seq || after[i].seq == subs[i].seq
                &&& !sub.awaits_snapshot || !(subs[i].gate is Open) ==> after[i].gate
                    == subs[i].gate
            }
            &&& 0 <= k < subs.len() && !(subs[k].terminal == sub.terminal && subs[k].client
                == sub.client) ==> after[k] == subs[k]
        }),
{
    lemma_find(subs, sub.terminal, sub.client);
    let after = registered(subs, sub);
    lemma_find(after, sub.terminal, sub.client);
    match find(subs, sub.terminal, sub.client) {
        Some(i) => {
            assert(after[i].terminal == sub.terminal && after[i].client == sub.client);
            assert forall|a: int, b: int|
                0 <= a < after.len() && 0 <= b < after.len() && (#[trigger] after[a]).terminal == (
                #[trigger] after[b]).terminal && after[a].client == after[b].client implies a
                == b by {
                assert(subs[a].terminal == after[a].terminal && subs[a].client
                    == after[a].client);
                assert(subs[b].terminal == after[b].terminal && subs[b].client
                    == after[b].client);
            }
        },
        None => {
            let n = subs.len() as int;
            assert(after[n].terminal == sub.terminal && after[n].client == sub.client);
            assert forall|a: int, b: int|
                0 <= a < after.len() && 0 <= b < after.len() && (#[trigger] after[a]).terminal == (
                #[trigger] after[b]).terminal && after[a].client == after[b].client implies a
                == b by {
                if a < n {
                    assert(after[a] == subs[a]);
                }
                if b < n {
                    assert(after[b] == subs[b]);
                }
            }
        },
    }
}

/// A registration says what it did: a new observer, a gate that was open and is
/// closed again, or nothing of the kind.
pub proof fn law_registrations_report_their_effect(subs: Seq<SubV>, sub: ProxySubscription)
    ensures
        registration_effect(subs, sub) is New <==> forall|i: int|
            0 <= i < subs.len() ==> !((#[trigger] subs[i]).terminal == sub.terminal
                && subs[i].client == sub.client),
        registration_effect(subs, sub) is Regated ==> sub.awaits_snapshot && exists|i: int|
            0 <= i < subs.len() && (#[trigger] subs[i]).terminal == sub.terminal && subs[i].client
                == sub.client && subs[i].gate is Open && registered(subs, sub)[i].gate
                is AwaitingFirst,
{
    lemma_find(subs, sub.terminal, sub.client);
    match find(subs, sub.terminal, sub.client) {
        Some(i) => {
            assert(subs[i].terminal == sub.terminal);
        },
        None => {},
    }
}

/// Undoing a new registration takes that observer away and no other; undoing a
/// closed gate opens it again unless a snapshot came meanwhile; otherwise there
/// is nothing to undo.
pub proof fn law_rolling_back_undoes_the_effect(
    subs: Seq<SubV>,
    terminal: u32,
    client: ClientId,
    i: int,
)
    requires
        distinct_observers(subs),
        0 <= i < subs.len(),
        subs[i].terminal == terminal,
        subs[i].client == client,
    ensures
        rolled_back(subs, terminal, client, Registration::New) == subs.remove(i),
        rolled_back(subs, terminal, client, Registration::Idempotent) == subs,
        ({
            let after = rolled_back(subs, terminal, client, Registration::Regated);
            &&& after.len() == subs.len()
            &&& subs[i].gate is AwaitingFirst ==> after[i].gate is Open
            &&& !(subs[i].gate is AwaitingFirst) ==> after == subs
            &&& after[i].mailbox == subs[i].mailbox
            &&& after[i].seq == subs[i].seq
            &&& forall|k: int|
                0 <= k < subs.len() && k != i ==> #[trigger] after[k] == subs[k]
        }),
{
    lemma_find(subs, terminal, client);
}

/// A withdrawal that is newer than the registration takes that observer away and
/// no other, and says whether anyone is left to observe the terminal.
pub proof fn law_withdrawing_takes_one_observer_away(
    subs: Seq<SubV>,
    terminal: u32,
    client: ClientId,
    seq: u64,
    i: int,
)
    requires
        distinct_observers(subs),
        0 <= i < subs.len(),
        subs[i].terminal == terminal,
        subs[i].client == client,
        subs[i].seq < seq,
    ensures
        withdrawn(subs, terminal, client, seq) == subs.remove(i),
        withdrawal(subs, terminal, client, seq) == Ok::<Option<u32>, Superseded>(
            if exists|k: int|
                0 <= k < subs.len() && k != i && (#[trigger] subs[k]).terminal == terminal {
                None
            } else {
                Some(terminal)
            },
        ),
{
    lemma_find(subs, terminal, client);
    let left = subs.remove(i);
    if observed(left, terminal) {
        let k = choose|k: int| 0 <= k < left.len() && (#[trigger] left[k]).terminal == terminal;
        let was = if k < i {
            k
        } else {
            k + 1
        };
        assert(left[k] == subs[was]);
        assert(subs[was].terminal == terminal);
    }
    if exists|k: int| 0 <= k < subs.len() && k != i && (#[trigger] subs[k]).terminal == terminal {
        let k = choose|k: int|
            0 <= k < subs.len() && k != i && (#[trigger] subs[k]).terminal == terminal;
        let now = if k < i {
            k
        } else {
            k - 1
        };
        assert(left[now] == subs[k]);
    }
}

proof fn lemma_without_client(subs: Seq<SubV>, n: nat, client: ClientId, sub: SubV)
    requires
        n <= subs.len(),
    ensures
        without_client(subs, n, client).contains(sub) <==> sub.client != client && exists|i: int|
            0 <= i < n && #[trigger] subs[i] == sub,
    decreases n,
{
    if n > 0 {
        let before = without_client(subs, (n - 1) as nat, client);
        let now = without_client(subs, n, client);
        lemma_without_client(subs, (n - 1) as nat, client, sub);
        if before.contains(sub) {
            let k = choose|k: int| 0 <= k < before.len() && before[k] == sub;
            assert(now[k] == sub);
        }
        if subs[n - 1] == sub && sub.client != client {
            assert(now[before.len() as int] == sub);
        }
        if now.contains(sub) && !before.contains(sub) {
            let k = choose|k: int| 0 <= k < now.len() && now[k] == sub;
            if k < before.len() {
                assert(before[k] == sub);
            }
            assert(subs[n - 1] == sub);
        }
    }
}

proof fn lemma_terminals_of(subs: Seq<SubV>, n: nat, client: ClientId, terminal: u32)
    requires
        n <= subs.len(),
    ensures
        terminals_of(subs, n, client).contains(terminal) <==> exists|i: int|
            0 <= i < n && (#[trigger] subs[i]).client == client && subs[i].terminal == terminal,
    decreases n,
{
    if n > 0 {
        let before = terminals_of(subs, (n - 1) as nat, client);
        let now = terminals_of(subs, n, client);
        lemma_terminals_of(subs, (n - 1) as nat, client, terminal);
        if before.contains(terminal) {
            let k = choose|k: int| 0 <= k < before.len() && before[k] == terminal;
            assert(now[k] == terminal);
        }
        if subs[n - 1].client == client && subs[n - 1].terminal == terminal {
            assert(now[before.len() as int] == terminal);
        }
        if now.contains(terminal) && !before.contains(terminal) {
            let k = choose|k: int| 0 <= k < now.len() && now[k] == terminal;
            if k < before.len() {
                assert(before[k] == terminal);
            }
            assert(subs[n - 1].client == client);
        }
    }
}

proof fn lemma_unobserved(terminals: Seq<u32>, n: nat, subs: Seq<SubV>, terminal: u32)
    requires
        n <= terminals.len(),
    ensures
        unobserved(terminals, n, subs).contains(terminal) <==> !observed(subs, terminal)
            && exists|i: int| 0 <= i < n && #[trigger] terminals[i] == terminal,
    decreases n,
{
    if n > 0 {
        let before = unobserved(terminals, (n - 1) as nat, subs);
        let now = unobserved(terminals, n, subs);
        lemma_unobserved(terminals, (n - 1) as nat, subs, terminal);
        if before.contains(terminal) {
            let k = choose|k: int| 0 <= k < before.len() && before[k] == terminal;
            assert(now[k] == terminal);
        }
        if terminals[n - 1] == terminal && !observed(subs, terminal) {
            assert(now[before.len() as int] == terminal);
        }
        if now.contains(terminal) && !before.contains(terminal) {
            let k = choose|k: int| 0 <= k < now.len() && now[k] == terminal;
            if k < before.len() {
                assert(before[k] == terminal);
            }
            assert(terminals[n - 1] == terminal);
        }
    }
}

/// A client that leaves takes its own registrations along and nobody else's. The
/// streams to stop are exactly those that it observed alone.
pub proof fn law_leaving_stops_what_nobody_else_observes(
    subs: Seq<SubV>,
    client: ClientId,
    sub: SubV,
    terminal: u32,
)
    ensures
        departed(subs, client).contains(sub) <==> subs.contains(sub) && sub.client != client,
        orphans(subs, client).contains(terminal) <==> {
            &&& exists|i: int|
                0 <= i < subs.len() && (#[trigger] subs[i]).client == client && subs[i].terminal
                    == terminal
            &&& forall|i: int|
                0 <= i < subs.len() && (#[trigger] subs[i]).terminal == terminal ==> subs[i].client
                    == client
        },
{
    let left = departed(subs, client);
    let terminals = terminals_of(subs, subs.len(), client);
    lemma_without_client(subs, subs.len(), client, sub);
    lemma_terminals_of(subs, subs.len(), client, terminal);
    lemma_unobserved(terminals, terminals.len(), left, terminal);
    if observed(left, terminal) {
        let k = choose|k: int| 0 <= k < left.len() && (#[trigger] left[k]).terminal == terminal;
        lemma_without_client(subs, subs.len(), client, left[k]);
        assert(left.contains(left[k]));
        let i = choose|i: int| 0 <= i < subs.len() && #[trigger] subs[i] == left[k];
        assert(subs[i].terminal == terminal && subs[i].client != client);
    }
    if exists|i: int|
        0 <= i < subs.len() && (#[trigger] subs[i]).terminal == terminal && subs[i].client
            != client {
        let i = choose|i: int|
            0 <= i < subs.len() && (#[trigger] subs[i]).terminal == terminal && subs[i].client
                != client;
        lemma_without_client(subs, subs.len(), client, subs[i]);
        let k = choose|k: int| 0 <= k < left.len() && left[k] == subs[i];
        assert(left[k].terminal == terminal);
    }
}

/// READY opens a subscriber gate, whether it could be sent at once or had to wait: an
/// observer that stays sees live output once its bootstrap was sent.
pub proof fn law_ready_opens_the_gate(
    gate: GateV,
    to: MailboxId,
    frame: FrameKind,
    enforce: bool,
    boxes: Seq<MailboxV>,
    bytes: nat,
    frames: nat,
)
    requires
        frame is BootstrapReady,
    ensures
        deliver(gate, to, frame, enforce, boxes, bytes, frames).gate matches Some(after)
            ==> after.opens(),
{
}

/// Whoever cannot be sent to loses its registration: a mailbox that is closed,
/// whatever the frame, and one that is full, for live output through an open
/// gate.
pub proof fn law_unreachable_observers_are_dropped(
    gate: GateV,
    to: MailboxId,
    frame: FrameKind,
    enforce: bool,
    boxes: Seq<MailboxV>,
    bytes: nat,
    frames: nat,
)
    requires
        to.0 < boxes.len(),
    ensures
        ({
            let d = deliver(gate, to, frame, enforce, boxes, bytes, frames);
            let starts = frame is BootstrapBegin || frame is BootstrapChunk
                || frame is BootstrapReady || frame is BootstrapTombstone;
            &&& !boxes[to.0 as int].open && (gate is Open || gate is AwaitingFirst && starts)
                ==> d.gate is None && d.boxes == boxes
            &&& boxes[to.0 as int].open && boxes[to.0 as int].queue.len()
                >= boxes[to.0 as int].capacity && gate is Open && !starts ==> d.gate is None
                && d.boxes == boxes
            &&& gate is AwaitingFirst && !starts ==> d.gate == Some(gate) && d.boxes == boxes
        }),
{
}

/// A bootstrap frame that finds its mailbox full waits there for room, and is
/// counted; live output never waits.
pub proof fn law_bootstrap_frames_wait_for_room(
    gate: GateV,
    to: MailboxId,
    frame: FrameKind,
    opens: bool,
    boxes: Seq<MailboxV>,
    bytes: nat,
    frames: nat,
)
    requires
        to.0 < boxes.len(),
        boxes[to.0 as int].open,
        boxes[to.0 as int].queue.len() >= boxes[to.0 as int].capacity,
        gate is Open || gate is AwaitingFirst,
    ensures
        ({
            let d = push_bootstrap(gate, to, frame, opens, boxes, bytes, frames);
            &&& d.boxes == boxes
            &&& d.gate matches Some(after) ==> {
                &&& after.owed() == seq![frame]
                &&& after.opens() == opens
                &&& d.bytes == bytes + frame_cost(frame)
                &&& d.frames == frames + 1
            }
            &&& d.gate is None ==> d.bytes == bytes && d.frames == frames
        }),
{
}

/// A frame that waits costs its payload and a fixed amount on top; a chunk's
/// payload is its own, READY's is its cursor, and the rest have none.
pub proof fn law_waiting_frames_cost_their_payload(frame: FrameKind, more: Seq<FrameKind>)
    ensures
        frame matches FrameKind::BootstrapChunk { payload, .. } ==> (contents(payload).len()
            + RETAINED_FRAME_OVERHEAD <= usize::MAX ==> frame_cost(frame) == contents(payload).len()
            + RETAINED_FRAME_OVERHEAD),
        frame matches FrameKind::BootstrapReady { history_cursor: Some(cursor), .. } ==> (contents(
            cursor,
        ).len() + RETAINED_FRAME_OVERHEAD <= usize::MAX ==> frame_cost(frame) == contents(
            cursor,
        ).len() + RETAINED_FRAME_OVERHEAD),
        frame is BootstrapBegin || frame is BootstrapTombstone ==> frame_cost(frame)
            == RETAINED_FRAME_OVERHEAD,
        frame_cost(frame) >= RETAINED_FRAME_OVERHEAD,
        frames_cost(seq![frame] + more) == frame_cost(frame) + frames_cost(more),
{
    assert((seq![frame] + more).drop_first() == more);
    assert((seq![frame] + more)[0] == frame);
}

/// What waits in a gate goes out in its order as soon as there is room for all of
/// it, and that gate is then what its bootstrap left: open after READY, waiting
/// for more otherwise. A gate with nothing to send stays as it is.
pub proof fn law_flushing_sends_what_waits(
    frames: Seq<FrameKind>,
    open_after: bool,
    to: MailboxId,
    boxes: Seq<MailboxV>,
)
    requires
        to.0 < boxes.len(),
        boxes[to.0 as int].open,
        boxes[to.0 as int].queue.len() + frames.len() <= boxes[to.0 as int].capacity,
    ensures
        ({
            let (gate, after) = flush_gate(GateV::Retained { frames, open_after }, to, boxes);
            &&& gate == Some(
                if open_after {
                    GateV::Open
                } else {
                    GateV::AwaitingFirst
                },
            )
            &&& after.len() == boxes.len()
            &&& after[to.0 as int].queue.len() == boxes[to.0 as int].queue.len() + frames.len()
            &&& boxes[to.0 as int].queue.is_prefix_of(after[to.0 as int].queue)
            &&& forall|i: int|
                0 <= i < frames.len() ==> after[to.0 as int].queue[boxes[to.0 as int].queue.len()
                    + i] == Outbound::Frame(#[trigger] frames[i])
            &&& flush_gate(GateV::Open, to, boxes) == (Some(GateV::Open), boxes)
            &&& flush_gate(GateV::AwaitingFirst, to, boxes) == (Some(GateV::AwaitingFirst), boxes)
        }),
    decreases frames.len(),
{
    if frames.len() > 0 {
        let sent = crate::mailbox::queued(boxes, to, Outbound::Frame(frames[0]));
        let rest = frames.drop_first();
        law_flushing_sends_what_waits(rest, open_after, to, sent);
        let (_, after) = flush_gate(GateV::Retained { frames, open_after }, to, boxes);
        let q = boxes[to.0 as int].queue.len() as int;
        assert(sent[to.0 as int].queue[q] == Outbound::Frame(frames[0]));
        assert forall|i: int| 0 <= i < frames.len() implies after[to.0 as int].queue[q + i]
            == Outbound::Frame(#[trigger] frames[i]) by {
            if i > 0 {
                assert(rest[i - 1] == frames[i]);
                assert(after[to.0 as int].queue[q + 1 + (i - 1)] == Outbound::Frame(rest[i - 1]));
            } else {
                assert(after[to.0 as int].queue[q] == sent[to.0 as int].queue[q]);
            }
        }
    }
}

proof fn lemma_flush_all_keeps(subs: Seq<SubV>, n: nat, boxes: Seq<MailboxV>, i: int)
    requires
        n <= subs.len(),
        0 <= i < n,
        !(subs[i].gate is Retained),
    ensures
        flush_all(subs, n, boxes).0.contains(subs[i]),
    decreases n,
{
    let (kept, before) = flush_all(subs, (n - 1) as nat, boxes);
    let now = flush_all(subs, n, boxes).0;
    if i < n - 1 {
        lemma_flush_all_keeps(subs, (n - 1) as nat, boxes, i);
        let k = choose|k: int| 0 <= k < kept.len() && kept[k] == subs[i];
        assert(now[k] == subs[i]);
    } else {
        assert(now[kept.len() as int] == subs[i]);
    }
}

/// A flush leaves every observer with nothing to send as it is.
pub proof fn law_flushing_spares_the_others(subs: Seq<SubV>, boxes: Seq<MailboxV>, i: int)
    requires
        0 <= i < subs.len(),
        !(subs[i].gate is Retained),
    ensures
        flush_all(subs, subs.len(), boxes).0.contains(subs[i]),
{
    lemma_flush_all_keeps(subs, subs.len(), boxes, i);
}

/// A request whose waiter has gone is forgotten; every other is kept, with the
/// waiter it is for.
pub proof fn law_forgetting_keeps_who_still_waits(
    commands: Seq<(u32, PendingCommand)>,
    spawns: Seq<(u32, ReplyId)>,
    gone: Seq<ReplyId>,
    command: (u32, PendingCommand),
    spawn: (u32, ReplyId),
)
    ensures
        awaited_commands(commands, commands.len(), gone).contains(command) <==> commands.contains(
            command,
        ) && !gone.contains(command.1.reply),
        awaited_spawns(spawns, spawns.len(), gone).contains(spawn) <==> spawns.contains(spawn)
            && !gone.contains(spawn.1),
{
    lemma_awaited_commands(commands, commands.len(), gone, command);
    lemma_awaited_spawns(spawns, spawns.len(), gone, spawn);
}

proof fn lemma_awaited_commands(
    entries: Seq<(u32, PendingCommand)>,
    n: nat,
    gone: Seq<ReplyId>,
    entry: (u32, PendingCommand),
)
    requires
        n <= entries.len(),
    ensures
        awaited_commands(entries, n, gone).contains(entry) <==> !gone.contains(entry.1.reply)
            && exists|i: int| 0 <= i < n && #[trigger] entries[i] == entry,
    decreases n,
{
    if n > 0 {
        let before = awaited_commands(entries, (n - 1) as nat, gone);
        let now = awaited_commands(entries, n, gone);
        lemma_awaited_commands(entries, (n - 1) as nat, gone, entry);
        if before.contains(entry) {
            let k = choose|k: int| 0 <= k < before.len() && before[k] == entry;
            assert(now[k] == entry);
        }
        if entries[n - 1] == entry && !gone.contains(entry.1.reply) {
            assert(now[before.len() as int] == entry);
        }
        if now.contains(entry) && !before.contains(entry) {
            let k = choose|k: int| 0 <= k < now.len() && now[k] == entry;
            if k < before.len() {
                assert(before[k] == entry);
            }
            assert(entries[n - 1] == entry);
        }
    }
}

proof fn lemma_awaited_spawns(
    entries: Seq<(u32, ReplyId)>,
    n: nat,
    gone: Seq<ReplyId>,
    entry: (u32, ReplyId),
)
    requires
        n <= entries.len(),
    ensures
        awaited_spawns(entries, n, gone).contains(entry) <==> !gone.contains(entry.1) && exists|
            i: int,
        |
            0 <= i < n && #[trigger] entries[i] == entry,
    decreases n,
{
    if n > 0 {
        let before = awaited_spawns(entries, (n - 1) as nat, gone);
        let now = awaited_spawns(entries, n, gone);
        lemma_awaited_spawns(entries, (n - 1) as nat, gone, entry);
        if before.contains(entry) {
            let k = choose|k: int| 0 <= k < before.len() && before[k] == entry;
            assert(now[k] == entry);
        }
        if entries[n - 1] == entry && !gone.contains(entry.1) {
            assert(now[before.len() as int] == entry);
        }
        if now.contains(entry) && !before.contains(entry) {
            let k = choose|k: int| 0 <= k < now.len() && now[k] == entry;
            if k < before.len() {
                assert(before[k] == entry);
            }
            assert(entries[n - 1] == entry);
        }
    }
}

/// On a link that enforces the order of a bootstrap a BEGIN waits its turn behind
/// what waits already; on any other link it starts over, and what waited is
/// forgotten.
pub proof fn law_begin_starts_over_where_nothing_is_enforced(
    gate: GateV,
    to: MailboxId,
    frame: FrameKind,
    boxes: Seq<MailboxV>,
    bytes: nat,
    frames: nat,
)
    requires
        frame is BootstrapBegin,
        to.0 < boxes.len(),
        boxes[to.0 as int].open,
        boxes[to.0 as int].queue.len() < boxes[to.0 as int].capacity,
    ensures
        ({
            let free = deliver(gate, to, frame, false, boxes, bytes, frames);
            let bound = deliver(gate, to, frame, true, boxes, bytes, frames);
            &&& free.gate == Some(GateV::AwaitingFirst)
            &&& free.boxes[to.0 as int].queue == boxes[to.0 as int].queue.push(
                Outbound::Frame(frame),
            )
            &&& gate is Retained ==> bound.boxes == boxes && (bound.gate matches Some(after)
                ==> after.owed() == gate.owed().push(frame))
        }),
{
}

/// A bootstrap frame is added to what waits exactly while the consumer and the
/// connection may hold it; otherwise the consumer is dropped, and the connection
/// gets back everything that waited for it.
pub proof fn law_dropped_observers_give_back_what_waited(
    kept: Seq<FrameKind>,
    open_after: bool,
    to: MailboxId,
    frame: FrameKind,
    opens: bool,
    boxes: Seq<MailboxV>,
    bytes: nat,
    frames: nat,
)
    requires
        bytes >= frames_cost(kept),
        frames >= kept.len(),
    ensures
        ({
            let d = push_bootstrap(
                GateV::Retained { frames: kept, open_after },
                to,
                frame,
                opens,
                boxes,
                bytes,
                frames,
            );
            let cost = frame_cost(frame);
            &&& d.boxes == boxes
            &&& d.gate is Some <==> frames_cost(kept) + cost
                <= MAX_RELAY_SUBSCRIBER_RETAINED_BYTES && kept.len()
                < MAX_RELAY_SUBSCRIBER_RETAINED_FRAMES && bytes + cost
                <= MAX_RELAY_CONNECTION_RETAINED_BYTES && frames
                < MAX_RELAY_CONNECTION_RETAINED_FRAMES
            &&& d.gate matches Some(after) ==> {
                &&& after.owed() == kept.push(frame)
                &&& after.opens() == (open_after || opens)
                &&& d.bytes == bytes + cost
                &&& d.frames == frames + 1
            }
            &&& d.gate is None ==> d.bytes == bytes - frames_cost(kept) && d.frames == frames
                - kept.len()
        }),
{
}

/// A mailbox that has room for some of what waits takes the first ones, in order,
/// and the rest goes on waiting; an observer whose mailbox is closed is dropped.
pub proof fn law_flushing_stops_where_the_room_ends(
    frames: Seq<FrameKind>,
    open_after: bool,
    to: MailboxId,
    boxes: Seq<MailboxV>,
    room: nat,
)
    requires
        to.0 < boxes.len(),
        boxes[to.0 as int].queue.len() + room == boxes[to.0 as int].capacity,
        room < frames.len(),
    ensures
        ({
            let (gate, after) = flush_gate(GateV::Retained { frames, open_after }, to, boxes);
            let before = boxes[to.0 as int];
            &&& before.open ==> {
                &&& gate == Some(GateV::Retained { frames: frames.skip(room as int), open_after })
                &&& after.len() == boxes.len()
                &&& after[to.0 as int].queue.len() == before.capacity
                &&& before.queue.is_prefix_of(after[to.0 as int].queue)
                &&& forall|i: int|
                    0 <= i < room ==> after[to.0 as int].queue[before.queue.len() + i]
                        == Outbound::Frame(#[trigger] frames[i])
            }
            &&& !before.open ==> gate is None && after == boxes
        }),
    decreases frames.len(),
{
    let before = boxes[to.0 as int];
    if before.open && room > 0 {
        let sent = crate::mailbox::queued(boxes, to, Outbound::Frame(frames[0]));
        let rest = frames.drop_first();
        law_flushing_stops_where_the_room_ends(rest, open_after, to, sent, (room - 1) as nat);
        let (_, after) = flush_gate(GateV::Retained { frames, open_after }, to, boxes);
        let q = before.queue.len() as int;
        assert(rest.skip(room - 1) == frames.skip(room as int));
        assert(sent[to.0 as int].queue[q] == Outbound::Frame(frames[0]));
        assert forall|i: int| 0 <= i < room implies after[to.0 as int].queue[q + i]
            == Outbound::Frame(#[trigger] frames[i]) by {
            if i > 0 {
                assert(rest[i - 1] == frames[i]);
                assert(after[to.0 as int].queue[q + 1 + (i - 1)] == Outbound::Frame(rest[i - 1]));
            } else {
                assert(after[to.0 as int].queue[q] == sent[to.0 as int].queue[q]);
            }
        }
    } else if before.open {
        assert(frames.skip(0) == frames);
    }
}

} // verus!
