//! What a satellite's stream looks like to those who observe it through the hub.

use crate::hub::gate::{
    deliver, fan, fan_past_gates, law_deliveries_touch_one_mailbox, GateV, SubV,
};
use crate::hub::registry::not_observing;
use crate::hub::session::{is_stream, retagged, stream_scope, SessionV};
use crate::ids::{SatelliteHost, TerminalId};
use crate::mailbox::{MailboxId, MailboxV, Outbound};
use crate::wire::FrameKind;
use vstd::prelude::*;

verus! {

/// The two frames say the same of, possibly, two different terminals.
pub open spec fn agree_but_for_the_terminal(left: FrameKind, right: FrameKind) -> bool {
    match (left, right) {
        (FrameKind::Event { event: a, .. }, FrameKind::Event { event: b, .. }) => a == b,
        (
            FrameKind::TerminalOutput { stream_id: a, bootstrap_id: c, seq: e, bytes: g, .. },
            FrameKind::TerminalOutput { stream_id: b, bootstrap_id: d, seq: f, bytes: h, .. },
        ) => a == b && c == d && e == f && g == h,
        (
            FrameKind::BootstrapBegin {
                stream_id: a,
                bootstrap_id: c,
                profile: e,
                cols: g,
                rows: i,
                base_seq: k,
                ..
            },
            FrameKind::BootstrapBegin {
                stream_id: b,
                bootstrap_id: d,
                profile: f,
                cols: h,
                rows: j,
                base_seq: l,
                ..
            },
        ) => a == b && c == d && e == f && g == h && i == j && k == l,
        (
            FrameKind::BootstrapChunk { stream_id: a, bootstrap_id: c, chunk_seq: e, payload: g, .. },
            FrameKind::BootstrapChunk { stream_id: b, bootstrap_id: d, chunk_seq: f, payload: h, .. },
        ) => a == b && c == d && e == f && g == h,
        (
            FrameKind::BootstrapReady { stream_id: a, bootstrap_id: c, history_cursor: e, .. },
            FrameKind::BootstrapReady { stream_id: b, bootstrap_id: d, history_cursor: f, .. },
        ) => a == b && c == d && e == f,
        (
            FrameKind::HistoryPage {
                stream_id: a,
                bootstrap_id: c,
                page_seq: e,
                cursor: g,
                next_cursor: i,
                payload: k,
                rows: m,
                ..
            },
            FrameKind::HistoryPage {
                stream_id: b,
                bootstrap_id: d,
                page_seq: f,
                cursor: h,
                next_cursor: j,
                payload: l,
                rows: n,
                ..
            },
        ) => a == b && c == d && e == f && g == h && i == j && k == l && m == n,
        (
            FrameKind::BootstrapTombstone {
                stream_id: a,
                bootstrap_id: c,
                reason: e,
                last_valid_seq: g,
                ..
            },
            FrameKind::BootstrapTombstone {
                stream_id: b,
                bootstrap_id: d,
                reason: f,
                last_valid_seq: h,
                ..
            },
        ) => a == b && c == d && e == f && g == h,
        (
            FrameKind::HistoryTombstone { stream_id: a, bootstrap_id: c, cursor: e, reason: g, .. },
            FrameKind::HistoryTombstone { stream_id: b, bootstrap_id: d, cursor: f, reason: h, .. },
        ) => a == b && c == d && e == f && g == h,
        (
            FrameKind::HistoryRejected {
                stream_id: a,
                bootstrap_id: c,
                cursor: e,
                reason: g,
                required_bytes: i,
                required_rows: k,
                ..
            },
            FrameKind::HistoryRejected {
                stream_id: b,
                bootstrap_id: d,
                cursor: f,
                reason: h,
                required_bytes: j,
                required_rows: l,
                ..
            },
        ) => a == b && c == d && e == f && g == h && i == j && k == l,
        _ => false,
    }
}

/// Tagging changes the terminal of a stream frame and nothing else. A frame that
/// is about the local terminal again, and agrees with the tagged one in the
/// rest, is the frame that came in.
pub proof fn law_tagging_changes_the_terminal_only(
    frame: FrameKind,
    host: SatelliteHost,
    id: u32,
    untagged: FrameKind,
)
    requires
        is_stream(frame),
        stream_scope(frame) == Some(TerminalId::Local { id }),
    ensures
        agree_but_for_the_terminal(frame, retagged(frame, host, id)),
        stream_scope(untagged) == Some(TerminalId::Local { id }) && agree_but_for_the_terminal(
            untagged,
            retagged(frame, host, id),
        ) ==> untagged == frame,
{
}

/// Two frames about one terminal that are told apart before tagging are told
/// apart after it, and so are two satellites and two terminals.
pub proof fn law_tags_tell_frames_apart(
    frame: FrameKind,
    other: FrameKind,
    host: SatelliteHost,
    other_host: SatelliteHost,
    id: u32,
    other_id: u32,
)
    requires
        is_stream(frame),
        is_stream(other),
        stream_scope(frame) == Some(TerminalId::Local { id }),
        stream_scope(other) == Some(TerminalId::Local { id: other_id }),
        retagged(frame, host, id) == retagged(other, other_host, other_id),
    ensures
        frame == other,
        host == other_host,
        id == other_id,
{
}

/// What is no stream frame is not tagged.
pub proof fn law_other_frames_are_not_tagged(frame: FrameKind, host: SatelliteHost, id: u32)
    requires
        !is_stream(frame),
    ensures
        retagged(frame, host, id) == frame,
{
}

proof fn lemma_fan_keeps_size(
    subs: Seq<SubV>,
    n: nat,
    id: u32,
    frame: FrameKind,
    enforce: bool,
    boxes: Seq<MailboxV>,
    bytes: nat,
    frames: nat,
    at: MailboxId,
)
    requires
        n <= subs.len(),
        at.0 < boxes.len(),
        forall|k: int|
            0 <= k < n && (#[trigger] subs[k]).terminal == id ==> subs[k].mailbox != at,
    ensures
        fan(subs, n, id, frame, enforce, boxes, bytes, frames).boxes.len() == boxes.len(),
        fan(subs, n, id, frame, enforce, boxes, bytes, frames).boxes[at.0 as int]
            == boxes[at.0 as int],
    decreases n,
{
    if n > 0 {
        let before = fan(subs, (n - 1) as nat, id, frame, enforce, boxes, bytes, frames);
        lemma_fan_keeps_size(
            subs,
            (n - 1) as nat,
            id,
            frame,
            enforce,
            boxes,
            bytes,
            frames,
            at,
        );
        let sub = subs[n - 1];
        if sub.terminal == id {
            law_deliveries_touch_one_mailbox(
                sub.gate,
                sub.mailbox,
                frame,
                enforce,
                before.boxes,
                before.bytes,
                before.frames,
                at,
            );
        }
    }
}

/// A gate that lets `frame` through at once, as long as the mailbox has room.
pub open spec fn passes_now(gate: GateV, frame: FrameKind) -> bool {
    if frame is BootstrapBegin || frame is BootstrapChunk || frame is BootstrapReady
        || frame is BootstrapTombstone {
        gate is Open || gate is AwaitingFirst
    } else {
        gate is Open
    }
}

/// The mailbox took one more message behind those that it held.
pub open spec fn took(after: MailboxV, before: MailboxV, message: Outbound) -> bool {
    &&& after.open == before.open
    &&& after.capacity == before.capacity
    &&& after.queue.len() == before.queue.len() + 1
    &&& before.queue.is_prefix_of(after.queue)
    &&& after.queue.last() == message
}

proof fn lemma_fan_reaches(
    subs: Seq<SubV>,
    n: nat,
    id: u32,
    frame: FrameKind,
    enforce: bool,
    boxes: Seq<MailboxV>,
    bytes: nat,
    frames: nat,
    i: int,
)
    requires
        n <= subs.len(),
        0 <= i < n,
        subs[i].terminal == id,
        forall|k: int|
            0 <= k < subs.len() && k != i && (#[trigger] subs[k]).terminal == id
                ==> subs[k].mailbox != subs[i].mailbox,
        passes_now(subs[i].gate, frame),
        subs[i].mailbox.0 < boxes.len(),
        boxes[subs[i].mailbox.0 as int].open,
        boxes[subs[i].mailbox.0 as int].queue.len() < boxes[subs[i].mailbox.0 as int].capacity,
    ensures
        ({
            let at = subs[i].mailbox.0 as int;
            let walk = fan(subs, n, id, frame, enforce, boxes, bytes, frames);
            &&& walk.boxes.len() == boxes.len()
            &&& took(walk.boxes[at], boxes[at], Outbound::Frame(frame))
            &&& exists|k: int|
                0 <= k < walk.kept.len() && #[trigger] walk.kept[k] == (SubV {
                    gate: walk.kept[k].gate,
                    ..subs[i]
                }) && (walk.kept[k].gate is Open <==> !(frame is BootstrapBegin
                    || frame is BootstrapChunk || frame is BootstrapTombstone))
        }),
    decreases n,
{
    let at = subs[i].mailbox.0 as int;
    let before = fan(subs, (n - 1) as nat, id, frame, enforce, boxes, bytes, frames);
    let walk = fan(subs, n, id, frame, enforce, boxes, bytes, frames);
    let sub = subs[n - 1];
    if i < n - 1 {
        lemma_fan_reaches(subs, (n - 1) as nat, id, frame, enforce, boxes, bytes, frames, i);
        if sub.terminal == id {
            law_deliveries_touch_one_mailbox(
                sub.gate,
                sub.mailbox,
                frame,
                enforce,
                before.boxes,
                before.bytes,
                before.frames,
                subs[i].mailbox,
            );
        }
        let k = choose|k: int|
            0 <= k < before.kept.len() && #[trigger] before.kept[k] == (SubV {
                gate: before.kept[k].gate,
                ..subs[i]
            }) && (before.kept[k].gate is Open <==> !(frame is BootstrapBegin
                || frame is BootstrapChunk || frame is BootstrapTombstone));
        assert(walk.kept[k] == before.kept[k]);
    } else {
        lemma_fan_keeps_size(
            subs,
            (n - 1) as nat,
            id,
            frame,
            enforce,
            boxes,
            bytes,
            frames,
            sub.mailbox,
        );
        let d = deliver(
            sub.gate,
            sub.mailbox,
            frame,
            enforce,
            before.boxes,
            before.bytes,
            before.frames,
        );
        assert(walk.kept == before.kept.push(SubV { gate: d.gate->Some_0, ..sub }));
        let k = before.kept.len() as int;
        assert(walk.kept[k] == (SubV { gate: walk.kept[k].gate, ..subs[i] }));
    }
}

/// Whoever observes a terminal of a satellite through an open gate gets each of
/// its stream frames once, behind what is queued already: the frame itself,
/// about that terminal of that satellite. A bootstrap frame also passes a gate
/// that awaits one. It is open afterwards unless the bootstrap goes on.
pub proof fn law_observers_get_the_frame_itself(
    session: SessionV,
    frame: FrameKind,
    id: u32,
    boxes: Seq<MailboxV>,
    i: int,
)
    requires
        is_stream(frame),
        stream_scope(frame) == Some(TerminalId::Local { id }),
        !session.requests.barred(id) || frame is Event,
        session.inbound(frame, boxes).fault is None,
        0 <= i < session.subs.len(),
        session.subs[i].terminal == id,
        forall|k: int|
            0 <= k < session.subs.len() && k != i && (#[trigger] session.subs[k]).terminal == id
                ==> session.subs[k].mailbox != session.subs[i].mailbox,
        passes_now(session.subs[i].gate, frame),
        session.subs[i].mailbox.0 < boxes.len(),
        boxes[session.subs[i].mailbox.0 as int].open,
        boxes[session.subs[i].mailbox.0 as int].queue.len()
            < boxes[session.subs[i].mailbox.0 as int].capacity,
    ensures
        ({
            let at = session.subs[i].mailbox.0 as int;
            let after = session.inbound(frame, boxes);
            let tag = TerminalId::Satellite { host: session.link.host, id };
            &&& after.boxes[at].queue.last() matches Outbound::Frame(said)
            &&& agree_but_for_the_terminal(frame, said)
            &&& stream_scope(said) == Some(tag)
            &&& took(after.boxes[at], boxes[at], after.boxes[at].queue.last())
            &&& exists|k: int|
                0 <= k < after.state.subs.len() && (#[trigger] after.state.subs[k]).mailbox
                    == session.subs[i].mailbox && after.state.subs[k].client
                    == session.subs[i].client && after.state.subs[k].terminal == id && (
                after.state.subs[k].gate is Open <==> !(frame is BootstrapBegin
                    || frame is BootstrapChunk || frame is BootstrapTombstone))
        }),
{
    let tagged = retagged(frame, session.link.host, id);
    assert(tagged is BootstrapBegin == frame is BootstrapBegin);
    assert(tagged is BootstrapChunk == frame is BootstrapChunk);
    assert(tagged is BootstrapReady == frame is BootstrapReady);
    assert(tagged is BootstrapTombstone == frame is BootstrapTombstone);
    assert(!session.answers_stop(frame));
    lemma_fan_reaches(
        session.subs,
        session.subs.len(),
        id,
        tagged,
        session.link.enforce_bootstrap_flow,
        boxes,
        crate::hub::gate::total_bytes(session.subs),
        crate::hub::gate::total_frames(session.subs),
        i,
    );
    law_tagging_changes_the_terminal_only(frame, session.link.host, id, frame);
    let kept = session.inbound(frame, boxes).state.subs;
    let k = choose|k: int|
        0 <= k < kept.len() && #[trigger] kept[k] == (SubV {
            gate: kept[k].gate,
            ..session.subs[i]
        }) && (kept[k].gate is Open <==> !(tagged is BootstrapBegin || tagged is BootstrapChunk
            || tagged is BootstrapTombstone));
    assert(kept[k].mailbox == session.subs[i].mailbox);
}

/// An observer of another terminal is not touched by a stream frame: its
/// registration stays, gate and all.
pub proof fn law_streams_keep_to_their_terminal(
    session: SessionV,
    frame: FrameKind,
    id: u32,
    boxes: Seq<MailboxV>,
    i: int,
)
    requires
        is_stream(frame),
        stream_scope(frame) == Some(TerminalId::Local { id }),
        0 <= i < session.subs.len(),
        session.subs[i].terminal != id,
    ensures
        session.inbound(frame, boxes).state.subs.contains(session.subs[i]),
        session.inbound(frame, boxes).state.requests == session.requests,
        session.inbound(frame, boxes).state.explicit == session.explicit,
        session.inbound(frame, boxes).state.legacy == session.legacy,
{
    assert(session.subs.contains(session.subs[i]));
    assert(!session.answers_stop(frame));
    lemma_fan_keeps_others(
        session.subs,
        session.subs.len(),
        id,
        retagged(frame, session.link.host, id),
        session.link.enforce_bootstrap_flow,
        boxes,
        crate::hub::gate::total_bytes(session.subs),
        crate::hub::gate::total_frames(session.subs),
        i,
    );
}

proof fn lemma_fan_keeps_others(
    subs: Seq<SubV>,
    n: nat,
    id: u32,
    frame: FrameKind,
    enforce: bool,
    boxes: Seq<MailboxV>,
    bytes: nat,
    frames: nat,
    i: int,
)
    requires
        n <= subs.len(),
        0 <= i < n,
        subs[i].terminal != id,
    ensures
        fan(subs, n, id, frame, enforce, boxes, bytes, frames).kept.contains(subs[i]),
    decreases n,
{
    let before = fan(subs, (n - 1) as nat, id, frame, enforce, boxes, bytes, frames);
    let walk = fan(subs, n, id, frame, enforce, boxes, bytes, frames);
    if i < n - 1 {
        lemma_fan_keeps_others(subs, (n - 1) as nat, id, frame, enforce, boxes, bytes, frames, i);
        let k = choose|k: int| 0 <= k < before.kept.len() && before.kept[k] == subs[i];
        assert(walk.kept[k] == subs[i]);
    } else {
        assert(walk.kept[before.kept.len() as int] == subs[i]);
    }
}

proof fn lemma_past_gates_spare(
    subs: Seq<SubV>,
    n: nat,
    id: u32,
    frame: FrameKind,
    boxes: Seq<MailboxV>,
    at: int,
)
    requires
        n <= subs.len(),
        0 <= at < boxes.len(),
        forall|k: int|
            0 <= k < n && (#[trigger] subs[k]).terminal == id ==> subs[k].mailbox.0 != at,
    ensures
        fan_past_gates(subs, n, id, frame, boxes).1.len() == boxes.len(),
        fan_past_gates(subs, n, id, frame, boxes).1[at] == boxes[at],
    decreases n,
{
    if n > 0 {
        lemma_past_gates_spare(subs, (n - 1) as nat, id, frame, boxes, at);
    }
}

proof fn lemma_past_gates_reach(
    subs: Seq<SubV>,
    n: nat,
    id: u32,
    frame: FrameKind,
    boxes: Seq<MailboxV>,
    i: int,
)
    requires
        n <= subs.len(),
        0 <= i < n,
        subs[i].terminal == id,
        forall|k: int|
            0 <= k < subs.len() && k != i && (#[trigger] subs[k]).terminal == id
                ==> subs[k].mailbox != subs[i].mailbox,
        subs[i].mailbox.0 < boxes.len(),
        boxes[subs[i].mailbox.0 as int].open,
        boxes[subs[i].mailbox.0 as int].queue.len() < boxes[subs[i].mailbox.0 as int].capacity,
    ensures
        ({
            let at = subs[i].mailbox.0 as int;
            let (kept, after) = fan_past_gates(subs, n, id, frame, boxes);
            &&& after.len() == boxes.len()
            &&& took(after[at], boxes[at], Outbound::Frame(frame))
            &&& kept.contains(subs[i])
        }),
    decreases n,
{
    let at = subs[i].mailbox.0 as int;
    let (kept, before) = fan_past_gates(subs, (n - 1) as nat, id, frame, boxes);
    let now = fan_past_gates(subs, n, id, frame, boxes).0;
    if i < n - 1 {
        lemma_past_gates_reach(subs, (n - 1) as nat, id, frame, boxes, i);
        let k = choose|k: int| 0 <= k < kept.len() && kept[k] == subs[i];
        assert(now[k] == subs[i]);
    } else {
        lemma_past_gates_spare(subs, (n - 1) as nat, id, frame, boxes, at);
        assert(now[kept.len() as int] == subs[i]);
    }
}

proof fn lemma_not_observing(subs: Seq<SubV>, n: nat, terminal: u32, sub: SubV)
    requires
        n <= subs.len(),
    ensures
        not_observing(subs, n, terminal).contains(sub) <==> subs.take(n as int).contains(sub)
            && sub.terminal != terminal,
    decreases n,
{
    let now = not_observing(subs, n, terminal);
    if n > 0 {
        let before = not_observing(subs, (n - 1) as nat, terminal);
        lemma_not_observing(subs, (n - 1) as nat, terminal, sub);
        assert(subs.take(n as int) == subs.take(n - 1).push(subs[n - 1]));
        if before.contains(sub) {
            let k = choose|k: int| 0 <= k < before.len() && before[k] == sub;
            assert(now[k] == sub);
        }
        let taken = subs.take(n - 1);
        if taken.contains(sub) {
            let k = choose|k: int| 0 <= k < taken.len() && taken[k] == sub;
            assert(subs.take(n as int)[k] == sub);
        }
        if subs[n - 1] == sub {
            assert(subs.take(n as int)[n - 1] == sub);
            if sub.terminal != terminal {
                assert(now[before.len() as int] == sub);
            }
        }
        if now.contains(sub) && !before.contains(sub) {
            let k = choose|k: int| 0 <= k < now.len() && now[k] == sub;
            if k < before.len() {
                assert(before[k] == sub);
            }
        }
    }
}

/// Whoever observes a terminal that closes is told so, whatever its gate, with
/// the exit status and the reason that the satellite gave. Nobody observes it
/// afterwards, nothing remains of its generation, and observers of other
/// terminals stay.
pub proof fn law_closing_is_told_and_final(
    session: SessionV,
    frame: FrameKind,
    id: u32,
    boxes: Seq<MailboxV>,
    i: int,
    other: SubV,
)
    requires
        frame matches FrameKind::TerminalClosed { terminal_id: TerminalId::Local { id: closed }, .. }
            && closed == id,
        0 <= i < session.subs.len(),
        session.subs[i].terminal == id,
        forall|k: int|
            0 <= k < session.subs.len() && k != i && (#[trigger] session.subs[k]).terminal == id
                ==> session.subs[k].mailbox != session.subs[i].mailbox,
        session.subs[i].mailbox.0 < boxes.len(),
        boxes[session.subs[i].mailbox.0 as int].open,
        boxes[session.subs[i].mailbox.0 as int].queue.len()
            < boxes[session.subs[i].mailbox.0 as int].capacity,
    ensures
        ({
            let at = session.subs[i].mailbox.0 as int;
            let after = session.inbound(frame, boxes);
            &&& after.fault is None
            &&& after.boxes[at].queue.last() matches Outbound::Frame(
                FrameKind::TerminalClosed { terminal_id, exit_status, reason },
            )
            &&& terminal_id == (TerminalId::Satellite { host: session.link.host, id })
            &&& exit_status == frame->TerminalClosed_exit_status
            &&& reason == frame->TerminalClosed_reason
            &&& took(after.boxes[at], boxes[at], after.boxes[at].queue.last())
            &&& !after.state.flows.flows.contains_key(id)
            &&& !after.state.explicit.contains(id)
            &&& !after.state.legacy.contains(id)
            &&& after.state.subs.contains(other) ==> other.terminal != id
            &&& session.subs.contains(other) && other.terminal != id
                ==> after.state.subs.contains(other)
        }),
{
    assert(!session.answers_stop(frame));
    let said = FrameKind::TerminalClosed {
        terminal_id: TerminalId::Satellite { host: session.link.host, id },
        exit_status: frame->TerminalClosed_exit_status,
        reason: frame->TerminalClosed_reason,
    };
    lemma_past_gates_reach(session.subs, session.subs.len(), id, said, boxes, i);
    let (kept, _) = fan_past_gates(session.subs, session.subs.len(), id, said, boxes);
    lemma_not_observing(kept, kept.len(), id, other);
    assert(kept.take(kept.len() as int) == kept);
    if session.subs.contains(other) && other.terminal != id {
        let k = choose|k: int| 0 <= k < session.subs.len() && session.subs[k] == other;
        lemma_past_gates_keep(session.subs, session.subs.len(), id, said, boxes, k);
    }
}

proof fn lemma_past_gates_keep(
    subs: Seq<SubV>,
    n: nat,
    id: u32,
    frame: FrameKind,
    boxes: Seq<MailboxV>,
    i: int,
)
    requires
        n <= subs.len(),
        0 <= i < n,
        subs[i].terminal != id,
    ensures
        fan_past_gates(subs, n, id, frame, boxes).0.contains(subs[i]),
    decreases n,
{
    let (kept, before) = fan_past_gates(subs, (n - 1) as nat, id, frame, boxes);
    let now = fan_past_gates(subs, n, id, frame, boxes).0;
    if i < n - 1 {
        lemma_past_gates_keep(subs, (n - 1) as nat, id, frame, boxes, i);
        let k = choose|k: int| 0 <= k < kept.len() && kept[k] == subs[i];
        assert(now[k] == subs[i]);
    } else {
        assert(now[kept.len() as int] == subs[i]);
    }
}

/// A bell reaches whoever observes the terminal, whatever its gate, and moves
/// no gate.
pub proof fn law_bells_pass_every_gate(
    session: SessionV,
    id: u32,
    boxes: Seq<MailboxV>,
    i: int,
)
    requires
        0 <= i < session.subs.len(),
        session.subs[i].terminal == id,
        forall|k: int|
            0 <= k < session.subs.len() && k != i && (#[trigger] session.subs[k]).terminal == id
                ==> session.subs[k].mailbox != session.subs[i].mailbox,
        session.subs[i].mailbox.0 < boxes.len(),
        boxes[session.subs[i].mailbox.0 as int].open,
        boxes[session.subs[i].mailbox.0 as int].queue.len()
            < boxes[session.subs[i].mailbox.0 as int].capacity,
    ensures
        ({
            let at = session.subs[i].mailbox.0 as int;
            let rung = FrameKind::Bell { terminal_id: TerminalId::Local { id } };
            let after = session.inbound(rung, boxes);
            &&& after.fault is None
            &&& after.state.subs.contains(session.subs[i])
            &&& after.state.flows == session.flows
            &&& took(
                after.boxes[at],
                boxes[at],
                Outbound::Frame(
                    FrameKind::Bell {
                        terminal_id: TerminalId::Satellite { host: session.link.host, id },
                    },
                ),
            )
        }),
{
    let said = FrameKind::Bell {
        terminal_id: TerminalId::Satellite { host: session.link.host, id },
    };
    lemma_past_gates_reach(session.subs, session.subs.len(), id, said, boxes, i);
}

} // verus!
