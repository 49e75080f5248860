//! The return leg: in what order a satellite terminal's frames reach the
//! consumers that observe it.
//!
//! A consumer that attaches to a terminal must see a complete bootstrap before
//! any later output of that terminal. Each subscriber therefore carries a
//! gate. Output is held back until its gate opens; bootstrap frames that a full
//! mailbox refuses are kept, in order and within bounds, and delivered before
//! anything else; a subscriber that cannot be served within the bounds is
//! dropped. No consumer ever makes the link or its other consumers wait.

use crate::ids::ClientId;
use crate::mailbox::{
    after_send, queued, send_outcome, MailboxId, MailboxV, Mailboxes, Outbound, SendOutcome,
};
use crate::payload::contents;
use crate::wire::FrameKind;
use std::collections::VecDeque;
use vstd::prelude::*;

verus! {

/// Most bytes kept for one subscriber.
pub const MAX_RELAY_SUBSCRIBER_RETAINED_BYTES: usize = 2_097_152;

/// Most frames kept for one subscriber.
pub const MAX_RELAY_SUBSCRIBER_RETAINED_FRAMES: usize = 16;

/// Most bytes kept for all subscribers of a connection together.
pub const MAX_RELAY_CONNECTION_RETAINED_BYTES: usize = 8_388_608;

/// Most frames kept for all subscribers of a connection together.
pub const MAX_RELAY_CONNECTION_RETAINED_FRAMES: usize = 64;

/// Bytes charged for a kept frame besides its payload.
pub const RETAINED_FRAME_OVERHEAD: usize = 256;

/// Whether a subscriber may receive output yet.
pub enum SnapshotGate {
    /// Its own bootstrap has not been delivered.
    AwaitingFirst,
    /// Output flows.
    Open,
    /// Bootstrap frames wait for room in its mailbox.
    Retained {
        /// The frames, oldest first.
        frames: VecDeque<FrameKind>,
        /// Bytes charged for them.
        retained_bytes: usize,
        /// Whether output may flow once they are delivered.
        open_after: bool,
    },
}

/// A gate as contracts speak of it.
#[verifier::ext_equal]
pub enum GateV {
    /// Its own bootstrap has not been delivered.
    AwaitingFirst,
    /// Output flows.
    Open,
    /// Bootstrap frames wait for room in its mailbox.
    Retained {
        /// The frames, oldest first.
        frames: Seq<FrameKind>,
        /// Whether output may flow once they are delivered.
        open_after: bool,
    },
}

impl View for SnapshotGate {
    type V = GateV;

    open spec fn view(&self) -> GateV {
        match *self {
            SnapshotGate::AwaitingFirst => GateV::AwaitingFirst,
            SnapshotGate::Open => GateV::Open,
            SnapshotGate::Retained { frames, open_after, .. } => GateV::Retained {
                frames: frames@,
                open_after,
            },
        }
    }
}

/// Payload length of a frame that may be kept.
pub open spec fn retained_payload(frame: FrameKind) -> nat {
    match frame {
        FrameKind::BootstrapChunk { payload, .. } => contents(payload).len(),
        FrameKind::BootstrapReady { history_cursor: Some(cursor), .. } => contents(cursor).len(),
        _ => 0,
    }
}

/// Bytes charged for keeping `frame`.
pub open spec fn frame_cost(frame: FrameKind) -> nat {
    if retained_payload(frame) + RETAINED_FRAME_OVERHEAD <= usize::MAX {
        retained_payload(frame) + RETAINED_FRAME_OVERHEAD as nat
    } else {
        usize::MAX as nat
    }
}

/// Bytes charged for keeping `frames`.
pub open spec fn frames_cost(frames: Seq<FrameKind>) -> nat
    decreases frames.len(),
{
    if frames.len() == 0 {
        0
    } else {
        frame_cost(frames[0]) + frames_cost(frames.drop_first())
    }
}

pub proof fn lemma_cost_push(frames: Seq<FrameKind>, frame: FrameKind)
    ensures
        frames_cost(frames.push(frame)) == frames_cost(frames) + frame_cost(frame),
    decreases frames.len(),
{
    if frames.len() == 0 {
        assert(frames.push(frame).drop_first() =~= frames);
        assert(frames.push(frame)[0] == frame);
    } else {
        lemma_cost_push(frames.drop_first(), frame);
        assert(frames.push(frame).drop_first() =~= frames.drop_first().push(frame));
        assert(frames.push(frame)[0] == frames[0]);
    }
}

impl GateV {
    /// Bytes that this gate keeps.
    pub open spec fn bytes(self) -> nat {
        match self {
            GateV::Retained { frames, .. } => frames_cost(frames),
            _ => 0,
        }
    }

    /// Frames that this gate keeps.
    pub open spec fn count(self) -> nat {
        match self {
            GateV::Retained { frames, .. } => frames.len(),
            _ => 0,
        }
    }

    /// A gate keeps at least one frame or none at all, within the bounds of a
    /// subscriber.
    pub open spec fn within_bounds(self) -> bool {
        match self {
            GateV::Retained { frames, .. } => {
                &&& 1 <= frames.len() <= MAX_RELAY_SUBSCRIBER_RETAINED_FRAMES
                &&& frames_cost(frames) <= MAX_RELAY_SUBSCRIBER_RETAINED_BYTES
                &&& forall|i: int|
                    0 <= i < frames.len() ==> (#[trigger] frames[i]).copies_exactly()
            },
            _ => true,
        }
    }
}

impl SnapshotGate {
    /// It keeps frames within the bounds and charges exactly for them.
    pub open spec fn wf(&self) -> bool {
        &&& self@.within_bounds()
        &&& match *self {
            SnapshotGate::Retained { frames, retained_bytes, .. } => retained_bytes == frames_cost(
                frames@,
            ),
            _ => true,
        }
    }
}

/// One consumer's observation of one satellite terminal.
pub struct ProxySubscriber {
    /// The satellite's number for the terminal.
    pub terminal: u32,
    /// The consumer.
    pub client: ClientId,
    /// Where the consumer's frames are queued.
    pub mailbox: MailboxId,
    /// Issue order of the registration.
    pub seq: u64,
    /// Whether output may flow.
    pub gate: SnapshotGate,
}

/// A subscriber as contracts speak of it.
#[verifier::ext_equal]
pub struct SubV {
    /// The satellite's number for the terminal.
    pub terminal: u32,
    /// The consumer.
    pub client: ClientId,
    /// Where the consumer's frames are queued.
    pub mailbox: MailboxId,
    /// Issue order of the registration.
    pub seq: u64,
    /// Whether output may flow.
    pub gate: GateV,
}

impl View for ProxySubscriber {
    type V = SubV;

    open spec fn view(&self) -> SubV {
        SubV {
            terminal: self.terminal,
            client: self.client,
            mailbox: self.mailbox,
            seq: self.seq,
            gate: self.gate@,
        }
    }
}

/// Bytes kept for all of `subs`.
pub open spec fn total_bytes(subs: Seq<SubV>) -> nat
    decreases subs.len(),
{
    if subs.len() == 0 {
        0
    } else {
        total_bytes(subs.drop_last()) + subs.last().gate.bytes()
    }
}

/// Frames kept for all of `subs`.
pub open spec fn total_frames(subs: Seq<SubV>) -> nat
    decreases subs.len(),
{
    if subs.len() == 0 {
        0
    } else {
        total_frames(subs.drop_last()) + subs.last().gate.count()
    }
}

// ---- delivering one frame to one subscriber ---------------------------------

/// Where one delivery leaves a subscriber's gate, the mailboxes and what is
/// kept for the connection. `gate` is `None` when the subscriber is dropped.
#[verifier::ext_equal]
pub struct Delivery {
    /// The subscriber's gate.
    pub gate: Option<GateV>,
    /// The mailboxes.
    pub boxes: Seq<MailboxV>,
    /// Bytes kept for the connection.
    pub bytes: nat,
    /// Frames kept for the connection.
    pub frames: nat,
}

/// The part of `a` above `b`.
pub open spec fn above(a: nat, b: nat) -> nat {
    if a >= b {
        (a - b) as nat
    } else {
        0
    }
}

/// Delivering a bootstrap frame. `opens` says whether output may flow after it.
pub open spec fn push_bootstrap(
    gate: GateV,
    to: MailboxId,
    frame: FrameKind,
    opens: bool,
    boxes: Seq<MailboxV>,
    bytes: nat,
    frames: nat,
) -> Delivery {
    let cost = frame_cost(frame);
    let connection_full = bytes + cost > MAX_RELAY_CONNECTION_RETAINED_BYTES || frames + 1
        > MAX_RELAY_CONNECTION_RETAINED_FRAMES;
    match gate {
        GateV::Retained { frames: kept, open_after } => if frames_cost(kept) + cost
            > MAX_RELAY_SUBSCRIBER_RETAINED_BYTES || kept.len() + 1
            > MAX_RELAY_SUBSCRIBER_RETAINED_FRAMES || connection_full {
            Delivery {
                gate: None,
                boxes,
                bytes: above(bytes, frames_cost(kept)),
                frames: above(frames, kept.len()),
            }
        } else {
            Delivery {
                gate: Some(
                    GateV::Retained { frames: kept.push(frame), open_after: open_after || opens },
                ),
                boxes,
                bytes: bytes + cost,
                frames: frames + 1,
            }
        },
        _ => match send_outcome(boxes, to) {
            SendOutcome::Accepted => Delivery {
                gate: Some(
                    if opens {
                        GateV::Open
                    } else {
                        GateV::AwaitingFirst
                    },
                ),
                boxes: queued(boxes, to, Outbound::Frame(frame)),
                bytes,
                frames,
            },
            SendOutcome::Full => if cost > MAX_RELAY_SUBSCRIBER_RETAINED_BYTES || connection_full {
                Delivery { gate: None, boxes, bytes, frames }
            } else {
                Delivery {
                    gate: Some(GateV::Retained { frames: seq![frame], open_after: opens }),
                    boxes,
                    bytes: bytes + cost,
                    frames: frames + 1,
                }
            },
            SendOutcome::Closed => Delivery { gate: None, boxes, bytes, frames },
        },
    }
}

/// Delivering what a gate keeps, oldest first, as far as the mailbox takes it.
pub open spec fn flush(
    kept: Seq<FrameKind>,
    open_after: bool,
    to: MailboxId,
    boxes: Seq<MailboxV>,
) -> (Option<GateV>, Seq<MailboxV>)
    decreases kept.len(),
{
    if kept.len() == 0 {
        (
            Some(
                if open_after {
                    GateV::Open
                } else {
                    GateV::AwaitingFirst
                },
            ),
            boxes,
        )
    } else {
        match send_outcome(boxes, to) {
            SendOutcome::Accepted => flush(
                kept.drop_first(),
                open_after,
                to,
                queued(boxes, to, Outbound::Frame(kept[0])),
            ),
            SendOutcome::Full => (Some(GateV::Retained { frames: kept, open_after }), boxes),
            SendOutcome::Closed => (None, boxes),
        }
    }
}

/// Flushing any gate; only one that keeps frames changes.
pub open spec fn flush_gate(gate: GateV, to: MailboxId, boxes: Seq<MailboxV>) -> (
    Option<GateV>,
    Seq<MailboxV>,
) {
    match gate {
        GateV::Retained { frames, open_after } => flush(frames, open_after, to, boxes),
        _ => (Some(gate), boxes),
    }
}

/// Delivering a frame that must follow the bootstrap: what is kept goes first,
/// a gate that stays closed swallows the frame, and a refusal drops the
/// subscriber.
pub open spec fn push_following(
    gate: GateV,
    to: MailboxId,
    frame: FrameKind,
    boxes: Seq<MailboxV>,
    bytes: nat,
    frames: nat,
) -> Delivery {
    let (flushed, after) = flush_gate(gate, to, boxes);
    match flushed {
        Some(GateV::Open) => Delivery {
            gate: if send_outcome(after, to) == SendOutcome::Accepted {
                Some(GateV::Open)
            } else {
                None
            },
            boxes: after_send(after, to, Outbound::Frame(frame)),
            bytes,
            frames,
        },
        _ => Delivery { gate: flushed, boxes: after, bytes, frames },
    }
}

/// Whether a frame is part of a bootstrap.
pub open spec fn is_bootstrap(frame: FrameKind) -> bool {
    frame is BootstrapBegin || frame is BootstrapChunk || frame is BootstrapReady
        || frame is BootstrapTombstone
}

/// Delivering one frame of the stream to one subscriber. On a link that does
/// not enforce generations, a BEGIN makes the subscriber start over.
pub open spec fn deliver(
    gate: GateV,
    to: MailboxId,
    frame: FrameKind,
    enforce: bool,
    boxes: Seq<MailboxV>,
    bytes: nat,
    frames: nat,
) -> Delivery {
    let gate = if frame is BootstrapBegin && !enforce {
        GateV::AwaitingFirst
    } else {
        gate
    };
    if is_bootstrap(frame) {
        push_bootstrap(gate, to, frame, frame is BootstrapReady, boxes, bytes, frames)
    } else {
        push_following(gate, to, frame, boxes, bytes, frames)
    }
}

// ---- walking the subscribers ------------------------------------------------

/// Where a walk over the subscribers stands.
#[verifier::ext_equal]
pub struct Walk {
    /// The subscribers kept so far.
    pub kept: Seq<SubV>,
    /// The mailboxes.
    pub boxes: Seq<MailboxV>,
    /// Bytes kept for the connection.
    pub bytes: nat,
    /// Frames kept for the connection.
    pub frames: nat,
}

/// `kept` with `sub` appended under its new gate, unless it was dropped.
pub open spec fn keep(kept: Seq<SubV>, sub: SubV, gate: Option<GateV>) -> Seq<SubV> {
    match gate {
        Some(gate) => kept.push(SubV { gate, ..sub }),
        None => kept,
    }
}

/// Fanning `frame` of terminal `id` out to the first `n` of `subs`.
pub open spec fn fan(
    subs: Seq<SubV>,
    n: nat,
    id: u32,
    frame: FrameKind,
    enforce: bool,
    boxes: Seq<MailboxV>,
    bytes: nat,
    frames: nat,
) -> Walk
    decreases n,
{
    if n == 0 || n > subs.len() {
        Walk { kept: Seq::empty(), boxes, bytes, frames }
    } else {
        let before = fan(subs, (n - 1) as nat, id, frame, enforce, boxes, bytes, frames);
        let sub = subs[n - 1];
        if sub.terminal != id {
            Walk { kept: before.kept.push(sub), ..before }
        } else {
            let d = deliver(
                sub.gate,
                sub.mailbox,
                frame,
                enforce,
                before.boxes,
                before.bytes,
                before.frames,
            );
            Walk {
                kept: keep(before.kept, sub, d.gate),
                boxes: d.boxes,
                bytes: d.bytes,
                frames: d.frames,
            }
        }
    }
}

/// Sending `frame` of terminal `id` past every gate to the first `n` of
/// `subs`; a refusal drops the subscriber.
pub open spec fn fan_past_gates(
    subs: Seq<SubV>,
    n: nat,
    id: u32,
    frame: FrameKind,
    boxes: Seq<MailboxV>,
) -> (Seq<SubV>, Seq<MailboxV>)
    decreases n,
{
    if n == 0 || n > subs.len() {
        (Seq::empty(), boxes)
    } else {
        let (kept, before) = fan_past_gates(subs, (n - 1) as nat, id, frame, boxes);
        let sub = subs[n - 1];
        if sub.terminal != id {
            (kept.push(sub), before)
        } else if send_outcome(before, sub.mailbox) == SendOutcome::Accepted {
            (kept.push(sub), queued(before, sub.mailbox, Outbound::Frame(frame)))
        } else {
            (kept, before)
        }
    }
}

/// Flushing what the first `n` of `subs` keep.
pub open spec fn flush_all(subs: Seq<SubV>, n: nat, boxes: Seq<MailboxV>) -> (
    Seq<SubV>,
    Seq<MailboxV>,
)
    decreases n,
{
    if n == 0 || n > subs.len() {
        (Seq::empty(), boxes)
    } else {
        let (kept, before) = flush_all(subs, (n - 1) as nat, boxes);
        let sub = subs[n - 1];
        let (gate, after) = flush_gate(sub.gate, sub.mailbox, before);
        (keep(kept, sub, gate), after)
    }
}

// ---- executable delivery ----------------------------------------------------

/// Bytes charged for keeping `frame`.
pub fn retained_frame_bytes(frame: &FrameKind) -> (bytes: usize)
    ensures
        bytes == frame_cost(*frame),
{
    let payload: usize = match frame {
        FrameKind::BootstrapChunk { payload, .. } => payload.len(),
        FrameKind::BootstrapReady { history_cursor, .. } => match history_cursor {
            Some(cursor) => cursor.len(),
            None => 0,
        },
        _ => 0,
    };
    payload.saturating_add(RETAINED_FRAME_OVERHEAD)
}

/// Deliver a bootstrap frame to `sub`; `false` when the subscriber must go. One
/// that must go keeps nothing.
pub fn push_bootstrap_frame(
    sub: &mut ProxySubscriber,
    frame: FrameKind,
    open_after: bool,
    connection_bytes: &mut usize,
    connection_frames: &mut usize,
    mailboxes: &mut Mailboxes,
) -> (alive: bool)
    requires
        old(sub).gate.wf(),
        frame.copies_exactly(),
    ensures
        ({
            let d = push_bootstrap(
                old(sub).gate@,
                old(sub).mailbox,
                frame,
                open_after,
                old(mailboxes)@,
                *old(connection_bytes) as nat,
                *old(connection_frames) as nat,
            );
            &&& alive == (d.gate is Some)
            &&& final(sub).gate@ == (match d.gate {
                Some(gate) => gate,
                None => GateV::Open,
            })
            &&& final(sub).gate.wf()
            &&& final(mailboxes)@ == d.boxes
            &&& *final(connection_bytes) == d.bytes
            &&& *final(connection_frames) == d.frames
        }),
        final(sub).terminal == old(sub).terminal,
        final(sub).client == old(sub).client,
        final(sub).mailbox == old(sub).mailbox,
        final(sub).seq == old(sub).seq,
{
    let frame_bytes = retained_frame_bytes(&frame);
    let mut gate = SnapshotGate::AwaitingFirst;
    std::mem::swap(&mut sub.gate, &mut gate);
    match gate {
        SnapshotGate::Retained { mut frames, retained_bytes, open_after: prior_open_after } => {
            let ghost kept = frames@;
            let next_bytes = retained_bytes.saturating_add(frame_bytes);
            let next_frames = frames.len() + 1;
            if next_bytes > MAX_RELAY_SUBSCRIBER_RETAINED_BYTES || next_frames
                > MAX_RELAY_SUBSCRIBER_RETAINED_FRAMES || connection_bytes.saturating_add(
                frame_bytes,
            ) > MAX_RELAY_CONNECTION_RETAINED_BYTES || connection_frames.saturating_add(1)
                > MAX_RELAY_CONNECTION_RETAINED_FRAMES {
                *connection_bytes = connection_bytes.saturating_sub(retained_bytes);
                *connection_frames = connection_frames.saturating_sub(frames.len());
                sub.gate = SnapshotGate::Open;
                return false;
            }
            frames.push_back(frame);
            *connection_bytes = *connection_bytes + frame_bytes;
            *connection_frames = *connection_frames + 1;
            proof {
                lemma_cost_push(kept, frame);
            }
            sub.gate =
            SnapshotGate::Retained {
                frames,
                retained_bytes: next_bytes,
                open_after: prior_open_after || open_after,
            };
            true
        },
        _ => {
            match mailboxes.try_send(sub.mailbox, Outbound::Frame(frame.clone())) {
                SendOutcome::Accepted => {
                    if open_after {
                        sub.gate = SnapshotGate::Open;
                    }
                    true
                },
                SendOutcome::Full => {
                    if frame_bytes > MAX_RELAY_SUBSCRIBER_RETAINED_BYTES
                        || connection_bytes.saturating_add(frame_bytes)
                        > MAX_RELAY_CONNECTION_RETAINED_BYTES || connection_frames.saturating_add(1)
                        > MAX_RELAY_CONNECTION_RETAINED_FRAMES {
                        sub.gate = SnapshotGate::Open;
                        return false;
                    }
                    *connection_bytes = *connection_bytes + frame_bytes;
                    *connection_frames = *connection_frames + 1;
                    let mut frames = VecDeque::new();
                    frames.push_back(frame);
                    proof {
                        lemma_cost_push(Seq::<FrameKind>::empty(), frame);
                        assert(Seq::<FrameKind>::empty().push(frame) =~= seq![frame]);
                    }
                    sub.gate =
                    SnapshotGate::Retained { frames, retained_bytes: frame_bytes, open_after };
                    true
                },
                SendOutcome::Closed => {
                    sub.gate = SnapshotGate::Open;
                    false
                },
            }
        },
    }
}

/// Deliver what `sub` keeps; `(may output flow, is the subscriber alive)`. A
/// subscriber that is gone keeps nothing.
pub fn flush_pending_snapshot(sub: &mut ProxySubscriber, mailboxes: &mut Mailboxes) -> (result: (
    bool,
    bool,
))
    requires
        old(sub).gate.wf(),
    ensures
        ({
            let (gate, boxes) = flush_gate(old(sub).gate@, old(sub).mailbox, old(mailboxes)@);
            &&& result.0 == (gate == Some(GateV::Open))
            &&& result.1 == (gate is Some)
            &&& final(sub).gate@ == (match gate {
                Some(gate) => gate,
                None => GateV::Open,
            })
            &&& final(sub).gate.wf()
            &&& final(mailboxes)@ == boxes
        }),
        final(sub).terminal == old(sub).terminal,
        final(sub).client == old(sub).client,
        final(sub).mailbox == old(sub).mailbox,
        final(sub).seq == old(sub).seq,
{
    let mut gate = SnapshotGate::AwaitingFirst;
    std::mem::swap(&mut sub.gate, &mut gate);
    match gate {
        SnapshotGate::AwaitingFirst => (false, true),
        SnapshotGate::Open => {
            sub.gate = SnapshotGate::Open;
            (true, true)
        },
        SnapshotGate::Retained { mut frames, mut retained_bytes, open_after } => {
            let ghost goal = flush(frames@, open_after, sub.mailbox, mailboxes@);
            while frames.len() > 0
                invariant
                    goal == flush_gate(old(sub).gate@, old(sub).mailbox, old(mailboxes)@),
                    goal == flush(frames@, open_after, sub.mailbox, mailboxes@),
                    retained_bytes == frames_cost(frames@),
                    retained_bytes <= MAX_RELAY_SUBSCRIBER_RETAINED_BYTES,
                    frames@.len() <= MAX_RELAY_SUBSCRIBER_RETAINED_FRAMES,
                    forall|i: int|
                        0 <= i < frames@.len() ==> (#[trigger] frames@[i]).copies_exactly(),
                    sub.terminal == old(sub).terminal,
                    sub.client == old(sub).client,
                    sub.mailbox == old(sub).mailbox,
                    sub.seq == old(sub).seq,
                    sub.gate == SnapshotGate::AwaitingFirst,
                decreases frames@.len(),
            {
                match mailboxes.try_send(sub.mailbox, Outbound::Frame(frames[0].clone())) {
                    SendOutcome::Accepted => {
                        retained_bytes = retained_bytes - retained_frame_bytes(&frames[0]);
                        frames.pop_front();
                    },
                    SendOutcome::Full => {
                        sub.gate = SnapshotGate::Retained { frames, retained_bytes, open_after };
                        return (false, true);
                    },
                    SendOutcome::Closed => {
                        sub.gate = SnapshotGate::Open;
                        return (false, false);
                    },
                }
            }
            if open_after {
                sub.gate = SnapshotGate::Open;
            }
            (open_after, true)
        },
    }
}

// ---- what a walk preserves --------------------------------------------------

pub proof fn lemma_flush_shrinks(
    kept: Seq<FrameKind>,
    open_after: bool,
    to: MailboxId,
    boxes: Seq<MailboxV>,
)
    requires
        kept.len() <= MAX_RELAY_SUBSCRIBER_RETAINED_FRAMES,
        frames_cost(kept) <= MAX_RELAY_SUBSCRIBER_RETAINED_BYTES,
        forall|i: int| 0 <= i < kept.len() ==> (#[trigger] kept[i]).copies_exactly(),
    ensures
        flush(kept, open_after, to, boxes).0 matches Some(gate) ==> {
            &&& gate.within_bounds()
            &&& gate.bytes() <= frames_cost(kept)
            &&& gate.count() <= kept.len()
        },
    decreases kept.len(),
{
    if kept.len() > 0 && send_outcome(boxes, to) == SendOutcome::Accepted {
        assert forall|i: int| 0 <= i < kept.drop_first().len() implies (
        #[trigger] kept.drop_first()[i]).copies_exactly() by {
            assert(kept[i + 1].copies_exactly());
        }
        lemma_flush_shrinks(
            kept.drop_first(),
            open_after,
            to,
            queued(boxes, to, Outbound::Frame(kept[0])),
        );
    }
}

pub proof fn lemma_flush_gate_shrinks(gate: GateV, to: MailboxId, boxes: Seq<MailboxV>)
    requires
        gate.within_bounds(),
    ensures
        flush_gate(gate, to, boxes).0 matches Some(after) ==> {
            &&& after.within_bounds()
            &&& after.bytes() <= gate.bytes()
            &&& after.count() <= gate.count()
        },
{
    if let GateV::Retained { frames, open_after } = gate {
        lemma_flush_shrinks(frames, open_after, to, boxes);
    }
}

pub proof fn lemma_delivery_bounds(
    gate: GateV,
    to: MailboxId,
    frame: FrameKind,
    enforce: bool,
    boxes: Seq<MailboxV>,
    bytes: nat,
    frames: nat,
)
    requires
        gate.within_bounds(),
        frame.copies_exactly(),
        bytes <= MAX_RELAY_CONNECTION_RETAINED_BYTES,
        frames <= MAX_RELAY_CONNECTION_RETAINED_FRAMES,
    ensures
        ({
            let d = deliver(gate, to, frame, enforce, boxes, bytes, frames);
            &&& d.bytes <= MAX_RELAY_CONNECTION_RETAINED_BYTES
            &&& d.frames <= MAX_RELAY_CONNECTION_RETAINED_FRAMES
            &&& match d.gate {
                Some(after) => {
                    &&& after.within_bounds()
                    &&& after.bytes() + bytes <= d.bytes + gate.bytes()
                    &&& after.count() + frames <= d.frames + gate.count()
                },
                None => {
                    &&& bytes <= d.bytes + gate.bytes()
                    &&& frames <= d.frames + gate.count()
                },
            }
        }),
{
    lemma_flush_gate_shrinks(gate, to, boxes);
    lemma_cost_push(Seq::<FrameKind>::empty(), frame);
    assert(Seq::<FrameKind>::empty().push(frame) =~= seq![frame]);
    if let GateV::Retained { frames: kept, .. } = gate {
        lemma_cost_push(kept, frame);
    }
}

pub proof fn lemma_total_push(subs: Seq<SubV>, sub: SubV)
    ensures
        total_bytes(subs.push(sub)) == total_bytes(subs) + sub.gate.bytes(),
        total_frames(subs.push(sub)) == total_frames(subs) + sub.gate.count(),
{
    assert(subs.push(sub).drop_last() =~= subs);
}

pub proof fn lemma_total_take(subs: Seq<SubV>, n: int)
    requires
        0 <= n < subs.len(),
    ensures
        total_bytes(subs.take(n + 1)) == total_bytes(subs.take(n)) + subs[n].gate.bytes(),
        total_frames(subs.take(n + 1)) == total_frames(subs.take(n)) + subs[n].gate.count(),
{
    assert(subs.take(n + 1) =~= subs.take(n).push(subs[n]));
    lemma_total_push(subs.take(n), subs[n]);
}

pub proof fn lemma_total_monotone(subs: Seq<SubV>, n: int)
    requires
        0 <= n <= subs.len(),
    ensures
        total_bytes(subs.take(n)) <= total_bytes(subs),
        total_frames(subs.take(n)) <= total_frames(subs),
    decreases subs.len() - n,
{
    if n == subs.len() {
        assert(subs.take(n) =~= subs);
    } else {
        lemma_total_take(subs, n);
        lemma_total_monotone(subs, n + 1);
    }
}

pub proof fn lemma_total_update(subs: Seq<SubV>, i: int, sub: SubV)
    requires
        0 <= i < subs.len(),
        sub.gate.bytes() == subs[i].gate.bytes(),
        sub.gate.count() == subs[i].gate.count(),
    ensures
        total_bytes(subs.update(i, sub)) == total_bytes(subs),
        total_frames(subs.update(i, sub)) == total_frames(subs),
    decreases subs.len(),
{
    let after = subs.update(i, sub);
    if i == subs.len() - 1 {
        assert(after.drop_last() =~= subs.drop_last());
    } else {
        lemma_total_update(subs.drop_last(), i, sub);
        assert(after.drop_last() =~= subs.drop_last().update(i, sub));
    }
}

pub proof fn lemma_total_remove(subs: Seq<SubV>, i: int)
    requires
        0 <= i < subs.len(),
    ensures
        total_bytes(subs.remove(i)) + subs[i].gate.bytes() == total_bytes(subs),
        total_frames(subs.remove(i)) + subs[i].gate.count() == total_frames(subs),
    decreases subs.len(),
{
    if i == subs.len() - 1 {
        assert(subs.remove(i) =~= subs.drop_last());
    } else {
        lemma_total_remove(subs.drop_last(), i);
        assert(subs.remove(i).drop_last() =~= subs.drop_last().remove(i));
        assert(subs.remove(i).last() == subs.last());
    }
}

/// No consumer observes one terminal twice.
pub open spec fn distinct_observers(subs: Seq<SubV>) -> bool {
    forall|i: int, j: int|
        0 <= i < subs.len() && 0 <= j < subs.len() && (#[trigger] subs[i]).terminal == (
        #[trigger] subs[j]).terminal && subs[i].client == subs[j].client ==> i == j
}

/// Every gate keeps frames within the bounds.
pub open spec fn gates_bounded(subs: Seq<SubV>) -> bool {
    forall|i: int| 0 <= i < subs.len() ==> (#[trigger] subs[i]).gate.within_bounds()
}

/// Every one of `kept` observes what one of the first `n` of `subs` observed.
pub open spec fn drawn_from(kept: Seq<SubV>, subs: Seq<SubV>, n: int) -> bool {
    forall|i: int|
        0 <= i < kept.len() ==> exists|j: int|
            0 <= j < n && (#[trigger] subs[j]).terminal == (#[trigger] kept[i]).terminal
                && subs[j].client == kept[i].client
}

pub proof fn lemma_keep_step(kept: Seq<SubV>, subs: Seq<SubV>, n: int, gate: Option<GateV>)
    requires
        0 <= n < subs.len(),
        distinct_observers(subs),
        distinct_observers(kept),
        drawn_from(kept, subs, n),
    ensures
        distinct_observers(keep(kept, subs[n], gate)),
        drawn_from(keep(kept, subs[n], gate), subs, n + 1),
{
    let after = keep(kept, subs[n], gate);
    assert forall|i: int| 0 <= i < after.len() implies exists|j: int|
        0 <= j < n + 1 && (#[trigger] subs[j]).terminal == (#[trigger] after[i]).terminal
            && subs[j].client == after[i].client by {
        if i < kept.len() {
            assert(after[i] == kept[i]);
            let j = choose|j: int|
                0 <= j < n && (#[trigger] subs[j]).terminal == kept[i].terminal && subs[j].client
                    == kept[i].client;
            assert(subs[j].terminal == after[i].terminal);
        } else {
            assert(subs[n].terminal == after[i].terminal);
        }
    }
    assert forall|a: int, b: int|
        0 <= a < after.len() && 0 <= b < after.len() && (#[trigger] after[a]).terminal == (
        #[trigger] after[b]).terminal && after[a].client == after[b].client implies a == b by {
        if a < kept.len() && b < kept.len() {
            assert(after[a] == kept[a] && after[b] == kept[b]);
        } else if a < kept.len() {
            assert(after[a] == kept[a]);
            let j = choose|j: int|
                0 <= j < n && (#[trigger] subs[j]).terminal == kept[a].terminal && subs[j].client
                    == kept[a].client;
            assert(subs[j].terminal == subs[n].terminal);
        } else if b < kept.len() {
            assert(after[b] == kept[b]);
            let j = choose|j: int|
                0 <= j < n && (#[trigger] subs[j]).terminal == kept[b].terminal && subs[j].client
                    == kept[b].client;
            assert(subs[j].terminal == subs[n].terminal);
        }
    }
}

pub proof fn lemma_fan_step_observers(
    subs: Seq<SubV>,
    n: nat,
    id: u32,
    frame: FrameKind,
    enforce: bool,
    boxes: Seq<MailboxV>,
    bytes: nat,
    frames: nat,
)
    requires
        n <= subs.len(),
        distinct_observers(subs),
    ensures
        distinct_observers(fan(subs, n, id, frame, enforce, boxes, bytes, frames).kept),
        drawn_from(fan(subs, n, id, frame, enforce, boxes, bytes, frames).kept, subs, n as int),
    decreases n,
{
    if n > 0 {
        let m = (n - 1) as nat;
        lemma_fan_step_observers(subs, m, id, frame, enforce, boxes, bytes, frames);
        let before = fan(subs, m, id, frame, enforce, boxes, bytes, frames);
        let sub = subs[m as int];
        if sub.terminal != id {
            lemma_keep_step(before.kept, subs, m as int, Some(sub.gate));
            assert(keep(before.kept, sub, Some(sub.gate)) =~= before.kept.push(sub));
        } else {
            let d = deliver(
                sub.gate,
                sub.mailbox,
                frame,
                enforce,
                before.boxes,
                before.bytes,
                before.frames,
            );
            lemma_keep_step(before.kept, subs, m as int, d.gate);
        }
    }
}

/// A fan-out never keeps more than the bounds allow, for one subscriber or for
/// the connection, and charges at least for what it keeps.
pub proof fn law_fan_out_stays_within_bounds(
    subs: Seq<SubV>,
    n: nat,
    id: u32,
    frame: FrameKind,
    enforce: bool,
    boxes: Seq<MailboxV>,
)
    requires
        n <= subs.len(),
        gates_bounded(subs),
        frame.copies_exactly(),
        total_bytes(subs) <= MAX_RELAY_CONNECTION_RETAINED_BYTES,
        total_frames(subs) <= MAX_RELAY_CONNECTION_RETAINED_FRAMES,
    ensures
        ({
            let walk = fan(
                subs,
                n,
                id,
                frame,
                enforce,
                boxes,
                total_bytes(subs),
                total_frames(subs),
            );
            &&& gates_bounded(walk.kept)
            &&& walk.bytes <= MAX_RELAY_CONNECTION_RETAINED_BYTES
            &&& walk.frames <= MAX_RELAY_CONNECTION_RETAINED_FRAMES
            &&& total_bytes(walk.kept) + total_bytes(subs) <= walk.bytes + total_bytes(
                subs.take(n as int),
            )
            &&& total_frames(walk.kept) + total_frames(subs) <= walk.frames + total_frames(
                subs.take(n as int),
            )
        }),
    decreases n,
{
    if n == 0 {
        assert(subs.take(0) =~= Seq::<SubV>::empty());
    } else {
        let m = (n - 1) as nat;
        law_fan_out_stays_within_bounds(subs, m, id, frame, enforce, boxes);
        let before = fan(
            subs,
            m,
            id,
            frame,
            enforce,
            boxes,
            total_bytes(subs),
            total_frames(subs),
        );
        let sub = subs[m as int];
        lemma_total_take(subs, m as int);
        if sub.terminal != id {
            lemma_total_push(before.kept, sub);
        } else {
            lemma_delivery_bounds(
                sub.gate,
                sub.mailbox,
                frame,
                enforce,
                before.boxes,
                before.bytes,
                before.frames,
            );
            let d = deliver(
                sub.gate,
                sub.mailbox,
                frame,
                enforce,
                before.boxes,
                before.bytes,
                before.frames,
            );
            if let Some(gate) = d.gate {
                lemma_total_push(before.kept, SubV { gate, ..sub });
            }
        }
    }
}

// ---- what a subscriber sees -------------------------------------------------

/// `frames` as queued messages.
pub open spec fn as_messages(frames: Seq<FrameKind>) -> Seq<Outbound> {
    frames.map_values(|frame: FrameKind| Outbound::Frame(frame))
}

impl GateV {
    /// The frames that it keeps, oldest first.
    pub open spec fn owed(self) -> Seq<FrameKind> {
        match self {
            GateV::Retained { frames, .. } => frames,
            _ => Seq::empty(),
        }
    }

    /// Output may flow, now or once what is kept was delivered.
    pub open spec fn opens(self) -> bool {
        match self {
            GateV::AwaitingFirst => false,
            GateV::Open => true,
            GateV::Retained { open_after, .. } => open_after,
        }
    }
}

/// Everything that mailbox `to` holds or is owed through `gate`, in order.
pub open spec fn in_order(boxes: Seq<MailboxV>, to: MailboxId, gate: GateV) -> Seq<Outbound> {
    boxes[to.0 as int].queue + as_messages(gate.owed())
}

pub proof fn lemma_flush_order(
    kept: Seq<FrameKind>,
    open_after: bool,
    to: MailboxId,
    boxes: Seq<MailboxV>,
)
    requires
        to.0 < boxes.len(),
    ensures
        ({
            let (gate, after) = flush(kept, open_after, to, boxes);
            &&& after.len() == boxes.len()
            &&& forall|j: int| 0 <= j < boxes.len() && j != to.0 ==> #[trigger] after[j] == boxes[j]
            &&& gate matches Some(gate) ==> {
                &&& in_order(after, to, gate) == boxes[to.0 as int].queue + as_messages(kept)
                &&& gate.opens() == open_after
                &&& gate == GateV::Open ==> open_after
            }
            &&& boxes[to.0 as int].queue.is_prefix_of(after[to.0 as int].queue)
            &&& after[to.0 as int].queue.is_prefix_of(
                boxes[to.0 as int].queue + as_messages(kept),
            )
        }),
    decreases kept.len(),
{
    let q = boxes[to.0 as int].queue;
    if kept.len() == 0 {
        assert(as_messages(kept) =~= Seq::<Outbound>::empty());
        assert(q + as_messages(kept) =~= q);
    } else {
        match send_outcome(boxes, to) {
            SendOutcome::Accepted => {
                let next = queued(boxes, to, Outbound::Frame(kept[0]));
                lemma_flush_order(kept.drop_first(), open_after, to, next);
                let (gate, after) = flush(kept.drop_first(), open_after, to, next);
                assert(next[to.0 as int].queue + as_messages(kept.drop_first()) =~= q + as_messages(
                    kept,
                ));
                assert(q.is_prefix_of(next[to.0 as int].queue));
                assert(q.is_prefix_of(after[to.0 as int].queue)) by {
                    let a = after[to.0 as int].queue;
                    assert(next[to.0 as int].queue =~= a.subrange(
                        0,
                        next[to.0 as int].queue.len() as int,
                    ));
                    assert(q =~= a.subrange(0, q.len() as int));
                }
            },
            _ => {
                assert(q =~= (q + as_messages(kept)).subrange(0, q.len() as int));
            },
        }
    }
}

/// A bootstrap reaches a subscriber complete and in order: what its mailbox
/// holds, then what is kept for it, then the new frame. Nothing is lost,
/// repeated or overtaken while the subscriber stays.
pub proof fn law_bootstrap_frames_arrive_in_order(
    gate: GateV,
    to: MailboxId,
    frame: FrameKind,
    opens: bool,
    boxes: Seq<MailboxV>,
    bytes: nat,
    frames: nat,
)
    requires
        to.0 < boxes.len(),
    ensures
        ({
            let d = push_bootstrap(gate, to, frame, opens, boxes, bytes, frames);
            d.gate matches Some(after) ==> in_order(d.boxes, to, after) == in_order(
                boxes,
                to,
                gate,
            ).push(Outbound::Frame(frame))
        }),
{
    let d = push_bootstrap(gate, to, frame, opens, boxes, bytes, frames);
    if let Some(after) = d.gate {
        assert(in_order(d.boxes, to, after) =~= in_order(boxes, to, gate).push(
            Outbound::Frame(frame),
        ));
    }
}

/// Output never overtakes a bootstrap. A delivery of any frame outside the
/// bootstrap leaves what was owed in front, in order; the frame itself follows
/// only where output may flow and everything owed was delivered, and is
/// otherwise withheld.
pub proof fn law_output_never_overtakes_the_bootstrap(
    gate: GateV,
    to: MailboxId,
    frame: FrameKind,
    boxes: Seq<MailboxV>,
    bytes: nat,
    frames: nat,
)
    requires
        to.0 < boxes.len(),
    ensures
        ({
            let d = push_following(gate, to, frame, boxes, bytes, frames);
            let before = in_order(boxes, to, gate);
            &&& d.gate matches Some(after) ==> {
                ||| in_order(d.boxes, to, after) == before
                ||| gate.opens() && after == GateV::Open && d.boxes[to.0 as int].queue
                    == before.push(Outbound::Frame(frame))
            }
            &&& !gate.opens() ==> d.boxes[to.0 as int].queue.is_prefix_of(before)
        }),
{
    let d = push_following(gate, to, frame, boxes, bytes, frames);
    let before = in_order(boxes, to, gate);
    let (flushed, after) = flush_gate(gate, to, boxes);
    match gate {
        GateV::Retained { frames: kept, open_after } => {
            lemma_flush_order(kept, open_after, to, boxes);
            if let Some(GateV::Open) = flushed {
                assert(in_order(after, to, GateV::Open) =~= after[to.0 as int].queue);
                assert(after[to.0 as int].queue == before);
            }
        },
        _ => {
            assert(before =~= boxes[to.0 as int].queue);
            assert(before.is_prefix_of(before)) by {
                assert(before =~= before.subrange(0, before.len() as int));
            }
        },
    }
    if let Some(now) = d.gate {
        if now == GateV::Open && flushed == Some(GateV::Open) {
            assert(d.boxes[to.0 as int].queue =~= before.push(Outbound::Frame(frame)));
        }
    }
}

/// Only a complete bootstrap lets output flow: a delivery opens a closed gate,
/// now or once what is kept was delivered, only if it is a READY.
pub proof fn law_only_ready_opens_a_gate(
    gate: GateV,
    to: MailboxId,
    frame: FrameKind,
    enforce: bool,
    boxes: Seq<MailboxV>,
    bytes: nat,
    frames: nat,
)
    requires
        to.0 < boxes.len(),
        !gate.opens(),
    ensures
        deliver(gate, to, frame, enforce, boxes, bytes, frames).gate matches Some(after)
            ==> after.opens() ==> frame is BootstrapReady,
{
    if let GateV::Retained { frames: kept, open_after } = gate {
        lemma_flush_order(kept, open_after, to, boxes);
    }
}

/// One consumer's delivery touches no other consumer's mailbox: a slow consumer
/// never costs another one a frame.
pub proof fn law_deliveries_touch_one_mailbox(
    gate: GateV,
    to: MailboxId,
    frame: FrameKind,
    enforce: bool,
    boxes: Seq<MailboxV>,
    bytes: nat,
    frames: nat,
    other: MailboxId,
)
    requires
        other.0 < boxes.len(),
        other != to,
    ensures
        ({
            let d = deliver(gate, to, frame, enforce, boxes, bytes, frames);
            d.boxes.len() == boxes.len() && d.boxes[other.0 as int] == boxes[other.0 as int]
        }),
{
    if let GateV::Retained { frames: kept, open_after } = gate {
        if to.0 < boxes.len() {
            lemma_flush_order(kept, open_after, to, boxes);
        } else {
            lemma_flush_nowhere(kept, open_after, to, boxes);
        }
    }
}

proof fn lemma_flush_nowhere(
    kept: Seq<FrameKind>,
    open_after: bool,
    to: MailboxId,
    boxes: Seq<MailboxV>,
)
    requires
        to.0 >= boxes.len(),
    ensures
        flush(kept, open_after, to, boxes).1 == boxes,
{
}

} // verus!
