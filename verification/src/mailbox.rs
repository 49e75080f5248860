//! Outbound mailboxes: what is queued toward each consumer.
//!
//! A mailbox is bounded and never waited on. A full one refuses, a closed one
//! refuses for good, and the sender decides what a refusal means.

use crate::wire::{ErrorCode, FrameKind};
use vstd::prelude::*;

verus! {

/// Default depth of a consumer's mailbox. Outbound frames are coalesced, so a
/// few in flight are above steady state; a stuck consumer must not make the
/// server accumulate without bound.
pub const DEFAULT_CLIENT_MAILBOX: usize = 8;

/// A message queued toward a consumer.
#[derive(Debug, PartialEq, Eq)]
pub enum Outbound {
    /// A frame.
    Frame(FrameKind),
    /// A last error, after which the transport closes.
    TerminalError {
        /// The request it answers.
        request_id: Option<u32>,
        /// Category.
        code: ErrorCode,
        /// Human-readable detail.
        message: String,
    },
}

/// Names one mailbox.
#[derive(Debug, Clone, Copy, PartialEq, Eq, Structural)]
pub struct MailboxId(pub usize);

/// What became of a message.
#[derive(Debug, Clone, Copy, PartialEq, Eq, Structural)]
pub enum SendOutcome {
    /// It is queued.
    Accepted,
    /// The mailbox is full; the message is dropped.
    Full,
    /// Nobody reads the mailbox any more; the message is dropped.
    Closed,
}

/// One consumer's mailbox.
pub struct Mailbox {
    /// Most messages that may be queued.
    pub capacity: usize,
    /// Queued messages, oldest first.
    pub queue: Vec<Outbound>,
    /// Whether a consumer still reads it.
    pub open: bool,
}

/// A mailbox as contracts speak of it.
#[verifier::ext_equal]
pub struct MailboxV {
    /// Most messages that may be queued.
    pub capacity: usize,
    /// Queued messages, oldest first.
    pub queue: Seq<Outbound>,
    /// Whether a consumer still reads it.
    pub open: bool,
}

impl View for Mailbox {
    type V = MailboxV;

    open spec fn view(&self) -> MailboxV {
        MailboxV { capacity: self.capacity, queue: self.queue@, open: self.open }
    }
}

/// The mailboxes of every consumer.
pub struct Mailboxes {
    /// The mailboxes; a `MailboxId` is a position.
    pub boxes: Vec<Mailbox>,
}

impl View for Mailboxes {
    type V = Seq<MailboxV>;

    open spec fn view(&self) -> Seq<MailboxV> {
        self.boxes@.map_values(|mailbox: Mailbox| mailbox@)
    }
}

/// What a send to mailbox `to` comes to.
pub open spec fn send_outcome(boxes: Seq<MailboxV>, to: MailboxId) -> SendOutcome {
    if to.0 >= boxes.len() || !boxes[to.0 as int].open {
        SendOutcome::Closed
    } else if boxes[to.0 as int].queue.len() >= boxes[to.0 as int].capacity {
        SendOutcome::Full
    } else {
        SendOutcome::Accepted
    }
}

/// The mailboxes after `message` was queued in mailbox `to`.
pub open spec fn queued(boxes: Seq<MailboxV>, to: MailboxId, message: Outbound) -> Seq<MailboxV> {
    boxes.update(
        to.0 as int,
        (MailboxV { queue: boxes[to.0 as int].queue.push(message), ..boxes[to.0 as int] }),
    )
}

/// The mailboxes after a send to mailbox `to` was tried.
pub open spec fn after_send(boxes: Seq<MailboxV>, to: MailboxId, message: Outbound) -> Seq<
    MailboxV,
> {
    if send_outcome(boxes, to) == SendOutcome::Accepted {
        queued(boxes, to, message)
    } else {
        boxes
    }
}

impl Mailboxes {
    /// No mailbox yet.
    pub fn new() -> (mailboxes: Self)
        ensures
            mailboxes@ == Seq::<MailboxV>::empty(),
    {
        let mailboxes = Mailboxes { boxes: Vec::new() };
        assert(mailboxes@ =~= Seq::<MailboxV>::empty());
        mailboxes
    }

    /// Open a mailbox that holds up to `capacity` messages.
    pub fn open(&mut self, capacity: usize) -> (id: MailboxId)
        ensures
            id.0 == old(self)@.len(),
            final(self)@ == old(self)@.push(
                (MailboxV { capacity, queue: Seq::empty(), open: true }),
            ),
    {
        let id = MailboxId(self.boxes.len());
        self.boxes.push(Mailbox { capacity, queue: Vec::new(), open: true });
        assert(self@ =~= old(self)@.push((MailboxV { capacity, queue: Seq::empty(), open: true })));
        id
    }

    /// Nobody reads mailbox `id` any more.
    pub fn close(&mut self, id: MailboxId)
        ensures
            final(self)@ == (if id.0 < old(self)@.len() {
                old(self)@.update(
                    id.0 as int,
                    (MailboxV { open: false, ..old(self)@[id.0 as int] }),
                )
            } else {
                old(self)@
            }),
    {
        if id.0 < self.boxes.len() {
            self.boxes[id.0].open = false;
            assert(self@ =~= old(self)@.update(
                id.0 as int,
                (MailboxV { open: false, ..old(self)@[id.0 as int] }),
            ));
        }
    }

    /// Queue `message` in mailbox `to` unless it refuses.
    pub fn try_send(&mut self, to: MailboxId, message: Outbound) -> (outcome: SendOutcome)
        ensures
            outcome == send_outcome(old(self)@, to),
            final(self)@ == after_send(old(self)@, to, message),
    {
        if to.0 >= self.boxes.len() || !self.boxes[to.0].open {
            return SendOutcome::Closed;
        }
        if self.boxes[to.0].queue.len() >= self.boxes[to.0].capacity {
            return SendOutcome::Full;
        }
        self.boxes[to.0].queue.push(message);
        assert(self@ =~= queued(old(self)@, to, message));
        SendOutcome::Accepted
    }

    /// Take the oldest message out of mailbox `id`.
    pub fn try_recv(&mut self, id: MailboxId) -> (message: Option<Outbound>)
        ensures
            if id.0 < old(self)@.len() && old(self)@[id.0 as int].queue.len() > 0 {
                message == Some(old(self)@[id.0 as int].queue[0]) && final(self)@ == old(
                    self,
                )@.update(
                    id.0 as int,
                    (MailboxV {
                        queue: old(self)@[id.0 as int].queue.drop_first(),
                        ..old(self)@[id.0 as int]
                    }),
                )
            } else {
                message is None && final(self)@ == old(self)@
            },
    {
        if id.0 >= self.boxes.len() || self.boxes[id.0].queue.len() == 0 {
            return None;
        }
        let message = self.boxes[id.0].queue.remove(0);
        proof {
            let q = old(self)@[id.0 as int].queue;
            assert(q.remove(0) =~= q.drop_first());
            assert(self@ =~= old(self)@.update(
                id.0 as int,
                (MailboxV { queue: q.drop_first(), ..old(self)@[id.0 as int] }),
            ));
        }
        Some(message)
    }
}

/// A send leaves every other mailbox as it was.
pub proof fn law_sends_touch_one_mailbox(
    boxes: Seq<MailboxV>,
    to: MailboxId,
    message: Outbound,
    other: MailboxId,
)
    requires
        other != to,
        other.0 < boxes.len(),
    ensures
        after_send(boxes, to, message).len() == boxes.len(),
        after_send(boxes, to, message)[other.0 as int] == boxes[other.0 as int],
{
}

/// What was queued stays queued, in order: a send only ever appends.
pub proof fn law_sends_append(boxes: Seq<MailboxV>, to: MailboxId, message: Outbound, at: MailboxId)
    requires
        at.0 < boxes.len(),
    ensures
        boxes[at.0 as int].queue.is_prefix_of(
            after_send(boxes, to, message)[at.0 as int].queue,
        ),
{
}

} // verus!
