//! What every resource has, whatever its kind: an output sequence, event
//! subscribers, a lifecycle and supervisory control.
//!
//! What differs per kind is the facet: what only that engine serves. The facet
//! is reached through the accessors of [`ResourceHandle`] alone, which turn
//! "this resource is of another kind" into an error.

use crate::ids::{ClientId, TerminalId};
use crate::mailbox::{after_send, MailboxId, MailboxV, Mailboxes, Outbound};
use crate::wire::{
    AgentEvent, ControlAction, FrameKind, ReportedAgentState, ResourceKind, TerminalEventType,
    TerminalSignal,
};
use bytes::Bytes;
use vstd::prelude::*;

verus! {

/// Default depth of a resource's output broadcast.
pub const DEFAULT_OUTPUT_BROADCAST: usize = 256;

/// Depth of a resource's request mailboxes. A backed-up mailbox means that the
/// engine has stalled.
pub const CORE_MAILBOX: usize = 64;

/// A resource in the server's registry.
#[derive(Debug, Clone, Copy, PartialEq, Eq, Structural)]
pub struct ResourceId(pub u64);

/// Why an engine resends everything.
#[derive(Clone, Copy, Debug, PartialEq, Eq, Structural)]
pub enum ResyncReason {
    /// Authoritative geometry changed.
    Resize,
    /// A bounded output subscriber observed a sequence gap.
    OutboundGap,
}

/// What a resource broadcasts to its subscribers.
#[derive(Debug, PartialEq, Eq)]
pub enum PaneOutput {
    /// Live output.
    Live {
        /// Resource-global, strictly increasing sequence.
        seq: u64,
        /// The output.
        bytes: Bytes,
    },
    /// Everything again, at the carried size.
    Resync {
        /// Width the consumer adopts.
        cols: u16,
        /// Height the consumer adopts.
        rows: u16,
        /// Why the prior generation cannot continue.
        reason: ResyncReason,
        /// Sequence that the replacement includes.
        base_seq: u64,
        /// The replay.
        bytes: Bytes,
    },
    /// A control frame for one pump, in order with the live output.
    Control {
        /// The pump.
        owner: u64,
        /// The frame.
        frame: FrameKind,
    },
}

/// A client subscribed to one resource's events.
#[derive(Debug)]
pub struct TerminalEventSubscriber {
    /// The client's mailbox.
    pub outbound: MailboxId,
    /// The event types it wants; empty for all.
    pub event_types: Vec<TerminalEventType>,
}

/// A request to subscribe to a resource's events.
#[derive(Debug)]
pub struct SubscribeToEventsRequest {
    /// The new subscriber.
    pub subscriber: TerminalEventSubscriber,
    /// The resource's id on the wire.
    pub wire_terminal_id: u32,
}

/// A request to unsubscribe from a resource's events.
#[derive(Debug)]
pub struct UnsubscribeFromEventsRequest {
    /// Which mailbox the subscriber had.
    pub outbound_addr: usize,
}

/// Where the answer to a control request goes.
#[derive(Debug, Clone, Copy, PartialEq, Eq, Structural)]
pub struct ControlReply(pub u64);

/// A supervisory request.
#[derive(Debug)]
pub enum ControlRequest {
    /// The input lease changed hands.
    LeaseChanged {
        /// Who holds it now.
        input_holder: Option<ClientId>,
        /// What happened.
        action: ControlAction,
        /// Who did it.
        actor: ClientId,
    },
    /// Something other than the detector wrote the agent record.
    AgentRecordInvalidated,
    /// A lifecycle hook reports the agent's state.
    ReportAgentState {
        /// The state.
        state: ReportedAgentState,
        /// Where the answer goes.
        reply: ControlReply,
    },
    /// A lifecycle hook reports the state of a terminal's session.
    SynthesizeAgentStateRecord {
        /// The state.
        state: ReportedAgentState,
        /// Where the answer goes.
        reply: ControlReply,
    },
    /// Signal the process group.
    Signal {
        /// The signal.
        signal: TerminalSignal,
        /// Who holds the input lease.
        input_holder: Option<ClientId>,
        /// Who asks.
        by_client: ClientId,
        /// Where the answer goes.
        reply: ControlReply,
    },
}

/// An operation was asked of a resource of another kind.
#[derive(Debug, Clone, Copy, PartialEq, Eq, Structural)]
pub struct WrongResourceKind {
    /// The kind the operation needs.
    pub required: ResourceKind,
    /// The kind the resource is.
    pub actual: ResourceKind,
}

/// What only a terminal serves.
#[derive(Debug, Clone, Copy, PartialEq, Eq, Structural)]
pub struct TerminalHandle {
    /// Width at construction.
    pub cols: u16,
    /// Height at construction.
    pub rows: u16,
}

/// What only an agent session serves: its provenance, which never changes.
#[derive(Debug, PartialEq, Eq)]
pub struct AgentSessionHandle {
    /// The harness that produces the records.
    pub provider: String,
    /// The harness's own session id.
    pub native_id: Option<String>,
}

/// What is specific to the kind of one resource.
#[derive(Debug, PartialEq, Eq)]
pub enum ResourceFacetHandle {
    /// A terminal.
    Terminal(TerminalHandle),
    /// An agent session.
    AgentSession(AgentSessionHandle),
}

impl ResourceFacetHandle {
    /// The kind this facet belongs to.
    pub fn kind(&self) -> (kind: ResourceKind)
        ensures
            kind == (match self {
                ResourceFacetHandle::Terminal(_) => ResourceKind::Terminal,
                ResourceFacetHandle::AgentSession(_) => ResourceKind::AgentSession,
            }),
    {
        match self {
            ResourceFacetHandle::Terminal(_) => ResourceKind::Terminal,
            ResourceFacetHandle::AgentSession(_) => ResourceKind::AgentSession,
        }
    }
}

/// One resource, as the rest of the server holds it.
#[derive(Debug, PartialEq, Eq)]
pub struct ResourceHandle {
    /// Which engine is behind it.
    pub kind: ResourceKind,
    /// The resource it is bound to.
    pub parent: Option<ResourceId>,
    /// What is specific to its kind.
    pub facet: ResourceFacetHandle,
}

impl ResourceHandle {
    /// The terminal facet.
    pub fn terminal(&self) -> (facet: Result<&TerminalHandle, WrongResourceKind>)
        ensures
            match self.facet {
                ResourceFacetHandle::Terminal(handle) => facet == Ok::<
                    &TerminalHandle,
                    WrongResourceKind,
                >(&handle),
                ResourceFacetHandle::AgentSession(_) => facet == Err::<
                    &TerminalHandle,
                    WrongResourceKind,
                >(
                    WrongResourceKind {
                        required: ResourceKind::Terminal,
                        actual: ResourceKind::AgentSession,
                    },
                ),
            },
    {
        match &self.facet {
            ResourceFacetHandle::Terminal(handle) => Ok(handle),
            _ => Err(
                WrongResourceKind { required: ResourceKind::Terminal, actual: self.facet.kind() },
            ),
        }
    }

    /// The agent-session facet.
    pub fn agent_session(&self) -> (facet: Result<&AgentSessionHandle, WrongResourceKind>)
        ensures
            match self.facet {
                ResourceFacetHandle::AgentSession(handle) => facet == Ok::<
                    &AgentSessionHandle,
                    WrongResourceKind,
                >(&handle),
                ResourceFacetHandle::Terminal(_) => facet == Err::<
                    &AgentSessionHandle,
                    WrongResourceKind,
                >(
                    WrongResourceKind {
                        required: ResourceKind::AgentSession,
                        actual: ResourceKind::Terminal,
                    },
                ),
            },
    {
        match &self.facet {
            ResourceFacetHandle::AgentSession(handle) => Ok(handle),
            _ => Err(
                WrongResourceKind {
                    required: ResourceKind::AgentSession,
                    actual: self.facet.kind(),
                },
            ),
        }
    }
}

/// The half of a resource that its engine owns.
#[derive(Debug)]
pub struct ResourceCore {
    /// Which engine owns it.
    pub kind: ResourceKind,
    /// The resource it is bound to.
    pub parent: Option<ResourceId>,
    /// The resource's id on the wire; 0 until the first subscriber names it.
    pub wire_id: u32,
    /// The last output sequence issued.
    pub seq: u64,
    /// Event subscribers, in the order they came.
    pub event_subscribers: Vec<TerminalEventSubscriber>,
    /// The exit that was reported.
    pub exit_report: Option<Option<i32>>,
}

/// The event type by which subscribers filter an event.
pub open spec fn event_class(event: AgentEvent) -> Option<TerminalEventType> {
    match event {
        AgentEvent::CommandStarted => Some(TerminalEventType::CommandStarted),
        AgentEvent::CommandFinished { .. } => Some(TerminalEventType::CommandEnded),
        AgentEvent::CwdChanged { .. } => Some(TerminalEventType::CwdChanged),
        AgentEvent::Dirty => Some(TerminalEventType::GridChanged),
        AgentEvent::Idle => Some(TerminalEventType::OutputReceived),
        _ => None,
    }
}

/// Whether a subscriber gets an event: control events always, others where the
/// filter admits their type, and those without a type never.
pub open spec fn wants(subscriber: TerminalEventSubscriber, event: AgentEvent) -> bool {
    ||| event is TerminalControl
    ||| match event_class(event) {
        Some(class) => subscriber.event_types@.len() == 0 || subscriber.event_types@.contains(
            class,
        ),
        None => false,
    }
}

/// The frame that an event travels in.
pub open spec fn event_frame(wire_id: u32, event: AgentEvent) -> Outbound {
    Outbound::Frame(
        FrameKind::Event {
            terminal: if wire_id == 0 {
                None
            } else {
                Some(TerminalId::Local { id: wire_id })
            },
            event,
        },
    )
}

/// The mailboxes after an event was offered to the first `n` subscribers.
pub open spec fn fanned_out(
    boxes: Seq<MailboxV>,
    subscribers: Seq<TerminalEventSubscriber>,
    n: nat,
    wire_id: u32,
    event: AgentEvent,
) -> Seq<MailboxV>
    decreases n,
{
    if n == 0 || n > subscribers.len() {
        boxes
    } else {
        let before = fanned_out(boxes, subscribers, (n - 1) as nat, wire_id, event);
        let subscriber = subscribers[n - 1];
        if wants(subscriber, event) {
            after_send(before, subscriber.outbound, event_frame(wire_id, event))
        } else {
            before
        }
    }
}

/// The first `n` subscribers without those of one mailbox.
pub open spec fn without_mailbox(
    subscribers: Seq<TerminalEventSubscriber>,
    n: nat,
    addr: usize,
) -> Seq<TerminalEventSubscriber>
    decreases n,
{
    if n == 0 || n > subscribers.len() {
        Seq::empty()
    } else {
        let before = without_mailbox(subscribers, (n - 1) as nat, addr);
        if subscribers[n - 1].outbound.0 == addr {
            before
        } else {
            before.push(subscribers[n - 1])
        }
    }
}

fn class_of(event: &AgentEvent) -> (class: Option<TerminalEventType>)
    ensures
        class == event_class(*event),
{
    match event {
        AgentEvent::CommandStarted => Some(TerminalEventType::CommandStarted),
        AgentEvent::CommandFinished { .. } => Some(TerminalEventType::CommandEnded),
        AgentEvent::CwdChanged { .. } => Some(TerminalEventType::CwdChanged),
        AgentEvent::Dirty => Some(TerminalEventType::GridChanged),
        AgentEvent::Idle => Some(TerminalEventType::OutputReceived),
        _ => None,
    }
}

impl TerminalEventSubscriber {
    /// Whether this subscriber gets `event`.
    fn is_interested(&self, event: &AgentEvent) -> (interested: bool)
        ensures
            interested == wants(*self, *event),
    {
        match event {
            AgentEvent::TerminalControl { .. } => {
                return true;
            },
            _ => {},
        }
        let class = match class_of(event) {
            Some(class) => class,
            None => {
                return false;
            },
        };
        if self.event_types.len() == 0 {
            return true;
        }
        let mut i: usize = 0;
        while i < self.event_types.len()
            invariant
                i <= self.event_types@.len(),
                event_class(*event) == Some(class),
                forall|j: int| 0 <= j < i ==> self.event_types@[j] != class,
            decreases self.event_types@.len() - i,
        {
            if self.event_types[i] == class {
                assert(self.event_types@[i as int] == class);
                return true;
            }
            i += 1;
        }
        false
    }
}

impl ResourceCore {
    /// The core of a resource of `kind` bound to `parent`.
    pub fn new(kind: ResourceKind, parent: Option<ResourceId>) -> (core: Self)
        ensures
            core.kind == kind,
            core.parent == parent,
            core.wire_id == 0,
            core.seq == 0,
            core.event_subscribers@.len() == 0,
            core.exit_report is None,
    {
        ResourceCore {
            kind,
            parent,
            wire_id: 0,
            seq: 0,
            event_subscribers: Vec::new(),
            exit_report: None,
        }
    }

    /// Which engine owns this core.
    pub fn kind(&self) -> (kind: ResourceKind)
        ensures
            kind == self.kind,
    {
        self.kind
    }

    /// The resource this one is bound to.
    pub fn parent(&self) -> (parent: Option<ResourceId>)
        ensures
            parent == self.parent,
    {
        self.parent
    }

    /// The last output sequence issued; 0 before the first.
    pub fn seq(&self) -> (seq: u64)
        ensures
            seq == self.seq,
    {
        self.seq
    }

    /// Advance to the next output sequence. An exhausted sequence never wraps:
    /// the engine must then stop.
    pub fn next_seq(&mut self) -> (seq: Option<u64>)
        ensures
            if old(self).seq < u64::MAX {
                &&& seq == Some((old(self).seq + 1) as u64)
                &&& *final(self) == (ResourceCore { seq: (old(self).seq + 1) as u64, ..*old(self) })
            } else {
                &&& seq is None
                &&& *final(self) == *old(self)
            },
    {
        match self.seq.checked_add(1) {
            Some(seq) => {
                self.seq = seq;
                Some(seq)
            },
            None => None,
        }
    }

    /// Register an event subscriber, and adopt the wire id it was registered
    /// under.
    pub fn subscribe_events(&mut self, request: SubscribeToEventsRequest)
        ensures
            final(self).wire_id == request.wire_terminal_id,
            final(self).event_subscribers@ == old(self).event_subscribers@.push(
                request.subscriber,
            ),
            final(self).kind == old(self).kind,
            final(self).parent == old(self).parent,
            final(self).seq == old(self).seq,
            final(self).exit_report == old(self).exit_report,
    {
        self.wire_id = request.wire_terminal_id;
        self.event_subscribers.push(request.subscriber);
    }

    /// Remove the subscribers of one mailbox; the others keep their order.
    pub fn unsubscribe_events(&mut self, request: &UnsubscribeFromEventsRequest)
        ensures
            final(self).event_subscribers@ == without_mailbox(
                old(self).event_subscribers@,
                old(self).event_subscribers@.len(),
                request.outbound_addr,
            ),
            final(self).wire_id == old(self).wire_id,
            final(self).kind == old(self).kind,
            final(self).parent == old(self).parent,
            final(self).seq == old(self).seq,
            final(self).exit_report == old(self).exit_report,
    {
        let ghost all = self.event_subscribers@;
        let ghost mut n: nat = 0;
        let mut i: usize = 0;
        assert(self.event_subscribers@.take(0) =~= without_mailbox(all, 0, request.outbound_addr));
        assert(all.skip(0) =~= all);
        assert(self.event_subscribers@.skip(0) =~= all);
        while i < self.event_subscribers.len()
            invariant
                all == old(self).event_subscribers@,
                n <= all.len(),
                i <= self.event_subscribers@.len(),
                self.event_subscribers@.take(i as int) == without_mailbox(
                    all,
                    n,
                    request.outbound_addr,
                ),
                self.event_subscribers@.skip(i as int) == all.skip(n as int),
                self.wire_id == old(self).wire_id,
                self.kind == old(self).kind,
                self.parent == old(self).parent,
                self.seq == old(self).seq,
                self.exit_report == old(self).exit_report,
            decreases all.len() - n,
        {
            let ghost before = self.event_subscribers@;
            assert(before.skip(i as int).len() == all.skip(n as int).len());
            assert(before[i as int] == before.skip(i as int)[0]);
            assert(before[i as int] == all[n as int]);
            if self.event_subscribers[i].outbound.0 == request.outbound_addr {
                self.event_subscribers.remove(i);
                assert(self.event_subscribers@.take(i as int) =~= before.take(i as int));
                assert(self.event_subscribers@.skip(i as int) =~= before.skip(i as int).skip(1));
            } else {
                i += 1;
                assert(self.event_subscribers@.take(i as int) =~= before.take(i - 1).push(
                    before[i - 1],
                ));
                assert(self.event_subscribers@.skip(i as int) =~= before.skip(i - 1).skip(1));
            }
            proof {
                n = n + 1;
                assert(all.skip(n as int) =~= all.skip(n - 1).skip(1));
            }
        }
        proof {
            assert(self.event_subscribers@.skip(i as int).len() == 0);
            assert(all.skip(n as int).len() == 0);
            assert(self.event_subscribers@.take(i as int) =~= self.event_subscribers@);
        }
    }

    /// Whether nobody is subscribed to events.
    pub fn has_no_event_subscribers(&self) -> (none: bool)
        ensures
            none == (self.event_subscribers@.len() == 0),
    {
        self.event_subscribers.len() == 0
    }

    /// Offer `event` to every subscriber whose filter admits it. A full mailbox
    /// drops the event: the event stream accelerates, it guarantees nothing.
    pub fn fan_out_event(&self, event: &AgentEvent, mailboxes: &mut Mailboxes)
        ensures
            final(mailboxes)@ == fanned_out(
                old(mailboxes)@,
                self.event_subscribers@,
                self.event_subscribers@.len(),
                self.wire_id,
                *event,
            ),
    {
        let mut i: usize = 0;
        while i < self.event_subscribers.len()
            invariant
                i <= self.event_subscribers@.len(),
                mailboxes@ == fanned_out(
                    old(mailboxes)@,
                    self.event_subscribers@,
                    i as nat,
                    self.wire_id,
                    *event,
                ),
            decreases self.event_subscribers@.len() - i,
        {
            if self.event_subscribers[i].is_interested(event) {
                let terminal = if self.wire_id == 0 {
                    None
                } else {
                    Some(TerminalId::Local { id: self.wire_id })
                };
                let frame = FrameKind::Event { terminal, event: event.clone() };
                let _ = mailboxes.try_send(
                    self.event_subscribers[i].outbound,
                    Outbound::Frame(frame),
                );
            }
            i += 1;
        }
    }

    /// Report the exit of what backs the resource. The first report stands.
    pub fn notify_exit(&mut self, status: Option<i32>)
        ensures
            *final(self) == (ResourceCore {
                exit_report: match old(self).exit_report {
                    Some(reported) => Some(reported),
                    None => Some(status),
                },
                ..*old(self)
            }),
    {
        if self.exit_report.is_none() {
            self.exit_report = Some(status);
        }
    }
}

/// Who holds the input and whether the group runs concerns every subscriber,
/// whatever its filter.
pub proof fn law_control_events_bypass_filters(
    subscriber: TerminalEventSubscriber,
    event: AgentEvent,
)
    requires
        event is TerminalControl,
    ensures
        wants(subscriber, event),
{
}

/// A subscriber that was removed is gone, however often it had subscribed, and
/// every other one stays.
pub proof fn law_unsubscribing_removes_one_mailbox(
    subscribers: Seq<TerminalEventSubscriber>,
    n: nat,
    addr: usize,
    subscriber: TerminalEventSubscriber,
)
    requires
        n <= subscribers.len(),
    ensures
        without_mailbox(subscribers, n, addr).contains(subscriber) <==> subscribers.take(
            n as int,
        ).contains(subscriber) && subscriber.outbound.0 != addr,
    decreases n,
{
    let after = without_mailbox(subscribers, n, addr);
    let taken = subscribers.take(n as int);
    if n > 0 {
        law_unsubscribing_removes_one_mailbox(subscribers, (n - 1) as nat, addr, subscriber);
        let before = without_mailbox(subscribers, (n - 1) as nat, addr);
        let earlier = subscribers.take(n - 1);
        assert(taken =~= earlier.push(subscribers[n - 1]));
        assert(taken.contains(subscriber) <==> earlier.contains(subscriber) || subscribers[n - 1]
            == subscriber) by {
            if earlier.contains(subscriber) {
                let i = choose|i: int| 0 <= i < earlier.len() && earlier[i] == subscriber;
                assert(taken[i] == subscriber);
            }
            assert(taken[n - 1] == subscribers[n - 1]);
        }
        if subscribers[n - 1].outbound.0 != addr {
            assert(after.contains(subscriber) <==> before.contains(subscriber) || subscribers[n
                - 1] == subscriber) by {
                if before.contains(subscriber) {
                    let i = choose|i: int| 0 <= i < before.len() && before[i] == subscriber;
                    assert(after[i] == subscriber);
                }
                assert(after.last() == subscribers[n - 1]);
            }
        }
    }
}

/// An event that nobody's filter admits changes no mailbox.
pub proof fn law_unwanted_events_reach_nobody(
    boxes: Seq<MailboxV>,
    subscribers: Seq<TerminalEventSubscriber>,
    n: nat,
    wire_id: u32,
    event: AgentEvent,
)
    requires
        forall|i: int| 0 <= i < subscribers.len() ==> !wants(#[trigger] subscribers[i], event),
    ensures
        fanned_out(boxes, subscribers, n, wire_id, event) == boxes,
    decreases n,
{
    if 0 < n <= subscribers.len() {
        law_unwanted_events_reach_nobody(boxes, subscribers, (n - 1) as nat, wire_id, event);
    }
}

} // verus!
