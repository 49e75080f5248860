//! Which events reach which subscriber, and what the frame says.

use super::base::{event_class, event_frame, fanned_out, wants, TerminalEventSubscriber};
use super::event_sink::SinkV;
use crate::ids::TerminalId;
use crate::mailbox::{after_send, MailboxV, Outbound};
use crate::wire::{AgentEvent, FrameKind, TerminalEventType};
use vstd::prelude::*;

verus! {

/// The filter names one type and no other.
pub open spec fn filters_exactly(
    subscriber: TerminalEventSubscriber,
    kind: TerminalEventType,
) -> bool {
    subscriber.event_types@ == seq![kind]
}

/// A filter of one type lets that type's event through and no other: command
/// starts, command ends, directory changes, grid changes and settled output are
/// told apart. Bells and titles have no type, so no filter lets them through.
pub proof fn law_filters_select_their_event(
    subscriber: TerminalEventSubscriber,
    event: AgentEvent,
)
    ensures
        filters_exactly(subscriber, TerminalEventType::CommandStarted) ==> (wants(subscriber, event)
            <==> event is CommandStarted || event is TerminalControl),
        filters_exactly(subscriber, TerminalEventType::CommandEnded) ==> (wants(subscriber, event)
            <==> event is CommandFinished || event is TerminalControl),
        filters_exactly(subscriber, TerminalEventType::CwdChanged) ==> (wants(subscriber, event)
            <==> event is CwdChanged || event is TerminalControl),
        filters_exactly(subscriber, TerminalEventType::GridChanged) ==> (wants(subscriber, event)
            <==> event is Dirty || event is TerminalControl),
        filters_exactly(subscriber, TerminalEventType::OutputReceived) ==> (wants(subscriber, event)
            <==> event is Idle || event is TerminalControl),
{
    let types = subscriber.event_types@;
    assert(types.len() == 1 ==> types.contains(types[0]));
    assert(forall|kind: TerminalEventType| #[trigger]
        types.contains(kind) && types.len() == 1 ==> types[0] == kind);
    assert(filters_exactly(subscriber, TerminalEventType::CommandStarted) ==> types[0]
        == TerminalEventType::CommandStarted);
    assert(filters_exactly(subscriber, TerminalEventType::CommandEnded) ==> types[0]
        == TerminalEventType::CommandEnded);
    assert(filters_exactly(subscriber, TerminalEventType::CwdChanged) ==> types[0]
        == TerminalEventType::CwdChanged);
    assert(filters_exactly(subscriber, TerminalEventType::GridChanged) ==> types[0]
        == TerminalEventType::GridChanged);
    assert(filters_exactly(subscriber, TerminalEventType::OutputReceived) ==> types[0]
        == TerminalEventType::OutputReceived);
}

/// Without a filter every event that has a type is wanted; bells and titles are
/// not.
pub proof fn law_no_filter_wants_every_type(
    subscriber: TerminalEventSubscriber,
    event: AgentEvent,
)
    requires
        subscriber.event_types@.len() == 0,
    ensures
        wants(subscriber, event) <==> !(event is Bell) && !(event is TitleChanged),
{
}

/// A longer filter wants what each of its types wants, and nothing else: what is
/// added to a filter never takes an event away.
pub proof fn law_filters_add_up(
    subscriber: TerminalEventSubscriber,
    single: TerminalEventSubscriber,
    kind: TerminalEventType,
    event: AgentEvent,
)
    requires
        subscriber.event_types@.contains(kind),
        filters_exactly(single, kind),
        wants(single, event),
    ensures
        wants(subscriber, event),
{
    assert(single.event_types@[0] == kind);
    assert(forall|other: TerminalEventType| #[trigger]
        single.event_types@.contains(other) ==> other == kind);
}

/// A filter wants an event only for the sake of one of its types: a filter of
/// that type alone wants it too.
pub proof fn law_filters_want_nothing_more(
    subscriber: TerminalEventSubscriber,
    event: AgentEvent,
)
    requires
        subscriber.event_types@.len() > 0,
        wants(subscriber, event),
        !(event is TerminalControl),
    ensures
        exists|k: int|
            0 <= k < subscriber.event_types@.len() && wanted_for(
                #[trigger] subscriber.event_types@[k],
                event,
            ),
{
    let types = subscriber.event_types@;
    let class = event_class(event)->Some_0;
    let k = choose|k: int| 0 <= k < types.len() && types[k] == class;
    assert forall|single: TerminalEventSubscriber| #[trigger] filters_exactly(
        single,
        types[k],
    ) implies wants(single, event) by {
        assert(single.event_types@[0] == class);
        assert(single.event_types@.contains(class));
    }
    assert(wanted_for(types[k], event));
}

/// A filter of `kind` alone wants `event`.
pub open spec fn wanted_for(kind: TerminalEventType, event: AgentEvent) -> bool {
    forall|single: TerminalEventSubscriber| #[trigger]
        filters_exactly(single, kind) ==> wants(single, event)
}

/// An event frame names the local terminal, or nothing where the resource has no
/// id yet, and holds the event unchanged. Frames of two resources or of two
/// events differ.
pub proof fn law_event_frames_say_who_and_what(
    wire_id: u32,
    other_id: u32,
    event: AgentEvent,
    other: AgentEvent,
)
    ensures
        event_frame(wire_id, event) matches Outbound::Frame(
            FrameKind::Event { terminal, event: said },
        ) && said == event && (terminal == Some(TerminalId::Local { id: wire_id }) || (terminal
            is None && wire_id == 0)),
        event_frame(wire_id, event) == event_frame(other_id, other) ==> wire_id == other_id
            && event == other,
{
}

/// No two of the first `n` subscribers share a mailbox.
pub open spec fn own_mailboxes(subscribers: Seq<TerminalEventSubscriber>) -> bool {
    forall|i: int, j: int|
        0 <= i < j < subscribers.len() ==> (#[trigger] subscribers[i]).outbound != (
        #[trigger] subscribers[j]).outbound
}

proof fn lemma_fan_spares(
    boxes: Seq<MailboxV>,
    subscribers: Seq<TerminalEventSubscriber>,
    n: nat,
    wire_id: u32,
    event: AgentEvent,
    at: int,
)
    requires
        n <= subscribers.len(),
        0 <= at < boxes.len(),
        forall|i: int|
            0 <= i < n && wants(#[trigger] subscribers[i], event) ==> subscribers[i].outbound.0
                != at,
    ensures
        fanned_out(boxes, subscribers, n, wire_id, event).len() == boxes.len(),
        fanned_out(boxes, subscribers, n, wire_id, event)[at] == boxes[at],
    decreases n,
{
    if n > 0 {
        lemma_fan_spares(boxes, subscribers, (n - 1) as nat, wire_id, event, at);
    }
}

proof fn lemma_fan_keeps_size(
    boxes: Seq<MailboxV>,
    subscribers: Seq<TerminalEventSubscriber>,
    n: nat,
    wire_id: u32,
    event: AgentEvent,
)
    requires
        n <= subscribers.len(),
    ensures
        fanned_out(boxes, subscribers, n, wire_id, event).len() == boxes.len(),
    decreases n,
{
    if n > 0 {
        lemma_fan_keeps_size(boxes, subscribers, (n - 1) as nat, wire_id, event);
    }
}

/// Each subscriber with a mailbox of its own gets an event that it wants exactly
/// once, behind what is queued for it already, and one that it does not want not
/// at all. A mailbox that is full or closed stays as it is.
pub proof fn law_each_subscriber_gets_what_it_wants(
    boxes: Seq<MailboxV>,
    subscribers: Seq<TerminalEventSubscriber>,
    n: nat,
    wire_id: u32,
    event: AgentEvent,
    i: int,
)
    requires
        n <= subscribers.len(),
        own_mailboxes(subscribers),
        0 <= i < n,
        subscribers[i].outbound.0 < boxes.len(),
    ensures
        ({
            let at = subscribers[i].outbound.0 as int;
            let after = fanned_out(boxes, subscribers, n, wire_id, event)[at];
            let before = boxes[at];
            &&& after.open == before.open
            &&& after.capacity == before.capacity
            &&& if wants(subscribers[i], event) && before.open && before.queue.len()
                < before.capacity {
                &&& after.queue.len() == before.queue.len() + 1
                &&& before.queue.is_prefix_of(after.queue)
                &&& after.queue.last() == event_frame(wire_id, event)
            } else {
                after.queue == before.queue
            }
        }),
    decreases n,
{
    let before = fanned_out(boxes, subscribers, (n - 1) as nat, wire_id, event);
    lemma_fan_keeps_size(boxes, subscribers, (n - 1) as nat, wire_id, event);
    let at = subscribers[i].outbound.0 as int;
    if i < n - 1 {
        law_each_subscriber_gets_what_it_wants(
            boxes,
            subscribers,
            (n - 1) as nat,
            wire_id,
            event,
            i,
        );
        assert(subscribers[i].outbound != subscribers[n - 1].outbound);
        let to = subscribers[n - 1].outbound;
        assert(after_send(before, to, event_frame(wire_id, event))[at] == before[at]);
    } else {
        assert forall|k: int| 0 <= k < n - 1 && wants(
            #[trigger] subscribers[k],
            event,
        ) implies subscribers[k].outbound.0 != at by {
            assert(subscribers[k].outbound != subscribers[i].outbound);
        }
        lemma_fan_spares(boxes, subscribers, (n - 1) as nat, wire_id, event, at);
    }
}

/// An event that a sink takes is the last in its queue; one that it does not
/// take leaves the queue as it was, and is counted where the sink is open.
pub proof fn law_sinks_keep_events_in_order(sink: SinkV, event: AgentEvent)
    ensures
        ({
            let after = sink.emitted(event);
            &&& after.capacity == sink.capacity
            &&& after.open == sink.open
            &&& if sink.open && sink.queue.len() < sink.capacity {
                &&& after.queue.len() == sink.queue.len() + 1
                &&& sink.queue.is_prefix_of(after.queue)
                &&& after.queue.last() == event
                &&& after.dropped == sink.dropped
            } else {
                &&& after.queue == sink.queue
                &&& !sink.open ==> after.dropped == sink.dropped
                &&& sink.open && sink.dropped < u64::MAX ==> after.dropped == sink.dropped + 1
            }
        }),
{
}

} // verus!
