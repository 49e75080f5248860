//! The sink through which an engine emits semantic events, and the count of
//! what it had to drop.
//!
//! An engine must never stall on its events, so the sink is bounded and never
//! waited on. A full sink is the one place where an event can be lost before
//! the journal, so every such drop is counted: the drain reads the count and
//! reports the gap.

use crate::wire::AgentEvent;
use std::collections::VecDeque;
use vstd::prelude::*;

verus! {

broadcast use vstd::std_specs::vecdeque::group_vec_dequeue_axioms;

/// A bounded queue of events, from an engine to its drain.
#[derive(Debug)]
pub struct EventSink {
    /// The most events that wait.
    pub capacity: usize,
    /// The events that wait, oldest first.
    pub queue: VecDeque<AgentEvent>,
    /// Whether anybody drains it.
    pub open: bool,
    /// How many events were dropped since the count was read.
    pub dropped: u64,
}

/// A sink as contracts speak of it.
#[verifier::ext_equal]
pub struct SinkV {
    /// The most events that wait.
    pub capacity: usize,
    /// The events that wait, oldest first.
    pub queue: Seq<AgentEvent>,
    /// Whether anybody drains it.
    pub open: bool,
    /// How many events were dropped since the count was read.
    pub dropped: u64,
}

impl View for EventSink {
    type V = SinkV;

    open spec fn view(&self) -> SinkV {
        SinkV {
            capacity: self.capacity,
            queue: self.queue@,
            open: self.open,
            dropped: self.dropped,
        }
    }
}

impl SinkV {
    /// The sink after `event` was emitted. A sink that nobody drains is no loss:
    /// there is nobody to report it to.
    pub open spec fn emitted(self, event: AgentEvent) -> SinkV {
        if !self.open {
            self
        } else if self.queue.len() < self.capacity {
            SinkV { queue: self.queue.push(event), ..self }
        } else {
            SinkV { dropped: self.dropped.wrapping_add(1), ..self }
        }
    }
}

/// A sink of `capacity` events.
pub fn event_sink(capacity: usize) -> (sink: EventSink)
    requires
        0 < capacity,
    ensures
        sink@ == (SinkV { capacity, queue: Seq::empty(), open: true, dropped: 0 }),
{
    EventSink { capacity, queue: VecDeque::new(), open: true, dropped: 0 }
}

impl EventSink {
    /// Queue `event`, or count it as dropped where the sink is full.
    pub fn emit(&mut self, event: AgentEvent)
        ensures
            final(self)@ == old(self)@.emitted(event),
    {
        if self.open {
            if self.queue.len() < self.capacity {
                self.queue.push_back(event);
            } else {
                self.dropped = self.dropped.wrapping_add(1);
            }
        }
    }

    /// Nobody drains the sink any more; what waits is gone.
    pub fn close(&mut self)
        ensures
            final(self)@ == (SinkV { queue: Seq::empty(), open: false, ..old(self)@ }),
    {
        self.open = false;
        self.queue.clear();
    }

    /// The next event that waits.
    pub fn try_recv(&mut self) -> (event: Option<AgentEvent>)
        ensures
            match event {
                Some(event) => {
                    &&& old(self)@.queue.len() > 0
                    &&& event == old(self)@.queue[0]
                    &&& final(self)@ == (SinkV {
                        queue: old(self)@.queue.drop_first(),
                        ..old(self)@
                    })
                },
                None => old(self)@.queue.len() == 0 && final(self)@ == old(self)@,
            },
    {
        let event = self.queue.pop_front();
        assert(event is Some ==> self@.queue =~= old(self)@.queue.drop_first());
        event
    }

    /// How many events were dropped since the last call.
    pub fn take_dropped(&mut self) -> (dropped: u64)
        ensures
            dropped == old(self)@.dropped,
            final(self)@ == (SinkV { dropped: 0, ..old(self)@ }),
    {
        let dropped: u64 = self.dropped;
        self.dropped = 0;
        dropped
    }
}

/// No event is lost in silence: one that a drained sink does not queue is
/// counted, and one that it queues is not.
pub proof fn law_losses_are_counted(sink: SinkV, event: AgentEvent)
    requires
        sink.open,
        sink.dropped < u64::MAX,
    ensures
        ({
            let after = sink.emitted(event);
            after.queue.len() + after.dropped == sink.queue.len() + sink.dropped + 1
        }),
{
}

/// What waits keeps its order, and the sink keeps its bound.
pub proof fn law_sinks_stay_bounded(sink: SinkV, event: AgentEvent)
    requires
        sink.queue.len() <= sink.capacity,
    ensures
        sink.emitted(event).queue.len() <= sink.capacity,
        sink.queue.is_prefix_of(sink.emitted(event).queue),
{
}

} // verus!
