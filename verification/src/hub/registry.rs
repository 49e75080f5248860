//! Which consumers observe which satellite terminals.

use crate::hub::gate::{
    distinct_observers, drawn_from, fan, fan_past_gates, flush_all, flush_gate,
    flush_pending_snapshot, gates_bounded, keep, law_fan_out_stays_within_bounds,
    lemma_fan_step_observers, lemma_flush_gate_shrinks, lemma_keep_step, lemma_total_monotone,
    lemma_total_push, lemma_total_remove, lemma_total_take, lemma_total_update,
    push_bootstrap_frame, total_bytes, total_frames, GateV, ProxySubscriber, SnapshotGate, SubV,
    MAX_RELAY_CONNECTION_RETAINED_BYTES, MAX_RELAY_CONNECTION_RETAINED_FRAMES,
};
use crate::ids::ClientId;
use crate::mailbox::{MailboxId, MailboxV, Mailboxes, Outbound, SendOutcome};
use crate::wire::{BootstrapLimits, BootstrapProfile, FrameKind};
use vstd::prelude::*;

verus! {

/// A consumer's request to observe one satellite terminal.
#[derive(Debug, Clone, Copy)]
pub struct ProxySubscription {
    /// The satellite's number for the terminal.
    pub terminal: u32,
    /// The consumer.
    pub client: ClientId,
    /// Where the consumer's frames are queued.
    pub mailbox: MailboxId,
    /// Issue order. A registration and a later withdrawal travel on different
    /// channels; the order tells a stale withdrawal from a current one.
    pub seq: u64,
    /// Whether the observation starts with a bootstrap, which must arrive
    /// before any output.
    pub awaits_snapshot: bool,
    /// The consumer connection's profile, for observations with content.
    pub bootstrap_profile: Option<BootstrapProfile>,
    /// The consumer connection's bounds, for observations with content.
    pub bootstrap_limits: Option<BootstrapLimits>,
}

/// What a registration did, so that a refusal can undo exactly that.
#[derive(Debug, Clone, Copy, PartialEq, Eq, Structural)]
pub enum Registration {
    /// It added a subscriber.
    New,
    /// It made a subscriber with flowing output wait for a bootstrap.
    Regated,
    /// It left an existing subscriber's gate as it was.
    Idempotent,
}

/// A newer registration stands against the withdrawal.
#[derive(Debug, Clone, Copy, PartialEq, Eq, Structural)]
pub struct Superseded;

/// The subscribers of one link and what is kept for them.
pub struct Registry {
    /// The subscribers, in order of registration.
    pub subscribers: Vec<ProxySubscriber>,
    /// Bytes kept for all subscribers.
    pub retained_bytes: usize,
    /// Frames kept for all subscribers.
    pub retained_frames: usize,
}

/// Where `client` observes `terminal` in `subs`.
pub open spec fn find(subs: Seq<SubV>, terminal: u32, client: ClientId) -> Option<int>
    decreases subs.len(),
{
    if subs.len() == 0 {
        None
    } else if subs.last().terminal == terminal && subs.last().client == client {
        Some(subs.len() - 1)
    } else {
        find(subs.drop_last(), terminal, client)
    }
}

/// Whether anyone in `subs` observes `terminal`.
pub open spec fn observed(subs: Seq<SubV>, terminal: u32) -> bool {
    exists|i: int| 0 <= i < subs.len() && (#[trigger] subs[i]).terminal == terminal
}

/// A new subscriber's gate.
pub open spec fn first_gate(awaits_snapshot: bool) -> GateV {
    if awaits_snapshot {
        GateV::AwaitingFirst
    } else {
        GateV::Open
    }
}

/// The subscribers after a registration.
pub open spec fn registered(subs: Seq<SubV>, sub: ProxySubscription) -> Seq<SubV> {
    match find(subs, sub.terminal, sub.client) {
        Some(i) => subs.update(
            i,
            (SubV {
                mailbox: sub.mailbox,
                seq: if subs[i].seq >= sub.seq {
                    subs[i].seq
                } else {
                    sub.seq
                },
                gate: if sub.awaits_snapshot && subs[i].gate == GateV::Open {
                    GateV::AwaitingFirst
                } else {
                    subs[i].gate
                },
                ..subs[i]
            }),
        ),
        None => subs.push(
            (SubV {
                terminal: sub.terminal,
                client: sub.client,
                mailbox: sub.mailbox,
                seq: sub.seq,
                gate: first_gate(sub.awaits_snapshot),
            }),
        ),
    }
}

/// What a registration does.
pub open spec fn registration_effect(subs: Seq<SubV>, sub: ProxySubscription) -> Registration {
    match find(subs, sub.terminal, sub.client) {
        Some(i) => if sub.awaits_snapshot && subs[i].gate == GateV::Open {
            Registration::Regated
        } else {
            Registration::Idempotent
        },
        None => Registration::New,
    }
}

/// The subscribers after a registration of `client` on `terminal` that had
/// `effect` was undone.
pub open spec fn rolled_back(
    subs: Seq<SubV>,
    terminal: u32,
    client: ClientId,
    effect: Registration,
) -> Seq<SubV> {
    match (effect, find(subs, terminal, client)) {
        (Registration::New, Some(i)) => subs.remove(i),
        (Registration::Regated, Some(i)) => if subs[i].gate == GateV::AwaitingFirst {
            subs.update(i, (SubV { gate: GateV::Open, ..subs[i] }))
        } else {
            subs
        },
        _ => subs,
    }
}

/// The first `n` of `subs` without `client`.
pub open spec fn without_client(subs: Seq<SubV>, n: nat, client: ClientId) -> Seq<SubV>
    decreases n,
{
    if n == 0 || n > subs.len() {
        Seq::empty()
    } else {
        let before = without_client(subs, (n - 1) as nat, client);
        if subs[n - 1].client == client {
            before
        } else {
            before.push(subs[n - 1])
        }
    }
}

/// The terminals that `client` observes among the first `n` of `subs`.
pub open spec fn terminals_of(subs: Seq<SubV>, n: nat, client: ClientId) -> Seq<u32>
    decreases n,
{
    if n == 0 || n > subs.len() {
        Seq::empty()
    } else {
        let before = terminals_of(subs, (n - 1) as nat, client);
        if subs[n - 1].client == client {
            before.push(subs[n - 1].terminal)
        } else {
            before
        }
    }
}

/// The first `n` of `terminals` that nobody in `subs` observes.
pub open spec fn unobserved(terminals: Seq<u32>, n: nat, subs: Seq<SubV>) -> Seq<u32>
    decreases n,
{
    if n == 0 || n > terminals.len() {
        Seq::empty()
    } else {
        let before = unobserved(terminals, (n - 1) as nat, subs);
        if observed(subs, terminals[n - 1]) {
            before
        } else {
            before.push(terminals[n - 1])
        }
    }
}

/// The subscribers once `client` is gone.
pub open spec fn departed(subs: Seq<SubV>, client: ClientId) -> Seq<SubV> {
    without_client(subs, subs.len(), client)
}

/// The terminals that nobody observes once `client` is gone.
pub open spec fn orphans(subs: Seq<SubV>, client: ClientId) -> Seq<u32> {
    let terminals = terminals_of(subs, subs.len(), client);
    unobserved(terminals, terminals.len(), departed(subs, client))
}

/// The outcome of withdrawing `client` from `terminal` at issue order `seq`:
/// the terminal when nobody observes it any more.
pub open spec fn withdrawal(subs: Seq<SubV>, terminal: u32, client: ClientId, seq: u64) -> Result<
    Option<u32>,
    Superseded,
> {
    match find(subs, terminal, client) {
        Some(i) if subs[i].seq >= seq => Err(Superseded),
        Some(i) => if observed(subs.remove(i), terminal) {
            Ok(None)
        } else {
            Ok(Some(terminal))
        },
        None => if observed(subs, terminal) {
            Ok(None)
        } else {
            Ok(Some(terminal))
        },
    }
}

/// The subscribers after that withdrawal.
pub open spec fn withdrawn(subs: Seq<SubV>, terminal: u32, client: ClientId, seq: u64) -> Seq<
    SubV,
> {
    match find(subs, terminal, client) {
        Some(i) if subs[i].seq < seq => subs.remove(i),
        _ => subs,
    }
}

pub proof fn lemma_find(subs: Seq<SubV>, terminal: u32, client: ClientId)
    ensures
        match find(subs, terminal, client) {
            Some(i) => 0 <= i < subs.len() && subs[i].terminal == terminal && subs[i].client
                == client,
            None => forall|i: int|
                0 <= i < subs.len() ==> !((#[trigger] subs[i]).terminal == terminal
                    && subs[i].client == client),
        },
    decreases subs.len(),
{
    if subs.len() > 0 {
        lemma_find(subs.drop_last(), terminal, client);
        if find(subs, terminal, client) is None {
            assert forall|i: int| 0 <= i < subs.len() implies !((#[trigger] subs[i]).terminal
                == terminal && subs[i].client == client) by {
                if i < subs.len() - 1 {
                    assert(subs.drop_last()[i] == subs[i]);
                }
            }
        }
    }
}

proof fn lemma_find_is(subs: Seq<SubV>, i: int)
    requires
        distinct_observers(subs),
        0 <= i < subs.len(),
    ensures
        find(subs, subs[i].terminal, subs[i].client) == Some(i),
{
    lemma_find(subs, subs[i].terminal, subs[i].client);
}

impl Registry {
    /// The subscribers.
    pub open spec fn subs(&self) -> Seq<SubV> {
        self.subscribers@.map_values(|sub: ProxySubscriber| sub@)
    }

    /// No consumer observes one terminal twice, and what is kept is counted
    /// exactly and within the bounds.
    pub open spec fn wf(&self) -> bool {
        &&& forall|i: int|
            0 <= i < self.subscribers@.len() ==> (#[trigger] self.subscribers@[i]).gate.wf()
        &&& distinct_observers(self.subs())
        &&& self.retained_bytes == total_bytes(self.subs())
        &&& self.retained_frames == total_frames(self.subs())
        &&& self.retained_bytes <= MAX_RELAY_CONNECTION_RETAINED_BYTES
        &&& self.retained_frames <= MAX_RELAY_CONNECTION_RETAINED_FRAMES
    }

    spec fn gates_wf(&self) -> bool {
        forall|i: int|
            0 <= i < self.subscribers@.len() ==> (#[trigger] self.subscribers@[i]).gate.wf()
    }

    proof fn lemma_gates_bounded(&self)
        requires
            self.gates_wf(),
        ensures
            gates_bounded(self.subs()),
    {
        assert forall|i: int| 0 <= i < self.subs().len() implies (
        #[trigger] self.subs()[i]).gate.within_bounds() by {
            assert(self.subscribers@[i].gate.wf());
        }
    }

    /// A registry without subscribers.
    pub fn new() -> (registry: Self)
        ensures
            registry.wf(),
            registry.subs() == Seq::<SubV>::empty(),
    {
        let registry = Registry { subscribers: Vec::new(), retained_bytes: 0, retained_frames: 0 };
        assert(registry.subs() =~= Seq::<SubV>::empty());
        registry
    }

    fn recalculate_retained_totals(&mut self)
        requires
            old(self).gates_wf(),
            distinct_observers(old(self).subs()),
            total_bytes(old(self).subs()) <= MAX_RELAY_CONNECTION_RETAINED_BYTES,
            total_frames(old(self).subs()) <= MAX_RELAY_CONNECTION_RETAINED_FRAMES,
        ensures
            final(self).wf(),
            final(self).subs() == old(self).subs(),
    {
        let mut bytes: usize = 0;
        let mut frames: usize = 0;
        let mut i: usize = 0;
        assert(self.subs().take(0) =~= Seq::<SubV>::empty());
        while i < self.subscribers.len()
            invariant
                *self == *old(self),
                self.gates_wf(),
                i <= self.subscribers@.len(),
                bytes == total_bytes(self.subs().take(i as int)),
                frames == total_frames(self.subs().take(i as int)),
                total_bytes(self.subs()) <= MAX_RELAY_CONNECTION_RETAINED_BYTES,
                total_frames(self.subs()) <= MAX_RELAY_CONNECTION_RETAINED_FRAMES,
            decreases self.subscribers@.len() - i,
        {
            proof {
                lemma_total_take(self.subs(), i as int);
                lemma_total_monotone(self.subs(), i as int + 1);
                assert(self.subs()[i as int] == self.subscribers@[i as int]@);
                assert(self.subscribers@[i as int].gate.wf());
            }
            if let SnapshotGate::Retained { frames: queued, retained_bytes, .. } =
                &self.subscribers[i].gate {
                bytes = bytes.saturating_add(*retained_bytes);
                frames = frames.saturating_add(queued.len());
            }
            i += 1;
        }
        assert(self.subs().take(i as int) =~= self.subs());
        self.retained_bytes = bytes;
        self.retained_frames = frames;
    }

    fn position(&self, terminal: u32, client: ClientId) -> (found: Option<usize>)
        requires
            distinct_observers(self.subs()),
        ensures
            match found {
                Some(i) => find(self.subs(), terminal, client) == Some(i as int) && i
                    < self.subscribers@.len(),
                None => find(self.subs(), terminal, client) is None,
            },
    {
        let mut i: usize = 0;
        while i < self.subscribers.len()
            invariant
                distinct_observers(self.subs()),
                i <= self.subscribers@.len(),
                forall|j: int|
                    0 <= j < i ==> !((#[trigger] self.subs()[j]).terminal == terminal
                        && self.subs()[j].client == client),
            decreases self.subscribers@.len() - i,
        {
            assert(self.subs()[i as int] == self.subscribers@[i as int]@);
            if self.subscribers[i].terminal == terminal && self.subscribers[i].client == client {
                proof {
                    lemma_find_is(self.subs(), i as int);
                }
                return Some(i);
            }
            i += 1;
        }
        proof {
            lemma_find(self.subs(), terminal, client);
        }
        None
    }

    /// Whether anyone observes `terminal`.
    pub fn observes(&self, terminal: u32) -> (seen: bool)
        ensures
            seen == observed(self.subs(), terminal),
    {
        let mut i: usize = 0;
        while i < self.subscribers.len()
            invariant
                i <= self.subscribers@.len(),
                forall|j: int| 0 <= j < i ==> (#[trigger] self.subs()[j]).terminal != terminal,
            decreases self.subscribers@.len() - i,
        {
            assert(self.subs()[i as int] == self.subscribers@[i as int]@);
            if self.subscribers[i].terminal == terminal {
                return true;
            }
            i += 1;
        }
        false
    }

    /// Register one subscriber, or refresh the one that is there. An upgrade to
    /// an observation with content makes flowing output wait for the new
    /// bootstrap.
    pub fn register_subscriber(&mut self, subscription: ProxySubscription) -> (effect: Registration)
        requires
            old(self).wf(),
        ensures
            final(self).wf(),
            final(self).subs() == registered(old(self).subs(), subscription),
            effect == registration_effect(old(self).subs(), subscription),
    {
        let ghost before = self.subs();
        match self.position(subscription.terminal, subscription.client) {
            Some(i) => {
                proof {
                    lemma_find(before, subscription.terminal, subscription.client);
                    assert(before[i as int] == self.subscribers@[i as int]@);
                    assert(self.subscribers@[i as int].gate.wf());
                }
                let ghost was = self.subscribers@[i as int];
                self.subscribers[i].mailbox = subscription.mailbox;
                if self.subscribers[i].seq < subscription.seq {
                    self.subscribers[i].seq = subscription.seq;
                }
                let open = match &self.subscribers[i].gate {
                    SnapshotGate::Open => true,
                    _ => false,
                };
                let effect = if subscription.awaits_snapshot && open {
                    self.subscribers[i].gate = SnapshotGate::AwaitingFirst;
                    Registration::Regated
                } else {
                    Registration::Idempotent
                };
                proof {
                    let now = self.subscribers@[i as int]@;
                    assert(self.subs() =~= before.update(i as int, now));
                    lemma_total_update(before, i as int, now);
                    lemma_update_observers(before, i as int, now);
                    assert(self.subs() =~= registered(before, subscription));
                }
                effect
            },
            None => {
                let gate = if subscription.awaits_snapshot {
                    SnapshotGate::AwaitingFirst
                } else {
                    SnapshotGate::Open
                };
                self.subscribers.push(
                    ProxySubscriber {
                        terminal: subscription.terminal,
                        client: subscription.client,
                        mailbox: subscription.mailbox,
                        seq: subscription.seq,
                        gate,
                    },
                );
                proof {
                    lemma_find(before, subscription.terminal, subscription.client);
                    let added = registered(before, subscription).last();
                    assert(self.subs() =~= before.push(added));
                    lemma_total_push(before, added);
                    lemma_push_observers(before, added);
                    assert(forall|i: int|
                        0 <= i < before.len() ==> self.subscribers@[i] == old(self).subscribers@[i]);
                }
                Registration::New
            },
        }
    }

    fn drop_at(&mut self, i: usize)
        requires
            old(self).wf(),
            i < old(self).subscribers@.len(),
        ensures
            final(self).wf(),
            final(self).subs() == old(self).subs().remove(i as int),
    {
        let ghost before = self.subs();
        self.subscribers.remove(i);
        proof {
            assert(self.subs() =~= before.remove(i as int));
            lemma_remove_observers(before, i as int);
            lemma_total_remove(before, i as int);
            assert forall|j: int| 0 <= j < self.subscribers@.len() implies (
            #[trigger] self.subscribers@[j]).gate.wf() by {
                let k = if j < i {
                    j
                } else {
                    j + 1
                };
                assert(self.subscribers@[j] == old(self).subscribers@[k]);
            }
        }
        self.recalculate_retained_totals();
    }

    /// Undo what a refused registration did.
    pub fn roll_back_subscription(&mut self, terminal: u32, client: ClientId, effect: Registration)
        requires
            old(self).wf(),
        ensures
            final(self).wf(),
            final(self).subs() == rolled_back(old(self).subs(), terminal, client, effect),
    {
        let ghost before = self.subs();
        proof {
            lemma_find(before, terminal, client);
        }
        match effect {
            Registration::New => {
                if let Some(i) = self.position(terminal, client) {
                    self.drop_at(i);
                }
            },
            Registration::Regated => {
                if let Some(i) = self.position(terminal, client) {
                    assert(before[i as int] == self.subscribers@[i as int]@);
                    let waiting = match &self.subscribers[i].gate {
                        SnapshotGate::AwaitingFirst => true,
                        _ => false,
                    };
                    if waiting {
                        self.subscribers[i].gate = SnapshotGate::Open;
                        proof {
                            let now = self.subscribers@[i as int]@;
                            assert(self.subs() =~= before.update(i as int, now));
                            lemma_total_update(before, i as int, now);
                            lemma_update_observers(before, i as int, now);
                        }
                    }
                }
            },
            Registration::Idempotent => {},
        }
    }

    /// Withdraw `client` from `terminal` unless a newer registration stands
    /// against it.
    pub fn withdraw_terminal(&mut self, client: ClientId, terminal: u32, seq: u64) -> (outcome:
        Result<Option<u32>, Superseded>)
        requires
            old(self).wf(),
        ensures
            final(self).wf(),
            outcome == withdrawal(old(self).subs(), terminal, client, seq),
            final(self).subs() == withdrawn(old(self).subs(), terminal, client, seq),
    {
        proof {
            lemma_find(self.subs(), terminal, client);
        }
        if let Some(i) = self.position(terminal, client) {
            assert(self.subs()[i as int] == self.subscribers@[i as int]@);
            if self.subscribers[i].seq >= seq {
                return Err(Superseded);
            }
            self.drop_at(i);
        }
        if self.observes(terminal) {
            Ok(None)
        } else {
            Ok(Some(terminal))
        }
    }
}

impl Registry {
    /// Fan one frame of `id`'s stream out to its subscribers.
    pub fn fan_out(&mut self, id: u32, frame: &FrameKind, enforce: bool, mailboxes: &mut Mailboxes)
        requires
            old(self).wf(),
            frame.copies_exactly(),
        ensures
            final(self).wf(),
            ({
                let walk = fan(
                    old(self).subs(),
                    old(self).subs().len(),
                    id,
                    *frame,
                    enforce,
                    old(mailboxes)@,
                    total_bytes(old(self).subs()),
                    total_frames(old(self).subs()),
                );
                final(self).subs() == walk.kept && final(mailboxes)@ == walk.boxes
            }),
    {
        let is_begin = match frame {
            FrameKind::BootstrapBegin { .. } => true,
            _ => false,
        };
        let is_ready = match frame {
            FrameKind::BootstrapReady { .. } => true,
            _ => false,
        };
        let is_bootstrap = match frame {
            FrameKind::BootstrapBegin { .. } => true,
            FrameKind::BootstrapChunk { .. } => true,
            FrameKind::BootstrapReady { .. } => true,
            FrameKind::BootstrapTombstone { .. } => true,
            _ => false,
        };
        let ghost subs = self.subs();
        let ghost boxes = mailboxes@;
        let ghost bytes = total_bytes(subs);
        let ghost frames = total_frames(subs);
        let ghost mut n: nat = 0;
        let mut connection_bytes = self.retained_bytes;
        let mut connection_frames = self.retained_frames;
        let mut i: usize = 0;
        proof {
            assert(self.subs().take(0) =~= Seq::<SubV>::empty());
            assert(self.subs().skip(0) =~= subs);
            assert(subs.skip(0) =~= subs);
        }
        while i < self.subscribers.len()
            invariant
                frame.copies_exactly(),
                is_begin == (*frame is BootstrapBegin),
                is_ready == (*frame is BootstrapReady),
                is_bootstrap == crate::hub::gate::is_bootstrap(*frame),
                self.gates_wf(),
                n <= subs.len(),
                i <= self.subscribers@.len(),
                self.subscribers@.len() - i == subs.len() - n,
                bytes == total_bytes(subs),
                frames == total_frames(subs),
                ({
                    let walk = fan(subs, n, id, *frame, enforce, boxes, bytes, frames);
                    &&& self.subs().take(i as int) == walk.kept
                    &&& mailboxes@ == walk.boxes
                    &&& connection_bytes == walk.bytes
                    &&& connection_frames == walk.frames
                }),
                self.subs().skip(i as int) == subs.skip(n as int),
            decreases self.subscribers@.len() - i,
        {
            let ghost at = self.subs();
            let ghost walk = fan(subs, n, id, *frame, enforce, boxes, bytes, frames);
            proof {
                assert(at[i as int] == at.skip(i as int)[0]);
                assert(subs[n as int] == subs.skip(n as int)[0]);
                assert(at[i as int] == self.subscribers@[i as int]@);
                assert(self.subscribers@[i as int].gate.wf());
            }
            if self.subscribers[i].terminal != id {
                proof {
                    n = n + 1;
                    assert(at.take(i as int + 1) =~= walk.kept.push(at[i as int]));
                    assert(at.skip(i as int + 1) =~= at.skip(i as int).skip(1));
                    assert(subs.skip(n as int) =~= subs.skip(n as int - 1).skip(1));
                }
                i += 1;
            } else {
                if is_begin && !enforce {
                    self.subscribers[i].gate = SnapshotGate::AwaitingFirst;
                }
                let alive = if is_bootstrap {
                    push_bootstrap_frame(
                        &mut self.subscribers[i],
                        frame.clone(),
                        is_ready,
                        &mut connection_bytes,
                        &mut connection_frames,
                        mailboxes,
                    )
                } else {
                    let (may_send, alive) = flush_pending_snapshot(
                        &mut self.subscribers[i],
                        mailboxes,
                    );
                    if alive && may_send {
                        match mailboxes.try_send(
                            self.subscribers[i].mailbox,
                            Outbound::Frame(frame.clone()),
                        ) {
                            SendOutcome::Accepted => true,
                            _ => false,
                        }
                    } else {
                        alive
                    }
                };
                let ghost now = self.subs();
                proof {
                    n = n + 1;
                    assert(now =~= at.update(i as int, self.subscribers@[i as int]@));
                    assert(subs.skip(n as int) =~= subs.skip(n as int - 1).skip(1));
                }
                if alive {
                    proof {
                        assert(now.take(i as int + 1) =~= walk.kept.push(now[i as int]));
                        assert(now.skip(i as int + 1) =~= at.skip(i as int).skip(1));
                    }
                    i += 1;
                } else {
                    let ghost held = self.subscribers@;
                    self.subscribers.remove(i);
                    proof {
                        assert(self.subs() =~= now.remove(i as int));
                        assert(self.subs().take(i as int) =~= at.take(i as int));
                        assert(self.subs().skip(i as int) =~= at.skip(i as int).skip(1));
                        assert forall|j: int| 0 <= j < self.subscribers@.len() implies (
                        #[trigger] self.subscribers@[j]).gate.wf() by {
                            let k = if j < i {
                                j
                            } else {
                                j + 1
                            };
                            assert(self.subscribers@[j] == held[k]);
                        }
                    }
                }
            }
        }
        proof {
            assert(n == subs.len());
            assert(self.subs().take(i as int) =~= self.subs());
            old(self).lemma_gates_bounded();
            law_fan_out_stays_within_bounds(subs, n, id, *frame, enforce, boxes);
            assert(subs.take(n as int) =~= subs);
            lemma_fan_step_observers(subs, n, id, *frame, enforce, boxes, bytes, frames);
        }
        self.recalculate_retained_totals();
    }

    /// Send one frame about `id` to its subscribers past every gate.
    pub fn fan_out_ungated(&mut self, id: u32, frame: &FrameKind, mailboxes: &mut Mailboxes)
        requires
            old(self).wf(),
            frame.copies_exactly(),
        ensures
            final(self).wf(),
            (final(self).subs(), final(mailboxes)@) == fan_past_gates(
                old(self).subs(),
                old(self).subs().len(),
                id,
                *frame,
                old(mailboxes)@,
            ),
    {
        let ghost subs = self.subs();
        let ghost boxes = mailboxes@;
        let ghost mut n: nat = 0;
        let mut i: usize = 0;
        proof {
            assert(self.subs().take(0) =~= Seq::<SubV>::empty());
            assert(self.subs().skip(0) =~= subs);
            assert(subs.skip(0) =~= subs);
        }
        while i < self.subscribers.len()
            invariant
                frame.copies_exactly(),
                self.gates_wf(),
                n <= subs.len(),
                i <= self.subscribers@.len(),
                self.subscribers@.len() - i == subs.len() - n,
                (self.subs().take(i as int), mailboxes@) == fan_past_gates(
                    subs,
                    n,
                    id,
                    *frame,
                    boxes,
                ),
                self.subs().skip(i as int) == subs.skip(n as int),
            decreases self.subscribers@.len() - i,
        {
            let ghost at = self.subs();
            let ghost held = self.subscribers@;
            proof {
                assert(at[i as int] == at.skip(i as int)[0]);
                assert(subs[n as int] == subs.skip(n as int)[0]);
                assert(at[i as int] == self.subscribers@[i as int]@);
                n = n + 1;
                assert(at.skip(i as int + 1) =~= at.skip(i as int).skip(1));
                assert(subs.skip(n as int) =~= subs.skip(n as int - 1).skip(1));
                assert(at.take(i as int + 1) =~= at.take(i as int).push(at[i as int]));
            }
            let alive = if self.subscribers[i].terminal != id {
                true
            } else {
                match mailboxes.try_send(
                    self.subscribers[i].mailbox,
                    Outbound::Frame(frame.clone()),
                ) {
                    SendOutcome::Accepted => true,
                    _ => false,
                }
            };
            if alive {
                i += 1;
            } else {
                self.subscribers.remove(i);
                proof {
                    assert(self.subs() =~= at.remove(i as int));
                    assert(self.subs().take(i as int) =~= at.take(i as int));
                    assert(self.subs().skip(i as int) =~= at.skip(i as int).skip(1));
                    assert forall|j: int| 0 <= j < self.subscribers@.len() implies (
                    #[trigger] self.subscribers@[j]).gate.wf() by {
                        let k = if j < i {
                            j
                        } else {
                            j + 1
                        };
                        assert(self.subscribers@[j] == held[k]);
                    }
                }
            }
        }
        proof {
            assert(self.subs().take(i as int) =~= self.subs());
            lemma_past_gates(subs, n, id, *frame, boxes);
            assert(subs.take(n as int) =~= subs);
        }
        self.recalculate_retained_totals();
    }

    /// Retry what every subscriber keeps.
    pub fn flush_pending_snapshots(&mut self, mailboxes: &mut Mailboxes)
        requires
            old(self).wf(),
        ensures
            final(self).wf(),
            (final(self).subs(), final(mailboxes)@) == flush_all(
                old(self).subs(),
                old(self).subs().len(),
                old(mailboxes)@,
            ),
    {
        let ghost subs = self.subs();
        let ghost boxes = mailboxes@;
        let ghost mut n: nat = 0;
        let mut i: usize = 0;
        proof {
            assert(self.subs().take(0) =~= Seq::<SubV>::empty());
            assert(self.subs().skip(0) =~= subs);
            assert(subs.skip(0) =~= subs);
        }
        while i < self.subscribers.len()
            invariant
                self.gates_wf(),
                n <= subs.len(),
                i <= self.subscribers@.len(),
                self.subscribers@.len() - i == subs.len() - n,
                (self.subs().take(i as int), mailboxes@) == flush_all(subs, n, boxes),
                self.subs().skip(i as int) == subs.skip(n as int),
            decreases self.subscribers@.len() - i,
        {
            let ghost at = self.subs();
            let ghost kept = flush_all(subs, n, boxes).0;
            proof {
                assert(at[i as int] == at.skip(i as int)[0]);
                assert(subs[n as int] == subs.skip(n as int)[0]);
                assert(at[i as int] == self.subscribers@[i as int]@);
                assert(self.subscribers@[i as int].gate.wf());
            }
            let (_, alive) = flush_pending_snapshot(&mut self.subscribers[i], mailboxes);
            let ghost now = self.subs();
            proof {
                n = n + 1;
                assert(now =~= at.update(i as int, self.subscribers@[i as int]@));
                assert(subs.skip(n as int) =~= subs.skip(n as int - 1).skip(1));
            }
            if alive {
                proof {
                    assert(now.take(i as int + 1) =~= kept.push(now[i as int]));
                    assert(now.skip(i as int + 1) =~= at.skip(i as int).skip(1));
                }
                i += 1;
            } else {
                let ghost held = self.subscribers@;
                self.subscribers.remove(i);
                proof {
                    assert(self.subs() =~= now.remove(i as int));
                    assert(self.subs().take(i as int) =~= at.take(i as int));
                    assert(self.subs().skip(i as int) =~= at.skip(i as int).skip(1));
                    assert forall|j: int| 0 <= j < self.subscribers@.len() implies (
                    #[trigger] self.subscribers@[j]).gate.wf() by {
                        let k = if j < i {
                            j
                        } else {
                            j + 1
                        };
                        assert(self.subscribers@[j] == held[k]);
                    }
                }
            }
        }
        proof {
            assert(self.subs().take(i as int) =~= self.subs());
            old(self).lemma_gates_bounded();
            lemma_flush_all(subs, n, boxes);
            assert(subs.take(n as int) =~= subs);
        }
        self.recalculate_retained_totals();
    }

    /// Withdraw everything that `client` observes; the terminals that nobody
    /// observes any more.
    pub fn withdraw_client(&mut self, client: ClientId) -> (orphaned: Vec<u32>)
        requires
            old(self).wf(),
        ensures
            final(self).wf(),
            final(self).subs() == departed(old(self).subs(), client),
            orphaned@ == orphans(old(self).subs(), client),
    {
        let ghost subs = self.subs();
        let ghost mut n: nat = 0;
        let mut left: Vec<u32> = Vec::new();
        let mut i: usize = 0;
        proof {
            assert(self.subs().take(0) =~= Seq::<SubV>::empty());
            assert(self.subs().skip(0) =~= subs);
            assert(subs.skip(0) =~= subs);
        }
        while i < self.subscribers.len()
            invariant
                self.gates_wf(),
                n <= subs.len(),
                i <= self.subscribers@.len(),
                self.subscribers@.len() - i == subs.len() - n,
                self.subs().take(i as int) == without_client(subs, n, client),
                left@ == terminals_of(subs, n, client),
                self.subs().skip(i as int) == subs.skip(n as int),
            decreases self.subscribers@.len() - i,
        {
            let ghost at = self.subs();
            let ghost held = self.subscribers@;
            proof {
                assert(at[i as int] == at.skip(i as int)[0]);
                assert(subs[n as int] == subs.skip(n as int)[0]);
                assert(at[i as int] == self.subscribers@[i as int]@);
                n = n + 1;
                assert(at.skip(i as int + 1) =~= at.skip(i as int).skip(1));
                assert(subs.skip(n as int) =~= subs.skip(n as int - 1).skip(1));
                assert(at.take(i as int + 1) =~= at.take(i as int).push(at[i as int]));
            }
            if self.subscribers[i].client != client {
                i += 1;
            } else {
                left.push(self.subscribers[i].terminal);
                self.subscribers.remove(i);
                proof {
                    assert(self.subs() =~= at.remove(i as int));
                    assert(self.subs().take(i as int) =~= at.take(i as int));
                    assert(self.subs().skip(i as int) =~= at.skip(i as int).skip(1));
                    assert forall|j: int| 0 <= j < self.subscribers@.len() implies (
                    #[trigger] self.subscribers@[j]).gate.wf() by {
                        let k = if j < i {
                            j
                        } else {
                            j + 1
                        };
                        assert(self.subscribers@[j] == held[k]);
                    }
                }
            }
        }
        proof {
            assert(self.subs().take(i as int) =~= self.subs());
            lemma_without_client(subs, n, client);
            assert(subs.take(n as int) =~= subs);
        }
        self.recalculate_retained_totals();
        let mut orphaned: Vec<u32> = Vec::new();
        let mut k: usize = 0;
        while k < left.len()
            invariant
                k <= left@.len(),
                self.subs() == departed(subs, client),
                orphaned@ == unobserved(left@, k as nat, self.subs()),
            decreases left@.len() - k,
        {
            if !self.observes(left[k]) {
                orphaned.push(left[k]);
            }
            k += 1;
        }
        orphaned
    }

    /// Drop every subscriber of `terminal`.
    pub fn drop_terminal(&mut self, terminal: u32)
        requires
            old(self).wf(),
        ensures
            final(self).wf(),
            final(self).subs() == not_observing(
                old(self).subs(),
                old(self).subs().len(),
                terminal,
            ),
    {
        let ghost subs = self.subs();
        let ghost mut n: nat = 0;
        let mut i: usize = 0;
        proof {
            assert(self.subs().take(0) =~= Seq::<SubV>::empty());
            assert(self.subs().skip(0) =~= subs);
            assert(subs.skip(0) =~= subs);
        }
        while i < self.subscribers.len()
            invariant
                self.gates_wf(),
                n <= subs.len(),
                i <= self.subscribers@.len(),
                self.subscribers@.len() - i == subs.len() - n,
                self.subs().take(i as int) == not_observing(subs, n, terminal),
                self.subs().skip(i as int) == subs.skip(n as int),
            decreases self.subscribers@.len() - i,
        {
            let ghost at = self.subs();
            let ghost held = self.subscribers@;
            proof {
                assert(at[i as int] == at.skip(i as int)[0]);
                assert(subs[n as int] == subs.skip(n as int)[0]);
                assert(at[i as int] == self.subscribers@[i as int]@);
                n = n + 1;
                assert(at.skip(i as int + 1) =~= at.skip(i as int).skip(1));
                assert(subs.skip(n as int) =~= subs.skip(n as int - 1).skip(1));
                assert(at.take(i as int + 1) =~= at.take(i as int).push(at[i as int]));
            }
            if self.subscribers[i].terminal != terminal {
                i += 1;
            } else {
                self.subscribers.remove(i);
                proof {
                    assert(self.subs() =~= at.remove(i as int));
                    assert(self.subs().take(i as int) =~= at.take(i as int));
                    assert(self.subs().skip(i as int) =~= at.skip(i as int).skip(1));
                    assert forall|j: int| 0 <= j < self.subscribers@.len() implies (
                    #[trigger] self.subscribers@[j]).gate.wf() by {
                        let k = if j < i {
                            j
                        } else {
                            j + 1
                        };
                        assert(self.subscribers@[j] == held[k]);
                    }
                }
            }
        }
        proof {
            assert(self.subs().take(i as int) =~= self.subs());
            lemma_not_observing(subs, n, terminal);
            assert(subs.take(n as int) =~= subs);
        }
        self.recalculate_retained_totals();
    }

    /// Drop every subscriber.
    pub fn clear(&mut self)
        ensures
            final(self).wf(),
            final(self).subs() == Seq::<SubV>::empty(),
    {
        self.subscribers.clear();
        self.retained_bytes = 0;
        self.retained_frames = 0;
        assert(self.subs() =~= Seq::<SubV>::empty());
    }
}

/// The first `n` of `subs` that do not observe `terminal`.
pub open spec fn not_observing(subs: Seq<SubV>, n: nat, terminal: u32) -> Seq<SubV>
    decreases n,
{
    if n == 0 || n > subs.len() {
        Seq::empty()
    } else {
        let before = not_observing(subs, (n - 1) as nat, terminal);
        if subs[n - 1].terminal == terminal {
            before
        } else {
            before.push(subs[n - 1])
        }
    }
}

proof fn lemma_not_observing(subs: Seq<SubV>, n: nat, terminal: u32)
    requires
        n <= subs.len(),
        distinct_observers(subs),
    ensures
        distinct_observers(not_observing(subs, n, terminal)),
        drawn_from(not_observing(subs, n, terminal), subs, n as int),
        total_bytes(not_observing(subs, n, terminal)) <= total_bytes(subs.take(n as int)),
        total_frames(not_observing(subs, n, terminal)) <= total_frames(subs.take(n as int)),
    decreases n,
{
    if n > 0 {
        let m = (n - 1) as nat;
        lemma_not_observing(subs, m, terminal);
        let before = not_observing(subs, m, terminal);
        let sub = subs[m as int];
        lemma_total_take(subs, m as int);
        lemma_total_push(before, sub);
        lemma_keep_step(before, subs, m as int, Some(sub.gate));
        lemma_keep_step(before, subs, m as int, None);
        assert(keep(before, sub, Some(sub.gate)) =~= before.push(sub));
    }
}

proof fn lemma_without_client(subs: Seq<SubV>, n: nat, client: ClientId)
    requires
        n <= subs.len(),
        distinct_observers(subs),
    ensures
        distinct_observers(without_client(subs, n, client)),
        drawn_from(without_client(subs, n, client), subs, n as int),
        total_bytes(without_client(subs, n, client)) <= total_bytes(subs.take(n as int)),
        total_frames(without_client(subs, n, client)) <= total_frames(subs.take(n as int)),
    decreases n,
{
    if n > 0 {
        let m = (n - 1) as nat;
        lemma_without_client(subs, m, client);
        let before = without_client(subs, m, client);
        let sub = subs[m as int];
        lemma_total_take(subs, m as int);
        lemma_total_push(before, sub);
        lemma_keep_step(before, subs, m as int, Some(sub.gate));
        lemma_keep_step(before, subs, m as int, None);
        assert(keep(before, sub, Some(sub.gate)) =~= before.push(sub));
    }
}

proof fn lemma_past_gates(
    subs: Seq<SubV>,
    n: nat,
    id: u32,
    frame: FrameKind,
    boxes: Seq<MailboxV>,
)
    requires
        n <= subs.len(),
        distinct_observers(subs),
    ensures
        distinct_observers(fan_past_gates(subs, n, id, frame, boxes).0),
        drawn_from(fan_past_gates(subs, n, id, frame, boxes).0, subs, n as int),
        total_bytes(fan_past_gates(subs, n, id, frame, boxes).0) <= total_bytes(
            subs.take(n as int),
        ),
        total_frames(fan_past_gates(subs, n, id, frame, boxes).0) <= total_frames(
            subs.take(n as int),
        ),
    decreases n,
{
    if n > 0 {
        let m = (n - 1) as nat;
        lemma_past_gates(subs, m, id, frame, boxes);
        let before = fan_past_gates(subs, m, id, frame, boxes).0;
        let sub = subs[m as int];
        lemma_total_take(subs, m as int);
        lemma_total_push(before, sub);
        lemma_keep_step(before, subs, m as int, Some(sub.gate));
        lemma_keep_step(before, subs, m as int, None);
        assert(keep(before, sub, Some(sub.gate)) =~= before.push(sub));
    }
}

proof fn lemma_flush_all(subs: Seq<SubV>, n: nat, boxes: Seq<MailboxV>)
    requires
        n <= subs.len(),
        distinct_observers(subs),
        gates_bounded(subs),
    ensures
        distinct_observers(flush_all(subs, n, boxes).0),
        drawn_from(flush_all(subs, n, boxes).0, subs, n as int),
        total_bytes(flush_all(subs, n, boxes).0) <= total_bytes(subs.take(n as int)),
        total_frames(flush_all(subs, n, boxes).0) <= total_frames(subs.take(n as int)),
    decreases n,
{
    if n > 0 {
        let m = (n - 1) as nat;
        lemma_flush_all(subs, m, boxes);
        let (before, at) = flush_all(subs, m, boxes);
        let sub = subs[m as int];
        let gate = flush_gate(sub.gate, sub.mailbox, at).0;
        lemma_total_take(subs, m as int);
        lemma_flush_gate_shrinks(sub.gate, sub.mailbox, at);
        lemma_keep_step(before, subs, m as int, gate);
        if let Some(gate) = gate {
            lemma_total_push(before, SubV { gate, ..sub });
        }
    }
}

proof fn lemma_update_observers(subs: Seq<SubV>, i: int, sub: SubV)
    requires
        distinct_observers(subs),
        0 <= i < subs.len(),
        sub.terminal == subs[i].terminal,
        sub.client == subs[i].client,
    ensures
        distinct_observers(subs.update(i, sub)),
{
    let after = subs.update(i, sub);
    assert forall|a: int, b: int|
        0 <= a < after.len() && 0 <= b < after.len() && (#[trigger] after[a]).terminal == (
        #[trigger] after[b]).terminal && after[a].client == after[b].client implies a == b by {
        assert(subs[a].terminal == after[a].terminal && subs[a].client == after[a].client);
        assert(subs[b].terminal == after[b].terminal && subs[b].client == after[b].client);
    }
}

proof fn lemma_push_observers(subs: Seq<SubV>, sub: SubV)
    requires
        distinct_observers(subs),
        find(subs, sub.terminal, sub.client) is None,
    ensures
        distinct_observers(subs.push(sub)),
{
    lemma_find(subs, sub.terminal, sub.client);
    let after = subs.push(sub);
    assert forall|a: int, b: int|
        0 <= a < after.len() && 0 <= b < after.len() && (#[trigger] after[a]).terminal == (
        #[trigger] after[b]).terminal && after[a].client == after[b].client implies a == b by {
        if a < subs.len() {
            assert(after[a] == subs[a]);
        }
        if b < subs.len() {
            assert(after[b] == subs[b]);
        }
    }
}

proof fn lemma_remove_observers(subs: Seq<SubV>, i: int)
    requires
        distinct_observers(subs),
        0 <= i < subs.len(),
    ensures
        distinct_observers(subs.remove(i)),
{
    let after = subs.remove(i);
    assert forall|a: int, b: int|
        0 <= a < after.len() && 0 <= b < after.len() && (#[trigger] after[a]).terminal == (
        #[trigger] after[b]).terminal && after[a].client == after[b].client implies a == b by {
        let x = if a < i {
            a
        } else {
            a + 1
        };
        let y = if b < i {
            b
        } else {
            b + 1
        };
        assert(subs[x] == after[a] && subs[y] == after[b]);
    }
}

} // verus!
