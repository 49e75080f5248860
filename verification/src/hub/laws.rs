//! What holds of a hub whatever its satellites and consumers do.

use crate::hub::gate::{
    deliver, distinct_observers, fan, law_deliveries_touch_one_mailbox, GateV, SubV,
};
use crate::hub::handle::{law_later_tokens_are_greater, nth_token};
use crate::hub::registry::{
    find, lemma_find, observed, registered, registration_effect, rolled_back, withdrawal,
    withdrawn, ProxySubscription, Registration, Superseded,
};
use crate::hub::session::{is_stream, retagged, stream_scope, SessionV};
use crate::ids::{ClientId, SatelliteHost, TerminalId};
use crate::mailbox::{MailboxId, MailboxV};
use crate::wire::FrameKind;
use vstd::prelude::*;

verus! {

/// The return leg undoes the outbound leg: what a satellite says about its
/// terminal `id` reaches consumers as being about that terminal of that
/// satellite, which routes back to the same satellite and the same `id`.
pub proof fn law_tags_round_trip(frame: FrameKind, host: SatelliteHost, id: u32)
    requires
        is_stream(frame),
    ensures
        stream_scope(retagged(frame, host, id)) == Some(TerminalId::Satellite { host, id }),
        is_stream(retagged(frame, host, id)),
{
}

/// Tagging a frame again with what it already says changes nothing: the tag is
/// the only thing that tagging touches.
pub proof fn law_tagging_is_idempotent(frame: FrameKind, host: SatelliteHost, id: u32)
    ensures
        retagged(retagged(frame, host, id), host, id) == retagged(frame, host, id),
{
}

/// Satellites do not chain: a stream frame about a terminal of yet another
/// server changes nothing and reaches nobody.
pub proof fn law_satellites_do_not_chain(
    session: SessionV,
    frame: FrameKind,
    boxes: Seq<MailboxV>,
)
    requires
        is_stream(frame),
        stream_scope(frame) matches Some(TerminalId::Satellite { .. }),
    ensures
        session.inbound(frame, boxes).state == session,
        session.inbound(frame, boxes).boxes == boxes,
        session.inbound(frame, boxes).fault is None,
{
}

/// Until a satellite confirms that a terminal's stream stopped, nothing of that
/// stream but events gets through or changes anything.
pub proof fn law_stopped_streams_stay_silent(
    session: SessionV,
    frame: FrameKind,
    id: u32,
    boxes: Seq<MailboxV>,
)
    requires
        is_stream(frame),
        !(frame is Event),
        stream_scope(frame) == Some(TerminalId::Local { id }),
        session.requests.barred(id),
    ensures
        session.inbound(frame, boxes).state == session,
        session.inbound(frame, boxes).boxes == boxes,
        session.inbound(frame, boxes).fault is None,
{
}

/// A frame that violates the protocol reaches nobody and changes nothing; only
/// a refused stop is taken off the books.
pub proof fn law_faults_leave_no_trace(session: SessionV, frame: FrameKind, boxes: Seq<MailboxV>)
    requires
        session.inbound(frame, boxes).fault is Some,
    ensures
        session.inbound(frame, boxes).boxes == boxes,
        session.inbound(frame, boxes).state.subs == session.subs,
        session.inbound(frame, boxes).state.flows == session.flows,
        !session.answers_stop(frame) ==> session.inbound(frame, boxes).state == session,
{
}

/// Asking a stream to stop keeps it barred: until the satellite answers, the
/// hub knows that old output may still arrive.
pub proof fn law_a_stop_bars_its_stream(session: SessionV, terminal: u32, now_ms: u64)
    ensures
        session.detaching(terminal, now_ms).requests.barred(terminal),
{
    let after = session.detaching(terminal, now_ms).requests;
    assert(after.detaches.contains_key(session.requests.fresh()));
}

/// A stop that was cut in for a first attach keeps the terminal's event
/// subscription, and no second stop is sent while the first is in flight.
pub proof fn law_a_cut_is_sent_once(
    session: SessionV,
    request: crate::hub::session::RelayRequest,
    terminal: u32,
    now_ms: u64,
)
    requires
        session.needs_cut(request) == Some(terminal),
    ensures
        session.cutting(terminal, now_ms).needs_cut(request) is None,
        session.cutting(terminal, now_ms).legacy.contains(terminal) == session.legacy.contains(
            terminal,
        ),
{
    law_a_stop_bars_its_stream(session, terminal, now_ms);
    let stopped = session.detaching(terminal, now_ms);
    assert(session.cutting(terminal, now_ms).requests == stopped.requests);
}

/// A withdrawal that was issued before the current registration neither
/// removes it nor stops its stream.
pub proof fn law_stale_withdrawals_change_nothing(
    subs: Seq<SubV>,
    terminal: u32,
    client: ClientId,
    seq: u64,
    i: int,
)
    requires
        distinct_observers(subs),
        0 <= i < subs.len(),
        subs[i].terminal == terminal,
        subs[i].client == client,
        subs[i].seq >= seq,
    ensures
        withdrawal(subs, terminal, client, seq) == Err::<Option<u32>, _>(Superseded),
        withdrawn(subs, terminal, client, seq) == subs,
{
    lemma_find(subs, terminal, client);
}

/// A detach that a handle issued before a re-attach cannot tear the re-attach
/// down, in whichever order the link takes them up.
pub proof fn law_stale_detaches_spare_the_reattach(
    subs: Seq<SubV>,
    sub: ProxySubscription,
    first: u64,
    detach: nat,
    attach: nat,
)
    requires
        distinct_observers(subs),
        detach < attach,
        first + attach <= u64::MAX,
        sub.seq == nth_token(first, attach),
    ensures
        ({
            let seq = nth_token(first, detach);
            let after = registered(subs, sub);
            &&& withdrawal(after, sub.terminal, sub.client, seq) == Err::<Option<u32>, _>(
                Superseded,
            )
            &&& withdrawn(after, sub.terminal, sub.client, seq) == after
        }),
{
    let after = registered(subs, sub);
    law_later_tokens_are_greater(first, detach, attach);
    lemma_find(subs, sub.terminal, sub.client);
    lemma_find(after, sub.terminal, sub.client);
    match find(subs, sub.terminal, sub.client) {
        Some(i) => {
            assert(after[i].terminal == sub.terminal && after[i].client == sub.client);
            let k = find(after, sub.terminal, sub.client)->Some_0;
            assert(find(after, sub.terminal, sub.client) is Some);
            assert(subs[k].terminal == sub.terminal && subs[k].client == sub.client);
            assert(k == i);
        },
        None => {
            assert(after.last().terminal == sub.terminal);
        },
    }
}

/// A stream is stopped only when its last observer leaves: as long as another
/// consumer observes the terminal, a withdrawal stops nothing.
pub proof fn law_streams_outlive_one_observer(
    subs: Seq<SubV>,
    terminal: u32,
    client: ClientId,
    seq: u64,
    other: int,
)
    requires
        0 <= other < subs.len(),
        subs[other].terminal == terminal,
        subs[other].client != client,
    ensures
        !(withdrawal(subs, terminal, client, seq) matches Ok(Some(_))),
{
    lemma_find(subs, terminal, client);
    match find(subs, terminal, client) {
        Some(i) => {
            let rest = subs.remove(i);
            let at = if other < i {
                other
            } else {
                other - 1
            };
            assert(rest[at] == subs[other]);
            assert(observed(rest, terminal));
        },
        None => {
            assert(observed(subs, terminal));
        },
    }
}

/// A refused registration is undone: a new subscriber is gone, and a
/// subscriber that was made to wait flows again.
pub proof fn law_refused_registrations_are_undone(subs: Seq<SubV>, sub: ProxySubscription)
    requires
        distinct_observers(subs),
    ensures
        ({
            let effect = registration_effect(subs, sub);
            let after = rolled_back(registered(subs, sub), sub.terminal, sub.client, effect);
            &&& effect == Registration::New ==> after == subs
            &&& after.len() == subs.len()
            &&& forall|i: int|
                0 <= i < subs.len() ==> (#[trigger] after[i]).terminal == subs[i].terminal
                    && after[i].client == subs[i].client && after[i].gate == subs[i].gate
        }),
{
    let effect = registration_effect(subs, sub);
    let now = registered(subs, sub);
    lemma_find(subs, sub.terminal, sub.client);
    lemma_find(now, sub.terminal, sub.client);
    match find(subs, sub.terminal, sub.client) {
        None => {
            let last = subs.len() as int;
            assert(now[last].terminal == sub.terminal && now[last].client == sub.client);
            match find(now, sub.terminal, sub.client) {
                Some(i) => {
                    if i < last {
                        assert(now[i] == subs[i]);
                    }
                    assert(now.remove(last) =~= subs);
                },
                None => {},
            }
        },
        Some(i) => {
            assert(now[i].terminal == sub.terminal && now[i].client == sub.client);
            match find(now, sub.terminal, sub.client) {
                Some(j) => {
                    if j != i {
                        assert(now[j] == subs[j]);
                        assert(subs[j].terminal == subs[i].terminal);
                    }
                },
                None => {},
            }
        },
    }
}

/// A terminal's frames reach its own observers only: the mailbox of a consumer
/// that does not observe `id` stays as it was.
pub proof fn law_fan_out_reaches_observers_only(
    subs: Seq<SubV>,
    n: nat,
    id: u32,
    frame: FrameKind,
    enforce: bool,
    boxes: Seq<MailboxV>,
    bytes: nat,
    frames: nat,
    other: MailboxId,
)
    requires
        n <= subs.len(),
        other.0 < boxes.len(),
        forall|i: int|
            0 <= i < subs.len() && (#[trigger] subs[i]).terminal == id ==> subs[i].mailbox != other,
    ensures
        fan(subs, n, id, frame, enforce, boxes, bytes, frames).boxes.len() == boxes.len(),
        fan(subs, n, id, frame, enforce, boxes, bytes, frames).boxes[other.0 as int]
            == boxes[other.0 as int],
    decreases n,
{
    if n > 0 {
        let m = (n - 1) as nat;
        law_fan_out_reaches_observers_only(
            subs,
            m,
            id,
            frame,
            enforce,
            boxes,
            bytes,
            frames,
            other,
        );
        let before = fan(subs, m, id, frame, enforce, boxes, bytes, frames);
        let sub = subs[m as int];
        if sub.terminal == id {
            law_deliveries_touch_one_mailbox(
                sub.gate,
                sub.mailbox,
                frame,
                enforce,
                before.boxes,
                before.bytes,
                before.frames,
                other,
            );
        }
    }
}

/// A consumer that attaches while a terminal already streams to others sees
/// nothing of that stream before its own bootstrap: a new observer with content
/// starts closed, and a closed gate without kept frames lets nothing but a
/// bootstrap through.
pub proof fn law_new_observers_start_closed(
    subs: Seq<SubV>,
    sub: ProxySubscription,
    frame: FrameKind,
    enforce: bool,
    boxes: Seq<MailboxV>,
    bytes: nat,
    frames: nat,
)
    requires
        sub.awaits_snapshot,
        find(subs, sub.terminal, sub.client) is None,
        !crate::hub::gate::is_bootstrap(frame),
    ensures
        registered(subs, sub).last().gate == GateV::AwaitingFirst,
        deliver(
            registered(subs, sub).last().gate,
            sub.mailbox,
            frame,
            enforce,
            boxes,
            bytes,
            frames,
        ).boxes == boxes,
{
}

} // verus!
