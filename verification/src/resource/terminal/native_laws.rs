//! What holds of a terminal's native side whatever is asked of it.

use super::native_bootstrap::{refusals, replay_actions, said_of};
use super::native_live::{extended, overflowed, tombstones, NativePublicationRequest};
use super::native_model::{
    hold_from, without_owner, without_requests, without_waiting, ActionV, NativeBootstrapRequest,
    NativeCursorOwner, NativeHost, NativeV, Output, PendingV, PublicationV, ReplyToken,
};
use super::native_owners::tombstone_of;
use super::native_publication::{cut_of, prepare, published_from, refuse_each, CutV, PreparedV};
use crate::native_state::cut::OpaqueHistoryCursor;
use crate::native_state::error::NativeStateError;
use crate::native_state::generation::{GenerationV, NativeGenerationBounds};
use crate::payload::contents;
use crate::wire::TombstoneReason;
use vstd::prelude::*;

verus! {

proof fn lemma_without_owner(owners: Seq<NativeCursorOwner>, n: nat, owner: u64)
    ensures
        forall|i: int|
            0 <= i < without_owner(owners, n, owner).len() ==> (#[trigger] without_owner(
                owners,
                n,
                owner,
            )[i]).owner != owner,
    decreases n,
{
    if 0 < n <= owners.len() {
        lemma_without_owner(owners, (n - 1) as nat, owner);
    }
}

proof fn lemma_without_requests(requests: Seq<NativeBootstrapRequest>, n: nat, owner: u64)
    ensures
        forall|i: int|
            0 <= i < without_requests(requests, n, owner).len() ==> (#[trigger] without_requests(
                requests,
                n,
                owner,
            )[i]).owner != owner,
    decreases n,
{
    if 0 < n <= requests.len() {
        lemma_without_requests(requests, (n - 1) as nat, owner);
    }
}

proof fn lemma_no_hold(owners: Seq<NativeCursorOwner>, owner: u64, i: int)
    requires
        0 <= i,
        forall|j: int| 0 <= j < owners.len() ==> (#[trigger] owners[j]).owner != owner,
    ensures
        hold_from(owners, owner, i) is None,
    decreases owners.len() - i,
{
    if i < owners.len() {
        lemma_no_hold(owners, owner, i + 1);
    }
}

/// A released owner holds no history and waits for no bootstrap.
pub proof fn law_released_owners_hold_nothing(host: NativeV, owner: u64)
    ensures
        ({
            let after = host.released(owner);
            &&& after.hold(owner) is None
            &&& forall|i: int|
                0 <= i < after.backlog.len() ==> (#[trigger] after.backlog[i]).owner != owner
            &&& after.pending matches Some(pending) ==> forall|i: int|
                0 <= i < pending.waiters.len() ==> (#[trigger] pending.waiters[i]).owner != owner
        }),
{
    lemma_without_requests(host.backlog, host.backlog.len(), owner);
    match host.pending {
        Some(pending) => {
            lemma_without_requests(pending.waiters, pending.waiters.len(), owner);
        },
        None => {},
    }
    match host.hold(owner) {
        Some(_) => {
            lemma_without_owner(host.owners, host.owners.len(), owner);
            lemma_no_hold(host.released(owner).owners, owner, 0);
        },
        None => {},
    }
}

/// Every waiter is answered exactly once, in the order they came.
pub proof fn law_every_waiter_is_refused_once(
    waiters: Seq<NativeBootstrapRequest>,
    n: nat,
    error: NativeStateError,
)
    requires
        n <= waiters.len(),
    ensures
        refusals(waiters, n, error).len() == n,
        forall|i: int|
            0 <= i < n ==> #[trigger] refusals(waiters, n, error)[i] == ActionV::Refuse(
                waiters[i].reply,
                error,
            ),
    decreases n,
{
    if n > 0 {
        law_every_waiter_is_refused_once(waiters, (n - 1) as nat, error);
    }
}

/// Whether `action` is the answer to a request: a bootstrap or a refusal.
pub open spec fn answers(action: ActionV, reply: ReplyToken) -> bool {
    match action {
        ActionV::Refuse(to, _) => to == reply,
        ActionV::Answer(to, _, _) => to == reply,
        _ => false,
    }
}

/// How many of `said` answer `reply`.
pub open spec fn answers_to(said: Seq<ActionV>, reply: ReplyToken) -> nat
    decreases said.len(),
{
    if said.len() == 0 {
        0
    } else {
        answers_to(said.drop_last(), reply) + (if answers(said.last(), reply) {
            1nat
        } else {
            0
        })
    }
}

/// How many of `waiters` wait for `reply`.
pub open spec fn requests_for(waiters: Seq<NativeBootstrapRequest>, reply: ReplyToken) -> nat
    decreases waiters.len(),
{
    if waiters.len() == 0 {
        0
    } else {
        requests_for(waiters.drop_last(), reply) + (if waiters.last().reply == reply {
            1nat
        } else {
            0
        })
    }
}

spec fn prepared_for(prepared: Seq<PreparedV>, reply: ReplyToken) -> nat
    decreases prepared.len(),
{
    if prepared.len() == 0 {
        0
    } else {
        prepared_for(prepared.drop_last(), reply) + (if prepared.last().req.reply == reply {
            1nat
        } else {
            0
        })
    }
}

proof fn lemma_answers_push(said: Seq<ActionV>, action: ActionV, reply: ReplyToken)
    ensures
        answers_to(said.push(action), reply) == answers_to(said, reply) + (if answers(
            action,
            reply,
        ) {
            1nat
        } else {
            0
        }),
{
    assert(said.push(action).drop_last() =~= said);
}

proof fn lemma_answers_join(first: Seq<ActionV>, second: Seq<ActionV>, reply: ReplyToken)
    ensures
        answers_to(first + second, reply) == answers_to(first, reply) + answers_to(second, reply),
    decreases second.len(),
{
    if second.len() == 0 {
        assert(first + second =~= first);
    } else {
        lemma_answers_join(first, second.drop_last(), reply);
        assert((first + second).drop_last() =~= first + second.drop_last());
    }
}

proof fn lemma_prepared_answers(
    waiters: Seq<NativeBootstrapRequest>,
    n: nat,
    cut: CutV,
    reply: ReplyToken,
)
    requires
        n <= waiters.len(),
    ensures
        answers_to(prepare(waiters, n, cut).1, reply) + prepared_for(
            prepare(waiters, n, cut).0,
            reply,
        ) == requests_for(waiters.take(n as int), reply),
        only_answers(prepare(waiters, n, cut).1),
    decreases n,
{
    if n > 0 {
        lemma_prepared_answers(waiters, (n - 1) as nat, cut, reply);
        let (prepared, said) = prepare(waiters, (n - 1) as nat, cut);
        let (after, more) = prepare(waiters, n, cut);
        assert(waiters.take(n as int).drop_last() =~= waiters.take(n - 1));
        if after.len() > prepared.len() {
            assert(after.drop_last() =~= prepared);
        } else {
            lemma_answers_push(said, more.last(), reply);
            assert(more =~= said.push(more.last()));
        }
    }
}

proof fn lemma_refused_answers(
    prepared: Seq<PreparedV>,
    n: nat,
    error: NativeStateError,
    reply: ReplyToken,
)
    requires
        n <= prepared.len(),
    ensures
        answers_to(refuse_each(prepared, n, error), reply) == prepared_for(
            prepared.take(n as int),
            reply,
        ),
        only_answers(refuse_each(prepared, n, error)),
    decreases n,
{
    if n > 0 {
        lemma_refused_answers(prepared, (n - 1) as nat, error, reply);
        let said = refuse_each(prepared, (n - 1) as nat, error);
        lemma_answers_push(said, ActionV::Refuse(prepared[n - 1].req.reply, error), reply);
        assert(prepared.take(n as int).drop_last() =~= prepared.take(n - 1));
    }
}

proof fn lemma_registered_answers(
    host: NativeV,
    prepared: Seq<PreparedV>,
    n: nat,
    cursor: OpaqueHistoryCursor,
    installed_new: bool,
    gone: Seq<ReplyToken>,
    now_ms: u64,
    reply: ReplyToken,
)
    requires
        n <= prepared.len(),
    ensures
        ({
            let said = host.registered(prepared, n, cursor, installed_new, gone, now_ms).said;
            let asked = prepared_for(prepared.take(n as int), reply);
            &&& answers_to(said, reply) <= asked
            &&& !gone.contains(reply) ==> answers_to(said, reply) == asked
            &&& only_answers(said)
        }),
    decreases n,
{
    if n > 0 {
        lemma_registered_answers(
            host,
            prepared,
            (n - 1) as nat,
            cursor,
            installed_new,
            gone,
            now_ms,
            reply,
        );
        let before = host.registered(
            prepared,
            (n - 1) as nat,
            cursor,
            installed_new,
            gone,
            now_ms,
        ).said;
        let after = host.registered(prepared, n, cursor, installed_new, gone, now_ms).said;
        assert(prepared.take(n as int).drop_last() =~= prepared.take(n - 1));
        if after.len() > before.len() {
            lemma_answers_push(before, after.last(), reply);
            assert(after =~= before.push(after.last()));
        } else {
            assert(after == before);
        }
    }
}

/// Whether `said` is nothing but answers to requests.
pub open spec fn only_answers(said: Seq<ActionV>) -> bool {
    forall|i: int| 0 <= i < said.len() ==> #[trigger] said[i] is Refuse || said[i] is Answer
}

/// A capture that reached READY answers everybody who waited exactly once, with
/// a bootstrap or a refusal, and says nothing else. Whoever takes the answer no
/// more is at most refused.
pub proof fn law_every_waiter_is_answered_once(
    host: NativeV,
    pending: PendingV,
    cursor: OpaqueHistoryCursor,
    bounds: NativeGenerationBounds,
    room: bool,
    gone: Seq<ReplyToken>,
    cols: u16,
    rows: u16,
    now_ms: u64,
    reply: ReplyToken,
)
    ensures
        ({
            let said = host.published(
                pending,
                cursor,
                bounds,
                room,
                gone,
                cols,
                rows,
                now_ms,
            ).1;
            &&& only_answers(said)
            &&& answers_to(said, reply) <= requests_for(pending.waiters, reply)
            &&& !gone.contains(reply) ==> answers_to(said, reply) == requests_for(
                pending.waiters,
                reply,
            )
        }),
{
    let cut = cut_of(pending, cursor@, cols, rows);
    let waiters = pending.waiters;
    let (prepared, first) = prepare(waiters, waiters.len(), cut);
    lemma_prepared_answers(waiters, waiters.len(), cut, reply);
    assert(waiters.take(waiters.len() as int) =~= waiters);
    assert(prepared.take(prepared.len() as int) =~= prepared);
    let error = NativeStateError::LimitExceeded;
    lemma_refused_answers(prepared, prepared.len(), error, reply);
    lemma_answers_join(first, refuse_each(prepared, prepared.len(), error), reply);
    let known = host.generations.contains_key(cursor@);
    let there = if known || !room {
        host
    } else {
        NativeV {
            generations: host.generations.insert(cursor@, GenerationV::fresh(cursor@, bounds)),
            ..host
        }
    };
    lemma_registered_answers(
        there,
        prepared,
        prepared.len(),
        cursor,
        !known,
        gone,
        now_ms,
        reply,
    );
    let done = there.registered(prepared, prepared.len(), cursor, !known, gone, now_ms);
    lemma_answers_join(first, done.said, reply);
}

/// Letting go never makes more count against the capacity: what is gone and
/// counts was there before.
pub proof fn law_letting_go_frees_room(before: NativeHost, after: NativeHost)
    requires
        before.wf(),
        after.wf(),
        before.sheds(after),
    ensures
        after@.generations.len() + after.retired().len() <= before@.generations.len()
            + before.retired().len(),
{
    let had = before@.generations.dom();
    let left = after@.generations.dom();
    let more = after.retired().skip(before.retired().len() as int);
    assert(had.finite() && left.finite()) by {
        lemma_generations_finite(before);
        lemma_generations_finite(after);
    }
    more.unique_seq_to_set();
    vstd::seq_lib::seq_to_set_is_finite(more);
    assert(left.disjoint(more.to_set())) by {
        assert forall|cursor: Seq<u8>| more.to_set().contains(cursor) implies !left.contains(
            cursor,
        ) by {
            let i = choose|i: int| 0 <= i < more.len() && more[i] == cursor;
            assert(more[i] == after.retired()[before.retired().len() + i]);
        }
    }
    assert((left + more.to_set()).subset_of(had)) by {
        assert forall|cursor: Seq<u8>| (left + more.to_set()).contains(cursor) implies had.contains(
            cursor,
        ) by {
            if left.contains(cursor) {
                assert(after@.generations.contains_key(cursor));
            } else {
                let i = choose|i: int| 0 <= i < more.len() && more[i] == cursor;
                assert(more[i] == after.retired()[before.retired().len() + i]);
            }
        }
    }
    vstd::set_lib::lemma_set_disjoint_lens(left, more.to_set());
    vstd::set_lib::lemma_len_subset(left + more.to_set(), had);
}

proof fn lemma_generations_finite(host: NativeHost)
    requires
        host.wf(),
    ensures
        host@.generations.dom().finite(),
{
    match host.manager {
        Ok(manager) => {
            manager.lemma_valid();
        },
        Err(_) => {},
    }
}

/// A failed capture gives the terminal back, writes the output that was held
/// back, and refuses every waiter, before anything else starts.
pub proof fn law_failures_reach_every_waiter(host: NativeV, error: NativeStateError)
    requires
        host.pending is Some,
    ensures
        ({
            let pending = host.pending->Some_0;
            let (after, said) = host.failed(error);
            let told = refusals(pending.waiters, pending.waiters.len(), said_of(error));
            &&& pending.replay.len() > 0 ==> host.drop_actions().contains(
                ActionV::Replay(pending.replay),
            )
            &&& pending.capture is Some ==> host.drop_actions().contains(ActionV::Abort)
            &&& (host.drop_actions() + told).is_prefix_of(said)
            &&& host.backlog.len() == 0 ==> after.pending is None && !after.capture_active
        }),
{
    let pending = host.pending->Some_0;
    let (_, said) = host.failed(error);
    let told = refusals(pending.waiters, pending.waiters.len(), said_of(error));
    assert((host.drop_actions() + told) =~= said.take((host.drop_actions() + told).len() as int));
    if pending.replay.len() > 0 {
        assert(host.drop_actions().last() == ActionV::Replay(pending.replay));
    }
    if pending.capture is Some {
        assert(host.drop_actions()[0] == ActionV::Abort);
    }
    assert(replay_actions(pending.replay).len() <= 1);
}

proof fn lemma_tombstones(
    owners: Seq<NativeCursorOwner>,
    n: nat,
    reason: TombstoneReason,
    last_valid_seq: u64,
)
    requires
        n <= owners.len(),
    ensures
        tombstones(owners, n, reason, last_valid_seq).len() == n,
        forall|i: int|
            0 <= i < n ==> #[trigger] tombstones(owners, n, reason, last_valid_seq)[i]
                == tombstone_of(owners[i], reason, last_valid_seq),
    decreases n,
{
    if n > 0 {
        lemma_tombstones(owners, (n - 1) as nat, reason, last_valid_seq);
    }
}

/// Whether everybody who held a history is told that it ended: once each, and
/// last.
pub open spec fn tells_every_holder(
    owners: Seq<NativeCursorOwner>,
    said: Seq<ActionV>,
    reason: TombstoneReason,
    last_valid_seq: u64,
) -> bool {
    &&& said.len() >= owners.len()
    &&& forall|i: int|
        0 <= i < owners.len() ==> said[said.len() - owners.len() + i] == tombstone_of(
            #[trigger] owners[i],
            reason,
            last_valid_seq,
        )
}

/// Ending everything leaves nothing pending, in line, held or published, and
/// tells everybody who held a history.
pub proof fn law_ending_leaves_nothing(
    host: NativeV,
    reason: TombstoneReason,
    last_valid_seq: u64,
)
    ensures
        ({
            let (after, said) = host.ended(reason, last_valid_seq);
            &&& after.pending is None
            &&& after.backlog.len() == 0
            &&& after.owners.len() == 0
            &&& after.publications.len() == 0
            &&& host.pending is Some ==> !after.capture_active
            &&& tells_every_holder(host.owners, said, reason, last_valid_seq)
        }),
{
    let (after, said) = host.ended(reason, last_valid_seq);
    let told = tombstones(host.owners, host.owners.len(), reason, last_valid_seq);
    lemma_tombstones(host.owners, host.owners.len(), reason, last_valid_seq);
    let cleared = NativeV { backlog: Seq::empty(), ..host };
    let (failed, first) = cleared.failed(NativeStateError::Resize);
    assert(failed.owners == host.owners);
    assert(said =~= first + told);
    assert forall|i: int| 0 <= i < host.owners.len() implies said[said.len() - host.owners.len()
        + i] == tombstone_of(#[trigger] host.owners[i], reason, last_valid_seq) by {
        assert(said[said.len() - host.owners.len() + i] == told[i]);
    }
}

/// Whether everything that is held back or replayed keeps within the bound.
pub open spec fn replay_bounded(host: NativeV) -> bool {
    &&& host.pending matches Some(pending) ==> pending.replay_bytes
        <= host.budgets.max_replay_bytes
    &&& publications_bounded(host.publications, host.budgets.max_replay_bytes as int)
}

/// Whether every publication's replay keeps within the bound.
pub open spec fn publications_bounded(publications: Seq<PublicationV>, most: int) -> bool {
    forall|i: int|
        0 <= i < publications.len() ==> (#[trigger] publications[i]).replay_bytes <= most
}

proof fn lemma_extended_bounded(
    publications: Seq<PublicationV>,
    n: nat,
    output: Output,
    most: int,
)
    requires
        n <= publications.len(),
        publications_bounded(publications, most),
    ensures
        extended(publications, n, output, most).len() == n,
        publications_bounded(extended(publications, n, output, most), most),
    decreases n,
{
    if n > 0 {
        lemma_extended_bounded(publications, (n - 1) as nat, output, most);
        let before = extended(publications, (n - 1) as nat, output, most);
        let after = extended(publications, n, output, most);
        assert(publications[n - 1].replay_bytes <= most);
        assert forall|i: int| 0 <= i < after.len() implies (#[trigger] after[i]).replay_bytes
            <= most by {
            if i < before.len() {
                assert(after[i] == before[i]);
            }
        }
    }
}

/// Live output that would exceed the bound is not held back: the capture fails,
/// its waiters are refused, and what was held back so far is written. Otherwise
/// it is held back, in order, and the bound is kept.
pub proof fn law_held_output_stays_bounded(host: NativeV, output: Output)
    requires
        replay_bounded(host),
    ensures
        ({
            let (after, said, deferred) = host.held(output);
            &&& replay_bounded(after)
            &&& deferred <==> after.pending is Some && host.pending is Some
            &&& deferred ==> said.len() == 0 && after.pending->Some_0.replay
                == host.pending->Some_0.replay.push(output)
            &&& publications_bounded(
                extended(
                    after.publications,
                    after.publications.len(),
                    output,
                    after.budgets.max_replay_bytes as int,
                ),
                after.budgets.max_replay_bytes as int,
            )
        }),
{
    let (after, _, _) = host.held(output);
    lemma_extended_bounded(
        after.publications,
        after.publications.len(),
        output,
        after.budgets.max_replay_bytes as int,
    );
}

/// Whoever picks a publication up gets what was kept for it, and is not waited
/// for any longer: a second attempt is refused.
pub proof fn law_publications_are_picked_up_once(host: NativeV, req: NativePublicationRequest)
    requires
        host.picked_up(req).1 is Ok,
        forall|i: int, j: int|
            0 <= i < j < host.publications.len() ==> (#[trigger] host.publications[i]).cursor != (
            #[trigger] host.publications[j]).cursor,
    ensures
        host.picked_up(req).0.picked_up(req).1 is Err,
{
    lemma_published(host.publications, req.cursor@, 0);
    let i = published_from(host.publications, req.cursor@, 0)->Some_0;
    let publication = host.publications[i];
    let waiting = without_waiting(publication.waiting, publication.waiting.len(), req.owner);
    lemma_without_waiting(publication.waiting, publication.waiting.len(), req.owner);
    let after = host.picked_up(req).0;
    assert(after.hold(req.owner) == host.hold(req.owner));
    lemma_published(after.publications, req.cursor@, 0);
    match published_from(after.publications, req.cursor@, 0) {
        Some(k) => {
            if waiting.len() == 0 {
                let was = if k < i {
                    k
                } else {
                    k + 1
                };
                assert(after.publications[k] == host.publications[was]);
                assert(was != i);
                assert(false);
            } else {
                assert(after.publications[k].waiting == waiting) by {
                    if k != i {
                        assert(after.publications[k] == host.publications[k]);
                        if k < i {
                            assert(host.publications[k].cursor != host.publications[i].cursor);
                        } else {
                            assert(host.publications[i].cursor != host.publications[k].cursor);
                        }
                    }
                }
            }
        },
        None => {},
    }
}

proof fn lemma_without_waiting(waiting: Seq<u64>, n: nat, owner: u64)
    ensures
        !without_waiting(waiting, n, owner).contains(owner),
    decreases n,
{
    if 0 < n <= waiting.len() {
        lemma_without_waiting(waiting, (n - 1) as nat, owner);
        let before = without_waiting(waiting, (n - 1) as nat, owner);
        let after = without_waiting(waiting, n, owner);
        if waiting[n - 1] != owner {
            assert forall|i: int| 0 <= i < after.len() implies after[i] != owner by {
                if i < before.len() {
                    assert(after[i] == before[i]);
                    assert(before.contains(before[i]));
                }
            }
        }
    }
}

proof fn lemma_published(publications: Seq<PublicationV>, cursor: Seq<u8>, i: int)
    requires
        0 <= i,
    ensures
        published_from(publications, cursor, i) matches Some(k) ==> i
            <= k < publications.len() && publications[k].cursor == cursor,
    decreases publications.len() - i,
{
    if i < publications.len() && publications[i].cursor != cursor {
        lemma_published(publications, cursor, i + 1);
    }
}

/// A publication that one more output does not fit is among those that end.
pub proof fn law_overflowing_publications_end(
    publications: Seq<PublicationV>,
    n: nat,
    output: Output,
    most: int,
    i: int,
)
    requires
        0 <= i < n <= publications.len(),
    ensures
        publications[i].replay_bytes + contents(output.bytes).len() > most ==> overflowed(
            publications,
            n,
            output,
            most,
        ).contains(publications[i].cursor),
    decreases n,
{
    let before = overflowed(publications, (n - 1) as nat, output, most);
    let after = overflowed(publications, n, output, most);
    if publications[i].replay_bytes + contents(output.bytes).len() > most {
        if i == n - 1 {
            assert(after.last() == publications[i].cursor);
        } else {
            law_overflowing_publications_end(publications, (n - 1) as nat, output, most, i);
            let k = choose|k: int| 0 <= k < before.len() && before[k] == publications[i].cursor;
            assert(after[k] == publications[i].cursor);
        }
    }
}

} // verus!
