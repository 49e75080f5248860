//! What the holders of a history can rely on: whose hold it is, what each page
//! holds, and how a hold ends.

use super::native_history::{reason_for, HistoryStart, NativeHistoryRequest};
use super::native_live::{let_go_each, targets, ResyncTarget};
use super::native_model::{
    hold_from, let_go, stream_view, without_owner, without_requests, ActionV,
    NativeBootstrapRequest, NativeCursorOwner, NativeV, StreamV,
};
use super::native_owners::{expired_owners, expiry_of, tombstone_of};
use crate::native_state::error::NativeStateError;
use crate::native_state::generation::{GenerationV, RecordV};
use crate::payload::contents;
use crate::wire::{
    FrameKind, HistoryRejectionReason, HistoryTombstoneReason, TombstoneReason,
};
use vstd::prelude::*;

verus! {

proof fn lemma_hold_pushed(
    owners: Seq<NativeCursorOwner>,
    last: NativeCursorOwner,
    owner: u64,
    i: int,
)
    requires
        0 <= i <= owners.len(),
    ensures
        hold_from(owners.push(last), owner, i) == (match hold_from(owners, owner, i) {
            Some(binding) => Some(binding),
            None => if last.owner == owner {
                Some(last)
            } else {
                None
            },
        }),
    decreases owners.len() - i,
{
    if i < owners.len() {
        assert(owners.push(last)[i] == owners[i]);
        if owners[i].owner != owner {
            lemma_hold_pushed(owners, last, owner, i + 1);
        }
    } else {
        assert(owners.push(last)[i] == last);
        if last.owner != owner {
            assert(hold_from(owners.push(last), owner, i + 1) is None);
        }
    }
}

proof fn lemma_others_hold(owners: Seq<NativeCursorOwner>, n: nat, owner: u64, other: u64)
    requires
        n <= owners.len(),
    ensures
        hold_from(without_owner(owners, n, owner), other, 0) == (if other == owner {
            None
        } else {
            hold_from(owners.take(n as int), other, 0)
        }),
    decreases n,
{
    if n > 0 {
        lemma_others_hold(owners, (n - 1) as nat, owner, other);
        let before = without_owner(owners, (n - 1) as nat, owner);
        assert(owners.take(n as int) == owners.take(n - 1).push(owners[n - 1]));
        lemma_hold_pushed(owners.take(n - 1), owners[n - 1], other, 0);
        lemma_hold_pushed(before, owners[n - 1], other, 0);
    }
}

proof fn lemma_other_requests(
    requests: Seq<NativeBootstrapRequest>,
    n: nat,
    owner: u64,
    req: NativeBootstrapRequest,
)
    requires
        n <= requests.len(),
    ensures
        without_requests(requests, n, owner).contains(req) <==> req.owner != owner && exists|
            i: int,
        |
            0 <= i < n && #[trigger] requests[i] == req,
    decreases n,
{
    if n > 0 {
        let before = without_requests(requests, (n - 1) as nat, owner);
        let now = without_requests(requests, n, owner);
        lemma_other_requests(requests, (n - 1) as nat, owner, req);
        if before.contains(req) {
            let k = choose|k: int| 0 <= k < before.len() && before[k] == req;
            assert(now[k] == req);
        }
        if requests[n - 1] == req && req.owner != owner {
            assert(now[before.len() as int] == req);
        }
        if now.contains(req) && !before.contains(req) {
            let k = choose|k: int| 0 <= k < now.len() && now[k] == req;
            if k < before.len() {
                assert(before[k] == req);
            }
            assert(requests[n - 1] == req);
        }
    }
}

/// Whoever is released loses its own hold and its own requests; everyone else
/// keeps theirs. The capture that runs goes on, with what it gathered.
pub proof fn law_releasing_spares_the_others(
    host: NativeV,
    owner: u64,
    other: u64,
    req: NativeBootstrapRequest,
)
    requires
        other != owner,
    ensures
        ({
            let after = host.released(owner);
            &&& after.hold(other) == host.hold(other)
            &&& after.hold(owner) is None
            &&& after.backlog.contains(req) <==> host.backlog.contains(req) && req.owner != owner
            &&& after.pending is Some <==> host.pending is Some
            &&& host.pending matches Some(pending) ==> {
                let left = after.pending->Some_0;
                &&& left.waiters.contains(req) <==> pending.waiters.contains(req) && req.owner
                    != owner
                &&& left.records == pending.records
                &&& left.replay == pending.replay
                &&& left.phase == pending.phase
                &&& left.base_seq == pending.base_seq
            }
            &&& after.capture_active == host.capture_active
            &&& after.budgets == host.budgets
            &&& host.hold(owner) is None ==> after.publications == host.publications
                && after.generations == host.generations
        }),
{
    lemma_others_hold(host.owners, host.owners.len(), owner, other);
    lemma_others_hold(host.owners, host.owners.len(), owner, owner);
    assert(host.owners.take(host.owners.len() as int) == host.owners);
    lemma_other_requests(host.backlog, host.backlog.len(), owner, req);
    if host.pending is Some {
        let waiters = host.pending->Some_0.waiters;
        lemma_other_requests(waiters, waiters.len(), owner, req);
    }
}

/// A new hold takes the place of its owner's former one, and of nobody else's.
pub proof fn law_rebinding_replaces_one_hold(
    owners: Seq<NativeCursorOwner>,
    binding: NativeCursorOwner,
    other: u64,
)
    requires
        other != binding.owner,
    ensures
        ({
            let after = without_owner(owners, owners.len(), binding.owner).push(binding);
            &&& hold_from(after, binding.owner, 0) == Some(binding)
            &&& hold_from(after, other, 0) == hold_from(owners, other, 0)
        }),
{
    let left = without_owner(owners, owners.len(), binding.owner);
    lemma_others_hold(owners, owners.len(), binding.owner, other);
    lemma_others_hold(owners, owners.len(), binding.owner, binding.owner);
    assert(owners.take(owners.len() as int) == owners);
    lemma_hold_pushed(left, binding, binding.owner, 0);
    lemma_hold_pushed(left, binding, other, 0);
}

/// A history that is let go of has one holder less; the last one to go takes it
/// along. No other history changes.
pub proof fn law_histories_count_their_holders(
    generations: Map<Seq<u8>, GenerationV>,
    cursor: Seq<u8>,
    other: Seq<u8>,
)
    requires
        generations.contains_key(cursor),
        other != cursor,
    ensures
        ({
            let after = let_go(generations, cursor);
            &&& generations[cursor].owners > 1 ==> after.contains_key(cursor)
                && after[cursor].owners == generations[cursor].owners - 1 && after[cursor].records
                == generations[cursor].records && after[cursor].failure
                == generations[cursor].failure && after[cursor].live == generations[cursor].live
                && after[cursor].pending == generations[cursor].pending
            &&& generations[cursor].owners <= 1 ==> !after.contains_key(cursor)
            &&& after.contains_key(other) <==> generations.contains_key(other)
            &&& generations.contains_key(other) ==> after[other] == generations[other]
        }),
{
}

/// Histories that are not there need no letting go.
pub proof fn law_missing_histories_are_let_go_of(
    generations: Map<Seq<u8>, GenerationV>,
    cursor: Seq<u8>,
)
    requires
        !generations.contains_key(cursor),
    ensures
        let_go(generations, cursor) == generations,
{
}

/// What a holder is told names its own terminal, stream and bootstrap: that its
/// bootstrap is over, why, and up to which output it was good; or that its
/// cursor expired.
pub proof fn law_holders_are_told_of_their_own(
    binding: NativeCursorOwner,
    reason: TombstoneReason,
    last_valid_seq: u64,
)
    ensures
        tombstone_of(binding, reason, last_valid_seq) matches ActionV::Control(
            owner,
            StreamV::Tombstone {
                terminal_id,
                stream_id,
                bootstrap_id,
                reason: why,
                last_valid_seq: last,
            },
        ) && owner == binding.owner && terminal_id == binding.terminal_id && stream_id
            == binding.stream_id && bootstrap_id == binding.bootstrap_id && why == reason && last
            == last_valid_seq,
        expiry_of(binding) matches ActionV::Control(
            owner,
            StreamV::HistoryTombstone { terminal_id, stream_id, bootstrap_id, cursor, reason: why },
        ) && owner == binding.owner && terminal_id == binding.terminal_id && stream_id
            == binding.stream_id && bootstrap_id == binding.bootstrap_id && cursor
            == binding.cursor@ && why == HistoryTombstoneReason::Expired,
{
}

/// Whoever starts over is told first that what it had is over.
pub proof fn law_invalidating_ends_one_hold(
    host: NativeV,
    owner: u64,
    reason: TombstoneReason,
    last_valid_seq: u64,
)
    ensures
        ({
            let (after, said) = host.invalidated(owner, reason, last_valid_seq);
            &&& after == host.released(owner)
            &&& after.hold(owner) is None
            &&& host.hold(owner) is None ==> said.len() == 0
            &&& host.hold(owner) matches Some(binding) ==> said.len() == 1 && (
            said[0] matches ActionV::Control(to, StreamV::Tombstone { reason: why, .. }) && to
                == binding.owner && why == reason)
        }),
{
    lemma_others_hold(host.owners, host.owners.len(), owner, owner);
}

proof fn lemma_expired(
    owners: Seq<NativeCursorOwner>,
    n: nat,
    now_ms: u64,
    ttl_ms: u64,
    owner: u64,
)
    requires
        n <= owners.len(),
    ensures
        expired_owners(owners, n, now_ms, ttl_ms).contains(owner) <==> exists|i: int|
            0 <= i < n && (#[trigger] owners[i]).owner == owner && owners[i].touched_ms + ttl_ms
                <= now_ms,
    decreases n,
{
    if n > 0 {
        let before = expired_owners(owners, (n - 1) as nat, now_ms, ttl_ms);
        let now = expired_owners(owners, n, now_ms, ttl_ms);
        lemma_expired(owners, (n - 1) as nat, now_ms, ttl_ms, owner);
        if before.contains(owner) {
            let k = choose|k: int| 0 <= k < before.len() && before[k] == owner;
            assert(now[k] == owner);
        }
        if owners[n - 1].owner == owner && owners[n - 1].touched_ms + ttl_ms <= now_ms {
            assert(now[before.len() as int] == owner);
        }
        if now.contains(owner) && !before.contains(owner) {
            let k = choose|k: int| 0 <= k < now.len() && now[k] == owner;
            if k < before.len() {
                assert(before[k] == owner);
            }
            assert(owners[n - 1].owner == owner);
        }
    }
}

/// A hold expires exactly when it was not touched for its time to live.
pub proof fn law_holds_expire_when_untouched(
    owners: Seq<NativeCursorOwner>,
    now_ms: u64,
    ttl_ms: u64,
    owner: u64,
)
    ensures
        expired_owners(owners, owners.len(), now_ms, ttl_ms).contains(owner) <==> exists|i: int|
            0 <= i < owners.len() && (#[trigger] owners[i]).owner == owner && owners[i].touched_ms
                + ttl_ms <= now_ms,
{
    lemma_expired(owners, owners.len(), now_ms, ttl_ms, owner);
}

/// Each owner that expires loses its hold and is told so, in turn; what was said
/// before stays said, and the holds of owners that did not expire stay.
pub proof fn law_expiry_is_told_to_the_holder(host: NativeV, ids: Seq<u64>, owner: u64, other: u64)
    requires
        other != owner,
    ensures
        ({
            let (mid, said) = host.expired(ids, ids.len());
            let (after, more) = host.expired(ids.push(owner), ids.len() + 1);
            &&& after.hold(owner) is None
            &&& after.hold(other) == mid.hold(other)
            &&& said.is_prefix_of(more)
            &&& mid.hold(owner) matches Some(binding) ==> more.len() == said.len() + 1 && (
            more.last() matches ActionV::Control(
                to,
                StreamV::HistoryTombstone { reason, cursor, .. },
            ) && to == binding.owner && cursor == binding.cursor@ && reason
                == HistoryTombstoneReason::Expired)
            &&& mid.hold(owner) is None ==> more == said && after == mid
        }),
{
    let longer = ids.push(owner);
    lemma_expired_prefix(host, ids, owner, ids.len());
    let (mid, said) = host.expired(ids, ids.len());
    assert(longer[ids.len() as int] == owner);
    lemma_others_hold(mid.owners, mid.owners.len(), owner, owner);
    lemma_others_hold(mid.owners, mid.owners.len(), owner, other);
    assert(mid.owners.take(mid.owners.len() as int) == mid.owners);
}

proof fn lemma_expired_prefix(host: NativeV, ids: Seq<u64>, owner: u64, n: nat)
    requires
        n <= ids.len(),
    ensures
        host.expired(ids.push(owner), n) == host.expired(ids, n),
    decreases n,
{
    if n > 0 {
        lemma_expired_prefix(host, ids, owner, (n - 1) as nat);
        assert(ids.push(owner)[n - 1] == ids[n - 1]);
    }
}

proof fn lemma_targets(owners: Seq<NativeCursorOwner>, n: nat)
    requires
        n <= owners.len(),
    ensures
        targets(owners, n).len() == n,
        forall|i: int|
            0 <= i < n ==> (#[trigger] targets(owners, n)[i]).owner == owners[i].owner && targets(
                owners,
                n,
            )[i].stream_id == owners[i].stream_id && targets(owners, n)[i].bootstrap_id
                == owners[i].bootstrap_id,
    decreases n,
{
    if n > 0 {
        lemma_targets(owners, (n - 1) as nat);
    }
}

/// Everyone with a hold is resynchronised, each on its own stream and bootstrap,
/// in the order of the holds.
pub proof fn law_every_holder_is_resynchronised(owners: Seq<NativeCursorOwner>)
    ensures
        ({
            let all = targets(owners, owners.len());
            &&& all.len() == owners.len()
            &&& forall|i: int|
                0 <= i < owners.len() ==> {
                    let target: ResyncTarget = #[trigger] all[i];
                    &&& target.owner == owners[i].owner
                    &&& target.stream_id == owners[i].stream_id
                    &&& target.bootstrap_id == owners[i].bootstrap_id
                }
        }),
{
    lemma_targets(owners, owners.len());
}

/// The owner's hold is on the very cursor, terminal, stream and bootstrap that
/// the request names.
pub open spec fn asks_for_its_own(host: NativeV, req: NativeHistoryRequest) -> bool {
    host.hold(req.owner) matches Some(binding) && binding.cursor@ == contents(req.cursor)
        && binding.terminal_id@ == req.terminal_id@ && binding.stream_id == req.stream_id
        && binding.bootstrap_id == req.bootstrap_id
}

/// A history request is served exactly where its owner holds what it names, the
/// cursor has its length, and there is room for something: from where the owner
/// stands, under the number that comes next, within the smaller of the two byte
/// bounds. Without room it is rejected; otherwise it is stale.
pub proof fn law_history_is_served_to_its_holder(host: NativeV, req: NativeHistoryRequest)
    ensures
        ({
            let start = host.history_start(req);
            let mine = contents(req.cursor).len() == 32 && asks_for_its_own(host, req);
            let room = req.max_bytes > 0 && req.limits.max_history_page_bytes > 0 && req.max_rows
                > 0;
            &&& start is Serve <==> mine && room
            &&& start matches HistoryStart::Serve { record_index, page_seq, bound } ==> {
                let binding = host.hold(req.owner)->Some_0;
                &&& record_index == binding.record_index
                &&& page_seq == binding.next_page_seq
                &&& bound <= req.max_bytes
                &&& bound <= req.limits.max_history_page_bytes
                &&& bound == req.max_bytes || bound == req.limits.max_history_page_bytes
            }
            &&& mine && !room ==> (start matches HistoryStart::Answer(
                StreamV::Rejected { reason, required_bytes, required_rows, .. },
            ) && reason == HistoryRejectionReason::ZeroLimit && required_bytes == 1
                && required_rows == 1)
            &&& !mine ==> (start matches HistoryStart::Answer(
                StreamV::HistoryTombstone { reason, .. },
            ) && reason == HistoryTombstoneReason::Stale)
        }),
{
}

/// Whatever a request is answered with, the answer is about the request: its
/// terminal, stream, bootstrap and cursor.
pub open spec fn about(answer: StreamV, req: NativeHistoryRequest) -> bool {
    match answer {
        StreamV::Page { terminal_id, stream_id, bootstrap_id, cursor, .. } => terminal_id
            == req.terminal_id && stream_id == req.stream_id && bootstrap_id == req.bootstrap_id
            && cursor == contents(req.cursor),
        StreamV::HistoryTombstone { terminal_id, stream_id, bootstrap_id, cursor, .. } =>
            terminal_id == req.terminal_id && stream_id == req.stream_id && bootstrap_id
                == req.bootstrap_id && cursor == contents(req.cursor),
        StreamV::Rejected { terminal_id, stream_id, bootstrap_id, cursor, .. } => terminal_id
            == req.terminal_id && stream_id == req.stream_id && bootstrap_id == req.bootstrap_id
            && cursor == contents(req.cursor),
        _ => false,
    }
}

/// Every answer to a history request is about that request.
pub proof fn law_history_answers_are_about_their_request(
    host: NativeV,
    req: NativeHistoryRequest,
    page_seq: u64,
    bound: u32,
    delivery: Result<RecordV, NativeStateError>,
    now_ms: u64,
)
    ensures
        host.history_start(req) matches HistoryStart::Answer(answer) ==> about(answer, req),
        host.delivered(req, page_seq, bound, delivery, now_ms).answer matches Ok(answer) ==> about(
            answer,
            req,
        ),
{
}

/// A page holds the record itself: its bytes and its rows, under the number that
/// was next. The cursor goes on exactly while the record is not the last.
pub proof fn law_pages_hold_their_record(
    host: NativeV,
    req: NativeHistoryRequest,
    page_seq: u64,
    bound: u32,
    record: RecordV,
    now_ms: u64,
)
    requires
        page_seq < u64::MAX,
        record.rows <= u32::MAX,
    ensures
        ({
            let done = host.delivered(req, page_seq, bound, Ok(record), now_ms);
            &&& done.answer matches Ok(
                StreamV::Page { page_seq: number, payload, rows, next_cursor, .. },
            )
            &&& number == page_seq
            &&& payload == record.bytes
            &&& rows == record.rows
            &&& record.finish <==> next_cursor is None
            &&& !record.finish ==> next_cursor == Some(contents(req.cursor))
            &&& done.keep <==> !record.finish
        }),
{
}

proof fn lemma_moved_others(
    owners: Seq<NativeCursorOwner>,
    n: nat,
    owner: u64,
    next_page_seq: u64,
    now_ms: u64,
    other: u64,
)
    requires
        n <= owners.len(),
    ensures
        ({
            let after = super::native_history::moved_on(owners, n, owner, next_page_seq, now_ms);
            match hold_from(owners.take(n as int), other, 0) {
                None => hold_from(after, other, 0) is None,
                Some(binding) => if other != owner {
                    hold_from(after, other, 0) == Some(binding)
                } else {
                    &&& hold_from(after, other, 0) matches Some(now)
                    &&& now.owner == binding.owner
                    &&& now.cursor == binding.cursor
                    &&& now.terminal_id == binding.terminal_id
                    &&& now.stream_id == binding.stream_id
                    &&& now.bootstrap_id == binding.bootstrap_id
                    &&& now.next_page_seq == next_page_seq
                    &&& now.touched_ms == now_ms
                    &&& binding.record_index < usize::MAX ==> now.record_index
                        == binding.record_index + 1
                },
            }
        }),
    decreases n,
{
    let after = super::native_history::moved_on(owners, n, owner, next_page_seq, now_ms);
    if n > 0 {
        let before = super::native_history::moved_on(
            owners,
            (n - 1) as nat,
            owner,
            next_page_seq,
            now_ms,
        );
        lemma_moved_others(owners, (n - 1) as nat, owner, next_page_seq, now_ms, other);
        assert(owners.take(n as int) == owners.take(n - 1).push(owners[n - 1]));
        lemma_hold_pushed(owners.take(n - 1), owners[n - 1], other, 0);
        assert(after == before.push(after.last()));
        lemma_hold_pushed(before, after.last(), other, 0);
    }
}

/// After a page that is not the last its owner stands one record further, one
/// number further, on the same cursor, and was touched now. Nobody else moved,
/// and the next request is served from there.
pub proof fn law_a_page_moves_its_owner_on(
    host: NativeV,
    req: NativeHistoryRequest,
    bound: u32,
    record: RecordV,
    now_ms: u64,
    other: u64,
)
    requires
        host.history_start(req) is Serve,
        host.history_start(req)->page_seq < u64::MAX,
        host.history_start(req)->record_index < usize::MAX,
        !record.finish,
        record.rows <= u32::MAX,
        other != req.owner,
    ensures
        ({
            let start = host.history_start(req);
            let after = host.delivered(req, start->page_seq, bound, Ok(record), now_ms).host;
            &&& after.history_start(req) matches HistoryStart::Serve { record_index, page_seq, .. }
            &&& record_index == start->record_index + 1
            &&& page_seq == start->page_seq + 1
            &&& after.hold(req.owner)->Some_0.touched_ms == now_ms
            &&& after.hold(other) == host.hold(other)
            &&& after.generations == host.generations
            &&& after.publications == host.publications
        }),
{
    let page_seq = host.history_start(req)->page_seq;
    lemma_moved_others(
        host.owners,
        host.owners.len(),
        req.owner,
        (page_seq + 1) as u64,
        now_ms,
        req.owner,
    );
    lemma_moved_others(
        host.owners,
        host.owners.len(),
        req.owner,
        (page_seq + 1) as u64,
        now_ms,
        other,
    );
    assert(host.owners.take(host.owners.len() as int) == host.owners);
}

/// The last page ends its owner's hold: the next request of that owner is stale.
pub proof fn law_nothing_follows_the_last_page(
    host: NativeV,
    req: NativeHistoryRequest,
    page_seq: u64,
    bound: u32,
    record: RecordV,
    now_ms: u64,
)
    requires
        record.finish,
    ensures
        ({
            let after = host.delivered(req, page_seq, bound, Ok(record), now_ms).host;
            &&& after.hold(req.owner) is None
            &&& after.history_start(req) matches HistoryStart::Answer(
                StreamV::HistoryTombstone { reason, .. },
            ) && reason == HistoryTombstoneReason::Stale
        }),
{
    lemma_others_hold(host.owners, host.owners.len(), req.owner, req.owner);
}

/// A record that does not fit the request, but would fit a larger one, is
/// answered with what it takes, and the hold stays; one that never fits ends the
/// hold. A busy terminal asks for the same again.
pub proof fn law_refusals_say_what_it_takes(
    host: NativeV,
    req: NativeHistoryRequest,
    page_seq: u64,
    bound: u32,
    required_bytes: usize,
    required_rows: usize,
    now_ms: u64,
)
    ensures
        ({
            let small = host.delivered(
                req,
                page_seq,
                bound,
                Err(NativeStateError::OutOfSpace { required_bytes, required_rows }),
                now_ms,
            );
            let busy = host.delivered(
                req,
                page_seq,
                bound,
                Err(NativeStateError::ImportBusy),
                now_ms,
            );
            let fits = 0 < required_bytes <= req.limits.max_history_page_bytes && 1
                <= host.budgets.max_history_page_rows && required_rows
                <= host.budgets.max_history_page_rows;
            &&& fits ==> small.host == host && (small.answer matches Ok(
                StreamV::Rejected { reason, required_bytes: bytes, required_rows: rows, .. },
            ) && reason == HistoryRejectionReason::TooSmall && bytes == required_bytes && (rows
                == required_rows || (required_rows == 0 && rows == 1)))
            &&& !fits ==> small.host.hold(req.owner) is None && (small.answer matches Ok(
                StreamV::HistoryTombstone { reason, .. },
            ) && reason == HistoryTombstoneReason::Limit)
            &&& busy.host == host
            &&& busy.keep
            &&& busy.answer matches Ok(
                StreamV::Rejected { reason, required_bytes: bytes, required_rows: rows, .. },
            ) && reason == HistoryRejectionReason::Busy && bytes == bound && rows == req.max_rows
        }),
{
    lemma_others_hold(host.owners, host.owners.len(), req.owner, req.owner);
}

/// Any other failure ends the hold, and says which it was: a cursor that is
/// stale, history that was pruned, a reset, a resize, a limit, or a failure of
/// the codec.
pub proof fn law_failures_end_the_hold_with_their_reason(
    host: NativeV,
    req: NativeHistoryRequest,
    page_seq: u64,
    bound: u32,
    error: NativeStateError,
    now_ms: u64,
)
    requires
        !(error is OutOfSpace) && !(error is ImportBusy),
    ensures
        ({
            let done = host.delivered(req, page_seq, bound, Err(error), now_ms);
            &&& done.host.hold(req.owner) is None
            &&& !done.keep
            &&& done.answer matches Ok(StreamV::HistoryTombstone { reason, .. })
            &&& reason is Stale <==> error is Stale || error is WrongGeneration
            &&& reason is Pruned <==> error is Pruned
            &&& reason is Reset <==> error is Reset
            &&& reason is Resize <==> error is Resize
            &&& reason is Limit <==> error is LimitExceeded
            &&& !(reason is Expired)
        }),
{
    lemma_others_hold(host.owners, host.owners.len(), req.owner, req.owner);
    assert(reason_for(error) is Stale ==> error is Stale || error is WrongGeneration);
}

/// What contracts say of a frame is what the frame holds, field by field.
pub proof fn law_frames_are_seen_as_they_are(frame: FrameKind)
    ensures
        frame matches FrameKind::BootstrapBegin {
            terminal_id,
            stream_id,
            bootstrap_id,
            profile,
            cols,
            rows,
            base_seq,
        } ==> (stream_view(frame) matches StreamV::Begin {
            terminal_id: a,
            stream_id: b,
            bootstrap_id: c,
            profile: d,
            cols: e,
            rows: f,
            base_seq: g,
        } && a == terminal_id && b == stream_id && c == bootstrap_id && d == profile && e == cols
            && f == rows && g == base_seq),
        frame matches FrameKind::BootstrapChunk {
            terminal_id,
            stream_id,
            bootstrap_id,
            chunk_seq,
            payload,
        } ==> (stream_view(frame) matches StreamV::Chunk {
            terminal_id: a,
            stream_id: b,
            bootstrap_id: c,
            chunk_seq: d,
            payload: e,
        } && a == terminal_id && b == stream_id && c == bootstrap_id && d == chunk_seq && e
            == contents(payload)),
        frame matches FrameKind::BootstrapReady {
            terminal_id,
            stream_id,
            bootstrap_id,
            history_cursor,
        } ==> (stream_view(frame) matches StreamV::Ready {
            terminal_id: a,
            stream_id: b,
            bootstrap_id: c,
            history_cursor: d,
        } && a == terminal_id && b == stream_id && c == bootstrap_id && (d is Some
            <==> history_cursor is Some) && (history_cursor matches Some(cursor) ==> d == Some(
            contents(cursor),
        ))),
        frame matches FrameKind::BootstrapTombstone {
            terminal_id,
            stream_id,
            bootstrap_id,
            reason,
            last_valid_seq,
        } ==> (stream_view(frame) matches StreamV::Tombstone {
            terminal_id: a,
            stream_id: b,
            bootstrap_id: c,
            reason: d,
            last_valid_seq: e,
        } && a == terminal_id && b == stream_id && c == bootstrap_id && d == reason && e
            == last_valid_seq),
        frame matches FrameKind::HistoryPage {
            terminal_id,
            stream_id,
            bootstrap_id,
            page_seq,
            cursor,
            next_cursor,
            payload,
            rows,
        } ==> (stream_view(frame) matches StreamV::Page {
            terminal_id: a,
            stream_id: b,
            bootstrap_id: c,
            page_seq: d,
            cursor: e,
            next_cursor: f,
            payload: g,
            rows: h,
        } && a == terminal_id && b == stream_id && c == bootstrap_id && d == page_seq && e
            == contents(cursor) && (f is Some <==> next_cursor is Some) && (
        next_cursor matches Some(next) ==> f == Some(contents(next))) && g == contents(payload) && h
            == rows),
        frame matches FrameKind::HistoryTombstone {
            terminal_id,
            stream_id,
            bootstrap_id,
            cursor,
            reason,
        } ==> (stream_view(frame) matches StreamV::HistoryTombstone {
            terminal_id: a,
            stream_id: b,
            bootstrap_id: c,
            cursor: d,
            reason: e,
        } && a == terminal_id && b == stream_id && c == bootstrap_id && d == contents(cursor) && e
            == reason),
        frame matches FrameKind::HistoryRejected {
            terminal_id,
            stream_id,
            bootstrap_id,
            cursor,
            reason,
            required_bytes,
            required_rows,
        } ==> (stream_view(frame) matches StreamV::Rejected {
            terminal_id: a,
            stream_id: b,
            bootstrap_id: c,
            cursor: d,
            reason: e,
            required_bytes: f,
            required_rows: g,
        } && a == terminal_id && b == stream_id && c == bootstrap_id && d == contents(cursor) && e
            == reason && f == required_bytes && g == required_rows),
{
}

/// One more holder of a history is counted, and letting go undoes it; a history
/// that is not there is not held.
pub proof fn law_holding_and_letting_go_cancel_out(host: NativeV, cursor: Seq<u8>)
    ensures
        host.retained(cursor) is Some <==> host.generations.contains_key(cursor)
            && host.generations[cursor].owners < usize::MAX,
        host.retained(cursor) matches Some(after) ==> {
            &&& after.generations[cursor].owners == host.generations[cursor].owners + 1
            &&& after.owners == host.owners
            &&& after.publications == host.publications
            &&& host.generations[cursor].owners >= 1 ==> let_go(after.generations, cursor)
                == host.generations
        },
{
    if host.retained(cursor) is Some && host.generations[cursor].owners >= 1 {
        let after = host.retained(cursor)->Some_0;
        assert(let_go(after.generations, cursor) == host.generations);
    }
}

/// Ending every hold lets go of each holder's history once.
pub proof fn law_every_hold_is_let_go_of_once(
    generations: Map<Seq<u8>, GenerationV>,
    owners: Seq<NativeCursorOwner>,
    last: NativeCursorOwner,
)
    ensures
        let_go_each(generations, owners.push(last), owners.len() + 1) == let_go(
            let_go_each(generations, owners, owners.len()),
            last.cursor@,
        ),
        let_go_each(generations, Seq::<NativeCursorOwner>::empty(), 0) == generations,
{
    lemma_let_go_prefix(generations, owners, last, owners.len());
    assert(owners.push(last)[owners.len() as int] == last);
}

proof fn lemma_let_go_prefix(
    generations: Map<Seq<u8>, GenerationV>,
    owners: Seq<NativeCursorOwner>,
    last: NativeCursorOwner,
    n: nat,
)
    requires
        n <= owners.len(),
    ensures
        let_go_each(generations, owners.push(last), n) == let_go_each(generations, owners, n),
    decreases n,
{
    if n > 0 {
        lemma_let_go_prefix(generations, owners, last, (n - 1) as nat);
        assert(owners.push(last)[n - 1] == owners[n - 1]);
    }
}

} // verus!
