//! What a consumer that picks its publication up can rely on: the output it is
//! handed, and its order.

use super::native_bootstrap::refusals;
use super::native_laws::law_every_waiter_is_refused_once;
use super::native_live::{extended, overflowed, NativePublicationRequest};
use super::native_model::{
    left_publication, without_waiting, ActionV, NativeV, Output, PublicationV,
};
use super::native_publication::{published_from, with_all_waiting};
use crate::native_state::error::NativeStateError;
use crate::payload::contents;
use vstd::prelude::*;

verus! {

/// The sequence numbers of `replay` grow from each chunk to the next.
pub open spec fn in_written_order(replay: Seq<Output>) -> bool {
    forall|i: int, j: int|
        0 <= i < j < replay.len() ==> (#[trigger] replay[i]).seq < (#[trigger] replay[j]).seq
}

/// No two publications share a cursor.
pub open spec fn distinct_cursors(publications: Seq<PublicationV>) -> bool {
    forall|i: int, j: int|
        0 <= i < j < publications.len() ==> (#[trigger] publications[i]).cursor != (
        #[trigger] publications[j]).cursor
}

/// `later` is `earlier` with, at most, consumers that are no longer waited for.
pub open spec fn keeps_output(later: PublicationV, earlier: PublicationV) -> bool {
    &&& later.cursor == earlier.cursor
    &&& later.base_seq == earlier.base_seq
    &&& later.replay == earlier.replay
    &&& later.replay_bytes == earlier.replay_bytes
    &&& forall|owner: u64| #[trigger]
        later.waiting.contains(owner) ==> earlier.waiting.contains(owner)
}

/// `later` stands for one of the first `n` of `earlier`.
spec fn stands_for(later: PublicationV, earlier: Seq<PublicationV>, n: int) -> bool {
    exists|j: int| 0 <= j < n && keeps_output(later, #[trigger] earlier[j])
}

/// Every publication of `later` stands for one of the first `n` of `earlier`.
spec fn taken_from(later: Seq<PublicationV>, earlier: Seq<PublicationV>, n: int) -> bool {
    forall|i: int| 0 <= i < later.len() ==> stands_for(#[trigger] later[i], earlier, n)
}

proof fn lemma_taken_twice(
    last: Seq<PublicationV>,
    later: Seq<PublicationV>,
    earlier: Seq<PublicationV>,
)
    requires
        taken_from(last, later, later.len() as int),
        taken_from(later, earlier, earlier.len() as int),
    ensures
        taken_from(last, earlier, earlier.len() as int),
{
    assert forall|i: int| 0 <= i < last.len() implies stands_for(
        #[trigger] last[i],
        earlier,
        earlier.len() as int,
    ) by {
        let k = choose|k: int| 0 <= k < later.len() && keeps_output(last[i], #[trigger] later[k]);
        assert(stands_for(later[k], earlier, earlier.len() as int));
        let j = choose|j: int|
            0 <= j < earlier.len() && keeps_output(later[k], #[trigger] earlier[j]);
        assert(keeps_output(last[i], earlier[j]));
    }
}

proof fn lemma_fewer_waiting(waiting: Seq<u64>, n: nat, owner: u64)
    requires
        n <= waiting.len(),
    ensures
        forall|other: u64| #[trigger]
            without_waiting(waiting, n, owner).contains(other) <==> waiting.take(
                n as int,
            ).contains(other) && other != owner,
    decreases n,
{
    if n > 0 {
        let before = without_waiting(waiting, (n - 1) as nat, owner);
        lemma_fewer_waiting(waiting, (n - 1) as nat, owner);
        let taken = waiting.take(n as int);
        assert(taken == waiting.take(n - 1).push(waiting[n - 1]));
        assert forall|other: u64|
            (#[trigger] without_waiting(waiting, n, owner).contains(other)) == (taken.contains(
                other,
            ) && other != owner) by {
            lemma_pushed(waiting.take(n - 1), waiting[n - 1], other);
            lemma_pushed(before, waiting[n - 1], other);
            assert(before.contains(other) == (waiting.take(n - 1).contains(other) && other
                != owner));
        }
    }
}

proof fn lemma_pushed(items: Seq<u64>, item: u64, other: u64)
    ensures
        items.push(item).contains(other) <==> items.contains(other) || item == other,
{
    if items.contains(other) {
        let i = choose|i: int| 0 <= i < items.len() && items[i] == other;
        assert(items.push(item)[i] == other);
    }
    if item == other {
        assert(items.push(item)[items.len() as int] == other);
    }
}

proof fn lemma_left(publications: Seq<PublicationV>, n: nat, cursor: Seq<u8>, owner: u64)
    requires
        n <= publications.len(),
    ensures
        taken_from(left_publication(publications, n, cursor, owner), publications, n as int),
        distinct_cursors(publications) ==> distinct_cursors(
            left_publication(publications, n, cursor, owner),
        ),
    decreases n,
{
    if n > 0 {
        let before = left_publication(publications, (n - 1) as nat, cursor, owner);
        let after = left_publication(publications, n, cursor, owner);
        lemma_left(publications, (n - 1) as nat, cursor, owner);
        let last = publications[n - 1];
        lemma_fewer_waiting(last.waiting, last.waiting.len(), owner);
        assert(last.waiting.take(last.waiting.len() as int) == last.waiting);
        assert forall|i: int| 0 <= i < after.len() implies stands_for(
            #[trigger] after[i],
            publications,
            n as int,
        ) by {
            if i < before.len() {
                assert(after[i] == before[i]);
                assert(stands_for(before[i], publications, n - 1));
                let j = choose|j: int|
                    0 <= j < n - 1 && keeps_output(before[i], #[trigger] publications[j]);
                assert(keeps_output(after[i], publications[j]));
            } else {
                assert(keeps_output(after[i], publications[n - 1]));
            }
        }
        if distinct_cursors(publications) {
            assert forall|i: int, k: int| 0 <= i < k < after.len() implies (
            #[trigger] after[i]).cursor != (#[trigger] after[k]).cursor by {
                assert(after[i] == before[i]);
                if k < before.len() {
                    assert(after[k] == before[k]);
                } else {
                    let j = choose|j: int|
                        0 <= j < n - 1 && keeps_output(before[i], #[trigger] publications[j]);
                    assert(publications[j].cursor != publications[n - 1].cursor);
                }
            }
        }
    }
}

proof fn lemma_same_taken(publications: Seq<PublicationV>)
    ensures
        taken_from(publications, publications, publications.len() as int),
{
    assert forall|i: int| 0 <= i < publications.len() implies stands_for(
        #[trigger] publications[i],
        publications,
        publications.len() as int,
    ) by {
        assert(keeps_output(publications[i], publications[i]));
    }
}

proof fn lemma_released(host: NativeV, owner: u64)
    ensures
        taken_from(
            host.released(owner).publications,
            host.publications,
            host.publications.len() as int,
        ),
        distinct_cursors(host.publications) ==> distinct_cursors(
            host.released(owner).publications,
        ),
{
    match host.hold(owner) {
        Some(binding) => lemma_left(
            host.publications,
            host.publications.len(),
            binding.cursor@,
            owner,
        ),
        None => lemma_same_taken(host.publications),
    }
}

proof fn lemma_released_each(host: NativeV, owners: Seq<u64>, n: nat)
    requires
        n <= owners.len(),
    ensures
        taken_from(
            host.released_each(owners, n).publications,
            host.publications,
            host.publications.len() as int,
        ),
        distinct_cursors(host.publications) ==> distinct_cursors(
            host.released_each(owners, n).publications,
        ),
    decreases n,
{
    if n == 0 {
        lemma_same_taken(host.publications);
    } else {
        let mid = host.released_each(owners, (n - 1) as nat);
        lemma_released_each(host, owners, (n - 1) as nat);
        lemma_released(mid, owners[n - 1]);
        lemma_taken_twice(
            mid.released(owners[n - 1]).publications,
            mid.publications,
            host.publications,
        );
    }
}

proof fn lemma_found(publications: Seq<PublicationV>, cursor: Seq<u8>, from: int)
    requires
        0 <= from <= publications.len(),
    ensures
        match published_from(publications, cursor, from) {
            Some(i) => from <= i < publications.len() && publications[i].cursor == cursor,
            None => forall|i: int|
                from <= i < publications.len() ==> (#[trigger] publications[i]).cursor != cursor,
        },
    decreases publications.len() - from,
{
    if from < publications.len() && publications[from].cursor != cursor {
        lemma_found(publications, cursor, from + 1);
    }
}

proof fn lemma_without_publication(host: NativeV, cursor: Seq<u8>)
    requires
        distinct_cursors(host.publications),
    ensures
        ({
            let after = host.without_publication(cursor).publications;
            &&& taken_from(after, host.publications, host.publications.len() as int)
            &&& distinct_cursors(after)
            &&& forall|i: int| 0 <= i < after.len() ==> (#[trigger] after[i]).cursor != cursor
        }),
{
    lemma_found(host.publications, cursor, 0);
    match published_from(host.publications, cursor, 0) {
        Some(i) => {
            let waiting = host.publications[i].waiting;
            let mid = NativeV { publications: host.publications.remove(i), ..host };
            assert forall|k: int| 0 <= k < mid.publications.len() implies stands_for(
                #[trigger] mid.publications[k],
                host.publications,
                host.publications.len() as int,
            ) by {
                let j = if k < i {
                    k
                } else {
                    k + 1
                };
                assert(keeps_output(mid.publications[k], host.publications[j]));
            }
            assert(distinct_cursors(mid.publications));
            assert forall|k: int| 0 <= k < mid.publications.len() implies (
            #[trigger] mid.publications[k]).cursor != cursor by {
                if k < i {
                    assert(host.publications[k].cursor != host.publications[i].cursor);
                } else {
                    assert(host.publications[i].cursor != host.publications[k + 1].cursor);
                }
            }
            lemma_released_each(mid, waiting, waiting.len());
            let after = mid.released_each(waiting, waiting.len()).publications;
            lemma_taken_twice(after, mid.publications, host.publications);
            assert forall|k: int| 0 <= k < after.len() implies (#[trigger] after[k]).cursor
                != cursor by {
                let j = choose|j: int|
                    0 <= j < mid.publications.len() && keeps_output(after[k], #[trigger] mid.publications[j]);
                assert(mid.publications[j].cursor != cursor);
            }
        },
        None => lemma_same_taken(host.publications),
    }
}

proof fn lemma_without_publications(host: NativeV, cursors: Seq<Seq<u8>>, n: nat)
    requires
        distinct_cursors(host.publications),
        n <= cursors.len(),
    ensures
        ({
            let after = host.without_publications(cursors, n).publications;
            &&& taken_from(after, host.publications, host.publications.len() as int)
            &&& distinct_cursors(after)
            &&& forall|i: int, k: int|
                0 <= i < after.len() && 0 <= k < n ==> (#[trigger] after[i]).cursor
                    != #[trigger] cursors[k]
        }),
    decreases n,
{
    if n == 0 {
        lemma_same_taken(host.publications);
    } else {
        let mid = host.without_publications(cursors, (n - 1) as nat);
        lemma_without_publications(host, cursors, (n - 1) as nat);
        lemma_without_publication(mid, cursors[n - 1]);
        let after = mid.without_publication(cursors[n - 1]).publications;
        lemma_taken_twice(after, mid.publications, host.publications);
        assert forall|i: int, k: int| 0 <= i < after.len() && 0 <= k < n implies (
        #[trigger] after[i]).cursor != #[trigger] cursors[k] by {
            if k < n - 1 {
                let j = choose|j: int|
                    0 <= j < mid.publications.len() && keeps_output(after[i], #[trigger] mid.publications[j]);
                assert(mid.publications[j].cursor != cursors[k]);
            }
        }
    }
}

/// `later` holds what `earlier` held and then `output`.
pub open spec fn continues(later: Seq<Output>, earlier: Seq<Output>, output: Output) -> bool {
    &&& later.len() == earlier.len() + 1
    &&& earlier.is_prefix_of(later)
    &&& later.last() == output
}

proof fn lemma_extended(publications: Seq<PublicationV>, n: nat, output: Output, most: int)
    requires
        n <= publications.len(),
    ensures
        extended(publications, n, output, most).len() == n,
        forall|i: int|
            0 <= i < n ==> {
                let later = #[trigger] extended(publications, n, output, most)[i];
                let earlier = publications[i];
                &&& later.cursor == earlier.cursor
                &&& later.base_seq == earlier.base_seq
                &&& later.waiting == earlier.waiting
                &&& if earlier.replay_bytes + contents(output.bytes).len() <= most {
                    &&& continues(later.replay, earlier.replay, output)
                    &&& later.replay_bytes == earlier.replay_bytes + contents(output.bytes).len()
                } else {
                    overflowed(publications, n, output, most).contains(earlier.cursor)
                }
            },
        (forall|i: int|
            0 <= i < n ==> (#[trigger] publications[i]).replay_bytes + contents(output.bytes).len()
                <= most) ==> overflowed(publications, n, output, most).len() == 0,
    decreases n,
{
    if n > 0 {
        lemma_extended(publications, (n - 1) as nat, output, most);
        let gone = overflowed(publications, n, output, most);
        let before = overflowed(publications, (n - 1) as nat, output, most);
        let after = extended(publications, n, output, most);
        let last = publications[n - 1];
        if last.replay_bytes + contents(output.bytes).len() > most {
            assert(gone[gone.len() - 1] == last.cursor);
            assert(gone.contains(last.cursor));
        }
        assert forall|i: int| 0 <= i < n - 1 && publications[i].replay_bytes + contents(
            output.bytes,
        ).len() > most implies gone.contains(#[trigger] publications[i].cursor) by {
            assert(extended(publications, (n - 1) as nat, output, most)[i] == after[i]);
            let k = choose|k: int| 0 <= k < before.len() && before[k] == publications[i].cursor;
            assert(gone[k] == before[k]);
        }
        assert forall|i: int| 0 <= i < n - 1 implies #[trigger] after[i] == extended(
            publications,
            (n - 1) as nat,
            output,
            most,
        )[i] by {}
    }
}

/// Output is kept in the order in which it was written. Where every publication
/// holds growing sequence numbers below that of the next live output, each one
/// that still stands afterwards holds what it held before, then that output, and
/// its sequence numbers still grow. None that stands has lost output.
pub proof fn law_live_output_is_kept_in_order(host: NativeV, output: Output)
    requires
        distinct_cursors(host.publications),
        forall|i: int|
            0 <= i < host.publications.len() ==> in_written_order(
                (#[trigger] host.publications[i]).replay,
            ),
        forall|i: int, k: int|
            0 <= i < host.publications.len() && 0 <= k < host.publications[i].replay.len()
                ==> (#[trigger] host.publications[i].replay[k]).seq < output.seq,
    ensures
        ({
            let after = host.buffered(output).0.publications;
            &&& distinct_cursors(after)
            &&& forall|i: int|
                0 <= i < after.len() ==> in_written_order((#[trigger] after[i]).replay)
            &&& forall|i: int|
                0 <= i < after.len() ==> exists|j: int|
                    {
                        &&& 0 <= j < host.publications.len()
                        &&& (#[trigger] host.publications[j]).cursor == (
                        #[trigger] after[i]).cursor
                        &&& host.publications[j].base_seq == after[i].base_seq
                        &&& continues(after[i].replay, host.publications[j].replay, output)
                        &&& after[i].replay_bytes == host.publications[j].replay_bytes + contents(
                            output.bytes,
                        ).len()
                    }
        }),
{
    let most = host.budgets.max_replay_bytes as int;
    let n = host.publications.len();
    let (held, _, _) = host.held(output);
    assert(held.publications == host.publications);
    lemma_extended(host.publications, n, output, most);
    let longer = extended(host.publications, n, output, most);
    let gone = overflowed(host.publications, n, output, most);
    let mid = NativeV { publications: longer, ..held };
    assert(distinct_cursors(longer)) by {
        assert forall|i: int, j: int| 0 <= i < j < longer.len() implies (
        #[trigger] longer[i]).cursor != (#[trigger] longer[j]).cursor by {
            assert(host.publications[i].cursor != host.publications[j].cursor);
        }
    }
    lemma_without_publications(mid, gone, gone.len());
    let after = host.buffered(output).0.publications;
    assert forall|i: int| 0 <= i < after.len() implies in_written_order(
        (#[trigger] after[i]).replay,
    ) && exists|j: int|
        {
            &&& 0 <= j < host.publications.len()
            &&& (#[trigger] host.publications[j]).cursor == after[i].cursor
            &&& host.publications[j].base_seq == after[i].base_seq
            &&& continues(after[i].replay, host.publications[j].replay, output)
            &&& after[i].replay_bytes == host.publications[j].replay_bytes + contents(
                output.bytes,
            ).len()
        } by {
        let j = choose|j: int|
            0 <= j < longer.len() && keeps_output(after[i], #[trigger] longer[j]);
        let earlier = host.publications[j];
        if earlier.replay_bytes + contents(output.bytes).len() > most {
            assert(gone.contains(earlier.cursor));
            let k = choose|k: int| 0 <= k < gone.len() && gone[k] == earlier.cursor;
            assert(after[i].cursor != gone[k]);
            assert(false);
        }
        assert(continues(after[i].replay, earlier.replay, output));
        assert forall|a: int, b: int| 0 <= a < b < after[i].replay.len() implies (
        #[trigger] after[i].replay[a]).seq < (#[trigger] after[i].replay[b]).seq by {
            assert(earlier.replay[a] == after[i].replay[a]);
            if b < earlier.replay.len() {
                assert(earlier.replay[b] == after[i].replay[b]);
            }
        }
        assert(host.publications[j].cursor == after[i].cursor);
    }
}

/// Where there is room for it in every publication, live output ends none of
/// them: the same consumers wait for the same cursors, each with that output
/// after what was kept before.
pub proof fn law_live_output_reaches_every_publication(host: NativeV, output: Output)
    requires
        forall|i: int|
            0 <= i < host.publications.len() ==> (#[trigger] host.publications[i]).replay_bytes
                + contents(output.bytes).len() <= host.budgets.max_replay_bytes,
    ensures
        ({
            let after = host.buffered(output).0;
            &&& after.publications.len() == host.publications.len()
            &&& after.owners == host.owners
            &&& after.generations == host.generations
            &&& forall|i: int|
                0 <= i < after.publications.len() ==> {
                    let later = #[trigger] after.publications[i];
                    let earlier = host.publications[i];
                    &&& later.cursor == earlier.cursor
                    &&& later.base_seq == earlier.base_seq
                    &&& later.waiting == earlier.waiting
                    &&& continues(later.replay, earlier.replay, output)
                }
        }),
{
    lemma_extended(
        host.publications,
        host.publications.len(),
        output,
        host.budgets.max_replay_bytes as int,
    );
}

/// Whoever holds a publication's cursor and is waited for is handed what was kept
/// for it, from the first chunk to the last. The others keep waiting for the
/// same output, and nobody's hold changes.
pub proof fn law_pickup_hands_over_what_was_kept(
    host: NativeV,
    req: NativePublicationRequest,
    i: int,
    other: u64,
)
    requires
        distinct_cursors(host.publications),
        0 <= i < host.publications.len(),
        host.publications[i].cursor == req.cursor@,
        host.publications[i].waiting.contains(req.owner),
        host.hold(req.owner) matches Some(binding) && binding.cursor@ == req.cursor@
            && binding.terminal_id@ == req.terminal_id@ && binding.stream_id == req.stream_id
            && binding.bootstrap_id == req.bootstrap_id,
        other != req.owner,
        host.publications[i].waiting.contains(other),
    ensures
        ({
            let (after, handed) = host.picked_up(req);
            &&& handed == Ok::<Seq<Output>, NativeStateError>(host.publications[i].replay)
            &&& after.owners == host.owners
            &&& after.generations == host.generations
            &&& after.publications.len() == host.publications.len()
            &&& after.publications[i].waiting.contains(other)
            &&& !after.publications[i].waiting.contains(req.owner)
            &&& keeps_output(after.publications[i], host.publications[i])
            &&& forall|k: int|
                0 <= k < host.publications.len() && k != i ==> #[trigger] after.publications[k]
                    == host.publications[k]
        }),
{
    lemma_found(host.publications, req.cursor@, 0);
    let k = published_from(host.publications, req.cursor@, 0)->Some_0;
    if k < i {
        assert(host.publications[k].cursor != host.publications[i].cursor);
    } else if i < k {
        assert(host.publications[i].cursor != host.publications[k].cursor);
    }
    let waiting = host.publications[i].waiting;
    lemma_fewer_waiting(waiting, waiting.len(), req.owner);
    assert(waiting.take(waiting.len() as int) == waiting);
    let fewer = without_waiting(waiting, waiting.len(), req.owner);
    assert(fewer.contains(other));
    assert(fewer.len() > 0);
}

/// The last consumer to pick a publication up is handed what was kept, and the
/// publication is gone.
pub proof fn law_the_last_pickup_ends_the_publication(
    host: NativeV,
    req: NativePublicationRequest,
    i: int,
)
    requires
        distinct_cursors(host.publications),
        0 <= i < host.publications.len(),
        host.publications[i].cursor == req.cursor@,
        host.publications[i].waiting == seq![req.owner],
        host.hold(req.owner) matches Some(binding) && binding.cursor@ == req.cursor@
            && binding.terminal_id@ == req.terminal_id@ && binding.stream_id == req.stream_id
            && binding.bootstrap_id == req.bootstrap_id,
    ensures
        host.picked_up(req).1 == Ok::<Seq<Output>, NativeStateError>(host.publications[i].replay),
        host.picked_up(req).0.publications == host.publications.remove(i),
        host.picked_up(req).0.owners == host.owners,
{
    lemma_found(host.publications, req.cursor@, 0);
    let k = published_from(host.publications, req.cursor@, 0)->Some_0;
    if k < i {
        assert(host.publications[k].cursor != host.publications[i].cursor);
    } else if i < k {
        assert(host.publications[i].cursor != host.publications[k].cursor);
    }
    let waiting = host.publications[i].waiting;
    assert(waiting[0] == req.owner);
    assert(waiting.contains(req.owner));
    assert(without_waiting(waiting, 0, req.owner).len() == 0);
    assert(without_waiting(waiting, 1, req.owner).len() == 0);
}

/// A request that names another cursor, terminal, stream or bootstrap than its
/// owner holds is refused and changes nothing; so is one of an owner without a
/// hold.
pub proof fn law_pickups_need_their_own_hold(host: NativeV, req: NativePublicationRequest)
    requires
        host.hold(req.owner) matches Some(binding) ==> binding.cursor@ != req.cursor@
            || binding.terminal_id@ != req.terminal_id@ || binding.stream_id != req.stream_id
            || binding.bootstrap_id != req.bootstrap_id,
    ensures
        host.picked_up(req) == (
            host,
            Err::<Seq<Output>, NativeStateError>(NativeStateError::InvalidHandle),
        ),
{
}

/// Two chunks written one after the other are handed over one after the other.
pub proof fn law_outputs_are_handed_over_in_order(
    host: NativeV,
    first: Output,
    second: Output,
    req: NativePublicationRequest,
)
    requires
        forall|i: int|
            0 <= i < host.publications.len() ==> (#[trigger] host.publications[i]).replay_bytes
                + contents(first.bytes).len() + contents(second.bytes).len()
                <= host.budgets.max_replay_bytes,
    ensures
        host.buffered(first).0.buffered(second).0.picked_up(req).1 matches Ok(replay) ==> {
            let n = replay.len();
            n >= 2 && replay[n - 2] == first && replay[n - 1] == second
        },
{
    let mid = host.buffered(first).0;
    law_live_output_reaches_every_publication(host, first);
    lemma_extended(
        host.publications,
        host.publications.len(),
        first,
        host.budgets.max_replay_bytes as int,
    );
    assert forall|i: int| 0 <= i < mid.publications.len() implies (
    #[trigger] mid.publications[i]).replay_bytes + contents(second.bytes).len()
        <= mid.budgets.max_replay_bytes by {
        assert(host.publications[i].replay_bytes + contents(first.bytes).len()
            <= host.budgets.max_replay_bytes);
    }
    law_live_output_reaches_every_publication(mid, second);
    let after = mid.buffered(second).0;
    lemma_found(after.publications, req.cursor@, 0);
    match published_from(after.publications, req.cursor@, 0) {
        Some(i) => {
            let replay = after.publications[i].replay;
            let middle = mid.publications[i].replay;
            assert(continues(replay, middle, second));
            assert(continues(middle, host.publications[i].replay, first));
            assert(replay[middle.len() - 1] == middle[middle.len() - 1]);
        },
        None => {},
    }
}

proof fn lemma_all_waiting(waiting: Seq<u64>, more: Seq<u64>, n: nat)
    requires
        n <= more.len(),
    ensures
        forall|owner: u64| #[trigger]
            with_all_waiting(waiting, more, n).contains(owner) <==> waiting.contains(owner)
                || more.take(n as int).contains(owner),
    decreases n,
{
    if n > 0 {
        lemma_all_waiting(waiting, more, (n - 1) as nat);
        let before = with_all_waiting(waiting, more, (n - 1) as nat);
        assert(more.take(n as int) == more.take(n - 1).push(more[n - 1]));
        assert forall|owner: u64|
            (#[trigger] with_all_waiting(waiting, more, n).contains(owner)) == (waiting.contains(
                owner,
            ) || more.take(n as int).contains(owner)) by {
            lemma_pushed(before, more[n - 1], owner);
            lemma_pushed(more.take(n - 1), more[n - 1], owner);
            assert(before.contains(owner) == (waiting.contains(owner) || more.take(
                n - 1,
            ).contains(owner)));
        }
    } else {
        assert(more.take(0).len() == 0);
    }
}

/// A cut that is published is there for every consumer that waits for it, under
/// its own cursor. A cursor that is new brings its base sequence and the output
/// held back for it; one that is published already keeps its own. Every other
/// publication is as it was.
pub proof fn law_published_cuts_await_their_consumers(
    host: NativeV,
    cursor: Seq<u8>,
    base_seq: u64,
    replay: Seq<Output>,
    replay_bytes: int,
    waiting: Seq<u64>,
    owner: u64,
)
    requires
        distinct_cursors(host.publications),
        waiting.contains(owner),
    ensures
        ({
            let after = host.recorded(cursor, base_seq, replay, replay_bytes, waiting);
            &&& distinct_cursors(after.publications)
            &&& exists|i: int|
                {
                    &&& 0 <= i < after.publications.len()
                    &&& (#[trigger] after.publications[i]).cursor == cursor
                    &&& after.publications[i].waiting.contains(owner)
                    &&& if i < host.publications.len() {
                        &&& host.publications[i].cursor == cursor
                        &&& after.publications[i].replay == host.publications[i].replay
                        &&& after.publications[i].base_seq == host.publications[i].base_seq
                        &&& forall|other: u64| #[trigger]
                            host.publications[i].waiting.contains(other)
                                ==> after.publications[i].waiting.contains(other)
                    } else {
                        &&& after.publications[i].replay == replay
                        &&& after.publications[i].replay_bytes == replay_bytes
                        &&& after.publications[i].base_seq == base_seq
                        &&& after.publications[i].waiting == waiting
                    }
                }
            &&& forall|i: int|
                0 <= i < host.publications.len() && host.publications[i].cursor != cursor
                    ==> #[trigger] after.publications[i] == host.publications[i]
        }),
{
    lemma_found(host.publications, cursor, 0);
    let after = host.recorded(cursor, base_seq, replay, replay_bytes, waiting);
    match published_from(host.publications, cursor, 0) {
        Some(i) => {
            lemma_all_waiting(host.publications[i].waiting, waiting, waiting.len());
            assert(waiting.take(waiting.len() as int) == waiting);
            assert(after.publications[i].cursor == cursor);
            assert forall|a: int, b: int| 0 <= a < b < after.publications.len() implies (
            #[trigger] after.publications[a]).cursor != (
            #[trigger] after.publications[b]).cursor by {
                assert(host.publications[a].cursor != host.publications[b].cursor);
            }
        },
        None => {
            let i = host.publications.len() as int;
            assert(after.publications[i].cursor == cursor);
        },
    }
}

/// Output that would exceed the bound is not held back: what was held so far is
/// written, everyone who waited for the cut is refused, and the terminal is
/// free. Without a cut that runs nothing is held back at all.
pub proof fn law_too_much_output_gives_the_cut_up(host: NativeV, output: Output, i: int)
    ensures
        ({
            let (after, said, deferred) = host.held(output);
            &&& host.pending is None ==> !deferred && after == host && said.len() == 0
            &&& host.pending matches Some(pending) ==> {
                let total = pending.replay_bytes + contents(output.bytes).len();
                &&& deferred <==> total <= host.budgets.max_replay_bytes
                &&& deferred ==> after.pending->Some_0.replay_bytes == total && continues(
                    after.pending->Some_0.replay,
                    pending.replay,
                    output,
                ) && after.pending->Some_0.waiters == pending.waiters
                &&& !deferred ==> {
                    &&& after.pending is None
                    &&& !after.capture_active
                    &&& pending.replay.len() > 0 ==> said.contains(ActionV::Replay(pending.replay))
                    &&& 0 <= i < pending.waiters.len() ==> said.contains(
                        ActionV::Refuse(
                            pending.waiters[i].reply,
                            NativeStateError::LimitExceeded,
                        ),
                    )
                }
                &&& after.owners == host.owners
                &&& after.publications == host.publications
            }
        }),
{
    if host.pending is Some {
        let pending = host.pending->Some_0;
        let (_, said, deferred) = host.held(output);
        if !deferred {
            law_every_waiter_is_refused_once(
                pending.waiters,
                pending.waiters.len(),
                NativeStateError::LimitExceeded,
            );
            let first = host.drop_actions();
            let told = refusals(
                pending.waiters,
                pending.waiters.len(),
                NativeStateError::LimitExceeded,
            );
            assert(said == first + told);
            if pending.replay.len() > 0 {
                assert(first.last() == ActionV::Replay(pending.replay));
                assert(said[first.len() - 1] == ActionV::Replay(pending.replay));
            }
            if 0 <= i < pending.waiters.len() {
                assert(said[first.len() + i] == told[i]);
            }
        }
    }
}

proof fn lemma_left_behind(
    publications: Seq<PublicationV>,
    n: nat,
    cursor: Seq<u8>,
    owner: u64,
    i: int,
    other: u64,
)
    requires
        0 <= i < n <= publications.len(),
        publications[i].cursor == cursor ==> other != owner,
        publications[i].waiting.contains(other),
    ensures
        exists|k: int|
            {
                &&& 0 <= k < left_publication(publications, n, cursor, owner).len()
                &&& keeps_output(
                    #[trigger] left_publication(publications, n, cursor, owner)[k],
                    publications[i],
                )
                &&& left_publication(publications, n, cursor, owner)[k].waiting.contains(other)
            },
    decreases n,
{
    let before = left_publication(publications, (n - 1) as nat, cursor, owner);
    let after = left_publication(publications, n, cursor, owner);
    if i < n - 1 {
        lemma_left_behind(publications, (n - 1) as nat, cursor, owner, i, other);
        let k = choose|k: int|
            {
                &&& 0 <= k < before.len()
                &&& keeps_output(#[trigger] before[k], publications[i])
                &&& before[k].waiting.contains(other)
            };
        assert(after[k] == before[k]);
    } else {
        let waiting = publications[i].waiting;
        lemma_fewer_waiting(waiting, waiting.len(), owner);
        assert(waiting.take(waiting.len() as int) == waiting);
        if publications[i].cursor == cursor {
            assert(without_waiting(waiting, waiting.len(), owner).contains(other));
        }
        let k = before.len() as int;
        assert(keeps_output(after[k], publications[i]));
    }
}

proof fn lemma_gone_from(
    publications: Seq<PublicationV>,
    n: nat,
    cursor: Seq<u8>,
    owner: u64,
    k: int,
)
    requires
        n <= publications.len(),
        0 <= k < left_publication(publications, n, cursor, owner).len(),
    ensures
        ({
            let one = left_publication(publications, n, cursor, owner)[k];
            one.cursor == cursor ==> !one.waiting.contains(owner) && one.waiting.len() > 0
        }),
    decreases n,
{
    if n > 0 {
        let before = left_publication(publications, (n - 1) as nat, cursor, owner);
        let after = left_publication(publications, n, cursor, owner);
        if k < before.len() {
            lemma_gone_from(publications, (n - 1) as nat, cursor, owner, k);
            assert(after[k] == before[k]);
        } else {
            let waiting = publications[n - 1].waiting;
            lemma_fewer_waiting(waiting, waiting.len(), owner);
        }
    }
}

/// Whoever is released is no longer waited for where it held the cursor, and a
/// publication that nobody waits for is gone; everyone else is still waited for,
/// with the same output.
pub proof fn law_released_consumers_are_not_waited_for(
    host: NativeV,
    owner: u64,
    i: int,
    other: u64,
    k: int,
)
    requires
        host.hold(owner) is Some,
        0 <= i < host.publications.len(),
        other != owner,
        host.publications[i].waiting.contains(other),
    ensures
        ({
            let cursor = host.hold(owner)->Some_0.cursor@;
            let after = host.released(owner).publications;
            &&& exists|j: int|
                0 <= j < after.len() && keeps_output(#[trigger] after[j], host.publications[i])
                    && after[j].waiting.contains(other)
            &&& 0 <= k < after.len() && after[k].cursor == cursor ==> !after[k].waiting.contains(
                owner,
            ) && after[k].waiting.len() > 0
        }),
{
    let cursor = host.hold(owner)->Some_0.cursor@;
    let n = host.publications.len();
    let after = host.released(owner).publications;
    lemma_left_behind(host.publications, n, cursor, owner, i, other);
    let j = choose|j: int|
        {
            &&& 0 <= j < left_publication(host.publications, n, cursor, owner).len()
            &&& keeps_output(
                #[trigger] left_publication(host.publications, n, cursor, owner)[j],
                host.publications[i],
            )
            &&& left_publication(host.publications, n, cursor, owner)[j].waiting.contains(other)
        };
    assert(keeps_output(after[j], host.publications[i]));
    if 0 <= k < after.len() {
        lemma_gone_from(host.publications, n, cursor, owner, k);
    }
}

/// A cut that comes to a cursor that is published already joins it where both
/// include the same output and hold back the same output; it conflicts
/// otherwise. A cursor that is new never conflicts.
pub proof fn law_cuts_join_only_their_like(
    host: NativeV,
    cursor: Seq<u8>,
    base_seq: u64,
    replay: Seq<Output>,
    i: int,
)
    requires
        distinct_cursors(host.publications),
        0 <= i < host.publications.len(),
    ensures
        host.publications[i].cursor == cursor ==> (host.conflicts(cursor, base_seq, replay) <==> !(
        host.publications[i].base_seq == base_seq && host.publications[i].replay.len()
            == replay.len() && forall|k: int|
            0 <= k < replay.len() ==> (#[trigger] host.publications[i].replay[k]).seq
                == replay[k].seq && contents(host.publications[i].replay[k].bytes) == contents(
                replay[k].bytes,
            ))),
        (forall|j: int|
            0 <= j < host.publications.len() ==> (#[trigger] host.publications[j]).cursor
                != cursor) ==> !host.conflicts(cursor, base_seq, replay),
{
    lemma_found(host.publications, cursor, 0);
    if host.publications[i].cursor == cursor {
        let k = published_from(host.publications, cursor, 0)->Some_0;
        if k < i {
            assert(host.publications[k].cursor != host.publications[i].cursor);
        } else if i < k {
            assert(host.publications[i].cursor != host.publications[k].cursor);
        }
    }
}

} // verus!
