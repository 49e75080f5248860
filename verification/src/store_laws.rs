//! What mailboxes and records keep.

use crate::ids::TerminalV;
use crate::mailbox::{after_send, send_outcome, MailboxId, MailboxV, Outbound};
use crate::metadata::{not_about, MetadataSubscription};
use crate::proc_query::is_space;
use crate::text::before;
use vstd::prelude::*;

verus! {

/// A message is accepted exactly by a mailbox that is there, open and not full,
/// and is then the last of its queue; otherwise nothing changes, and the sender
/// learns whether to wait or to give up.
pub proof fn law_sends_are_queued_last(boxes: Seq<MailboxV>, to: MailboxId, message: Outbound)
    ensures
        send_outcome(boxes, to) is Accepted <==> to.0 < boxes.len() && boxes[to.0 as int].open
            && boxes[to.0 as int].queue.len() < boxes[to.0 as int].capacity,
        send_outcome(boxes, to) is Full <==> to.0 < boxes.len() && boxes[to.0 as int].open
            && boxes[to.0 as int].queue.len() >= boxes[to.0 as int].capacity,
        send_outcome(boxes, to) is Closed <==> to.0 >= boxes.len() || !boxes[to.0 as int].open,
        ({
            let after = after_send(boxes, to, message);
            &&& after.len() == boxes.len()
            &&& send_outcome(boxes, to) is Accepted ==> {
                &&& after[to.0 as int].queue.len() == boxes[to.0 as int].queue.len() + 1
                &&& boxes[to.0 as int].queue.is_prefix_of(after[to.0 as int].queue)
                &&& after[to.0 as int].queue.last() == message
                &&& after[to.0 as int].open
                &&& after[to.0 as int].capacity == boxes[to.0 as int].capacity
            }
            &&& !(send_outcome(boxes, to) is Accepted) ==> after == boxes
        }),
{
}

/// Two messages sent one after the other lie in the queue one after the other.
pub proof fn law_mailboxes_keep_their_order(
    boxes: Seq<MailboxV>,
    to: MailboxId,
    first: Outbound,
    second: Outbound,
)
    requires
        to.0 < boxes.len(),
        boxes[to.0 as int].open,
        boxes[to.0 as int].queue.len() + 2 <= boxes[to.0 as int].capacity,
    ensures
        ({
            let queue = after_send(after_send(boxes, to, first), to, second)[to.0 as int].queue;
            let n = queue.len() as int;
            n == boxes[to.0 as int].queue.len() + 2 && queue[n - 2] == first && queue[n - 1]
                == second
        }),
{
}

proof fn lemma_not_about(
    subs: Seq<MetadataSubscription>,
    n: nat,
    terminal: TerminalV,
    sub: MetadataSubscription,
)
    requires
        n <= subs.len(),
    ensures
        not_about(subs, n, terminal).contains(sub) <==> sub.terminal@ != terminal && exists|i: int|
            0 <= i < n && #[trigger] subs[i] == sub,
    decreases n,
{
    if n > 0 {
        let kept = not_about(subs, (n - 1) as nat, terminal);
        let now = not_about(subs, n, terminal);
        lemma_not_about(subs, (n - 1) as nat, terminal, sub);
        if kept.contains(sub) {
            let k = choose|k: int| 0 <= k < kept.len() && kept[k] == sub;
            assert(now[k] == sub);
        }
        if subs[n - 1] == sub && sub.terminal@ != terminal {
            assert(now[kept.len() as int] == sub);
        }
        if now.contains(sub) && !kept.contains(sub) {
            let k = choose|k: int| 0 <= k < now.len() && now[k] == sub;
            if k < kept.len() {
                assert(kept[k] == sub);
            }
            assert(subs[n - 1] == sub);
        }
    }
}

/// Forgetting a terminal forgets who follows its records, and nobody else.
pub proof fn law_forgetting_a_terminal_spares_the_others(
    subs: Seq<MetadataSubscription>,
    terminal: TerminalV,
    sub: MetadataSubscription,
)
    ensures
        not_about(subs, subs.len(), terminal).contains(sub) <==> subs.contains(sub)
            && sub.terminal@ != terminal,
{
    lemma_not_about(subs, subs.len(), terminal, sub);
}

/// Texts are ordered by their first difference, and a smaller letter comes
/// first.
pub proof fn law_texts_are_ordered_by_their_first_difference(
    shared: Seq<char>,
    a: char,
    b: char,
    left: Seq<char>,
    right: Seq<char>,
)
    requires
        (a as int) < (b as int),
    ensures
        before(shared.push(a) + left, shared.push(b) + right),
        !before(shared.push(b) + right, shared.push(a) + left),
    decreases shared.len(),
{
    let x = shared.push(a) + left;
    let y = shared.push(b) + right;
    if shared.len() > 0 {
        let rest = shared.drop_first();
        law_texts_are_ordered_by_their_first_difference(rest, a, b, left, right);
        assert(x.drop_first() == rest.push(a) + left);
        assert(y.drop_first() == rest.push(b) + right);
        assert(x[0] == shared[0]);
        assert(y[0] == shared[0]);
    } else {
        assert(x[0] == a);
        assert(y[0] == b);
    }
}

/// Among the letters of plain text white space is the space, the tab and the line
/// breaks.
pub proof fn law_plain_white_space(c: char)
    requires
        (c as int) < 128,
    ensures
        is_space(c) <==> c as int == 32 || 9 <= c as int <= 13,
{
}

} // verus!
