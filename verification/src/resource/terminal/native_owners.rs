//! Who reads which history: letting go, on request, on a new attach, and after
//! too long without use.

use super::native_model::{
    act, actions, hold_from, left_publication, lemma_shed_twice, publications_view, without_owner,
    without_requests, without_waiting, ActionV, NativeAction, NativeBootstrapRequest, NativeCursorOwner, NativeHost,
    NativePublicationGeneration, NativeV, PublicationV, StreamV,
};
use crate::assoc::Keyed;
use crate::native_state::cut::OpaqueHistoryCursor;
use crate::payload::{contents, payload_of};
use crate::wire::{BootstrapLimits, FrameKind, HistoryTombstoneReason, TombstoneReason};
use bytes::Bytes;
use vstd::prelude::*;

verus! {

/// A cursor as a payload.
pub fn cursor_payload(cursor: &OpaqueHistoryCursor) -> (payload: Bytes)
    ensures
        contents(payload) == cursor@,
{
    let mut bytes: Vec<u8> = Vec::new();
    let mut i: usize = 0;
    while i < 32
        invariant
            i <= 32,
            bytes@ == cursor@.take(i as int),
        decreases 32 - i,
    {
        bytes.push(cursor[i]);
        i += 1;
        assert(bytes@ =~= cursor@.take(i as int));
    }
    assert(bytes@ =~= cursor@);
    payload_of(bytes)
}

/// Those who stay keep their limits.
pub proof fn lemma_limits_kept(
    requests: Seq<NativeBootstrapRequest>,
    n: nat,
    owner: u64,
    limits: BootstrapLimits,
)
    requires
        forall|i: int| 0 <= i < requests.len() ==> (#[trigger] requests[i]).limits == limits,
    ensures
        forall|i: int|
            0 <= i < without_requests(requests, n, owner).len() ==> (#[trigger] without_requests(
                requests,
                n,
                owner,
            )[i]).limits == limits,
        without_requests(requests, n, owner).len() <= n,
    decreases n,
{
    if n > 0 && n <= requests.len() {
        lemma_limits_kept(requests, (n - 1) as nat, owner, limits);
    }
}

fn drop_requests(requests: &mut Vec<NativeBootstrapRequest>, owner: u64)
    ensures
        final(requests)@ == without_requests(old(requests)@, old(requests)@.len(), owner),
{
    let ghost all = requests@;
    let ghost mut n: nat = 0;
    let mut i: usize = 0;
    assert(requests@.take(0) =~= without_requests(all, 0, owner));
    assert(requests@.skip(0) =~= all.skip(0));
    while i < requests.len()
        invariant
            n <= all.len(),
            i <= requests@.len(),
            requests@.len() - i == all.len() - n,
            requests@.take(i as int) == without_requests(all, n, owner),
            requests@.skip(i as int) == all.skip(n as int),
        decreases requests@.len() - i,
    {
        let ghost at = requests@;
        proof {
            assert(at[i as int] == at.skip(i as int)[0]);
            assert(all[n as int] == all.skip(n as int)[0]);
            n = n + 1;
            assert(at.skip(i as int + 1) =~= at.skip(i as int).skip(1));
            assert(all.skip(n as int) =~= all.skip(n as int - 1).skip(1));
            assert(at.take(i as int + 1) =~= at.take(i as int).push(at[i as int]));
        }
        if requests[i].owner == owner {
            requests.remove(i);
            proof {
                assert(requests@.take(i as int) =~= at.take(i as int));
                assert(requests@.skip(i as int) =~= at.skip(i as int).skip(1));
            }
        } else {
            i += 1;
        }
    }
    assert(requests@.take(i as int) =~= requests@);
}

/// Take `owner` off a list of holds.
pub fn drop_owner(owners: &mut Vec<NativeCursorOwner>, owner: u64)
    ensures
        final(owners)@ == without_owner(old(owners)@, old(owners)@.len(), owner),
{
    let ghost all = owners@;
    let ghost mut n: nat = 0;
    let mut i: usize = 0;
    assert(owners@.take(0) =~= without_owner(all, 0, owner));
    assert(owners@.skip(0) =~= all.skip(0));
    while i < owners.len()
        invariant
            n <= all.len(),
            i <= owners@.len(),
            owners@.len() - i == all.len() - n,
            owners@.take(i as int) == without_owner(all, n, owner),
            owners@.skip(i as int) == all.skip(n as int),
        decreases owners@.len() - i,
    {
        let ghost at = owners@;
        proof {
            assert(at[i as int] == at.skip(i as int)[0]);
            assert(all[n as int] == all.skip(n as int)[0]);
            n = n + 1;
            assert(at.skip(i as int + 1) =~= at.skip(i as int).skip(1));
            assert(all.skip(n as int) =~= all.skip(n as int - 1).skip(1));
            assert(at.take(i as int + 1) =~= at.take(i as int).push(at[i as int]));
        }
        if owners[i].owner == owner {
            owners.remove(i);
            proof {
                assert(owners@.take(i as int) =~= at.take(i as int));
                assert(owners@.skip(i as int) =~= at.skip(i as int).skip(1));
            }
        } else {
            i += 1;
        }
    }
    assert(owners@.take(i as int) =~= owners@);
}

/// Take `owner` off a list of those who wait.
pub fn drop_waiting(waiting: &mut Vec<u64>, owner: u64)
    ensures
        final(waiting)@ == without_waiting(old(waiting)@, old(waiting)@.len(), owner),
{
    let ghost all = waiting@;
    let ghost mut n: nat = 0;
    let mut i: usize = 0;
    assert(waiting@.take(0) =~= without_waiting(all, 0, owner));
    assert(waiting@.skip(0) =~= all.skip(0));
    while i < waiting.len()
        invariant
            n <= all.len(),
            i <= waiting@.len(),
            waiting@.len() - i == all.len() - n,
            waiting@.take(i as int) == without_waiting(all, n, owner),
            waiting@.skip(i as int) == all.skip(n as int),
        decreases waiting@.len() - i,
    {
        let ghost at = waiting@;
        proof {
            assert(at[i as int] == at.skip(i as int)[0]);
            assert(all[n as int] == all.skip(n as int)[0]);
            n = n + 1;
            assert(at.skip(i as int + 1) =~= at.skip(i as int).skip(1));
            assert(all.skip(n as int) =~= all.skip(n as int - 1).skip(1));
            assert(at.take(i as int + 1) =~= at.take(i as int).push(at[i as int]));
        }
        if waiting[i] == owner {
            waiting.remove(i);
            proof {
                assert(waiting@.take(i as int) =~= at.take(i as int));
                assert(waiting@.skip(i as int) =~= at.skip(i as int).skip(1));
            }
        } else {
            i += 1;
        }
    }
    assert(waiting@.take(i as int) =~= waiting@);
}

fn leave_publication(
    publications: &mut Vec<NativePublicationGeneration>,
    cursor: &OpaqueHistoryCursor,
    owner: u64,
)
    ensures
        publications_view(final(publications)@) == left_publication(
            publications_view(old(publications)@),
            old(publications)@.len(),
            cursor@,
            owner,
        ),
{
    let ghost all = publications@;
    let ghost views = publications_view(all);
    let ghost mut n: nat = 0;
    let mut i: usize = 0;
    assert(publications_view(publications@.take(0)) =~= left_publication(views, 0, cursor@, owner));
    assert(publications@.skip(0) =~= all.skip(0));
    while i < publications.len()
        invariant
            views == publications_view(all),
            n <= all.len(),
            i <= publications@.len(),
            publications@.len() - i == all.len() - n,
            publications_view(publications@.take(i as int)) == left_publication(
                views,
                n,
                cursor@,
                owner,
            ),
            publications@.skip(i as int) == all.skip(n as int),
        decreases publications@.len() - i,
    {
        let ghost at = publications@;
        let ghost kept = publications_view(at.take(i as int));
        proof {
            assert(at[i as int] == at.skip(i as int)[0]);
            assert(all[n as int] == all.skip(n as int)[0]);
            assert(views[n as int] == all[n as int]@);
            n = n + 1;
            assert(at.skip(i as int + 1) =~= at.skip(i as int).skip(1));
            assert(all.skip(n as int) =~= all.skip(n as int - 1).skip(1));
        }
        if !publications[i].cursor.same_key(cursor) {
            i += 1;
            assert(publications_view(publications@.take(i as int)) =~= kept.push(views[n - 1]));
        } else {
            drop_waiting(&mut publications[i].waiting, owner);
            let ghost left = publications[i as int]@;
            assert(left =~= PublicationV {
                waiting: without_waiting(views[n - 1].waiting, views[n - 1].waiting.len(), owner),
                ..views[n - 1]
            });
            if publications[i].waiting.len() == 0 {
                publications.remove(i);
                proof {
                    assert(publications@.take(i as int) =~= at.take(i as int));
                    assert(publications@.skip(i as int) =~= at.skip(i as int).skip(1));
                }
            } else {
                i += 1;
                proof {
                    assert(publications@.skip(i as int) =~= at.skip(i as int));
                    assert(publications_view(publications@.take(i as int)) =~= kept.push(left));
                }
            }
        }
    }
    assert(publications@.take(i as int) =~= publications@);
}

/// The owners whose hold was not used for too long, of the first `n`.
pub open spec fn expired_owners(owners: Seq<NativeCursorOwner>, n: nat, now_ms: u64, ttl_ms: u64) -> Seq<
    u64,
>
    decreases n,
{
    if n == 0 || n > owners.len() {
        Seq::empty()
    } else {
        let before = expired_owners(owners, (n - 1) as nat, now_ms, ttl_ms);
        if owners[n - 1].touched_ms + ttl_ms <= now_ms {
            before.push(owners[n - 1].owner)
        } else {
            before
        }
    }
}

/// The goodbye of an expired hold.
pub open spec fn expiry_of(binding: NativeCursorOwner) -> ActionV {
    ActionV::Control(
        binding.owner,
        StreamV::HistoryTombstone {
            terminal_id: binding.terminal_id,
            stream_id: binding.stream_id,
            bootstrap_id: binding.bootstrap_id,
            cursor: binding.cursor@,
            reason: HistoryTombstoneReason::Expired,
        },
    )
}

/// The goodbye of a generation that ends early.
pub open spec fn tombstone_of(
    binding: NativeCursorOwner,
    reason: TombstoneReason,
    last_valid_seq: u64,
) -> ActionV {
    ActionV::Control(
        binding.owner,
        StreamV::Tombstone {
            terminal_id: binding.terminal_id,
            stream_id: binding.stream_id,
            bootstrap_id: binding.bootstrap_id,
            reason,
            last_valid_seq,
        },
    )
}

impl NativeV {
    /// The host after the first `n` of `ids` expired, and what they are told.
    pub open spec fn expired(self, ids: Seq<u64>, n: nat) -> (Self, Seq<ActionV>)
        decreases n,
    {
        if n == 0 || n > ids.len() {
            (self, Seq::empty())
        } else {
            let (host, said) = self.expired(ids, (n - 1) as nat);
            match host.hold(ids[n - 1]) {
                Some(binding) => (host.released(ids[n - 1]), said.push(expiry_of(binding))),
                None => (host, said),
            }
        }
    }

    /// The host after `owner` attached anew, and what it is told.
    pub open spec fn invalidated(
        self,
        owner: u64,
        reason: TombstoneReason,
        last_valid_seq: u64,
    ) -> (Self, Seq<ActionV>) {
        (
            self.released(owner),
            match self.hold(owner) {
                Some(binding) => seq![tombstone_of(binding, reason, last_valid_seq)],
                None => Seq::empty(),
            },
        )
    }
}

proof fn lemma_hold_owner(owners: Seq<NativeCursorOwner>, owner: u64, i: int)
    requires
        0 <= i,
    ensures
        hold_from(owners, owner, i) matches Some(binding) ==> binding.owner == owner,
    decreases owners.len() - i,
{
    if i < owners.len() && owners[i].owner != owner {
        lemma_hold_owner(owners, owner, i + 1);
    }
}

impl NativeV {
    /// Whether the generation under `cursor` goes with the next of its owners.
    pub open spec fn is_last_owner(self, cursor: Seq<u8>) -> bool {
        self.generations.contains_key(cursor) && self.generations[cursor].owners <= 1
    }
}

impl NativeHost {
    /// The hold of `owner`.
    pub fn hold_of(&self, owner: u64) -> (found: Option<NativeCursorOwner>)
        ensures
            found == self@.hold(owner),
    {
        let mut i: usize = 0;
        while i < self.owners.len()
            invariant
                i <= self.owners@.len(),
                hold_from(self.owners@, owner, 0) == hold_from(self.owners@, owner, i as int),
            decreases self.owners@.len() - i,
        {
            if self.owners[i].owner == owner {
                return Some(self.owners[i].clone());
            }
            i += 1;
        }
        None
    }

    fn forget_requests(&mut self, owner: u64)
        requires
            old(self).wf(),
        ensures
            final(self).wf(),
            final(self).retired() == old(self).retired(),
            final(self)@ == old(self)@.forgotten(owner),
    {
        proof {
            if let Some(pending) = self@.pending {
                lemma_limits_kept(pending.waiters, pending.waiters.len(), owner, pending.limits);
            }
        }
        match &mut self.pending {
            Some(pending) => {
                drop_requests(&mut pending.waiters, owner);
            },
            None => {},
        }
        drop_requests(&mut self.backlog, owner);
        assert(self@ =~= old(self)@.forgotten(owner));
    }

    fn unbind(&mut self, owner: u64, cursor: &OpaqueHistoryCursor)
        requires
            old(self).wf(),
        ensures
            final(self).wf(),
            old(self).sheds(*final(self)),
            old(self).manager matches Ok(before) ==> final(self).manager matches Ok(after)
                && exists|held: bool| after@ == (#[trigger] before@.released(cursor@, held)).0,
            final(self)@ == old(self)@.unbound(owner, cursor@),
    {
        drop_owner(&mut self.owners, owner);
        leave_publication(&mut self.publications, cursor, owner);
        match &mut self.manager {
            Ok(manager) => {
                let _ = manager.release_generation(cursor);
            },
            Err(_) => {},
        }
        assert(self@ =~= old(self)@.unbound(owner, cursor@));
    }

    /// Let go of everything that `owner` asked for or holds, where `held` says
    /// whether anybody else holds a payload of its history once that is gone.
    pub fn release_native_owner_with(&mut self, owner: u64, held: bool)
        requires
            old(self).wf(),
        ensures
            final(self).wf(),
            final(self)@ == old(self)@.released(owner),
            final(self).retired() == (match old(self)@.hold(owner) {
                Some(binding) if held && old(self)@.is_last_owner(binding.cursor@) => old(
                    self,
                ).retired().push(binding.cursor@),
                _ => old(self).retired(),
            }),
    {
        let hold = self.hold_of(owner);
        self.forget_requests(owner);
        match hold {
            Some(binding) => {
                let ghost before = *self;
                drop_owner(&mut self.owners, owner);
                leave_publication(&mut self.publications, &binding.cursor, owner);
                match &mut self.manager {
                    Ok(manager) => {
                        let _ = manager.release_with(&binding.cursor, held);
                    },
                    Err(_) => {},
                }
                assert(self@ =~= before@.unbound(owner, binding.cursor@));
            },
            None => {},
        }
    }

    /// Let go of everything that `owner` asked for or holds.
    pub fn release_native_owner(&mut self, owner: u64)
        requires
            old(self).wf(),
        ensures
            final(self).wf(),
            old(self).sheds(*final(self)),
            final(self)@ == old(self)@.released(owner),
    {
        let hold = self.hold_of(owner);
        self.forget_requests(owner);
        match hold {
            Some(binding) => {
                self.unbind(owner, &binding.cursor);
            },
            None => {},
        }
    }

    /// `owner` attaches anew: let go of what it held, and tell it that its
    /// generation ended.
    pub fn invalidate_native_owner(
        &mut self,
        owner: u64,
        reason: TombstoneReason,
        last_valid_seq: u64,
        out: &mut Vec<NativeAction>,
    )
        requires
            old(self).wf(),
        ensures
            final(self).wf(),
            old(self).sheds(*final(self)),
            ({
                let (host, said) = old(self)@.invalidated(owner, reason, last_valid_seq);
                final(self)@ == host && actions(final(out)@) == actions(old(out)@) + said
            }),
    {
        let ghost before = actions(out@);
        let hold = self.hold_of(owner);
        self.release_native_owner(owner);
        match hold {
            Some(binding) => {
                proof {
                    lemma_hold_owner(old(self)@.owners, owner, 0);
                }
                let ghost said = tombstone_of(binding, reason, last_valid_seq);
                act(
                    out,
                    NativeAction::Control {
                        owner,
                        frame: FrameKind::BootstrapTombstone {
                            terminal_id: binding.terminal_id,
                            stream_id: binding.stream_id,
                            bootstrap_id: binding.bootstrap_id,
                            reason,
                            last_valid_seq,
                        },
                    },
                );
                assert(actions(out@) =~= before + seq![said]);
            },
            None => {
                assert(actions(out@) =~= before + Seq::<ActionV>::empty());
            },
        }
    }

    /// Let go of every hold that was not used for too long, and say so.
    pub fn expire_native_cursors(&mut self, now_ms: u64, out: &mut Vec<NativeAction>)
        requires
            old(self).wf(),
        ensures
            final(self).wf(),
            old(self).sheds(*final(self)),
            ({
                let ids = expired_owners(
                    old(self)@.owners,
                    old(self)@.owners.len(),
                    now_ms,
                    old(self)@.budgets.history_ttl_ms,
                );
                let (host, said) = old(self)@.expired(ids, ids.len());
                final(self)@ == host && actions(final(out)@) == actions(old(out)@) + said
            }),
    {
        let ghost before = actions(out@);
        let ghost start = self@;
        let ttl: u64 = self.budgets.history_ttl_ms;
        let mut ids: Vec<u64> = Vec::new();
        let mut i: usize = 0;
        while i < self.owners.len()
            invariant
                i <= self.owners@.len(),
                ids@ == expired_owners(self.owners@, i as nat, now_ms, ttl),
            decreases self.owners@.len() - i,
        {
            if now_ms >= ttl && self.owners[i].touched_ms <= now_ms - ttl {
                ids.push(self.owners[i].owner);
            }
            i += 1;
        }
        let mut k: usize = 0;
        assert(actions(out@) =~= before + start.expired(ids@, 0).1);
        while k < ids.len()
            invariant
                k <= ids@.len(),
                self.wf(),
                old(self).sheds(*self),
                self@ == start.expired(ids@, k as nat).0,
                actions(out@) == before + start.expired(ids@, k as nat).1,
            decreases ids@.len() - k,
        {
            let ghost said = start.expired(ids@, k as nat).1;
            let owner: u64 = ids[k];
            match self.hold_of(owner) {
                Some(binding) => {
                    proof {
                        lemma_hold_owner(self@.owners, owner, 0);
                    }
                    let cursor = cursor_payload(&binding.cursor);
                    act(
                        out,
                        NativeAction::Control {
                            owner,
                            frame: FrameKind::HistoryTombstone {
                                terminal_id: binding.terminal_id,
                                stream_id: binding.stream_id,
                                bootstrap_id: binding.bootstrap_id,
                                cursor,
                                reason: HistoryTombstoneReason::Expired,
                            },
                        },
                    );
                    let ghost was = *self;
                    self.release_native_owner(owner);
                    proof {
                        lemma_shed_twice(
                            old(self).retired(),
                            old(self)@.generations.dom(),
                            was,
                            *self,
                        );
                    }
                    assert(actions(out@) =~= before + said.push(expiry_of(binding)));
                },
                None => {},
            }
            k += 1;
        }
    }
}

} // verus!
