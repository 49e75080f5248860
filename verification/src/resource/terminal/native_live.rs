//! Live output while captures and publications are open, picking a publication
//! up, and ending everything at once.

use super::native_bootstrap::{refusals, refuse_waiters};
use super::native_model::{
    act, actions, lemma_shed_twice, let_go, publications_view, without_waiting, ActionV, NativeAction,
    NativeCursorOwner, NativeHost, NativeV, Output, PendingV, PublicationV,
};
use super::native_owners::{drop_waiting, tombstone_of};
use super::native_publication::published_from;
use crate::assoc::Keyed;
use crate::ids::{BootstrapId, StreamId, TerminalId};
use crate::native_state::cut::OpaqueHistoryCursor;
use crate::native_state::error::NativeStateError;
use crate::native_state::generation::GenerationV;
use crate::payload::contents;
use crate::wire::{FrameKind, TombstoneReason};
use bytes::Bytes;
use vstd::prelude::*;

verus! {

/// The first `n` of `publications` with one more output, where it fits.
pub open spec fn extended(publications: Seq<PublicationV>, n: nat, output: Output, most: int) -> Seq<
    PublicationV,
>
    decreases n,
{
    if n == 0 || n > publications.len() {
        Seq::empty()
    } else {
        let publication = publications[n - 1];
        let total = publication.replay_bytes + contents(output.bytes).len();
        extended(publications, (n - 1) as nat, output, most).push(
            if total <= most {
                PublicationV {
                    replay: publication.replay.push(output),
                    replay_bytes: total,
                    ..publication
                }
            } else {
                publication
            },
        )
    }
}

/// Those of the first `n` publications that one more output does not fit.
pub open spec fn overflowed(publications: Seq<PublicationV>, n: nat, output: Output, most: int) -> Seq<
    Seq<u8>,
>
    decreases n,
{
    if n == 0 || n > publications.len() {
        Seq::empty()
    } else {
        let before = overflowed(publications, (n - 1) as nat, output, most);
        if publications[n - 1].replay_bytes + contents(output.bytes).len() <= most {
            before
        } else {
            before.push(publications[n - 1].cursor)
        }
    }
}

/// A consumer picks a publication up.
#[derive(Debug, PartialEq, Eq)]
pub struct NativePublicationRequest {
    /// The consumer's pump.
    pub owner: u64,
    /// The history that goes with it.
    pub cursor: OpaqueHistoryCursor,
    /// The terminal, as the consumer names it.
    pub terminal_id: TerminalId,
    /// The stream.
    pub stream_id: StreamId,
    /// The generation.
    pub bootstrap_id: BootstrapId,
}

/// A stream that has to be told to synchronize anew.
#[derive(Debug, Clone, Copy, PartialEq, Eq, Structural)]
pub struct ResyncTarget {
    /// The consumer's pump.
    pub owner: u64,
    /// The stream.
    pub stream_id: StreamId,
    /// The generation.
    pub bootstrap_id: BootstrapId,
}

/// Whether a hold is the one that is named.
pub open spec fn holds_this(
    binding: NativeCursorOwner,
    cursor: Seq<u8>,
    terminal_id: TerminalId,
    stream_id: StreamId,
    bootstrap_id: BootstrapId,
) -> bool {
    &&& binding.cursor@ == cursor
    &&& binding.terminal_id@ == terminal_id@
    &&& binding.stream_id == stream_id
    &&& binding.bootstrap_id == bootstrap_id
}

/// Whether a hold is the one that is named.
pub fn hold_matches(
    binding: &NativeCursorOwner,
    cursor: &OpaqueHistoryCursor,
    terminal_id: &TerminalId,
    stream_id: StreamId,
    bootstrap_id: BootstrapId,
) -> (matching: bool)
    ensures
        matching == holds_this(*binding, cursor@, *terminal_id, stream_id, bootstrap_id),
{
    binding.cursor.same_key(cursor) && binding.terminal_id.same(terminal_id)
        && binding.stream_id.raw == stream_id.raw && binding.bootstrap_id.raw == bootstrap_id.raw
}

/// The first `n` holds as streams to synchronize anew.
pub open spec fn targets(owners: Seq<NativeCursorOwner>, n: nat) -> Seq<ResyncTarget>
    decreases n,
{
    if n == 0 || n > owners.len() {
        Seq::empty()
    } else {
        targets(owners, (n - 1) as nat).push(
            ResyncTarget {
                owner: owners[n - 1].owner,
                stream_id: owners[n - 1].stream_id,
                bootstrap_id: owners[n - 1].bootstrap_id,
            },
        )
    }
}

/// The goodbyes of the first `n` holds.
pub open spec fn tombstones(
    owners: Seq<NativeCursorOwner>,
    n: nat,
    reason: TombstoneReason,
    last_valid_seq: u64,
) -> Seq<ActionV>
    decreases n,
{
    if n == 0 || n > owners.len() {
        Seq::empty()
    } else {
        tombstones(owners, (n - 1) as nat, reason, last_valid_seq).push(
            tombstone_of(owners[n - 1], reason, last_valid_seq),
        )
    }
}

/// The generations after the first `n` holds let go.
pub open spec fn let_go_each(
    generations: Map<Seq<u8>, GenerationV>,
    owners: Seq<NativeCursorOwner>,
    n: nat,
) -> Map<Seq<u8>, GenerationV>
    decreases n,
{
    if n == 0 || n > owners.len() {
        generations
    } else {
        let_go(let_go_each(generations, owners, (n - 1) as nat), owners[n - 1].cursor@)
    }
}

impl NativeV {
    /// The host after the first `n` of `owners` were released.
    pub open spec fn released_each(self, owners: Seq<u64>, n: nat) -> Self
        decreases n,
    {
        if n == 0 || n > owners.len() {
            self
        } else {
            self.released_each(owners, (n - 1) as nat).released(owners[n - 1])
        }
    }

    /// The host without the publication under `cursor`; whoever waited for it
    /// is released.
    pub open spec fn without_publication(self, cursor: Seq<u8>) -> Self {
        match published_from(self.publications, cursor, 0) {
            Some(i) => {
                let waiting = self.publications[i].waiting;
                NativeV { publications: self.publications.remove(i), ..self }.released_each(
                    waiting,
                    waiting.len(),
                )
            },
            None => self,
        }
    }

    /// The host without the publications under the first `n` of `cursors`.
    pub open spec fn without_publications(self, cursors: Seq<Seq<u8>>, n: nat) -> Self
        decreases n,
    {
        if n == 0 || n > cursors.len() {
            self
        } else {
            self.without_publications(cursors, (n - 1) as nat).without_publication(
                cursors[n - 1],
            )
        }
    }

    /// The host after its capture, if there is one, took the output in; what is
    /// to be done; and whether the output is held back from the terminal.
    pub open spec fn held(self, output: Output) -> (Self, Seq<ActionV>, bool) {
        match self.pending {
            Some(pending) => {
                let total = pending.replay_bytes + contents(output.bytes).len();
                if total > self.budgets.max_replay_bytes {
                    (
                        self.dropped(),
                        self.drop_actions() + refusals(
                            pending.waiters,
                            pending.waiters.len(),
                            NativeStateError::LimitExceeded,
                        ),
                        false,
                    )
                } else {
                    (
                        NativeV {
                            pending: Some(
                                PendingV {
                                    replay: pending.replay.push(output),
                                    replay_bytes: total,
                                    ..pending
                                },
                            ),
                            ..self
                        },
                        Seq::empty(),
                        true,
                    )
                }
            },
            None => (self, Seq::empty(), false),
        }
    }

    /// The host after live output.
    pub open spec fn buffered(self, output: Output) -> (Self, Seq<ActionV>, bool) {
        let (host, said, deferred) = self.held(output);
        let most = self.budgets.max_replay_bytes as int;
        let n = host.publications.len();
        let gone = overflowed(host.publications, n, output, most);
        (
            NativeV {
                publications: extended(host.publications, n, output, most),
                ..host
            }.without_publications(gone, gone.len()),
            said,
            deferred,
        )
    }

    /// The host after a consumer picked a publication up, and what it gets.
    pub open spec fn picked_up(self, req: NativePublicationRequest) -> (
        Self,
        Result<Seq<Output>, NativeStateError>,
    ) {
        let refused = (self, Err(NativeStateError::InvalidHandle));
        match (self.hold(req.owner), published_from(self.publications, req.cursor@, 0)) {
            (Some(binding), Some(i)) if holds_this(
                binding,
                req.cursor@,
                req.terminal_id,
                req.stream_id,
                req.bootstrap_id,
            ) => {
                let publication = self.publications[i];
                if !publication.waiting.contains(req.owner) {
                    refused
                } else {
                    let waiting = without_waiting(
                        publication.waiting,
                        publication.waiting.len(),
                        req.owner,
                    );
                    (
                        NativeV {
                            publications: if waiting.len() == 0 {
                                self.publications.remove(i)
                            } else {
                                self.publications.update(
                                    i,
                                    PublicationV { waiting, ..publication },
                                )
                            },
                            ..self
                        },
                        Ok(publication.replay),
                    )
                }
            },
            _ => refused,
        }
    }

    /// The host after everything native ended: nothing is pending, in line,
    /// held or published.
    pub open spec fn ended(self, reason: TombstoneReason, last_valid_seq: u64) -> (
        Self,
        Seq<ActionV>,
    ) {
        let cleared = NativeV { backlog: Seq::empty(), ..self };
        let (host, said) = cleared.failed(NativeStateError::Resize);
        let n = host.owners.len();
        (
            NativeV {
                owners: Seq::empty(),
                publications: Seq::empty(),
                generations: let_go_each(host.generations, host.owners, n),
                ..host
            },
            said + tombstones(host.owners, n, reason, last_valid_seq),
        )
    }
}

/// Output behind a result, as contracts speak of it.
pub open spec fn outputs_view(outputs: Result<Vec<Output>, NativeStateError>) -> Result<
    Seq<Output>,
    NativeStateError,
> {
    match outputs {
        Ok(outputs) => Ok(outputs@),
        Err(error) => Err(error),
    }
}

fn contains_owner(waiting: &Vec<u64>, owner: u64) -> (there: bool)
    ensures
        there == waiting@.contains(owner),
{
    let mut i: usize = 0;
    while i < waiting.len()
        invariant
            i <= waiting@.len(),
            forall|j: int| 0 <= j < i ==> waiting@[j] != owner,
        decreases waiting@.len() - i,
    {
        if waiting[i] == owner {
            assert(waiting@.contains(owner));
            return true;
        }
        i += 1;
    }
    false
}

fn copy_outputs(outputs: &Vec<Output>) -> (copy: Vec<Output>)
    ensures
        copy@ == outputs@,
{
    let mut copy: Vec<Output> = Vec::new();
    let mut i: usize = 0;
    while i < outputs.len()
        invariant
            i <= outputs@.len(),
            copy@ == outputs@.take(i as int),
        decreases outputs@.len() - i,
    {
        copy.push(outputs[i].clone());
        i += 1;
        assert(copy@ =~= outputs@.take(i as int));
    }
    assert(copy@ =~= outputs@);
    copy
}

impl NativeHost {
    fn release_each(&mut self, owners: &Vec<u64>)
        requires
            old(self).wf(),
        ensures
            final(self).wf(),
            old(self).sheds(*final(self)),
            final(self)@ == old(self)@.released_each(owners@, owners@.len()),
    {
        let mut i: usize = 0;
        while i < owners.len()
            invariant
                i <= owners@.len(),
                self.wf(),
                old(self).sheds(*self),
                self@ == old(self)@.released_each(owners@, i as nat),
            decreases owners@.len() - i,
        {
            let ghost was = *self;
            self.release_native_owner(owners[i]);
            proof {
                lemma_shed_twice(
                    old(self).retired(),
                    old(self)@.generations.dom(),
                    was,
                    *self,
                );
            }
            i += 1;
        }
    }

    fn drop_publication(&mut self, cursor: &OpaqueHistoryCursor)
        requires
            old(self).wf(),
        ensures
            final(self).wf(),
            old(self).sheds(*final(self)),
            final(self)@ == old(self)@.without_publication(cursor@),
    {
        match self.publication_at(cursor) {
            Some(at) => {
                assert(self@.publications[at as int] == self.publications@[at as int]@);
                let publication = self.publications.remove(at);
                proof {
                    assert(self@.publications =~= old(self)@.publications.remove(at as int));
                    assert(self@ =~= NativeV {
                        publications: old(self)@.publications.remove(at as int),
                        ..old(self)@
                    });
                }
                self.release_each(&publication.waiting);
            },
            None => {},
        }
    }

    fn extend_publications(&mut self, output: &Output) -> (gone: Vec<OpaqueHistoryCursor>)
        requires
            old(self).wf(),
        ensures
            final(self).wf(),
            final(self).retired() == old(self).retired(),
            ({
                let most = old(self)@.budgets.max_replay_bytes as int;
                let n = old(self)@.publications.len();
                &&& final(self)@ == (NativeV {
                    publications: extended(old(self)@.publications, n, *output, most),
                    ..old(self)@
                })
                &&& gone@.map_values(|cursor: OpaqueHistoryCursor| cursor@) == overflowed(
                    old(self)@.publications,
                    n,
                    *output,
                    most,
                )
            }),
    {
        let ghost start = self@;
        let ghost all = self.publications@;
        let most: usize = self.budgets.max_replay_bytes;
        let len: usize = output.bytes.len();
        let mut gone: Vec<OpaqueHistoryCursor> = Vec::new();
        let mut i: usize = 0;
        proof {
            assert(gone@.map_values(|cursor: OpaqueHistoryCursor| cursor@) =~= overflowed(
                start.publications,
                0,
                *output,
                most as int,
            ));
            assert(publications_view(self.publications@.take(0)) =~= extended(
                start.publications,
                0,
                *output,
                most as int,
            ));
        }
        while i < self.publications.len()
            invariant
                start.publications == publications_view(all),
                start.publications.len() == all.len(),
                len == contents(output.bytes).len(),
                self.manager == old(self).manager,
                self.pending == old(self).pending,
                self.backlog == old(self).backlog,
                self.owners == old(self).owners,
                self.budgets == old(self).budgets,
                self.publications@.len() == all.len(),
                i <= all.len(),
                forall|j: int| i <= j < all.len() ==> #[trigger] self.publications@[j] == all[j],
                publications_view(self.publications@.take(i as int)) == extended(
                    start.publications,
                    i as nat,
                    *output,
                    most as int,
                ),
                gone@.map_values(|cursor: OpaqueHistoryCursor| cursor@) == overflowed(
                    start.publications,
                    i as nat,
                    *output,
                    most as int,
                ),
            decreases all.len() - i,
        {
            let ghost kept = publications_view(self.publications@.take(i as int));
            let ghost lost = gone@;
            let ghost before = self.publications@;
            let replay_bytes: usize = self.publications[i].replay_bytes;
            proof {
                assert(self.publications@[i as int] == all[i as int]);
                assert(start.publications[i as int] == all[i as int]@);
            }
            if len <= most && replay_bytes <= most - len {
                self.publications[i].replay_bytes = replay_bytes + len;
                self.publications[i].replay.push(output.clone());
            } else {
                let cursor = self.publications[i].cursor;
                gone.push(cursor);
                assert(gone@.map_values(|cursor: OpaqueHistoryCursor| cursor@)
                    =~= lost.map_values(|cursor: OpaqueHistoryCursor| cursor@).push(cursor@));
            }
            proof {
                let now = self.publications@[i as int]@;
                let was = start.publications[i as int];
                let total = was.replay_bytes + contents(output.bytes).len();
                let wanted = if total <= most {
                    PublicationV {
                        replay: was.replay.push(*output),
                        replay_bytes: total,
                        ..was
                    }
                } else {
                    was
                };
                assert(now =~= wanted);
                assert(publications_view(self.publications@.take(i + 1)) =~= kept.push(now));
            }
            i += 1;
        }
        proof {
            assert(self.publications@.take(i as int) =~= self.publications@);
            assert(self@ =~= NativeV {
                publications: extended(
                    start.publications,
                    start.publications.len(),
                    *output,
                    most as int,
                ),
                ..start
            });
        }
        gone
    }

    fn hold_output(&mut self, output: &Output, out: &mut Vec<NativeAction>) -> (deferred: bool)
        requires
            old(self).wf(),
        ensures
            final(self).wf(),
            final(self).retired() == old(self).retired(),
            ({
                let (host, said, held) = old(self)@.held(*output);
                &&& final(self)@ == host
                &&& actions(final(out)@) == actions(old(out)@) + said
                &&& deferred == held
            }),
    {
        let ghost before = actions(out@);
        let most: usize = self.budgets.max_replay_bytes;
        let len: usize = output.bytes.len();
        let fits = match &self.pending {
            Some(pending) => Some(len <= most && pending.replay_bytes <= most - len),
            None => None,
        };
        match fits {
            Some(false) => {
                let waiters = self.drop_pending(out);
                refuse_waiters(&waiters, NativeStateError::LimitExceeded, out);
                assert(actions(out@) =~= before + old(self)@.held(*output).1);
                false
            },
            Some(true) => {
                match &mut self.pending {
                    Some(pending) => {
                        pending.replay_bytes = pending.replay_bytes + len;
                        pending.replay.push(output.clone());
                    },
                    None => {},
                }
                proof {
                    assert(self@ =~= old(self)@.held(*output).0);
                    assert(actions(out@) =~= before + Seq::<ActionV>::empty());
                }
                true
            },
            None => {
                assert(actions(out@) =~= before + Seq::<ActionV>::empty());
                false
            },
        }
    }

    /// Live output arrived: keep it for the capture and for every publication
    /// that it fits. Whether it is held back from the terminal for now.
    pub fn buffer_native_live_output(
        &mut self,
        seq: u64,
        bytes: &Bytes,
        out: &mut Vec<NativeAction>,
    ) -> (deferred: bool)
        requires
            old(self).wf(),
        ensures
            final(self).wf(),
            old(self).sheds(*final(self)),
            ({
                let (host, said, held) = old(self)@.buffered(Output { seq, bytes: *bytes });
                &&& final(self)@ == host
                &&& actions(final(out)@) == actions(old(out)@) + said
                &&& deferred == held
            }),
    {
        let output = Output { seq, bytes: bytes.clone() };
        let deferred = self.hold_output(&output, out);
        let gone = self.extend_publications(&output);
        let ghost start = self@;
        let ghost cursors = gone@.map_values(|cursor: OpaqueHistoryCursor| cursor@);
        let mut i: usize = 0;
        while i < gone.len()
            invariant
                cursors == gone@.map_values(|cursor: OpaqueHistoryCursor| cursor@),
                cursors.len() == gone@.len(),
                i <= gone@.len(),
                self.wf(),
                old(self).sheds(*self),
                self@ == start.without_publications(cursors, i as nat),
            decreases gone@.len() - i,
        {
            let ghost was = *self;
            assert(cursors[i as int] == gone@[i as int]@);
            self.drop_publication(&gone[i]);
            proof {
                lemma_shed_twice(
                    old(self).retired(),
                    old(self)@.generations.dom(),
                    was,
                    *self,
                );
            }
            i += 1;
        }
        deferred
    }

    /// A consumer picks its publication up: the output that it has yet to get.
    /// From then on it follows the live stream.
    pub fn handle_native_publication(&mut self, req: &NativePublicationRequest) -> (replay: Result<
        Vec<Output>,
        NativeStateError,
    >)
        requires
            old(self).wf(),
        ensures
            final(self).wf(),
            final(self).retired() == old(self).retired(),
            (final(self)@, outputs_view(replay)) == old(self)@.picked_up(*req),
    {
        let ghost start = self@;
        let valid = match self.hold_of(req.owner) {
            Some(binding) => hold_matches(
                &binding,
                &req.cursor,
                &req.terminal_id,
                req.stream_id,
                req.bootstrap_id,
            ),
            None => false,
        };
        if !valid {
            return Err(NativeStateError::InvalidHandle);
        }
        let at: usize = match self.publication_at(&req.cursor) {
            Some(at) => at,
            None => {
                return Err(NativeStateError::InvalidHandle);
            },
        };
        let ghost was = self.publications@[at as int]@;
        let ghost all = self.publications@;
        assert(start.publications[at as int] == was);
        if !contains_owner(&self.publications[at].waiting, req.owner) {
            return Err(NativeStateError::InvalidHandle);
        }
        drop_waiting(&mut self.publications[at].waiting, req.owner);
        let replay = copy_outputs(&self.publications[at].replay);
        if self.publications[at].waiting.len() == 0 {
            self.publications.remove(at);
            assert(self@.publications =~= start.publications.remove(at as int));
        } else {
            assert(self@.publications =~= start.publications.update(
                at as int,
                PublicationV {
                    waiting: without_waiting(was.waiting, was.waiting.len(), req.owner),
                    ..was
                },
            ));
        }
        assert(self@ =~= start.picked_up(*req).0);
        Ok(replay)
    }

    /// End everything native, as a resize does. The streams whose generation
    /// ended come back, to be synchronized anew.
    pub fn invalidate_all_native_cursors(
        &mut self,
        reason: TombstoneReason,
        last_valid_seq: u64,
        out: &mut Vec<NativeAction>,
    ) -> (tombstoned: Vec<ResyncTarget>)
        requires
            old(self).wf(),
        ensures
            final(self).wf(),
            old(self).sheds(*final(self)),
            ({
                let (host, said) = old(self)@.ended(reason, last_valid_seq);
                &&& final(self)@ == host
                &&& actions(final(out)@) == actions(old(out)@) + said
                &&& tombstoned@ == targets(old(self)@.owners, old(self)@.owners.len())
            }),
    {
        let ghost start = self@;
        let ghost before = actions(out@);
        self.backlog = Vec::new();
        assert(self@ =~= NativeV { backlog: Seq::empty(), ..start });
        let ghost cleared = self@;
        if self.pending.is_some() {
            self.fail_native_bootstrap(NativeStateError::Resize, out);
        } else {
            assert(actions(out@) =~= before + Seq::<ActionV>::empty());
        }
        let ghost (failed, said) = cleared.failed(NativeStateError::Resize);
        let mut bindings: Vec<NativeCursorOwner> = Vec::new();
        std::mem::swap(&mut bindings, &mut self.owners);
        self.publications = Vec::new();
        let ghost owners = bindings@;
        let ghost gens = self@.generations;
        let mut tombstoned: Vec<ResyncTarget> = Vec::new();
        let mut i: usize = 0;
        proof {
            assert(owners == start.owners);
            assert(actions(out@) =~= before + (said + tombstones(
                owners,
                0,
                reason,
                last_valid_seq,
            )));
            assert(self@.publications =~= Seq::<PublicationV>::empty());
            assert(self@ =~= NativeV {
                owners: Seq::empty(),
                publications: Seq::empty(),
                generations: let_go_each(gens, owners, 0),
                ..failed
            });
        }
        while i < bindings.len()
            invariant
                owners == bindings@,
                i <= bindings@.len(),
                self.wf(),
                old(self).sheds(*self),
                self@ == (NativeV {
                    owners: Seq::empty(),
                    publications: Seq::empty(),
                    generations: let_go_each(gens, owners, i as nat),
                    ..failed
                }),
                tombstoned@ == targets(owners, i as nat),
                actions(out@) == before + (said + tombstones(
                    owners,
                    i as nat,
                    reason,
                    last_valid_seq,
                )),
            decreases bindings@.len() - i,
        {
            let binding = &bindings[i];
            let ghost told = tombstones(owners, i as nat, reason, last_valid_seq);
            let ghost before_it = *self;
            let ghost was = self@;
            tombstoned.push(
                ResyncTarget {
                    owner: binding.owner,
                    stream_id: binding.stream_id,
                    bootstrap_id: binding.bootstrap_id,
                },
            );
            act(
                out,
                NativeAction::Control {
                    owner: binding.owner,
                    frame: FrameKind::BootstrapTombstone {
                        terminal_id: binding.terminal_id.clone(),
                        stream_id: binding.stream_id,
                        bootstrap_id: binding.bootstrap_id,
                        reason,
                        last_valid_seq,
                    },
                },
            );
            match &mut self.manager {
                Ok(manager) => {
                    let _ = manager.release_generation(&binding.cursor);
                },
                Err(_) => {},
            }
            proof {
                assert(actions(out@) =~= before + (said + told.push(
                    tombstone_of(*binding, reason, last_valid_seq),
                )));
                assert(self@ =~= NativeV {
                    generations: let_go(was.generations, binding.cursor@),
                    ..was
                });
                assert(before_it.sheds(*self));
                lemma_shed_twice(
                    old(self).retired(),
                    old(self)@.generations.dom(),
                    before_it,
                    *self,
                );
            }
            i += 1;
        }
        tombstoned
    }
}

} // verus!
