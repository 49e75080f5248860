//! Publishing a finished capture: installing its history, answering everybody
//! who waited, and keeping the output that each has yet to pick up.

use super::native_bootstrap::{refusals, refuse_waiters, replay_actions, replay_held};
use super::native_model::{
    act, actions, contents_of, lemma_shed_twice, shed_from, without_owner, without_waiting, ActionV,
    NativeAction, NativeBootstrapReply, NativeBootstrapRequest, NativeCursorOwner, NativeHost, NativePublicationGeneration, NativeV,
    Output, PendingNativeBootstrap, PendingV, Phase, PublicationV, ReplyToken, ReplyV,
};
use super::native_reply::{native_bootstrap_reply, reply_for};
use crate::assoc::Keyed;
use crate::native_state::cut::{sha256, OpaqueHistoryCursor};
use crate::native_state::error::{engine_failure, EngineError, NativeStateError};
use crate::native_state::generation::{GenerationV, NativeGenerationBounds};
use crate::native_state::manager::{held_among, NativeGenerationSeed, NativeTerminalManager};
use crate::payload::{contents, payload_bytes};
use bytes::Bytes;
use vstd::prelude::*;

verus! {

/// Whether two payloads hold the same bytes.
pub fn same_bytes(a: &Bytes, b: &Bytes) -> (same: bool)
    ensures
        same == (contents(*a) == contents(*b)),
{
    let left = payload_bytes(a);
    let right = payload_bytes(b);
    if left.len() != right.len() {
        return false;
    }
    let mut i: usize = 0;
    while i < left.len()
        invariant
            i <= left@.len(),
            left@.len() == right@.len(),
            left@ == contents(*a),
            right@ == contents(*b),
            forall|j: int| 0 <= j < i ==> left@[j] == right@[j],
        decreases left@.len() - i,
    {
        if left[i] != right[i] {
            return false;
        }
        i += 1;
    }
    assert(left@ =~= right@);
    true
}

/// Whether two stretches of output are the same.
pub open spec fn same_output(a: Seq<Output>, b: Seq<Output>) -> bool {
    &&& a.len() == b.len()
    &&& forall|i: int|
        0 <= i < a.len() ==> (#[trigger] a[i]).seq == b[i].seq && contents(a[i].bytes) == contents(
            b[i].bytes,
        )
}

fn outputs_match(a: &Vec<Output>, b: &Vec<Output>) -> (same: bool)
    ensures
        same == same_output(a@, b@),
{
    if a.len() != b.len() {
        return false;
    }
    let mut i: usize = 0;
    while i < a.len()
        invariant
            i <= a@.len(),
            a@.len() == b@.len(),
            forall|j: int|
                0 <= j < i ==> (#[trigger] a@[j]).seq == b@[j].seq && contents(a@[j].bytes)
                    == contents(b@[j].bytes),
        decreases a@.len() - i,
    {
        if a[i].seq != b[i].seq || !same_bytes(&a[i].bytes, &b[i].bytes) {
            return false;
        }
        i += 1;
    }
    true
}

/// A request with the answer to it.
#[derive(Debug)]
pub struct Prepared {
    /// The request.
    pub req: NativeBootstrapRequest,
    /// The answer.
    pub answer: NativeBootstrapReply,
}

/// A request with the answer to it, as contracts speak of them.
#[verifier::ext_equal]
pub struct PreparedV {
    /// The request.
    pub req: NativeBootstrapRequest,
    /// The answer.
    pub answer: ReplyV,
}

/// Prepared answers as contracts speak of them.
pub open spec fn prepared_view(prepared: Seq<Prepared>) -> Seq<PreparedV> {
    prepared.map_values(|one: Prepared| PreparedV { req: one.req, answer: one.answer@ })
}

/// What a finished capture is published as.
#[verifier::ext_equal]
pub struct CutV {
    /// The records.
    pub records: Seq<Seq<u8>>,
    /// The memory that they take.
    pub retained_bytes: int,
    /// The history that goes with them.
    pub cursor: Seq<u8>,
    /// The output that they include.
    pub base_seq: u64,
    /// Grid width.
    pub cols: u16,
    /// Grid height.
    pub rows: u16,
}

/// The answers to the first `n` of `waiters`, and the refusals of those whose
/// answer does not fit.
pub open spec fn prepare(waiters: Seq<NativeBootstrapRequest>, n: nat, cut: CutV) -> (
    Seq<PreparedV>,
    Seq<ActionV>,
)
    decreases n,
{
    if n == 0 || n > waiters.len() {
        (Seq::empty(), Seq::empty())
    } else {
        let (prepared, said) = prepare(waiters, (n - 1) as nat, cut);
        let req = waiters[n - 1];
        match reply_for(
            req,
            cut.records,
            cut.retained_bytes,
            cut.cursor,
            cut.base_seq,
            cut.cols,
            cut.rows,
        ) {
            Ok(answer) => (prepared.push(PreparedV { req, answer }), said),
            Err(error) => (prepared, said.push(ActionV::Refuse(req.reply, error))),
        }
    }
}

/// The cut of a finished capture.
pub open spec fn cut_of(pending: PendingV, cursor: Seq<u8>, cols: u16, rows: u16) -> CutV {
    CutV {
        records: pending.records,
        retained_bytes: pending.retained_bytes,
        cursor,
        base_seq: pending.base_seq,
        cols,
        rows,
    }
}

/// The refusals of the first `n` of `prepared`.
pub open spec fn refuse_each(prepared: Seq<PreparedV>, n: nat, error: NativeStateError) -> Seq<
    ActionV,
>
    decreases n,
{
    if n == 0 || n > prepared.len() {
        Seq::empty()
    } else {
        refuse_each(prepared, (n - 1) as nat, error).push(
            ActionV::Refuse(prepared[n - 1].req.reply, error),
        )
    }
}

/// `waiting` with `owner` in it.
pub open spec fn with_waiting(waiting: Seq<u64>, owner: u64) -> Seq<u64> {
    if waiting.contains(owner) {
        waiting
    } else {
        waiting.push(owner)
    }
}

/// `waiting` with the first `n` of `more` in it.
pub open spec fn with_all_waiting(waiting: Seq<u64>, more: Seq<u64>, n: nat) -> Seq<u64>
    decreases n,
{
    if n == 0 || n > more.len() {
        waiting
    } else {
        with_waiting(with_all_waiting(waiting, more, (n - 1) as nat), more[n - 1])
    }
}

/// The publication that goes with `cursor`, by the first of `publications` from
/// `i` on.
pub open spec fn published_from(publications: Seq<PublicationV>, cursor: Seq<u8>, i: int) -> Option<
    int,
>
    decreases publications.len() - i,
{
    if i < 0 || i >= publications.len() {
        None
    } else if publications[i].cursor == cursor {
        Some(i)
    } else {
        published_from(publications, cursor, i + 1)
    }
}

/// A fresh hold on a history.
pub open spec fn fresh_hold(
    req: NativeBootstrapRequest,
    cursor: OpaqueHistoryCursor,
    now_ms: u64,
) -> NativeCursorOwner {
    NativeCursorOwner {
        owner: req.owner,
        cursor,
        record_index: 0,
        touched_ms: now_ms,
        next_page_seq: 1,
        terminal_id: req.terminal_id,
        stream_id: req.stream_id,
        bootstrap_id: req.bootstrap_id,
    }
}

/// What registering the waiters came to.
#[verifier::ext_equal]
pub struct RegisteredV {
    /// The host.
    pub host: NativeV,
    /// Who waits for the publication now.
    pub waiting: Seq<u64>,
    /// How many were registered.
    pub installed: nat,
    /// What is to be done.
    pub said: Seq<ActionV>,
}

impl NativeV {
    /// The host after the generation under `cursor` got another owner, where it
    /// could.
    pub open spec fn retained(self, cursor: Seq<u8>) -> Option<Self> {
        if self.generations.contains_key(cursor) && self.generations[cursor].owners < usize::MAX {
            let generation = self.generations[cursor];
            Some(
                NativeV {
                    generations: self.generations.insert(
                        cursor,
                        GenerationV { owners: generation.owners + 1, ..generation },
                    ),
                    ..self
                },
            )
        } else {
            None
        }
    }

    /// The host after the first `n` of `prepared` were bound to the history
    /// and answered. The first rides on the installation; each other retains
    /// the generation for itself. Whose answer is among `gone`, which nobody
    /// takes any more, is released at once.
    pub open spec fn registered(
        self,
        prepared: Seq<PreparedV>,
        n: nat,
        cursor: OpaqueHistoryCursor,
        installed_new: bool,
        gone: Seq<ReplyToken>,
        now_ms: u64,
    ) -> RegisteredV
        decreases n,
    {
        if n == 0 || n > prepared.len() {
            RegisteredV {
                host: self,
                waiting: Seq::empty(),
                installed: 0,
                said: Seq::empty(),
            }
        } else {
            let before = self.registered(
                prepared,
                (n - 1) as nat,
                cursor,
                installed_new,
                gone,
                now_ms,
            );
            let one = prepared[n - 1];
            let kept = if installed_new && before.installed == 0 {
                Some(before.host)
            } else {
                before.host.retained(cursor@)
            };
            match kept {
                None => RegisteredV {
                    said: before.said.push(
                        ActionV::Refuse(one.req.reply, NativeStateError::LimitExceeded),
                    ),
                    ..before
                },
                Some(host) => {
                    let bound = NativeV {
                        owners: without_owner(
                            host.owners,
                            host.owners.len(),
                            one.req.owner,
                        ).push(fresh_hold(one.req, cursor, now_ms)),
                        ..host
                    };
                    if gone.contains(one.req.reply) {
                        RegisteredV {
                            host: bound.released(one.req.owner),
                            waiting: without_waiting(
                                before.waiting,
                                before.waiting.len(),
                                one.req.owner,
                            ),
                            installed: before.installed + 1,
                            said: before.said,
                        }
                    } else {
                        RegisteredV {
                            host: bound,
                            waiting: with_waiting(before.waiting, one.req.owner),
                            installed: before.installed + 1,
                            said: before.said.push(
                                ActionV::Answer(one.req.reply, one.req.owner, one.answer),
                            ),
                        }
                    }
                },
            }
        }
    }

    /// The host after those who wait were added to the publication.
    pub open spec fn recorded(
        self,
        cursor: Seq<u8>,
        base_seq: u64,
        replay: Seq<Output>,
        replay_bytes: int,
        waiting: Seq<u64>,
    ) -> Self {
        NativeV {
            publications: match published_from(self.publications, cursor, 0) {
                Some(i) => self.publications.update(
                    i,
                    PublicationV {
                        waiting: with_all_waiting(
                            self.publications[i].waiting,
                            waiting,
                            waiting.len(),
                        ),
                        ..self.publications[i]
                    },
                ),
                None => self.publications.push(
                    PublicationV { cursor, base_seq, replay, replay_bytes, waiting },
                ),
            },
            ..self
        }
    }

    /// Whether what is published under `cursor` differs from what is about to
    /// be: publishing over it would hand two replicas different output for the
    /// same history.
    pub open spec fn conflicts(self, cursor: Seq<u8>, base_seq: u64, replay: Seq<Output>) -> bool {
        match published_from(self.publications, cursor, 0) {
            Some(i) => self.publications[i].base_seq != base_seq || !same_output(
                self.publications[i].replay,
                replay,
            ),
            None => false,
        }
    }

    /// The host after a finished capture was published. `room` says whether
    /// another generation could be installed. Whoever waited is answered
    /// exactly once, wherever the publication fails.
    pub open spec fn published(
        self,
        pending: PendingV,
        cursor: OpaqueHistoryCursor,
        bounds: NativeGenerationBounds,
        room: bool,
        gone: Seq<ReplyToken>,
        cols: u16,
        rows: u16,
        now_ms: u64,
    ) -> (Self, Seq<ActionV>) {
        let (prepared, said) = prepare(
            pending.waiters,
            pending.waiters.len(),
            cut_of(pending, cursor@, cols, rows),
        );
        let known = self.generations.contains_key(cursor@);
        let host = if known || !room {
            self
        } else {
            NativeV {
                generations: self.generations.insert(
                    cursor@,
                    GenerationV::fresh(cursor@, bounds),
                ),
                ..self
            }
        };
        if prepared.len() == 0 {
            (self, said)
        } else if !known && !room {
            (
                self,
                said + refuse_each(prepared, prepared.len(), NativeStateError::LimitExceeded),
            )
        } else if host.conflicts(cursor@, pending.base_seq, pending.replay) {
            (
                host,
                said + refuse_each(prepared, prepared.len(), NativeStateError::LimitExceeded),
            )
        } else {
            let done = host.registered(prepared, prepared.len(), cursor, !known, gone, now_ms);
            if done.waiting.len() == 0 {
                (done.host, said + done.said)
            } else {
                (
                    done.host.recorded(
                        cursor@,
                        pending.base_seq,
                        pending.replay,
                        pending.replay_bytes,
                        done.waiting,
                    ),
                    said + done.said,
                )
            }
        }
    }

    /// Whether room is looked for, for the generation of a finished capture:
    /// somebody can be answered, the generation is not there yet, and its bounds
    /// can be reserved.
    pub open spec fn looks_for_room(
        self,
        pending: PendingV,
        cursor: Seq<u8>,
        bounds: NativeGenerationBounds,
        cols: u16,
        rows: u16,
    ) -> bool {
        &&& prepare(
            pending.waiters,
            pending.waiters.len(),
            cut_of(pending, cursor, cols, rows),
        ).0.len() > 0
        &&& !self.generations.contains_key(cursor)
        &&& bounds.reservation() <= usize::MAX
    }

    /// Whether a finished capture is published once the engine let the cut go.
    pub open spec fn publishes(self, outcome: Result<(), EngineError>) -> bool {
        &&& self.pending matches Some(pending)
        &&& pending.phase is Detaching
        &&& pending.capture matches Some(capture)
        &&& capture.ready
        &&& outcome is Ok
    }

    /// The host after the engine was asked to let the cut go.
    pub open spec fn detached(
        self,
        outcome: Result<(), EngineError>,
        cursor: OpaqueHistoryCursor,
        room: bool,
        gone: Seq<ReplyToken>,
        cols: u16,
        rows: u16,
        now_ms: u64,
    ) -> (Self, Seq<ActionV>) {
        match (self.pending, self.capture()) {
            (Some(pending), Some(capture)) if pending.phase is Detaching => {
                let host = self.dropped();
                let held = replay_actions(pending.replay);
                let failure = if !capture.ready {
                    Some(NativeStateError::InvalidState)
                } else {
                    match outcome {
                        Ok(_) => None,
                        Err(error) => Some(engine_failure(error)),
                    }
                };
                match failure {
                    Some(error) => {
                        let (after, more) = host.next_started();
                        (
                            after,
                            held + refusals(pending.waiters, pending.waiters.len(), error) + more,
                        )
                    },
                    None => {
                        let (mid, said) = host.published(
                            pending,
                            cursor,
                            capture.bounds,
                            room,
                            gone,
                            cols,
                            rows,
                            now_ms,
                        );
                        let (after, more) = mid.next_started();
                        (after, held + said + more)
                    },
                }
            },
            _ => (self, Seq::empty()),
        }
    }
}

/// Whether another generation can be installed: there is capacity beside the
/// generations and those that are gone and still charged for by `held`, and the
/// bounds can be reserved.
pub open spec fn room_for(
    manager: Result<NativeTerminalManager, NativeStateError>,
    bounds: NativeGenerationBounds,
    held: Seq<bool>,
) -> bool {
    &&& manager matches Ok(manager)
    &&& manager@.reaped(held).retained() < manager@.capacity
    &&& bounds.reservation() <= usize::MAX
}

/// The bounds of the capture under way.
pub open spec fn captured_bounds(host: NativeV) -> NativeGenerationBounds {
    host.capture()->Some_0.bounds
}

fn is_gone(gone: &Vec<ReplyToken>, reply: ReplyToken) -> (found: bool)
    ensures
        found == gone@.contains(reply),
{
    let mut i: usize = 0;
    while i < gone.len()
        invariant
            i <= gone@.len(),
            forall|j: int| 0 <= j < i ==> gone@[j] != reply,
        decreases gone@.len() - i,
    {
        if gone[i] == reply {
            return true;
        }
        i += 1;
    }
    false
}

fn prepare_native_bootstrap_replies(
    waiters: &Vec<NativeBootstrapRequest>,
    records: &Vec<Bytes>,
    record_retained_bytes: usize,
    cursor: OpaqueHistoryCursor,
    base_seq: u64,
    cols: u16,
    rows: u16,
    out: &mut Vec<NativeAction>,
) -> (prepared: Vec<Prepared>)
    requires
        forall|i: int|
            0 <= i < waiters@.len() ==> (#[trigger] waiters@[i]).limits.max_chunk_bytes >= 1,
    ensures
        ({
            let cut = CutV {
                records: contents_of(records@),
                retained_bytes: record_retained_bytes as int,
                cursor: cursor@,
                base_seq,
                cols,
                rows,
            };
            let (ready, said) = prepare(waiters@, waiters@.len(), cut);
            prepared_view(prepared@) == ready && actions(final(out)@) == actions(old(out)@) + said
        }),
{
    let ghost cut = CutV {
        records: contents_of(records@),
        retained_bytes: record_retained_bytes as int,
        cursor: cursor@,
        base_seq,
        cols,
        rows,
    };
    let ghost before = actions(out@);
    let mut prepared: Vec<Prepared> = Vec::new();
    let mut i: usize = 0;
    proof {
        assert(prepared_view(prepared@) =~= prepare(waiters@, 0, cut).0);
        assert(actions(out@) =~= before + prepare(waiters@, 0, cut).1);
    }
    while i < waiters.len()
        invariant
            forall|i: int|
                0 <= i < waiters@.len() ==> (#[trigger] waiters@[i]).limits.max_chunk_bytes >= 1,
            cut == (CutV {
                records: contents_of(records@),
                retained_bytes: record_retained_bytes as int,
                cursor: cursor@,
                base_seq,
                cols,
                rows,
            }),
            i <= waiters@.len(),
            prepared_view(prepared@) == prepare(waiters@, i as nat, cut).0,
            actions(out@) == before + prepare(waiters@, i as nat, cut).1,
        decreases waiters@.len() - i,
    {
        let ghost held = prepared@;
        let ghost said = prepare(waiters@, i as nat, cut).1;
        match native_bootstrap_reply(
            &waiters[i],
            records,
            record_retained_bytes,
            cursor,
            base_seq,
            cols,
            rows,
        ) {
            Ok(answer) => {
                let one = Prepared { req: waiters[i].clone(), answer };
                let ghost seen = PreparedV { req: one.req, answer: one.answer@ };
                prepared.push(one);
                assert(prepared_view(prepared@) =~= prepared_view(held).push(seen));
            },
            Err(error) => {
                act(out, NativeAction::Refuse { reply: waiters[i].reply, error });
                assert(actions(out@) =~= before + said.push(
                    ActionV::Refuse(waiters@[i as int].reply, error),
                ));
            },
        }
        i += 1;
    }
    prepared
}

fn fail_native_waiters(
    prepared: &Vec<Prepared>,
    error: NativeStateError,
    out: &mut Vec<NativeAction>,
)
    ensures
        actions(final(out)@) == actions(old(out)@) + refuse_each(
            prepared_view(prepared@),
            prepared@.len(),
            error,
        ),
{
    let ghost before = actions(out@);
    let ghost views = prepared_view(prepared@);
    let mut i: usize = 0;
    assert(actions(out@) =~= before + refuse_each(views, 0, error));
    while i < prepared.len()
        invariant
            views == prepared_view(prepared@),
            i <= prepared@.len(),
            actions(out@) == before + refuse_each(views, i as nat, error),
        decreases prepared@.len() - i,
    {
        let ghost said = refuse_each(views, i as nat, error);
        act(out, NativeAction::Refuse { reply: prepared[i].req.reply, error });
        i += 1;
        assert(actions(out@) =~= before + said.push(
            ActionV::Refuse(views[i - 1].req.reply, error),
        ));
    }
}

fn add_waiting(waiting: &mut Vec<u64>, owner: u64)
    ensures
        final(waiting)@ == with_waiting(old(waiting)@, owner),
{
    let mut i: usize = 0;
    while i < waiting.len()
        invariant
            waiting@ == old(waiting)@,
            i <= waiting@.len(),
            forall|j: int| 0 <= j < i ==> waiting@[j] != owner,
        decreases waiting@.len() - i,
    {
        if waiting[i] == owner {
            assert(waiting@.contains(owner));
            return;
        }
        i += 1;
    }
    waiting.push(owner);
}

impl NativeHost {
    /// The host after the engine was asked to let the cut go, and what is to be
    /// done. `gone` are the answers that nobody takes any more; `held` says which
    /// of the generations that are gone are still charged for.
    pub open spec fn detached_as(
        &self,
        outcome: Result<(), EngineError>,
        cursor: OpaqueHistoryCursor,
        gone: Seq<ReplyToken>,
        held: Seq<bool>,
        cols: u16,
        rows: u16,
        now_ms: u64,
    ) -> (NativeV, Seq<ActionV>) {
        self@.detached(
            outcome,
            cursor,
            room_for(self.manager, captured_bounds(self@), held),
            gone,
            cols,
            rows,
            now_ms,
        )
    }

    /// Whether what is gone and counts for `after` follows from a detached
    /// capture. Where room is looked for, what is not held by `held` counts no
    /// longer. A generation that is installed may go again with its last owner.
    pub open spec fn sheds_detaching(
        &self,
        outcome: Result<(), EngineError>,
        cursor: OpaqueHistoryCursor,
        held: Seq<bool>,
        cols: u16,
        rows: u16,
        after: NativeHost,
    ) -> bool {
        if self@.publishes(outcome) {
            self.sheds_publishing(
                self@.pending->Some_0,
                cursor,
                captured_bounds(self@),
                held,
                cols,
                rows,
                after,
            )
        } else {
            after.retired() == self.retired()
        }
    }

    /// Whether what is gone and counts for `after` follows from the publication
    /// of a finished capture.
    pub open spec fn sheds_publishing(
        &self,
        pending: PendingV,
        cursor: OpaqueHistoryCursor,
        bounds: NativeGenerationBounds,
        held: Seq<bool>,
        cols: u16,
        rows: u16,
        after: NativeHost,
    ) -> bool {
        let looks = self@.looks_for_room(pending, cursor@, bounds, cols, rows);
        let there = self@.generations.dom();
        shed_from(
            if looks {
                held_among(self.retired(), held, held.len())
            } else {
                self.retired()
            },
            if looks && room_for(self.manager, bounds, held) {
                there.insert(cursor@)
            } else {
                there
            },
            after,
        )
    }

    /// Where the publication that goes with `cursor` stands.
    pub fn publication_at(&self, cursor: &OpaqueHistoryCursor) -> (found: Option<usize>)
        ensures
            match found {
                Some(i) => i < self.publications@.len() && published_from(
                    self@.publications,
                    cursor@,
                    0,
                ) == Some(i as int),
                None => published_from(self@.publications, cursor@, 0) is None,
            },
    {
        let mut i: usize = 0;
        while i < self.publications.len()
            invariant
                i <= self.publications@.len(),
                self@.publications.len() == self.publications@.len(),
                published_from(self@.publications, cursor@, 0) == published_from(
                    self@.publications,
                    cursor@,
                    i as int,
                ),
            decreases self.publications@.len() - i,
        {
            assert(self@.publications[i as int] == self.publications@[i as int]@);
            if self.publications[i].cursor.same_key(cursor) {
                return Some(i);
            }
            i += 1;
        }
        None
    }

    /// Which of the generations that are gone are still charged for.
    pub fn charges_held(&self) -> (held: Vec<bool>)
        ensures
            held@.len() == self.retired().len(),
    {
        match &self.manager {
            Ok(manager) => manager.charges_held(),
            Err(_) => Vec::new(),
        }
    }

    /// Install the generation of a finished capture: `Ok(true)` where it is
    /// new, `Ok(false)` where it was there.
    fn install_native_generation(
        &mut self,
        cursor: OpaqueHistoryCursor,
        seed: NativeGenerationSeed,
        held: &Vec<bool>,
    ) -> (installed: Result<bool, NativeStateError>)
        requires
            old(self).wf(),
            old(self)@.plain is None,
            held@.len() == old(self).retired().len(),
        ensures
            final(self).wf(),
            if old(self)@.generations.contains_key(cursor@) {
                installed == Ok::<bool, NativeStateError>(false) && final(self)@ == old(self)@
            } else if room_for(old(self).manager, seed.spec_bounds(), held@) {
                installed == Ok::<bool, NativeStateError>(true) && final(self)@ == (NativeV {
                    generations: old(self)@.generations.insert(
                        cursor@,
                        GenerationV::fresh(cursor@, seed.spec_bounds()),
                    ),
                    ..old(self)@
                })
            } else {
                installed == Err::<bool, NativeStateError>(NativeStateError::LimitExceeded)
                    && final(self)@ == old(self)@
            },
            final(self).retired() == (if old(self)@.generations.contains_key(cursor@)
                || seed.spec_bounds().reservation() > usize::MAX {
                old(self).retired()
            } else {
                held_among(old(self).retired(), held@, held@.len())
            }),
    {
        let ghost start = self@;
        match &mut self.manager {
            Ok(manager) => {
                if manager.has_generation(&cursor) {
                    return Ok(false);
                }
                let bounds = seed.bounds();
                match bounds.required_reserved_bytes() {
                    Ok(reserved) => {
                        match manager.install_with(cursor, seed, bounds, reserved, held) {
                            Ok(_) => {
                                assert(self@ =~= NativeV {
                                    generations: start.generations.insert(
                                        cursor@,
                                        GenerationV::fresh(cursor@, bounds),
                                    ),
                                    ..start
                                });
                                Ok(true)
                            },
                            Err(_) => {
                                assert(self@ =~= start);
                                Err(NativeStateError::LimitExceeded)
                            },
                        }
                    },
                    Err(_) => Err(NativeStateError::LimitExceeded),
                }
            },
            Err(_) => Err(NativeStateError::LimitExceeded),
        }
    }

    fn native_publication_conflicts(
        &self,
        cursor: &OpaqueHistoryCursor,
        base_seq: u64,
        replay: &Vec<Output>,
    ) -> (conflict: bool)
        ensures
            conflict == self@.conflicts(cursor@, base_seq, replay@),
    {
        match self.publication_at(cursor) {
            Some(i) => {
                assert(self@.publications[i as int] == self.publications@[i as int]@);
                self.publications[i].base_seq != base_seq || !outputs_match(
                    &self.publications[i].replay,
                    replay,
                )
            },
            None => false,
        }
    }

    fn retain_native_generation(&mut self, cursor: &OpaqueHistoryCursor) -> (kept: bool)
        requires
            old(self).wf(),
        ensures
            final(self).wf(),
            final(self).retired() == old(self).retired(),
            match old(self)@.retained(cursor@) {
                Some(host) => kept && final(self)@ == host,
                None => !kept && final(self)@ == old(self)@,
            },
    {
        match &mut self.manager {
            Ok(manager) => {
                proof {
                    manager.lemma_valid();
                }
                let kept = manager.retain_generation(cursor).is_ok();
                proof {
                    if let Some(host) = old(self)@.retained(cursor@) {
                        assert(self@ =~= host);
                    } else {
                        assert(self@ =~= old(self)@);
                    }
                }
                kept
            },
            Err(_) => false,
        }
    }

    fn register_native_bootstrap_waiters(
        &mut self,
        prepared: Vec<Prepared>,
        cursor: OpaqueHistoryCursor,
        installed_new: bool,
        gone: &Vec<ReplyToken>,
        now_ms: u64,
        out: &mut Vec<NativeAction>,
    ) -> (waiting: Vec<u64>)
        requires
            old(self).wf(),
        ensures
            final(self).wf(),
            old(self).sheds(*final(self)),
            ({
                let done = old(self)@.registered(
                    prepared_view(prepared@),
                    prepared@.len(),
                    cursor,
                    installed_new,
                    gone@,
                    now_ms,
                );
                &&& final(self)@ == done.host
                &&& waiting@ == done.waiting
                &&& actions(final(out)@) == actions(old(out)@) + done.said
            }),
    {
        let ghost start = self@;
        let ghost views = prepared_view(prepared@);
        let ghost all = prepared@;
        let ghost before = actions(out@);
        let mut prepared = prepared;
        let mut waiting: Vec<u64> = Vec::new();
        let mut installed = false;
        let ghost mut n: nat = 0;
        proof {
            assert(actions(out@) =~= before + Seq::<ActionV>::empty());
            assert(prepared@ =~= all.skip(0));
        }
        while prepared.len() > 0
            invariant
                views == prepared_view(all),
                n <= all.len(),
                prepared@ == all.skip(n as int),
                self.wf(),
                old(self).sheds(*self),
                self@ == start.registered(views, n, cursor, installed_new, gone@, now_ms).host,
                waiting@ == start.registered(views, n, cursor, installed_new, gone@, now_ms).waiting,
                installed == (start.registered(
                    views,
                    n,
                    cursor,
                    installed_new,
                    gone@,
                    now_ms,
                ).installed > 0),
                actions(out@) == before + start.registered(
                    views,
                    n,
                    cursor,
                    installed_new,
                    gone@,
                    now_ms,
                ).said,
            decreases prepared@.len(),
        {
            let ghost done = start.registered(views, n, cursor, installed_new, gone@, now_ms);
            let one = prepared.remove(0);
            proof {
                assert(one == all[n as int]);
                assert(views[n as int] == (PreparedV { req: one.req, answer: one.answer@ }));
                assert(prepared@ =~= all.skip(n as int + 1));
                n = n + 1;
            }
            let kept = if installed_new && !installed {
                true
            } else {
                self.retain_native_generation(&cursor)
            };
            if !kept {
                act(
                    out,
                    NativeAction::Refuse {
                        reply: one.req.reply,
                        error: NativeStateError::LimitExceeded,
                    },
                );
                assert(actions(out@) =~= before + done.said.push(
                    ActionV::Refuse(one.req.reply, NativeStateError::LimitExceeded),
                ));
            } else {
                installed = true;
                let Prepared { req, answer } = one;
                let reply = req.reply;
                let owner: u64 = req.owner;
                self.bind_owner(req, cursor, now_ms);
                if is_gone(gone, reply) {
                    super::native_owners::drop_waiting(&mut waiting, owner);
                    let ghost bound = *self;
                    self.release_native_owner(owner);
                    proof {
                        assert(old(self).sheds(bound));
                        lemma_shed_twice(
                            old(self).retired(),
                            old(self)@.generations.dom(),
                            bound,
                            *self,
                        );
                    }
                } else {
                    add_waiting(&mut waiting, owner);
                    let ghost seen = answer@;
                    act(out, NativeAction::Answer { reply, owner, answer });
                    assert(actions(out@) =~= before + done.said.push(
                        ActionV::Answer(reply, owner, seen),
                    ));
                }
            }
        }
        waiting
    }

    fn bind_owner(&mut self, req: NativeBootstrapRequest, cursor: OpaqueHistoryCursor, now_ms: u64)
        requires
            old(self).wf(),
        ensures
            final(self).wf(),
            final(self).retired() == old(self).retired(),
            final(self)@ == (NativeV {
                owners: without_owner(
                    old(self)@.owners,
                    old(self)@.owners.len(),
                    req.owner,
                ).push(fresh_hold(req, cursor, now_ms)),
                ..old(self)@
            }),
    {
        super::native_owners::drop_owner(&mut self.owners, req.owner);
        self.owners.push(
            NativeCursorOwner {
                owner: req.owner,
                cursor,
                record_index: 0,
                touched_ms: now_ms,
                next_page_seq: 1,
                terminal_id: req.terminal_id,
                stream_id: req.stream_id,
                bootstrap_id: req.bootstrap_id,
            },
        );
        assert(self@ =~= NativeV {
            owners: without_owner(
                old(self)@.owners,
                old(self)@.owners.len(),
                req.owner,
            ).push(fresh_hold(req, cursor, now_ms)),
            ..old(self)@
        });
    }

    fn record_native_publication(
        &mut self,
        cursor: OpaqueHistoryCursor,
        base_seq: u64,
        replay: Vec<Output>,
        replay_bytes: usize,
        waiting: Vec<u64>,
    )
        requires
            old(self).wf(),
        ensures
            final(self).wf(),
            final(self).retired() == old(self).retired(),
            final(self)@ == old(self)@.recorded(
                cursor@,
                base_seq,
                replay@,
                replay_bytes as int,
                waiting@,
            ),
    {
        let ghost start = self@;
        let ghost publications = self.publications@;
        match self.publication_at(&cursor) {
            Some(at) => {
                let ghost first = self.publications@[at as int]@;
                let ghost base = self.publications@[at as int].waiting@;
                let mut k: usize = 0;
                while k < waiting.len()
                    invariant
                        k <= waiting@.len(),
                        at < publications.len(),
                        self.manager == old(self).manager,
                        self.pending == old(self).pending,
                        self.backlog == old(self).backlog,
                        self.owners == old(self).owners,
                        self.budgets == old(self).budgets,
                        self.publications@.len() == publications.len(),
                        forall|j: int|
                            0 <= j < publications.len() && j != at ==> #[trigger]
                            self.publications@[j] == publications[j],
                        first == publications[at as int]@,
                        base == publications[at as int].waiting@,
                        self.publications@[at as int]@ == (PublicationV {
                            waiting: with_all_waiting(base, waiting@, k as nat),
                            ..first
                        }),
                    decreases waiting@.len() - k,
                {
                    add_waiting(&mut self.publications[at].waiting, waiting[k]);
                    k += 1;
                    assert(self.publications@[at as int]@ =~= PublicationV {
                        waiting: with_all_waiting(base, waiting@, k as nat),
                        ..first
                    });
                }
                proof {
                    assert(start.publications[at as int] == first);
                    assert(self@.publications =~= start.recorded(
                        cursor@,
                        base_seq,
                        replay@,
                        replay_bytes as int,
                        waiting@,
                    ).publications);
                    assert(self@ =~= start.recorded(
                        cursor@,
                        base_seq,
                        replay@,
                        replay_bytes as int,
                        waiting@,
                    ));
                }
            },
            None => {
                let ghost added = PublicationV {
                    cursor: cursor@,
                    base_seq,
                    replay: replay@,
                    replay_bytes: replay_bytes as int,
                    waiting: waiting@,
                };
                self.publications.push(
                    NativePublicationGeneration {
                        cursor,
                        base_seq,
                        replay,
                        replay_bytes,
                        waiting,
                    },
                );
                proof {
                    assert(self@.publications =~= start.publications.push(added));
                    assert(self@ =~= NativeV {
                        publications: start.publications.push(added),
                        ..start
                    });
                }
            },
        }
    }

    /// The fence at READY: install the generation, bind and answer everybody
    /// who waited, and record what they have yet to pick up.
    fn finish_native_bootstrap(
        &mut self,
        pending: PendingNativeBootstrap,
        cursor: OpaqueHistoryCursor,
        seed: NativeGenerationSeed,
        gone: &Vec<ReplyToken>,
        held: &Vec<bool>,
        cols: u16,
        rows: u16,
        now_ms: u64,
        out: &mut Vec<NativeAction>,
    )
        requires
            old(self).wf(),
            old(self)@.plain is None,
            held@.len() == old(self).retired().len(),
            pending.limits.max_chunk_bytes >= 1,
            forall|i: int|
                0 <= i < pending.waiters@.len() ==> (#[trigger] pending.waiters@[i]).limits
                    == pending.limits,
        ensures
            final(self).wf(),
            old(self).sheds_publishing(
                pending@,
                cursor,
                seed.spec_bounds(),
                held@,
                cols,
                rows,
                *final(self),
            ),
            ({
                let (host, said) = old(self)@.published(
                    pending@,
                    cursor,
                    seed.spec_bounds(),
                    room_for(old(self).manager, seed.spec_bounds(), held@),
                    gone@,
                    cols,
                    rows,
                    now_ms,
                );
                final(self)@ == host && actions(final(out)@) == actions(old(out)@) + said
            }),
    {
        let ghost start = self@;
        let ghost before = actions(out@);
        let ghost bounds = seed.spec_bounds();
        let ghost room = room_for(self.manager, bounds, held@);
        let ghost view = pending@;
        let ghost goal = start.published(
            view,
            cursor,
            bounds,
            room,
            gone@,
            cols,
            rows,
            now_ms,
        );
        let prepared = prepare_native_bootstrap_replies(
            &pending.waiters,
            &pending.records,
            pending.retained_bytes,
            cursor,
            pending.base_seq,
            cols,
            rows,
            out,
        );
        if prepared.len() == 0 {
            assert(goal.0 == start);
            return;
        }
        let installed_new = match self.install_native_generation(cursor, seed, held) {
            Ok(installed_new) => installed_new,
            Err(error) => {
                fail_native_waiters(&prepared, error, out);
                assert(actions(out@) =~= before + goal.1);
                return;
            },
        };
        if self.native_publication_conflicts(&cursor, pending.base_seq, &pending.replay) {
            fail_native_waiters(&prepared, NativeStateError::LimitExceeded, out);
            assert(actions(out@) =~= before + goal.1);
            return;
        }
        let waiting = self.register_native_bootstrap_waiters(
            prepared,
            cursor,
            installed_new,
            gone,
            now_ms,
            out,
        );
        assert(actions(out@) =~= before + goal.1);
        if waiting.len() == 0 {
            return;
        }
        self.record_native_publication(
            cursor,
            pending.base_seq,
            pending.replay,
            pending.replay_bytes,
            waiting,
        );
    }

    /// The engine was asked to let the cut of a finished capture go. `gone` are
    /// the answers that nobody takes any more, `held` is what
    /// [`Self::charges_held`] said.
    pub fn detach_with(
        &mut self,
        outcome: Result<(), EngineError>,
        gone: &Vec<ReplyToken>,
        held: &Vec<bool>,
        cols: u16,
        rows: u16,
        now_ms: u64,
        out: &mut Vec<NativeAction>,
    )
        requires
            old(self).wf(),
            held@.len() == old(self).retired().len(),
        ensures
            final(self).wf(),
            exists|cursor: OpaqueHistoryCursor|
                (old(self)@.publishes(outcome) ==> cursor@ == sha256(
                    old(self)@.capture()->Some_0.named_by(),
                )) && ({
                    let (host, said) = #[trigger] old(self).detached_as(
                        outcome,
                        cursor,
                        gone@,
                        held@,
                        cols,
                        rows,
                        now_ms,
                    );
                    final(self)@ == host && actions(final(out)@) == actions(old(out)@) + said
                }) && old(self).sheds_detaching(outcome, cursor, held@, cols, rows, *final(self)),
    {
        let ghost start = self@;
        let ghost before = actions(out@);
        let ghost room = room_for(self.manager, captured_bounds(start), held@);
        let ghost any: OpaqueHistoryCursor = arbitrary();
        let mut pending: Option<PendingNativeBootstrap> = None;
        std::mem::swap(&mut pending, &mut self.pending);
        let mut pending = match pending {
            Some(pending) => pending,
            None => {
                proof {
                    assert(self@ =~= start);
                    assert(actions(out@) =~= before + old(self).detached_as(
                        outcome,
                        any,
                        gone@,
                        held@,
                        cols,
                        rows,
                        now_ms,
                    ).1);
                }
                return;
            },
        };
        let ghost view = pending@;
        let capture = match pending.phase {
            Phase::Detaching => {
                let mut capture = None;
                std::mem::swap(&mut capture, &mut pending.capture);
                capture
            },
            _ => None,
        };
        let capture = match capture {
            Some(capture) => capture,
            None => {
                self.pending = Some(pending);
                proof {
                    assert(self@ =~= start);
                    assert(actions(out@) =~= before + old(self).detached_as(
                        outcome,
                        any,
                        gone@,
                        held@,
                        cols,
                        rows,
                        now_ms,
                    ).1);
                }
                return;
            },
        };
        let ghost taken = capture@;
        let finished = match &mut self.manager {
            Ok(manager) => manager.finish_generation_capture(capture, outcome),
            Err(_) => Err(NativeStateError::InvalidState),
        };
        proof {
            assert(self@ =~= start.dropped());
        }
        match finished {
            Ok((cursor, seed)) => {
                let mut replay: Vec<Output> = Vec::new();
                let mut i: usize = 0;
                while i < pending.replay.len()
                    invariant
                        i <= pending.replay@.len(),
                        replay@ == pending.replay@.take(i as int),
                    decreases pending.replay@.len() - i,
                {
                    replay.push(pending.replay[i].clone());
                    i += 1;
                    assert(replay@ =~= pending.replay@.take(i as int));
                }
                assert(replay@ =~= pending.replay@);
                replay_held(replay, out);
                let ghost mid = self@;
                let ghost ready = PendingV { capture: None, ..view };
                assert(pending@ =~= ready);
                assert(room_for(self.manager, taken.bounds, held@) == room);
                self.finish_native_bootstrap(
                    pending,
                    cursor,
                    seed,
                    gone,
                    held,
                    cols,
                    rows,
                    now_ms,
                    out,
                );
                self.start_next_native_bootstrap(out);
                proof {
                    assert(mid.published(
                        ready,
                        cursor,
                        taken.bounds,
                        room,
                        gone@,
                        cols,
                        rows,
                        now_ms,
                    ) == mid.published(
                        view,
                        cursor,
                        taken.bounds,
                        room,
                        gone@,
                        cols,
                        rows,
                        now_ms,
                    ));
                    assert(actions(out@) =~= before + old(self).detached_as(
                        outcome,
                        cursor,
                        gone@,
                        held@,
                        cols,
                        rows,
                        now_ms,
                    ).1);
                }
            },
            Err(error) => {
                replay_held(pending.replay, out);
                refuse_waiters(&pending.waiters, error, out);
                self.start_next_native_bootstrap(out);
                assert(actions(out@) =~= before + old(self).detached_as(
                        outcome,
                        any,
                        gone@,
                        held@,
                        cols,
                    rows,
                    now_ms,
                ).1);
            },
        }
    }

    /// The engine was asked to let the cut of a finished capture go. `gone` are
    /// the answers that nobody takes any more.
    pub fn capture_detached(
        &mut self,
        outcome: Result<(), EngineError>,
        gone: &Vec<ReplyToken>,
        cols: u16,
        rows: u16,
        now_ms: u64,
        out: &mut Vec<NativeAction>,
    )
        requires
            old(self).wf(),
        ensures
            final(self).wf(),
            exists|cursor: OpaqueHistoryCursor, held: Seq<bool>|
                (old(self)@.publishes(outcome) ==> cursor@ == sha256(
                    old(self)@.capture()->Some_0.named_by(),
                )) && held.len() == old(self).retired().len() && ({
                    let (host, said) = #[trigger] old(self).detached_as(
                        outcome,
                        cursor,
                        gone@,
                        held,
                        cols,
                        rows,
                        now_ms,
                    );
                    final(self)@ == host && actions(final(out)@) == actions(old(out)@) + said
                }) && old(self).sheds_detaching(outcome, cursor, held, cols, rows, *final(self)),
    {
        let held = self.charges_held();
        self.detach_with(outcome, gone, &held, cols, rows, now_ms, out);
    }
}

} // verus!
