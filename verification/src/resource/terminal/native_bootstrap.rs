//! Capturing a bootstrap: one capture at a time, shared by everybody who asks
//! for the same, with the rest in line behind it.

use super::native_model::{
    act, actions, contents_of, ActionV, NativeAction, NativeBootstrapRequest, NativeHost, NativeV,
    Output, PendingNativeBootstrap, PendingV, Phase,
};
use crate::native_state::capture::{least, NativeCheckpointChunkKind};
use crate::native_state::error::{engine_failure, CaptureEvent, EngineError, NativeStateError};
use crate::native_state::manager::{capture_plan, generation_bounds, ManagedV};
use crate::payload::{allocated, payload_of};
use crate::wire::TombstoneReason;
use vstd::prelude::*;

verus! {

/// The length that a fresh capture's buffer starts with. It grows to the exact
/// length that the engine reports when a record does not fit, so this is a
/// start, never a cap.
pub const INITIAL_NATIVE_SCRATCH_BYTES: usize = 65_536;

/// The length that a fresh capture's buffer starts with, under `ceiling`.
pub fn initial_native_scratch_bytes(ceiling: usize) -> (bytes: usize)
    ensures
        bytes == least(ceiling as int, INITIAL_NATIVE_SCRATCH_BYTES as int),
{
    if ceiling < INITIAL_NATIVE_SCRATCH_BYTES {
        ceiling
    } else {
        INITIAL_NATIVE_SCRATCH_BYTES
    }
}

/// The most bytes that the next record may take.
pub open spec fn step_bytes(capture_bytes: int, retained_bytes: int, max_record_bytes: int) -> Result<
    int,
    NativeStateError,
> {
    if capture_bytes <= retained_bytes || max_record_bytes == 0 {
        Err(NativeStateError::LimitExceeded)
    } else {
        Ok(least(capture_bytes - retained_bytes, max_record_bytes))
    }
}

/// The most bytes that the next record may take.
pub fn native_step_bytes(capture_bytes: usize, retained_bytes: usize, max_record_bytes: usize) -> (
bytes: Result<usize, NativeStateError>)
    ensures
        match step_bytes(
            capture_bytes as int,
            retained_bytes as int,
            max_record_bytes as int,
        ) {
            Ok(most) => bytes matches Ok(bytes) && bytes == most,
            Err(error) => bytes == Err::<usize, NativeStateError>(error),
        },
{
    if capture_bytes <= retained_bytes || max_record_bytes == 0 {
        return Err(NativeStateError::LimitExceeded);
    }
    if capture_bytes - retained_bytes < max_record_bytes {
        Ok(capture_bytes - retained_bytes)
    } else {
        Ok(max_record_bytes)
    }
}

/// The refusals of the first `n` of `waiters`.
pub open spec fn refusals(
    waiters: Seq<NativeBootstrapRequest>,
    n: nat,
    error: NativeStateError,
) -> Seq<ActionV>
    decreases n,
{
    if n == 0 || n > waiters.len() {
        Seq::empty()
    } else {
        refusals(waiters, (n - 1) as nat, error).push(
            ActionV::Refuse(waiters[n - 1].reply, error),
        )
    }
}

/// What a failed capture says: whether memory ran out, or else that a limit was
/// exceeded.
pub open spec fn said_of(error: NativeStateError) -> NativeStateError {
    if error is OutOfMemory {
        NativeStateError::OutOfMemory
    } else {
        NativeStateError::LimitExceeded
    }
}

/// The output that has to be written, as an action.
pub open spec fn replay_actions(replay: Seq<Output>) -> Seq<ActionV> {
    if replay.len() == 0 {
        Seq::empty()
    } else {
        seq![ActionV::Replay(replay)]
    }
}

/// The bytes that are left of `whole` without `part`.
pub open spec fn saturating(whole: int, part: int) -> int {
    if whole < part {
        0
    } else {
        whole - part
    }
}

/// Whether `req` can be captured at all.
pub open spec fn has_room(req: NativeBootstrapRequest, max_history_cursor_bytes: int) -> bool {
    &&& req.limits.max_chunk_bytes > 0
    &&& req.max_frames > 2
    &&& req.max_bytes > max_history_cursor_bytes
}

/// A bootstrap that the engine is asked to capture.
pub open spec fn starting(req: NativeBootstrapRequest, max_history_cursor_bytes: int) -> PendingV {
    PendingV {
        phase: Phase::Starting,
        capture: None,
        waiters: seq![req],
        records: Seq::empty(),
        retained_bytes: 0,
        capture_bytes: req.max_bytes - max_history_cursor_bytes,
        scratch_len: 0,
        max_chunks: req.max_frames - 2,
        chunk_bytes: least(req.limits.max_chunk_bytes as int, req.max_bytes as int),
        base_seq: 0,
        chunk_count: 0,
        limits: req.limits,
        replay: Seq::empty(),
        replay_bytes: 0,
    }
}

/// How many chunks a record of `len` bytes makes.
pub open spec fn chunk_count(len: int, chunk_bytes: int) -> int {
    if len == 0 {
        0
    } else {
        (len - 1) / chunk_bytes + 1
    }
}

impl NativeV {
    /// The host after it set out to capture `req`, and what is to be done.
    pub open spec fn started(self, req: NativeBootstrapRequest) -> (Self, Seq<ActionV>) {
        let cursor_bytes = self.budgets.max_history_cursor_bytes as int;
        if !has_room(req, cursor_bytes) {
            (self, seq![ActionV::Refuse(req.reply, NativeStateError::LimitExceeded)])
        } else {
            match self.plain {
                Some(error) => (self, seq![ActionV::Refuse(req.reply, error)]),
                None => match capture_plan(
                    self.capture_active,
                    self.next_generation,
                    req.limits,
                    req.max_bytes - cursor_bytes,
                    req.max_frames - 2,
                ) {
                    Err(error) => (self, seq![ActionV::Refuse(req.reply, error)]),
                    Ok(options) => (
                        NativeV { pending: Some(starting(req, cursor_bytes)), ..self },
                        seq![ActionV::Capture(options)],
                    ),
                },
            }
        }
    }

    /// The host after it turned to the next in line.
    pub open spec fn next_started(self) -> (Self, Seq<ActionV>) {
        if self.pending is None && self.backlog.len() > 0 {
            NativeV { backlog: self.backlog.drop_first(), ..self }.started(self.backlog[0])
        } else {
            (self, Seq::empty())
        }
    }

    /// The host after it took `req` in: whoever asks for the same shares the
    /// capture, everybody else waits in line.
    pub open spec fn requested(self, req: NativeBootstrapRequest, last_valid_seq: u64) -> (
        Self,
        Seq<ActionV>,
    ) {
        let (host, said) = self.invalidated(
            req.owner,
            TombstoneReason::ExplicitReattach,
            last_valid_seq,
        );
        match host.pending {
            Some(pending) => if pending.limits == req.limits && pending.capture_bytes == saturating(
                req.max_bytes as int,
                self.budgets.max_history_cursor_bytes as int,
            ) && pending.max_chunks == saturating(req.max_frames as int, 2)
                && pending.waiters.len() < self.budgets.max_history_clients {
                (
                    NativeV {
                        pending: Some(
                            PendingV { waiters: pending.waiters.push(req), ..pending },
                        ),
                        ..host
                    },
                    said,
                )
            } else {
                (NativeV { backlog: host.backlog.push(req), ..host }, said)
            },
            None => {
                let (after, more) = host.started(req);
                (after, said + more)
            },
        }
    }

    /// The host after its capture failed: the terminal is given back, held
    /// output is written, everybody is told, and the next in line starts.
    pub open spec fn failed(self, error: NativeStateError) -> (Self, Seq<ActionV>) {
        match self.pending {
            Some(pending) => {
                let (host, more) = self.dropped().next_started();
                (
                    host,
                    self.drop_actions() + refusals(
                        pending.waiters,
                        pending.waiters.len(),
                        said_of(error),
                    ) + more,
                )
            },
            None => (self, Seq::empty()),
        }
    }

    /// The host without its pending bootstrap.
    pub open spec fn dropped(self) -> Self {
        NativeV { pending: None, capture_active: false, ..self }
    }

    /// What is to be done when the pending bootstrap is dropped.
    pub open spec fn drop_actions(self) -> Seq<ActionV> {
        match self.pending {
            Some(pending) => (if pending.capture is Some {
                seq![ActionV::Abort]
            } else {
                Seq::empty()
            }) + replay_actions(pending.replay),
            None => Seq::empty(),
        }
    }

    /// The host after the engine was asked to take the terminal.
    pub open spec fn begun(self, started: Result<(), EngineError>, base_seq: u64) -> (
        Self,
        Seq<ActionV>,
    ) {
        match self.pending {
            Some(pending) if pending.phase is Starting => {
                let plan = capture_plan(
                    self.capture_active,
                    self.next_generation,
                    pending.limits,
                    pending.capture_bytes,
                    pending.max_chunks,
                );
                match (plan, started) {
                    (Err(error), _) => (
                        NativeV { pending: None, ..self },
                        refusals(pending.waiters, pending.waiters.len(), error),
                    ),
                    (Ok(_), Err(failure)) => (
                        NativeV { pending: None, ..self },
                        refusals(pending.waiters, pending.waiters.len(), engine_failure(failure)),
                    ),
                    (Ok(options), Ok(_)) => {
                        let bounds = generation_bounds(options, self.budgets.max_history_page_rows);
                        let next = (self.next_generation + 1) as u64;
                        match step_bytes(
                            pending.capture_bytes,
                            0,
                            bounds.max_record_bytes as int,
                        ) {
                            Err(error) => (
                                NativeV { pending: None, next_generation: next, ..self },
                                seq![ActionV::Abort] + refusals(
                                    pending.waiters,
                                    pending.waiters.len(),
                                    error,
                                ),
                            ),
                            Ok(ceiling) => (
                                NativeV {
                                    pending: Some(
                                        PendingV {
                                            phase: Phase::Capturing,
                                            capture: Some(
                                                ManagedV {
                                                    prefix: Seq::empty(),
                                                    generation: self.next_generation,
                                                    bounds,
                                                    ready: false,
                                                },
                                            ),
                                            scratch_len: least(
                                                ceiling,
                                                INITIAL_NATIVE_SCRATCH_BYTES as int,
                                            ),
                                            base_seq,
                                            ..pending
                                        },
                                    ),
                                    capture_active: true,
                                    next_generation: next,
                                    ..self
                                },
                                Seq::empty(),
                            ),
                        }
                    },
                }
            },
            _ => (self, Seq::empty()),
        }
    }

    /// The host after the engine wrote a record into `buffer`, where the record
    /// takes `capacity` bytes of memory.
    pub open spec fn stepped(
        self,
        answer: Result<CaptureEvent, EngineError>,
        buffer: Seq<u8>,
        capacity: int,
    ) -> (Self, Seq<ActionV>) {
        match (self.pending, self.capture()) {
            (Some(pending), Some(capture)) if pending.phase is Capturing => {
                match step_bytes(
                    pending.capture_bytes,
                    pending.retained_bytes,
                    capture.bounds.max_record_bytes as int,
                ) {
                    Err(error) => self.failed(error),
                    Ok(ceiling) => if capture.ready {
                        self.failed(NativeStateError::InvalidState)
                    } else {
                        match answer {
                            Err(EngineError::OutOfSpace { required }) => if required
                                > pending.scratch_len && required <= ceiling {
                                (
                                    NativeV {
                                        pending: Some(
                                            PendingV { scratch_len: required as int, ..pending },
                                        ),
                                        ..self
                                    },
                                    Seq::empty(),
                                )
                            } else {
                                self.failed(engine_failure(EngineError::OutOfSpace { required }))
                            },
                            Err(failure) => self.failed(engine_failure(failure)),
                            Ok(event) => {
                                let record = buffer.take(event.bytes() as int);
                                let after = capture.stepped(event, buffer);
                                let chunks = pending.chunk_count + chunk_count(
                                    record.len() as int,
                                    pending.chunk_bytes,
                                );
                                if !(event is Ready || event is Record) {
                                    self.failed(NativeStateError::InvalidState)
                                } else if chunks > pending.max_chunks || pending.retained_bytes
                                    + capacity > pending.capture_bytes {
                                    self.failed(NativeStateError::LimitExceeded)
                                } else {
                                    (
                                        NativeV {
                                            pending: Some(
                                                PendingV {
                                                    phase: if event is Ready {
                                                        Phase::Detaching
                                                    } else {
                                                        Phase::Capturing
                                                    },
                                                    capture: Some(after),
                                                    records: pending.records.push(record),
                                                    retained_bytes: pending.retained_bytes
                                                        + capacity,
                                                    chunk_count: chunks,
                                                    ..pending
                                                },
                                            ),
                                            ..self
                                        },
                                        if event is Ready {
                                            seq![ActionV::Detach]
                                        } else {
                                            Seq::empty()
                                        },
                                    )
                                }
                            },
                        }
                    },
                }
            },
            _ => (self, Seq::empty()),
        }
    }

    /// The capture under way.
    pub open spec fn capture(self) -> Option<ManagedV> {
        match self.pending {
            Some(pending) => pending.capture,
            None => None,
        }
    }
}

/// Refuse the waiters of a bootstrap.
pub fn refuse_waiters(
    waiters: &Vec<NativeBootstrapRequest>,
    error: NativeStateError,
    out: &mut Vec<NativeAction>,
)
    ensures
        actions(final(out)@) == actions(old(out)@) + refusals(
            waiters@,
            waiters@.len(),
            error,
        ),
{
    let ghost before = actions(out@);
    let mut i: usize = 0;
    assert(actions(out@) =~= before + refusals(waiters@, 0, error));
    while i < waiters.len()
        invariant
            i <= waiters@.len(),
            actions(out@) == before + refusals(waiters@, i as nat, error),
        decreases waiters@.len() - i,
    {
        let ghost said = refusals(waiters@, i as nat, error);
        act(out, NativeAction::Refuse { reply: waiters[i].reply, error });
        i += 1;
        assert(actions(out@) =~= before + said.push(
            ActionV::Refuse(waiters@[i - 1].reply, error),
        ));
    }
}

/// Write output that was held back, if there is any.
pub fn replay_held(replay: Vec<Output>, out: &mut Vec<NativeAction>)
    ensures
        actions(final(out)@) == actions(old(out)@) + replay_actions(replay@),
{
    let ghost before = actions(out@);
    let ghost held = replay@;
    if replay.len() > 0 {
        act(out, NativeAction::Replay { output: replay });
        assert(actions(out@) =~= before + seq![ActionV::Replay(held)]);
    } else {
        assert(actions(out@) =~= before + Seq::<ActionV>::empty());
    }
}

fn chunks_of(len: usize, chunk_bytes: usize) -> (count: usize)
    requires
        chunk_bytes >= 1,
    ensures
        count == chunk_count(len as int, chunk_bytes as int),
        count <= len,
{
    if len == 0 {
        0
    } else {
        proof {
            assert((len - 1) as int / chunk_bytes as int <= len - 1) by (nonlinear_arith)
                requires
                    len >= 1,
                    chunk_bytes >= 1,
            ;
        }
        (len - 1) / chunk_bytes + 1
    }
}

impl NativeHost {
    /// Set out to capture `req`.
    pub fn start_native_bootstrap(
        &mut self,
        req: NativeBootstrapRequest,
        out: &mut Vec<NativeAction>,
    )
        requires
            old(self).wf(),
            old(self)@.pending is None,
        ensures
            final(self).wf(),
            final(self).retired() == old(self).retired(),
            ({
                let (host, said) = old(self)@.started(req);
                final(self)@ == host && actions(final(out)@) == actions(old(out)@) + said
            }),
    {
        let ghost before = actions(out@);
        let limits = req.limits;
        let cursor_bytes: usize = self.budgets.max_history_cursor_bytes;
        if limits.max_chunk_bytes == 0 || req.max_frames <= 2 || req.max_bytes <= cursor_bytes {
            act(
                out,
                NativeAction::Refuse { reply: req.reply, error: NativeStateError::LimitExceeded },
            );
            assert(actions(out@) =~= before + old(self)@.started(req).1);
            return;
        }
        let chunk_limit: usize = limits.max_chunk_bytes as usize;
        let chunk_bytes: usize = if chunk_limit < req.max_bytes {
            chunk_limit
        } else {
            req.max_bytes
        };
        let max_chunks: usize = req.max_frames - 2;
        let capture_bytes: usize = req.max_bytes - cursor_bytes;
        let options = match &self.manager {
            Ok(manager) => manager.capture_options(limits, capture_bytes, max_chunks),
            Err(error) => Err(*error),
        };
        match options {
            Ok(options) => {
                act(out, NativeAction::Capture { options });
                let mut waiters: Vec<NativeBootstrapRequest> = Vec::new();
                waiters.push(req);
                self.pending = Some(
                    PendingNativeBootstrap {
                        phase: Phase::Starting,
                        capture: None,
                        waiters,
                        records: Vec::new(),
                        retained_bytes: 0,
                        capture_bytes,
                        scratch_len: 0,
                        max_chunks,
                        chunk_bytes,
                        base_seq: 0,
                        chunk_count: 0,
                        limits,
                        replay: Vec::new(),
                        replay_bytes: 0,
                    },
                );
                proof {
                    let pending = self@.pending->Some_0;
                    assert(pending =~= starting(req, cursor_bytes as int));
                    assert(self@ =~= old(self)@.started(req).0);
                }
            },
            Err(error) => {
                act(out, NativeAction::Refuse { reply: req.reply, error });
            },
        }
        assert(actions(out@) =~= before + old(self)@.started(req).1);
    }

    /// Turn to the next in line, if nothing is being captured.
    pub fn start_next_native_bootstrap(&mut self, out: &mut Vec<NativeAction>)
        requires
            old(self).wf(),
        ensures
            final(self).wf(),
            final(self).retired() == old(self).retired(),
            ({
                let (host, said) = old(self)@.next_started();
                final(self)@ == host && actions(final(out)@) == actions(old(out)@) + said
            }),
    {
        let ghost before = actions(out@);
        if self.pending.is_none() && self.backlog.len() > 0 {
            let next = self.backlog.remove(0);
            proof {
                assert(self@ =~= NativeV {
                    backlog: old(self)@.backlog.drop_first(),
                    ..old(self)@
                });
            }
            self.start_native_bootstrap(next, out);
        } else {
            assert(actions(out@) =~= before + Seq::<ActionV>::empty());
        }
    }

    /// A consumer asks for a bootstrap. What it held before is over.
    pub fn handle_native_bootstrap(
        &mut self,
        req: NativeBootstrapRequest,
        last_valid_seq: u64,
        out: &mut Vec<NativeAction>,
    )
        requires
            old(self).wf(),
        ensures
            final(self).wf(),
            old(self).sheds(*final(self)),
            ({
                let (host, said) = old(self)@.requested(req, last_valid_seq);
                final(self)@ == host && actions(final(out)@) == actions(old(out)@) + said
            }),
    {
        let ghost start = actions(out@);
        self.invalidate_native_owner(
            req.owner,
            TombstoneReason::ExplicitReattach,
            last_valid_seq,
            out,
        );
        let ghost host = self@;
        let ghost said = old(self)@.invalidated(
            req.owner,
            TombstoneReason::ExplicitReattach,
            last_valid_seq,
        ).1;
        let cursor_bytes: usize = self.budgets.max_history_cursor_bytes;
        let clients: usize = self.budgets.max_history_clients;
        let capture_bytes: usize = if req.max_bytes < cursor_bytes {
            0
        } else {
            req.max_bytes - cursor_bytes
        };
        let max_chunks: usize = if req.max_frames < 2 {
            0
        } else {
            req.max_frames - 2
        };
        let joins = match &self.pending {
            Some(pending) => Some(
                pending.limits == req.limits && pending.capture_bytes == capture_bytes
                    && pending.max_chunks == max_chunks && pending.waiters.len() < clients,
            ),
            None => None,
        };
        match joins {
            Some(true) => {
                match &mut self.pending {
                    Some(pending) => {
                        pending.waiters.push(req);
                    },
                    None => {},
                }
                assert(self@ =~= old(self)@.requested(req, last_valid_seq).0);
            },
            Some(false) => {
                self.backlog.push(req);
                assert(self@ =~= old(self)@.requested(req, last_valid_seq).0);
            },
            None => {
                let ghost mid = actions(out@);
                self.start_native_bootstrap(req, out);
                assert(actions(out@) =~= start + (said + host.started(req).1));
            },
        }
    }

    /// The pending bootstrap is over: give the terminal back and write what was
    /// held back. Who waited for it comes back.
    pub fn drop_pending(&mut self, out: &mut Vec<NativeAction>) -> (waiters: Vec<
        NativeBootstrapRequest,
    >)
        requires
            old(self).wf(),
        ensures
            final(self).wf(),
            final(self).retired() == old(self).retired(),
            final(self)@ == old(self)@.dropped(),
            actions(final(out)@) == actions(old(out)@) + old(self)@.drop_actions(),
            waiters@ == (match old(self)@.pending {
                Some(pending) => pending.waiters,
                None => Seq::empty(),
            }),
    {
        let ghost before = actions(out@);
        let mut pending: Option<PendingNativeBootstrap> = None;
        std::mem::swap(&mut pending, &mut self.pending);
        match pending {
            Some(pending) => {
                match pending.capture {
                    Some(capture) => {
                        match &mut self.manager {
                            Ok(manager) => {
                                manager.abort_generation_capture(capture);
                            },
                            Err(_) => {},
                        }
                        act(out, NativeAction::Abort);
                    },
                    None => {},
                }
                let ghost mid = actions(out@);
                let ghost held = pending.replay@;
                replay_held(pending.replay, out);
                proof {
                    assert(actions(out@) =~= before + old(self)@.drop_actions());
                    assert(self@ =~= old(self)@.dropped());
                }
                pending.waiters
            },
            None => {
                assert(actions(out@) =~= before + Seq::<ActionV>::empty());
                assert(self@ =~= old(self)@.dropped());
                Vec::new()
            },
        }
    }

    /// The capture failed: everybody who waited for it is told, and the next in
    /// line starts.
    pub fn fail_native_bootstrap(&mut self, error: NativeStateError, out: &mut Vec<NativeAction>)
        requires
            old(self).wf(),
            old(self)@.pending is Some,
        ensures
            final(self).wf(),
            final(self).retired() == old(self).retired(),
            ({
                let (host, said) = old(self)@.failed(error);
                final(self)@ == host && actions(final(out)@) == actions(old(out)@) + said
            }),
    {
        let ghost before = actions(out@);
        let waiters = self.drop_pending(out);
        let said = match error {
            NativeStateError::OutOfMemory => NativeStateError::OutOfMemory,
            _ => NativeStateError::LimitExceeded,
        };
        refuse_waiters(&waiters, said, out);
        let ghost host = self@;
        self.start_next_native_bootstrap(out);
        assert(actions(out@) =~= before + old(self)@.failed(error).1);
    }

    /// The engine was asked to take the terminal. `base_seq` is the last output
    /// that it has.
    pub fn capture_started(
        &mut self,
        started: Result<(), EngineError>,
        base_seq: u64,
        out: &mut Vec<NativeAction>,
    )
        requires
            old(self).wf(),
        ensures
            final(self).wf(),
            final(self).retired() == old(self).retired(),
            ({
                let (host, said) = old(self)@.begun(started, base_seq);
                final(self)@ == host && actions(final(out)@) == actions(old(out)@) + said
            }),
    {
        let ghost before = actions(out@);
        let ghost start = self@;
        let mut pending: Option<PendingNativeBootstrap> = None;
        std::mem::swap(&mut pending, &mut self.pending);
        let mut pending = match pending {
            Some(pending) => pending,
            None => {
                assert(self@ =~= start);
                assert(actions(out@) =~= before + Seq::<ActionV>::empty());
                return;
            },
        };
        match pending.phase {
            Phase::Starting => {},
            _ => {
                self.pending = Some(pending);
                assert(self@ =~= start);
                assert(actions(out@) =~= before + Seq::<ActionV>::empty());
                return;
            },
        }
        let rows: u32 = self.budgets.max_history_page_rows;
        let begun = match &mut self.manager {
            Ok(manager) => manager.begin_generation_capture(
                pending.limits,
                pending.capture_bytes,
                pending.max_chunks,
                rows,
                started,
            ),
            Err(error) => Err(*error),
        };
        match begun {
            Ok(capture) => {
                match native_step_bytes(pending.capture_bytes, 0, capture.max_record_bytes()) {
                    Ok(ceiling) => {
                        pending.phase = Phase::Capturing;
                        pending.scratch_len = initial_native_scratch_bytes(ceiling);
                        pending.base_seq = base_seq;
                        pending.capture = Some(capture);
                        self.pending = Some(pending);
                        proof {
                            assert(self@ =~= start.begun(started, base_seq).0);
                            assert(actions(out@) =~= before + Seq::<ActionV>::empty());
                        }
                    },
                    Err(error) => {
                        match &mut self.manager {
                            Ok(manager) => {
                                manager.abort_generation_capture(capture);
                            },
                            Err(_) => {},
                        }
                        act(out, NativeAction::Abort);
                        refuse_waiters(&pending.waiters, error, out);
                        proof {
                            assert(self@ =~= start.begun(started, base_seq).0);
                            assert(actions(out@) =~= before + start.begun(started, base_seq).1);
                        }
                    },
                }
            },
            Err(error) => {
                refuse_waiters(&pending.waiters, error, out);
                assert(self@ =~= start.begun(started, base_seq).0);
            },
        }
    }

    /// Whether a bootstrap is being captured.
    pub fn native_bootstrap_pending(&self) -> (pending: bool)
        ensures
            pending == (self@.pending is Some),
    {
        self.pending.is_some()
    }

    /// The length of the buffer to offer the engine for the next record.
    pub fn step_buffer_len(&self) -> (len: Option<usize>)
        requires
            self.wf(),
        ensures
            match (self@.pending, self@.capture()) {
                (Some(pending), Some(capture)) if pending.phase is Capturing => match step_bytes(
                    pending.capture_bytes,
                    pending.retained_bytes,
                    capture.bounds.max_record_bytes as int,
                ) {
                    Ok(ceiling) => len matches Some(len) && len == least(
                        ceiling,
                        pending.scratch_len,
                    ),
                    Err(_) => len == Some(0usize),
                },
                _ => len is None,
            },
    {
        match &self.pending {
            Some(pending) => match (&pending.capture, pending.phase) {
                (Some(capture), Phase::Capturing) => match native_step_bytes(
                    pending.capture_bytes,
                    pending.retained_bytes,
                    capture.max_record_bytes(),
                ) {
                    Ok(ceiling) => if ceiling < pending.scratch_len {
                        Some(ceiling)
                    } else {
                        Some(pending.scratch_len)
                    },
                    Err(_) => Some(0),
                },
                _ => None,
            },
            None => None,
        }
    }

    /// The engine wrote its next record, `record`, into `buffer`. Keeping it takes
    /// `capacity` bytes of memory.
    fn keep_record(
        &mut self,
        answer: Result<CaptureEvent, EngineError>,
        buffer: &[u8],
        record: Vec<u8>,
        capacity: usize,
        out: &mut Vec<NativeAction>,
    )
        requires
            old(self).wf(),
            answer matches Ok(event) ==> event.bytes() <= buffer@.len() && record@ == buffer@.take(
                event.bytes() as int,
            ),
        ensures
            final(self).wf(),
            final(self).retired() == old(self).retired(),
            ({
                let (host, said) = old(self)@.stepped(answer, buffer@, capacity as int);
                final(self)@ == host && actions(final(out)@) == actions(old(out)@) + said
            }),
    {
        let ghost before = actions(out@);
        let ghost start = self@;
        let ghost any = capacity as int;
        let mut pending: Option<PendingNativeBootstrap> = None;
        std::mem::swap(&mut pending, &mut self.pending);
        let mut pending = match pending {
            Some(pending) => pending,
            None => {
                proof {
                    assert(self@ =~= start);
                    assert(actions(out@) =~= before + start.stepped(answer, buffer@, any).1);
                }
                return;
            },
        };
        let mut capture = match pending.phase {
            Phase::Capturing => {
                let mut capture = None;
                std::mem::swap(&mut capture, &mut pending.capture);
                match capture {
                    Some(capture) => capture,
                    None => {
                        self.pending = Some(pending);
                        proof {
                            assert(self@ =~= start);
                            assert(actions(out@) =~= before + start.stepped(
                                answer,
                                buffer@,
                                any,
                            ).1);
                        }
                        return;
                    },
                }
            },
            _ => {
                self.pending = Some(pending);
                proof {
                    assert(self@ =~= start);
                    assert(actions(out@) =~= before + start.stepped(answer, buffer@, any).1);
                }
                return;
            },
        };
        let ghost held = capture@;
        let ceiling: usize = match native_step_bytes(
            pending.capture_bytes,
            pending.retained_bytes,
            capture.max_record_bytes(),
        ) {
            Ok(ceiling) => ceiling,
            Err(error) => {
                pending.capture = Some(capture);
                self.pending = Some(pending);
                assert(self@ =~= start);
                self.fail_native_bootstrap(error, out);
                assert(start.stepped(answer, buffer@, any) == start.failed(error));
                return;
            },
        };
        let stepped = match capture.step(answer, buffer) {
            Ok(chunk) => Ok(
                (
                    match chunk.kind {
                        NativeCheckpointChunkKind::Ready => true,
                        NativeCheckpointChunkKind::Record => false,
                    },
                    chunk.bytes.len(),
                ),
            ),
            Err(error) => Err(error),
        };
        pending.capture = Some(capture);
        let (ready, record_len): (bool, usize) = match stepped {
            Ok(step) => step,
            Err(error) => {
                match error {
                    NativeStateError::OutOfSpace { required_bytes, required_rows } => {
                        if required_rows == 0 && required_bytes > pending.scratch_len
                            && required_bytes <= ceiling {
                            pending.scratch_len = required_bytes;
                            self.pending = Some(pending);
                            proof {
                                assert(self@ =~= start.stepped(answer, buffer@, any).0);
                                assert(actions(out@) =~= before + start.stepped(
                                    answer,
                                    buffer@,
                                    any,
                                ).1);
                            }
                            return;
                        }
                    },
                    _ => {},
                }
                self.pending = Some(pending);
                let ghost mid = self@;
                self.fail_native_bootstrap(error, out);
                proof {
                    lemma_failure_ignores_the_capture(start, mid, error);
                    assert(start.stepped(answer, buffer@, any) == start.failed(error));
                }
                return;
            },
        };
        let fragments: usize = chunks_of(record_len, pending.chunk_bytes);
        let over = pending.chunk_count > usize::MAX - fragments || pending.chunk_count + fragments
            > pending.max_chunks;
        if over || pending.retained_bytes > usize::MAX - capacity || pending.retained_bytes
            + capacity > pending.capture_bytes {
            self.pending = Some(pending);
            let ghost mid = self@;
            self.fail_native_bootstrap(NativeStateError::LimitExceeded, out);
            proof {
                lemma_failure_ignores_the_capture(start, mid, NativeStateError::LimitExceeded);
                assert(start.stepped(answer, buffer@, capacity as int) == start.failed(
                    NativeStateError::LimitExceeded,
                ));
            }
            return;
        }
        let record = payload_of(record);
        let ghost records = pending.records@;
        pending.records.push(record);
        pending.retained_bytes = pending.retained_bytes + capacity;
        pending.chunk_count = pending.chunk_count + fragments;
        proof {
            assert(contents_of(pending.records@) =~= contents_of(records).push(
                buffer@.take(record_len as int),
            ));
        }
        if ready {
            pending.phase = Phase::Detaching;
            act(out, NativeAction::Detach);
        }
        self.pending = Some(pending);
        proof {
            assert(self@ =~= start.stepped(answer, buffer@, capacity as int).0);
            assert(actions(out@) =~= before + start.stepped(answer, buffer@, capacity as int).1);
        }
    }

    /// The engine wrote its next record into `buffer`. Keeping it takes
    /// `capacity` bytes of memory.
    pub fn step_with_capacity(
        &mut self,
        answer: Result<CaptureEvent, EngineError>,
        buffer: &[u8],
        capacity: usize,
        out: &mut Vec<NativeAction>,
    )
        requires
            old(self).wf(),
            answer matches Ok(event) ==> event.bytes() <= buffer@.len(),
        ensures
            final(self).wf(),
            final(self).retired() == old(self).retired(),
            ({
                let (host, said) = old(self)@.stepped(answer, buffer@, capacity as int);
                final(self)@ == host && actions(final(out)@) == actions(old(out)@) + said
            }),
    {
        let record = written_record(&answer, buffer);
        self.keep_record(answer, buffer, record, capacity, out);
    }

    /// The engine wrote its next record into `buffer`.
    pub fn step_native_bootstrap(
        &mut self,
        answer: Result<CaptureEvent, EngineError>,
        buffer: &[u8],
        out: &mut Vec<NativeAction>,
    )
        requires
            old(self).wf(),
            answer matches Ok(event) ==> event.bytes() <= buffer@.len(),
        ensures
            final(self).wf(),
            final(self).retired() == old(self).retired(),
            exists|capacity: int|
                (answer matches Ok(event) ==> capacity >= event.bytes()) && ({
                    let (host, said) = #[trigger] old(self)@.stepped(answer, buffer@, capacity);
                    final(self)@ == host && actions(final(out)@) == actions(old(out)@) + said
                }),
    {
        let record = written_record(&answer, buffer);
        let capacity: usize = allocated(&record);
        self.keep_record(answer, buffer, record, capacity, out);
        assert(self@ == old(self)@.stepped(answer, buffer@, capacity as int).0);
    }
}

/// What the engine wrote into `buffer`, in memory of its own.
fn written_record(answer: &Result<CaptureEvent, EngineError>, buffer: &[u8]) -> (record: Vec<u8>)
    requires
        answer matches Ok(event) ==> event.bytes() <= buffer@.len(),
    ensures
        answer matches Ok(event) ==> record@ == buffer@.take(event.bytes() as int),
        answer is Err ==> record@.len() == 0,
{
    let len: usize = match answer {
        Ok(event) => event.written(),
        Err(_) => 0,
    };
    let mut record: Vec<u8> = Vec::with_capacity(len);
    let mut i: usize = 0;
    while i < len
        invariant
            i <= len <= buffer@.len(),
            record@ == buffer@.take(i as int),
        decreases len - i,
    {
        record.push(buffer[i]);
        i += 1;
        assert(record@ =~= buffer@.take(i as int));
    }
    record
}

/// What a failed capture leaves does not depend on how far the capture got.
proof fn lemma_failure_ignores_the_capture(host: NativeV, mid: NativeV, error: NativeStateError)
    requires
        host.pending is Some,
        mid.pending is Some,
        host.pending->Some_0.capture is Some,
        mid.pending->Some_0.capture is Some,
        mid == (NativeV {
            pending: Some(
                PendingV { capture: mid.pending->Some_0.capture, ..host.pending->Some_0 },
            ),
            ..host
        }),
    ensures
        mid.failed(error) == host.failed(error),
{
    assert(mid.dropped() =~= host.dropped());
}

} // verus!
