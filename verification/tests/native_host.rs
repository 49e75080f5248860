//! Native bootstraps of one terminal, driven by a scripted engine.

use bytes::Bytes;
use phux_server::ids::{BootstrapId, StreamId, TerminalId};
use phux_server::native_state::error::{
    CaptureEvent, CaptureInvalidation, EngineError, NativeStateError,
};
use phux_server::native_state::manager::NativeTerminalManager;
use phux_server::resource::terminal::native_history::{
    history_tombstone_reason, HistoryProgress, NativeHistoryRequest,
};
use phux_server::resource::terminal::native_live::{NativePublicationRequest, ResyncTarget};
use phux_server::resource::terminal::native_model::{
    NativeAction, NativeBootstrapReply, NativeBootstrapRequest, NativeBudgets, NativeHost, Output,
    ReplyToken,
};
use phux_server::resource::terminal::native_owners::cursor_payload;
use phux_server::wire::{
    BootstrapLimits, FrameKind, HistoryRejectionReason, HistoryTombstoneReason, TombstoneReason,
};

const BASE_SEQ: u64 = 40;

fn limits() -> BootstrapLimits {
    BootstrapLimits {
        max_chunk_bytes: 4,
        max_history_page_bytes: 64,
    }
}

fn host() -> NativeHost {
    NativeHost {
        manager: NativeTerminalManager::new(true, 4, true),
        pending: None,
        backlog: Vec::new(),
        owners: Vec::new(),
        publications: Vec::new(),
        budgets: NativeBudgets {
            max_history_clients: 2,
            max_replay_bytes: 8,
            history_ttl_ms: 1_000,
            max_history_cursor_bytes: 32,
            max_history_page_rows: 100,
        },
    }
}

fn request(owner: u64) -> NativeBootstrapRequest {
    NativeBootstrapRequest {
        owner,
        reply: ReplyToken(owner),
        terminal_id: TerminalId::local(7),
        stream_id: StreamId::new(owner).expect("stream"),
        bootstrap_id: BootstrapId::new(1).expect("generation"),
        limits: limits(),
        max_bytes: 4_096,
        max_frames: 16,
    }
}

/// Let the engine take the terminal, hand out "header", then READY "ok".
fn capture(host: &mut NativeHost) {
    let mut out: Vec<NativeAction> = Vec::new();
    host.capture_started(Ok(()), BASE_SEQ, &mut out);
    assert!(out.is_empty());
    assert!(host.step_buffer_len().expect("capturing") >= 8);
    host.step_native_bootstrap(
        Ok(CaptureEvent::Record { written: 6 }),
        b"header--",
        &mut out,
    );
    assert!(out.is_empty());
    host.step_native_bootstrap(Ok(CaptureEvent::Ready { written: 2 }), b"ok", &mut out);
    assert!(matches!(out.as_slice(), [NativeAction::Detach]));
    assert_eq!(host.step_buffer_len(), None);
}

fn detach(host: &mut NativeHost, now_ms: u64) -> Vec<NativeAction> {
    let mut out: Vec<NativeAction> = Vec::new();
    host.capture_detached(Ok(()), &Vec::new(), 80, 24, now_ms, &mut out);
    out
}

fn bootstrapped(host: &mut NativeHost, owner: u64, now_ms: u64) -> NativeBootstrapReply {
    let mut out: Vec<NativeAction> = Vec::new();
    host.handle_native_bootstrap(request(owner), BASE_SEQ, &mut out);
    assert!(matches!(out.last(), Some(NativeAction::Capture { .. })));
    capture(host);
    let mut said = detach(host, now_ms);
    assert_eq!(said.len(), 1);
    match said.remove(0) {
        NativeAction::Answer {
            reply,
            owner: who,
            answer,
        } => {
            assert_eq!(reply, ReplyToken(owner));
            assert_eq!(who, owner);
            answer
        }
        other => panic!("expected an answer, got {other:?}"),
    }
}

fn history_request(owner: u64, cursor: &[u8; 32], max_bytes: u32) -> NativeHistoryRequest {
    NativeHistoryRequest {
        owner,
        terminal_id: TerminalId::local(7),
        stream_id: StreamId::new(owner).expect("stream"),
        bootstrap_id: BootstrapId::new(1).expect("generation"),
        cursor: cursor_payload(cursor),
        max_bytes,
        max_rows: 100,
        limits: limits(),
    }
}

fn page(
    host: &mut NativeHost,
    req: NativeHistoryRequest,
    event: CaptureEvent,
    bytes: &[u8],
    now_ms: u64,
) -> (Result<FrameKind, NativeStateError>, bool) {
    let ticket = match host.handle_native_history(req, now_ms) {
        HistoryProgress::Probe { ticket } => ticket,
        other => panic!("expected a probe, got {other:?}"),
    };
    let ticket = match host.native_history_probed(
        ticket,
        Err(EngineError::OutOfSpace {
            required: bytes.len(),
        }),
        now_ms,
    ) {
        HistoryProgress::Read { ticket, required } => {
            assert_eq!(required, bytes.len());
            ticket
        }
        other => panic!("expected a read, got {other:?}"),
    };
    host.native_history_read(ticket, Ok(event), bytes, bytes.len(), now_ms)
}

#[test]
fn a_bootstrap_is_begin_chunks_and_ready_with_a_cursor() {
    let mut host = host();
    let answer = bootstrapped(&mut host, 1, 0);
    assert_eq!(answer.base_seq, BASE_SEQ);
    assert_eq!(answer.frames.len(), 5);
    assert!(matches!(
        answer.frames[0],
        FrameKind::BootstrapBegin {
            cols: 80,
            rows: 24,
            base_seq: BASE_SEQ,
            ..
        }
    ));
    let mut rejoined: Vec<u8> = Vec::new();
    for (position, frame) in answer.frames[1..4].iter().enumerate() {
        match frame {
            FrameKind::BootstrapChunk {
                chunk_seq, payload, ..
            } => {
                assert_eq!(*chunk_seq as usize, position);
                assert!(payload.len() <= 4);
                rejoined.extend_from_slice(payload);
            }
            other => panic!("expected a chunk, got {other:?}"),
        }
    }
    assert_eq!(rejoined, b"headerok");
    match &answer.frames[4] {
        FrameKind::BootstrapReady { history_cursor, .. } => assert_eq!(
            history_cursor.as_ref().expect("cursor")[..],
            answer.publication_cursor[..]
        ),
        other => panic!("expected READY, got {other:?}"),
    }
}

#[test]
fn consumers_with_the_same_bounds_share_one_capture() {
    let mut host = host();
    let mut out: Vec<NativeAction> = Vec::new();
    host.handle_native_bootstrap(request(1), BASE_SEQ, &mut out);
    host.handle_native_bootstrap(request(2), BASE_SEQ, &mut out);
    host.handle_native_bootstrap(request(3), BASE_SEQ, &mut out);
    assert_eq!(out.len(), 1, "one capture for all of them");
    assert_eq!(host.backlog.len(), 1, "the third has to wait its turn");
    capture(&mut host);
    let said = detach(&mut host, 0);
    assert_eq!(said.len(), 3);
    assert!(matches!(said[0], NativeAction::Answer { owner: 1, .. }));
    assert!(matches!(said[1], NativeAction::Answer { owner: 2, .. }));
    assert!(
        matches!(said[2], NativeAction::Capture { .. }),
        "the next in line starts"
    );
}

#[test]
fn impossible_requests_are_refused_at_once() {
    let mut host = host();
    let mut out: Vec<NativeAction> = Vec::new();
    let mut small = request(1);
    small.max_frames = 2;
    host.handle_native_bootstrap(small, BASE_SEQ, &mut out);
    let mut tiny = request(2);
    tiny.max_bytes = 32;
    host.handle_native_bootstrap(tiny, BASE_SEQ, &mut out);
    assert_eq!(out.len(), 2);
    for action in &out {
        assert!(matches!(
            action,
            NativeAction::Refuse {
                error: NativeStateError::LimitExceeded,
                ..
            }
        ));
    }
    assert!(!host.native_bootstrap_pending());

    host.manager = Err(NativeStateError::UnsupportedFeature);
    out.clear();
    host.handle_native_bootstrap(request(3), BASE_SEQ, &mut out);
    assert!(matches!(
        out.as_slice(),
        [NativeAction::Refuse {
            reply: ReplyToken(3),
            error: NativeStateError::UnsupportedFeature,
        }]
    ));
}

#[test]
fn a_failed_capture_refuses_every_waiter_and_replays_what_was_held() {
    let mut host = host();
    let mut out: Vec<NativeAction> = Vec::new();
    host.handle_native_bootstrap(request(1), BASE_SEQ, &mut out);
    host.handle_native_bootstrap(request(2), BASE_SEQ, &mut out);
    out.clear();
    host.capture_started(Ok(()), BASE_SEQ, &mut out);
    assert!(host.buffer_native_live_output(41, &Bytes::from_static(b"abc"), &mut out));
    assert!(out.is_empty());
    host.step_native_bootstrap(Err(EngineError::IoError), b"", &mut out);
    assert_eq!(out.len(), 4);
    assert!(matches!(out[0], NativeAction::Abort));
    match &out[1] {
        NativeAction::Replay { output } => assert_eq!(
            *output,
            vec![Output {
                seq: 41,
                bytes: Bytes::from_static(b"abc"),
            }]
        ),
        other => panic!("expected the held output, got {other:?}"),
    }
    for (action, reply) in out[2..].iter().zip([ReplyToken(1), ReplyToken(2)]) {
        match action {
            NativeAction::Refuse { reply: to, error } => {
                assert_eq!(*to, reply);
                assert_eq!(*error, NativeStateError::LimitExceeded);
            }
            other => panic!("expected a refusal, got {other:?}"),
        }
    }
    assert!(!host.native_bootstrap_pending());
}

#[test]
fn the_buffer_grows_to_what_the_engine_asks_for() {
    let mut host = host();
    let mut out: Vec<NativeAction> = Vec::new();
    let mut big = request(1);
    big.limits.max_history_page_bytes = 200_000;
    big.max_bytes = 400_000;
    host.handle_native_bootstrap(big, BASE_SEQ, &mut out);
    out.clear();
    host.capture_started(Ok(()), BASE_SEQ, &mut out);
    assert_eq!(host.step_buffer_len(), Some(65_536));
    host.step_native_bootstrap(
        Err(EngineError::OutOfSpace { required: 100_000 }),
        b"",
        &mut out,
    );
    assert!(out.is_empty());
    assert_eq!(host.step_buffer_len(), Some(100_000));
    host.step_native_bootstrap(
        Err(EngineError::OutOfSpace { required: 300_000 }),
        b"",
        &mut out,
    );
    assert!(
        matches!(out[0], NativeAction::Abort),
        "beyond the record bound"
    );
}

#[test]
fn publications_are_picked_up_with_the_output_since() {
    let mut host = host();
    let answer = bootstrapped(&mut host, 1, 0);
    let mut out: Vec<NativeAction> = Vec::new();
    assert!(!host.buffer_native_live_output(41, &Bytes::from_static(b"live"), &mut out));
    let pickup = NativePublicationRequest {
        owner: 1,
        cursor: answer.publication_cursor,
        terminal_id: TerminalId::local(7),
        stream_id: StreamId::new(1).expect("stream"),
        bootstrap_id: BootstrapId::new(1).expect("generation"),
    };
    assert_eq!(
        host.handle_native_publication(&pickup),
        Ok(vec![Output {
            seq: 41,
            bytes: Bytes::from_static(b"live"),
        }])
    );
    assert_eq!(
        host.handle_native_publication(&pickup),
        Err(NativeStateError::InvalidHandle),
        "once is enough"
    );
}

#[test]
fn a_publication_that_outgrows_its_bound_ends() {
    let mut host = host();
    let answer = bootstrapped(&mut host, 1, 0);
    let mut out: Vec<NativeAction> = Vec::new();
    let _ = host.buffer_native_live_output(41, &Bytes::from_static(b"12345678"), &mut out);
    assert_eq!(host.publications.len(), 1);
    let _ = host.buffer_native_live_output(42, &Bytes::from_static(b"9"), &mut out);
    assert!(host.publications.is_empty());
    let pickup = NativePublicationRequest {
        owner: 1,
        cursor: answer.publication_cursor,
        terminal_id: TerminalId::local(7),
        stream_id: StreamId::new(1).expect("stream"),
        bootstrap_id: BootstrapId::new(1).expect("generation"),
    };
    assert_eq!(
        host.handle_native_publication(&pickup),
        Err(NativeStateError::InvalidHandle)
    );
}

#[test]
fn history_pages_are_numbered_until_the_last_one() {
    let mut host = host();
    let answer = bootstrapped(&mut host, 1, 0);
    let cursor = answer.publication_cursor;
    let (first, keep) = page(
        &mut host,
        history_request(1, &cursor, 64),
        CaptureEvent::HistoryPage {
            rows: 3,
            written: 5,
        },
        b"older",
        10,
    );
    assert!(keep);
    match first.expect("page") {
        FrameKind::HistoryPage {
            page_seq,
            rows,
            payload,
            next_cursor,
            ..
        } => {
            assert_eq!(page_seq, 1);
            assert_eq!(rows, 3);
            assert_eq!(&payload[..], b"older");
            assert_eq!(&next_cursor.expect("more")[..], &cursor[..]);
        }
        other => panic!("expected a page, got {other:?}"),
    }
    let (last, keep) = page(
        &mut host,
        history_request(1, &cursor, 64),
        CaptureEvent::Finish { written: 3 },
        b"end",
        20,
    );
    assert!(!keep, "the hold is over");
    match last.expect("page") {
        FrameKind::HistoryPage {
            page_seq,
            next_cursor,
            ..
        } => {
            assert_eq!(page_seq, 2);
            assert_eq!(next_cursor, None);
        }
        other => panic!("expected a page, got {other:?}"),
    }
    assert!(host.owners.is_empty());
}

#[test]
fn a_request_that_is_too_small_keeps_its_cursor() {
    let mut host = host();
    let answer = bootstrapped(&mut host, 1, 0);
    let cursor = answer.publication_cursor;
    let (answered, keep) = page(
        &mut host,
        history_request(1, &cursor, 4),
        CaptureEvent::HistoryPage {
            rows: 3,
            written: 5,
        },
        b"older",
        10,
    );
    assert!(keep);
    match answered.expect("refusal") {
        FrameKind::HistoryRejected {
            reason,
            required_bytes,
            required_rows,
            ..
        } => {
            assert_eq!(reason, HistoryRejectionReason::TooSmall);
            assert_eq!(required_bytes, 5);
            assert_eq!(required_rows, 3);
        }
        other => panic!("expected a rejection, got {other:?}"),
    }
    match host.handle_native_history(history_request(1, &cursor, 64), 20) {
        HistoryProgress::Answer { result, .. } => assert!(
            matches!(result, Ok(FrameKind::HistoryPage { page_seq: 1, .. })),
            "the record is there"
        ),
        other => panic!("expected the page, got {other:?}"),
    }
    match host.handle_native_history(history_request(1, &cursor, 0), 30) {
        HistoryProgress::Answer { result, .. } => assert!(matches!(
            result,
            Ok(FrameKind::HistoryRejected {
                reason: HistoryRejectionReason::ZeroLimit,
                ..
            })
        )),
        other => panic!("expected a rejection, got {other:?}"),
    }
}

#[test]
fn stale_cursors_are_answered_with_a_tombstone() {
    let mut host = host();
    match host.handle_native_history(history_request(1, &[9; 32], 64), 0) {
        HistoryProgress::Answer { result, keep } => {
            assert!(!keep);
            assert!(matches!(
                result,
                Ok(FrameKind::HistoryTombstone {
                    reason: HistoryTombstoneReason::Stale,
                    ..
                })
            ));
        }
        other => panic!("expected a tombstone, got {other:?}"),
    }
}

#[test]
fn a_given_up_cut_is_answered_with_its_reason() {
    let mut host = host();
    let answer = bootstrapped(&mut host, 1, 0);
    let cursor = answer.publication_cursor;
    let ticket = match host.handle_native_history(history_request(1, &cursor, 64), 5) {
        HistoryProgress::Probe { ticket } => ticket,
        other => panic!("expected a probe, got {other:?}"),
    };
    match host.native_history_probed(
        ticket,
        Ok(CaptureEvent::Invalidated(CaptureInvalidation::Evicted)),
        5,
    ) {
        HistoryProgress::Answer { result, keep } => {
            assert!(!keep);
            assert!(matches!(
                result,
                Ok(FrameKind::HistoryTombstone {
                    reason: HistoryTombstoneReason::Pruned,
                    ..
                })
            ));
        }
        other => panic!("expected a tombstone, got {other:?}"),
    }
    assert!(host.owners.is_empty());
}

#[test]
fn tombstones_name_their_reason() {
    for (error, reason) in [
        (NativeStateError::Stale, HistoryTombstoneReason::Stale),
        (
            NativeStateError::WrongGeneration,
            HistoryTombstoneReason::Stale,
        ),
        (NativeStateError::Pruned, HistoryTombstoneReason::Pruned),
        (NativeStateError::Reset, HistoryTombstoneReason::Reset),
        (NativeStateError::Resize, HistoryTombstoneReason::Resize),
        (
            NativeStateError::LimitExceeded,
            HistoryTombstoneReason::Limit,
        ),
        (
            NativeStateError::Corruption,
            HistoryTombstoneReason::CodecFailure,
        ),
    ] {
        assert_eq!(history_tombstone_reason(error), reason);
    }
}

#[test]
fn unused_cursors_expire() {
    let mut host = host();
    let _ = bootstrapped(&mut host, 1, 100);
    let mut out: Vec<NativeAction> = Vec::new();
    host.expire_native_cursors(1_099, &mut out);
    assert!(out.is_empty());
    host.expire_native_cursors(1_100, &mut out);
    assert_eq!(out.len(), 1);
    assert!(matches!(
        out[0],
        NativeAction::Control {
            owner: 1,
            frame: FrameKind::HistoryTombstone {
                reason: HistoryTombstoneReason::Expired,
                ..
            },
        }
    ));
    assert!(host.owners.is_empty());
}

#[test]
fn a_new_attachment_ends_the_old_hold() {
    let mut host = host();
    let first = bootstrapped(&mut host, 1, 0);
    let mut out: Vec<NativeAction> = Vec::new();
    host.handle_native_bootstrap(request(1), 77, &mut out);
    assert_eq!(out.len(), 2);
    assert!(matches!(
        out[0],
        NativeAction::Control {
            owner: 1,
            frame: FrameKind::BootstrapTombstone {
                reason: TombstoneReason::ExplicitReattach,
                last_valid_seq: 77,
                ..
            },
        }
    ));
    assert!(matches!(out[1], NativeAction::Capture { .. }));
    let manager = host.manager.as_ref().expect("manager");
    assert!(!manager.has_generation(&first.publication_cursor));
}

#[test]
fn a_resize_ends_everything_native() {
    let mut host = host();
    let _ = bootstrapped(&mut host, 1, 0);
    let mut out: Vec<NativeAction> = Vec::new();
    host.handle_native_bootstrap(request(2), BASE_SEQ, &mut out);
    out.clear();
    let resync = host.invalidate_all_native_cursors(TombstoneReason::Resize, 90, &mut out);
    assert_eq!(
        resync,
        vec![ResyncTarget {
            owner: 1,
            stream_id: StreamId::new(1).expect("stream"),
            bootstrap_id: BootstrapId::new(1).expect("generation"),
        }]
    );
    assert_eq!(out.len(), 2);
    assert!(matches!(
        out[0],
        NativeAction::Refuse {
            reply: ReplyToken(2),
            error: NativeStateError::LimitExceeded,
        }
    ));
    assert!(matches!(
        out[1],
        NativeAction::Control {
            owner: 1,
            frame: FrameKind::BootstrapTombstone {
                reason: TombstoneReason::Resize,
                last_valid_seq: 90,
                ..
            },
        }
    ));
    assert!(host.owners.is_empty());
    assert!(host.publications.is_empty());
    assert!(!host.native_bootstrap_pending());
}

#[test]
fn a_released_owner_leaves_nothing_behind() {
    let mut host = host();
    let answer = bootstrapped(&mut host, 1, 0);
    assert!(host.hold_of(1).is_some());
    host.release_native_owner(1);
    assert!(host.hold_of(1).is_none());
    let manager = host.manager.as_ref().expect("manager");
    assert!(!manager.has_generation(&answer.publication_cursor));
}

#[test]
fn a_reply_that_nobody_takes_releases_its_hold() {
    let mut host = host();
    let mut out: Vec<NativeAction> = Vec::new();
    host.handle_native_bootstrap(request(1), BASE_SEQ, &mut out);
    host.handle_native_bootstrap(request(2), BASE_SEQ, &mut out);
    capture(&mut host);
    let mut said: Vec<NativeAction> = Vec::new();
    host.capture_detached(Ok(()), &vec![ReplyToken(2)], 80, 24, 0, &mut said);
    assert_eq!(said.len(), 1);
    assert!(matches!(said[0], NativeAction::Answer { owner: 1, .. }));
    assert_eq!(host.owners.len(), 1, "only the first holds the history");
    assert_eq!(host.owners[0].owner, 1);
}

#[test]
fn the_history_goes_with_the_first_waiter_that_is_gone() {
    let mut host = host();
    let mut out: Vec<NativeAction> = Vec::new();
    host.handle_native_bootstrap(request(1), BASE_SEQ, &mut out);
    host.handle_native_bootstrap(request(2), BASE_SEQ, &mut out);
    capture(&mut host);
    let mut said: Vec<NativeAction> = Vec::new();
    host.capture_detached(Ok(()), &vec![ReplyToken(1)], 80, 24, 0, &mut said);
    assert!(
        matches!(
            said.as_slice(),
            [NativeAction::Refuse {
                reply: ReplyToken(2),
                error: NativeStateError::LimitExceeded,
            }]
        ),
        "the generation was released with its only owner"
    );
    assert!(host.owners.is_empty());
    assert!(host.publications.is_empty());
}

#[test]
fn a_record_that_takes_too_much_memory_ends_the_capture() {
    let mut host = host();
    let mut out: Vec<NativeAction> = Vec::new();
    host.handle_native_bootstrap(request(1), BASE_SEQ, &mut out);
    host.capture_started(Ok(()), BASE_SEQ, &mut out);
    out.clear();
    host.step_with_capacity(
        Ok(CaptureEvent::Record { written: 6 }),
        b"header--",
        6,
        &mut out,
    );
    assert!(out.is_empty());
    host.step_with_capacity(
        Ok(CaptureEvent::Record { written: 4 }),
        b"more",
        5_000,
        &mut out,
    );
    assert!(matches!(out[0], NativeAction::Abort));
    assert!(matches!(
        out[1],
        NativeAction::Refuse {
            reply: ReplyToken(1),
            error: NativeStateError::LimitExceeded,
        }
    ));
    assert!(!host.native_bootstrap_pending());
}

#[test]
fn a_page_that_takes_too_much_memory_ends_the_hold() {
    for (pending_capacity, fits) in [(1_usize << 30, false), (5, true)] {
        let mut host = host();
        let answer = bootstrapped(&mut host, 1, 0);
        let cursor = answer.publication_cursor;
        let ticket = match host.handle_native_history(history_request(1, &cursor, 64), 10) {
            HistoryProgress::Probe { ticket } => ticket,
            other => panic!("expected a probe, got {other:?}"),
        };
        let ticket = match host.native_history_probed(
            ticket,
            Err(EngineError::OutOfSpace { required: 5 }),
            10,
        ) {
            HistoryProgress::Read { ticket, .. } => ticket,
            other => panic!("expected a read, got {other:?}"),
        };
        let (result, keep) = host.native_history_read_with_capacity(
            ticket,
            Ok(CaptureEvent::HistoryPage {
                rows: 3,
                written: 5,
            }),
            b"older",
            pending_capacity,
            5,
            10,
        );
        assert_eq!(keep, fits);
        match result.expect("an answer") {
            FrameKind::HistoryPage {
                page_seq,
                rows,
                payload,
                ..
            } => {
                assert!(fits);
                assert_eq!(page_seq, 1);
                assert_eq!(rows, 3);
                assert_eq!(&payload[..], b"older");
            }
            FrameKind::HistoryTombstone { reason, .. } => {
                assert!(!fits);
                assert_eq!(
                    reason,
                    history_tombstone_reason(NativeStateError::LimitExceeded)
                );
                assert!(host.owners.is_empty());
            }
            other => panic!("expected a page or its end, got {other:?}"),
        }
    }
}

#[test]
fn held_payloads_leave_a_new_history_no_room() {
    for (flag, answered) in [(false, true), (true, false)] {
        let mut host = host();
        host.manager = NativeTerminalManager::new(true, 1, true);
        let answer = bootstrapped(&mut host, 1, 0);
        let (first, _) = page(
            &mut host,
            history_request(1, &answer.publication_cursor, 64),
            CaptureEvent::HistoryPage {
                rows: 3,
                written: 5,
            },
            b"older",
            10,
        );
        let held = first.expect("page");
        host.release_native_owner(1);
        assert_eq!(host.charges_held(), vec![true], "the page is still out");

        let mut out: Vec<NativeAction> = Vec::new();
        host.handle_native_bootstrap(request(2), BASE_SEQ, &mut out);
        capture(&mut host);
        out.clear();
        host.detach_with(Ok(()), &Vec::new(), &vec![flag], 80, 24, 20, &mut out);
        assert_eq!(out.len(), 1);
        assert_eq!(
            matches!(out[0], NativeAction::Answer { owner: 2, .. }),
            answered
        );
        if !answered {
            assert!(matches!(
                out[0],
                NativeAction::Refuse {
                    reply: ReplyToken(2),
                    error: NativeStateError::LimitExceeded,
                }
            ));
        }
        drop(held);
    }
}

#[test]
fn every_waiter_is_answered_once_at_ready() {
    for (gone, answered) in [
        (Vec::new(), vec![1, 2]),
        (vec![ReplyToken(2)], vec![1]),
        (vec![ReplyToken(1)], vec![2]),
    ] {
        let mut host = host();
        let mut out: Vec<NativeAction> = Vec::new();
        host.handle_native_bootstrap(request(1), BASE_SEQ, &mut out);
        host.handle_native_bootstrap(request(2), BASE_SEQ, &mut out);
        capture(&mut host);
        out.clear();
        host.capture_detached(Ok(()), &gone, 80, 24, 0, &mut out);
        let mut replies: Vec<u64> = out
            .iter()
            .filter_map(|action| match action {
                NativeAction::Answer { reply, .. } | NativeAction::Refuse { reply, .. } => {
                    Some(reply.0)
                }
                _ => None,
            })
            .collect();
        replies.sort_unstable();
        assert_eq!(replies, answered);
    }
}

#[test]
fn what_is_held_of_a_history_counts_after_its_last_owner() {
    for (flag, counts) in [(true, 1), (false, 0)] {
        let mut host = host();
        bootstrapped(&mut host, 1, 0);
        host.release_native_owner_with(1, flag);
        assert_eq!(host.charges_held().len(), counts);
        assert!(host.owners.is_empty());
        host.release_native_owner_with(1, true);
        assert_eq!(host.charges_held().len(), counts, "there is nothing left");
    }
}

#[test]
fn expired_and_ended_histories_count_while_they_are_held() {
    let mut host = host();
    let mut pages: Vec<FrameKind> = Vec::new();
    for owner in [1, 2] {
        let answer = bootstrapped(&mut host, owner, 0);
        let (first, _) = page(
            &mut host,
            history_request(owner, &answer.publication_cursor, 64),
            CaptureEvent::HistoryPage {
                rows: 3,
                written: 5,
            },
            b"older",
            owner * 500,
        );
        pages.push(first.expect("page"));
    }
    let mut out: Vec<NativeAction> = Vec::new();
    host.expire_native_cursors(1_600, &mut out);
    assert_eq!(host.charges_held(), vec![true], "the first expired");
    host.invalidate_all_native_cursors(TombstoneReason::Resize, BASE_SEQ, &mut out);
    assert_eq!(host.charges_held(), vec![true, true]);
    pages.remove(0);
    assert_eq!(host.charges_held(), vec![false, true]);
}
