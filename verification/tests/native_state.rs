//! Captures, generations and history, driven by a scripted engine.

use bytes::Bytes;
use phux_server::native_state::capture::{
    native_bootstrap_capabilities, official_snapshot_available, NativeCheckpointCapture,
    NativeCheckpointChunkKind, NativeHistoryCursor, NativeHistoryEvent, MAX_NATIVE_PREFIX_BYTES,
    MAX_NATIVE_PREFIX_CHUNKS,
};
use phux_server::native_state::cut::{encode_cut, OpaqueHistoryCursor};
use phux_server::native_state::error::{
    CaptureEvent, CaptureInvalidation, EngineError, NativeStateError,
};
use phux_server::native_state::generation::CachedNativeHistoryRecord;
use phux_server::native_state::manager::{
    are_charged, is_charged, requested_record_window, HistoryStep, NativeGenerationSeed, NativeManagedCapture,
    NativeTerminalManager,
};
use phux_server::wire::{BootstrapLimits, EngineCodec, EngineFeatureSet};

const PAGE_ROWS: u32 = 1_000;

fn limits() -> BootstrapLimits {
    BootstrapLimits {
        max_chunk_bytes: 64 * 1024,
        max_history_page_bytes: 64 * 1024,
    }
}

fn manager(capacity: usize) -> NativeTerminalManager {
    NativeTerminalManager::new(true, capacity, true).expect("manager")
}

fn begin(manager: &mut NativeTerminalManager) -> NativeManagedCapture {
    manager
        .begin_generation_capture(
            limits(),
            MAX_NATIVE_PREFIX_BYTES,
            MAX_NATIVE_PREFIX_CHUNKS,
            PAGE_ROWS,
            Ok(()),
        )
        .expect("generation capture")
}

/// The engine hands out one record and READY.
fn drain_ready(capture: &mut NativeManagedCapture) {
    let chunk = capture
        .step(Ok(CaptureEvent::Record { written: 6 }), b"header--")
        .expect("record");
    assert_eq!(chunk.bytes, b"header");
    assert_eq!(chunk.kind, NativeCheckpointChunkKind::Record);
    let chunk = capture
        .step(Ok(CaptureEvent::Ready { written: 5 }), b"ready")
        .expect("ready");
    assert_eq!(chunk.kind, NativeCheckpointChunkKind::Ready);
}

fn detach_managed_generation(
    manager: &mut NativeTerminalManager,
) -> (OpaqueHistoryCursor, NativeGenerationSeed) {
    let mut capture = begin(manager);
    drain_ready(&mut capture);
    manager
        .finish_generation_capture(capture, Ok(()))
        .expect("detach generation READY continuation")
}

fn install_generation(manager: &mut NativeTerminalManager) -> OpaqueHistoryCursor {
    let (cursor, seed) = detach_managed_generation(manager);
    let bounds = seed.bounds();
    let reserved = bounds
        .required_reserved_bytes()
        .expect("bounded generation reservation");
    manager
        .install_generation(cursor, seed, bounds, reserved)
        .expect("install leased generation");
    cursor
}

/// What the engine does when it is next asked for history.
enum Script {
    Page(usize, &'static [u8]),
    Finish(&'static [u8]),
    Invalid(CaptureInvalidation),
    Fails(EngineError),
}

fn history_at(
    manager: &mut NativeTerminalManager,
    cursor: &OpaqueHistoryCursor,
    index: usize,
    next: Script,
) -> Result<CachedNativeHistoryRecord, NativeStateError> {
    let bytes = limits().max_history_page_bytes;
    match manager.history_record_at(cursor, index, bytes, PAGE_ROWS)? {
        HistoryStep::Record(record) => return Ok(record),
        HistoryStep::Probe => {}
        HistoryStep::Read { .. } => panic!("a request starts with a probe"),
    }
    let (event, scratch) = match next {
        Script::Invalid(reason) => {
            let step = manager.history_probed(
                cursor,
                index,
                bytes,
                PAGE_ROWS,
                Ok(CaptureEvent::Invalidated(reason)),
            );
            return Err(step.expect_err("an invalidated cut serves nothing"));
        }
        Script::Fails(error) => {
            let step = manager.history_probed(cursor, index, bytes, PAGE_ROWS, Err(error));
            return Err(step.expect_err("a failed engine serves nothing"));
        }
        Script::Page(rows, page) => (
            CaptureEvent::HistoryPage {
                rows,
                written: page.len(),
            },
            page,
        ),
        Script::Finish(page) => (
            CaptureEvent::Finish {
                written: page.len(),
            },
            page,
        ),
    };
    match manager.history_probed(
        cursor,
        index,
        bytes,
        PAGE_ROWS,
        Err(EngineError::OutOfSpace {
            required: scratch.len(),
        }),
    )? {
        HistoryStep::Read { required } => assert_eq!(required, scratch.len()),
        other => panic!("expected a read, got {other:?}"),
    }
    manager.history_read(
        cursor,
        index,
        bytes,
        PAGE_ROWS,
        Ok(event),
        scratch,
        scratch.len(),
    )
}

fn is_lease_tombstone(error: NativeStateError) -> bool {
    matches!(
        error,
        NativeStateError::Pruned
            | NativeStateError::Stale
            | NativeStateError::Reset
            | NativeStateError::Resize
            | NativeStateError::WrongGeneration
    )
}

// ---- cuts -------------------------------------------------------------------

#[test]
fn a_cut_is_named_by_the_digest_of_the_snapshot() {
    let cut = encode_cut(Ok(b"hello".to_vec()), Ok(2)).expect("cut");
    assert_eq!(&cut.prefix[..], b"hello");
    assert_eq!(&cut.suffix[..], b"llo");
    assert_eq!(
        cut.cursor,
        [
            0x2c, 0xf2, 0x4d, 0xba, 0x5f, 0xb0, 0xa3, 0x0e, 0x26, 0xe8, 0x3b, 0x2a, 0xc5, 0xb9,
            0xe2, 0x9e, 0x1b, 0x16, 0x1e, 0x5c, 0x1f, 0xa7, 0x42, 0x5e, 0x73, 0x04, 0x33, 0x62,
            0x93, 0x8b, 0x98, 0x24,
        ]
    );
    let past_the_end = encode_cut(Ok(b"hello".to_vec()), Ok(99)).expect("cut");
    assert!(past_the_end.suffix.is_empty());
}

#[test]
fn snapshots_that_cannot_be_cut_say_why() {
    let cases = [
        (Ok(vec![]), Ok(1), NativeStateError::InvalidState),
        (Ok(vec![1]), Ok(0), NativeStateError::InvalidState),
        (
            Err(EngineError::OutOfMemory),
            Ok(1),
            NativeStateError::OutOfMemory,
        ),
        (
            Err(EngineError::InvalidValue),
            Ok(1),
            NativeStateError::UnsupportedFeature,
        ),
        (
            Ok(vec![1]),
            Err(EngineError::IoError),
            NativeStateError::Corruption,
        ),
        (
            Ok(vec![1]),
            Err(EngineError::LimitExceeded),
            NativeStateError::LimitExceeded,
        ),
        (
            Ok(vec![1]),
            Err(EngineError::OutOfSpace { required: 9 }),
            NativeStateError::OutOfSpace {
                required_bytes: 9,
                required_rows: 0,
            },
        ),
    ];
    for (encoded, position, expected) in cases {
        assert_eq!(
            encode_cut(encoded, position).expect_err("no cut"),
            expected
        );
    }
}

#[test]
fn every_failure_has_its_words() {
    assert_eq!(
        NativeStateError::OutOfSpace {
            required_bytes: 70_000,
            required_rows: 12,
        }
        .message(),
        "out of space: 70000 bytes, 12 rows"
    );
    assert_eq!(
        NativeStateError::Pruned.message(),
        "requested history was pruned"
    );
    assert_eq!(
        NativeStateError::ImportBusy.message(),
        "history import already active"
    );
}

#[test]
fn advertises_official_progressive_snapshot_v1() {
    let required_native = EngineFeatureSet { bits: 3 };
    assert!(official_snapshot_available(true, true, &Ok(vec![1])));
    let advertised = native_bootstrap_capabilities(true, limits(), required_native);
    assert_eq!(
        advertised.native,
        Some((EngineCodec::LibghosttySnapshotV1, required_native))
    );
    assert!(!official_snapshot_available(true, true, &Ok(vec![])));
    assert!(!official_snapshot_available(false, true, &Ok(vec![1])));
    assert!(!official_snapshot_available(true, false, &Ok(vec![1])));
    assert!(!official_snapshot_available(
        true,
        true,
        &Err(EngineError::IoError)
    ));
    let plain = native_bootstrap_capabilities(false, limits(), required_native);
    assert_eq!(plain.native, None);
    assert_eq!(plain.limits, limits());
}

#[test]
fn capture_then_live_write_then_history() {
    let small = BootstrapLimits {
        max_chunk_bytes: 4,
        max_history_page_bytes: 3,
    };
    let encoded = b"prefix-and-history".to_vec();
    let mut capture =
        NativeCheckpointCapture::new(Ok(encoded.clone()), Ok(7), small).expect("capture");
    let mut rejoined: Vec<u8> = Vec::new();
    loop {
        let required = match capture.step(&mut []) {
            Err(NativeStateError::OutOfSpace { required_bytes, .. }) => required_bytes,
            other => panic!("probe: {other:?}"),
        };
        assert!(required <= capture.max_record_bytes());
        let mut exact = vec![0; required];
        let chunk = capture.step(&mut exact).expect("record");
        rejoined.extend_from_slice(chunk.bytes);
        if chunk.kind == NativeCheckpointChunkKind::Ready {
            break;
        }
    }
    assert_eq!(rejoined, encoded);
    assert!(capture.is_ready());
    assert_eq!(
        capture.step(&mut [0; 64]).expect_err("nothing follows READY"),
        NativeStateError::InvalidState
    );
    capture.abort().expect("abort");

    let mut history = NativeHistoryCursor::new(Ok(encoded), Ok(7), small).expect("cursor");
    let mut served: Vec<u8> = Vec::new();
    let mut pages = 0;
    loop {
        match history.next(small.max_history_page_bytes, &mut []) {
            Ok(NativeHistoryEvent::End) => break,
            Err(NativeStateError::OutOfSpace { required_bytes, .. }) => {
                let mut exact = vec![0; required_bytes];
                match history
                    .next(small.max_history_page_bytes, &mut exact)
                    .expect("page")
                {
                    NativeHistoryEvent::Page { bytes, .. } => served.extend_from_slice(bytes),
                    NativeHistoryEvent::End => panic!("a page was announced"),
                }
                pages += 1;
            }
            other => panic!("{other:?}"),
        }
    }
    assert_eq!(served, b"and-history");
    assert_eq!(pages, 4);
    assert_eq!(
        history.next(0, &mut []).expect_err("no room at all"),
        NativeStateError::LimitExceeded
    );
}

#[test]
fn reset_and_resize_invalidate_cursor() {
    let mut buffer = vec![0; 64];
    let mut reset =
        NativeHistoryCursor::new(Ok(b"snapshot".to_vec()), Ok(3), limits()).expect("reset");
    reset.reset();
    assert_eq!(
        reset
            .next(limits().max_history_page_bytes, &mut buffer)
            .unwrap_err(),
        NativeStateError::Reset
    );
    let mut resized =
        NativeHistoryCursor::new(Ok(b"snapshot".to_vec()), Ok(3), limits()).expect("resize");
    resized.resize(Ok(())).expect("resize");
    assert_eq!(
        resized
            .next(limits().max_history_page_bytes, &mut buffer)
            .unwrap_err(),
        NativeStateError::Resize
    );
    let mut refused =
        NativeHistoryCursor::new(Ok(b"snapshot".to_vec()), Ok(3), limits()).expect("refused");
    assert!(refused.resize(Err(EngineError::InvalidValue)).is_err());
    assert!(refused
        .next(limits().max_history_page_bytes, &mut buffer)
        .is_ok());
}

// ---- generations ------------------------------------------------------------

#[test]
fn a_manager_needs_an_encoder_room_and_a_continuation() {
    for (supported, capacity, continuation, expected) in [
        (false, 1, true, NativeStateError::UnsupportedFeature),
        (true, 0, true, NativeStateError::LimitExceeded),
        (true, 1, false, NativeStateError::ContinuationUnavailable),
    ] {
        assert_eq!(
            NativeTerminalManager::new(supported, capacity, continuation)
                .expect_err("no manager"),
            expected
        );
    }
}

#[test]
fn shared_generation_is_content_addressed() {
    let mut manager = manager(1);
    let cursor = install_generation(&mut manager);
    manager.retain_generation(&cursor).expect("retain");
    let first = history_at(&mut manager, &cursor, 0, Script::Page(3, b"rows")).expect("page");
    let again = history_at(
        &mut manager,
        &cursor,
        0,
        Script::Fails(EngineError::IoError),
    )
    .expect("cached page");
    assert_eq!(first.bytes.as_ptr(), again.bytes.as_ptr());
    manager.release_generation(&cursor).expect("r1");
    assert!(manager.has_generation(&cursor));
    manager.release_generation(&cursor).expect("r2");
    assert!(!manager.has_generation(&cursor));
    assert_eq!(
        manager.release_generation(&cursor),
        Err(NativeStateError::InvalidHandle)
    );
}

#[test]
fn managed_capture_defers_multiple_pages_and_finish_past_ready() {
    let mut manager = manager(1);
    let cursor = install_generation(&mut manager);
    let script = [
        Script::Page(3, b"first page"),
        Script::Page(2, b"second page"),
        Script::Finish(b"finish"),
    ];
    let mut pages = 0;
    for (index, next) in script.into_iter().enumerate() {
        let record = history_at(&mut manager, &cursor, index, next).expect("record");
        assert!(
            !record.bytes.is_empty(),
            "PAGE and FINISH carry native authentication"
        );
        if record.finish {
            assert_eq!(record.rows, 0);
            break;
        }
        assert!(record.rows > 0);
        pages += 1;
    }
    assert_eq!(pages, 2);
    assert_eq!(
        history_at(
            &mut manager,
            &cursor,
            3,
            Script::Fails(EngineError::IoError)
        ),
        Err(NativeStateError::InvalidHandle),
        "nothing follows FINISH"
    );
}

#[test]
fn a_record_in_several_parts_is_served_whole() {
    let mut manager = manager(1);
    let cursor = install_generation(&mut manager);
    let bytes = limits().max_history_page_bytes;
    assert!(matches!(
        manager.history_record_at(&cursor, 0, bytes, PAGE_ROWS),
        Ok(HistoryStep::Probe)
    ));
    assert_eq!(
        manager.history_read(
            &cursor,
            0,
            bytes,
            PAGE_ROWS,
            Ok(CaptureEvent::Record { written: 4 }),
            b"part",
            4,
        ),
        Err(NativeStateError::ImportBusy)
    );
    let record = history_at(&mut manager, &cursor, 0, Script::Page(1, b"-two")).expect("page");
    assert_eq!(&record.bytes[..], b"part-two");
    assert_eq!(
        manager
            .history_record_at(&cursor, 0, 4, PAGE_ROWS)
            .map(|_| ())
            .expect_err("too small a request"),
        NativeStateError::OutOfSpace {
            required_bytes: 8,
            required_rows: 1,
        }
    );
}

#[test]
fn repeated_ready_prefixes_receive_distinct_generation_cursors() {
    let mut manager = manager(2);
    let (first_cursor, first_seed) = detach_managed_generation(&mut manager);
    drop(first_seed);
    let (second_cursor, second_seed) = detach_managed_generation(&mut manager);
    drop(second_seed);
    assert_ne!(
        first_cursor, second_cursor,
        "generation freshness must not depend on history bytes being encoded before READY"
    );
}

#[test]
fn old_history_cut_waits_while_a_new_prefix_temporarily_owns_the_terminal() {
    let mut manager = manager(2);
    let cursor = install_generation(&mut manager);
    let second = begin(&mut manager);
    assert!(manager.is_capturing());
    assert!(matches!(
        manager.history_record_at(&cursor, 0, limits().max_history_page_bytes, PAGE_ROWS),
        Err(NativeStateError::ImportBusy)
    ));
    assert!(manager.has_generation(&cursor));

    manager.abort_generation_capture(second);
    let record = history_at(&mut manager, &cursor, 0, Script::Page(1, b"page")).expect("page");
    assert!(!record.bytes.is_empty());
    assert!(manager.has_generation(&cursor));
}

#[test]
fn history_evicted_under_a_live_lease_tombstones_rather_than_lying() {
    let mut manager = manager(4);
    let cursor = install_generation(&mut manager);
    history_at(&mut manager, &cursor, 0, Script::Page(1, b"begin"))
        .expect("HISTORY_BEGIN from a live lease");
    let error = history_at(
        &mut manager,
        &cursor,
        1,
        Script::Invalid(CaptureInvalidation::Evicted),
    )
    .expect_err("a pruned lease cannot serve a page");
    assert_eq!(error, NativeStateError::Pruned);
    assert!(is_lease_tombstone(error));
}

#[test]
fn a_failed_frontier_gives_every_owner_the_engine_reason() {
    let mut manager = manager(4);
    let cursor = install_generation(&mut manager);
    manager
        .retain_generation(&cursor)
        .expect("second generation owner");
    history_at(&mut manager, &cursor, 0, Script::Page(1, b"begin"))
        .expect("HISTORY_BEGIN from a live lease");
    let first = history_at(
        &mut manager,
        &cursor,
        1,
        Script::Invalid(CaptureInvalidation::Mutation),
    )
    .expect_err("a pruned lease cannot serve a page");
    assert!(is_lease_tombstone(first));
    let second = history_at(&mut manager, &cursor, 1, Script::Page(1, b"late"))
        .expect_err("the spent frontier cannot serve the second owner either");
    assert_eq!(
        second, first,
        "every owner must get the engine's reason, not a spent-handle status"
    );
    let spent = manager.generation(&cursor).expect("still owned");
    assert!(!spent.is_live(), "a cut the engine marked dead must not be kept");
    assert_eq!(spent.failure(), Some(first));
    assert!(spent.holds(0), "what was captured stays");
}

#[test]
fn a_live_lease_survives_invalidation_and_manager_teardown() {
    let mut manager = manager(2);
    for (reason, expected) in [
        (CaptureInvalidation::Mutation, NativeStateError::Stale),
        (CaptureInvalidation::Reset, NativeStateError::Reset),
        (CaptureInvalidation::WrongTerminal, NativeStateError::WrongTerminal),
    ] {
        let cursor = install_generation(&mut manager);
        history_at(&mut manager, &cursor, 0, Script::Page(1, b"begin")).expect("begin");
        assert_eq!(
            history_at(&mut manager, &cursor, 1, Script::Invalid(reason)),
            Err(expected)
        );
        manager.release_generation(&cursor).expect("release");
    }

    let resized = install_generation(&mut manager);
    history_at(&mut manager, &resized, 0, Script::Page(1, b"begin")).expect("begin");
    manager.resize(Ok(())).expect("resize live terminal");
    assert!(
        !manager.has_generation(&resized),
        "resize retires every generation"
    );
    assert!(matches!(
        manager.history_record_at(&resized, 1, 1, 1),
        Err(NativeStateError::InvalidHandle)
    ));

    let live = install_generation(&mut manager);
    history_at(&mut manager, &live, 0, Script::Page(1, b"begin")).expect("begin");
    drop(manager);
}

#[test]
fn a_gone_generation_counts_while_somebody_holds_its_payloads() {
    let mut manager = manager(1);
    let cursor = install_generation(&mut manager);
    let record = history_at(&mut manager, &cursor, 0, Script::Page(1, b"held")).expect("page");
    let held: Bytes = record.bytes;
    manager.release_generation(&cursor).expect("released");

    let (again, seed) = detach_managed_generation(&mut manager);
    let bounds = seed.bounds();
    let reserved = bounds.required_reserved_bytes().expect("reservation");
    assert_eq!(
        manager.install_generation(again, seed, bounds, reserved),
        Err(NativeStateError::LimitExceeded),
        "the payload is still held"
    );
    drop(held);
    let _ = install_generation(&mut manager);
}

#[test]
fn a_gone_generation_counts_for_an_empty_payload_too() {
    let mut manager = manager(1);
    let cursor = install_generation(&mut manager);
    let record = history_at(&mut manager, &cursor, 0, Script::Finish(b"")).expect("finish");
    assert!(record.finish);
    assert!(record.bytes.is_empty());
    manager.release_generation(&cursor).expect("released");
    assert_eq!(manager.charges_held(), vec![true]);
    drop(record);
    assert_eq!(manager.charges_held(), vec![false]);
    let _ = install_generation(&mut manager);
}

#[test]
fn the_flags_say_which_gone_generations_count() {
    let mut manager = manager(1);
    let cursor = install_generation(&mut manager);
    manager.release_with(&cursor, true).expect("released");
    let (again, seed) = detach_managed_generation(&mut manager);
    let bounds = seed.bounds();
    let reserved = bounds.required_reserved_bytes().expect("reservation");
    assert_eq!(
        manager.install_with(again, seed, bounds, reserved, &vec![true]),
        Err(NativeStateError::LimitExceeded)
    );
    let (again, seed) = detach_managed_generation(&mut manager);
    assert_eq!(
        manager.install_with(again, seed, bounds, reserved, &vec![false]),
        Ok(())
    );
    assert!(manager.has_generation(&again));
    assert!(manager.charges_held().is_empty());

    manager.release_with(&again, false).expect("released");
    assert!(manager.charges_held().is_empty(), "nobody held a payload");
    assert_eq!(
        manager.release_with(&again, false),
        Err(NativeStateError::InvalidHandle)
    );
}

#[test]
fn reaping_keeps_what_is_held() {
    let mut manager = manager(2);
    let first = install_generation(&mut manager);
    let second = install_generation(&mut manager);
    let held = history_at(&mut manager, &second, 0, Script::Page(1, b"held")).expect("page");
    manager.release_with(&first, true).expect("released");
    manager.release_with(&second, true).expect("released");
    assert_eq!(manager.charges_held(), vec![false, true]);
    assert_eq!(manager.charges_held().len(), 2);
    manager.reap_with(&vec![false, true]);
    assert_eq!(manager.charges_held(), vec![true], "the second one stays");
    drop(held);
    assert_eq!(manager.charges_held(), vec![false]);
    manager.reap_with(&vec![false]);
    assert!(manager.charges_held().is_empty());
}

#[test]
fn a_generation_counts_while_there_is_another_handle() {
    assert_eq!(
        are_charged(&vec![1, 2, 1, 3]),
        vec![false, true, false, true]
    );
    assert!(!is_charged(1));
    assert!(is_charged(2));
}

#[test]
fn a_resize_retires_every_generation_that_is_held() {
    let mut manager = manager(2);
    let first = install_generation(&mut manager);
    let second = install_generation(&mut manager);
    assert_eq!(manager.resize_with(Ok(()), &vec![false, true]), Ok(()));
    assert!(!manager.has_generation(&first));
    assert!(!manager.has_generation(&second));
    assert_eq!(manager.charges_held().len(), 1);
}

#[test]
fn a_record_beyond_the_memory_bound_is_refused() {
    let mut manager = manager(1);
    let (cursor, seed) = detach_managed_generation(&mut manager);
    let bounds = seed.bounds();
    let reserved = bounds.required_reserved_bytes().expect("reservation");
    manager
        .install_generation(cursor, seed, bounds, reserved)
        .expect("installed");
    let bytes = limits().max_history_page_bytes;
    let bound = bounds.max_total_bytes;
    for (pending_capacity, served) in [(bound - 3, false), (bound - 4, true)] {
        assert!(matches!(
            manager.history_record_at(&cursor, 0, bytes, PAGE_ROWS),
            Ok(HistoryStep::Probe)
        ));
        assert!(matches!(
            manager.history_probed(
                &cursor,
                0,
                bytes,
                PAGE_ROWS,
                Err(EngineError::OutOfSpace { required: 4 }),
            ),
            Ok(HistoryStep::Read { required: 4 })
        ));
        let read = manager.history_read_with_capacity(
            &cursor,
            0,
            bytes,
            PAGE_ROWS,
            Ok(CaptureEvent::HistoryPage {
                rows: 1,
                written: 4,
            }),
            b"page",
            pending_capacity,
            4,
        );
        if served {
            assert_eq!(read.expect("served").rows, 1);
        } else {
            assert_eq!(read, Err(NativeStateError::LimitExceeded));
        }
    }
}

#[test]
fn reservations_cover_the_bounds() {
    let mut manager = manager(1);
    let (cursor, seed) = detach_managed_generation(&mut manager);
    let bounds = seed.bounds();
    let reserved = bounds.required_reserved_bytes().expect("reservation");
    assert!(reserved > bounds.max_total_bytes);
    assert_eq!(
        manager.install_generation(cursor, seed, bounds, reserved - 1),
        Err(NativeStateError::LimitExceeded)
    );
}

#[test]
fn captures_end_in_order() {
    let mut manager = manager(1);
    let capture = begin(&mut manager);
    assert_eq!(
        manager
            .begin_generation_capture(limits(), 1, 1, PAGE_ROWS, Ok(()))
            .map(|_| ())
            .expect_err("one capture at a time"),
        NativeStateError::InvalidState
    );
    assert_eq!(
        manager
            .finish_generation_capture(capture, Ok(()))
            .map(|_| ())
            .expect_err("not READY"),
        NativeStateError::InvalidState
    );
    assert!(!manager.is_capturing());
    let mut capture = begin(&mut manager);
    drain_ready(&mut capture);
    assert_eq!(
        manager
            .finish_generation_capture(capture, Err(EngineError::OutOfMemory))
            .map(|_| ())
            .expect_err("the engine kept the cut"),
        NativeStateError::OutOfMemory
    );
}

#[test]
fn requests_name_some_room() {
    assert_eq!(requested_record_window(10, 2), Ok((10, 2)));
    assert_eq!(
        requested_record_window(0, 2),
        Err(NativeStateError::LimitExceeded)
    );
    assert_eq!(
        requested_record_window(10, 0),
        Err(NativeStateError::LimitExceeded)
    );
}
