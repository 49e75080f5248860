//! Agent sessions: records, retention and the engine.

use bytes::Bytes;
use phux_server::clock::now_ms;
use phux_server::resource::agent_session::actor::{
    AgentSessionActor, AppendAccepted, AppendRejection,
};
use phux_server::resource::agent_session::record::{
    check_record, validate, RecordError, StreamAsk, StreamEvidence, ValidRecord, MAX_RECORD_BYTES,
    RECORD_TYPES,
};
use phux_server::resource::agent_session::ring::RecordRing;
use phux_server::resource::base::{
    ControlReply, ControlRequest, PaneOutput, ResourceFacetHandle, ResourceHandle, ResourceId,
};
use phux_server::wire::{ReportedAgentState, ResourceKind, TerminalSignal};

fn engine() -> (AgentSessionActor, ResourceHandle) {
    let bundle = AgentSessionActor::build(ResourceId(1), "codex", Some("abc"), 4096);
    (bundle.actor, bundle.handle)
}

fn append(
    actor: &mut AgentSessionActor,
    payload: &str,
) -> Result<AppendAccepted, AppendRejection> {
    actor
        .handle_append(&Bytes::copy_from_slice(payload.as_bytes()))
        .reply
}

fn one(line: &str) -> Result<ValidRecord, RecordError> {
    validate(line.as_bytes(), false).map(|mut r| r.remove(0))
}

// ---- engine -----------------------------------------------------------------

#[test]
fn the_facet_resolves_and_carries_its_provenance() {
    let (_actor, handle) = engine();
    let facet = match &handle.facet {
        ResourceFacetHandle::AgentSession(facet) => facet,
        ResourceFacetHandle::Terminal(_) => panic!("built the wrong facet"),
    };
    assert_eq!(facet.provider.as_str(), "codex");
    assert_eq!(facet.native_id.as_deref(), Some("abc"));
    assert_eq!(handle.kind, ResourceKind::AgentSession);
    assert!(handle.parent.is_some());
    assert!(
        handle.terminal().is_err(),
        "a session refuses the Terminal facet"
    );
    assert_eq!(
        handle.agent_session().expect("session facet").provider,
        facet.provider
    );
}

#[test]
fn appends_stamp_contiguous_sequences_and_one_timestamp() {
    let (mut actor, _handle) = engine();
    let first = append(&mut actor, "{\"type\":\"session_start\"}").expect("accepted");
    assert_eq!((first.first_seq, first.last_seq), (1, 1));
    let batch = append(
        &mut actor,
        "{\"type\":\"prompt\"}\n{\"type\":\"tool_start\"}\n",
    )
    .expect("accepted");
    assert_eq!((batch.first_seq, batch.last_seq), (2, 3));
    assert_eq!(batch.evidence, Some(StreamEvidence::Working));
    let bootstrap = actor.bootstrap();
    assert_eq!(bootstrap.base_seq, 3);
    assert_eq!(bootstrap.records.len(), 3);
    assert!(
        bootstrap.records[1].starts_with(b"{\"seq\":2,\"ts_ms\":"),
        "records replay with their stamped header"
    );
}

#[test]
fn an_invalid_record_commits_nothing() {
    let (mut actor, _handle) = engine();
    append(&mut actor, "{\"type\":\"prompt\"}").expect("accepted");
    let rejection = append(&mut actor, "{\"type\":\"stop\"}\n{\"type\":\"nope\"}")
        .expect_err("the batch is refused");
    assert!(matches!(rejection, AppendRejection::Invalid(_)));
    let bootstrap = actor.bootstrap();
    assert_eq!(bootstrap.base_seq, 1, "no sequence was consumed");
    assert_eq!(bootstrap.records.len(), 1);
}

#[test]
fn session_end_latches_the_stream_closed() {
    let (mut actor, _handle) = engine();
    let ended = append(&mut actor, "{\"type\":\"session_end\"}").expect("accepted");
    assert_eq!(ended.evidence, Some(StreamEvidence::Retract));
    assert_eq!(
        append(&mut actor, "{\"type\":\"prompt\"}"),
        Err(AppendRejection::Invalid(RecordError::AfterSessionEnd))
    );
}

#[test]
fn overflow_evicts_and_the_bootstrap_reports_the_toll() {
    let mut actor = AgentSessionActor::build(ResourceId(1), "codex", None, 120).actor;
    for _ in 0..8 {
        append(&mut actor, "{\"type\":\"tool_end\"}").expect("accepted");
    }
    let bootstrap = actor.bootstrap();
    assert_eq!(bootstrap.base_seq, 8, "every record still took a sequence");
    assert!(bootstrap.dropped > 0, "the ring evicted its oldest records");
    assert_eq!(
        bootstrap.records.len() as u64 + bootstrap.dropped,
        8,
        "retained plus evicted accounts for every record"
    );
}

#[test]
fn live_output_carries_whole_records_sequenced_by_the_last() {
    let (mut actor, _handle) = engine();
    let outcome = actor.handle_append(&Bytes::from_static(
        b"{\"type\":\"prompt\"}\n{\"type\":\"stop\"}",
    ));
    let accepted = outcome.reply.expect("accepted");
    match outcome.output.expect("one live frame") {
        PaneOutput::Live { seq, bytes } => {
            assert_eq!(seq, accepted.last_seq);
            let text = String::from_utf8(bytes.to_vec()).expect("utf-8");
            assert_eq!(text.lines().count(), 2);
            assert!(text.ends_with('\n'), "every record ends its line");
        }
        other => panic!("expected live output, got {other:?}"),
    }
}

#[test]
fn an_append_at_a_given_time_is_stamped_exactly() {
    let (mut actor, _handle) = engine();
    let outcome = actor.append_at(
        &Bytes::from_static(b"{\"type\":\"prompt\",\"data\":{\"b\":[1,true],\"a\":\"x\\n\"}}"),
        42,
    );
    let line = b"{\"seq\":1,\"ts_ms\":42,\"type\":\"prompt\",\"data\":{\"a\":\"x\\n\",\"b\":[1,true]}}\n";
    assert_eq!(
        outcome.output,
        Some(PaneOutput::Live {
            seq: 1,
            bytes: Bytes::from_static(line)
        })
    );
    assert_eq!(actor.bootstrap().records, vec![Bytes::from_static(line)]);
}

#[test]
fn an_exhausted_sequence_space_refuses_the_append() {
    let (mut actor, _handle) = engine();
    actor.core.seq = u64::MAX - 1;
    assert_eq!(
        append(&mut actor, "{\"type\":\"prompt\"}\n{\"type\":\"stop\"}"),
        Err(AppendRejection::Overflow(
            "the session's sequence space is exhausted".to_owned()
        ))
    );
    assert_eq!(actor.bootstrap().records.len(), 0);
    let last = append(&mut actor, "{\"type\":\"prompt\"}").expect("one fits");
    assert_eq!(last.last_seq, u64::MAX);
}

#[test]
fn the_last_telling_record_wins() {
    let (mut actor, _handle) = engine();
    let accepted = append(
        &mut actor,
        "{\"type\":\"ask\",\"data\":{\"question\":\"go?\",\"id\":\"q1\",\"suggestions\":[\"yes\",3,\"no\"]}}\n{\"type\":\"tool_end\"}",
    )
    .expect("accepted");
    assert_eq!(accepted.evidence, Some(StreamEvidence::Blocked));
    assert_eq!(
        accepted.ask,
        Some(StreamAsk {
            id: "q1".to_owned(),
            question: "go?".to_owned(),
            suggestions: vec!["yes".to_owned(), "no".to_owned()],
        })
    );
}

#[test]
fn control_requests_are_refused_or_dropped() {
    assert_eq!(
        AgentSessionActor::refuse_control(ControlRequest::ReportAgentState {
            state: ReportedAgentState::Done,
            reply: ControlReply(4),
        }),
        Some((
            ControlReply(4),
            "an agent session derives its state from its own stream".to_owned()
        ))
    );
    assert_eq!(
        AgentSessionActor::refuse_control(ControlRequest::Signal {
            signal: TerminalSignal::Kill,
            input_holder: None,
            by_client: phux_server::ids::ClientId(1),
            reply: ControlReply(5),
        }),
        Some((
            ControlReply(5),
            "an agent session has no process to signal".to_owned()
        ))
    );
    assert_eq!(
        AgentSessionActor::refuse_control(ControlRequest::AgentRecordInvalidated),
        None
    );
}

#[test]
fn a_finished_engine_reports_its_exit_once() {
    let (mut actor, _handle) = engine();
    actor.finish();
    assert_eq!(actor.core.exit_report, Some(None));
}

#[test]
fn the_clock_is_past_2020() {
    assert!(now_ms() > 1_577_836_800_000);
}

// ---- records ----------------------------------------------------------------

#[test]
fn a_batch_splits_on_newlines_with_an_optional_trailing_one() {
    let payload = "{\"type\":\"prompt\"}\n{\"type\":\"stop\",\"data\":{}}";
    let records = validate(payload.as_bytes(), false).expect("two records");
    assert_eq!(records.len(), 2);
    assert_eq!(records[1].record_type, "stop");
}

#[test]
fn blank_segments_are_skipped_and_an_empty_append_is_refused() {
    assert_eq!(
        validate(b"\n\n  \n", false),
        Err(RecordError::Empty),
        "whitespace alone carries no record"
    );
    assert_eq!(validate(b"", false), Err(RecordError::Empty));
    let records = validate(b"\n{\"type\":\"stop\"}\n\n", false).expect("one record");
    assert_eq!(records.len(), 1);
}

#[test]
fn the_closed_type_set_is_enforced() {
    assert_eq!(
        one("{\"type\":\"tool_middle\"}"),
        Err(RecordError::UnknownType {
            found: "tool_middle".to_owned()
        })
    );
    for record_type in RECORD_TYPES {
        one(&format!("{{\"type\":\"{record_type}\"}}"))
            .unwrap_or_else(|e| panic!("{record_type} is v1: {}", e.message()));
    }
}

#[test]
fn a_record_needs_a_string_type_an_object_body_and_an_object_data() {
    assert_eq!(one("[1,2]"), Err(RecordError::NotAnObject));
    assert_eq!(one("not json"), Err(RecordError::NotAnObject));
    assert_eq!(one("{\"kind\":\"prompt\"}"), Err(RecordError::MissingType));
    assert_eq!(one("{\"type\":7}"), Err(RecordError::MissingType));
    assert_eq!(
        one("{\"type\":\"prompt\",\"data\":[]}"),
        Err(RecordError::DataNotObject)
    );
    assert_eq!(
        one("{\"type\":\"prompt\",\"data\":null}")
            .expect("null data normalizes")
            .data
            .len(),
        0
    );
}

#[test]
fn oversize_and_post_session_end_records_are_refused() {
    let big = format!(
        "{{\"type\":\"provider_raw\",\"data\":{{\"b\":\"{}\"}}}}",
        "x".repeat(MAX_RECORD_BYTES)
    );
    assert!(matches!(
        validate(big.as_bytes(), false),
        Err(RecordError::Oversized { .. })
    ));
    assert_eq!(
        validate(b"{\"type\":\"prompt\"}", true),
        Err(RecordError::AfterSessionEnd)
    );
    assert_eq!(
        validate(b"{\"type\":\"session_end\"}\n{\"type\":\"prompt\"}", false),
        Err(RecordError::AfterSessionEnd),
        "a batch is checked against its own session_end"
    );
}

#[test]
fn state_derivation_follows_adr_0103() {
    let cases = [
        ("{\"type\":\"prompt\"}", Some(StreamEvidence::Working)),
        ("{\"type\":\"tool_start\"}", Some(StreamEvidence::Working)),
        ("{\"type\":\"tool_end\"}", None),
        ("{\"type\":\"ask\"}", Some(StreamEvidence::Blocked)),
        (
            "{\"type\":\"notification\",\"data\":{\"kind\":\"permission\"}}",
            Some(StreamEvidence::Blocked),
        ),
        (
            "{\"type\":\"notification\",\"data\":{\"kind\":\"elicitation\"}}",
            Some(StreamEvidence::Blocked),
        ),
        (
            "{\"type\":\"notification\",\"data\":{\"kind\":\"progress\"}}",
            None,
        ),
        ("{\"type\":\"stop\"}", Some(StreamEvidence::Done)),
        ("{\"type\":\"session_end\"}", Some(StreamEvidence::Retract)),
        ("{\"type\":\"session_start\"}", None),
        (
            "{\"type\":\"state\",\"data\":{\"state\":\"blocked\"}}",
            Some(StreamEvidence::Blocked),
        ),
        ("{\"type\":\"state\",\"data\":{\"state\":\"idle\"}}", None),
        ("{\"type\":\"provider_raw\"}", None),
    ];
    for (line, expected) in cases {
        assert_eq!(one(line).expect("valid").evidence(), expected, "{line}");
    }
}

#[test]
fn stamping_is_canonical_and_ignores_producer_seq_and_time() {
    let record =
        one("{\"seq\":99,\"ts_ms\":1,\"type\":\"prompt\",\"data\":{\"len\":4}}").expect("valid");
    assert_eq!(
        record.stamp(7, 1_700_000_000_000),
        bytes::Bytes::from_static(
            b"{\"seq\":7,\"ts_ms\":1700000000000,\"type\":\"prompt\",\"data\":{\"len\":4}}\n"
        )
    );
}

#[test]
fn bytes_that_are_no_text_are_refused() {
    assert_eq!(
        validate(b"{\"type\":\"prompt\"}\n\xff", false),
        Err(RecordError::NotUtf8)
    );
    let records = validate("\t {\"type\":\"ask\",\"data\":{\"question\":\"\u{e9}t\u{e9}?\"}} \r\n".as_bytes(), false)
        .expect("one record");
    assert_eq!(
        records[0].ask().map(|ask| ask.question),
        Some("\u{e9}t\u{e9}?".to_owned())
    );
}

#[test]
fn a_question_without_text_is_a_state_edge() {
    assert_eq!(one("{\"type\":\"ask\"}").expect("valid").ask(), None);
    assert_eq!(
        one("{\"type\":\"ask\",\"data\":{\"question\":\"\"}}")
            .expect("valid")
            .ask(),
        None
    );
    assert_eq!(
        one("{\"type\":\"prompt\",\"data\":{\"question\":\"go?\"}}")
            .expect("valid")
            .ask(),
        None
    );
    assert_eq!(
        one("{\"type\":\"ask\",\"data\":{\"question\":\"go?\"}}")
            .expect("valid")
            .ask(),
        Some(StreamAsk {
            id: String::new(),
            question: "go?".to_owned(),
            suggestions: Vec::new(),
        })
    );
}

#[test]
fn a_parsed_value_is_checked_by_itself() {
    assert_eq!(
        check_record(&serde_json::Value::Null),
        Err(RecordError::NotAnObject)
    );
    let mut object = serde_json::Map::new();
    object.insert("type".to_owned(), serde_json::Value::from("y".repeat(70)));
    assert_eq!(
        check_record(&serde_json::Value::from(object.clone())),
        Err(RecordError::UnknownType {
            found: "y".repeat(64)
        })
    );
    object.insert("type".to_owned(), serde_json::Value::from("stop"));
    let record = check_record(&serde_json::Value::from(object)).expect("valid");
    assert!(!record.ends_session());
    assert_eq!(record.evidence(), Some(StreamEvidence::Done));
}

#[test]
fn refusals_say_what_is_wrong() {
    assert_eq!(
        RecordError::Empty.message(),
        "an append must carry at least one record"
    );
    assert_eq!(
        RecordError::NotUtf8.message(),
        "agent-event records must be UTF-8"
    );
    assert_eq!(
        RecordError::Oversized { len: 20_000 }.message(),
        "a record of 20000 bytes exceeds the 16384-byte codec limit"
    );
    assert_eq!(
        RecordError::UnknownType {
            found: "nope".to_owned()
        }
        .message(),
        "`nope` is not an AgentEventsJsonlV1 type; the v1 set is session_start, prompt, tool_start, tool_end, notification, ask, stop, session_end, state, provider_raw"
    );
    assert_eq!(
        RecordError::AfterSessionEnd.message(),
        "the session already ended; no further records are accepted"
    );
    assert_eq!(
        RecordError::DataNotObject.message(),
        "a record's `data` must be an object"
    );
}

// ---- retention --------------------------------------------------------------

fn record(n: usize) -> Bytes {
    Bytes::from(vec![b'x'; n])
}

#[test]
fn a_ring_under_its_ceiling_retains_everything() {
    let mut ring = RecordRing::new(100);
    ring.push(record(10));
    ring.push(record(20));
    assert_eq!(ring.len(), 2);
    assert_eq!(ring.bytes(), 30);
    assert_eq!(ring.dropped(), 0);
}

#[test]
fn overflow_evicts_the_oldest_and_counts_the_tombstone() {
    let mut ring = RecordRing::new(50);
    for _ in 0..4 {
        ring.push(record(20));
    }
    assert_eq!(ring.len(), 2, "two 20-byte records fit under 50");
    assert_eq!(ring.bytes(), 40);
    assert_eq!(ring.dropped(), 2);
    assert!(
        ring.records().iter().all(|r| r.len() == 20),
        "eviction drops whole records, never fragments"
    );
}

#[test]
fn the_newest_record_survives_a_ceiling_smaller_than_itself() {
    let mut ring = RecordRing::new(4);
    assert!(ring.is_empty());
    ring.push(record(10));
    ring.push(record(11));
    assert_eq!(ring.len(), 1);
    assert_eq!(ring.records().first().expect("one").len(), 11);
    assert_eq!(ring.dropped(), 1);
}

#[test]
fn a_push_drops_no_more_than_it_must() {
    let mut ring = RecordRing::new(50);
    for size in [5, 10, 20, 15] {
        ring.push(record(size));
    }
    assert_eq!((ring.len(), ring.bytes(), ring.dropped()), (4, 50, 0));
    ring.push(record(12));
    assert_eq!((ring.len(), ring.bytes(), ring.dropped()), (3, 47, 2));
    assert!(ring.bytes() + 10 > 50, "one more would not have fit");
}

#[test]
fn an_append_is_stamped_with_the_wall_clock() {
    let (mut actor, _handle) = engine();
    let accepted = append(&mut actor, "{\"type\":\"prompt\",\"data\":{}}").expect("valid");
    assert!(accepted.ts_ms > 1_577_836_800_000);
}
