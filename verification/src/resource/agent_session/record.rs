//! The records of a session: validation, stamping, and what they say of its
//! state.
//!
//! One UTF-8 JSON object per line. A record is read for two reasons: to refuse
//! one that would corrupt the stream, and to derive the session's state.
//! Neither reads further into `data` than the members named here.
//!
//! `seq` and `ts_ms` belong to the server. Whatever a producer supplies for
//! either is discarded, and the stamped line carries the server's own values,
//! in one canonical shape.

use crate::json::{
    empty_object, json_of, member, members, no_members, object_value, parse_json, parsed, text_at,
    text_member, text_value, write_json, written, JsonV,
};
use crate::payload::{contents, payload_of};
use crate::text::{decimal, decimal_text, lemma_split_at_ascii, same_text, text_of};
use bytes::Bytes;
use vstd::prelude::*;
use vstd::slice::*;
use vstd::string::*;
use vstd::utf8::*;

verus! {

/// Largest single record, in bytes.
pub const MAX_RECORD_BYTES: usize = 16_384;

/// The closed `type` vocabulary.
pub const RECORD_TYPES: [&'static str; 10] = [
    "session_start",
    "prompt",
    "tool_start",
    "tool_end",
    "notification",
    "ask",
    "stop",
    "session_end",
    "state",
    "provider_raw",
];

/// What one accepted record says about the session's state.
#[derive(Debug, Clone, Copy, PartialEq, Eq, Structural)]
pub enum StreamEvidence {
    /// The session is doing work.
    Working,
    /// The session is waiting on a human.
    Blocked,
    /// The session finished its turn.
    Done,
    /// The session ended; the derived state is withdrawn.
    Retract,
}

/// Why a record was refused.
#[derive(Debug, Clone, PartialEq, Eq)]
pub enum RecordError {
    /// The append carried no record at all.
    Empty,
    /// The append bytes are not UTF-8.
    NotUtf8,
    /// One record exceeds [`MAX_RECORD_BYTES`].
    Oversized {
        /// The record's length in bytes.
        len: usize,
    },
    /// One line is not a JSON object.
    NotAnObject,
    /// A record carries no `type`, or a `type` that is not a string.
    MissingType,
    /// A record's `type` is outside the vocabulary.
    UnknownType {
        /// The type the producer sent, truncated for the reply.
        found: String,
    },
    /// A record's `data` is present but is not an object.
    DataNotObject,
    /// A record arrived after the session's `session_end`.
    AfterSessionEnd,
}

/// A refusal as contracts speak of it.
pub enum RecordErrorV {
    /// The append carried no record at all.
    Empty,
    /// The append bytes are not UTF-8.
    NotUtf8,
    /// One record is too large.
    Oversized {
        /// The record's length in bytes.
        len: nat,
    },
    /// One line is not a JSON object.
    NotAnObject,
    /// A record carries no string `type`.
    MissingType,
    /// A record's `type` is outside the vocabulary.
    UnknownType {
        /// The start of the type.
        found: Seq<char>,
    },
    /// A record's `data` is not an object.
    DataNotObject,
    /// A record arrived after the session's `session_end`.
    AfterSessionEnd,
}

impl View for RecordError {
    type V = RecordErrorV;

    open spec fn view(&self) -> RecordErrorV {
        match self {
            RecordError::Empty => RecordErrorV::Empty,
            RecordError::NotUtf8 => RecordErrorV::NotUtf8,
            RecordError::Oversized { len } => RecordErrorV::Oversized { len: *len as nat },
            RecordError::NotAnObject => RecordErrorV::NotAnObject,
            RecordError::MissingType => RecordErrorV::MissingType,
            RecordError::UnknownType { found } => RecordErrorV::UnknownType { found: found@ },
            RecordError::DataNotObject => RecordErrorV::DataNotObject,
            RecordError::AfterSessionEnd => RecordErrorV::AfterSessionEnd,
        }
    }
}

impl RecordErrorV {
    /// The text of a refusal.
    pub open spec fn text(self) -> Seq<char> {
        match self {
            RecordErrorV::Empty => "an append must carry at least one record"@,
            RecordErrorV::NotUtf8 => "agent-event records must be UTF-8"@,
            RecordErrorV::Oversized { len } => "a record of "@ + decimal(len)
                + " bytes exceeds the 16384-byte codec limit"@,
            RecordErrorV::NotAnObject => "each record line must be a JSON object"@,
            RecordErrorV::MissingType => "each record needs a string `type`"@,
            RecordErrorV::UnknownType { found } => "`"@ + found
                + "` is not an AgentEventsJsonlV1 type; the v1 set is session_start, prompt, tool_start, tool_end, notification, ask, stop, session_end, state, provider_raw"@,
            RecordErrorV::DataNotObject => "a record's `data` must be an object"@,
            RecordErrorV::AfterSessionEnd =>
                "the session already ended; no further records are accepted"@,
        }
    }
}

impl RecordError {
    /// The text of a refusal, for the producer.
    pub fn message(&self) -> (message: String)
        ensures
            message@ == self@.text(),
    {
        match self {
            RecordError::Empty => "an append must carry at least one record".to_owned(),
            RecordError::NotUtf8 => "agent-event records must be UTF-8".to_owned(),
            RecordError::Oversized { len } => "a record of ".to_owned().concat(
                decimal_text(*len as u64).as_str(),
            ).concat(" bytes exceeds the 16384-byte codec limit"),
            RecordError::NotAnObject => "each record line must be a JSON object".to_owned(),
            RecordError::MissingType => "each record needs a string `type`".to_owned(),
            RecordError::UnknownType { found } => "`".to_owned().concat(found.as_str()).concat(
                "` is not an AgentEventsJsonlV1 type; the v1 set is session_start, prompt, tool_start, tool_end, notification, ask, stop, session_end, state, provider_raw",
            ),
            RecordError::DataNotObject => "a record's `data` must be an object".to_owned(),
            RecordError::AfterSessionEnd =>
                "the session already ended; no further records are accepted".to_owned(),
        }
    }
}

/// A pending question that a blocking record carried.
#[derive(Debug, Clone, PartialEq, Eq)]
pub struct StreamAsk {
    /// Producer-chosen question id; empty where it named none.
    pub id: String,
    /// The question text shown to a human.
    pub question: String,
    /// Answers the producer offered, in its own order.
    pub suggestions: Vec<String>,
}

/// A question as contracts speak of it.
#[verifier::ext_equal]
pub struct AskV {
    /// The question id.
    pub id: Seq<char>,
    /// The question text.
    pub question: Seq<char>,
    /// The offered answers.
    pub suggestions: Seq<Seq<char>>,
}

impl View for StreamAsk {
    type V = AskV;

    open spec fn view(&self) -> AskV {
        AskV {
            id: self.id@,
            question: self.question@,
            suggestions: self.suggestions@.map_values(|answer: String| answer@),
        }
    }
}

/// One validated record, ready for the server to stamp.
#[derive(Debug, Clone, PartialEq, Eq)]
pub struct ValidRecord {
    /// The record's `type`, one of [`RECORD_TYPES`].
    pub record_type: String,
    /// The record's `data`; an absent one is empty.
    pub data: serde_json::Map<String, serde_json::Value>,
}

/// A record as contracts speak of it.
#[verifier::ext_equal]
pub struct RecordV {
    /// The record's `type`.
    pub record_type: Seq<char>,
    /// The record's `data`.
    pub data: Map<Seq<char>, JsonV>,
}

impl View for ValidRecord {
    type V = RecordV;

    open spec fn view(&self) -> RecordV {
        RecordV { record_type: self.record_type@, data: members(self.data) }
    }
}

/// The texts among the first `n` items of an array.
pub open spec fn texts_among(items: Seq<JsonV>, n: nat) -> Seq<Seq<char>>
    decreases n,
{
    if n == 0 || n > items.len() {
        Seq::empty()
    } else {
        let before = texts_among(items, (n - 1) as nat);
        match items[n - 1] {
            JsonV::Text(text) => before.push(text),
            _ => before,
        }
    }
}

/// The answers that a record's `data` offers.
pub open spec fn suggestions_in(data: Map<Seq<char>, JsonV>) -> Seq<Seq<char>> {
    if data.contains_key("suggestions"@) {
        match data["suggestions"@] {
            JsonV::Array(items) => texts_among(items, items.len()),
            _ => Seq::empty(),
        }
    } else {
        Seq::empty()
    }
}

impl RecordV {
    /// What the record says about the session's state.
    pub open spec fn evidence(self) -> Option<StreamEvidence> {
        if self.record_type == "prompt"@ || self.record_type == "tool_start"@ {
            Some(StreamEvidence::Working)
        } else if self.record_type == "ask"@ {
            Some(StreamEvidence::Blocked)
        } else if self.record_type == "notification"@ {
            match text_member(self.data, "kind"@) {
                Some(kind) => if kind == "permission"@ || kind == "elicitation"@ {
                    Some(StreamEvidence::Blocked)
                } else {
                    None
                },
                None => None,
            }
        } else if self.record_type == "stop"@ {
            Some(StreamEvidence::Done)
        } else if self.record_type == "session_end"@ {
            Some(StreamEvidence::Retract)
        } else if self.record_type == "state"@ {
            match text_member(self.data, "state"@) {
                Some(state) => if state == "working"@ {
                    Some(StreamEvidence::Working)
                } else if state == "blocked"@ {
                    Some(StreamEvidence::Blocked)
                } else if state == "done"@ {
                    Some(StreamEvidence::Done)
                } else {
                    None
                },
                None => None,
            }
        } else {
            None
        }
    }

    /// The question that the record carries.
    pub open spec fn ask(self) -> Option<AskV> {
        match text_member(self.data, "question"@) {
            Some(question) if self.evidence() == Some(StreamEvidence::Blocked) && question.len()
                > 0 => Some(
                AskV {
                    id: match text_member(self.data, "id"@) {
                        Some(id) => id,
                        None => Seq::empty(),
                    },
                    question,
                    suggestions: suggestions_in(self.data),
                },
            ),
            _ => None,
        }
    }

    /// Whether the record ends the session.
    pub open spec fn ends_session(self) -> bool {
        self.record_type == "session_end"@
    }

    /// The canonical stamped line.
    pub open spec fn line(self, seq: u64, ts_ms: u64) -> Seq<char> {
        "{\"seq\":"@ + decimal(seq as nat) + ",\"ts_ms\":"@ + decimal(ts_ms as nat)
            + ",\"type\":"@ + written(JsonV::Text(self.record_type)) + ",\"data\":"@ + written(
            JsonV::Object(self.data),
        ) + "}\n"@
    }

    /// The canonical stamped line, as the stream carries it.
    pub open spec fn stamped(self, seq: u64, ts_ms: u64) -> Seq<u8> {
        encode_utf8(self.line(seq, ts_ms))
    }
}

fn answers(items: &Vec<serde_json::Value>) -> (texts: Vec<String>)
    ensures
        texts@.map_values(|text: String| text@) == texts_among(
            items@.map_values(|item: serde_json::Value| json_of(item)),
            items@.len(),
        ),
{
    let ghost held = items@.map_values(|item: serde_json::Value| json_of(item));
    let mut texts: Vec<String> = Vec::new();
    let mut i: usize = 0;
    assert(texts@.map_values(|text: String| text@) =~= texts_among(held, 0));
    while i < items.len()
        invariant
            i <= items@.len(),
            held == items@.map_values(|item: serde_json::Value| json_of(item)),
            texts@.map_values(|text: String| text@) == texts_among(held, i as nat),
        decreases items@.len() - i,
    {
        let ghost before = texts@.map_values(|text: String| text@);
        assert(held[i as int] == json_of(items@[i as int]));
        match items[i].as_str() {
            Some(text) => {
                texts.push(text.to_owned());
                assert(texts@.map_values(|text: String| text@) =~= before.push(text@));
            },
            None => {},
        }
        i += 1;
    }
    texts
}

impl ValidRecord {
    /// What this record says about the session's state, where it says anything.
    ///
    /// A `notification` counts only for the two kinds that block on a human. A
    /// `state` record names the state itself.
    pub fn evidence(&self) -> (evidence: Option<StreamEvidence>)
        ensures
            evidence == self@.evidence(),
    {
        let record_type = self.record_type.as_str();
        if same_text(record_type, "prompt") || same_text(record_type, "tool_start") {
            Some(StreamEvidence::Working)
        } else if same_text(record_type, "ask") {
            Some(StreamEvidence::Blocked)
        } else if same_text(record_type, "notification") {
            match text_at(&self.data, "kind") {
                Some(kind) => if same_text(kind, "permission") || same_text(kind, "elicitation") {
                    Some(StreamEvidence::Blocked)
                } else {
                    None
                },
                None => None,
            }
        } else if same_text(record_type, "stop") {
            Some(StreamEvidence::Done)
        } else if same_text(record_type, "session_end") {
            Some(StreamEvidence::Retract)
        } else if same_text(record_type, "state") {
            match text_at(&self.data, "state") {
                Some(state) => if same_text(state, "working") {
                    Some(StreamEvidence::Working)
                } else if same_text(state, "blocked") {
                    Some(StreamEvidence::Blocked)
                } else if same_text(state, "done") {
                    Some(StreamEvidence::Done)
                } else {
                    None
                },
                None => None,
            }
        } else {
            None
        }
    }

    /// The pending question this record carries, if it carries one. An `ask`
    /// without text is a state edge, not a question a human can answer.
    pub fn ask(&self) -> (ask: Option<StreamAsk>)
        ensures
            match self@.ask() {
                Some(asked) => ask matches Some(ask) && ask@ == asked,
                None => ask is None,
            },
    {
        match self.evidence() {
            Some(StreamEvidence::Blocked) => {},
            _ => {
                return None;
            },
        }
        let question = match text_at(&self.data, "question") {
            Some(question) => question,
            None => {
                return None;
            },
        };
        if question.is_empty() {
            return None;
        }
        let id = match text_at(&self.data, "id") {
            Some(id) => id.to_owned(),
            None => String::new(),
        };
        let suggestions = match member(&self.data, "suggestions") {
            Some(value) => match value.as_array() {
                Some(items) => answers(items),
                None => Vec::new(),
            },
            None => Vec::new(),
        };
        let ask = StreamAsk { id, question: question.to_owned(), suggestions };
        assert(ask@.suggestions =~= suggestions_in(members(self.data)));
        Some(ask)
    }

    /// Whether this record ends the session.
    pub fn ends_session(&self) -> (ends: bool)
        ensures
            ends == self@.ends_session(),
    {
        same_text(self.record_type.as_str(), "session_end")
    }

    /// The canonical stamped line, with the newline that ends it. `seq` and
    /// `ts_ms` are the server's.
    pub fn stamp(&self, seq: u64, ts_ms: u64) -> (line: Bytes)
        ensures
            contents(line) == self@.stamped(seq, ts_ms),
    {
        let record_type = write_json(&text_value(self.record_type.clone()));
        let data = write_json(&object_value(self.data.clone()));
        let mut line = "{\"seq\":".to_owned();
        line.append(decimal_text(seq).as_str());
        line.append(",\"ts_ms\":");
        line.append(decimal_text(ts_ms).as_str());
        line.append(",\"type\":");
        line.append(record_type.as_str());
        line.append(",\"data\":");
        line.append(data.as_str());
        line.append("}\n");
        payload_of(line.as_str().as_bytes_vec())
    }
}

/// Whether `text` is in the vocabulary.
pub open spec fn known_type(text: Seq<char>) -> bool {
    exists|i: int| 0 <= i < 10 && #[trigger] RECORD_TYPES[i]@ == text
}

fn is_known_type(text: &str) -> (known: bool)
    ensures
        known == known_type(text@),
{
    let types = RECORD_TYPES;
    let mut i: usize = 0;
    while i < 10
        invariant
            i <= 10,
            types == RECORD_TYPES,
            forall|j: int| 0 <= j < i ==> #[trigger] RECORD_TYPES[j]@ != text@,
        decreases 10 - i,
    {
        if same_text(types[i], text) {
            assert(RECORD_TYPES[i as int]@ == text@);
            return true;
        }
        i += 1;
    }
    false
}

/// The record in a parsed object.
pub open spec fn record_in_object(held: Map<Seq<char>, JsonV>) -> Result<RecordV, RecordErrorV> {
    match text_member(held, "type"@) {
        None => Err(RecordErrorV::MissingType),
        Some(record_type) => if !known_type(record_type) {
            Err(
                RecordErrorV::UnknownType {
                    found: if record_type.len() > 64 {
                        record_type.take(64)
                    } else {
                        record_type
                    },
                },
            )
        } else if !held.contains_key("data"@) || held["data"@] is Null {
            Ok(RecordV { record_type, data: no_members() })
        } else {
            match held["data"@] {
                JsonV::Object(data) => Ok(RecordV { record_type, data }),
                _ => Err(RecordErrorV::DataNotObject),
            }
        },
    }
}

/// The record in a parsed line.
pub open spec fn record_in_value(value: Option<JsonV>) -> Result<RecordV, RecordErrorV> {
    match value {
        Some(JsonV::Object(held)) => record_in_object(held),
        _ => Err(RecordErrorV::NotAnObject),
    }
}

/// A record as contracts speak of it, or its refusal.
pub open spec fn record_view(record: Result<ValidRecord, RecordError>) -> Result<
    RecordV,
    RecordErrorV,
> {
    match record {
        Ok(record) => Ok(record@),
        Err(error) => Err(error@),
    }
}

/// Check what a line was parsed to.
pub fn check_record(value: &serde_json::Value) -> (record: Result<ValidRecord, RecordError>)
    ensures
        record_view(record) == record_in_value(Some(json_of(*value))),
{
    let object = match value.as_object() {
        Some(object) => object,
        None => {
            return Err(RecordError::NotAnObject);
        },
    };
    let record_type = match text_at(object, "type") {
        Some(record_type) => record_type,
        None => {
            return Err(RecordError::MissingType);
        },
    };
    if !is_known_type(record_type) {
        let len: usize = record_type.unicode_len();
        let found = if len > 64 {
            record_type.substring_char(0, 64).to_owned()
        } else {
            record_type.to_owned()
        };
        assert(record_type@.subrange(0, 64) =~= record_type@.take(64));
        return Err(RecordError::UnknownType { found });
    }
    let data = match member(object, "data") {
        None => empty_object(),
        Some(value) => if value.is_null() {
            empty_object()
        } else {
            match value.as_object() {
                Some(data) => data.clone(),
                None => {
                    return Err(RecordError::DataNotObject);
                },
            }
        },
    };
    Ok(ValidRecord { record_type: record_type.to_owned(), data })
}

/// Parse and check one non-empty line.
fn parse_record(line: &str) -> (record: Result<ValidRecord, RecordError>)
    ensures
        record_view(record) == record_in_value(parsed(line@)),
{
    match parse_json(line) {
        Some(value) => check_record(&value),
        None => Err(RecordError::NotAnObject),
    }
}

/// Whether a byte is trimmed from the ends of a line.
pub open spec fn is_blank(byte: u8) -> bool {
    byte == 13 || byte == 32 || byte == 9
}

/// A line without blanks at its start.
pub open spec fn trimmed_start(line: Seq<u8>) -> Seq<u8>
    decreases line.len(),
{
    if line.len() > 0 && is_blank(line[0]) {
        trimmed_start(line.skip(1))
    } else {
        line
    }
}

/// A line without blanks at its end.
pub open spec fn trimmed_end(line: Seq<u8>) -> Seq<u8>
    decreases line.len(),
{
    if line.len() > 0 && is_blank(line.last()) {
        trimmed_end(line.drop_last())
    } else {
        line
    }
}

/// A line without blanks at its ends.
pub open spec fn trimmed(line: Seq<u8>) -> Seq<u8> {
    trimmed_end(trimmed_start(line))
}

/// Where the first line of `bytes` ends, looking from `from` on.
pub open spec fn line_end(bytes: Seq<u8>, from: int) -> int
    decreases bytes.len() - from,
{
    if from < 0 || from >= bytes.len() {
        bytes.len() as int
    } else if bytes[from] == 10 {
        from
    } else {
        line_end(bytes, from + 1)
    }
}

/// What one line adds to the records found so far: whether the session has
/// ended, and the records.
pub open spec fn check_line(line: Seq<u8>, ended: bool, found: Seq<RecordV>) -> Result<
    (bool, Seq<RecordV>),
    RecordErrorV,
> {
    let text = trimmed(line);
    if text.len() == 0 {
        Ok((ended, found))
    } else if text.len() > MAX_RECORD_BYTES {
        Err(RecordErrorV::Oversized { len: text.len() })
    } else if ended {
        Err(RecordErrorV::AfterSessionEnd)
    } else {
        match record_in_value(parsed(decode_utf8(text))) {
            Ok(record) => Ok((record.ends_session(), found.push(record))),
            Err(error) => Err(error),
        }
    }
}

/// What the lines of `bytes` add to the records found so far.
pub open spec fn check_lines(bytes: Seq<u8>, ended: bool, found: Seq<RecordV>) -> Result<
    Seq<RecordV>,
    RecordErrorV,
>
    decreases bytes.len(),
{
    let end = line_end(bytes, 0);
    match check_line(bytes.take(end), ended, found) {
        Err(error) => Err(error),
        Ok((ended, found)) => if 0 <= end < bytes.len() {
            check_lines(bytes.skip(end + 1), ended, found)
        } else if found.len() == 0 {
            Err(RecordErrorV::Empty)
        } else {
            Ok(found)
        },
    }
}

/// The records of an append.
pub open spec fn validated(bytes: Seq<u8>, already_ended: bool) -> Result<
    Seq<RecordV>,
    RecordErrorV,
> {
    if !valid_utf8(bytes) {
        Err(RecordErrorV::NotUtf8)
    } else {
        check_lines(bytes, already_ended, Seq::empty())
    }
}

/// Records as contracts speak of them.
pub open spec fn record_views(records: Seq<ValidRecord>) -> Seq<RecordV> {
    records.map_values(|record: ValidRecord| record@)
}

/// Records as contracts speak of them, or their refusal.
pub open spec fn records_view(records: Result<Vec<ValidRecord>, RecordError>) -> Result<
    Seq<RecordV>,
    RecordErrorV,
> {
    match records {
        Ok(records) => Ok(record_views(records@)),
        Err(error) => Err(error@),
    }
}

proof fn lemma_line_end(bytes: Seq<u8>, from: int)
    requires
        0 <= from <= bytes.len(),
    ensures
        from <= line_end(bytes, from) <= bytes.len(),
        line_end(bytes, from) < bytes.len() ==> bytes[line_end(bytes, from)] == 10,
    decreases bytes.len() - from,
{
    if from < bytes.len() && bytes[from] != 10 {
        lemma_line_end(bytes, from + 1);
    }
}

fn find_line_end(bytes: &[u8], start: usize) -> (end: usize)
    requires
        start <= bytes@.len(),
    ensures
        start <= end <= bytes@.len(),
        end - start == line_end(bytes@.skip(start as int), 0),
        end < bytes@.len() ==> bytes@[end as int] == 10,
{
    let ghost rest = bytes@.skip(start as int);
    let mut end: usize = start;
    while end < bytes.len() && bytes[end] != 10
        invariant
            start <= end <= bytes@.len(),
            rest == bytes@.skip(start as int),
            line_end(rest, 0) == line_end(rest, end - start),
        decreases bytes@.len() - end,
    {
        assert(rest[end - start] == bytes@[end as int]);
        end += 1;
    }
    assert(end < bytes@.len() ==> rest[end - start] == bytes@[end as int]);
    end
}

/// The blanks at the ends of a line, cut off.
fn trim(line: &[u8]) -> (text: &[u8])
    requires
        valid_utf8(line@),
    ensures
        text@ == trimmed(line@),
        valid_utf8(text@),
{
    let mut from: usize = 0;
    assert(line@.skip(0) =~= line@);
    while from < line.len() && (line[from] == 13 || line[from] == 32 || line[from] == 9)
        invariant
            from <= line@.len(),
            trimmed_start(line@.skip(from as int)) == trimmed_start(line@),
            valid_utf8(line@.skip(from as int)),
        decreases line@.len() - from,
    {
        proof {
            let rest = line@.skip(from as int);
            assert(rest[0] == line@[from as int]);
            lemma_split_at_ascii(rest, 0);
            assert(rest.skip(1) =~= line@.skip(from + 1));
        }
        from += 1;
    }
    let ghost start = line@.skip(from as int);
    assert(from < line@.len() ==> start[0] == line@[from as int]);
    assert(trimmed_start(line@) == start);
    let mut to: usize = line.len();
    assert(line@.subrange(from as int, to as int) =~= start);
    while to > from && (line[to - 1] == 13 || line[to - 1] == 32 || line[to - 1] == 9)
        invariant
            from <= to <= line@.len(),
            trimmed_end(line@.subrange(from as int, to as int)) == trimmed_end(start),
            valid_utf8(line@.subrange(from as int, to as int)),
        decreases to,
    {
        proof {
            let rest = line@.subrange(from as int, to as int);
            assert(rest.last() == line@[to - 1]);
            lemma_split_at_ascii(rest, rest.len() - 1);
            assert(rest.drop_last() =~= line@.subrange(from as int, to - 1));
            assert(rest.take(rest.len() - 1) =~= rest.drop_last());
        }
        to -= 1;
    }
    assert(to > from ==> line@.subrange(from as int, to as int).last() == line@[to - 1]);
    slice_subrange(line, from, to)
}

/// The records of one append.
///
/// Lines end with a newline, and the last newline is optional. A blank line is
/// skipped, but an append without any record is refused. Nothing follows a
/// `session_end`, whether it came before or stands in the same append.
/// Validation is all or nothing: the first refusal is the answer.
pub fn validate(bytes: &[u8], already_ended: bool) -> (records: Result<
    Vec<ValidRecord>,
    RecordError,
>)
    ensures
        records_view(records) == validated(bytes@, already_ended),
{
    if text_of(bytes).is_none() {
        return Err(RecordError::NotUtf8);
    }
    let mut ended = already_ended;
    let mut records: Vec<ValidRecord> = Vec::new();
    let mut start: usize = 0;
    let mut open = true;
    assert(bytes@.skip(0) =~= bytes@);
    assert(record_views(records@) =~= Seq::empty());
    while open
        invariant
            start <= bytes@.len(),
            open ==> valid_utf8(bytes@.skip(start as int)),
            open ==> check_lines(bytes@.skip(start as int), ended, record_views(records@))
                == validated(bytes@, already_ended),
            !open ==> validated(bytes@, already_ended) == (if records@.len() == 0 {
                Err(RecordErrorV::Empty)
            } else {
                Ok(record_views(records@))
            }),
        decreases bytes@.len() - start + (if open {
            1int
        } else {
            0
        }),
    {
        let ghost rest = bytes@.skip(start as int);
        let end: usize = find_line_end(bytes, start);
        let ghost cut = end - start;
        proof {
            if end < bytes@.len() {
                assert(rest[cut] == bytes@[end as int]);
                lemma_split_at_ascii(rest, cut);
            } else {
                assert(rest.take(cut) =~= rest);
            }
            assert(rest.take(cut) =~= bytes@.subrange(start as int, end as int));
            assert(end < bytes@.len() ==> rest.skip(cut + 1) =~= bytes@.skip(end + 1));
        }
        let line = trim(slice_subrange(bytes, start, end));
        if line.len() > 0 {
            if line.len() > MAX_RECORD_BYTES {
                return Err(RecordError::Oversized { len: line.len() });
            }
            if ended {
                return Err(RecordError::AfterSessionEnd);
            }
            let text = match text_of(line) {
                Some(text) => text,
                None => {
                    return Err(RecordError::NotUtf8);
                },
            };
            let record = match parse_record(text) {
                Ok(record) => record,
                Err(error) => {
                    return Err(error);
                },
            };
            ended = record.ends_session();
            let ghost before = record_views(records@);
            records.push(record);
            assert(record_views(records@) =~= before.push(record@));
        }
        if end < bytes.len() {
            start = end + 1;
        } else {
            open = false;
        }
    }
    if records.len() == 0 {
        return Err(RecordError::Empty);
    }
    Ok(records)
}

proof fn lemma_nothing_after_the_end(bytes: Seq<u8>)
    ensures
        check_lines(bytes, true, Seq::empty()) is Err,
    decreases bytes.len(),
{
    lemma_line_end(bytes, 0);
    let end = line_end(bytes, 0);
    match check_line(bytes.take(end), true, Seq::empty()) {
        Err(_) => {},
        Ok(_) => {
            if end < bytes.len() {
                lemma_nothing_after_the_end(bytes.skip(end + 1));
            }
        },
    }
}

/// Once a session has ended, every append is refused.
pub proof fn law_nothing_follows_a_session_end(bytes: Seq<u8>)
    ensures
        validated(bytes, true) is Err,
{
    lemma_nothing_after_the_end(bytes);
}

/// Whether records may stand in one stream: each is of a known type, and none
/// but the last ends the session. `ended` is whether the last one does.
pub open spec fn well_placed(records: Seq<RecordV>, ended: bool) -> bool {
    &&& forall|i: int|
        0 <= i < records.len() ==> known_type(#[trigger] records[i].record_type)
    &&& forall|i: int|
        0 <= i < records.len() - 1 ==> !(#[trigger] records[i].ends_session())
    &&& records.len() > 0 ==> ended == records.last().ends_session()
}

proof fn lemma_well_placed(bytes: Seq<u8>, ended: bool, found: Seq<RecordV>)
    requires
        well_placed(found, ended),
    ensures
        check_lines(bytes, ended, found) matches Ok(records) ==> records.len() > 0 && well_placed(
            records,
            records.last().ends_session(),
        ),
    decreases bytes.len(),
{
    lemma_line_end(bytes, 0);
    let end = line_end(bytes, 0);
    match check_line(bytes.take(end), ended, found) {
        Err(_) => {},
        Ok((ended_now, found_now)) => {
            assert(well_placed(found_now, ended_now)) by {
                if found_now != found {
                    let record = found_now.last();
                    assert(found_now =~= found.push(record));
                    assert forall|i: int| 0 <= i < found_now.len() implies known_type(
                        #[trigger] found_now[i].record_type,
                    ) by {
                        if i < found.len() {
                            assert(found_now[i] == found[i]);
                        }
                    }
                    assert forall|i: int| 0 <= i < found_now.len() - 1 implies !(
                    #[trigger] found_now[i].ends_session()) by {
                        assert(found_now[i] == found[i]);
                        if i == found.len() - 1 {
                            assert(found.last() == found[i]);
                        }
                    }
                }
            }
            if end < bytes.len() {
                lemma_well_placed(bytes.skip(end + 1), ended_now, found_now);
            }
        },
    }
}

/// An accepted append holds at least one record, each of a known type, and only
/// its last record can end the session.
pub proof fn law_accepted_records_are_well_placed(bytes: Seq<u8>, already_ended: bool)
    ensures
        validated(bytes, already_ended) matches Ok(records) ==> records.len() > 0 && well_placed(
            records,
            records.last().ends_session(),
        ),
{
    lemma_well_placed(bytes, already_ended, Seq::empty());
}

/// Only a record that waits on a human carries a question, and a question is
/// never empty.
pub proof fn law_questions_wait_on_a_human(record: RecordV)
    ensures
        record.ask() matches Some(ask) ==> record.evidence() == Some(StreamEvidence::Blocked)
            && ask.question.len() > 0,
{
}

/// Whatever a producer writes for `seq` and `ts_ms`, the record is the same.
pub proof fn law_producer_numbers_are_ignored(
    held: Map<Seq<char>, JsonV>,
    seq: JsonV,
    ts_ms: JsonV,
)
    ensures
        record_in_object(held.insert("seq"@, seq).insert("ts_ms"@, ts_ms)) == record_in_object(
            held,
        ),
{
    reveal_strlit("seq");
    reveal_strlit("ts_ms");
    reveal_strlit("type");
    reveal_strlit("data");
    assert("type"@.len() != "seq"@.len());
    assert("type"@.len() != "ts_ms"@.len());
    assert("data"@.len() != "seq"@.len());
    assert("data"@.len() != "ts_ms"@.len());
}

proof fn lemma_last_byte(chars: Seq<char>)
    requires
        chars.len() > 0,
        chars.last() == '\n',
    ensures
        encode_utf8(chars).len() > 0,
        encode_utf8(chars).last() == 10,
    decreases chars.len(),
{
    reveal_with_fuel(encode_utf8, 2);
    if chars.len() == 1 {
        let scalar = chars[0] as u32;
        assert(scalar == 10);
        assert((10u32 & 0x7F) as u8 == 10u8) by (bit_vector);
        assert(encode_scalar(scalar) =~= seq![10u8]);
        assert(encode_utf8(chars.drop_first()) =~= Seq::empty());
    } else {
        lemma_last_byte(chars.drop_first());
    }
}

/// A stamped line ends with the newline that ends its record.
pub proof fn law_stamped_records_end_their_line(record: RecordV, seq: u64, ts_ms: u64)
    ensures
        record.stamped(seq, ts_ms).len() > 0,
        record.stamped(seq, ts_ms).last() == 10,
{
    reveal_strlit("}\n");
    let line = record.line(seq, ts_ms);
    assert(line.last() == "}\n"@[1]);
    lemma_last_byte(line);
}

} // verus!
