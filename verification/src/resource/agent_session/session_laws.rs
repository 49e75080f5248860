//! What an agent session makes of what its producer appends.

use super::actor::{
    append_answers, ask_view, ends, last_ask, last_evidence, lines_of, ring_after, AppendOutcome,
    SessionV,
};
use super::record::{
    check_line, check_lines, is_blank, known_type, line_end, record_in_object, suggestions_in,
    texts_among, trimmed, trimmed_end, trimmed_start, validated, RecordErrorV, RecordV,
    StreamEvidence, MAX_RECORD_BYTES,
};
use super::ring::{law_what_fits_is_kept, RingV};
use crate::json::{text_member, written, JsonV};
use crate::payload::contents;
use crate::resource::base::PaneOutput;
use crate::text::decimal;
use vstd::prelude::*;

verus! {

proof fn lemma_last_evidence(records: Seq<RecordV>, n: nat, i: int)
    requires
        n <= records.len(),
    ensures
        0 <= i < n && records[i].evidence() is Some && (forall|j: int|
            i < j < n ==> (#[trigger] records[j]).evidence() is None) ==> last_evidence(records, n)
            == records[i].evidence(),
        last_evidence(records, n) is None <==> forall|j: int|
            0 <= j < n ==> (#[trigger] records[j]).evidence() is None,
    decreases n,
{
    if n > 0 {
        lemma_last_evidence(records, (n - 1) as nat, i);
        assert(last_evidence(records, n) is Some && records[n - 1].evidence() is Some
            ==> !(forall|j: int| 0 <= j < n ==> (#[trigger] records[j]).evidence() is None));
    }
}

proof fn lemma_last_ask(records: Seq<RecordV>, n: nat, i: int)
    requires
        n <= records.len(),
    ensures
        0 <= i < n && records[i].ask() is Some && (forall|j: int|
            i < j < n ==> (#[trigger] records[j]).ask() is None) ==> last_ask(records, n)
            == records[i].ask(),
        last_ask(records, n) is None <==> forall|j: int|
            0 <= j < n ==> (#[trigger] records[j]).ask() is None,
    decreases n,
{
    if n > 0 {
        lemma_last_ask(records, (n - 1) as nat, i);
        assert(last_ask(records, n) is Some && records[n - 1].ask() is Some ==> !(forall|j: int|
            0 <= j < n ==> (#[trigger] records[j]).ask() is None));
    }
}

/// An accepted append reports the newest evidence of the agent's state: that of
/// the last record that bears any, and none exactly where no record does.
pub proof fn law_the_newest_evidence_is_reported(
    before: SessionV,
    bytes: Seq<u8>,
    ts_ms: u64,
    after: SessionV,
    outcome: AppendOutcome,
    records: Seq<RecordV>,
    i: int,
)
    requires
        append_answers(before, bytes, ts_ms, after, outcome),
        outcome.reply is Ok,
        validated(bytes, before.ended) == Ok::<Seq<RecordV>, RecordErrorV>(records),
    ensures
        0 <= i < records.len() && records[i].evidence() is Some && (forall|j: int|
            i < j < records.len() ==> (#[trigger] records[j]).evidence() is None)
            ==> outcome.reply->Ok_0.evidence == records[i].evidence(),
        outcome.reply->Ok_0.evidence is None <==> forall|j: int|
            0 <= j < records.len() ==> (#[trigger] records[j]).evidence() is None,
{
    lemma_last_evidence(records, records.len(), i);
}

/// An accepted append reports the newest question: that of the last record that
/// asks one, and none exactly where no record asks.
pub proof fn law_the_newest_question_is_reported(
    before: SessionV,
    bytes: Seq<u8>,
    ts_ms: u64,
    after: SessionV,
    outcome: AppendOutcome,
    records: Seq<RecordV>,
    i: int,
)
    requires
        append_answers(before, bytes, ts_ms, after, outcome),
        outcome.reply is Ok,
        validated(bytes, before.ended) == Ok::<Seq<RecordV>, RecordErrorV>(records),
    ensures
        0 <= i < records.len() && records[i].ask() is Some && (forall|j: int|
            i < j < records.len() ==> (#[trigger] records[j]).ask() is None) ==> ask_view(
            outcome.reply->Ok_0.ask,
        ) == records[i].ask(),
        outcome.reply->Ok_0.ask is None <==> forall|j: int|
            0 <= j < records.len() ==> (#[trigger] records[j]).ask() is None,
{
    lemma_last_ask(records, records.len(), i);
}

/// The lines of `records`, numbered from `first_seq` on.
pub open spec fn numbered(records: Seq<RecordV>, first_seq: int, ts_ms: u64) -> Seq<Seq<u8>> {
    Seq::new(records.len(), |i: int| records[i].stamped((first_seq + i) as u64, ts_ms))
}

proof fn lemma_lines(records: Seq<RecordV>, n: nat, first_seq: int, ts_ms: u64)
    requires
        n <= records.len(),
    ensures
        lines_of(records, n, first_seq, ts_ms) == numbered(records, first_seq, ts_ms).take(
            n as int,
        ).flatten(),
    decreases n,
{
    let lines = numbered(records, first_seq, ts_ms);
    if n == 0 {
        assert(lines.take(0) == Seq::<Seq<u8>>::empty());
    } else {
        lemma_lines(records, (n - 1) as nat, first_seq, ts_ms);
        assert(lines.take(n as int) == lines.take(n - 1).push(lines[n - 1]));
        lines.take(n - 1).lemma_flatten_push(lines[n - 1]);
    }
}

/// What an accepted append broadcasts is one line for each record, in the order
/// in which they were appended, each with its own number: the first follows what
/// the session had before, the last is what the session has afterwards.
pub proof fn law_each_record_becomes_one_numbered_line(
    before: SessionV,
    bytes: Seq<u8>,
    ts_ms: u64,
    after: SessionV,
    outcome: AppendOutcome,
    records: Seq<RecordV>,
)
    requires
        append_answers(before, bytes, ts_ms, after, outcome),
        outcome.reply is Ok,
        validated(bytes, before.ended) == Ok::<Seq<RecordV>, RecordErrorV>(records),
    ensures
        outcome.output matches Some(PaneOutput::Live { seq, bytes: said }) && seq == after.seq
            && contents(said) == numbered(records, before.seq + 1, ts_ms).flatten(),
        outcome.reply->Ok_0.last_seq - outcome.reply->Ok_0.first_seq + 1 == records.len(),
        outcome.reply->Ok_0.last_seq == after.seq,
        outcome.reply->Ok_0.ts_ms == ts_ms,
        after.seq == before.seq + records.len(),
{
    lemma_lines(records, records.len(), before.seq + 1, ts_ms);
    let lines = numbered(records, before.seq + 1, ts_ms);
    assert(lines.take(lines.len() as int) == lines);
}

proof fn lemma_ends(records: Seq<RecordV>, n: nat)
    requires
        n <= records.len(),
    ensures
        ends(records, n) <==> exists|i: int| 0 <= i < n && (#[trigger] records[i]).ends_session(),
    decreases n,
{
    if n > 0 {
        lemma_ends(records, (n - 1) as nat);
        if records[n - 1].ends_session() {
            assert(records[n - 1].ends_session());
        }
    }
}

/// A session is over from the first record that ends it.
pub proof fn law_a_session_end_is_noticed(
    before: SessionV,
    bytes: Seq<u8>,
    ts_ms: u64,
    after: SessionV,
    outcome: AppendOutcome,
    records: Seq<RecordV>,
)
    requires
        append_answers(before, bytes, ts_ms, after, outcome),
        outcome.reply is Ok,
        validated(bytes, before.ended) == Ok::<Seq<RecordV>, RecordErrorV>(records),
    ensures
        after.ended <==> before.ended || exists|i: int|
            0 <= i < records.len() && (#[trigger] records[i]).record_type == "session_end"@,
{
    lemma_ends(records, records.len());
    if exists|i: int| 0 <= i < records.len() && (#[trigger] records[i]).ends_session() {
        let i = choose|i: int| 0 <= i < records.len() && (#[trigger] records[i]).ends_session();
        assert(records[i].record_type == "session_end"@);
    }
    if exists|i: int|
        0 <= i < records.len() && (#[trigger] records[i]).record_type == "session_end"@ {
        let i = choose|i: int|
            0 <= i < records.len() && (#[trigger] records[i]).record_type == "session_end"@;
        assert(records[i].ends_session());
    }
}

proof fn lemma_flatten_len(lines: Seq<Seq<u8>>, n: int)
    requires
        0 <= n <= lines.len(),
    ensures
        lines.take(n).flatten().len() <= lines.flatten().len(),
    decreases lines.len() - n,
{
    if n < lines.len() {
        lemma_flatten_len(lines, n + 1);
        assert(lines.take(n + 1) == lines.take(n).push(lines[n]));
        lines.take(n).lemma_flatten_push(lines[n]);
    } else {
        assert(lines.take(n) == lines);
    }
}

proof fn lemma_ring_keeps(
    ring: RingV,
    records: Seq<RecordV>,
    n: nat,
    first_seq: int,
    ts_ms: u64,
)
    requires
        n <= records.len(),
        ring.bytes + numbered(records, first_seq, ts_ms).flatten().len() <= ring.ceiling
            <= usize::MAX,
    ensures
        ring_after(ring, records, n, first_seq, ts_ms) == (RingV {
            records: ring.records + numbered(records, first_seq, ts_ms).take(n as int),
            bytes: ring.bytes + numbered(records, first_seq, ts_ms).take(n as int).flatten().len(),
            ..ring
        }),
    decreases n,
{
    let lines = numbered(records, first_seq, ts_ms);
    if n == 0 {
        assert(lines.take(0) == Seq::<Seq<u8>>::empty());
        assert(ring.records + lines.take(0) == ring.records);
    } else {
        lemma_ring_keeps(ring, records, (n - 1) as nat, first_seq, ts_ms);
        let before = ring_after(ring, records, (n - 1) as nat, first_seq, ts_ms);
        assert(lines.take(n as int) == lines.take(n - 1).push(lines[n - 1]));
        lines.take(n - 1).lemma_flatten_push(lines[n - 1]);
        lemma_flatten_len(lines, n as int);
        law_what_fits_is_kept(before, lines[n - 1]);
        assert((ring.records + lines.take(n - 1)).push(lines[n - 1]) == ring.records + lines.take(
            n as int,
        ));
    }
}

/// Whoever joins later reads what a follower saw: as long as the log has room,
/// what is retained afterwards is what was retained before and then the very
/// lines that were broadcast.
pub proof fn law_joiners_read_what_followers_saw(
    before: SessionV,
    bytes: Seq<u8>,
    ts_ms: u64,
    after: SessionV,
    outcome: AppendOutcome,
    records: Seq<RecordV>,
)
    requires
        append_answers(before, bytes, ts_ms, after, outcome),
        outcome.reply is Ok,
        validated(bytes, before.ended) == Ok::<Seq<RecordV>, RecordErrorV>(records),
        before.ring.bytes + numbered(records, before.seq + 1, ts_ms).flatten().len()
            <= before.ring.ceiling <= usize::MAX,
    ensures
        after.ring.records == before.ring.records + numbered(records, before.seq + 1, ts_ms),
        after.ring.dropped == before.ring.dropped,
        after.ring.ceiling == before.ring.ceiling,
        outcome.output matches Some(PaneOutput::Live { bytes: said, .. }) && contents(said).len()
            == after.ring.bytes - before.ring.bytes,
{
    let lines = numbered(records, before.seq + 1, ts_ms);
    lemma_ring_keeps(before.ring, records, records.len(), before.seq + 1, ts_ms);
    lemma_lines(records, records.len(), before.seq + 1, ts_ms);
    assert(lines.take(lines.len() as int) == lines);
}

proof fn lemma_types_differ()
    ensures
        "prompt"@ != "tool_start"@,
        "prompt"@ != "ask"@,
        "prompt"@ != "notification"@,
        "prompt"@ != "stop"@,
        "prompt"@ != "session_end"@,
        "prompt"@ != "state"@,
        "tool_start"@ != "ask"@,
        "tool_start"@ != "notification"@,
        "tool_start"@ != "stop"@,
        "tool_start"@ != "session_end"@,
        "tool_start"@ != "state"@,
        "ask"@ != "notification"@,
        "ask"@ != "stop"@,
        "ask"@ != "session_end"@,
        "ask"@ != "state"@,
        "notification"@ != "stop"@,
        "notification"@ != "session_end"@,
        "notification"@ != "state"@,
        "stop"@ != "session_end"@,
        "stop"@ != "state"@,
        "session_end"@ != "state"@,
        "working"@ != "blocked"@,
        "working"@ != "done"@,
        "blocked"@ != "done"@,
{
    reveal_strlit("prompt");
    reveal_strlit("tool_start");
    reveal_strlit("ask");
    reveal_strlit("notification");
    reveal_strlit("stop");
    reveal_strlit("session_end");
    reveal_strlit("state");
    reveal_strlit("working");
    reveal_strlit("blocked");
    reveal_strlit("done");
    assert("prompt"@[0] == 'p');
    assert("tool_start"@[0] == 't');
    assert("ask"@[0] == 'a');
    assert("notification"@[0] == 'n');
    assert("stop"@.len() == 4);
    assert("session_end"@.len() == 11);
    assert("state"@.len() == 5);
    assert("stop"@[0] == 's');
    assert("session_end"@[0] == 's');
    assert("state"@[0] == 's');
    assert("working"@[0] == 'w');
    assert("blocked"@[0] == 'b');
    assert("done"@[0] == 'd');
}

/// What each kind of record says of the agent: a prompt and a tool that starts,
/// that it works; a question and a notification that waits for an answer, that
/// it is blocked; a stop, that it is done; a session that ends, that there is
/// nothing to say any more. A state record says what it names.
pub proof fn law_records_say_what_their_type_says(record: RecordV)
    ensures
        record.record_type == "prompt"@ || record.record_type == "tool_start"@ ==> record.evidence()
            == Some(StreamEvidence::Working),
        record.record_type == "ask"@ ==> record.evidence() == Some(StreamEvidence::Blocked),
        record.record_type == "stop"@ ==> record.evidence() == Some(StreamEvidence::Done),
        record.record_type == "session_end"@ ==> record.evidence() == Some(StreamEvidence::Retract),
        record.record_type == "notification"@ ==> (record.evidence() == (if text_member(
            record.data,
            "kind"@,
        ) == Some("permission"@) || text_member(record.data, "kind"@) == Some("elicitation"@) {
            Some(StreamEvidence::Blocked)
        } else {
            None::<StreamEvidence>
        })),
        record.record_type == "state"@ ==> {
            let state = text_member(record.data, "state"@);
            &&& state == Some("working"@) <==> record.evidence() == Some(StreamEvidence::Working)
            &&& state == Some("blocked"@) <==> record.evidence() == Some(StreamEvidence::Blocked)
            &&& state == Some("done"@) <==> record.evidence() == Some(StreamEvidence::Done)
            &&& !(record.evidence() is Some && record.evidence()->Some_0 is Retract)
        },
        record.evidence() == Some(StreamEvidence::Retract) <==> record.record_type
            == "session_end"@,
        record.evidence() is Some ==> record.record_type == "prompt"@ || record.record_type
            == "tool_start"@ || record.record_type == "ask"@ || record.record_type
            == "notification"@ || record.record_type == "stop"@ || record.record_type
            == "session_end"@ || record.record_type == "state"@,
{
    lemma_types_differ();
}

/// A record asks exactly where it says that the agent is blocked and names a
/// question. The question, its id and its suggestions are the record's own; an
/// id that is missing is empty.
pub proof fn law_questions_are_the_records_own(record: RecordV)
    ensures
        record.ask() is Some <==> record.evidence() == Some(StreamEvidence::Blocked) && (
        text_member(record.data, "question"@) matches Some(question) && question.len() > 0),
        record.ask() matches Some(ask) ==> {
            &&& text_member(record.data, "question"@) == Some(ask.question)
            &&& text_member(record.data, "id"@) == Some(ask.id) || (text_member(record.data, "id"@)
                is None && ask.id.len() == 0)
            &&& record.data.contains_key("suggestions"@) && record.data["suggestions"@] is Array
                || ask.suggestions.len() == 0
        },
{
}

/// Suggestions are the texts of the list, in their order; what is no text is
/// passed over.
pub proof fn law_suggestions_are_the_texts_of_the_list(
    data: Map<Seq<char>, JsonV>,
    items: Seq<JsonV>,
    item: JsonV,
)
    requires
        data.contains_key("suggestions"@),
        data["suggestions"@] == JsonV::Array(items.push(item)),
    ensures
        suggestions_in(data) == (match item {
            JsonV::Text(text) => texts_among(items, items.len()).push(text),
            _ => texts_among(items, items.len()),
        }),
        items.len() == 0 ==> texts_among(items, items.len()).len() == 0,
{
    lemma_texts_extend(items, item, items.len());
    assert(items.push(item)[items.len() as int] == item);
}

proof fn lemma_texts_extend(items: Seq<JsonV>, item: JsonV, n: nat)
    requires
        n <= items.len(),
    ensures
        texts_among(items.push(item), n) == texts_among(items, n),
    decreases n,
{
    if n > 0 {
        lemma_texts_extend(items, item, (n - 1) as nat);
        assert(items.push(item)[n - 1] == items[n - 1]);
    }
}

/// A record keeps the type and the data that its object names. An object whose
/// type is missing, no text or unknown is refused, and so is data that is
/// neither an object nor null.
pub proof fn law_records_keep_their_object(held: Map<Seq<char>, JsonV>)
    ensures
        record_in_object(held) matches Ok(record) ==> {
            &&& text_member(held, "type"@) == Some(record.record_type)
            &&& known_type(record.record_type)
            &&& if held.contains_key("data"@) && !(held["data"@] is Null) {
                held["data"@] == JsonV::Object(record.data)
            } else {
                record.data == Map::<Seq<char>, JsonV>::empty()
            }
        },
        record_in_object(held) is Ok <==> (text_member(held, "type"@) matches Some(found)
            && known_type(found)) && (held.contains_key("data"@) ==> held["data"@] is Null
            || held["data"@] is Object),
        text_member(held, "type"@) is None ==> record_in_object(held) == Err::<
            RecordV,
            RecordErrorV,
        >(RecordErrorV::MissingType),
        text_member(held, "type"@) matches Some(found) ==> !known_type(found) ==> {
            &&& record_in_object(held) matches Err(RecordErrorV::UnknownType { found: named })
            &&& named.is_prefix_of(found)
            &&& named.len() == found.len() || named.len() == 64
            &&& named.len() <= 64
        },
{
}

proof fn lemma_line_end(bytes: Seq<u8>, from: int)
    requires
        0 <= from <= bytes.len(),
    ensures
        from <= line_end(bytes, from) <= bytes.len(),
        forall|i: int| from <= i < line_end(bytes, from) ==> #[trigger] bytes[i] != 10,
        line_end(bytes, from) < bytes.len() ==> bytes[line_end(bytes, from)] == 10,
    decreases bytes.len() - from,
{
    if from < bytes.len() && bytes[from] != 10 {
        lemma_line_end(bytes, from + 1);
    }
}

/// Lines are taken one after the other: what comes before the first line break
/// is checked first, and what it makes of the session and of the records found
/// so far is what the rest is checked against. The first line that is refused
/// refuses the whole.
pub proof fn law_lines_are_taken_in_order(
    line: Seq<u8>,
    rest: Seq<u8>,
    ended: bool,
    found: Seq<RecordV>,
)
    requires
        forall|i: int| 0 <= i < line.len() ==> #[trigger] line[i] != 10,
    ensures
        check_lines(line.push(10) + rest, ended, found) == (match check_line(line, ended, found) {
            Ok((over, records)) => check_lines(rest, over, records),
            Err(error) => Err(error),
        }),
{
    let bytes = line.push(10) + rest;
    lemma_line_end(bytes, 0);
    let end = line_end(bytes, 0);
    let n = line.len() as int;
    assert(bytes[n] == 10);
    if end < n {
        assert(bytes[end] == line[end]);
    }
    assert(end == n);
    assert(bytes.take(end) == line);
    assert(bytes.skip(end + 1) == rest);
}

/// The last line needs no line break: what is found with it is the result, and
/// an append in which nothing was found is refused as empty.
pub proof fn law_the_last_line_completes_the_append(
    line: Seq<u8>,
    ended: bool,
    found: Seq<RecordV>,
)
    requires
        forall|i: int| 0 <= i < line.len() ==> #[trigger] line[i] != 10,
    ensures
        check_lines(line, ended, found) == (match check_line(line, ended, found) {
            Ok((_, records)) => if records.len() > 0 {
                Ok(records)
            } else {
                Err(RecordErrorV::Empty)
            },
            Err(error) => Err(error),
        }),
{
    lemma_line_end(line, 0);
    let end = line_end(line, 0);
    if end < line.len() {
        assert(line[end] != 10);
    }
    assert(line.take(end) == line);
}

proof fn lemma_trimmed_start(line: Seq<u8>)
    ensures
        ({
            let cut = trimmed_start(line);
            let k = line.len() - cut.len();
            &&& 0 <= k <= line.len()
            &&& cut == line.skip(k)
            &&& forall|i: int| 0 <= i < k ==> is_blank(#[trigger] line[i])
            &&& cut.len() > 0 ==> !is_blank(cut[0])
        }),
    decreases line.len(),
{
    if line.len() > 0 && is_blank(line[0]) {
        lemma_trimmed_start(line.skip(1));
        let cut = trimmed_start(line);
        let k = line.len() - cut.len();
        assert(line.skip(1).skip(k - 1) == line.skip(k));
        assert forall|i: int| 0 <= i < k implies is_blank(#[trigger] line[i]) by {
            if i > 0 {
                assert(line.skip(1)[i - 1] == line[i]);
            }
        }
    } else {
        assert(line.skip(0) == line);
    }
}

proof fn lemma_trimmed_end(line: Seq<u8>)
    ensures
        ({
            let cut = trimmed_end(line);
            &&& cut.len() <= line.len()
            &&& cut == line.take(cut.len() as int)
            &&& forall|i: int| cut.len() <= i < line.len() ==> is_blank(#[trigger] line[i])
            &&& cut.len() > 0 ==> !is_blank(cut.last())
        }),
    decreases line.len(),
{
    if line.len() > 0 && is_blank(line.last()) {
        lemma_trimmed_end(line.drop_last());
        let cut = trimmed_end(line);
        assert(line.drop_last().take(cut.len() as int) == line.take(cut.len() as int));
        assert forall|i: int| cut.len() <= i < line.len() implies is_blank(#[trigger] line[i]) by {
            if i < line.len() - 1 {
                assert(line.drop_last()[i] == line[i]);
            }
        }
    } else {
        assert(line.take(line.len() as int) == line);
    }
}

/// A line that holds nothing but spaces, tabs and carriage returns changes
/// nothing; of any other line the text between its first and its last other byte
/// counts, and no byte of that text is lost.
pub proof fn law_blanks_around_a_line_do_not_count(
    line: Seq<u8>,
    ended: bool,
    found: Seq<RecordV>,
)
    ensures
        ({
            let text = trimmed(line);
            let k = line.len() - trimmed_start(line).len();
            &&& 0 <= k <= k + text.len() <= line.len()
            &&& text == line.subrange(k, k + text.len())
            &&& forall|i: int|
                0 <= i < k || k + text.len() <= i < line.len() ==> {
                    let byte = #[trigger] line[i];
                    byte == 13 || byte == 32 || byte == 9
                }
            &&& text.len() > 0 ==> !(text[0] == 13 || text[0] == 32 || text[0] == 9) && !(
            text.last() == 13 || text.last() == 32 || text.last() == 9)
        }),
        (forall|i: int|
            0 <= i < line.len() ==> (#[trigger] line[i] == 13 || line[i] == 32 || line[i] == 9))
            ==> check_line(line, ended, found) == Ok::<(bool, Seq<RecordV>), RecordErrorV>(
            (ended, found),
        ),
{
    lemma_trimmed_start(line);
    let start = trimmed_start(line);
    lemma_trimmed_end(start);
    let text = trimmed(line);
    let k = line.len() - start.len();
    assert(text == line.subrange(k, k + text.len()));
    assert forall|i: int| 0 <= i < k || k + text.len() <= i < line.len() implies is_blank(
        #[trigger] line[i],
    ) by {
        if i >= k {
            assert(start[i - k] == line[i]);
        }
    }
    if text.len() > 0 {
        assert(text[0] == start[0]);
        assert(line[k] == text[0]);
        assert(!is_blank(line[k]));
    }
}

/// A text that is longer than a record may be is refused with its length, also
/// after the end of the session; one that follows the end is refused as such. A
/// record that is accepted is added behind those that were found before.
pub proof fn law_accepted_lines_add_one_record(
    line: Seq<u8>,
    ended: bool,
    found: Seq<RecordV>,
)
    ensures
        trimmed(line).len() > MAX_RECORD_BYTES ==> check_line(line, ended, found) == Err::<
            (bool, Seq<RecordV>),
            RecordErrorV,
        >(RecordErrorV::Oversized { len: trimmed(line).len() }),
        0 < trimmed(line).len() <= MAX_RECORD_BYTES && ended ==> check_line(line, ended, found)
            == Err::<(bool, Seq<RecordV>), RecordErrorV>(RecordErrorV::AfterSessionEnd),
        check_line(line, ended, found) matches Ok((over, records)) ==> trimmed(line).len() > 0 ==> {
            &&& records.len() == found.len() + 1
            &&& found.is_prefix_of(records)
            &&& over == records.last().ends_session()
            &&& !ended
        },
{
}

/// A line starts with the number and the time that the record was given, then its
/// type, and ends the line.
pub proof fn law_lines_name_their_number_and_time(record: RecordV, seq: u64, ts_ms: u64)
    ensures
        ("{\"seq\":"@ + decimal(seq as nat) + ",\"ts_ms\":"@ + decimal(ts_ms as nat)
            + ",\"type\":"@ + written(JsonV::Text(record.record_type))).is_prefix_of(
            record.line(seq, ts_ms),
        ),
        (",\"data\":"@ + written(JsonV::Object(record.data)) + "}\n"@).is_suffix_of(
            record.line(seq, ts_ms),
        ),
{
    let head = "{\"seq\":"@ + decimal(seq as nat) + ",\"ts_ms\":"@ + decimal(ts_ms as nat)
        + ",\"type\":"@ + written(JsonV::Text(record.record_type));
    let tail = ",\"data\":"@ + written(JsonV::Object(record.data)) + "}\n"@;
    let line = record.line(seq, ts_ms);
    assert(line == head + tail);
    assert(line.take(head.len() as int) == head);
    assert(line.skip(head.len() as int) == tail);
}

} // verus!
