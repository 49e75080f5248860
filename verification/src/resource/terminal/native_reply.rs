//! The answer to a bootstrap request: a captured prefix as frames.

use super::native_model::{
    contents_of, frames_view, NativeBootstrapReply, NativeBootstrapRequest, ReplyV, StreamV,
};
use super::native_owners::cursor_payload;
use crate::native_state::capture::{least, pieces};
use crate::native_state::cut::OpaqueHistoryCursor;
use crate::native_state::error::NativeStateError;
use crate::payload::{contents, payload_range};
use crate::wire::{BootstrapStreamProfile, EngineCodec, FrameKind};
use bytes::Bytes;
use vstd::prelude::*;

verus! {

/// The chunks of the first `n` records, none larger than `most`.
pub open spec fn fragments(records: Seq<Seq<u8>>, n: nat, most: int) -> Seq<Seq<u8>>
    decreases n,
{
    if n == 0 || n > records.len() {
        Seq::empty()
    } else {
        fragments(records, (n - 1) as nat, most) + pieces(records[n - 1], 0, most)
    }
}

/// The frame that opens an answer.
pub open spec fn begin_frame(
    req: NativeBootstrapRequest,
    cols: u16,
    rows: u16,
    base_seq: u64,
) -> StreamV {
    StreamV::Begin {
        terminal_id: req.terminal_id,
        stream_id: req.stream_id,
        bootstrap_id: req.bootstrap_id,
        profile: BootstrapStreamProfile::NativeState {
            codec: EngineCodec::LibghosttyCheckpointV2,
        },
        cols,
        rows,
        base_seq,
    }
}

/// The frame of chunk `i`.
pub open spec fn chunk_frame(req: NativeBootstrapRequest, i: int, chunk: Seq<u8>) -> StreamV {
    StreamV::Chunk {
        terminal_id: req.terminal_id,
        stream_id: req.stream_id,
        bootstrap_id: req.bootstrap_id,
        chunk_seq: i as u32,
        payload: chunk,
    }
}

/// The frames of `chunks`, in order.
pub open spec fn chunk_frames(req: NativeBootstrapRequest, chunks: Seq<Seq<u8>>) -> Seq<StreamV> {
    Seq::new(chunks.len(), |i: int| chunk_frame(req, i, chunks[i]))
}

/// The frame that closes an answer.
pub open spec fn ready_frame(req: NativeBootstrapRequest, cursor: Seq<u8>) -> StreamV {
    StreamV::Ready {
        terminal_id: req.terminal_id,
        stream_id: req.stream_id,
        bootstrap_id: req.bootstrap_id,
        history_cursor: Some(cursor),
    }
}

/// Whether `count` chunks fit an answer of at most `max_frames` frames.
pub open spec fn chunks_fit(count: int, max_frames: int) -> bool {
    count <= u32::MAX && (count == 0 || count < max_frames - 1)
}

/// The answer to `req`, or that it does not fit.
pub open spec fn reply_for(
    req: NativeBootstrapRequest,
    records: Seq<Seq<u8>>,
    record_retained_bytes: int,
    cursor: Seq<u8>,
    base_seq: u64,
    cols: u16,
    rows: u16,
) -> Result<ReplyV, NativeStateError> {
    let chunks = fragments(records, records.len(), req.limits.max_chunk_bytes as int);
    if !chunks_fit(chunks.len() as int, req.max_frames as int) || record_retained_bytes + 32
        > req.max_bytes {
        Err(NativeStateError::LimitExceeded)
    } else {
        Ok(
            ReplyV {
                frames: seq![begin_frame(req, cols, rows, base_seq)] + chunk_frames(req, chunks)
                    + seq![ready_frame(req, cursor)],
                retained_bytes: record_retained_bytes + 32,
                base_seq,
                publication_cursor: cursor,
            },
        )
    }
}

/// An answer behind a result, as contracts speak of it.
pub open spec fn reply_view(reply: Result<NativeBootstrapReply, NativeStateError>) -> Result<
    ReplyV,
    NativeStateError,
> {
    match reply {
        Ok(reply) => Ok(reply@),
        Err(error) => Err(error),
    }
}

proof fn lemma_fragments_grow(records: Seq<Seq<u8>>, n: nat, m: nat, most: int)
    requires
        n <= m <= records.len(),
    ensures
        fragments(records, n, most).len() <= fragments(records, m, most).len(),
    decreases m - n,
{
    if n < m {
        lemma_fragments_grow(records, n, (m - 1) as nat, most);
    }
}

/// Build the answer to `req` from the captured records.
pub fn native_bootstrap_reply(
    req: &NativeBootstrapRequest,
    records: &Vec<Bytes>,
    record_retained_bytes: usize,
    cursor: OpaqueHistoryCursor,
    base_seq: u64,
    cols: u16,
    rows: u16,
) -> (reply: Result<NativeBootstrapReply, NativeStateError>)
    requires
        req.limits.max_chunk_bytes >= 1,
    ensures
        reply_view(reply) == reply_for(
            *req,
            contents_of(records@),
            record_retained_bytes as int,
            cursor@,
            base_seq,
            cols,
            rows,
        ),
{
    let ghost data = contents_of(records@);
    let ghost most = req.limits.max_chunk_bytes as int;
    let ghost all = fragments(data, data.len(), most);
    let ghost opening = begin_frame(*req, cols, rows, base_seq);
    let mut frames: Vec<FrameKind> = Vec::new();
    frames.push(
        FrameKind::BootstrapBegin {
            terminal_id: req.terminal_id.clone(),
            stream_id: req.stream_id,
            bootstrap_id: req.bootstrap_id,
            profile: BootstrapStreamProfile::NativeState {
                codec: EngineCodec::LibghosttyCheckpointV2,
            },
            cols,
            rows,
            base_seq,
        },
    );
    let chunk_bytes: usize = req.limits.max_chunk_bytes as usize;
    let most_frames: usize = if req.max_frames >= 1 {
        req.max_frames - 1
    } else {
        0
    };
    let mut chunk_seq: u32 = 0;
    let mut i: usize = 0;
    assert(frames_view(frames@) =~= seq![opening] + chunk_frames(*req, fragments(data, 0, most)));
    while i < records.len()
        invariant
            i <= records@.len(),
            data == contents_of(records@),
            most == req.limits.max_chunk_bytes,
            most == chunk_bytes,
            most >= 1,
            all == fragments(data, data.len(), most),
            most_frames == (if req.max_frames >= 1 {
                req.max_frames - 1
            } else {
                0
            }),
            chunk_seq == fragments(data, i as nat, most).len(),
            frames@.len() == chunk_seq + 1,
            chunk_seq == 0 || chunk_seq < most_frames,
            frames_view(frames@) == seq![opening] + chunk_frames(
                *req,
                fragments(data, i as nat, most),
            ),
        decreases records@.len() - i,
    {
        let record = &records[i];
        let len: usize = record.len();
        let ghost bytes = contents(*record);
        let ghost done = fragments(data, i as nat, most);
        let ghost whole = pieces(bytes, 0, most);
        proof {
            assert(data[i as int] == bytes);
            assert(fragments(data, (i + 1) as nat, most) == done + whole);
            lemma_fragments_grow(data, (i + 1) as nat, data.len(), most);
        }
        let mut pos: usize = 0;
        let ghost mut sent: Seq<Seq<u8>> = Seq::empty();
        assert(sent + pieces(bytes, 0, most) =~= whole);
        assert(done + sent =~= done);
        while pos < len
            invariant
                pos <= len == bytes.len(),
                data == contents_of(records@),
                bytes == contents(*record),
                most == chunk_bytes,
                most >= 1,
                most == req.limits.max_chunk_bytes,
                all == fragments(data, data.len(), most),
                most_frames == (if req.max_frames >= 1 {
                    req.max_frames - 1
                } else {
                    0
                }),
                whole == sent + pieces(bytes, pos as int, most),
                fragments(data, (i + 1) as nat, most) == done + whole,
                fragments(data, (i + 1) as nat, most).len() <= all.len(),
                chunk_seq == (done + sent).len(),
                frames@.len() == chunk_seq + 1,
                chunk_seq == 0 || chunk_seq < most_frames,
                frames_view(frames@) == seq![opening] + chunk_frames(*req, done + sent),
            decreases len - pos,
        {
            let ghost rest = pieces(bytes, pos as int, most);
            let ghost want = least(len - pos, most);
            let ghost chunk = bytes.subrange(pos as int, pos + want);
            proof {
                assert(rest =~= seq![chunk] + pieces(bytes, pos + want, most));
                assert(whole.len() >= sent.len() + 1);
            }
            if frames.len() >= most_frames {
                proof {
                    assert(all.len() >= chunk_seq + 1);
                }
                return Err(NativeStateError::LimitExceeded);
            }
            let take: usize = if len - pos < chunk_bytes {
                len - pos
            } else {
                chunk_bytes
            };
            let payload = payload_range(record, pos, pos + take);
            let ghost before = frames@;
            frames.push(
                FrameKind::BootstrapChunk {
                    terminal_id: req.terminal_id.clone(),
                    stream_id: req.stream_id,
                    bootstrap_id: req.bootstrap_id,
                    chunk_seq,
                    payload,
                },
            );
            proof {
                assert(frames_view(frames@) =~= frames_view(before).push(
                    chunk_frame(*req, chunk_seq as int, chunk),
                ));
                assert(chunk_frames(*req, (done + sent).push(chunk)) =~= chunk_frames(
                    *req,
                    done + sent,
                ).push(chunk_frame(*req, chunk_seq as int, chunk)));
                assert((done + sent).push(chunk) =~= done + sent.push(chunk));
                assert(frames_view(frames@) =~= seq![opening] + chunk_frames(
                    *req,
                    done + sent.push(chunk),
                ));
                assert(sent.push(chunk) + pieces(bytes, pos + want, most) =~= sent + rest);
                sent = sent.push(chunk);
            }
            if chunk_seq == u32::MAX {
                assert(all.len() > u32::MAX);
                return Err(NativeStateError::LimitExceeded);
            }
            chunk_seq = chunk_seq + 1;
            pos = pos + take;
        }
        assert(pieces(bytes, pos as int, most) =~= Seq::<Seq<u8>>::empty());
        assert(sent =~= whole);
        i += 1;
    }
    if record_retained_bytes > usize::MAX - 32 || record_retained_bytes + 32 > req.max_bytes {
        return Err(NativeStateError::LimitExceeded);
    }
    let retained_bytes: usize = record_retained_bytes + 32;
    let ghost before = frames@;
    frames.push(
        FrameKind::BootstrapReady {
            terminal_id: req.terminal_id.clone(),
            stream_id: req.stream_id,
            bootstrap_id: req.bootstrap_id,
            history_cursor: Some(cursor_payload(&cursor)),
        },
    );
    proof {
        assert(frames_view(frames@) =~= frames_view(before).push(ready_frame(*req, cursor@)));
        assert(frames_view(frames@) =~= seq![opening] + chunk_frames(*req, all)
            + seq![ready_frame(*req, cursor@)]);
    }
    Ok(NativeBootstrapReply { frames, retained_bytes, base_seq, publication_cursor: cursor })
}

proof fn lemma_flatten_concat(left: Seq<Seq<u8>>, right: Seq<Seq<u8>>)
    ensures
        (left + right).flatten() == left.flatten() + right.flatten(),
    decreases left.len(),
{
    if left.len() == 0 {
        assert(left + right =~= right);
        assert(left.flatten() + right.flatten() =~= right.flatten());
    } else {
        let both = left + right;
        assert(both.first() == left.first());
        assert(both.drop_first() =~= left.drop_first() + right);
        lemma_flatten_concat(left.drop_first(), right);
        assert(both.flatten() =~= left.first() + (left.drop_first().flatten() + right.flatten()));
        assert(left.flatten() + right.flatten() =~= left.first() + (left.drop_first().flatten()
            + right.flatten()));
    }
}

/// The chunks of an answer rejoin to the captured records.
pub proof fn law_chunks_rejoin_to_the_records(records: Seq<Seq<u8>>, n: nat, most: int)
    requires
        n <= records.len(),
        most >= 1,
    ensures
        fragments(records, n, most).flatten() == records.take(n as int).flatten(),
    decreases n,
{
    if n == 0 {
        assert(records.take(0) =~= Seq::<Seq<u8>>::empty());
        assert(fragments(records, 0, most) =~= Seq::<Seq<u8>>::empty());
    } else {
        let before = fragments(records, (n - 1) as nat, most);
        let last = pieces(records[n - 1], 0, most);
        law_chunks_rejoin_to_the_records(records, (n - 1) as nat, most);
        crate::native_state::capture::law_pieces_rejoin_to_the_prefix(records[n - 1], 0, most);
        assert(records[n - 1].skip(0) =~= records[n - 1]);
        lemma_flatten_concat(before, last);
        let taken = records.take(n as int);
        assert(taken =~= records.take(n - 1).push(records[n - 1]));
        records.take(n - 1).lemma_flatten_push(records[n - 1]);
    }
}

} // verus!
