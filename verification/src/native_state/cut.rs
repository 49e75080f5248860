//! A snapshot, cut at READY.

use super::error::{engine_failure, EngineError, NativeStateError};
use crate::assoc::Keyed;
use crate::payload::{contents, payload_of, payload_range};
use bytes::Bytes;
use sha2::Digest;
use vstd::prelude::*;

verus! {

/// The length of a cursor.
pub const TOKEN_LEN: usize = 32;

/// An opaque capability to read the history of one cut.
pub type OpaqueHistoryCursor = [u8; 32];

impl Keyed for [u8; 32] {
    fn same_key(&self, other: &Self) -> (same: bool) {
        let mut i: usize = 0;
        while i < 32
            invariant
                i <= 32,
                forall|j: int| 0 <= j < i ==> self@[j] == other@[j],
            decreases 32 - i,
        {
            if self[i] != other[i] {
                assert(self@[i as int] != other@[i as int]);
                return false;
            }
            i += 1;
        }
        assert(self@ =~= other@);
        true
    }
}

/// The SHA-256 digest of some bytes.
pub uninterp spec fn sha256(data: Seq<u8>) -> Seq<u8>;

/// `sha2::Sha256::digest`: the SHA-256 digest of `data`.
#[verifier::external_body]
pub(crate) fn cursor_for(data: &[u8]) -> (cursor: OpaqueHistoryCursor)
    ensures
        cursor@ == sha256(data@),
{
    sha2::Sha256::digest(data).into()
}

/// A snapshot: all of it, what follows READY, and the cursor that names it.
#[derive(Debug, Clone)]
pub struct SnapshotCut {
    /// The whole snapshot, so that a client can decode it at READY.
    pub prefix: Bytes,
    /// What follows READY, served as history.
    pub suffix: Bytes,
    /// The digest of the snapshot.
    pub cursor: OpaqueHistoryCursor,
}

impl SnapshotCut {
    /// Whether this is `encoded`, cut at `ready_at`.
    pub open spec fn cuts(&self, encoded: Seq<u8>, ready_at: int) -> bool {
        &&& contents(self.prefix) == encoded
        &&& contents(self.suffix) == encoded.skip(ready_at)
        &&& self.cursor@ == sha256(encoded)
    }
}

/// Where READY ends in a snapshot of `len` bytes, given where the decoder
/// stopped.
pub open spec fn ready_end(position: u64, len: int) -> int {
    if position < len {
        position as int
    } else {
        len
    }
}

/// Where READY ends in a snapshot of `len` bytes, given where the decoder
/// stopped.
pub fn snapshot_ready_offset(position: Result<u64, EngineError>, len: usize) -> (offset: Result<
    usize,
    NativeStateError,
>)
    ensures
        match position {
            Ok(at) => offset matches Ok(end) && end == ready_end(at, len as int),
            Err(error) => offset == Err::<usize, NativeStateError>(engine_failure(error)),
        },
{
    match position {
        Ok(at) => if at < len as u64 {
            Ok(at as usize)
        } else {
            Ok(len)
        },
        Err(error) => Err(NativeStateError::from(error)),
    }
}

/// Whether `cut` is what a snapshot attempt comes to: the engine's bytes, cut
/// where the decoder stopped.
pub open spec fn cut_outcome(
    encoded: Result<Vec<u8>, EngineError>,
    position: Result<u64, EngineError>,
    cut: Result<SnapshotCut, NativeStateError>,
) -> bool {
    match encoded {
        Err(error) => cut == Err::<SnapshotCut, NativeStateError>(engine_failure(error)),
        Ok(encoded) => if encoded@.len() == 0 {
            cut == Err::<SnapshotCut, NativeStateError>(NativeStateError::InvalidState)
        } else {
            match position {
                Err(error) => cut == Err::<SnapshotCut, NativeStateError>(engine_failure(error)),
                Ok(at) => if at == 0 {
                    cut == Err::<SnapshotCut, NativeStateError>(NativeStateError::InvalidState)
                } else {
                    cut matches Ok(cut) && cut.cuts(
                        encoded@,
                        ready_end(at, encoded@.len() as int),
                    )
                },
            }
        },
    }
}

/// Cut a snapshot at READY. `encoded` is what the engine encoded, `position`
/// where its decoder stopped after READY.
pub fn encode_cut(
    encoded: Result<Vec<u8>, EngineError>,
    position: Result<u64, EngineError>,
) -> (cut: Result<SnapshotCut, NativeStateError>)
    ensures
        cut_outcome(encoded, position, cut),
{
    let encoded = match encoded {
        Ok(encoded) => encoded,
        Err(error) => {
            return Err(NativeStateError::from(error));
        },
    };
    if encoded.len() == 0 {
        return Err(NativeStateError::InvalidState);
    }
    let ready_at = match snapshot_ready_offset(position, encoded.len()) {
        Ok(ready_at) => ready_at,
        Err(error) => {
            return Err(error);
        },
    };
    if ready_at == 0 {
        return Err(NativeStateError::InvalidState);
    }
    let cursor = cursor_for(encoded.as_slice());
    let prefix = payload_of(encoded);
    let suffix = payload_range(&prefix, ready_at, prefix.len());
    assert(contents(suffix) =~= contents(prefix).skip(ready_at as int));
    Ok(SnapshotCut { prefix, suffix, cursor })
}

} // verus!
