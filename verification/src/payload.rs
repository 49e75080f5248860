//! Shared byte payloads.
//!
//! Frame payloads are `bytes::Bytes`: cloning one shares the allocation, so a
//! payload fanned out to many consumers is stored once.

use crate::native_state::cut::OpaqueHistoryCursor;
use bytes::Bytes;
use std::sync::Arc;
use vstd::prelude::*;

verus! {

/// `bytes::Bytes`, carried through as an opaque value.
#[verifier::external_type_specification]
#[verifier::external_body]
pub struct ExBytes(bytes::Bytes);

/// The bytes that a payload holds.
pub uninterp spec fn contents(payload: Bytes) -> Seq<u8>;

/// `Bytes::clone` hands out another handle to the same bytes.
pub assume_specification[ <Bytes as Clone>::clone ](payload: &Bytes) -> (copy: Bytes)
    ensures
        copy == *payload,
;

/// `Bytes::len` is the number of bytes held.
pub assume_specification[ Bytes::len ](payload: &Bytes) -> (len: usize)
    ensures
        len == contents(*payload).len(),
;

/// `Bytes::from(Vec<u8>)` takes over the vector's bytes.
#[verifier::external_body]
pub(crate) fn payload_of(bytes: Vec<u8>) -> (payload: Bytes)
    ensures
        contents(payload) == bytes@,
{
    Bytes::from(bytes)
}

/// `Bytes::slice(from..to)`: a handle to a part of the bytes.
#[verifier::external_body]
pub(crate) fn payload_range(payload: &Bytes, from: usize, to: usize) -> (part: Bytes)
    requires
        from <= to <= contents(*payload).len(),
    ensures
        contents(part) == contents(*payload).subrange(from as int, to as int),
{
    payload.slice(from..to)
}

/// `Bytes::as_ref`: the bytes that a payload holds.
#[verifier::external_body]
pub(crate) fn payload_bytes(payload: &Bytes) -> (bytes: &[u8])
    ensures
        bytes@ == contents(*payload),
{
    payload.as_ref()
}

/// Stands for the payloads of one generation: each of them holds a handle to it.
#[derive(Debug)]
pub struct NativeGenerationCharge {
    /// The cursor of the generation.
    pub cursor: OpaqueHistoryCursor,
}

/// A payload that is charged for as long as anybody holds it.
#[derive(Debug)]
pub struct ChargedNativePayload {
    /// The bytes.
    pub bytes: Vec<u8>,
    /// What they are charged to.
    pub charge: Arc<NativeGenerationCharge>,
}

impl AsRef<[u8]> for ChargedNativePayload {
    fn as_ref(&self) -> (bytes: &[u8])
        ensures
            bytes@ == self.bytes@,
    {
        self.bytes.as_slice()
    }
}

/// `Bytes::from_owner`: the bytes that the owner lends out. The owner goes with
/// the last handle.
#[verifier::external_body]
pub(crate) fn charged_payload(owner: ChargedNativePayload) -> (payload: Bytes)
    ensures
        contents(payload) == owner.bytes@,
{
    Bytes::from_owner(owner)
}

/// `Arc::strong_count`: how many handles there are, this one included. How many
/// others there are is left unsaid: it depends on who else holds one.
#[verifier::external_body]
pub(crate) fn handles(charge: &Arc<NativeGenerationCharge>) -> (count: usize)
    ensures
        count >= 1,
{
    Arc::strong_count(charge)
}

/// The memory that a vector has allocated: at least its bytes. How much more is
/// up to the allocator.
///
/// `Vec::capacity`: never less than the length.
#[verifier::external_body]
pub(crate) fn allocated(bytes: &Vec<u8>) -> (capacity: usize)
    ensures
        capacity >= bytes@.len(),
{
    bytes.capacity()
}

} // verus!
