//! Message payloads: cheaply cloned byte buffers.

use vstd::prelude::*;

verus! {

/// `bytes::Bytes`, a byte buffer whose clones share one allocation.
#[verifier::external_type_specification]
#[verifier::external_body]
pub struct ExBytes(bytes::Bytes);

/// The bytes that a `bytes::Bytes` holds.
pub uninterp spec fn bytes_content(bytes: bytes::Bytes) -> Seq<u8>;

/// `Bytes::from(Vec<u8>)`: the buffer takes the vector over and holds its bytes.
#[verifier::external_body]
pub(crate) fn bytes_from_vec(data: Vec<u8>) -> (bytes: bytes::Bytes)
    ensures
        bytes_content(bytes) == data@,
{
    bytes::Bytes::from(data)
}

/// `Bytes::as_ref`: the bytes that the buffer holds, as a slice.
#[verifier::external_body]
pub(crate) fn bytes_as_slice(bytes: &bytes::Bytes) -> (data: &[u8])
    ensures
        data@ == bytes_content(*bytes),
{
    bytes.as_ref()
}

/// `Bytes::clone`: a second handle to the same bytes.
#[verifier::external_body]
pub(crate) fn bytes_clone(bytes: &bytes::Bytes) -> (copy: bytes::Bytes)
    ensures
        bytes_content(copy) == bytes_content(*bytes),
{
    bytes.clone()
}

} // verus!
