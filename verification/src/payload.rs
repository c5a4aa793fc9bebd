//! Byte buffers that are shared, not copied.
use vstd::prelude::*;
use bytes::Bytes;

verus! {

/// `bytes::Bytes`, an immutable buffer whose clones share their memory.
#[verifier::external_type_specification]
#[verifier::external_body]
pub struct ExBytes(bytes::Bytes);

/// The bytes that a buffer holds.
pub uninterp spec fn content(data: Bytes) -> Seq<u8>;

/// The bytes that a buffer holds, where there is one.
pub open spec fn content_of(data: Option<Bytes>) -> Option<Seq<u8>> {
    match data {
        Some(d) => Some(content(d)),
        None => None,
    }
}

/// The bytes that the buffers of a map hold.
pub open spec fn contents<A>(buffers: Map<A, Bytes>) -> Map<A, Seq<u8>> {
    buffers.map_values(|data: Bytes| content(data))
}

/// Calls `Bytes::len`.
///
/// Trusted: the result is the number of bytes held.
#[verifier::external_body]
pub(crate) fn bytes_len(data: &Bytes) -> (n: usize)
    ensures
        n == content(*data).len(),
{
    data.len()
}

/// Calls `as_ref` of `Bytes`.
///
/// Trusted: the slice shows the bytes held.
#[verifier::external_body]
pub(crate) fn bytes_as_slice(data: &Bytes) -> (slice: &[u8])
    ensures
        slice@ == content(*data),
{
    data.as_ref()
}

/// Calls `Bytes::slice_ref` on the part of the buffer from `start` up to `end`.
///
/// Trusted: the new buffer holds the bytes of that part.
#[verifier::external_body]
pub(crate) fn bytes_part(data: &Bytes, start: usize, end: usize) -> (part: Bytes)
    requires
        start <= end <= content(*data).len(),
    ensures
        content(part) == content(*data).subrange(start as int, end as int),
{
    data.slice_ref(&data[start..end])
}

/// Calls `clone` of `Bytes`.
///
/// Trusted: the clone holds the same bytes.
#[verifier::external_body]
pub(crate) fn bytes_clone(data: &Bytes) -> (copy: Bytes)
    ensures
        content(copy) == content(*data),
{
    data.clone()
}

/// The buffers of a map are seen by what they hold, each under its key.
pub proof fn law_contents_in_place<A>(buffers: Map<A, Bytes>, key: A)
    ensures
        contents(buffers).contains_key(key) <==> buffers.contains_key(key),
        buffers.contains_key(key) ==> contents(buffers)[key] == content(buffers[key]),
{
}

/// A buffer that is there is seen by what it holds.
pub proof fn law_content_of(data: Option<Bytes>)
    ensures
        content_of(data) is Some <==> data is Some,
        data matches Some(d) ==> content_of(data) == Some(content(d)),
{
}

} // verus!
