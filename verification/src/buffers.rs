//! The byte buffers of the `bytes` crate, as the rest of the library sees them.
//!
//! `Bytes` and `BytesMut` are opaque to Verus. What a buffer holds is named by
//! `bytes_view` and `bytes_mut_view`; each wrapper below states, over those
//! names, what the `bytes` method that it calls does to the contents.
use bytes::Buf;
use bytes::Bytes;
use bytes::BytesMut;
use vstd::prelude::*;

verus! {

/// The immutable, reference-counted byte buffer of the `bytes` crate.
#[verifier::external_type_specification]
#[verifier::external_body]
pub struct ExBytes(bytes::Bytes);

/// The growable byte buffer of the `bytes` crate.
#[verifier::external_type_specification]
#[verifier::external_body]
pub struct ExBytesMut(bytes::BytesMut);

/// The bytes that a `Bytes` holds, in order.
pub uninterp spec fn bytes_view(b: Bytes) -> Seq<u8>;

/// The bytes that a `BytesMut` holds, in order.
pub uninterp spec fn bytes_mut_view(b: BytesMut) -> Seq<u8>;

/// `Bytes::from(Vec<u8>)`: the buffer holds exactly the bytes of the vector.
#[verifier::external_body]
pub(crate) fn bytes_from_vec(v: Vec<u8>) -> (r: Bytes)
    ensures
        bytes_view(r) == v@,
{
    Bytes::from(v)
}

/// `Bytes::len`: the number of bytes held.
#[verifier::external_body]
pub(crate) fn bytes_len(b: &Bytes) -> (r: usize)
    ensures
        r == bytes_view(*b).len(),
{
    b.len()
}

/// `Deref` of `Bytes` to `[u8]`: the slice shows exactly the bytes held.
#[verifier::external_body]
pub(crate) fn bytes_as_slice(b: &Bytes) -> (r: &[u8])
    ensures
        r@ == bytes_view(*b),
{
    &b[..]
}

/// `Bytes::slice(start..)`: a buffer holding the bytes from `start` to the end.
/// The crate panics when `start` is past the end, which `requires` rules out.
#[verifier::external_body]
pub(crate) fn bytes_slice_from(b: &Bytes, start: usize) -> (r: Bytes)
    requires
        start <= bytes_view(*b).len(),
    ensures
        bytes_view(r) == bytes_view(*b).subrange(start as int, bytes_view(*b).len() as int),
{
    b.slice(start..)
}

/// `Bytes::slice(start..end)`: a buffer holding the bytes from `start` up
/// to `end`. The crate panics when `start > end` or `end` is past the end,
/// which `requires` rules out.
#[verifier::external_body]
pub(crate) fn bytes_slice(b: &Bytes, start: usize, end: usize) -> (r: Bytes)
    requires
        start <= end <= bytes_view(*b).len(),
    ensures
        bytes_view(r) == bytes_view(*b).subrange(start as int, end as int),
{
    b.slice(start..end)
}

/// `BytesMut::from(&[u8])`: a new buffer holding a copy of the slice.
#[verifier::external_body]
pub(crate) fn bytes_mut_from_slice(s: &[u8]) -> (r: BytesMut)
    ensures
        bytes_mut_view(r) == s@,
{
    BytesMut::from(s)
}

/// `Deref` of `BytesMut` to `[u8]`: the slice shows exactly the bytes held.
#[verifier::external_body]
pub(crate) fn bytes_mut_as_slice(b: &BytesMut) -> (r: &[u8])
    ensures
        r@ == bytes_mut_view(*b),
{
    &b[..]
}

/// `Buf::advance` on `BytesMut`: drops the first `n` bytes. The crate panics
/// when `n` exceeds what is held, which `requires` rules out.
#[verifier::external_body]
pub(crate) fn bytes_mut_advance(b: &mut BytesMut, n: usize)
    requires
        n <= bytes_mut_view(*old(b)).len(),
    ensures
        bytes_mut_view(*final(b)) == bytes_mut_view(*old(b)).subrange(
            n as int,
            bytes_mut_view(*old(b)).len() as int,
        ),
{
    b.advance(n)
}

/// `BytesMut::freeze`: the frozen buffer holds the same bytes.
#[verifier::external_body]
pub(crate) fn bytes_mut_freeze(b: BytesMut) -> (r: Bytes)
    ensures
        bytes_view(r) == bytes_mut_view(b),
{
    b.freeze()
}

/// `Clone` of `Bytes`: the clone holds the same bytes (it shares the buffer).
pub assume_specification[ <Bytes as Clone>::clone ](b: &Bytes) -> (r: Bytes)
    ensures
        bytes_view(r) == bytes_view(*b),
;

} // verus!
