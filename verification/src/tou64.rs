//! Short numeric identifiers: a peer's 64-bit routing id and the 64-bit hash
//! of an application name.
use crate::p2p::peer_id_bytes;
use crate::p2p::peer_id_to_bytes;
use crate::wire::be64;
use crate::wire::from_be64;
use crate::wire::lemma_from_be64_roundtrip;
use crate::wire::read_be64;
use libp2p::PeerId;
use std::collections::hash_map::DefaultHasher;
use std::hash::Hash;
use std::hash::Hasher;
use vstd::prelude::*;
use vstd::std_specs::hash::DefaultHasherAdditionalSpecFns;

verus! {

/// The last (at most) eight bytes of `b`, padded on the right with zeros to
/// eight bytes.
pub open spec fn tail8(b: Seq<u8>) -> Seq<u8> {
    let start: int = if b.len() >= 8 { b.len() - 8 } else { 0 };
    let tail = b.subrange(start, b.len() as int);
    tail + Seq::new((8 - tail.len()) as nat, |i: int| 0u8)
}

/// The 64-bit routing id read from a peer's identity bytes: the big-endian
/// number formed by their last eight bytes (zero-padded when shorter).
pub open spec fn tail_u64(b: Seq<u8>) -> u64 {
    from_be64(tail8(b))
}

/// The routing id that Knot gives a peer.
pub open spec fn peer_u64(peer: PeerId) -> u64 {
    tail_u64(peer_id_bytes(peer))
}

/// The routing id of a digest: its last eight bytes read as a big-endian
/// number, zero-padded on the right when the digest is shorter.
pub fn digest_tail_to_u64(bytes: &[u8]) -> (r: u64)
    ensures
        r == tail_u64(bytes@),
{
    let len = bytes.len();
    let start: usize = if len >= 8 {
        len - 8
    } else {
        0
    };
    let n: usize = len - start;
    let ghost padded = tail8(bytes@);
    let mut arr: Vec<u8> = Vec::new();
    let mut i: usize = 0;
    while i < 8
        invariant
            i <= 8,
            start + n == len,
            len == bytes@.len(),
            n <= 8,
            start == (if len >= 8 { len - 8 } else { 0 }),
            padded == tail8(bytes@),
            arr@ == padded.subrange(0, i as int),
        decreases 8 - i,
    {
        if i < n {
            arr.push(bytes[start + i]);
        } else {
            arr.push(0u8);
        }
        assert(arr@ =~= padded.subrange(0, i + 1));
        i = i + 1;
    }
    assert(arr@ =~= padded);
    read_be64(arr.as_slice(), 0)
}

/// The 64-bit routing id of a peer: the last eight bytes of its identity.
pub fn peer_id_to_u64(peer_id: &PeerId) -> (r: u64)
    ensures
        r == peer_u64(*peer_id),
{
    let bytes = peer_id_to_bytes(peer_id);
    digest_tail_to_u64(bytes.as_slice())
}

/// What `<str as Hash>::hash` writes into a hasher for a string: a fixed
/// sequence of writes that depends on the string alone.
pub uninterp spec fn str_hash_writes(text: Seq<char>) -> Seq<Seq<u8>>;

/// `<str as Hash>::hash` into a `DefaultHasher`: appends the writes that the
/// string's `Hash` makes.
#[verifier::external_body]
fn hash_str_into(text: &str, state: &mut DefaultHasher)
    ensures
        final(state)@ == old(state)@ + str_hash_writes(text@),
{
    text.hash(state)
}

/// The 64-bit hash of a string with a fresh `DefaultHasher`. Every
/// `DefaultHasher::new()` starts from the same keys, so equal strings get
/// equal ids.
pub fn string_to_u64_rust(text: &str) -> (r: u64)
    ensures
        r == DefaultHasher::spec_finish(str_hash_writes(text@)),
{
    let mut s = DefaultHasher::new();
    hash_str_into(text, &mut s);
    assert(s@ =~= str_hash_writes(text@));
    s.finish()
}

/// The big-endian bytes of a routing id are the last eight bytes of the
/// identity it was read from; an identity shorter than eight bytes fills
/// the front, and zeros the rest.
pub proof fn lemma_routing_id_bytes(b: Seq<u8>)
    ensures
        forall|i: int|
            0 <= i < 8 ==> #[trigger] be64(tail_u64(b))[i] == (if b.len() >= 8 {
                b[b.len() - 8 + i]
            } else if i < b.len() {
                b[i]
            } else {
                0u8
            }),
{
    let t = tail8(b);
    assert(t.len() == 8);
    lemma_from_be64_roundtrip(t);
}

} // verus!
