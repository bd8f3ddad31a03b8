//! Big-endian (network order) encoding of unsigned integers.
use vstd::prelude::*;

verus! {

/// The two bytes of `x`, most significant first.
pub open spec fn be16(x: u16) -> Seq<u8> {
    seq![(x >> 8) as u8, x as u8]
}

/// The four bytes of `x`, most significant first.
pub open spec fn be32(x: u32) -> Seq<u8> {
    seq![(x >> 24) as u8, (x >> 16) as u8, (x >> 8) as u8, x as u8]
}

/// The eight bytes of `x`, most significant first.
pub open spec fn be64(x: u64) -> Seq<u8> {
    seq![
        (x >> 56) as u8,
        (x >> 48) as u8,
        (x >> 40) as u8,
        (x >> 32) as u8,
        (x >> 24) as u8,
        (x >> 16) as u8,
        (x >> 8) as u8,
        x as u8,
    ]
}

/// The number whose big-endian bytes are the four bytes of `s`.
pub open spec fn from_be32(s: Seq<u8>) -> u32
    recommends
        s.len() == 4,
{
    (s[0] as u32) << 24u32 | (s[1] as u32) << 16u32 | (s[2] as u32) << 8u32 | (s[3] as u32)
}

/// The number whose big-endian bytes are the eight bytes of `s`.
pub open spec fn from_be64(s: Seq<u8>) -> u64
    recommends
        s.len() == 8,
{
    (s[0] as u64) << 56u64 | (s[1] as u64) << 48u64 | (s[2] as u64) << 40u64 | (s[3] as u64)
        << 32u64 | (s[4] as u64) << 24u64 | (s[5] as u64) << 16u64 | (s[6] as u64) << 8u64 | (
    s[7] as u64)
}

/// Reading back the bytes of a 32-bit number gives the number.
pub proof fn lemma_be32_roundtrip(x: u32)
    ensures
        be32(x).len() == 4,
        from_be32(be32(x)) == x,
{
    let s = be32(x);
    assert(s[0] == (x >> 24) as u8 && s[1] == (x >> 16) as u8 && s[2] == (x >> 8) as u8 && s[3]
        == x as u8);
    assert(((x >> 24) as u8 as u32) << 24u32 | ((x >> 16) as u8 as u32) << 16u32 | ((x
        >> 8) as u8 as u32) << 8u32 | (x as u8 as u32) == x) by (bit_vector);
}

/// Reading back the bytes of a 64-bit number gives the number.
pub proof fn lemma_be64_roundtrip(x: u64)
    ensures
        be64(x).len() == 8,
        from_be64(be64(x)) == x,
{
    let s = be64(x);
    assert(s[0] == (x >> 56) as u8 && s[1] == (x >> 48) as u8 && s[2] == (x >> 40) as u8 && s[3]
        == (x >> 32) as u8 && s[4] == (x >> 24) as u8 && s[5] == (x >> 16) as u8 && s[6] == (x
        >> 8) as u8 && s[7] == x as u8);
    assert(((x >> 56) as u8 as u64) << 56u64 | ((x >> 48) as u8 as u64) << 48u64 | ((x
        >> 40) as u8 as u64) << 40u64 | ((x >> 32) as u8 as u64) << 32u64 | ((x
        >> 24) as u8 as u64) << 24u64 | ((x >> 16) as u8 as u64) << 16u64 | ((x
        >> 8) as u8 as u64) << 8u64 | (x as u8 as u64) == x) by (bit_vector);
}

/// Writing out the number read from four bytes gives those bytes.
pub proof fn lemma_from_be32_roundtrip(s: Seq<u8>)
    requires
        s.len() == 4,
    ensures
        be32(from_be32(s)) == s,
{
    let (b0, b1, b2, b3) = (s[0], s[1], s[2], s[3]);
    let x = from_be32(s);
    assert(x == (b0 as u32) << 24u32 | (b1 as u32) << 16u32 | (b2 as u32) << 8u32 | (b3 as u32));
    assert({
        let y = (b0 as u32) << 24u32 | (b1 as u32) << 16u32 | (b2 as u32) << 8u32 | (b3 as u32);
        (y >> 24) as u8 == b0 && (y >> 16) as u8 == b1 && (y >> 8) as u8 == b2 && y as u8 == b3
    }) by (bit_vector);
    assert(be32(x) =~= s);
}

/// Writing out the number read from eight bytes gives those bytes.
pub proof fn lemma_from_be64_roundtrip(s: Seq<u8>)
    requires
        s.len() == 8,
    ensures
        be64(from_be64(s)) == s,
{
    let (b0, b1, b2, b3, b4, b5, b6, b7) = (s[0], s[1], s[2], s[3], s[4], s[5], s[6], s[7]);
    let x = from_be64(s);
    assert(x == (b0 as u64) << 56u64 | (b1 as u64) << 48u64 | (b2 as u64) << 40u64 | (b3 as u64)
        << 32u64 | (b4 as u64) << 24u64 | (b5 as u64) << 16u64 | (b6 as u64) << 8u64 | (
    b7 as u64));
    assert({
        let y = (b0 as u64) << 56u64 | (b1 as u64) << 48u64 | (b2 as u64) << 40u64 | (b3 as u64)
            << 32u64 | (b4 as u64) << 24u64 | (b5 as u64) << 16u64 | (b6 as u64) << 8u64 | (
        b7 as u64);
        &&& (y >> 56) as u8 == b0
        &&& (y >> 48) as u8 == b1
        &&& (y >> 40) as u8 == b2
        &&& (y >> 32) as u8 == b3
        &&& (y >> 24) as u8 == b4
        &&& (y >> 16) as u8 == b5
        &&& (y >> 8) as u8 == b6
        &&& y as u8 == b7
    }) by (bit_vector);
    assert(be64(x) =~= s);
}

/// Appends the big-endian bytes of `x` to `buf`.
pub fn push_be16(buf: &mut Vec<u8>, x: u16)
    ensures
        final(buf)@ == old(buf)@ + be16(x),
{
    buf.push((x >> 8) as u8);
    buf.push(x as u8);
    assert(buf@ =~= old(buf)@ + be16(x));
}

/// Appends the big-endian bytes of `x` to `buf`.
pub fn push_be32(buf: &mut Vec<u8>, x: u32)
    ensures
        final(buf)@ == old(buf)@ + be32(x),
{
    buf.push((x >> 24) as u8);
    buf.push((x >> 16) as u8);
    buf.push((x >> 8) as u8);
    buf.push(x as u8);
    assert(buf@ =~= old(buf)@ + be32(x));
}

/// Appends the big-endian bytes of `x` to `buf`.
pub fn push_be64(buf: &mut Vec<u8>, x: u64)
    ensures
        final(buf)@ == old(buf)@ + be64(x),
{
    buf.push((x >> 56) as u8);
    buf.push((x >> 48) as u8);
    buf.push((x >> 40) as u8);
    buf.push((x >> 32) as u8);
    buf.push((x >> 24) as u8);
    buf.push((x >> 16) as u8);
    buf.push((x >> 8) as u8);
    buf.push(x as u8);
    assert(buf@ =~= old(buf)@ + be64(x));
}

/// The number whose big-endian bytes are `s[at..at + 4]`.
pub fn read_be32(s: &[u8], at: usize) -> (r: u32)
    requires
        at + 4 <= s@.len(),
    ensures
        r == from_be32(s@.subrange(at as int, at + 4)),
{
    (s[at] as u32) << 24u32 | (s[at + 1] as u32) << 16u32 | (s[at + 2] as u32) << 8u32 | (s[at
        + 3] as u32)
}

/// The number whose big-endian bytes are `s[at..at + 8]`.
pub fn read_be64(s: &[u8], at: usize) -> (r: u64)
    requires
        at + 8 <= s@.len(),
    ensures
        r == from_be64(s@.subrange(at as int, at + 8)),
{
    (s[at] as u64) << 56u64 | (s[at + 1] as u64) << 48u64 | (s[at + 2] as u64) << 40u64 | (s[at
        + 3] as u64) << 32u64 | (s[at + 4] as u64) << 24u64 | (s[at + 5] as u64) << 16u64 | (s[at
        + 6] as u64) << 8u64 | (s[at + 7] as u64)
}

/// The bytes of a 16-bit number are its base-256 digits, most significant
/// first.
pub proof fn lemma_be16_digits(x: u16)
    ensures
        be16(x).len() == 2,
        be16(x)[0] as int == x as int / 0x100,
        be16(x)[1] as int == x as int % 0x100,
{
    assert((x >> 8) as u8 as u16 == x / 0x100u16 && x as u8 as u16 == x % 0x100u16) by (bit_vector);
}

/// The bytes of a 32-bit number are its base-256 digits, most significant
/// first.
pub proof fn lemma_be32_digits(x: u32)
    ensures
        be32(x).len() == 4,
        be32(x)[0] as int == x as int / 0x100_0000,
        be32(x)[1] as int == x as int / 0x1_0000 % 0x100,
        be32(x)[2] as int == x as int / 0x100 % 0x100,
        be32(x)[3] as int == x as int % 0x100,
{
    assert({
        &&& (x >> 24) as u8 as u32 == x / 0x100_0000u32
        &&& (x >> 16) as u8 as u32 == x / 0x1_0000u32 % 0x100u32
        &&& (x >> 8) as u8 as u32 == x / 0x100u32 % 0x100u32
        &&& x as u8 as u32 == x % 0x100u32
    }) by (bit_vector);
}

/// The bytes of a 64-bit number are its base-256 digits, most significant
/// first.
pub proof fn lemma_be64_digits(x: u64)
    ensures
        be64(x).len() == 8,
        be64(x)[0] as int == x as int / 0x100_0000_0000_0000,
        be64(x)[1] as int == x as int / 0x1_0000_0000_0000 % 0x100,
        be64(x)[2] as int == x as int / 0x100_0000_0000 % 0x100,
        be64(x)[3] as int == x as int / 0x1_0000_0000 % 0x100,
        be64(x)[4] as int == x as int / 0x100_0000 % 0x100,
        be64(x)[5] as int == x as int / 0x1_0000 % 0x100,
        be64(x)[6] as int == x as int / 0x100 % 0x100,
        be64(x)[7] as int == x as int % 0x100,
{
    assert({
        &&& (x >> 56) as u8 as u64 == x / 0x100_0000_0000_0000u64
        &&& (x >> 48) as u8 as u64 == x / 0x1_0000_0000_0000u64 % 0x100u64
        &&& (x >> 40) as u8 as u64 == x / 0x100_0000_0000u64 % 0x100u64
        &&& (x >> 32) as u8 as u64 == x / 0x1_0000_0000u64 % 0x100u64
        &&& (x >> 24) as u8 as u64 == x / 0x100_0000u64 % 0x100u64
        &&& (x >> 16) as u8 as u64 == x / 0x1_0000u64 % 0x100u64
        &&& (x >> 8) as u8 as u64 == x / 0x100u64 % 0x100u64
        &&& x as u8 as u64 == x % 0x100u64
    }) by (bit_vector);
}

} // verus!
