//! The binary frame that Knot carries between local applications and peers.
//!
//! On the wire a frame is a 24-byte header followed by the payload:
//! version (1 byte), target (1 byte), peer id (8 bytes), app id (8 bytes),
//! payload length (4 bytes), two reserved zero bytes; every number in
//! network order.
use crate::buffers::bytes_as_slice;
use crate::buffers::bytes_from_vec;
use crate::buffers::bytes_mut_advance;
use crate::buffers::bytes_mut_as_slice;
use crate::buffers::bytes_mut_freeze;
use crate::buffers::bytes_mut_view;
use crate::buffers::bytes_slice;
use crate::buffers::bytes_view;
use crate::wire::be16;
use crate::wire::be32;
use crate::wire::be64;
use crate::wire::from_be32;
use crate::wire::from_be64;
use crate::wire::lemma_be32_roundtrip;
use crate::wire::lemma_be64_roundtrip;
use crate::wire::lemma_from_be32_roundtrip;
use crate::wire::lemma_from_be64_roundtrip;
use crate::wire::push_be16;
use crate::wire::push_be32;
use crate::wire::push_be64;
use crate::wire::read_be32;
use crate::wire::read_be64;
use bytes::Bytes;
use bytes::BytesMut;
use vstd::prelude::*;

verus! {

/// Length of the fixed frame header in bytes.
pub const HEADER_LEN: usize = 24;

/// A frame: routing header fields and the payload bytes.
#[derive(Debug)]
pub struct BinaryFrame {
    pub version: u8,
    pub target: u8,
    pub peer_id: u64,
    pub app_id: u64,
    pub payload: Bytes,
}

/// The mathematical value of a frame: its header fields and payload bytes.
pub struct FrameView {
    pub version: u8,
    pub target: u8,
    pub peer_id: u64,
    pub app_id: u64,
    pub payload: Seq<u8>,
}

impl View for BinaryFrame {
    type V = FrameView;

    open spec fn view(&self) -> FrameView {
        FrameView {
            version: self.version,
            target: self.target,
            peer_id: self.peer_id,
            app_id: self.app_id,
            payload: bytes_view(self.payload),
        }
    }
}

/// The 24 header bytes for the given fields and length field.
pub open spec fn header_spec(version: u8, target: u8, peer_id: u64, app_id: u64, len: u32) -> Seq<
    u8,
> {
    seq![version, target] + be64(peer_id) + be64(app_id) + be32(len) + be16(0)
}

/// The wire form of a frame. The length field holds the payload length
/// truncated to 32 bits.
pub open spec fn encode_spec(f: FrameView) -> Seq<u8> {
    header_spec(f.version, f.target, f.peer_id, f.app_id, f.payload.len() as u32) + f.payload
}

/// The frame whose header fields are read from `h` and whose payload is `payload`.
pub open spec fn fields_spec(h: Seq<u8>, payload: Seq<u8>) -> FrameView {
    FrameView {
        version: h[0],
        target: h[1],
        peer_id: from_be64(h.subrange(2, 10)),
        app_id: from_be64(h.subrange(10, 18)),
        payload: payload,
    }
}

/// The frame read from `s`: header fields from the first 24 bytes, and all
/// the bytes after the header as payload (the length field is not consulted).
pub open spec fn decode_spec(s: Seq<u8>) -> FrameView
    recommends
        s.len() >= 24,
{
    fields_spec(s, s.subrange(24, s.len() as int))
}

/// The payload length that a header announces.
pub open spec fn announced_len(h: Seq<u8>) -> u32
    recommends
        h.len() >= 22,
{
    from_be32(h.subrange(18, 22))
}

impl BinaryFrame {
    /// The wire form of the frame: header, then payload.
    pub fn encode(&self) -> (r: Bytes)
        ensures
            bytes_view(r) == encode_spec(self@),
    {
        let payload = bytes_as_slice(&self.payload);
        let mut buf: Vec<u8> = Vec::new();
        buf.push(self.version);
        buf.push(self.target);
        push_be64(&mut buf, self.peer_id);
        push_be64(&mut buf, self.app_id);
        push_be32(&mut buf, payload.len() as u32);
        push_be16(&mut buf, 0);
        let ghost head = buf@;
        assert(head =~= header_spec(
            self.version,
            self.target,
            self.peer_id,
            self.app_id,
            payload@.len() as u32,
        ));
        buf.extend_from_slice(payload);
        assert(buf@ =~= head + payload@);
        bytes_from_vec(buf)
    }

    /// Reads a frame from a buffer that holds at least a header. All bytes
    /// after the header become the payload; the length field is skipped.
    pub fn decode(buf: BytesMut) -> (r: Self)
        requires
            bytes_mut_view(buf).len() >= HEADER_LEN,
        ensures
            r@ == decode_spec(bytes_mut_view(buf)),
    {
        let mut buf = buf;
        let s = bytes_mut_as_slice(&buf);
        let version = s[0];
        let target = s[1];
        let peer_id = read_be64(s, 2);
        let app_id = read_be64(s, 10);
        bytes_mut_advance(&mut buf, HEADER_LEN);
        let payload = bytes_mut_freeze(buf);
        BinaryFrame { version, target, peer_id, app_id, payload }
    }

    /// Builds a frame from a header already read and the payload that follows it.
    pub fn from_raw(header: &[u8; 24], payload: Bytes) -> (r: Self)
        ensures
            r@ == fields_spec(header@, bytes_view(payload)),
    {
        let h = header.as_slice();
        BinaryFrame {
            version: h[0],
            target: h[1],
            peer_id: read_be64(h, 2),
            app_id: read_be64(h, 10),
            payload,
        }
    }
}

/// The payload length announced by a 24-byte header.
pub fn header_payload_len(header: &[u8; 24]) -> (r: u32)
    ensures
        r == announced_len(header@),
{
    read_be32(header.as_slice(), 18)
}

/// The pieces of an encoded frame: where each field stands.
pub proof fn lemma_encode_layout(f: FrameView)
    ensures
        encode_spec(f).len() == HEADER_LEN + f.payload.len(),
        encode_spec(f)[0] == f.version,
        encode_spec(f)[1] == f.target,
        encode_spec(f).subrange(2, 10) == be64(f.peer_id),
        encode_spec(f).subrange(10, 18) == be64(f.app_id),
        encode_spec(f).subrange(18, 22) == be32(f.payload.len() as u32),
        encode_spec(f)[22] == 0,
        encode_spec(f)[23] == 0,
        encode_spec(f).subrange(0, 24) == header_spec(
            f.version,
            f.target,
            f.peer_id,
            f.app_id,
            f.payload.len() as u32,
        ),
        encode_spec(f).subrange(24, encode_spec(f).len() as int) == f.payload,
{
    let h = header_spec(f.version, f.target, f.peer_id, f.app_id, f.payload.len() as u32);
    let s = encode_spec(f);
    assert(be16(0)[0] == 0 && be16(0)[1] == 0) by (bit_vector);
    assert(h.len() == 24);
    assert(s.subrange(0, 24) =~= h);
    assert(s.subrange(24, s.len() as int) =~= f.payload);
    assert(s.subrange(2, 10) =~= be64(f.peer_id));
    assert(s.subrange(10, 18) =~= be64(f.app_id));
    assert(s.subrange(18, 22) =~= be32(f.payload.len() as u32));
}

/// Decoding the wire form of any frame gives the frame back.
pub proof fn lemma_decode_encode(f: FrameView)
    ensures
        encode_spec(f).len() >= HEADER_LEN,
        decode_spec(encode_spec(f)) == f,
{
    lemma_encode_layout(f);
    lemma_be64_roundtrip(f.peer_id);
    lemma_be64_roundtrip(f.app_id);
}

/// Reading the header of an encoded frame and pairing it with the payload
/// that follows gives the frame back; the header announces the payload
/// length truncated to 32 bits.
pub proof fn lemma_from_raw_encode(f: FrameView)
    ensures
        fields_spec(encode_spec(f).subrange(0, 24), f.payload) == f,
        announced_len(encode_spec(f).subrange(0, 24)) == f.payload.len() as u32,
{
    lemma_encode_layout(f);
    let h = encode_spec(f).subrange(0, 24);
    assert(h.subrange(2, 10) =~= encode_spec(f).subrange(2, 10));
    assert(h.subrange(10, 18) =~= encode_spec(f).subrange(10, 18));
    assert(h.subrange(18, 22) =~= encode_spec(f).subrange(18, 22));
    lemma_be64_roundtrip(f.peer_id);
    lemma_be64_roundtrip(f.app_id);
    lemma_be32_roundtrip(f.payload.len() as u32);
}

/// Re-encoding a decoded buffer gives the buffer back exactly when its
/// reserved bytes are zero and its length field announces the payload
/// length (truncated to 32 bits).
pub proof fn lemma_encode_decode(s: Seq<u8>)
    requires
        s.len() >= HEADER_LEN,
    ensures
        encode_spec(decode_spec(s)) == s <==> (s[22] == 0 && s[23] == 0 && announced_len(s) == (
        s.len() - HEADER_LEN) as u32),
{
    let f = decode_spec(s);
    lemma_encode_layout(f);
    assert(f.payload.len() == s.len() - 24);
    if s[22] == 0 && s[23] == 0 && announced_len(s) == (s.len() - HEADER_LEN) as u32 {
        lemma_from_be64_roundtrip(s.subrange(2, 10));
        lemma_from_be64_roundtrip(s.subrange(10, 18));
        lemma_from_be32_roundtrip(s.subrange(18, 22));
        let e = encode_spec(f);
        assert forall|i: int| 0 <= i < s.len() implies e[i] == s[i] by {
            if 2 <= i < 10 {
                assert(e.subrange(2, 10)[i - 2] == s.subrange(2, 10)[i - 2]);
            } else if 10 <= i < 18 {
                assert(e.subrange(10, 18)[i - 10] == s.subrange(10, 18)[i - 10]);
            } else if 18 <= i < 22 {
                assert(e.subrange(18, 22)[i - 18] == s.subrange(18, 22)[i - 18]);
            } else if 24 <= i {
                assert(e.subrange(24, e.len() as int)[i - 24] == s.subrange(24, s.len() as int)[i
                    - 24]);
            }
        }
        assert(e =~= s);
    } else {
        let e = encode_spec(f);
        if e == s {
            assert(e.subrange(18, 22) == s.subrange(18, 22));
            lemma_be32_roundtrip(f.payload.len() as u32);
        }
    }
}

/// The frames read one after another from a byte stream, as a reader that
/// takes a 24-byte header and then as many payload bytes as the header
/// announces does: reading stops at the first frame cut short.
#[verifier::opaque]
pub open spec fn stream_frames(s: Seq<u8>) -> Seq<FrameView>
    decreases s.len(),
{
    if s.len() < HEADER_LEN {
        Seq::empty()
    } else {
        let n = announced_len(s) as int;
        if s.len() < HEADER_LEN + n {
            Seq::empty()
        } else {
            seq![fields_spec(s.subrange(0, 24), s.subrange(24, 24 + n))] + stream_frames(
                s.subrange(24 + n, s.len() as int),
            )
        }
    }
}

/// The wire forms of several frames, one after another.
pub open spec fn encode_all(fs: Seq<FrameView>) -> Seq<u8>
    decreases fs.len(),
{
    if fs.len() == 0 {
        Seq::empty()
    } else {
        encode_spec(fs[0]) + encode_all(fs.drop_first())
    }
}

/// Reading a stream that holds at least one whole frame: that frame first,
/// then what the bytes after it read.
pub proof fn lemma_stream_unfold(s: Seq<u8>)
    requires
        s.len() >= HEADER_LEN,
        s.len() >= HEADER_LEN + announced_len(s),
    ensures
        stream_frames(s) == seq![
            fields_spec(s.subrange(0, 24), s.subrange(24, 24 + announced_len(s) as int)),
        ] + stream_frames(s.subrange(24 + announced_len(s) as int, s.len() as int)),
{
    reveal(stream_frames);
}

/// The mathematical values of some frames, in order.
pub open spec fn frame_views(fs: Seq<BinaryFrame>) -> Seq<FrameView> {
    fs.map_values(|f: BinaryFrame| f@)
}

/// The 24 bytes of `s` from `at` on, as a header.
pub fn header_at(s: &[u8], at: usize) -> (h: [u8; 24])
    requires
        at + 24 <= s@.len(),
    ensures
        h@ == s@.subrange(at as int, at + 24),
{
    let h: [u8; 24] = [
        s[at],
        s[at + 1],
        s[at + 2],
        s[at + 3],
        s[at + 4],
        s[at + 5],
        s[at + 6],
        s[at + 7],
        s[at + 8],
        s[at + 9],
        s[at + 10],
        s[at + 11],
        s[at + 12],
        s[at + 13],
        s[at + 14],
        s[at + 15],
        s[at + 16],
        s[at + 17],
        s[at + 18],
        s[at + 19],
        s[at + 20],
        s[at + 21],
        s[at + 22],
        s[at + 23],
    ];
    assert(h@ =~= s@.subrange(at as int, at + 24));
    h
}

/// Reads the whole frames at the front of a buffer of stream bytes, as a
/// reader that takes a header and then the payload it announces does.
/// Returns the frames and the number of bytes they take; the bytes after
/// them hold no whole frame. Splitting them off leaves what the whole
/// stream reads unchanged, whatever bytes follow later.
pub fn split_frames(buf: &Bytes) -> (r: (Vec<BinaryFrame>, usize))
    ensures
        r.1 <= bytes_view(*buf).len(),
        frame_views(r.0@) == stream_frames(bytes_view(*buf)),
        stream_frames(bytes_view(*buf).subrange(r.1 as int, bytes_view(*buf).len() as int))
            == Seq::<FrameView>::empty(),
        forall|x: Seq<u8>|
            #[trigger] stream_frames(bytes_view(*buf) + x) == frame_views(r.0@) + stream_frames(
                bytes_view(*buf).subrange(r.1 as int, bytes_view(*buf).len() as int) + x,
            ),
{
    let ghost v = bytes_view(*buf);
    let s = bytes_as_slice(buf);
    let len = s.len();
    let mut frames: Vec<BinaryFrame> = Vec::new();
    let mut at: usize = 0;
    proof {
        assert forall|x: Seq<u8>| #[trigger] stream_frames(v + x) == frame_views(frames@)
            + stream_frames(v.subrange(at as int, len as int) + x) by {
            assert(v.subrange(0, len as int) =~= v);
            assert(frame_views(frames@) =~= Seq::<FrameView>::empty());
            assert(frame_views(frames@) + stream_frames(v + x) =~= stream_frames(v + x));
        }
    }
    loop
        invariant
            at <= len,
            len == v.len(),
            s@ == v,
            v == bytes_view(*buf),
            forall|x: Seq<u8>| #[trigger] stream_frames(v + x) == frame_views(frames@)
                + stream_frames(v.subrange(at as int, len as int) + x),
        ensures
            at <= len,
            stream_frames(v.subrange(at as int, len as int)) == Seq::<FrameView>::empty(),
            forall|x: Seq<u8>| #[trigger] stream_frames(v + x) == frame_views(frames@)
                + stream_frames(v.subrange(at as int, len as int) + x),
        decreases len - at,
    {
        if len - at < HEADER_LEN {
            proof {
                lemma_cut_short_reads_nothing(v.subrange(at as int, len as int));
            }
            break;
        }
        let header = header_at(s, at);
        let n = header_payload_len(&header) as usize;
        proof {
            let r0 = v.subrange(at as int, len as int);
            assert(r0.subrange(18, 22) =~= header@.subrange(18, 22));
            assert(announced_len(r0) as int == n);
        }
        if len - at - HEADER_LEN < n {
            proof {
                lemma_cut_short_reads_nothing(v.subrange(at as int, len as int));
            }
            break;
        }
        let payload = bytes_slice(buf, at + 24, at + 24 + n);
        let frame = BinaryFrame::from_raw(&header, payload);
        proof {
            assert forall|x: Seq<u8>| #[trigger] stream_frames(v + x) == frame_views(
                frames@.push(frame),
            ) + stream_frames(v.subrange(at + 24 + n, len as int) + x) by {
                let r = v.subrange(at as int, len as int) + x;
                assert(r.subrange(0, 24) =~= header@);
                assert(r.subrange(18, 22) =~= header@.subrange(18, 22));
                assert(announced_len(r) as int == n);
                lemma_stream_unfold(r);
                assert(r.subrange(24, 24 + n) =~= bytes_view(payload));
                assert(r.subrange(24 + n, r.len() as int) =~= v.subrange(at + 24 + n, len as int)
                    + x);
                assert(frame_views(frames@.push(frame)) =~= frame_views(frames@) + seq![frame@]);
            }
        }
        frames.push(frame);
        at = at + 24 + n;
    }
    proof {
        assert(v + Seq::<u8>::empty() =~= v);
        assert(v.subrange(at as int, len as int) + Seq::<u8>::empty() =~= v.subrange(
            at as int,
            len as int,
        ));
        assert(stream_frames(v + Seq::<u8>::empty()) == frame_views(frames@) + stream_frames(
            v.subrange(at as int, len as int) + Seq::<u8>::empty(),
        ));
        assert(frame_views(frames@) + Seq::<FrameView>::empty() =~= frame_views(frames@));
    }
    (frames, at)
}

/// A stream that holds no whole frame, because its header or its payload
/// is cut short, reads as no frame.
pub proof fn lemma_cut_short_reads_nothing(s: Seq<u8>)
    requires
        s.len() < HEADER_LEN || s.len() < HEADER_LEN + announced_len(s),
    ensures
        stream_frames(s) == Seq::<FrameView>::empty(),
{
    reveal(stream_frames);
}

/// A header and payload that fit: 24 header bytes whose length field
/// announces exactly the payload's length.
pub open spec fn well_framed(header: Seq<u8>, payload: Seq<u8>) -> bool {
    header.len() == HEADER_LEN && announced_len(header) as int == payload.len()
}

/// Headers and payloads written one after another.
pub open spec fn join_parts(parts: Seq<(Seq<u8>, Seq<u8>)>) -> Seq<u8>
    decreases parts.len(),
{
    if parts.len() == 0 {
        Seq::empty()
    } else {
        parts[0].0 + parts[0].1 + join_parts(parts.drop_first())
    }
}

/// The frames that headers and payloads stand for, one for each.
pub open spec fn frames_of_parts(parts: Seq<(Seq<u8>, Seq<u8>)>) -> Seq<FrameView> {
    parts.map_values(|p: (Seq<u8>, Seq<u8>)| fields_spec(p.0, p.1))
}

/// Reading a stream that starts with a fitting header and payload gives
/// their frame first, then what the rest of the stream gives.
pub proof fn lemma_stream_step(header: Seq<u8>, payload: Seq<u8>, after: Seq<u8>)
    requires
        well_framed(header, payload),
    ensures
        stream_frames(header + payload + after) == seq![fields_spec(header, payload)]
            + stream_frames(after),
{
    reveal(stream_frames);
    let s = header + payload + after;
    let n = payload.len() as int;
    assert(s.subrange(0, 24) =~= header);
    assert(s.subrange(18, 22) =~= header.subrange(18, 22));
    assert(announced_len(s) as int == n);
    assert(s.subrange(24, 24 + n) =~= payload);
    assert(s.subrange(24 + n, s.len() as int) =~= after);
}

/// Any run of fitting headers and payloads, followed by a tail that holds
/// no whole frame, reads back as exactly their frames, in order, each
/// payload exactly its own bytes.
pub proof fn lemma_stream_reads_parts(parts: Seq<(Seq<u8>, Seq<u8>)>, tail: Seq<u8>)
    requires
        forall|i: int| 0 <= i < parts.len() ==> well_framed(#[trigger] parts[i].0, parts[i].1),
        stream_frames(tail) == Seq::<FrameView>::empty(),
    ensures
        stream_frames(join_parts(parts) + tail) == frames_of_parts(parts),
    decreases parts.len(),
{
    if parts.len() == 0 {
        assert(join_parts(parts) + tail =~= tail);
        assert(frames_of_parts(parts) =~= Seq::<FrameView>::empty());
    } else {
        let rest = parts.drop_first();
        assert forall|i: int| 0 <= i < rest.len() implies well_framed(
            #[trigger] rest[i].0,
            rest[i].1,
        ) by {
            assert(rest[i] == parts[i + 1]);
        }
        lemma_stream_reads_parts(rest, tail);
        let after = join_parts(rest) + tail;
        assert(join_parts(parts) + tail =~= parts[0].0 + parts[0].1 + after);
        assert(well_framed(parts[0].0, parts[0].1));
        lemma_stream_step(parts[0].0, parts[0].1, after);
        assert(frames_of_parts(parts) =~= seq![fields_spec(parts[0].0, parts[0].1)]
            + frames_of_parts(rest));
    }
}

/// The wire form of a frame whose payload is shorter than 2^32 bytes is a
/// fitting header followed by the payload, and they stand for the frame.
pub proof fn lemma_encode_is_well_framed(f: FrameView)
    requires
        f.payload.len() < 0x1_0000_0000,
    ensures
        well_framed(encode_spec(f).subrange(0, 24), f.payload),
        encode_spec(f) == encode_spec(f).subrange(0, 24) + f.payload,
        fields_spec(encode_spec(f).subrange(0, 24), f.payload) == f,
{
    lemma_encode_layout(f);
    lemma_from_raw_encode(f);
    assert(encode_spec(f) =~= encode_spec(f).subrange(0, 24) + f.payload);
}

/// A stream of encoded frames, followed by a tail that holds no whole
/// frame, reads back as exactly those frames, in order, each with its own
/// payload (for payloads shorter than 2^32 bytes).
pub proof fn lemma_stream_of_frames(fs: Seq<FrameView>, tail: Seq<u8>)
    requires
        forall|i: int| 0 <= i < fs.len() ==> #[trigger] fs[i].payload.len() < 0x1_0000_0000,
        stream_frames(tail) == Seq::<FrameView>::empty(),
    ensures
        stream_frames(encode_all(fs) + tail) == fs,
    decreases fs.len(),
{
    if fs.len() == 0 {
        assert(encode_all(fs) + tail =~= tail);
        assert(fs =~= Seq::<FrameView>::empty());
    } else {
        let f = fs[0];
        let rest = fs.drop_first();
        assert forall|i: int| 0 <= i < rest.len() implies #[trigger] rest[i].payload.len()
            < 0x1_0000_0000 by {
            assert(rest[i] == fs[i + 1]);
        }
        lemma_stream_of_frames(rest, tail);
        let after = encode_all(rest) + tail;
        assert(stream_frames(encode_all(fs) + tail) == seq![f] + stream_frames(after)) by {
            let e = encode_spec(f);
            let header = e.subrange(0, 24);
            lemma_encode_is_well_framed(f);
            assert(encode_all(fs) + tail =~= header + f.payload + after);
            lemma_stream_step(header, f.payload, after);
        }
        assert(seq![f] + rest =~= fs);
    }
}

} // verus!
