//! The request/response protocol that carries frames between peers.
//!
//! A request is the raw frame bytes preceded by their length as a 4-byte
//! big-endian number; a response is a single byte, 1 for "accepted".
use crate::buffers::bytes_from_vec;
use crate::buffers::bytes_len;
use crate::buffers::bytes_view;
use crate::wire::be32;
use crate::wire::from_be32;
use crate::wire::lemma_be32_roundtrip;
use bytes::Bytes;
use vstd::prelude::*;

verus! {

/// A frame sent to a peer, as raw wire bytes.
#[derive(Debug, Clone)]
pub struct FrameRequest {
    pub raw: Bytes,
}

/// A peer's acknowledgement of a frame.
#[derive(Debug, Clone, Copy)]
pub struct FrameResponse {
    pub ok: bool,
}

/// The codec of the frame protocol.
#[derive(Debug, Clone, Copy, Default)]
pub struct FrameCodec;

/// The 4-byte length prefix written before a request body of `len` bytes
/// (the length truncated to 32 bits).
pub open spec fn request_prefix_spec(len: nat) -> Seq<u8> {
    be32(len as u32)
}

/// The byte written for a response.
pub open spec fn response_byte_spec(ok: bool) -> u8 {
    if ok {
        1
    } else {
        0
    }
}

impl FrameCodec {
    /// The length prefix to write before the request's raw bytes.
    pub fn request_prefix(req: &FrameRequest) -> (r: [u8; 4])
        ensures
            r@ == request_prefix_spec(bytes_view(req.raw).len()),
    {
        let len = bytes_len(&req.raw) as u32;
        let r = [(len >> 24) as u8, (len >> 16) as u8, (len >> 8) as u8, len as u8];
        assert(r@ =~= be32(len));
        r
    }

    /// The number of body bytes announced by a length prefix that was read.
    pub fn request_len(prefix: [u8; 4]) -> (r: usize)
        ensures
            r == from_be32(prefix@),
    {
        let x: u32 = (prefix[0] as u32) << 24u32 | (prefix[1] as u32) << 16u32 | (prefix[2] as u32)
            << 8u32 | (prefix[3] as u32);
        x as usize
    }

    /// The request made of a body that was read.
    pub fn request_from_body(body: Vec<u8>) -> (r: FrameRequest)
        ensures
            bytes_view(r.raw) == body@,
    {
        FrameRequest { raw: bytes_from_vec(body) }
    }

    /// The byte to write for a response: 1 when accepted, else 0.
    pub fn response_byte(res: &FrameResponse) -> (r: u8)
        ensures
            r == response_byte_spec(res.ok),
    {
        if res.ok {
            1
        } else {
            0
        }
    }

    /// The response that a byte read stands for: accepted exactly when it is 1.
    pub fn response_from_byte(b: u8) -> (r: FrameResponse)
        ensures
            r.ok == (b == 1),
    {
        FrameResponse { ok: b == 1 }
    }
}

/// Reading back the length prefix of a request body gives the body's length,
/// for any body shorter than 2^32 bytes.
pub proof fn lemma_request_prefix_roundtrip(len: nat)
    requires
        len < 0x1_0000_0000,
    ensures
        request_prefix_spec(len).len() == 4,
        from_be32(request_prefix_spec(len)) == len,
{
    lemma_be32_roundtrip(len as u32);
}

/// Reading back the byte written for a response gives the response.
pub proof fn lemma_response_roundtrip(ok: bool)
    ensures
        (response_byte_spec(ok) == 1) == ok,
{
}

} // verus!
