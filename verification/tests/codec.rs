use bytes::Bytes;
use knot::codec::{FrameCodec, FrameRequest, FrameResponse};

#[test]
fn request_prefix_is_big_endian_length() {
    let req = FrameRequest { raw: Bytes::from(vec![7u8; 300]) };
    assert_eq!(FrameCodec::request_prefix(&req), [0, 0, 1, 44]);
}

#[test]
fn request_len_reads_prefix() {
    assert_eq!(FrameCodec::request_len([0, 0, 1, 0]), 256);
    assert_eq!(FrameCodec::request_len([1, 2, 3, 4]), 0x0102_0304);
}

#[test]
fn request_prefix_roundtrip() {
    let req = FrameRequest { raw: Bytes::from(vec![1u8; 70000]) };
    assert_eq!(FrameCodec::request_len(FrameCodec::request_prefix(&req)), 70000);
}

#[test]
fn request_from_body_keeps_bytes() {
    let req = FrameCodec::request_from_body(vec![4, 5, 6]);
    assert_eq!(&req.raw[..], &[4, 5, 6]);
}

#[test]
fn response_bytes() {
    assert_eq!(FrameCodec::response_byte(&FrameResponse { ok: true }), 1);
    assert_eq!(FrameCodec::response_byte(&FrameResponse { ok: false }), 0);
    assert!(FrameCodec::response_from_byte(1).ok);
    assert!(!FrameCodec::response_from_byte(0).ok);
    assert!(!FrameCodec::response_from_byte(2).ok);
}
