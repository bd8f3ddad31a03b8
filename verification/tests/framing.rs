use bytes::{Bytes, BytesMut};
use knot::framing::{header_payload_len, split_frames, BinaryFrame};

fn sample() -> BinaryFrame {
    BinaryFrame {
        version: 1,
        target: 2,
        peer_id: 0x0102_0304_0506_0708,
        app_id: 0x1112_1314_1516_1718,
        payload: Bytes::from(vec![0xAA, 0xBB, 0xCC]),
    }
}

fn sample_wire() -> Vec<u8> {
    vec![
        1, 2, 1, 2, 3, 4, 5, 6, 7, 8, 0x11, 0x12, 0x13, 0x14, 0x15, 0x16, 0x17, 0x18, 0, 0, 0, 3,
        0, 0, 0xAA, 0xBB, 0xCC,
    ]
}

#[test]
fn encode_writes_header_then_payload() {
    assert_eq!(sample().encode().to_vec(), sample_wire());
}

#[test]
fn encode_empty_payload_is_just_a_header() {
    let f = BinaryFrame { version: 0, target: 0, peer_id: 0, app_id: 0, payload: Bytes::new() };
    assert_eq!(f.encode().to_vec(), vec![0u8; 24]);
}

#[test]
fn decode_reads_fields() {
    let f = BinaryFrame::decode(BytesMut::from(&sample_wire()[..]));
    assert_eq!(f.version, 1);
    assert_eq!(f.target, 2);
    assert_eq!(f.peer_id, 0x0102_0304_0506_0708);
    assert_eq!(f.app_id, 0x1112_1314_1516_1718);
    assert_eq!(&f.payload[..], &[0xAA, 0xBB, 0xCC]);
}

#[test]
fn decode_ignores_length_field() {
    let mut wire = sample_wire();
    wire[21] = 99;
    wire.push(0xDD);
    let f = BinaryFrame::decode(BytesMut::from(&wire[..]));
    assert_eq!(&f.payload[..], &[0xAA, 0xBB, 0xCC, 0xDD]);
}

#[test]
fn decode_of_encode_roundtrip() {
    let f = sample();
    let g = BinaryFrame::decode(BytesMut::from(&f.encode()[..]));
    assert_eq!((g.version, g.target, g.peer_id, g.app_id), (f.version, f.target, f.peer_id, f.app_id));
    assert_eq!(g.payload, f.payload);
}

#[test]
fn from_raw_of_encode_roundtrip() {
    let wire = sample().encode();
    let mut header = [0u8; 24];
    header.copy_from_slice(&wire[..24]);
    assert_eq!(header_payload_len(&header), 3);
    let g = BinaryFrame::from_raw(&header, wire.slice(24..));
    assert_eq!(g.peer_id, 0x0102_0304_0506_0708);
    assert_eq!(g.app_id, 0x1112_1314_1516_1718);
    assert_eq!(&g.payload[..], &[0xAA, 0xBB, 0xCC]);
}

#[test]
fn encode_of_decode_restores_buffer() {
    let wire = sample_wire();
    let f = BinaryFrame::decode(BytesMut::from(&wire[..]));
    assert_eq!(f.encode().to_vec(), wire);
}

#[test]
fn stream_of_frames_reads_back_in_order() {
    let a = sample();
    let b = BinaryFrame { version: 3, target: 0, peer_id: 9, app_id: 4, payload: Bytes::new() };
    let mut stream = a.encode().to_vec();
    stream.extend_from_slice(&b.encode());
    stream.extend_from_slice(&[1, 2, 3]);
    let mut frames = Vec::new();
    let mut at = 0;
    while stream.len() - at >= 24 {
        let mut header = [0u8; 24];
        header.copy_from_slice(&stream[at..at + 24]);
        let len = header_payload_len(&header) as usize;
        if stream.len() - at - 24 < len {
            break;
        }
        let payload = Bytes::copy_from_slice(&stream[at + 24..at + 24 + len]);
        frames.push(BinaryFrame::from_raw(&header, payload));
        at += 24 + len;
    }
    assert_eq!(frames.len(), 2);
    assert_eq!(&frames[0].payload[..], &[0xAA, 0xBB, 0xCC]);
    assert_eq!((frames[1].version, frames[1].app_id), (3, 4));
    assert!(frames[1].payload.is_empty());
}

#[test]
fn split_frames_takes_whole_frames_only() {
    let a = sample();
    let b = BinaryFrame { version: 3, target: 0, peer_id: 9, app_id: 4, payload: Bytes::new() };
    let mut stream = a.encode().to_vec();
    stream.extend_from_slice(&b.encode());
    let whole = stream.len();
    stream.extend_from_slice(&sample_wire()[..26]);
    let (frames, used) = split_frames(&Bytes::from(stream));
    assert_eq!(used, whole);
    assert_eq!(frames.len(), 2);
    assert_eq!(&frames[0].payload[..], &[0xAA, 0xBB, 0xCC]);
    assert_eq!((frames[1].version, frames[1].app_id), (3, 4));
    let (none, zero) = split_frames(&Bytes::from(vec![0u8; 10]));
    assert!(none.is_empty());
    assert_eq!(zero, 0);
}
