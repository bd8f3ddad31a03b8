use std::hash::{Hash, Hasher};

use knot::tou64::{digest_tail_to_u64, peer_id_to_u64, string_to_u64_rust};

#[test]
fn tail_of_long_digest() {
    let bytes = [9u8, 9, 1, 2, 3, 4, 5, 6, 7, 8];
    assert_eq!(digest_tail_to_u64(&bytes), 0x0102_0304_0506_0708);
}

#[test]
fn tail_of_short_digest_is_padded_right() {
    assert_eq!(digest_tail_to_u64(&[1, 2, 3]), 0x0102_0300_0000_0000);
}

#[test]
fn tail_of_empty_digest_is_zero() {
    assert_eq!(digest_tail_to_u64(&[]), 0);
}

#[test]
fn peer_id_uses_last_eight_identity_bytes() {
    let peer = libp2p::identity::Keypair::generate_ed25519().public().to_peer_id();
    let bytes = peer.to_bytes();
    let mut last = [0u8; 8];
    last.copy_from_slice(&bytes[bytes.len() - 8..]);
    assert_eq!(peer_id_to_u64(&peer), u64::from_be_bytes(last));
}

#[test]
fn string_hash_matches_default_hasher() {
    let mut h = std::collections::hash_map::DefaultHasher::new();
    "chat".hash(&mut h);
    assert_eq!(string_to_u64_rust("chat"), h.finish());
}

#[test]
fn string_hash_is_stable_and_separates_names() {
    assert_eq!(string_to_u64_rust("files"), string_to_u64_rust("files"));
    assert_ne!(string_to_u64_rust("files"), string_to_u64_rust("chat"));
}
