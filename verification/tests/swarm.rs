use bytes::Bytes;
use knot::codec::FrameRequest;
use knot::controller::KnotMessage;
use knot::framing::BinaryFrame;
use knot::swarm::{
    identity_from_file, inbound_frame, quic_listen_address, quic_listen_multiaddr, receive_frame,
    tcp_listen_address, tcp_listen_multiaddr, PeerTable,
    PendingRelays,
};
use knot::tou64::peer_id_to_u64;
use libp2p::{Multiaddr, PeerId};

fn a_peer() -> PeerId {
    libp2p::identity::Keypair::generate_ed25519().public().to_peer_id()
}

fn addr(s: &str) -> Multiaddr {
    s.parse().unwrap()
}

#[test]
fn table_appends_addresses_per_peer() {
    let (a, b) = (a_peer(), a_peer());
    let mut t = PeerTable::new();
    t.add_address(a, addr("/ip4/1.1.1.1/tcp/1"));
    t.add_address(b, addr("/ip4/2.2.2.2/tcp/2"));
    t.add_address(a, addr("/ip4/1.1.1.1/tcp/3"));
    assert_eq!(t.len(), 2);
    let e = t.entries();
    assert_eq!(e[0].0, a);
    assert_eq!(e[0].1, vec![addr("/ip4/1.1.1.1/tcp/1"), addr("/ip4/1.1.1.1/tcp/3")]);
    assert_eq!(e[1].0, b);
}

#[test]
fn identify_bootstraps_on_first_peer_only() {
    let mut t = PeerTable::new();
    let addrs = vec![addr("/ip4/1.1.1.1/tcp/1"), addr("/ip4/1.1.1.1/udp/1/quic-v1")];
    assert!(t.record_identify(a_peer(), &addrs));
    assert_eq!(t.entries()[0].1.len(), 2);
    assert!(!t.record_identify(a_peer(), &addrs));
    assert!(!t.record_identify(a_peer(), &vec![]));
}

#[test]
fn route_finds_peer_by_routing_id() {
    let (a, b) = (a_peer(), a_peer());
    let mut t = PeerTable::new();
    t.add_address(a, addr("/ip4/1.1.1.1/tcp/1"));
    t.add_address(b, addr("/ip4/2.2.2.2/tcp/2"));
    assert_eq!(t.route(peer_id_to_u64(&b)), Some(b));
    let raw = Bytes::from_static(b"frame");
    match t.route_frame(peer_id_to_u64(&a), raw.clone()) {
        Some((p, req)) => {
            assert_eq!(p, a);
            assert_eq!(req.raw, raw);
        }
        None => panic!("expected route"),
    }
    let unknown = peer_id_to_u64(&a_peer());
    assert_eq!(t.route(unknown), None);
    assert!(t.route_frame(unknown, raw).is_none());
}

#[test]
fn relay_circuit_taken_once() {
    let relay = a_peer();
    let relay_addr = addr("/ip4/3.3.3.3/tcp/4001");
    let mut p = PendingRelays::new();
    p.connect_relay(&relay_addr, relay);
    let circuit = p.take(&relay).expect("waited for");
    assert_eq!(circuit.to_string(), format!("/ip4/3.3.3.3/tcp/4001/p2p/{}/p2p-circuit", relay));
    assert!(p.take(&relay).is_none());
}

#[test]
fn relay_expect_replaces() {
    let relay = a_peer();
    let mut p = PendingRelays::new();
    p.expect(relay, addr("/ip4/1.1.1.1/tcp/1"));
    p.expect(relay, addr("/ip4/2.2.2.2/tcp/2"));
    assert_eq!(p.take(&relay), Some(addr("/ip4/2.2.2.2/tcp/2")));
    assert!(p.take(&a_peer()).is_none());
}

#[test]
fn inbound_frame_needs_header() {
    assert!(inbound_frame(&Bytes::from(vec![0u8; 23])).is_none());
    let f = BinaryFrame { version: 2, target: 1, peer_id: 9, app_id: 8, payload: Bytes::from_static(b"xyz") };
    let g = inbound_frame(&f.encode()).expect("frame");
    assert_eq!((g.version, g.target, g.peer_id, g.app_id), (2, 1, 9, 8));
    assert_eq!(&g.payload[..], b"xyz");
}

#[test]
fn receive_frame_wraps_for_hub() {
    let peer = a_peer();
    let f = BinaryFrame { version: 2, target: 1, peer_id: 9, app_id: 8, payload: Bytes::new() };
    match receive_frame(peer, &FrameRequest { raw: f.encode() }) {
        Some(KnotMessage::NetworkData { peer: p, frame }) => {
            assert_eq!(p, peer);
            assert_eq!(frame.app_id, 8);
        }
        _ => panic!("expected data"),
    }
    assert!(receive_frame(peer, &FrameRequest { raw: Bytes::from_static(b"short") }).is_none());
}

#[test]
fn listen_addresses() {
    assert_eq!(tcp_listen_address(4001), "/ip4/0.0.0.0/tcp/4001");
    assert_eq!(quic_listen_address(0), "/ip4/0.0.0.0/udp/0/quic-v1");
}

#[test]
fn identity_file_roundtrip_and_corruption() {
    let key = libp2p::identity::Keypair::generate_ed25519();
    let bytes = key.to_protobuf_encoding().unwrap();
    let back = identity_from_file(&bytes).expect("valid identity");
    assert_eq!(back.public().to_peer_id(), key.public().to_peer_id());
    let expected = libp2p::identity::Keypair::from_protobuf_encoding(&[1, 2, 3]).unwrap_err().to_string();
    assert_eq!(identity_from_file(&[1, 2, 3]).unwrap_err(), expected);
}

#[test]
fn listen_multiaddrs_parse() {
    assert_eq!(tcp_listen_multiaddr(4001).unwrap(), addr("/ip4/0.0.0.0/tcp/4001"));
    assert_eq!(quic_listen_multiaddr(7).unwrap(), addr("/ip4/0.0.0.0/udp/7/quic-v1"));
}
