use bytes::{Bytes, BytesMut};
use knot::controller::{core_step, CoreAction, KnotMessage};
use knot::framing::BinaryFrame;
use knot::ingress::{Delivery, IngressCommand, Registry};
use knot::swarm::{NetworkCommand, NetworkResponse};
use knot::tou64::peer_id_to_u64;
use libp2p::PeerId;

fn a_peer() -> PeerId {
    libp2p::identity::Keypair::generate_ed25519().public().to_peer_id()
}

fn frame(peer_id: u64, app_id: u64) -> BinaryFrame {
    BinaryFrame { version: 1, target: 4, peer_id, app_id, payload: Bytes::from_static(b"data") }
}

#[test]
fn client_frame_goes_to_its_peer() {
    let f = frame(77, 3);
    let wire = f.encode();
    match core_step(KnotMessage::ClientData { from_ip: "x".into(), frame: f }) {
        CoreAction::ToNetwork(NetworkCommand::SendFrame { target_u64, frame }) => {
            assert_eq!(target_u64, 77);
            assert_eq!(frame, wire);
        }
        _ => panic!("expected send"),
    }
}

#[test]
fn app_zero_frame_is_echoed_with_app_one() {
    let peer = a_peer();
    match core_step(KnotMessage::NetworkData { peer, frame: frame(5, 0) }) {
        CoreAction::ToNetwork(NetworkCommand::SendFrame { target_u64, frame }) => {
            assert_eq!(target_u64, peer_id_to_u64(&peer));
            let back = BinaryFrame::decode(BytesMut::from(&frame[..]));
            assert_eq!((back.app_id, back.peer_id), (1, 5));
            assert_eq!(&back.payload[..], b"data");
        }
        _ => panic!("expected echo"),
    }
}

#[test]
fn peer_frame_reaches_registered_app() {
    let peer = a_peer();
    let mut reg = Registry::new();
    reg.register(3, 7000);
    match core_step(KnotMessage::NetworkData { peer, frame: frame(5, 3) }) {
        CoreAction::ToIngress(IngressCommand::SendFrameToClient { frame }) => {
            let back = BinaryFrame::decode(BytesMut::from(&frame[..]));
            assert_eq!(back.peer_id, peer_id_to_u64(&peer));
            match reg.deliver(&frame) {
                Delivery::Forward { port, payload } => {
                    assert_eq!(port, 7000);
                    assert_eq!(&payload[..], b"data");
                }
                _ => panic!("expected forward"),
            }
        }
        _ => panic!("expected ingress"),
    }
}

#[test]
fn other_messages() {
    assert!(matches!(core_step(KnotMessage::Shutdown), CoreAction::Stop));
    assert!(matches!(
        core_step(KnotMessage::NetworkResponse(NetworkResponse::CommandAccepted)),
        CoreAction::Idle
    ));
    match core_step(KnotMessage::Log("hello".into())) {
        CoreAction::Log(m) => assert_eq!(m, "hello"),
        _ => panic!("expected log"),
    }
    match core_step(KnotMessage::NetworkResponse(NetworkResponse::PeersList(vec![]))) {
        CoreAction::ShowPeers(l) => assert!(l.is_empty()),
        _ => panic!("expected peers"),
    }
    let peer = a_peer();
    let (tx, _rx) = tokio::sync::oneshot::channel::<String>();
    match core_step(KnotMessage::DiscoverNetwork { peerid: peer, return_tx: tx }) {
        CoreAction::ToNetwork(NetworkCommand::LookupPeer(p, _)) => assert_eq!(p, peer),
        _ => panic!("expected lookup"),
    }
}
