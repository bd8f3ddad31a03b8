use bytes::Bytes;
use knot::controller::KnotMessage;
use knot::framing::BinaryFrame;
use knot::ingress::{
    app_socket_path, binary_socket_path, discover_reply, loopback_address, managed_socket_path,
    managed_step, peer_id_reply, peers_reply, CentralEvent, Delivery, ManagedAction, Message,
    Registry, ResponseTcp,
};
use libp2p::{Multiaddr, PeerId};

fn parts(r: &ResponseTcp) -> (&str, &str, &str) {
    (r.command.as_str(), r.response.as_str(), r.error.as_str())
}

fn reply_of(a: &ManagedAction) -> &ResponseTcp {
    match a {
        ManagedAction::Reply(r) | ManagedAction::Close(r) => r,
        ManagedAction::Notify { reply, .. } => reply,
        _ => panic!("no reply"),
    }
}

fn frame_bytes(app_id: u64, payload: &[u8]) -> Bytes {
    BinaryFrame { version: 1, target: 0, peer_id: 5, app_id, payload: Bytes::copy_from_slice(payload) }
        .encode()
}

fn a_peer() -> PeerId {
    libp2p::identity::Keypair::generate_ed25519().public().to_peer_id()
}

#[test]
fn command_list_names_all_commands() {
    assert_eq!(
        Message::command_list(),
        vec![
            "version",
            "protocol",
            "getcommands",
            "status",
            "register",
            "connect",
            "discover",
            "connectrelay",
            "getpeers",
            "getpeerid",
            "newappname"
        ]
    );
}

#[test]
fn first_registration_wins() {
    let mut reg = Registry::new();
    assert!(reg.register(7, 4000));
    assert!(!reg.register(7, 5000));
    assert_eq!(reg.port_of(7), Some(4000));
    assert_eq!(reg.port_of(8), None);
}

#[test]
fn deliver_short_frame_stops() {
    let reg = Registry::new();
    assert!(matches!(reg.deliver(&Bytes::from(vec![0u8; 23])), Delivery::TooShort));
}

#[test]
fn deliver_unregistered_app() {
    let reg = Registry::new();
    match reg.deliver(&frame_bytes(9, b"hi")) {
        Delivery::Unregistered { app_id } => assert_eq!(app_id, 9),
        _ => panic!("expected unregistered"),
    }
}

#[test]
fn deliver_forwards_payload_to_port() {
    let mut reg = Registry::new();
    reg.register(9, 6000);
    match reg.deliver(&frame_bytes(9, b"hello")) {
        Delivery::Forward { port, payload } => {
            assert_eq!(port, 6000);
            assert_eq!(&payload[..], b"hello");
        }
        _ => panic!("expected forward"),
    }
}

#[test]
fn central_register_stays_in_ingress() {
    let mut reg = Registry::new();
    assert!(reg.central_step(CentralEvent::Register { app_id: 3, port: 3333 }).is_none());
    assert_eq!(reg.port_of(3), Some(3333));
}

#[test]
fn central_route_binary_goes_to_hub() {
    let mut reg = Registry::new();
    let frame = BinaryFrame { version: 1, target: 0, peer_id: 11, app_id: 2, payload: Bytes::new() };
    match reg.central_step(CentralEvent::RouteBinary { from_ip: "local".to_string(), frame }) {
        Some(KnotMessage::ClientData { from_ip, frame }) => {
            assert_eq!(from_ip, "local");
            assert_eq!(frame.peer_id, 11);
        }
        _ => panic!("expected client data"),
    }
}

#[test]
fn central_connect_goes_to_hub() {
    let mut reg = Registry::new();
    let addr: Multiaddr = "/ip4/10.0.0.1/tcp/4001".parse().unwrap();
    match reg.central_step(CentralEvent::Connect { addr: addr.clone() }) {
        Some(KnotMessage::ConnectToNetwork { addr: a }) => assert_eq!(a, addr),
        _ => panic!("expected connect"),
    }
}

#[test]
fn managed_simple_replies() {
    assert_eq!(parts(reply_of(&managed_step(Message::Version, "0.1.0"))), ("version", "0.1.0", ""));
    assert_eq!(parts(reply_of(&managed_step(Message::Protocol, "x"))), ("protocol", "v0.1.0", ""));
    assert_eq!(parts(reply_of(&managed_step(Message::Status, "x"))), ("status", "OK", ""));
}

#[test]
fn managed_getcommands_lists_json() {
    let a = managed_step(Message::GetCommands, "x");
    assert!(matches!(a, ManagedAction::Reply(_)));
    assert_eq!(
        parts(reply_of(&a)),
        (
            "getcommands",
            "[\"version\",\"protocol\",\"getcommands\",\"status\",\"register\",\"connect\",\"discover\",\"connectrelay\",\"getpeers\",\"getpeerid\",\"newappname\"]",
            ""
        )
    );
}

#[test]
fn managed_register_notifies_and_echoes_id() {
    match managed_step(Message::Register { app_id: 1234567, port: 9000 }, "x") {
        ManagedAction::Notify { event: CentralEvent::Register { app_id, port }, reply } => {
            assert_eq!((app_id, port), (1234567, 9000));
            assert_eq!(parts(&reply), ("register", "1234567", ""));
        }
        _ => panic!("expected notify"),
    }
}

#[test]
fn managed_newappname_registers_hashed_name() {
    let id = knot::tou64::string_to_u64_rust("chat");
    match managed_step(Message::NewAppName { name: "chat".into(), port: 9100 }, "x") {
        ManagedAction::Notify { event: CentralEvent::Register { app_id, port }, reply } => {
            assert_eq!((app_id, port), (id, 9100));
            assert_eq!(parts(&reply), ("newappname", id.to_string().as_str(), ""));
        }
        _ => panic!("expected notify"),
    }
}

#[test]
fn managed_connect_ok() {
    let a = managed_step(Message::Connect { multiaddr: "/ip4/1.2.3.4/tcp/5".into() }, "x");
    assert!(matches!(a, ManagedAction::Notify { event: CentralEvent::Connect { .. }, .. }));
    assert_eq!(parts(reply_of(&a)), ("connect", "OK", ""));
}

#[test]
fn managed_connect_bad_address_closes_with_error() {
    let expected = "nonsense".parse::<Multiaddr>().unwrap_err().to_string();
    let a = managed_step(Message::Connect { multiaddr: "nonsense".into() }, "x");
    assert!(matches!(a, ManagedAction::Close(_)));
    assert_eq!(parts(reply_of(&a)), ("connect", "", expected.as_str()));
}

#[test]
fn managed_connectrelay_errors_and_ok() {
    let good_id = a_peer().to_string();
    let bad_addr = managed_step(
        Message::ConnectRelay { relay_addr: "bad".into(), relay_id: "bad".into() },
        "x",
    );
    let addr_err = "bad".parse::<Multiaddr>().unwrap_err().to_string();
    assert!(matches!(bad_addr, ManagedAction::Close(_)));
    assert_eq!(parts(reply_of(&bad_addr)), ("connectrelay", "", addr_err.as_str()));

    let bad_id = managed_step(
        Message::ConnectRelay { relay_addr: "/ip4/1.2.3.4/tcp/5".into(), relay_id: "bad".into() },
        "x",
    );
    let id_err = "bad".parse::<PeerId>().unwrap_err().to_string();
    assert!(matches!(bad_id, ManagedAction::Close(_)));
    assert_eq!(parts(reply_of(&bad_id)), ("connectrelay", "", id_err.as_str()));

    let ok = managed_step(
        Message::ConnectRelay { relay_addr: "/ip4/1.2.3.4/tcp/5".into(), relay_id: good_id },
        "x",
    );
    assert!(matches!(ok, ManagedAction::Notify { event: CentralEvent::ConnectRelay { .. }, .. }));
    assert_eq!(parts(reply_of(&ok)), ("connectrelay", "OK", ""));
}

#[test]
fn managed_discover() {
    let peer = a_peer();
    match managed_step(Message::Discover { peer_id: peer.to_string() }, "x") {
        ManagedAction::Discover(p) => assert_eq!(p, peer),
        _ => panic!("expected discover"),
    }
    let err = "zz".parse::<PeerId>().unwrap_err().to_string();
    let a = managed_step(Message::Discover { peer_id: "zz".into() }, "x");
    assert!(matches!(a, ManagedAction::Close(_)));
    assert_eq!(parts(reply_of(&a)), ("discover", "", err.as_str()));
}

#[test]
fn managed_queries() {
    assert!(matches!(managed_step(Message::GetPeers, "x"), ManagedAction::AskPeers));
    assert!(matches!(managed_step(Message::GetPeerId, "x"), ManagedAction::AskPeerId));
}

#[test]
fn query_replies() {
    assert_eq!(parts(&discover_reply(Some("a\"b".into()))), ("discover", "\"a\\\"b\"", ""));
    assert_eq!(parts(&discover_reply(None)), ("discover", "", "Core dropped the responder"));
    assert_eq!(parts(&peers_reply(Some("{}".into()))), ("getpeers", "{}", ""));
    assert_eq!(parts(&peers_reply(None)), ("getpeers", "", "Core dropped the responder"));
    let me = a_peer();
    let shown = format!("PeerId(\"{}\")", me.to_base58());
    assert_eq!(parts(&peer_id_reply(Some(me))), ("getpeerid", shown.as_str(), ""));
    assert_eq!(format!("{:?}", me), shown);
    assert_eq!(parts(&peer_id_reply(None)), ("getpeerid", "", "Core dropped the responder"));
}

#[test]
fn endpoint_names() {
    assert_eq!(managed_socket_path(12012), "/tmp/knot_managed_12012.sock");
    assert_eq!(binary_socket_path(12812), "/tmp/knot_binary_12812.sock");
    assert_eq!(app_socket_path(0), "/tmp/knot_app_0.sock");
    assert_eq!(loopback_address(65535), "127.0.0.1:65535");
}
