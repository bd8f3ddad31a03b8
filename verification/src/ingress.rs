//! The ingress side of the node: the local applications' control protocol,
//! the registry of application ports, and delivery of frames to them.
use crate::buffers::bytes_as_slice;
use crate::buffers::bytes_mut_from_slice;
use crate::buffers::bytes_view;
use crate::controller::KnotMessage;
use crate::framing::decode_spec;
use crate::framing::BinaryFrame;
use crate::framing::HEADER_LEN;
use crate::p2p::multiaddr_parse;
use crate::p2p::multiaddr_text;
use crate::p2p::parse_multiaddr;
use crate::p2p::parse_peer_id;
use crate::p2p::base58_text;
use crate::p2p::peer_id_bytes;
use crate::p2p::peer_id_debug;
use crate::p2p::peer_id_parse;
use crate::text::decimal;
use crate::text::decimal_between;
use crate::text::json_array_text;
use crate::text::json_plain;
use crate::text::str_debug;
use crate::text::str_debug_text;
use crate::text::strings_to_json;
use crate::text::u64_to_decimal;
use crate::tou64::str_hash_writes;
use crate::tou64::string_to_u64_rust;
use bytes::Bytes;
use libp2p::Multiaddr;
use libp2p::PeerId;
use std::collections::hash_map::DefaultHasher;
use std::collections::HashMap;
use tokio::sync::oneshot::Sender;
use vstd::prelude::*;
use vstd::std_specs::hash::DefaultHasherAdditionalSpecFns;

verus! {

broadcast use vstd::std_specs::hash::group_hash_axioms;

/// A command of the control protocol, as a local application sends it.
#[derive(Debug)]
pub enum Message {
    Version,
    Protocol,
    GetCommands,
    Status,
    Register { app_id: u64, port: u16 },
    /// Registers an application by name; its app id is the hash of the name.
    NewAppName { name: String, port: u16 },
    Connect { multiaddr: String },
    Discover { peer_id: String },
    ConnectRelay { relay_addr: String, relay_id: String },
    GetPeers,
    GetPeerId,
}

/// The names of the commands of the control protocol, in the order in which
/// `getcommands` lists them.
pub open spec fn command_names() -> Seq<Seq<char>> {
    seq![
        "version"@,
        "protocol"@,
        "getcommands"@,
        "status"@,
        "register"@,
        "connect"@,
        "discover"@,
        "connectrelay"@,
        "getpeers"@,
        "getpeerid"@,
        "newappname"@,
    ]
}

/// Every command name is written in JSON as is (no character needs escaping).
proof fn lemma_command_names_plain()
    ensures
        forall|i: int| 0 <= i < command_names().len() ==> json_plain(#[trigger] command_names()[i]),
{
    reveal_strlit("version");
    reveal_strlit("protocol");
    reveal_strlit("getcommands");
    reveal_strlit("status");
    reveal_strlit("register");
    reveal_strlit("connect");
    reveal_strlit("discover");
    reveal_strlit("connectrelay");
    reveal_strlit("getpeers");
    reveal_strlit("getpeerid");
    reveal_strlit("newappname");
}

impl Message {
    /// The names of all commands of the control protocol, as `getcommands`
    /// reports them.
    pub fn command_list() -> (r: Vec<&'static str>)
        ensures
            r@.map_values(|s: &str| s@) == command_names(),
    {
        let r = vec![
            "version",
            "protocol",
            "getcommands",
            "status",
            "register",
            "connect",
            "discover",
            "connectrelay",
            "getpeers",
            "getpeerid",
            "newappname",
        ];
        assert(r@.map_values(|s: &str| s@) =~= command_names());
        r
    }
}

/// A reply of the control protocol.
#[derive(Debug)]
pub struct ResponseTcp {
    pub command: String,
    pub response: String,
    pub error: String,
}

impl View for ResponseTcp {
    type V = (Seq<char>, Seq<char>, Seq<char>);

    open spec fn view(&self) -> (Seq<char>, Seq<char>, Seq<char>) {
        (self.command@, self.response@, self.error@)
    }
}

/// The message that the ingress reports when the core drops a reply channel.
pub open spec fn dropped_text() -> Seq<char> {
    "Core dropped the responder"@
}

fn reply(command: &str, response: String, error: &str) -> (r: ResponseTcp)
    ensures
        r@ == (command@, response@, error@),
{
    ResponseTcp {
        command: String::from_str(command),
        response,
        error: String::from_str(error),
    }
}

/// A request from the ingress' listeners to its central task.
#[derive(Debug)]
pub enum CentralEvent {
    /// Remember the local port of an application.
    Register { app_id: u64, port: u16 },
    /// Dial an address.
    Connect { addr: Multiaddr },
    /// Look a peer up; the answer goes to `return_tx`.
    Discover { peerid: PeerId, return_tx: Sender<String> },
    /// A frame from a local application, to be routed to a peer.
    RouteBinary { from_ip: String, frame: BinaryFrame },
    /// Listen through a relay.
    ConnectRelay { relay_addr: Multiaddr, relay_peer_id: PeerId },
    /// List the known peers.
    GetPeers(Sender<HashMap<PeerId, Vec<Multiaddr>>>),
    /// Tell this node's identity.
    GetLocalPeerId(Sender<PeerId>),
}

/// A command from the core to the ingress task.
pub enum IngressCommand {
    /// Deliver an encoded frame to the local application it names.
    SendFrameToClient { frame: Bytes },
}

/// The registry after an application registers: the first port registered
/// for an app id stays; later registrations of the same id are ignored.
pub open spec fn register_spec(m: Map<u64, u16>, app_id: u64, port: u16) -> Map<u64, u16> {
    if m.contains_key(app_id) {
        m
    } else {
        m.insert(app_id, port)
    }
}

/// The local applications known to the ingress: app id to local port.
pub struct Registry {
    ports: HashMap<u64, u16>,
}

impl View for Registry {
    type V = Map<u64, u16>;

    closed spec fn view(&self) -> Map<u64, u16> {
        self.ports@
    }
}

/// What the ingress does with a frame that the core hands it.
pub enum Delivery {
    /// The frame is shorter than a header: the delivery task stops.
    TooShort,
    /// Write the payload to the application listening on `port`.
    Forward { port: u16, payload: Bytes },
    /// No application is registered under the frame's app id.
    Unregistered { app_id: u64 },
}

impl Registry {
    /// An empty registry.
    pub fn new() -> (r: Self)
        ensures
            r@ == Map::<u64, u16>::empty(),
    {
        Registry { ports: HashMap::new() }
    }

    /// Registers an application's port unless its app id is already
    /// registered. Returns whether it was added.
    pub fn register(&mut self, app_id: u64, port: u16) -> (added: bool)
        ensures
            final(self)@ == register_spec(old(self)@, app_id, port),
            added == !old(self)@.contains_key(app_id),
    {
        if !self.ports.contains_key(&app_id) {
            self.ports.insert(app_id, port);
            true
        } else {
            false
        }
    }

    /// The port registered for an app id, if any.
    pub fn port_of(&self, app_id: u64) -> (r: Option<u16>)
        ensures
            r == (if self@.contains_key(app_id) {
                Some(self@[app_id])
            } else {
                None
            }),
    {
        match self.ports.get(&app_id) {
            Some(p) => Some(*p),
            None => None,
        }
    }

    /// Decides what to do with an encoded frame from the core: a frame shorter
    /// than a header stops delivery; otherwise its payload goes to the port
    /// registered for its app id, if there is one.
    pub fn deliver(&self, frame: &Bytes) -> (r: Delivery)
        ensures
            bytes_view(*frame).len() < HEADER_LEN ==> r is TooShort,
            bytes_view(*frame).len() >= HEADER_LEN ==> {
                let f = decode_spec(bytes_view(*frame));
                if self@.contains_key(f.app_id) {
                    r matches Delivery::Forward { port, payload } && port == self@[f.app_id]
                        && bytes_view(payload) == f.payload
                } else {
                    r == Delivery::Unregistered { app_id: f.app_id }
                }
            },
    {
        let s = bytes_as_slice(frame);
        if s.len() < HEADER_LEN {
            return Delivery::TooShort;
        }
        let buf = bytes_mut_from_slice(s);
        let decoded = BinaryFrame::decode(buf);
        let app_id = decoded.app_id;
        match self.port_of(app_id) {
            Some(port) => Delivery::Forward { port, payload: decoded.payload },
            None => Delivery::Unregistered { app_id },
        }
    }

    /// The central task of the ingress: registrations stay here, every other
    /// request goes on to the hub as the matching message.
    pub fn central_step(&mut self, event: CentralEvent) -> (r: Option<KnotMessage>)
        ensures
            match event {
                CentralEvent::Register { app_id, port } => r is None && final(self)@
                    == register_spec(old(self)@, app_id, port),
                CentralEvent::Connect { addr } => r == Some(KnotMessage::ConnectToNetwork { addr })
                    && final(self)@ == old(self)@,
                CentralEvent::Discover { peerid, return_tx } => r == Some(
                    KnotMessage::DiscoverNetwork { peerid, return_tx },
                ) && final(self)@ == old(self)@,
                CentralEvent::RouteBinary { from_ip, frame } => r == Some(
                    KnotMessage::ClientData { from_ip, frame },
                ) && final(self)@ == old(self)@,
                CentralEvent::ConnectRelay { relay_addr, relay_peer_id } => r == Some(
                    KnotMessage::ConnectRelay { relay_addr, relay_peer_id },
                ) && final(self)@ == old(self)@,
                CentralEvent::GetPeers(tx) => r == Some(KnotMessage::GetPeersNetwork(tx))
                    && final(self)@ == old(self)@,
                CentralEvent::GetLocalPeerId(tx) => r == Some(
                    KnotMessage::GetLocalPeerIdNetwork(tx),
                ) && final(self)@ == old(self)@,
            },
    {
        match event {
            CentralEvent::Register { app_id, port } => {
                self.register(app_id, port);
                None
            },
            CentralEvent::Connect { addr } => Some(KnotMessage::ConnectToNetwork { addr }),
            CentralEvent::Discover { peerid, return_tx } => {
                Some(KnotMessage::DiscoverNetwork { peerid, return_tx })
            },
            CentralEvent::RouteBinary { from_ip, frame } => {
                Some(KnotMessage::ClientData { from_ip, frame })
            },
            CentralEvent::ConnectRelay { relay_addr, relay_peer_id } => {
                Some(KnotMessage::ConnectRelay { relay_addr, relay_peer_id })
            },
            CentralEvent::GetPeers(tx) => Some(KnotMessage::GetPeersNetwork(tx)),
            CentralEvent::GetLocalPeerId(tx) => Some(KnotMessage::GetLocalPeerIdNetwork(tx)),
        }
    }
}

/// What a control connection does with one command.
pub enum ManagedAction {
    /// Send the reply and keep serving the connection.
    Reply(ResponseTcp),
    /// Send the event to the central task, then the reply.
    Notify { event: CentralEvent, reply: ResponseTcp },
    /// Send the reply, then close the connection.
    Close(ResponseTcp),
    /// Ask the central task to look the peer up, then reply with `discover_reply`.
    Discover(PeerId),
    /// Ask the central task for the known peers, then reply with `peers_reply`.
    AskPeers,
    /// Ask the central task for this node's identity, then reply with `peer_id_reply`.
    AskPeerId,
}

/// Decides how a control connection answers one command. `version` is the
/// node's version. An address or peer id that does not parse is answered
/// with the parse error, and the connection is closed.
pub fn managed_step(msg: Message, version: &str) -> (r: ManagedAction)
    ensures
        match msg {
            Message::Version => r matches ManagedAction::Reply(resp) && resp@ == (
                "version"@,
                version@,
                ""@,
            ),
            Message::Protocol => r matches ManagedAction::Reply(resp) && resp@ == (
                "protocol"@,
                "v0.1.0"@,
                ""@,
            ),
            Message::GetCommands => r matches ManagedAction::Reply(resp) && resp@ == (
                "getcommands"@,
                json_array_text(command_names()),
                ""@,
            ),
            Message::Status => r matches ManagedAction::Reply(resp) && resp@ == (
                "status"@,
                "OK"@,
                ""@,
            ),
            Message::Register { app_id, port } => r matches ManagedAction::Notify {
                event: CentralEvent::Register { app_id: a, port: p },
                reply,
            } && a == app_id && p == port && reply@ == ("register"@, decimal(app_id as nat), ""@),
            Message::NewAppName { name, port } => r matches ManagedAction::Notify {
                event: CentralEvent::Register { app_id: a, port: p },
                reply,
            } && a == DefaultHasher::spec_finish(str_hash_writes(name@)) && p == port && reply@ == (
                "newappname"@,
                decimal(a as nat),
                ""@,
            ),
            Message::Connect { multiaddr } => match multiaddr_parse(multiaddr@) {
                Err(e) => r matches ManagedAction::Close(resp) && resp@ == ("connect"@, ""@, e),
                Ok(t) => r matches ManagedAction::Notify {
                    event: CentralEvent::Connect { addr },
                    reply,
                } && multiaddr_text(addr) == t && reply@ == ("connect"@, "OK"@, ""@),
            },
            Message::ConnectRelay { relay_addr, relay_id } => match multiaddr_parse(relay_addr@) {
                Err(e) => r matches ManagedAction::Close(resp) && resp@ == (
                    "connectrelay"@,
                    ""@,
                    e,
                ),
                Ok(t) => match peer_id_parse(relay_id@) {
                    Err(e) => r matches ManagedAction::Close(resp) && resp@ == (
                        "connectrelay"@,
                        ""@,
                        e,
                    ),
                    Ok(b) => r matches ManagedAction::Notify {
                        event: CentralEvent::ConnectRelay { relay_addr: a, relay_peer_id: p },
                        reply,
                    } && multiaddr_text(a) == t && peer_id_bytes(p) == b && reply@ == (
                        "connectrelay"@,
                        "OK"@,
                        ""@,
                    ),
                },
            },
            Message::Discover { peer_id } => match peer_id_parse(peer_id@) {
                Err(e) => r matches ManagedAction::Close(resp) && resp@ == ("discover"@, ""@, e),
                Ok(b) => r matches ManagedAction::Discover(p) && peer_id_bytes(p) == b,
            },
            Message::GetPeers => r is AskPeers,
            Message::GetPeerId => r is AskPeerId,
        },
{
    match msg {
        Message::Version => ManagedAction::Reply(reply("version", String::from_str(version), "")),
        Message::Protocol => ManagedAction::Reply(
            reply("protocol", String::from_str("v0.1.0"), ""),
        ),
        Message::GetCommands => {
            let names = Message::command_list();
            proof {
                lemma_command_names_plain();
                assert forall|i: int| 0 <= i < names@.len() implies json_plain(
                    #[trigger] names@[i]@,
                ) by {
                    assert(names@.map_values(|s: &str| s@)[i] == names@[i]@);
                }
            }
            ManagedAction::Reply(reply("getcommands", strings_to_json(&names), ""))
        },
        Message::Status => ManagedAction::Reply(reply("status", String::from_str("OK"), "")),
        Message::Register { app_id, port } => {
            let resp = reply("register", u64_to_decimal(app_id), "");
            ManagedAction::Notify { event: CentralEvent::Register { app_id, port }, reply: resp }
        },
        Message::NewAppName { name, port } => {
            let app_id = string_to_u64_rust(name.as_str());
            let resp = reply("newappname", u64_to_decimal(app_id), "");
            ManagedAction::Notify { event: CentralEvent::Register { app_id, port }, reply: resp }
        },
        Message::Connect { multiaddr } => match parse_multiaddr(multiaddr.as_str()) {
            Ok(addr) => ManagedAction::Notify {
                event: CentralEvent::Connect { addr },
                reply: reply("connect", String::from_str("OK"), ""),
            },
            Err(e) => ManagedAction::Close(reply("connect", String::from_str(""), e.as_str())),
        },
        Message::ConnectRelay { relay_addr, relay_id } => {
            let parsed_addr = parse_multiaddr(relay_addr.as_str());
            let parsed_id = parse_peer_id(relay_id.as_str());
            match parsed_addr {
                Err(e) => ManagedAction::Close(reply("connectrelay", String::from_str(""), e.as_str())),
                Ok(addr) => match parsed_id {
                    Err(e) => ManagedAction::Close(
                        reply("connectrelay", String::from_str(""), e.as_str()),
                    ),
                    Ok(id) => ManagedAction::Notify {
                        event: CentralEvent::ConnectRelay { relay_addr: addr, relay_peer_id: id },
                        reply: reply("connectrelay", String::from_str("OK"), ""),
                    },
                },
            }
        },
        Message::Discover { peer_id } => match parse_peer_id(peer_id.as_str()) {
            Ok(id) => ManagedAction::Discover(id),
            Err(e) => ManagedAction::Close(reply("discover", String::from_str(""), e.as_str())),
        },
        Message::GetPeers => ManagedAction::AskPeers,
        Message::GetPeerId => ManagedAction::AskPeerId,
    }
}

/// The reply to `discover`: the debug form of the answer, or an error when
/// the core dropped the reply channel (`None`).
pub fn discover_reply(answer: Option<String>) -> (r: ResponseTcp)
    ensures
        match answer {
            Some(a) => r@ == ("discover"@, str_debug_text(a@), ""@),
            None => r@ == ("discover"@, ""@, dropped_text()),
        },
{
    match answer {
        Some(a) => reply("discover", str_debug(a.as_str()), ""),
        None => reply("discover", String::from_str(""), "Core dropped the responder"),
    }
}

/// The reply to `getpeers`: the listing of the peers, or an error when the
/// core dropped the reply channel (`None`).
pub fn peers_reply(listing: Option<String>) -> (r: ResponseTcp)
    ensures
        match listing {
            Some(l) => r@ == ("getpeers"@, l@, ""@),
            None => r@ == ("getpeers"@, ""@, dropped_text()),
        },
{
    match listing {
        Some(l) => reply("getpeers", l, ""),
        None => reply("getpeers", String::from_str(""), "Core dropped the responder"),
    }
}

/// The reply to `getpeerid`: the debug form of the node's identity,
/// `PeerId("<base58>")`, or an error when the core dropped the reply channel
/// (`None`).
pub fn peer_id_reply(identity: Option<PeerId>) -> (r: ResponseTcp)
    ensures
        match identity {
            Some(p) => r@ == (
                "getpeerid"@,
                "PeerId(\""@ + base58_text(peer_id_bytes(p)) + "\")"@,
                ""@,
            ),
            None => r@ == ("getpeerid"@, ""@, dropped_text()),
        },
{
    match identity {
        Some(p) => reply("getpeerid", peer_id_debug(&p), ""),
        None => reply("getpeerid", String::from_str(""), "Core dropped the responder"),
    }
}

/// The path of the Unix socket of the control protocol.
pub fn managed_socket_path(port: u16) -> (r: String)
    ensures
        r@ == "/tmp/knot_managed_"@ + decimal(port as nat) + ".sock"@,
{
    decimal_between("/tmp/knot_managed_", port as u64, ".sock")
}

/// The path of the Unix socket on which applications send frames.
pub fn binary_socket_path(port: u16) -> (r: String)
    ensures
        r@ == "/tmp/knot_binary_"@ + decimal(port as nat) + ".sock"@,
{
    decimal_between("/tmp/knot_binary_", port as u64, ".sock")
}

/// The path of the Unix socket on which an application takes its frames.
pub fn app_socket_path(port: u16) -> (r: String)
    ensures
        r@ == "/tmp/knot_app_"@ + decimal(port as nat) + ".sock"@,
{
    decimal_between("/tmp/knot_app_", port as u64, ".sock")
}

/// The loopback TCP address of a local port.
pub fn loopback_address(port: u16) -> (r: String)
    ensures
        r@ == "127.0.0.1:"@ + decimal(port as nat) + ""@,
{
    decimal_between("127.0.0.1:", port as u64, "")
}

/// Registering never forgets or changes an application: every app id already
/// registered keeps its port, and the id just registered is known afterwards.
pub proof fn lemma_register_keeps(m: Map<u64, u16>, app_id: u64, port: u16)
    ensures
        forall|k: u64| #[trigger]
            m.contains_key(k) ==> register_spec(m, app_id, port).contains_key(k) && register_spec(
                m,
                app_id,
                port,
            )[k] == m[k],
        register_spec(m, app_id, port).contains_key(app_id),
{
}

/// The first registration of an app id wins: registering it again, with
/// any port, leaves the registry as it was.
pub proof fn lemma_first_registration_wins(m: Map<u64, u16>, app_id: u64, first: u16, second: u16)
    ensures
        register_spec(register_spec(m, app_id, first), app_id, second) == register_spec(
            m,
            app_id,
            first,
        ),
        !m.contains_key(app_id) ==> register_spec(
            register_spec(m, app_id, first),
            app_id,
            second,
        )[app_id] == first,
{
}

/// Registering touches only the app id being registered: every other app id
/// is registered afterwards exactly when it was before, with the same port;
/// the id itself gets the port it had, or the new port if it had none.
pub proof fn lemma_register_touches_only_its_id(m: Map<u64, u16>, app_id: u64, port: u16)
    ensures
        register_spec(m, app_id, port).dom() == m.dom().insert(app_id),
        forall|k: u64|
            k != app_id ==> (#[trigger] register_spec(m, app_id, port).contains_key(k)
                == m.contains_key(k)),
        forall|k: u64|
            k != app_id && m.contains_key(k) ==> #[trigger] register_spec(m, app_id, port)[k]
                == m[k],
        register_spec(m, app_id, port)[app_id] == (if m.contains_key(app_id) {
            m[app_id]
        } else {
            port
        }),
{
    assert(register_spec(m, app_id, port).dom() =~= m.dom().insert(app_id));
}

} // verus!
