//! The core of the node: it takes every message that the ingress and the
//! network send to the hub and decides where it goes next.
use crate::buffers::bytes_view;
use crate::framing::decode_spec;
use crate::framing::encode_spec;
use crate::framing::lemma_decode_encode;
use crate::framing::HEADER_LEN;
use crate::framing::BinaryFrame;
use crate::framing::FrameView;
use crate::ingress::IngressCommand;
use crate::swarm::NetworkCommand;
use crate::swarm::NetworkResponse;
use crate::tou64::peer_id_to_u64;
use crate::tou64::peer_u64;
use libp2p::Multiaddr;
use libp2p::PeerId;
use std::collections::HashMap;
use tokio::sync::oneshot::Sender;
use vstd::prelude::*;

verus! {

/// A message to the hub, from the ingress or from the network.
#[derive(Debug)]
pub enum KnotMessage {
    /// A local application sent a frame to a peer.
    ClientData { from_ip: String, frame: BinaryFrame },
    /// A local application asked to dial an address.
    ConnectToNetwork { addr: Multiaddr },
    /// A local application asked where a peer is.
    DiscoverNetwork { peerid: PeerId, return_tx: Sender<String> },
    /// A local application asked for the known peers.
    GetPeersNetwork(Sender<HashMap<PeerId, Vec<Multiaddr>>>),
    /// A local application asked for this node's identity.
    GetLocalPeerIdNetwork(Sender<PeerId>),
    /// A local application asked to listen through a relay.
    ConnectRelay { relay_addr: Multiaddr, relay_peer_id: PeerId },
    /// A peer sent a frame.
    NetworkData { peer: PeerId, frame: BinaryFrame },
    /// The network answered a command.
    NetworkResponse(NetworkResponse),
    /// Stop the node.
    Shutdown,
    /// A line for the node's log.
    Log(String),
}

/// What the core does with a message.
pub enum CoreAction {
    /// Hand a command to the network task.
    ToNetwork(NetworkCommand),
    /// Hand a command to the ingress task.
    ToIngress(IngressCommand),
    /// Print the peers that the network listed.
    ShowPeers(Vec<(PeerId, Vec<Multiaddr>)>),
    /// Print a line of the log.
    Log(String),
    /// Nothing to do.
    Idle,
    /// Stop the hub loop.
    Stop,
}

/// A frame answered back to the peer that sent it: app id 0 becomes 1.
pub open spec fn echo_view(f: FrameView) -> FrameView {
    FrameView {
        version: f.version,
        target: f.target,
        peer_id: f.peer_id,
        app_id: 1,
        payload: f.payload,
    }
}

/// A frame handed to a local application: its peer id becomes the routing
/// id of the peer that sent it.
pub open spec fn stamped_view(f: FrameView, sender: u64) -> FrameView {
    FrameView {
        version: f.version,
        target: f.target,
        peer_id: sender,
        app_id: f.app_id,
        payload: f.payload,
    }
}

/// Decides what the hub does with one message.
///
/// A frame from a local application goes to the network, addressed to the
/// frame's peer id. A frame from a peer with app id 0 goes back to that
/// peer with app id 1; any other frame from a peer goes to the ingress,
/// its peer id replaced by the sender's routing id. Requests from the
/// ingress are passed on to the network unchanged.
pub fn core_step(message: KnotMessage) -> (r: CoreAction)
    ensures
        match message {
            KnotMessage::ClientData { from_ip: _, frame } => r matches CoreAction::ToNetwork(
                NetworkCommand::SendFrame { target_u64, frame: raw },
            ) && target_u64 == frame.peer_id && bytes_view(raw) == encode_spec(frame@),
            KnotMessage::ConnectToNetwork { addr } => r == CoreAction::ToNetwork(
                NetworkCommand::DialAddress(addr),
            ),
            KnotMessage::DiscoverNetwork { peerid, return_tx } => r == CoreAction::ToNetwork(
                NetworkCommand::LookupPeer(peerid, return_tx),
            ),
            KnotMessage::GetPeersNetwork(tx) => r == CoreAction::ToNetwork(
                NetworkCommand::GetPeers(tx),
            ),
            KnotMessage::GetLocalPeerIdNetwork(tx) => r == CoreAction::ToNetwork(
                NetworkCommand::GetLocalPeer(tx),
            ),
            KnotMessage::ConnectRelay { relay_addr, relay_peer_id } => r == CoreAction::ToNetwork(
                NetworkCommand::ConnectRelay { relay_addr, relay_peer_id },
            ),
            KnotMessage::NetworkData { peer, frame } => if frame.app_id == 0 {
                r matches CoreAction::ToNetwork(NetworkCommand::SendFrame { target_u64, frame: raw })
                    && target_u64 == peer_u64(peer) && bytes_view(raw) == encode_spec(
                    echo_view(frame@),
                )
            } else {
                r matches CoreAction::ToIngress(IngressCommand::SendFrameToClient { frame: raw })
                    && bytes_view(raw) == encode_spec(stamped_view(frame@, peer_u64(peer)))
            },
            KnotMessage::NetworkResponse(NetworkResponse::PeersList(list)) => r
                == CoreAction::ShowPeers(list),
            KnotMessage::NetworkResponse(NetworkResponse::CommandAccepted) => r is Idle,
            KnotMessage::Shutdown => r is Stop,
            KnotMessage::Log(msg) => r == CoreAction::Log(msg),
        },
{
    match message {
        KnotMessage::ClientData { from_ip: _, frame } => {
            let target_u64 = frame.peer_id;
            CoreAction::ToNetwork(NetworkCommand::SendFrame { target_u64, frame: frame.encode() })
        },
        KnotMessage::ConnectToNetwork { addr } => {
            CoreAction::ToNetwork(NetworkCommand::DialAddress(addr))
        },
        KnotMessage::DiscoverNetwork { peerid, return_tx } => {
            CoreAction::ToNetwork(NetworkCommand::LookupPeer(peerid, return_tx))
        },
        KnotMessage::GetPeersNetwork(tx) => CoreAction::ToNetwork(NetworkCommand::GetPeers(tx)),
        KnotMessage::GetLocalPeerIdNetwork(tx) => {
            CoreAction::ToNetwork(NetworkCommand::GetLocalPeer(tx))
        },
        KnotMessage::ConnectRelay { relay_addr, relay_peer_id } => {
            CoreAction::ToNetwork(NetworkCommand::ConnectRelay { relay_addr, relay_peer_id })
        },
        KnotMessage::NetworkData { peer, frame } => {
            let target_u64 = peer_id_to_u64(&peer);
            let mut frame = frame;
            if frame.app_id == 0 {
                frame.app_id = 1;
                CoreAction::ToNetwork(
                    NetworkCommand::SendFrame { target_u64, frame: frame.encode() },
                )
            } else {
                frame.peer_id = target_u64;
                CoreAction::ToIngress(IngressCommand::SendFrameToClient { frame: frame.encode() })
            }
        },
        KnotMessage::NetworkResponse(response) => match response {
            NetworkResponse::PeersList(list) => CoreAction::ShowPeers(list),
            NetworkResponse::CommandAccepted => CoreAction::Idle,
        },
        KnotMessage::Shutdown => CoreAction::Stop,
        KnotMessage::Log(msg) => CoreAction::Log(msg),
    }
}

/// A frame from a peer with a non-zero app id reaches the local application:
/// the bytes that the core hands the ingress hold a whole header, and the
/// frame read from them keeps the app id and payload and carries the
/// sender's routing id as peer id.
pub proof fn lemma_peer_frame_reaches_app(f: FrameView, sender: u64)
    requires
        f.app_id != 0,
    ensures
        encode_spec(stamped_view(f, sender)).len() >= HEADER_LEN,
        decode_spec(encode_spec(stamped_view(f, sender))).app_id == f.app_id,
        decode_spec(encode_spec(stamped_view(f, sender))).payload == f.payload,
        decode_spec(encode_spec(stamped_view(f, sender))).peer_id == sender,
        decode_spec(encode_spec(stamped_view(f, sender))).version == f.version,
        decode_spec(encode_spec(stamped_view(f, sender))).target == f.target,
{
    lemma_decode_encode(stamped_view(f, sender));
}

/// A frame that a peer sends with app id 0 comes back to it whole with app
/// id 1, so an answer is never answered again.
pub proof fn lemma_echo_answers_once(f: FrameView)
    requires
        f.app_id == 0,
    ensures
        decode_spec(encode_spec(echo_view(f))) == echo_view(f),
        echo_view(f).app_id != 0,
        echo_view(f).payload == f.payload,
        echo_view(f).peer_id == f.peer_id,
{
    lemma_decode_encode(echo_view(f));
}

/// The answer to a frame with app id 0 is that frame with only its app id
/// changed, to 1: the version, target, peer id and payload that the peer
/// reads back from the answer are those it sent.
pub proof fn lemma_echo_changes_only_app_id(f: FrameView)
    requires
        f.app_id == 0,
    ensures
        echo_view(f).version == f.version,
        echo_view(f).target == f.target,
        echo_view(f).peer_id == f.peer_id,
        echo_view(f).payload == f.payload,
        echo_view(f).app_id == 1,
        decode_spec(encode_spec(echo_view(f))).version == f.version,
        decode_spec(encode_spec(echo_view(f))).target == f.target,
        decode_spec(encode_spec(echo_view(f))).peer_id == f.peer_id,
        decode_spec(encode_spec(echo_view(f))).payload == f.payload,
        decode_spec(encode_spec(echo_view(f))).app_id == 1,
{
    lemma_decode_encode(echo_view(f));
}

/// A frame handed to a local application is the frame with only its peer
/// id changed, to the sender's routing id.
pub proof fn lemma_stamp_changes_only_peer_id(f: FrameView, sender: u64)
    ensures
        stamped_view(f, sender).version == f.version,
        stamped_view(f, sender).target == f.target,
        stamped_view(f, sender).peer_id == sender,
        stamped_view(f, sender).app_id == f.app_id,
        stamped_view(f, sender).payload == f.payload,
{
}

} // verus!
