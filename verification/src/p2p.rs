//! The libp2p values that pass through Knot's logic: peer identities and
//! multiaddresses. Both are opaque to Verus; what the logic reads of them
//! comes through the wrappers below.
use libp2p::identity::Keypair;
use libp2p::multiaddr::Protocol;
use libp2p::Multiaddr;
use libp2p::PeerId;
use vstd::prelude::*;

verus! {

/// A libp2p peer identity (a multihash of the peer's public key).
#[verifier::external_type_specification]
#[verifier::external_body]
pub struct ExPeerId(libp2p::PeerId);

/// A libp2p multiaddress.
#[verifier::external_type_specification]
#[verifier::external_body]
pub struct ExMultiaddr(libp2p::Multiaddr);

/// A libp2p key pair (the node's identity).
#[verifier::external_type_specification]
#[verifier::external_body]
pub struct ExKeypair(libp2p::identity::Keypair);

/// What `Keypair::from_protobuf_encoding` makes of some bytes: the key pair
/// decoded, or the text of the decoding error.
pub uninterp spec fn keypair_decode(bytes: Seq<u8>) -> Result<Keypair, Seq<char>>;

/// The canonical byte encoding of a peer identity (its multihash bytes), as
/// `PeerId::to_bytes` returns it.
pub uninterp spec fn peer_id_bytes(peer: PeerId) -> Seq<u8>;

/// The text form of a multiaddress (its `Display`): the text of each of
/// its protocols in order, such as `/ip4/1.2.3.4/tcp/80`.
pub uninterp spec fn multiaddr_text(addr: Multiaddr) -> Seq<char>;

/// The base58 text of some bytes, in the bitcoin alphabet (as multibase's
/// `Base58Btc` and the `bs58` crate both write it).
pub uninterp spec fn base58_text(bytes: Seq<u8>) -> Seq<char>;

/// What `Multiaddr::from_str` makes of a string: on success the text form
/// of the address parsed, else the text of the parse error.
pub uninterp spec fn multiaddr_parse(text: Seq<char>) -> Result<Seq<char>, Seq<char>>;

/// What `PeerId::from_str` makes of a string: on success the byte encoding
/// of the identity parsed, else the text of the parse error.
pub uninterp spec fn peer_id_parse(text: Seq<char>) -> Result<Seq<u8>, Seq<char>>;

/// `PeerId::to_bytes`: the peer's multihash bytes; a function of the peer alone.
#[verifier::external_body]
pub(crate) fn peer_id_to_bytes(peer: &PeerId) -> (r: Vec<u8>)
    ensures
        r@ == peer_id_bytes(*peer),
{
    peer.to_bytes()
}

/// `PartialEq` of `PeerId`: two identities are equal exactly when their
/// multihash bytes are (the byte encoding is one to one).
#[verifier::external_body]
pub(crate) fn peer_id_eq(a: &PeerId, b: &PeerId) -> (r: bool)
    ensures
        r == (peer_id_bytes(*a) == peer_id_bytes(*b)),
{
    a == b
}

/// `Multiaddr::from_str`, with the error turned into its text. Whether it
/// succeeds, the address parsed (by its text form) and the error text
/// depend on the string alone.
#[verifier::external_body]
pub(crate) fn parse_multiaddr(text: &str) -> (r: Result<Multiaddr, String>)
    ensures
        match r {
            Ok(a) => multiaddr_parse(text@) == Ok::<Seq<char>, Seq<char>>(multiaddr_text(a)),
            Err(e) => multiaddr_parse(text@) == Err::<Seq<char>, Seq<char>>(e@),
        },
{
    match text.parse::<Multiaddr>() {
        Ok(addr) => Ok(addr),
        Err(err) => Err(err.to_string()),
    }
}

/// `PeerId::from_str`, with the error turned into its text. Whether it
/// succeeds, the identity parsed (by its bytes) and the error text depend on
/// the string alone.
#[verifier::external_body]
pub(crate) fn parse_peer_id(text: &str) -> (r: Result<PeerId, String>)
    ensures
        match r {
            Ok(p) => peer_id_parse(text@) == Ok::<Seq<u8>, Seq<char>>(peer_id_bytes(p)),
            Err(e) => peer_id_parse(text@) == Err::<Seq<u8>, Seq<char>>(e@),
        },
{
    match text.parse::<PeerId>() {
        Ok(peer) => Ok(peer),
        Err(err) => Err(err.to_string()),
    }
}

/// `Multiaddr::with(Protocol::P2p(peer))`: the address followed by the
/// `/p2p/<peer>` protocol, whose text is `/p2p/` and the identity's bytes in
/// base58.
#[verifier::external_body]
pub(crate) fn multiaddr_with_p2p(addr: Multiaddr, peer: PeerId) -> (r: Multiaddr)
    ensures
        multiaddr_text(r) == multiaddr_text(addr) + "/p2p/"@ + base58_text(peer_id_bytes(peer)),
{
    addr.with(Protocol::P2p(peer))
}

/// `Multiaddr::with(Protocol::P2pCircuit)`: the address followed by the
/// `/p2p-circuit` protocol.
#[verifier::external_body]
pub(crate) fn multiaddr_with_circuit(addr: Multiaddr) -> (r: Multiaddr)
    ensures
        multiaddr_text(r) == multiaddr_text(addr) + "/p2p-circuit"@,
{
    addr.with(Protocol::P2pCircuit)
}

/// `format!("{:?}", peer)`: `PeerId("<base58 of its bytes>")` (a debug tuple
/// holding the base58 string, which needs no escapes).
#[verifier::external_body]
pub(crate) fn peer_id_debug(peer: &PeerId) -> (r: String)
    ensures
        r@ == "PeerId(\""@ + base58_text(peer_id_bytes(*peer)) + "\")"@,
{
    format!("{:?}", peer)
}

/// `Keypair::from_protobuf_encoding`, with the error turned into its text.
/// The key pair decoded, or the error text, depends on the bytes alone.
#[verifier::external_body]
pub(crate) fn keypair_from_protobuf(bytes: &[u8]) -> (r: Result<Keypair, String>)
    ensures
        match r {
            Ok(k) => keypair_decode(bytes@) == Ok::<Keypair, Seq<char>>(k),
            Err(e) => keypair_decode(bytes@) == Err::<Keypair, Seq<char>>(e@),
        },
{
    match Keypair::from_protobuf_encoding(bytes) {
        Ok(key) => Ok(key),
        Err(err) => Err(err.to_string()),
    }
}

} // verus!
