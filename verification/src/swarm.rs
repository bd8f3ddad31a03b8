//! The network side of the node: the commands it takes from the core and
//! the bookkeeping it keeps about peers.
use crate::buffers::bytes_as_slice;
use crate::buffers::bytes_slice_from;
use crate::buffers::bytes_view;
use crate::codec::FrameRequest;
use crate::controller::KnotMessage;
use crate::codec::lemma_request_prefix_roundtrip;
use crate::codec::request_prefix_spec;
use crate::framing::decode_spec;
use crate::framing::encode_spec;
use crate::framing::header_at;
use crate::framing::lemma_decode_encode;
use crate::framing::FrameView;
use crate::wire::from_be32;
use crate::framing::BinaryFrame;
use crate::framing::HEADER_LEN;
use crate::p2p::base58_text;
use crate::p2p::keypair_decode;
use crate::p2p::multiaddr_parse;
use crate::p2p::multiaddr_with_circuit;
use crate::p2p::parse_multiaddr;
use crate::p2p::multiaddr_with_p2p;
use crate::p2p::keypair_from_protobuf;
use crate::p2p::multiaddr_text;
use crate::p2p::peer_id_bytes;
use crate::p2p::peer_id_eq;
use crate::text::decimal;
use crate::text::decimal_between;
use crate::tou64::peer_id_to_u64;
use crate::tou64::peer_u64;
use bytes::Bytes;
use libp2p::identity::Keypair;
use libp2p::Multiaddr;
use libp2p::PeerId;
use std::collections::HashMap;
use tokio::sync::oneshot::Sender;
use vstd::prelude::*;

verus! {

/// A command from the core to the network task.
pub enum NetworkCommand {
    /// Send raw frame bytes to the peer whose routing id is `target_u64`.
    SendFrame { target_u64: u64, frame: Bytes },
    /// Answer with the table of known peers.
    GetPeers(Sender<HashMap<PeerId, Vec<Multiaddr>>>),
    /// Dial an address.
    DialAddress(Multiaddr),
    /// Look a peer up in the DHT.
    LookupPeer(PeerId, Sender<String>),
    /// Answer with this node's identity.
    GetLocalPeer(Sender<PeerId>),
    /// Dial a relay and, once connected, listen through it.
    ConnectRelay { relay_addr: Multiaddr, relay_peer_id: PeerId },
}

/// An answer from the network task to the core.
#[derive(Debug)]
pub enum NetworkResponse {
    PeersList(Vec<(PeerId, Vec<Multiaddr>)>),
    CommandAccepted,
}


/// `Clone` of `Multiaddr`: the clone is the same address.
pub assume_specification[ <Multiaddr as Clone>::clone ](a: &Multiaddr) -> (r: Multiaddr)
    ensures
        r == *a,
;

/// The text of the circuit address through a relay: the relay's address,
/// then `/p2p/` and the relay's identity in base58, then `/p2p-circuit`.
pub open spec fn circuit_text(relay_addr: Multiaddr, relay: PeerId) -> Seq<char> {
    multiaddr_text(relay_addr) + "/p2p/"@ + base58_text(peer_id_bytes(relay)) + "/p2p-circuit"@
}

/// The circuit address through a relay: the relay's address followed by
/// `/p2p/<relay>` and `/p2p-circuit`, the address at which to listen
/// through the relay.
fn relay_circuit(relay_addr: &Multiaddr, relay_peer_id: PeerId) -> (r: Multiaddr)
    ensures
        multiaddr_text(r) == circuit_text(*relay_addr, relay_peer_id),
{
    let with_relay = multiaddr_with_p2p(relay_addr.clone(), relay_peer_id);
    multiaddr_with_circuit(with_relay)
}

/// No two entries of a table are for the same peer.
pub open spec fn distinct_peers<V>(t: Seq<(PeerId, V)>) -> bool {
    forall|i: int, j: int|
        0 <= i < t.len() && 0 <= j < t.len() && i != j ==> peer_id_bytes(#[trigger] t[i].0)
            != peer_id_bytes(#[trigger] t[j].0)
}

/// The table has an entry for the peer.
pub open spec fn holds_peer<V>(t: Seq<(PeerId, V)>, peer: PeerId) -> bool {
    exists|i: int| 0 <= i < t.len() && peer_id_bytes(#[trigger] t[i].0) == peer_id_bytes(peer)
}

/// The position of the peer's entry (meaningful when `holds_peer`).
pub open spec fn peer_index<V>(t: Seq<(PeerId, V)>, peer: PeerId) -> int {
    choose|i: int| 0 <= i < t.len() && peer_id_bytes(#[trigger] t[i].0) == peer_id_bytes(peer)
}

/// In a table with one entry per peer, an entry for the peer is its entry.
proof fn lemma_peer_index<V>(t: Seq<(PeerId, V)>, peer: PeerId, i: int)
    requires
        distinct_peers(t),
        0 <= i < t.len(),
        peer_id_bytes(t[i].0) == peer_id_bytes(peer),
    ensures
        holds_peer(t, peer),
        peer_index(t, peer) == i,
{
    assert(holds_peer(t, peer));
    let j = peer_index(t, peer);
    assert(peer_id_bytes(t[j].0) == peer_id_bytes(peer));
}

/// Replacing the value of an entry keeps one entry per peer.
proof fn lemma_distinct_update<V>(t: Seq<(PeerId, V)>, i: int, v: V)
    requires
        distinct_peers(t),
        0 <= i < t.len(),
    ensures
        distinct_peers(t.update(i, (t[i].0, v))),
{
    let t2 = t.update(i, (t[i].0, v));
    assert forall|a: int, b: int|
        0 <= a < t2.len() && 0 <= b < t2.len() && a != b implies peer_id_bytes(#[trigger] t2[a].0)
        != peer_id_bytes(#[trigger] t2[b].0) by {
        assert(t2[a].0 == t[a].0);
        assert(t2[b].0 == t[b].0);
    }
}

/// Adding an entry for a peer not in the table keeps one entry per peer.
proof fn lemma_distinct_push<V>(t: Seq<(PeerId, V)>, peer: PeerId, v: V)
    requires
        distinct_peers(t),
        !holds_peer(t, peer),
    ensures
        distinct_peers(t.push((peer, v))),
{
    let t2 = t.push((peer, v));
    assert forall|a: int, b: int|
        0 <= a < t2.len() && 0 <= b < t2.len() && a != b implies peer_id_bytes(#[trigger] t2[a].0)
        != peer_id_bytes(#[trigger] t2[b].0) by {
        if a == t.len() {
            assert(t2[b] == t[b]);
            assert(!(peer_id_bytes(t[b].0) == peer_id_bytes(peer)));
        } else if b == t.len() {
            assert(t2[a] == t[a]);
            assert(!(peer_id_bytes(t[a].0) == peer_id_bytes(peer)));
        } else {
            assert(t2[a] == t[a]);
            assert(t2[b] == t[b]);
        }
    }
}

/// Removing an entry keeps one entry per peer, and the removed peer is gone.
proof fn lemma_distinct_remove<V>(t: Seq<(PeerId, V)>, i: int)
    requires
        distinct_peers(t),
        0 <= i < t.len(),
    ensures
        distinct_peers(t.remove(i)),
        !holds_peer(t.remove(i), t[i].0),
{
    let t2 = t.remove(i);
    assert forall|a: int, b: int|
        0 <= a < t2.len() && 0 <= b < t2.len() && a != b implies peer_id_bytes(#[trigger] t2[a].0)
        != peer_id_bytes(#[trigger] t2[b].0) by {
        let a2 = if a < i {
            a
        } else {
            a + 1
        };
        let b2 = if b < i {
            b
        } else {
            b + 1
        };
        assert(t2[a] == t[a2]);
        assert(t2[b] == t[b2]);
    }
    if holds_peer(t2, t[i].0) {
        let j = peer_index(t2, t[i].0);
        let j2 = if j < i {
            j
        } else {
            j + 1
        };
        assert(t2[j] == t[j2]);
    }
}

/// The first position in `entries` of an entry for `peer`.
fn find_peer<V>(entries: &Vec<(PeerId, V)>, peer: &PeerId) -> (r: Option<usize>)
    ensures
        match r {
            Some(i) => i < entries@.len() && peer_id_bytes(entries@[i as int].0) == peer_id_bytes(
                *peer,
            ),
            None => !holds_peer(entries@, *peer),
        },
{
    let mut i: usize = 0;
    while i < entries.len()
        invariant
            i <= entries@.len(),
            forall|j: int| 0 <= j < i ==> peer_id_bytes(#[trigger] entries@[j].0) != peer_id_bytes(*peer),
        decreases entries@.len() - i,
    {
        if peer_id_eq(&entries[i].0, peer) {
            return Some(i);
        }
        i = i + 1;
    }
    None
}

/// The table after one more address is known for a peer: appended to the
/// peer's addresses, or a new entry at the end for a peer not yet known.
pub open spec fn add_spec(t: Seq<(PeerId, Seq<Multiaddr>)>, peer: PeerId, addr: Multiaddr) -> Seq<
    (PeerId, Seq<Multiaddr>),
> {
    if holds_peer(t, peer) {
        let i = peer_index(t, peer);
        t.update(i, (t[i].0, t[i].1.push(addr)))
    } else {
        t.push((peer, seq![addr]))
    }
}

/// The table after several addresses are known for a peer, in order.
pub open spec fn add_all_spec(
    t: Seq<(PeerId, Seq<Multiaddr>)>,
    peer: PeerId,
    addrs: Seq<Multiaddr>,
) -> Seq<(PeerId, Seq<Multiaddr>)>
    decreases addrs.len(),
{
    if addrs.len() == 0 {
        t
    } else {
        add_spec(add_all_spec(t, peer, addrs.drop_last()), peer, addrs.last())
    }
}

/// The mathematical table of a vector of entries.
pub open spec fn table_view(e: Seq<(PeerId, Vec<Multiaddr>)>) -> Seq<(PeerId, Seq<Multiaddr>)> {
    e.map_values(|x: (PeerId, Vec<Multiaddr>)| (x.0, x.1@))
}

/// A vector of entries and its table have the same peers in the same places.
proof fn lemma_table_view(e: Seq<(PeerId, Vec<Multiaddr>)>)
    ensures
        table_view(e).len() == e.len(),
        forall|k: int| 0 <= k < e.len() ==> #[trigger] table_view(e)[k] == (e[k].0, e[k].1@),
        distinct_peers(e) ==> distinct_peers(table_view(e)),
        forall|p: PeerId| holds_peer(table_view(e), p) ==> #[trigger] holds_peer(e, p),
{
    let t = table_view(e);
    assert forall|p: PeerId| holds_peer(t, p) implies #[trigger] holds_peer(e, p) by {
        let j = peer_index(t, p);
        assert(t[j].0 == e[j].0);
    }
    if distinct_peers(e) {
        assert forall|a: int, b: int|
            0 <= a < t.len() && 0 <= b < t.len() && a != b implies peer_id_bytes(#[trigger] t[a].0)
            != peer_id_bytes(#[trigger] t[b].0) by {
            assert(t[a].0 == e[a].0);
            assert(t[b].0 == e[b].0);
        }
    }
}

/// The peers that the node has met, each with every address it was seen at,
/// in the order in which they were first met. Peers are never removed.
///
/// The table is a vector with one entry per peer rather than a `HashMap`
/// keyed by `PeerId`: vstd specifies `HashMap` only for keys that obey its
/// key model, which a `PeerId` cannot be shown to. Lookups walk the table in
/// the order in which peers were first met.
pub struct PeerTable {
    entries: Vec<(PeerId, Vec<Multiaddr>)>,
}

impl View for PeerTable {
    type V = Seq<(PeerId, Seq<Multiaddr>)>;

    closed spec fn view(&self) -> Seq<(PeerId, Seq<Multiaddr>)> {
        table_view(self.entries@)
    }
}

/// The routing ids of the first `n` entries all differ from `target`.
pub open spec fn no_route_before(t: Seq<(PeerId, Seq<Multiaddr>)>, target: u64, n: int) -> bool {
    forall|j: int| 0 <= j < n ==> peer_u64(#[trigger] t[j].0) != target
}

impl PeerTable {
    /// One entry per peer.
    #[verifier::type_invariant]
    spec fn one_entry_per_peer(self) -> bool {
        distinct_peers(self.entries@)
    }

    /// An empty table.
    pub fn new() -> (r: Self)
        ensures
            r@ == Seq::<(PeerId, Seq<Multiaddr>)>::empty(),
            distinct_peers(r@),
    {
        let r = PeerTable { entries: Vec::new() };
        assert(r@ =~= Seq::<(PeerId, Seq<Multiaddr>)>::empty());
        r
    }

    /// The number of peers known.
    pub fn len(&self) -> (r: usize)
        ensures
            r == self@.len(),
    {
        self.entries.len()
    }

    /// The entries of the table, in order.
    pub fn entries(&self) -> (r: &Vec<(PeerId, Vec<Multiaddr>)>)
        ensures
            table_view(r@) == self@,
    {
        &self.entries
    }

    /// Records one more address at which a peer was seen.
    pub fn add_address(&mut self, peer: PeerId, addr: Multiaddr)
        ensures
            final(self)@ == add_spec(old(self)@, peer, addr),
            distinct_peers(final(self)@),
    {
        proof {
            use_type_invariant(&*self);
        }
        let mut entries: Vec<(PeerId, Vec<Multiaddr>)> = Vec::new();
        std::mem::swap(&mut entries, &mut self.entries);
        let ghost e0 = entries@;
        let ghost t = table_view(e0);
        proof {
            lemma_table_view(e0);
        }
        match find_peer(&entries, &peer) {
            Some(i) => {
                proof {
                    lemma_peer_index(t, peer, i as int);
                }
                let mut e = entries.remove(i);
                e.1.push(addr);
                proof {
                    lemma_distinct_update(e0, i as int, e.1);
                }
                let ghost e_new = e;
                entries.insert(i, e);
                proof {
                    assert(entries@ =~= e0.update(i as int, e_new));
                    lemma_table_view(entries@);
                    assert(table_view(entries@) =~= add_spec(t, peer, addr));
                }
            },
            None => {
                let mut v: Vec<Multiaddr> = Vec::new();
                v.push(addr);
                proof {
                    lemma_distinct_push(e0, peer, v);
                }
                entries.push((peer, v));
                proof {
                    lemma_table_view(entries@);
                    assert(!holds_peer(t, peer));
                    assert(table_view(entries@) =~= add_spec(t, peer, addr));
                }
            },
        }
        self.entries = entries;
    }

    /// Records, in order, several addresses at which a peer was seen.
    pub fn add_addresses(&mut self, peer: PeerId, addrs: &Vec<Multiaddr>)
        ensures
            final(self)@ == add_all_spec(old(self)@, peer, addrs@),
            distinct_peers(final(self)@),
    {
        proof {
            use_type_invariant(&*self);
            lemma_table_view(self.entries@);
        }
        let ghost t = self@;
        let mut i: usize = 0;
        while i < addrs.len()
            invariant
                i <= addrs@.len(),
                self@ == add_all_spec(t, peer, addrs@.subrange(0, i as int)),
                distinct_peers(self@),
            decreases addrs@.len() - i,
        {
            let addr = addrs[i].clone();
            self.add_address(peer, addr);
            assert(addrs@.subrange(0, i + 1).drop_last() =~= addrs@.subrange(0, i as int));
            i = i + 1;
        }
        assert(addrs@.subrange(0, addrs@.len() as int) =~= addrs@);
    }

    /// Records the addresses that a peer announced when it identified itself;
    /// answers whether the DHT should now bootstrap, which it should when
    /// the table holds exactly one peer.
    pub fn record_identify(&mut self, peer: PeerId, addrs: &Vec<Multiaddr>) -> (bootstrap: bool)
        ensures
            final(self)@ == add_all_spec(old(self)@, peer, addrs@),
            distinct_peers(final(self)@),
            bootstrap == (final(self)@.len() == 1),
    {
        self.add_addresses(peer, addrs);
        proof {
            lemma_table_view(self.entries@);
        }
        self.entries.len() == 1
    }

    /// The first known peer whose routing id is `target`.
    pub fn route(&self, target: u64) -> (r: Option<PeerId>)
        ensures
            match r {
                Some(p) => exists|i: int|
                    0 <= i < self@.len() && #[trigger] self@[i].0 == p && peer_u64(p) == target
                        && no_route_before(self@, target, i),
                None => no_route_before(self@, target, self@.len() as int),
            },
    {
        proof {
            lemma_table_view(self.entries@);
        }
        let mut i: usize = 0;
        while i < self.entries.len()
            invariant
                i <= self.entries@.len(),
                self@.len() == self.entries@.len(),
                forall|k: int| 0 <= k < self.entries@.len() ==> #[trigger] self@[k].0 == self.entries@[k].0,
                no_route_before(self@, target, i as int),
            decreases self.entries@.len() - i,
        {
            let p = self.entries[i].0;
            assert(self@[i as int].0 == p);
            if peer_id_to_u64(&p) == target {
                return Some(p);
            }
            i = i + 1;
        }
        None
    }

    /// A frame to send to the peer whose routing id is `target`: the request
    /// carrying the raw bytes, and the peer it goes to, when one is known.
    pub fn route_frame(&self, target: u64, raw: Bytes) -> (r: Option<(PeerId, FrameRequest)>)
        ensures
            match r {
                Some((p, req)) => bytes_view(req.raw) == bytes_view(raw) && exists|i: int|
                    0 <= i < self@.len() && #[trigger] self@[i].0 == p && peer_u64(p) == target
                        && no_route_before(self@, target, i),
                None => no_route_before(self@, target, self@.len() as int),
            },
    {
        match self.route(target) {
            Some(p) => Some((p, FrameRequest { raw })),
            None => None,
        }
    }
}

/// The relay reservations waiting for their connection: relay to circuit
/// address. Setting an entry for a relay replaces its address.
pub open spec fn expect_spec(t: Seq<(PeerId, Multiaddr)>, relay: PeerId, circuit: Multiaddr) -> Seq<
    (PeerId, Multiaddr),
> {
    if holds_peer(t, relay) {
        let i = peer_index(t, relay);
        t.update(i, (t[i].0, circuit))
    } else {
        t.push((relay, circuit))
    }
}

/// The circuit addresses to listen on once the connection to each relay is
/// established. Like `PeerTable`, a vector with one entry per relay rather
/// than a `HashMap` keyed by `PeerId`.
pub struct PendingRelays {
    entries: Vec<(PeerId, Multiaddr)>,
}

impl View for PendingRelays {
    type V = Seq<(PeerId, Multiaddr)>;

    closed spec fn view(&self) -> Seq<(PeerId, Multiaddr)> {
        self.entries@
    }
}

impl PendingRelays {
    /// One entry per relay.
    #[verifier::type_invariant]
    spec fn one_entry_per_relay(self) -> bool {
        distinct_peers(self.entries@)
    }

    /// No pending relay.
    pub fn new() -> (r: Self)
        ensures
            r@ == Seq::<(PeerId, Multiaddr)>::empty(),
            distinct_peers(r@),
    {
        PendingRelays { entries: Vec::new() }
    }

    /// Waits for the connection to `relay` in order to listen on `circuit`.
    pub fn expect(&mut self, relay: PeerId, circuit: Multiaddr)
        ensures
            final(self)@ == expect_spec(old(self)@, relay, circuit),
            distinct_peers(final(self)@),
    {
        proof {
            use_type_invariant(&*self);
        }
        let mut entries: Vec<(PeerId, Multiaddr)> = Vec::new();
        std::mem::swap(&mut entries, &mut self.entries);
        let ghost t = entries@;
        match find_peer(&entries, &relay) {
            Some(i) => {
                proof {
                    lemma_peer_index(t, relay, i as int);
                    lemma_distinct_update(t, i as int, circuit);
                }
                let old_key = entries[i].0;
                entries.set(i, (old_key, circuit));
                assert(entries@ =~= expect_spec(t, relay, circuit));
            },
            None => {
                proof {
                    lemma_distinct_push(t, relay, circuit);
                }
                entries.push((relay, circuit));
                assert(entries@ =~= expect_spec(t, relay, circuit));
            },
        }
        self.entries = entries;
    }

    /// Dialing a relay: waits for its connection in order to listen on the
    /// circuit address through it (the relay's address followed by
    /// `/p2p/<relay>/p2p-circuit`).
    pub fn connect_relay(&mut self, relay_addr: &Multiaddr, relay_peer_id: PeerId)
        ensures
            exists|circuit: Multiaddr|
                multiaddr_text(circuit) == circuit_text(*relay_addr, relay_peer_id) && final(self)@
                    == expect_spec(old(self)@, relay_peer_id, circuit),
            distinct_peers(final(self)@),
    {
        let circuit = relay_circuit(relay_addr, relay_peer_id);
        self.expect(relay_peer_id, circuit);
    }

    /// A connection to `peer` was established: the circuit address to listen
    /// on, if `peer` is a relay that was waited for; the wait ends.
    pub fn take(&mut self, peer: &PeerId) -> (r: Option<Multiaddr>)
        ensures
            holds_peer(old(self)@, *peer) ==> {
                let i = peer_index(old(self)@, *peer);
                &&& r == Some(old(self)@[i].1)
                &&& final(self)@ == old(self)@.remove(i)
            },
            !holds_peer(old(self)@, *peer) ==> r is None && final(self)@ == old(self)@,
            distinct_peers(final(self)@),
    {
        proof {
            use_type_invariant(&*self);
        }
        let mut entries: Vec<(PeerId, Multiaddr)> = Vec::new();
        std::mem::swap(&mut entries, &mut self.entries);
        let ghost t = entries@;
        let r = match find_peer(&entries, peer) {
            Some(i) => {
                proof {
                    lemma_peer_index(t, *peer, i as int);
                    lemma_distinct_remove(t, i as int);
                }
                let (_, addr) = entries.remove(i);
                Some(addr)
            },
            None => None,
        };
        self.entries = entries;
        r
    }
}

/// The frame carried by a request from a peer: its first 24 bytes are the
/// header and the rest is the payload. `None` when the request is shorter
/// than a header.
pub fn inbound_frame(raw: &Bytes) -> (r: Option<BinaryFrame>)
    ensures
        r is Some <==> bytes_view(*raw).len() >= HEADER_LEN,
        r matches Some(f) ==> f@ == decode_spec(bytes_view(*raw)),
{
    let s = bytes_as_slice(raw);
    if s.len() < HEADER_LEN {
        return None;
    }
    let header = header_at(s, 0);
    let payload = bytes_slice_from(raw, HEADER_LEN);
    let frame = BinaryFrame::from_raw(&header, payload);
    proof {
        let v = bytes_view(*raw);
        assert(header@.subrange(2, 10) =~= v.subrange(2, 10));
        assert(header@.subrange(10, 18) =~= v.subrange(10, 18));
    }
    Some(frame)
}

/// What the network does with a frame request from `peer`: the message that
/// carries the frame to the hub, or `None` when the request is too short to
/// hold a frame.
pub fn receive_frame(peer: PeerId, request: &FrameRequest) -> (r: Option<KnotMessage>)
    ensures
        r is Some <==> bytes_view(request.raw).len() >= HEADER_LEN,
        r matches Some(m) ==> (m matches KnotMessage::NetworkData { peer: p, frame } && p == peer
            && frame@ == decode_spec(bytes_view(request.raw))),
{
    match inbound_frame(&request.raw) {
        Some(frame) => Some(KnotMessage::NetworkData { peer, frame }),
        None => None,
    }
}

/// The node's identity read back from the bytes of its identity file: the
/// key pair decoded from them, or the text of the decoding error when the
/// file is corrupt.
pub fn identity_from_file(bytes: &[u8]) -> (r: Result<Keypair, String>)
    ensures
        match r {
            Ok(k) => keypair_decode(bytes@) == Ok::<Keypair, Seq<char>>(k),
            Err(e) => keypair_decode(bytes@) == Err::<Keypair, Seq<char>>(e@),
        },
{
    keypair_from_protobuf(bytes)
}

/// The TCP address on which the node listens, parsed.
pub fn tcp_listen_multiaddr(port: u16) -> (r: Result<Multiaddr, String>)
    ensures
        match r {
            Ok(a) => multiaddr_parse("/ip4/0.0.0.0/tcp/"@ + decimal(port as nat) + ""@) == Ok::<
                Seq<char>,
                Seq<char>,
            >(multiaddr_text(a)),
            Err(e) => multiaddr_parse("/ip4/0.0.0.0/tcp/"@ + decimal(port as nat) + ""@) == Err::<
                Seq<char>,
                Seq<char>,
            >(e@),
        },
{
    let text = tcp_listen_address(port);
    parse_multiaddr(text.as_str())
}

/// The QUIC address on which the node listens, parsed.
pub fn quic_listen_multiaddr(port: u16) -> (r: Result<Multiaddr, String>)
    ensures
        match r {
            Ok(a) => multiaddr_parse("/ip4/0.0.0.0/udp/"@ + decimal(port as nat) + "/quic-v1"@)
                == Ok::<Seq<char>, Seq<char>>(multiaddr_text(a)),
            Err(e) => multiaddr_parse("/ip4/0.0.0.0/udp/"@ + decimal(port as nat) + "/quic-v1"@)
                == Err::<Seq<char>, Seq<char>>(e@),
        },
{
    let text = quic_listen_address(port);
    parse_multiaddr(text.as_str())
}

/// The TCP address on which the node listens.
pub fn tcp_listen_address(port: u16) -> (r: String)
    ensures
        r@ == "/ip4/0.0.0.0/tcp/"@ + decimal(port as nat) + ""@,
{
    decimal_between("/ip4/0.0.0.0/tcp/", port as u64, "")
}

/// The QUIC address on which the node listens.
pub fn quic_listen_address(port: u16) -> (r: String)
    ensures
        r@ == "/ip4/0.0.0.0/udp/"@ + decimal(port as nat) + "/quic-v1"@,
{
    decimal_between("/ip4/0.0.0.0/udp/", port as u64, "/quic-v1")
}

/// A table grows into another when every peer keeps its place and every
/// peer's addresses stay, in order, at the front of its new addresses.
pub open spec fn table_grows(t: Seq<(PeerId, Seq<Multiaddr>)>, t2: Seq<(PeerId, Seq<Multiaddr>)>) -> bool {
    &&& t.len() <= t2.len()
    &&& forall|i: int|
        #![trigger t2[i]]
        0 <= i < t.len() ==> t2[i].0 == t[i].0 && t[i].1.is_prefix_of(t2[i].1)
}

/// Growing is transitive, so a table only grows across any run of events.
pub proof fn lemma_table_grows_trans(
    t1: Seq<(PeerId, Seq<Multiaddr>)>,
    t2: Seq<(PeerId, Seq<Multiaddr>)>,
    t3: Seq<(PeerId, Seq<Multiaddr>)>,
)
    requires
        table_grows(t1, t2),
        table_grows(t2, t3),
    ensures
        table_grows(t1, t3),
{
    assert forall|i: int| 0 <= i < t1.len() implies t3[i].0 == t1[i].0 && t1[i].1.is_prefix_of(
        t3[i].1,
    ) by {
        assert(t2[i].0 == t1[i].0 && t1[i].1.is_prefix_of(t2[i].1));
        assert(t3[i].0 == t2[i].0 && t2[i].1.is_prefix_of(t3[i].1));
        assert forall|k: int| 0 <= k < t1[i].1.len() implies t1[i].1[k] == t3[i].1[k] by {
            assert(t1[i].1[k] == t2[i].1[k]);
        }
    }
}

/// Learning an address never loses anything: the table grows by at most
/// one peer, keeps one entry per peer, and the new address is the last one
/// recorded for its peer.
pub proof fn lemma_add_keeps(t: Seq<(PeerId, Seq<Multiaddr>)>, peer: PeerId, addr: Multiaddr)
    requires
        distinct_peers(t),
    ensures
        ({
            let t2 = add_spec(t, peer, addr);
            &&& table_grows(t, t2)
            &&& t2.len() <= t.len() + 1
            &&& distinct_peers(t2)
            &&& holds_peer(t2, peer)
            &&& t2[peer_index(t2, peer)].1.last() == addr
        }),
{
    let t2 = add_spec(t, peer, addr);
    assert forall|k: int| 0 <= k < t.len() implies t2[k].0 == t[k].0 && t[k].1.is_prefix_of(
        t2[k].1,
    ) by {
        assert(t[k].1 =~= t2[k].1.subrange(0, t[k].1.len() as int));
    }
    if holds_peer(t, peer) {
        let i = peer_index(t, peer);
        lemma_distinct_update(t, i, t[i].1.push(addr));
        lemma_peer_index(t2, peer, i);
    } else {
        lemma_distinct_push(t, peer, seq![addr]);
        lemma_peer_index(t2, peer, t.len() as int);
    }
}

/// Learning several addresses never loses anything either: the table grows,
/// by at most one peer, keeps one entry per peer, and every address learnt
/// is recorded for the peer.
pub proof fn lemma_add_all_keeps(
    t: Seq<(PeerId, Seq<Multiaddr>)>,
    peer: PeerId,
    addrs: Seq<Multiaddr>,
)
    requires
        distinct_peers(t),
    ensures
        ({
            let t2 = add_all_spec(t, peer, addrs);
            &&& table_grows(t, t2)
            &&& t2.len() <= t.len() + 1
            &&& distinct_peers(t2)
            &&& addrs.len() > 0 ==> holds_peer(t2, peer) && addrs.is_suffix_of(
                t2[peer_index(t2, peer)].1,
            )
        }),
    decreases addrs.len(),
{
    if addrs.len() == 0 {
        assert(table_grows(t, t)) by {
            assert forall|i: int| 0 <= i < t.len() implies t[i].0 == t[i].0
                && t[i].1.is_prefix_of(t[i].1) by {
                assert(t[i].1 =~= t[i].1.subrange(0, t[i].1.len() as int));
            }
        }
    } else {
        let front = addrs.drop_last();
        let mid = add_all_spec(t, peer, front);
        lemma_add_all_keeps(t, peer, front);
        lemma_add_keeps(mid, peer, addrs.last());
        lemma_table_grows_trans(t, mid, add_all_spec(t, peer, addrs));
        let t2 = add_all_spec(t, peer, addrs);
        let j = peer_index(t2, peer);
        let l = t2[j].1;
        if front.len() > 0 {
            let jm = peer_index(mid, peer);
            // The peer's entry in `mid` is the same entry in `t2`.
            lemma_peer_index(t2, peer, jm);
            assert(mid[jm].1.is_prefix_of(l));
            assert(front.is_suffix_of(mid[jm].1));
            assert(l.len() == mid[jm].1.len() + 1) by {
                lemma_peer_index(mid, peer, jm);
            }
            assert forall|k: int| 0 <= k < addrs.len() implies addrs[k] == l[l.len() - addrs.len() + k] by {
                if k < front.len() {
                    assert(front[k] == mid[jm].1[mid[jm].1.len() - front.len() + k]);
                }
            }
        } else {
            assert(l.len() >= 1);
        }
        assert(addrs.is_suffix_of(l));
    }
}

/// A relay that is waited for gets, when its connection comes, exactly the
/// circuit address set last; the wait then ends, so a second connection to
/// it finds nothing.
pub proof fn lemma_relay_wait_once(t: Seq<(PeerId, Multiaddr)>, relay: PeerId, circuit: Multiaddr)
    requires
        distinct_peers(t),
    ensures
        ({
            let t2 = expect_spec(t, relay, circuit);
            let i = peer_index(t2, relay);
            &&& distinct_peers(t2)
            &&& holds_peer(t2, relay)
            &&& t2[i].1 == circuit
            &&& !holds_peer(t2.remove(i), relay)
        }),
{
    let t2 = expect_spec(t, relay, circuit);
    let i = if holds_peer(t, relay) {
        let i = peer_index(t, relay);
        lemma_distinct_update(t, i, circuit);
        i
    } else {
        lemma_distinct_push(t, relay, circuit);
        t.len() as int
    };
    lemma_peer_index(t2, relay, i);
    lemma_distinct_remove(t2, i);
    if holds_peer(t2.remove(i), relay) {
        let j = peer_index(t2.remove(i), relay);
        assert(peer_id_bytes(t2.remove(i)[j].0) == peer_id_bytes(t2[i].0));
    }
}

/// A frame crosses the network whole: the request carries its wire form,
/// the length prefix written before the request reads back as the request's
/// length (for requests shorter than 2^32 bytes), and the receiving side
/// reads the same frame from the request.
pub proof fn lemma_frame_crosses_network(f: FrameView)
    ensures
        encode_spec(f).len() >= HEADER_LEN,
        decode_spec(encode_spec(f)) == f,
        encode_spec(f).len() < 0x1_0000_0000 ==> from_be32(
            request_prefix_spec(encode_spec(f).len()),
        ) == encode_spec(f).len(),
{
    lemma_decode_encode(f);
    if encode_spec(f).len() < 0x1_0000_0000 {
        lemma_request_prefix_roundtrip(encode_spec(f).len());
    }
}

/// Learning an address for a peer touches only that peer's entry: every
/// other entry stays as it was, in its place; the peer's addresses gain the
/// new one at the end, or the peer gets a new last entry with that address
/// alone.
pub proof fn lemma_add_touches_only_its_peer(
    t: Seq<(PeerId, Seq<Multiaddr>)>,
    peer: PeerId,
    addr: Multiaddr,
)
    requires
        distinct_peers(t),
    ensures
        ({
            let t2 = add_spec(t, peer, addr);
            &&& forall|j: int|
                0 <= j < t.len() && peer_id_bytes(t[j].0) != peer_id_bytes(peer) ==> #[trigger] t2[j]
                    == t[j]
            &&& holds_peer(t, peer) ==> {
                let i = peer_index(t, peer);
                &&& t2.len() == t.len()
                &&& t2[i].0 == t[i].0
                &&& t2[i].1 == t[i].1 + seq![addr]
            }
            &&& !holds_peer(t, peer) ==> t2.len() == t.len() + 1 && t2[t.len() as int] == (
                peer,
                seq![addr],
            )
        }),
{
    let t2 = add_spec(t, peer, addr);
    if holds_peer(t, peer) {
        let i = peer_index(t, peer);
        assert(t[i].1.push(addr) =~= t[i].1 + seq![addr]);
        assert forall|j: int|
            0 <= j < t.len() && peer_id_bytes(t[j].0) != peer_id_bytes(peer) implies #[trigger] t2[j]
            == t[j] by {
            assert(j != i);
        }
    }
}

/// Learning several addresses for a peer touches only that peer's entry:
/// every other entry of the table stays as it was, in its place.
pub proof fn lemma_add_all_touches_only_its_peer(
    t: Seq<(PeerId, Seq<Multiaddr>)>,
    peer: PeerId,
    addrs: Seq<Multiaddr>,
)
    requires
        distinct_peers(t),
    ensures
        forall|j: int|
            0 <= j < t.len() && peer_id_bytes(t[j].0) != peer_id_bytes(peer) ==> #[trigger] add_all_spec(
                t,
                peer,
                addrs,
            )[j] == t[j],
    decreases addrs.len(),
{
    if addrs.len() > 0 {
        let front = addrs.drop_last();
        let mid = add_all_spec(t, peer, front);
        lemma_add_all_touches_only_its_peer(t, peer, front);
        lemma_add_all_keeps(t, peer, front);
        lemma_add_touches_only_its_peer(mid, peer, addrs.last());
        assert forall|j: int|
            0 <= j < t.len() && peer_id_bytes(t[j].0) != peer_id_bytes(peer) implies #[trigger] add_all_spec(
            t,
            peer,
            addrs,
        )[j] == t[j] by {
            assert(mid[j] == t[j]);
        }
    }
}

/// Waiting for one relay leaves the wait for every other relay as it was:
/// another relay is waited for afterwards exactly when it was before, with
/// the same circuit address; the table grows by at most one entry.
pub proof fn lemma_expect_keeps_other_relays(
    t: Seq<(PeerId, Multiaddr)>,
    relay: PeerId,
    circuit: Multiaddr,
    other: PeerId,
)
    requires
        distinct_peers(t),
        peer_id_bytes(other) != peer_id_bytes(relay),
    ensures
        ({
            let t2 = expect_spec(t, relay, circuit);
            &&& t2.len() <= t.len() + 1
            &&& holds_peer(t2, other) == holds_peer(t, other)
            &&& holds_peer(t, other) ==> t2[peer_index(t2, other)] == t[peer_index(t, other)]
        }),
{
    let t2 = expect_spec(t, relay, circuit);
    if holds_peer(t, relay) {
        let i = peer_index(t, relay);
        lemma_distinct_update(t, i, circuit);
    } else {
        lemma_distinct_push(t, relay, circuit);
    }
    if holds_peer(t, other) {
        let j = peer_index(t, other);
        assert(t2[j] == t[j]);
        lemma_peer_index(t2, other, j);
    }
    if holds_peer(t2, other) {
        let k = peer_index(t2, other);
        assert(k < t.len());
        assert(t2[k] == t[k]);
        assert(peer_id_bytes(t[k].0) == peer_id_bytes(other));
    }
}

/// Ending the wait for one relay leaves the wait for every other relay as
/// it was.
pub proof fn lemma_take_keeps_other_relays(t: Seq<(PeerId, Multiaddr)>, relay: PeerId, other: PeerId)
    requires
        distinct_peers(t),
        holds_peer(t, relay),
        peer_id_bytes(other) != peer_id_bytes(relay),
    ensures
        ({
            let t2 = t.remove(peer_index(t, relay));
            &&& t2.len() == t.len() - 1
            &&& holds_peer(t2, other) == holds_peer(t, other)
            &&& holds_peer(t, other) ==> t2[peer_index(t2, other)] == t[peer_index(t, other)]
        }),
{
    let i = peer_index(t, relay);
    let t2 = t.remove(i);
    lemma_distinct_remove(t, i);
    if holds_peer(t, other) {
        let j = peer_index(t, other);
        assert(j != i);
        let j2 = if j < i {
            j
        } else {
            j - 1
        };
        assert(t2[j2] == t[j]);
        lemma_peer_index(t2, other, j2);
    }
    if holds_peer(t2, other) {
        let k = peer_index(t2, other);
        let k2 = if k < i {
            k
        } else {
            k + 1
        };
        assert(t2[k] == t[k2]);
    }
}

/// Waits for two different relays do not disturb each other: after waiting
/// for `a` and then for `b`, the connection to `a` still finds the circuit
/// address set for `a`.
pub proof fn lemma_two_relays_wait_apart(
    t: Seq<(PeerId, Multiaddr)>,
    a: PeerId,
    circuit_a: Multiaddr,
    b: PeerId,
    circuit_b: Multiaddr,
)
    requires
        distinct_peers(t),
        peer_id_bytes(a) != peer_id_bytes(b),
    ensures
        ({
            let t2 = expect_spec(expect_spec(t, a, circuit_a), b, circuit_b);
            &&& holds_peer(t2, a)
            &&& t2[peer_index(t2, a)].1 == circuit_a
            &&& holds_peer(t2, b)
            &&& t2[peer_index(t2, b)].1 == circuit_b
        }),
{
    let t1 = expect_spec(t, a, circuit_a);
    lemma_relay_wait_once(t, a, circuit_a);
    lemma_expect_keeps_other_relays(t1, b, circuit_b, a);
    lemma_relay_wait_once(t1, b, circuit_b);
}

} // verus!
