//! Knot: the routing core of a peer-to-peer overlay node.
pub mod buffers;
pub mod wire;
pub mod framing;
pub mod p2p;
pub mod tou64;
pub mod codec;
pub mod text;
pub mod channels;
pub mod controller;
pub mod ingress;
pub mod swarm;
