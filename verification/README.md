# Knot

Knot is a peer-to-peer overlay node: local applications hand it frames over
local sockets, and it carries them to other nodes over libp2p (QUIC, TCP,
relays and hole punching).

The routing logic is a Verus library (`src/`), proved against its contracts:

- `framing` — the binary frame (24-byte header plus payload), its encoding
  and decoding, and the round-trip laws.
- `wire` — big-endian integers.
- `codec` — the length-prefixed request/response protocol between peers.
- `tou64` — 64-bit routing ids of peers and hashed names.
- `controller` — the hub's decision for every message (`core_step`).
- `ingress` — the control protocol (`managed_step` and its replies), the
  registry of application ports, and delivery of frames to applications.
- `swarm` — the network side's bookkeeping: the peer table, routing by id,
  pending relay circuits, and frames received from peers.
- `buffers`, `p2p`, `text`, `channels` — the outside values the logic uses
  (`bytes` buffers, libp2p identities and addresses, formatted text, tokio
  reply channels) and the trusted wrappers that reach them.

`app/` is the daemon around the library: argument handling, the tokio tasks,
the sockets, the libp2p swarm and the JSON forms of the control protocol.
Each task performs what the library decides.
