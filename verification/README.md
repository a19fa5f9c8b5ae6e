# rustp2p

A peer-to-peer overlay networking library whose wire formats and decision logic carry
machine-checked contracts (Verus).

## Layout

- `src/protocol/` — the NodeID-addressed overlay: node and group identifiers, the 16-byte
  packet header (`NetPacket`), range broadcasts and identifier-route replies.
- `src/cipher/` — payload encryption with AES-GCM or ChaCha20-Poly1305 (via `ring`), keys
  derived from a password (via `sha2`).
- `src/quic/` — the PeerId-addressed overlay used under QUIC: packet classification, the
  version-3 packet header, identities and certificates (via `rcgen`), the protobuf frames
  exchanged on QUIC streams and datagrams, NAT bookkeeping, peer records and the decisions
  of the protocol layer: whether a received packet is ignored, forwarded or delivered, the
  steps each delivered protocol message calls for (which route to confirm, which reply to
  send, when to punch), the bookkeeping done for every received packet, echo round-trip
  times, each tick of the maintenance loop (route queries, hello probes of unconfirmed route
  candidates, punches at most every ten seconds per peer), and the route entries a node
  advertises and learns (one hop added per advertiser).
- `src/stun.rs` — STUN server addresses completed with the default port 3478.
- `src/addr.rs`, `src/clock.rs`, `src/bytes.rs`, `src/error.rs` — small shared pieces.
- `tests/` — tests of the library on concrete values.

Each public function states its result in `ensures`; of the two clock readers (`now_millis`,
`now`), whose value is the machine's time, only what holds of every reading is stated (`now`
fails only with an error of kind `Other`). The `law_*` proof functions state the
properties that tie several functions together (what a read gives back of a write, what
every operation keeps).

Run `verus` on `src/lib.rs` to check the proofs, and `cargo test` to run the tests.
