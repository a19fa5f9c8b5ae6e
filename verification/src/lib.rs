//! Peer-to-peer overlay networking: wire formats, packet classification,
//! node identities, payload ciphers and NAT bookkeeping, each with a
//! machine-checked contract.

pub mod addr;
pub mod bytes;
pub mod clock;
pub mod cipher;
pub mod error;
pub mod protocol;
pub mod quic;
pub mod stun;
