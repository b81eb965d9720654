//! Wire layer of a peer-to-peer node: integer and address encodings, the
//! connection-announcement payload, message framing with a double-hash
//! checksum, and the handshake state machine.
pub mod factory;
pub mod handshake;
pub mod types;
pub mod wire;
