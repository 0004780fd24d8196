//! MTProto authorization-key handshake building blocks: the TL binary
//! serialization of the handshake packets, the unencrypted message
//! envelope, the abridged TCP framing and the cryptographic helpers.
pub mod le;
pub mod reader;
pub mod traits;
pub mod utils;
pub mod packets;
pub mod header;
pub mod network;
pub mod handshake;
pub mod primes;
