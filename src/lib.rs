//! Authenticated duplex connections between holders of secp256k1 key pairs:
//! key encodings, signatures, single-use challenges, signed envelopes and the
//! handshake state machines that authenticate a peer.

pub mod encoding;
pub mod pki;
pub mod message;
pub mod handshake;
pub mod user;
pub mod address_book;
pub mod chats;
