//! A wire-format codec and a synthetic-peer core for a Bitcoin-derived
//! peer-to-peer protocol: primitive and address encodings, payload types,
//! the message envelope, the per-kind message filter and the handshake
//! state machine of an emulated peer.

pub mod codec;
pub mod addr;
pub mod list;
pub mod reject;
pub mod inv;
pub mod version;
pub mod payload;
pub mod message;
pub mod filter;
pub mod handshake;
pub mod connection;
pub mod chain;
pub mod config;
mod external;
