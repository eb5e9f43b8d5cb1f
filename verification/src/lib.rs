//! Replays historical Solana blocks through a banking stage: the rules for
//! choosing a snapshot, decoding the downloaded transactions, packing them and
//! waiting for them to be recorded.

pub mod decode;
pub mod download;
pub mod encoded;
pub mod message;
pub mod network;
pub mod packets;
pub mod replay;
pub mod results;
pub mod snapshot;
pub mod solana;
pub mod transactions;
pub mod wire;

pub use network::{Network, SOLANA_NETWORK_CREATION_TIME};
