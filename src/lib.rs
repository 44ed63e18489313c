//! A DAG-structured transaction ledger: transaction graph with confirmation
//! scores, weighted tip selection, gossip deduplication and batch sync.
use vstd::prelude::*;

pub mod errors;
pub mod gossip;
pub mod builder;
pub mod clock;
pub mod codec;
pub mod dag;
pub mod encryption;
pub mod decode;
pub mod hash;
pub mod keystore;
pub mod keys;
pub mod mempool;
pub mod message;
pub mod node;
pub mod peer;
pub mod random;
pub mod ring;
pub mod stealth;
pub mod storage;
pub mod sync;
pub mod tips;
pub mod transaction;
pub mod wallet;
pub mod wallet_builder;

verus! {

/// Protocol version.
pub const PROTOCOL_VERSION: u8 = 1;

/// Default ring size (one true member and fifteen decoys).
pub const DEFAULT_RING_SIZE: u8 = 16;

/// Snapshot interval, in seconds.
pub const SNAPSHOT_INTERVAL_SECS: u64 = 10;

/// Size in bytes of a symmetric key.
pub const AES_KEY_SIZE: usize = 32;

/// Size in bytes of a symmetric nonce.
pub const AES_NONCE_SIZE: usize = 12;

/// Size in bytes of a stealth address.
pub const STEALTH_ADDRESS_SIZE: usize = 32;

/// Default listening port.
pub const DEFAULT_PORT: u16 = 8000;

/// Heartbeat interval, in seconds.
pub const HEARTBEAT_INTERVAL_SECS: u64 = 30;

/// Connection timeout, in seconds.
pub const CONNECTION_TIMEOUT_SECS: u64 = 10;

/// Sync interval, in seconds.
pub const SYNC_INTERVAL_SECS: u64 = 60;

/// Node software version.
pub const NODE_VERSION: &'static str = "0.1.0";

} // verus!
