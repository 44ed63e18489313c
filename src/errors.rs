//! Error types of the ledger's layers.
use vstd::prelude::*;

verus! {

/// Errors of the transaction graph and its storage.
#[derive(Debug, Clone, PartialEq)]
pub enum NyxError {
    /// Transaction validation failed.
    InvalidTransaction(String),
    /// Graph operation error.
    DagError(String),
    /// Storage error.
    StorageError(String),
    /// Cryptographic operation failed.
    CryptoError(String),
    /// Transaction not found.
    TransactionNotFound(String),
    /// Double-spend detected.
    DoubleSpend(String),
    /// Invalid parent reference.
    InvalidParent(String),
    /// Tip selection failed.
    TipSelectionError(String),
    /// Consensus error.
    ConsensusError(String),
    /// Serialization error.
    SerializationError(String),
}

/// Errors of the cryptographic layer.
#[derive(Debug, Clone, PartialEq)]
pub enum CryptoError {
    /// Invalid key.
    InvalidKey(String),
    /// Hashing failed.
    HashError(String),
    /// Signature error.
    SignatureError(String),
    /// Ring signature error.
    RingSignatureError(String),
    /// Invalid key image.
    InvalidKeyImage(String),
    /// Stealth address error.
    StealthAddressError(String),
    /// Encryption failed.
    EncryptionError(String),
    /// Decryption failed.
    DecryptionError(String),
    /// Invalid input.
    InvalidInput(String),
    /// Serialization error.
    SerializationError(String),
    /// Random generation error.
    RandomError(String),
}

/// Errors of a running node.
#[derive(Debug, Clone, PartialEq)]
pub enum NodeError {
    /// Configuration error.
    ConfigError(String),
    /// Network error.
    NetworkError(String),
    /// Graph or storage error.
    CoreError(String),
    /// Wallet error.
    WalletError(String),
    /// Mempool error.
    MempoolError(String),
    /// RPC error.
    RpcError(String),
    /// I/O error.
    IoError(String),
    /// Start-up error.
    InitializationError(String),
}

/// Errors of the network layer.
#[derive(Debug, Clone, PartialEq)]
pub enum NetworkError {
    /// Connection failed.
    ConnectionError(String),
    /// I/O error.
    IoError(String),
    /// Encoding or decoding failed.
    SerializationError(String),
    /// Operation timed out.
    Timeout(String),
    /// Malformed or oversized message.
    InvalidMessage(String),
    /// No such peer.
    PeerNotFound(String),
    /// The peer table is full.
    MaxPeersReached,
    /// Sync failed.
    SyncError(String),
    /// Gossip failed.
    GossipError(String),
    /// Bad address.
    AddressError(String),
    /// Channel failure.
    ChannelError(String),
    /// The node is shutting down.
    Shutdown,
}

/// Errors of the wallet.
#[derive(Debug, Clone, PartialEq)]
pub enum WalletError {
    /// No such account.
    AccountNotFound(String),
    /// Not enough funds.
    InsufficientBalance {
        /// Amount needed.
        required: u64,
        /// Amount held.
        available: u64,
    },
    /// Malformed address.
    InvalidAddress(String),
    /// Keystore failure.
    KeystoreError(String),
    /// Cryptographic failure.
    CryptoError(String),
    /// Transaction could not be built.
    TransactionBuildError(String),
    /// Encoding failure.
    SerializationError(String),
    /// I/O failure.
    IoError(String),
    /// Wrong password.
    InvalidPassword,
    /// Missing file.
    FileNotFound(String),
    /// An account with that name exists.
    AccountExists(String),
}

} // verus!
