//! Wire messages: identifiers, canonical encoding and length-prefixed frames.
use vstd::prelude::*;
use crate::codec::{cat_byte_strings, enc_u32, enc_u64, put_byte_strings, put_bytes, put_u32, put_u64, enc_bytes};
use crate::errors::NetworkError;
use crate::hash::{append_bytes, blake3_hash, blake3_of};
use crate::transaction::{enc_tx, tx_id, Transaction, TxModel};

verus! {

/// Largest encoded message, in bytes (10 MiB).
pub const MAX_MESSAGE_SIZE: usize = 10485760;

/// Largest number of transactions in one sync response.
pub const MAX_SYNC_BATCH_SIZE: usize = 1000;

/// Payload of a message.
pub enum MessageType {
    /// A transaction to gossip.
    Transaction(Transaction),
    /// Liveness probe.
    Ping,
    /// Answer to a probe.
    Pong,
    /// Request for the transactions from a height on.
    SyncRequest {
        /// First height wanted.
        from_height: u64,
    },
    /// A batch of transactions answering a sync request.
    SyncResponse {
        /// The batch.
        transactions: Vec<Transaction>,
    },
    /// Known peer addresses, as text bytes.
    PeerDiscovery {
        /// The addresses.
        peers: Vec<Vec<u8>>,
    },
}

/// A message: content identifier, payload, creation time and optional sender.
pub struct Message {
    /// Content identifier.
    pub id: [u8; 32],
    /// Payload.
    pub message_type: MessageType,
    /// Creation time, seconds since the Unix epoch.
    pub timestamp: u64,
    /// Sender identifier, if given.
    pub sender: Option<Vec<u8>>,
}

/// The value of a payload.
pub enum KindModel {
    Transaction(TxModel),
    Ping,
    Pong,
    SyncRequest(u64),
    SyncResponse(Seq<TxModel>),
    PeerDiscovery(Seq<Seq<u8>>),
}

/// The value of a message.
pub struct MessageModel {
    pub id: Seq<u8>,
    pub kind: KindModel,
    pub timestamp: u64,
    pub sender: Option<Seq<u8>>,
}

impl View for MessageType {
    type V = KindModel;

    open spec fn view(&self) -> KindModel {
        match self {
            MessageType::Transaction(t) => KindModel::Transaction(t@),
            MessageType::Ping => KindModel::Ping,
            MessageType::Pong => KindModel::Pong,
            MessageType::SyncRequest { from_height } => KindModel::SyncRequest(*from_height),
            MessageType::SyncResponse { transactions } => KindModel::SyncResponse(
                transactions@.map_values(|t: Transaction| t@),
            ),
            MessageType::PeerDiscovery { peers } => KindModel::PeerDiscovery(
                peers@.map_values(|p: Vec<u8>| p@),
            ),
        }
    }
}

impl View for Message {
    type V = MessageModel;

    open spec fn view(&self) -> MessageModel {
        MessageModel {
            id: self.id@,
            kind: self.message_type@,
            timestamp: self.timestamp,
            sender: match self.sender {
                Some(s) => Some(s@),
                None => None,
            },
        }
    }
}

/// Name of a payload's kind.
pub open spec fn kind_label(k: KindModel) -> Seq<char> {
    match k {
        KindModel::Transaction(_) => "Transaction"@,
        KindModel::Ping => "Ping"@,
        KindModel::Pong => "Pong"@,
        KindModel::SyncRequest(_) => "SyncRequest"@,
        KindModel::SyncResponse(_) => "SyncResponse"@,
        KindModel::PeerDiscovery(_) => "PeerDiscovery"@,
    }
}

/// The bytes "ping".
pub open spec fn ping_tag() -> Seq<u8> {
    seq![112u8, 105, 110, 103]
}

/// The bytes "pong".
pub open spec fn pong_tag() -> Seq<u8> {
    seq![112u8, 111, 110, 103]
}

/// The payload-specific part of a message identifier.
pub open spec fn payload_digest(k: KindModel) -> Seq<u8> {
    match k {
        KindModel::Transaction(t) => tx_id(t),
        KindModel::Ping => ping_tag(),
        KindModel::Pong => pong_tag(),
        KindModel::SyncRequest(h) => enc_u64(h),
        KindModel::SyncResponse(txs) => enc_u64(txs.len() as u64),
        KindModel::PeerDiscovery(peers) => enc_u64(peers.len() as u64),
    }
}

/// Identifier of a message with payload `k` created at `timestamp`.
pub open spec fn message_id(k: KindModel, timestamp: u64) -> Seq<u8> {
    blake3_of(enc_u64(timestamp) + payload_digest(k))
}

/// Concatenated encodings of transactions.
pub open spec fn cat_txs(s: Seq<TxModel>) -> Seq<u8>
    decreases s.len(),
{
    if s.len() == 0 {
        Seq::empty()
    } else {
        cat_txs(s.drop_last()) + enc_tx(s.last())
    }
}

/// Canonical encoding of a payload: a tag, then the payload's fields.
pub open spec fn enc_kind(k: KindModel) -> Seq<u8> {
    match k {
        KindModel::Transaction(t) => enc_u32(0) + enc_tx(t),
        KindModel::Ping => enc_u32(1),
        KindModel::Pong => enc_u32(2),
        KindModel::SyncRequest(h) => enc_u32(3) + enc_u64(h),
        KindModel::SyncResponse(txs) => enc_u32(4) + enc_u64(txs.len() as u64) + cat_txs(txs),
        KindModel::PeerDiscovery(peers) => enc_u32(5) + enc_u64(peers.len() as u64) + cat_byte_strings(peers),
    }
}

/// Canonical encoding of an optional sender.
pub open spec fn enc_sender(s: Option<Seq<u8>>) -> Seq<u8> {
    match s {
        None => seq![0u8],
        Some(b) => seq![1u8] + enc_bytes(b),
    }
}

/// Canonical encoding of a message: identifier, payload, timestamp, sender.
pub open spec fn enc_message(m: MessageModel) -> Seq<u8> {
    m.id + enc_kind(m.kind) + enc_u64(m.timestamp) + enc_sender(m.sender)
}

/// The frame carrying `payload`: its length as four big-endian bytes, then the payload.
pub open spec fn frame_of(payload: Seq<u8>) -> Seq<u8> {
    seq![
        (payload.len() / 16777216) as u8,
        (payload.len() / 65536 % 256) as u8,
        (payload.len() / 256 % 256) as u8,
        (payload.len() % 256) as u8,
    ] + payload
}

/// The length that a four-byte big-endian frame header announces.
pub open spec fn header_length(h: Seq<u8>) -> int {
    h[0] * 16777216 + h[1] * 65536 + h[2] * 256 + h[3]
}

impl MessageType {
    /// Name of the payload's kind.
    pub fn kind_name(&self) -> (r: &'static str)
        ensures
            r@ == kind_label(self@),
    {
        match self {
            MessageType::Transaction(_) => "Transaction",
            MessageType::Ping => "Ping",
            MessageType::Pong => "Pong",
            MessageType::SyncRequest { .. } => "SyncRequest",
            MessageType::SyncResponse { .. } => "SyncResponse",
            MessageType::PeerDiscovery { .. } => "PeerDiscovery",
        }
    }

    /// Appends the canonical encoding of this payload.
    pub fn encode(&self, out: &mut Vec<u8>)
        ensures
            final(out)@ == old(out)@ + enc_kind(self@),
    {
        match self {
            MessageType::Transaction(t) => {
                put_u32(out, 0);
                t.encode(out);
            },
            MessageType::Ping => put_u32(out, 1),
            MessageType::Pong => put_u32(out, 2),
            MessageType::SyncRequest { from_height } => {
                put_u32(out, 3);
                put_u64(out, *from_height);
            },
            MessageType::SyncResponse { transactions } => {
                put_u32(out, 4);
                put_u64(out, transactions.len() as u64);
                let ghost start = out@;
                let ghost txs = transactions@.map_values(|t: Transaction| t@);
                let mut i: usize = 0;
                while i < transactions.len()
                    invariant
                        0 <= i <= transactions@.len(),
                        txs == transactions@.map_values(|t: Transaction| t@),
                        out@ == start + cat_txs(txs.take(i as int)),
                    decreases transactions@.len() - i,
                {
                    transactions[i].encode(out);
                    assert(txs.take(i + 1).drop_last() =~= txs.take(i as int));
                    i += 1;
                }
                assert(txs.take(transactions@.len() as int) =~= txs);
            },
            MessageType::PeerDiscovery { peers } => {
                put_u32(out, 5);
                put_byte_strings(out, peers);
            },
        }
        assert(final(out)@ =~= old(out)@ + enc_kind(self@));
    }

    /// The payload-specific part of the identifier.
    fn digest(&self) -> (r: Vec<u8>)
        ensures
            r@ == payload_digest(self@),
    {
        let mut out: Vec<u8> = Vec::new();
        match self {
            MessageType::Transaction(t) => {
                let h = t.id();
                append_bytes(&mut out, h.as_slice());
            },
            MessageType::Ping => {
                out.push(112u8);
                out.push(105u8);
                out.push(110u8);
                out.push(103u8);
            },
            MessageType::Pong => {
                out.push(112u8);
                out.push(111u8);
                out.push(110u8);
                out.push(103u8);
            },
            MessageType::SyncRequest { from_height } => put_u64(&mut out, *from_height),
            MessageType::SyncResponse { transactions } => put_u64(&mut out, transactions.len() as u64),
            MessageType::PeerDiscovery { peers } => put_u64(&mut out, peers.len() as u64),
        }
        assert(out@ =~= payload_digest(self@));
        out
    }
}

impl Message {
    /// The identifier of a message with `message_type` created at `timestamp`.
    pub fn compute_id(message_type: &MessageType, timestamp: u64) -> (r: [u8; 32])
        ensures
            r@ == message_id(message_type@, timestamp),
    {
        let mut data: Vec<u8> = Vec::new();
        put_u64(&mut data, timestamp);
        let d = message_type.digest();
        append_bytes(&mut data, d.as_slice());
        assert(data@ =~= enc_u64(timestamp) + payload_digest(message_type@));
        blake3_hash(data.as_slice())
    }

    /// A message created at `timestamp`, without sender.
    pub fn new_at(message_type: MessageType, timestamp: u64) -> (r: Message)
        ensures
            r.message_type == message_type,
            r.timestamp == timestamp,
            r.id@ == message_id(message_type@, timestamp),
            r.sender is None,
    {
        let id = Message::compute_id(&message_type, timestamp);
        Message { id, message_type, timestamp, sender: None }
    }

    /// A message created now, without sender.
    pub fn new(message_type: MessageType) -> (r: Message)
        ensures
            r.message_type == message_type,
            r.id@ == message_id(message_type@, r.timestamp),
            r.sender is None,
    {
        Message::new_at(message_type, crate::clock::unix_now())
    }

    /// This message with `sender` set.
    pub fn with_sender(self, sender: Vec<u8>) -> (r: Message)
        ensures
            r == (Message { sender: Some(sender), ..self }),
    {
        Message { sender: Some(sender), ..self }
    }

    /// The canonical encoding of this message.
    pub fn to_bytes(&self) -> (r: Vec<u8>)
        ensures
            r@ == enc_message(self@),
    {
        let mut out: Vec<u8> = Vec::new();
        append_bytes(&mut out, self.id.as_slice());
        self.message_type.encode(&mut out);
        put_u64(&mut out, self.timestamp);
        match &self.sender {
            None => out.push(0u8),
            Some(s) => {
                out.push(1u8);
                put_bytes(&mut out, s.as_slice());
            },
        }
        assert(out@ =~= enc_message(self@));
        out
    }
}

/// The frame for `payload`: four big-endian length bytes, then the payload.
///
/// Fails with `InvalidMessage` where the payload is longer than `MAX_MESSAGE_SIZE`.
pub fn frame(payload: &[u8]) -> (r: Result<Vec<u8>, NetworkError>)
    ensures
        r is Err <==> payload@.len() > MAX_MESSAGE_SIZE,
        r is Err ==> r matches Err(NetworkError::InvalidMessage(_)),
        r matches Ok(f) ==> f@ == frame_of(payload@),
{
    let n = payload.len();
    if n > MAX_MESSAGE_SIZE {
        return Err(NetworkError::InvalidMessage("Message too large".to_string()));
    }
    let mut out: Vec<u8> = Vec::new();
    out.push((n / 16777216) as u8);
    out.push((n / 65536 % 256) as u8);
    out.push((n / 256 % 256) as u8);
    out.push((n % 256) as u8);
    append_bytes(&mut out, payload);
    assert(out@ =~= frame_of(payload@));
    Ok(out)
}

/// The body length announced by a frame header.
///
/// Fails with `InvalidMessage` where it exceeds `MAX_MESSAGE_SIZE`.
pub fn frame_length(header: &[u8; 4]) -> (r: Result<usize, NetworkError>)
    ensures
        r is Err <==> header_length(header@) > MAX_MESSAGE_SIZE,
        r is Err ==> r matches Err(NetworkError::InvalidMessage(_)),
        r matches Ok(n) ==> n == header_length(header@),
{
    let n: u64 = header[0] as u64 * 16777216 + header[1] as u64 * 65536 + header[2] as u64 * 256
        + header[3] as u64;
    if n > MAX_MESSAGE_SIZE as u64 {
        return Err(NetworkError::InvalidMessage("Message too large".to_string()));
    }
    Ok(n as usize)
}

/// A frame's header announces the length of the payload it carries.
pub proof fn lemma_frame_header(payload: Seq<u8>)
    requires
        payload.len() <= MAX_MESSAGE_SIZE,
    ensures
        header_length(frame_of(payload).take(4)) == payload.len(),
        frame_of(payload).skip(4) == payload,
{
    let f = frame_of(payload);
    let n = payload.len() as int;
    assert(f.skip(4) =~= payload);
    assert(n == (n / 16777216) * 16777216 + (n / 65536 % 256) * 65536 + (n / 256 % 256) * 256 + n % 256) by (nonlinear_arith)
        requires
            0 <= n <= MAX_MESSAGE_SIZE,
    ;
}

} // verus!
