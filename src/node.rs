//! The node's decisions on incoming messages. The node's I/O runs outside
//! the library: it reads a message, asks `NodeCore::handle_message` what to
//! do, and performs the returned action.
use vstd::prelude::*;
use crate::dag::{admissible, DagProcessor};
use crate::errors::NyxError;
use crate::gossip::{seen_after, targets};
use crate::mempool::{Mempool, DEFAULT_MEMPOOL_SIZE};
use crate::transaction::{structurally_valid, tx_id, Transaction};
use crate::gossip::{GossipEngine, GossipStats};
use crate::message::{KindModel, Message, MessageType};
use crate::sync::{batch_of, models_of, sync_outcome};
use crate::peer::{Peer, PeerManager};
use crate::storage::MemoryStorage;
use crate::sync::{SyncManager, SyncState};

verus! {

/// What the node does after a message arrived.
pub enum NodeAction {
    /// Send `message` to the peers at positions `targets`.
    Forward {
        /// The message to send on.
        message: Message,
        /// Positions of the receiving peers.
        targets: Vec<usize>,
    },
    /// Send these messages back to the sender.
    Reply(Vec<Message>),
    /// Record these peer addresses.
    LearnPeers(Vec<Vec<u8>>),
    /// Record the sender's answer to a probe.
    RecordPong,
    /// Nothing to send.
    Nothing,
}

/// Counts describing a node.
#[derive(Debug, Clone)]
pub struct NodeStats {
    /// Connected peers.
    pub peer_count: usize,
    /// Gossip counts.
    pub gossip_stats: GossipStats,
    /// Sync progress.
    pub sync_state: SyncState,
}

/// Network counts reported by a full node.
#[derive(Debug, Clone)]
pub struct NetworkStats {
    /// Connected peers.
    pub peer_count: usize,
}

/// The state a node decides with: graph, gossip record, sync progress and peers.
pub struct NodeCore {
    /// The transaction graph.
    pub dag: DagProcessor,
    /// The gossip record.
    pub gossip: GossipEngine,
    /// The sync progress.
    pub sync: SyncManager,
    /// The peer table.
    pub peers: PeerManager,
    /// Transactions submitted and not yet admitted.
    pub mempool: Mempool,
}

impl NodeCore {
    /// Whether the graph and the peer table are well formed.
    pub open spec fn wf(&self) -> bool {
        self.dag.wf() && self.peers.wf() && self.mempool.wf()
    }

    /// A node with an empty graph and room for `max_peers` peers.
    pub fn new(max_peers: usize) -> (r: NodeCore)
        ensures
            r.wf(),
            r.dag.count() == 0,
            r.peers.capacity() == max_peers,
    {
        NodeCore {
            dag: DagProcessor::new(MemoryStorage::new()),
            gossip: GossipEngine::new(),
            sync: SyncManager::new(),
            peers: PeerManager::new(max_peers),
            mempool: Mempool::new(DEFAULT_MEMPOOL_SIZE),
        }
    }

    /// Decides what to do with `message` from the peer `from`; `peers` are
    /// the sessions to forward to.
    ///
    /// A transaction goes through the gossip forward rule: dropped when seen,
    /// otherwise offered to the graph and forwarded to every connected peer
    /// but the sender. A probe is answered with `Pong`. A sync request is
    /// answered with batches of the transactions from the asked height on;
    /// a sync response is offered to the graph in order. Peer addresses are
    /// handed back to be recorded.
    pub fn handle_message(&mut self, message: Message, from: &Vec<u8>, peers: &Vec<Peer>) -> (r: NodeAction)
        requires
            old(self).wf(),
        ensures
            final(self).wf(),
            message.message_type is Ping ==> (r matches NodeAction::Reply(ms) && ms@.len() == 1
                && ms@[0].message_type is Pong),
            message.message_type is Pong ==> r is RecordPong,
            message.message_type is Transaction && old(self).gossip.seen_ids().contains(message.id@) ==> r is Nothing
                && *final(self) == *old(self),
            message.message_type is SyncRequest ==> (r matches NodeAction::Reply(ms)
                && forall|k: int| 0 <= k < ms@.len() ==> (#[trigger] ms@[k]).message_type is SyncResponse),
            message.message_type is SyncRequest ==> (r matches NodeAction::Reply(ms)
                && ms@.map_values(|m: Message| batch_of(m)).flatten() == old(self).dag.txs_from(
                message.message_type->from_height as int,
                old(self).dag.count(),
            )) && final(self).dag == old(self).dag,
            message.message_type is Transaction && !old(self).gossip.seen_ids().contains(message.id@) ==> {
                &&& r matches NodeAction::Forward { message: m, targets: t } && m.id == message.id
                    && m.message_type@ == message.message_type@
                    && t@ == targets(peers@, Some(from@), peers@.len() as int)
                &&& final(self).gossip.seen_ids() == seen_after(old(self).gossip.seen_ids(), message.id@)
                &&& exists|now: u64|
                    #![trigger admissible(old(self).dag.stored(), message.message_type->Transaction_0@, now)]
                    (admissible(old(self).dag.stored(), message.message_type->Transaction_0@, now)
                        ==> final(self).dag.stored() == old(self).dag.stored().insert(
                        tx_id(message.message_type->Transaction_0@),
                        message.message_type->Transaction_0@,
                    )) && (!admissible(old(self).dag.stored(), message.message_type->Transaction_0@, now)
                        ==> final(self).dag == old(self).dag)
            },
            message.message_type is SyncResponse ==> r is Nothing && !final(self).sync.state_spec().is_syncing,
            message.message_type matches MessageType::SyncResponse { transactions } ==> exists|now: u64|
                #![trigger sync_outcome(old(self).dag.stored(), models_of(transactions@), now)]
                final(self).dag.stored() == sync_outcome(old(self).dag.stored(), models_of(transactions@), now).0
                && final(self).sync.state_spec().synced_count == if old(self).sync.state_spec().synced_count
                + sync_outcome(old(self).dag.stored(), models_of(transactions@), now).1 > usize::MAX {
                usize::MAX as int
            } else {
                old(self).sync.state_spec().synced_count + sync_outcome(old(self).dag.stored(), models_of(transactions@), now).1
            },
            message.message_type matches MessageType::PeerDiscovery { peers: addresses } ==> (r matches NodeAction::LearnPeers(a)
                && a == addresses) && *final(self) == *old(self),
    {
        let id = message.id;
        let timestamp = message.timestamp;
        let ghost kind = message.message_type@;
        match message.message_type {
            MessageType::Transaction(tx) => {
                if self.gossip.has_seen(&id) {
                    return NodeAction::Nothing;
                }
                let copy = tx.duplicate();
                let targets = self.gossip.receive_transaction(id, tx, from, peers, &mut self.dag);
                assert(kind == KindModel::Transaction(copy@));
                NodeAction::Forward {
                    message: Message { id, message_type: MessageType::Transaction(copy), timestamp, sender: None },
                    targets,
                }
            },
            MessageType::Ping => {
                let mut out: Vec<Message> = Vec::new();
                out.push(Message::new(MessageType::Pong));
                NodeAction::Reply(out)
            },
            MessageType::Pong => NodeAction::RecordPong,
            MessageType::SyncRequest { from_height } => {
                let txs = self.dag.transactions_from_height(from_height);
                NodeAction::Reply(self.sync.handle_sync_request(txs))
            },
            MessageType::SyncResponse { transactions } => {
                let ghost txs = transactions@;
                let ghost before = self.sync.state_spec();
                let added = self.sync.handle_sync_response(&mut self.dag, transactions);
                let ghost mid = self.sync.state_spec();
                self.sync.complete_sync();
                assert(self.sync.state_spec().synced_count == mid.synced_count);
                NodeAction::Nothing
            },
            MessageType::PeerDiscovery { peers: addresses } => NodeAction::LearnPeers(addresses),
        }
    }

    /// Submits a client transaction: it enters the pool, is admitted into
    /// the graph, leaves the pool, and is gossiped to every connected peer.
    ///
    /// A full pool fails with `DagError`; an admission failure is returned
    /// as the graph reported it, and the transaction leaves the pool.
    pub fn submit_transaction(&mut self, tx: Transaction) -> (r: Result<(Message, Vec<usize>), NyxError>)
        requires
            old(self).wf(),
        ensures
            final(self).wf(),
            !old(self).mempool.contains(tx_id(tx@)) && old(self).mempool.ids().len() >= old(self).mempool.capacity()
                ==> (r matches Err(NyxError::DagError(_))) && *final(self) == *old(self),
            (old(self).mempool.contains(tx_id(tx@)) || old(self).mempool.ids().len() < old(self).mempool.capacity())
                ==> exists|now: u64|
                #![trigger admissible(old(self).dag.stored(), tx@, now)]
                (r is Ok <==> admissible(old(self).dag.stored(), tx@, now)),
            r is Ok ==> final(self).dag.stored() == old(self).dag.stored().insert(tx_id(tx@), tx@),
            r matches Ok((m, t)) ==> final(self).gossip.seen_ids() == seen_after(old(self).gossip.seen_ids(), m.id@)
                && m.message_type@ == KindModel::Transaction(tx@)
                && (!old(self).gossip.seen_ids().contains(m.id@) ==> t@ == targets(
                old(self).peers.peer_seq(),
                None,
                old(self).peers.peer_seq().len() as int,
            )),
            !final(self).mempool.contains(tx_id(tx@)),
    {
        let pooled = tx.duplicate();
        let gossiped = tx.duplicate();
        let id = match self.mempool.add_transaction(pooled) {
            Ok(h) => h,
            Err(_) => {
                return Err(NyxError::DagError("Mempool is full".to_string()));
            },
        };
        let ghost t = tx@;
        let ghost before = self.dag;
        let admitted = self.dag.add_transaction(tx);
        proof {
            let now = choose|now: u64|
                #![trigger structurally_valid(t, now)]
                (admitted is Ok <==> (structurally_valid(t, now) && before.stored().contains_key(t.parent1)
                    && before.stored().contains_key(t.parent2) && !before.stored().contains_key(tx_id(t))));
            assert(admitted is Ok <==> admissible(before.stored(), t, now));
        }
        let _ = self.mempool.remove_transaction(&id);
        match admitted {
            Ok(_) => {
                let (message, targets) = self.gossip.gossip_transaction(gossiped, self.peers.peer_list());
                Ok((message, targets))
            },
            Err(e) => Err(e),
        }
    }

    /// The periodic sync's decision: where no sync is under way and some
    /// peer is connected, the connected peer chosen by `draw` is asked for the
    /// transactions from height zero on. Returns its position and the request.
    pub fn sync_tick(&mut self, draw: u64) -> (r: Option<(usize, Message)>)
        requires
            old(self).wf(),
        ensures
            final(self).wf(),
            final(self).dag == old(self).dag,
            final(self).peers == old(self).peers,
            r is None <==> (old(self).sync.state_spec().is_syncing || targets(
                old(self).peers.peer_seq(),
                None,
                old(self).peers.peer_seq().len() as int,
            ).len() == 0),
            r matches Some((i, m)) ==> {
                let c = targets(old(self).peers.peer_seq(), None, old(self).peers.peer_seq().len() as int);
                &&& i == c[(draw % (c.len() as u64)) as int]
                &&& m.message_type == (MessageType::SyncRequest { from_height: 0 })
                &&& final(self).sync.state_spec().is_syncing
            },
            r is None ==> final(self).sync == old(self).sync,
    {
        if self.sync.is_syncing() {
            return None;
        }
        let connected = self.peers.connected_peers();
        if connected.len() == 0 {
            return None;
        }
        let pick = connected[(draw % (connected.len() as u64)) as usize];
        let request = self.sync.request_sync(0);
        Some((pick, request))
    }

    /// Records that a message from `peer_id` arrived at `now_ms`.
    pub fn record_arrival(&mut self, peer_id: &Vec<u8>, now_ms: u64) -> (r: bool)
        requires
            old(self).wf(),
        ensures
            final(self).wf(),
            r == old(self).peers.has_peer(peer_id@),
    {
        self.peers.touch_peer(peer_id, now_ms)
    }

    /// Peer, gossip and sync counts.
    pub fn stats(&self) -> (r: NodeStats)
        ensures
            r.sync_state == self.sync.state_spec(),
            r.gossip_stats.seen_messages == self.gossip.seen_ids().len(),
    {
        NodeStats { peer_count: self.peers.peer_count(), gossip_stats: self.gossip.stats(), sync_state: self.sync.get_state() }
    }
}

} // verus!
