use nyx::dag::DagProcessor;
use nyx::errors::NetworkError;
use nyx::gossip::GossipEngine;
use nyx::node::{NodeAction, NodeCore};
use nyx::message::{frame, frame_length, Message, MessageType, MAX_MESSAGE_SIZE};
use nyx::peer::{Peer, PeerManager, PeerState};
use nyx::ring::RingSignature;
use nyx::storage::MemoryStorage;
use nyx::sync::{split_batches, SyncManager};
use nyx::transaction::{Transaction, TxInput, TxOutput};

fn create_test_tx(parent1: [u8; 32], parent2: [u8; 32], nonce: u8) -> Transaction {
    Transaction::new(
        vec![TxInput { prev_tx: [nonce; 32], index: 0, key_image: [nonce; 32], ring_indices: vec![] }],
        vec![TxOutput {
            stealth_address: vec![nonce],
            amount_commitment: vec![],
            range_proof: vec![],
            ephemeral_pubkey: vec![],
        }],
        RingSignature { ring_members: vec![vec![1u8], vec![2u8]], signature: vec![nonce], key_image: [nonce; 32] },
        vec![nonce],
        parent1,
        parent2,
    )
}

fn connected(id: u8) -> Peer {
    let mut p = Peer::new(vec![id], format!("127.0.0.1:{}", 9000 + id as u16), 0);
    p.update_state(PeerState::Connected);
    p
}

#[test]
fn test_node_version() {
    assert!(!nyx::NODE_VERSION.is_empty());
}

#[test]
fn oversized_frames_are_rejected() {
    let big = vec![0u8; MAX_MESSAGE_SIZE + 1];
    assert!(matches!(frame(&big), Err(NetworkError::InvalidMessage(_))));
    let n = (MAX_MESSAGE_SIZE + 1) as u32;
    assert!(matches!(frame_length(&n.to_be_bytes()), Err(NetworkError::InvalidMessage(_))));
    let m = MAX_MESSAGE_SIZE as u32;
    assert_eq!(frame_length(&m.to_be_bytes()).unwrap(), MAX_MESSAGE_SIZE);
}

#[test]
fn frame_layout() {
    assert_eq!(frame(&[1, 2, 3]).unwrap(), vec![0, 0, 0, 3, 1, 2, 3]);
    assert_eq!(frame_length(&[0, 0, 1, 2]).unwrap(), 258);
}

#[test]
fn message_ids_and_encoding() {
    let ping = Message::new_at(MessageType::Ping, 5);
    let pong = Message::new_at(MessageType::Pong, 5);
    assert_ne!(ping.id, pong.id);
    let mut data = 5u64.to_le_bytes().to_vec();
    data.extend_from_slice(b"ping");
    assert_eq!(ping.id, nyx::hash::blake3_hash(&data));
    let req = Message::new_at(MessageType::SyncRequest { from_height: 7 }, 5);
    let mut data = 5u64.to_le_bytes().to_vec();
    data.extend_from_slice(&7u64.to_le_bytes());
    assert_eq!(req.id, nyx::hash::blake3_hash(&data));
    let bytes = ping.to_bytes();
    assert_eq!(bytes.len(), 32 + 4 + 8 + 1);
    assert_eq!(&bytes[32..36], &[1, 0, 0, 0]);
    let with = Message::new_at(MessageType::Pong, 5).with_sender(vec![9, 9]);
    assert_eq!(with.to_bytes().len(), 32 + 4 + 8 + 1 + 8 + 2);
    assert_eq!(MessageType::Ping.kind_name(), "Ping");
    assert_eq!(MessageType::SyncRequest { from_height: 1 }.kind_name(), "SyncRequest");
}

#[test]
fn peer_table_capacity() {
    let mut manager = PeerManager::new(2);
    manager.add_peer(connected(1)).unwrap();
    manager.add_peer(connected(1)).unwrap();
    manager.add_peer(connected(2)).unwrap();
    assert!(!manager.can_accept_more());
    assert!(matches!(manager.add_peer(connected(3)), Err(NetworkError::MaxPeersReached)));
    assert_eq!(manager.peer_count(), 2);
    manager.set_peer_state(&vec![2], PeerState::Disconnected);
    assert_eq!(manager.connected_peers(), vec![0]);
    manager.remove_peer(&vec![1]);
    assert!(manager.get_peer(&vec![1]).is_none());
    assert!(manager.get_peer(&vec![2]).is_some());
    assert!(manager.can_accept_more());
}

#[test]
fn stale_peers() {
    let p = Peer::new(vec![1], "a".to_string(), 1000);
    assert!(!p.is_stale(1000 + 60_000, 30_000));
    assert!(p.is_stale(1000 + 60_001, 30_000));
    assert!(!p.is_stale(500, 30_000));
}

#[test]
fn gossip_dedup_under_repeated_broadcast() {
    let mut gossip = GossipEngine::new();
    let peers = vec![connected(1), connected(2), Peer::new(vec![3], "x".to_string(), 0)];
    let msg = Message::new(MessageType::Transaction(create_test_tx([0u8; 32], [1u8; 32], 1)));
    let first = gossip.broadcast(msg.id, &peers);
    assert_eq!(first, vec![0, 1]);
    for _ in 0..9 {
        assert!(gossip.broadcast(msg.id, &peers).is_empty());
    }
    assert_eq!(gossip.stats().seen_messages, 1);
    assert!(gossip.has_seen(&msg.id));
}

#[test]
fn gossip_seen_record_is_bounded() {
    let mut gossip = GossipEngine::new();
    for i in 0..10_000u32 {
        let mut id = [0u8; 32];
        id[..4].copy_from_slice(&i.to_le_bytes());
        gossip.mark_seen(id);
    }
    assert_eq!(gossip.stats().seen_messages, 10_000);
    gossip.mark_seen([0xffu8; 32]);
    assert_eq!(gossip.stats().seen_messages, 9_001);
    assert!(!gossip.has_seen(&[0u8; 32]));
    assert!(gossip.has_seen(&[0xffu8; 32]));
}

#[test]
fn gossip_forward_rule() {
    let mut dag = DagProcessor::new(MemoryStorage::new());
    let g1 = dag.store_root(create_test_tx([0u8; 32], [0u8; 32], 1)).unwrap();
    let g2 = dag.store_root(create_test_tx([0u8; 32], [0u8; 32], 2)).unwrap();
    let mut gossip = GossipEngine::new();
    let peers = vec![connected(1), connected(2)];
    let tx = create_test_tx(g1, g2, 3);
    let copy = tx.duplicate();
    let id = tx.id();
    let msg = Message::new(MessageType::Transaction(tx));
    let targets = gossip.receive_transaction(msg.id, copy, &vec![1], &peers, &mut dag);
    assert_eq!(targets, vec![1]);
    assert_eq!(dag.get_tips().unwrap(), vec![id]);
    let again = gossip.receive_transaction(msg.id, create_test_tx(g1, g2, 3), &vec![1], &peers, &mut dag);
    assert!(again.is_empty());
    gossip.register_peer(vec![1]);
    assert_eq!(gossip.stats().active_peers, 1);
    gossip.unregister_peer(&vec![1]);
    assert_eq!(gossip.stats().active_peers, 0);
}

#[test]
fn sync_state_machine() {
    let mut sync = SyncManager::new();
    sync.start_sync(1000);
    assert!(sync.is_syncing());
    assert_eq!(sync.get_state().target_height, Some(1000));
    sync.complete_sync();
    assert!(!sync.is_syncing());
    let req = sync.request_sync(42);
    assert!(matches!(req.message_type, MessageType::SyncRequest { from_height: 42 }));
    assert!(sync.is_syncing());
    assert_eq!(sync.get_state().current_height, 42);
}

#[test]
fn sync_response_admits_in_order() {
    let mut dag = DagProcessor::new(MemoryStorage::new());
    let g1 = dag.store_root(create_test_tx([0u8; 32], [0u8; 32], 1)).unwrap();
    let g2 = dag.store_root(create_test_tx([0u8; 32], [0u8; 32], 2)).unwrap();
    let t3 = create_test_tx(g1, g2, 3);
    let t3_id = t3.id();
    let t4 = create_test_tx(t3_id, g2, 4);
    let orphan = create_test_tx([9u8; 32], g2, 5);
    let mut sync = SyncManager::new();
    sync.start_sync(10);
    let added = sync.handle_sync_response(&mut dag, vec![t3, t4, orphan]);
    assert_eq!(added, 2);
    assert_eq!(sync.get_state().synced_count, 2);
}

#[test]
fn sync_batches() {
    let txs: Vec<Transaction> = (0..2500u32).map(|i| create_test_tx([0u8; 32], [1u8; 32], (i % 200) as u8 + 1)).collect();
    let batches = split_batches(txs, 1000);
    assert_eq!(batches.iter().map(|b| b.len()).collect::<Vec<_>>(), vec![1000, 1000, 500]);
    let sync = SyncManager::new();
    let msgs = sync.handle_sync_request(vec![create_test_tx([0u8; 32], [1u8; 32], 1)]);
    assert_eq!(msgs.len(), 1);
    assert!(sync.handle_sync_request(vec![]).is_empty());
}

fn round_trip(m: &Message) {
    let bytes = m.to_bytes();
    let decoded = nyx::decode::message_from_bytes(&bytes).unwrap();
    assert_eq!(decoded.id, m.id);
    assert_eq!(decoded.timestamp, m.timestamp);
    assert_eq!(decoded.to_bytes(), bytes);
}

#[test]
fn message_round_trip_all_kinds() {
    let tx = create_test_tx([3u8; 32], [4u8; 32], 9);
    round_trip(&Message::new_at(MessageType::Transaction(tx), 11));
    round_trip(&Message::new_at(MessageType::Ping, 1));
    round_trip(&Message::new_at(MessageType::Pong, 2).with_sender(vec![1, 2, 3]));
    round_trip(&Message::new_at(MessageType::SyncRequest { from_height: 77 }, 3));
    let batch = vec![create_test_tx([3u8; 32], [4u8; 32], 1), create_test_tx([3u8; 32], [5u8; 32], 2)];
    round_trip(&Message::new_at(MessageType::SyncResponse { transactions: batch }, 4));
    round_trip(&Message::new_at(MessageType::PeerDiscovery { peers: vec![b"127.0.0.1:9000".to_vec()] }, 5));
}

#[test]
fn malformed_messages_are_rejected() {
    let bytes = Message::new_at(MessageType::Ping, 1).to_bytes();
    assert!(matches!(nyx::decode::message_from_bytes(&bytes[..bytes.len() - 1]), Err(NetworkError::SerializationError(_))));
    let mut extra = bytes.clone();
    extra.push(0);
    assert!(nyx::decode::message_from_bytes(&extra).is_err());
    let mut bad_tag = bytes.clone();
    bad_tag[32] = 9;
    assert!(nyx::decode::message_from_bytes(&bad_tag).is_err());
    assert!(nyx::decode::message_from_bytes(&[]).is_err());
}

#[test]
fn node_dispatch() {
    let mut core = NodeCore::new(4);
    let peers = vec![connected(1), connected(2)];
    match core.handle_message(Message::new(MessageType::Ping), &vec![1], &peers) {
        NodeAction::Reply(ms) => {
            assert_eq!(ms.len(), 1);
            assert!(matches!(ms[0].message_type, MessageType::Pong));
        }
        _ => panic!("expected a reply"),
    }
    assert!(matches!(core.handle_message(Message::new(MessageType::Pong), &vec![1], &peers), NodeAction::RecordPong));
    let g1 = core.dag.store_root(create_test_tx([0u8; 32], [0u8; 32], 1)).unwrap();
    let g2 = core.dag.store_root(create_test_tx([0u8; 32], [0u8; 32], 2)).unwrap();
    let msg = Message::new(MessageType::Transaction(create_test_tx(g1, g2, 3)));
    let id = msg.id;
    match core.handle_message(msg, &vec![1], &peers) {
        NodeAction::Forward { message, targets } => {
            assert_eq!(message.id, id);
            assert_eq!(targets, vec![1]);
        }
        _ => panic!("expected a forward"),
    }
    let again = Message { id, message_type: MessageType::Ping, timestamp: 0, sender: None };
    assert!(matches!(core.handle_message(again, &vec![1], &peers), NodeAction::Reply(_)));
    match core.handle_message(Message::new(MessageType::SyncRequest { from_height: 0 }), &vec![2], &peers) {
        NodeAction::Reply(ms) => {
            assert_eq!(ms.len(), 1);
            match &ms[0].message_type {
                MessageType::SyncResponse { transactions } => assert_eq!(transactions.len(), 1),
                _ => panic!("expected a sync response"),
            }
        }
        _ => panic!("expected a reply"),
    }
    assert_eq!(core.stats().gossip_stats.seen_messages, 1);
}

#[test]
fn submit_path_admits_and_gossips() {
    let mut core = NodeCore::new(4);
    let g1 = core.dag.store_root(create_test_tx([0u8; 32], [0u8; 32], 1)).unwrap();
    let g2 = core.dag.store_root(create_test_tx([0u8; 32], [0u8; 32], 2)).unwrap();
    core.peers.add_peer(connected(1)).unwrap();
    let tx = create_test_tx(g1, g2, 3);
    let id = tx.id();
    let (message, targets) = core.submit_transaction(tx).unwrap();
    assert_eq!(targets, vec![0]);
    assert!(core.gossip.has_seen(&message.id));
    assert_eq!(core.dag.get_tips().unwrap(), vec![id]);
    assert_eq!(core.mempool.size(), 0);
    let bad = create_test_tx(g1, g1, 4);
    assert!(core.submit_transaction(bad).is_err());
    assert_eq!(core.mempool.size(), 0);
}

#[test]
fn heartbeat_probes_live_and_drops_stale() {
    let mut manager = PeerManager::new(4);
    manager.add_peer(connected(1)).unwrap();
    let mut recent = connected(2);
    recent.touch(50_000);
    manager.add_peer(recent).unwrap();
    manager.add_peer(Peer::new(vec![3], "c".to_string(), 0)).unwrap();
    let probe = manager.heartbeat(70_000, 30_000);
    assert_eq!(probe, vec![1]);
    assert_eq!(manager.get_peer(&vec![1]).unwrap().state, PeerState::Disconnected);
    assert_eq!(manager.get_peer(&vec![2]).unwrap().state, PeerState::Connected);
    assert_eq!(manager.get_peer(&vec![3]).unwrap().state, PeerState::Connecting);
    assert!(manager.touch_peer(&vec![2], 80_000));
    assert_eq!(manager.get_peer(&vec![2]).unwrap().last_seen_ms, 80_000);
    assert!(!manager.touch_peer(&vec![9], 1));
}

#[test]
fn sync_tick_and_completion() {
    let mut core = NodeCore::new(4);
    assert!(core.sync_tick(7).is_none());
    core.peers.add_peer(connected(1)).unwrap();
    core.peers.add_peer(connected(2)).unwrap();
    let (pick, request) = core.sync_tick(3).unwrap();
    assert_eq!(pick, 1);
    assert!(matches!(request.message_type, MessageType::SyncRequest { from_height: 0 }));
    assert!(core.sync.is_syncing());
    assert!(core.sync_tick(0).is_none());
    let done = core.handle_message(Message::new(MessageType::SyncResponse { transactions: vec![] }), &vec![1], &vec![]);
    assert!(matches!(done, NodeAction::Nothing));
    assert!(!core.sync.is_syncing());
}

#[test]
fn latency_needs_pong() {
    let mut p = connected(1);
    let ping = Message::new_at(MessageType::Ping, 1);
    assert!(matches!(p.finish_latency(&ping, 10, 20), Err(NetworkError::InvalidMessage(_))));
    let pong = Message::new_at(MessageType::Pong, 1);
    assert_eq!(p.finish_latency(&pong, 10, 25).unwrap(), 15);
    assert_eq!(p.latency_ms, Some(15));
    assert_eq!(p.last_seen_ms, 25);
}

#[test]
fn transaction_bytes_round_trip() {
    let tx = create_test_tx([3u8; 32], [4u8; 32], 9);
    let bytes = tx.to_bytes();
    let (back, end) = nyx::decode::parse_tx(&bytes, 0).unwrap();
    assert_eq!(end, bytes.len());
    assert_eq!(back.id(), tx.id());
    assert_eq!(back.references, tx.references);
    assert!(nyx::decode::parse_tx(&bytes[..bytes.len() - 1], 0).is_none());
}

#[test]
fn sync_response_at_fixed_time() {
    let mut dag = DagProcessor::new(MemoryStorage::new());
    let g1 = dag.store_root(create_test_tx([0u8; 32], [0u8; 32], 1)).unwrap();
    let g2 = dag.store_root(create_test_tx([0u8; 32], [0u8; 32], 2)).unwrap();
    let mut t3 = create_test_tx(g1, g2, 3);
    t3.timestamp = 1_000;
    let mut late = create_test_tx(g1, g2, 4);
    late.timestamp = 1_000 + 7_201;
    let mut sync = SyncManager::new();
    let added = sync.handle_sync_response_at(&mut dag, vec![t3, late], 1_000);
    assert_eq!(added, 1);
    assert_eq!(dag.storage().transaction_count().unwrap(), 3);
}

#[test]
fn sync_request_carries_admitted_transactions() {
    let mut dag = DagProcessor::new(MemoryStorage::new());
    let g1 = dag.store_root(create_test_tx([0u8; 32], [0u8; 32], 1)).unwrap();
    let g2 = dag.store_root(create_test_tx([0u8; 32], [0u8; 32], 2)).unwrap();
    let a = dag.add_transaction(create_test_tx(g1, g2, 3)).unwrap();
    let b = dag.add_transaction(create_test_tx(a, g2, 4)).unwrap();
    let all = dag.transactions_from_height(0);
    assert_eq!(all.iter().map(|t| t.id()).collect::<Vec<_>>(), vec![a, b]);
    let later = dag.transactions_from_height(3);
    assert_eq!(later.iter().map(|t| t.id()).collect::<Vec<_>>(), vec![b]);
    assert!(dag.transactions_from_height(100).is_empty());
}
