use nyx::dag::{DagProcessor, TxState, CONFIRMATION_THRESHOLD, SCORE_UNIT};
use nyx::errors::NyxError;
use nyx::mempool::Mempool;
use nyx::ring::RingSignature;
use nyx::storage::MemoryStorage;
use nyx::tips::TipSelector;
use nyx::transaction::{Transaction, TxInput, TxOutput};

fn create_test_tx(parent1: [u8; 32], parent2: [u8; 32], nonce: u8) -> Transaction {
    Transaction::new(
        vec![TxInput { prev_tx: [nonce; 32], index: 0, key_image: [nonce; 32], ring_indices: vec![] }],
        vec![TxOutput {
            stealth_address: vec![nonce],
            amount_commitment: vec![],
            range_proof: vec![],
            ephemeral_pubkey: vec![],
        }],
        RingSignature { ring_members: vec![vec![1u8], vec![2u8]], signature: vec![nonce], key_image: [nonce; 32] },
        vec![nonce],
        parent1,
        parent2,
    )
}

fn score(dag: &DagProcessor, h: &[u8; 32]) -> f64 {
    dag.get_score(h).unwrap() as f64 / SCORE_UNIT as f64
}

#[test]
fn lib_test_constants() {
    assert_eq!(nyx::PROTOCOL_VERSION, 1);
    assert_eq!(nyx::DEFAULT_RING_SIZE, 16);
    assert_eq!(CONFIRMATION_THRESHOLD as f64 / SCORE_UNIT as f64, 100.0);
    assert_eq!(nyx::hash::HASH_SIZE, 32);
    assert_eq!(nyx::ring::RING_SIZE, 16);
    assert_eq!(nyx::AES_KEY_SIZE, 32);
    assert_eq!(nyx::DEFAULT_PORT, 8000);
    assert!(nyx::peer::MAX_PEERS > nyx::peer::MIN_PEERS);
    assert!(nyx::HEARTBEAT_INTERVAL_SECS > 0);
}

#[test]
fn test_store_and_retrieve() {
    let mut storage = MemoryStorage::new();
    let tx = create_test_tx([0u8; 32], [1u8; 32], 1);
    let expected_id = tx.id();
    let stored_id = storage.store_transaction(tx).unwrap();
    assert_eq!(stored_id, expected_id);
    let retrieved = storage.get_transaction(&stored_id).unwrap();
    assert_eq!(retrieved.id(), expected_id);
}

#[test]
fn test_confirmed_tracking() {
    let mut storage = MemoryStorage::new();
    let tx = create_test_tx([0u8; 32], [1u8; 32], 1);
    let tx_id = storage.store_transaction(tx).unwrap();
    assert!(!storage.is_confirmed(&tx_id).unwrap());
    storage.mark_confirmed(&tx_id).unwrap();
    assert!(storage.is_confirmed(&tx_id).unwrap());
}

#[test]
fn test_transaction_count() {
    let mut storage = MemoryStorage::new();
    assert_eq!(storage.transaction_count().unwrap(), 0);
    storage.store_transaction(create_test_tx([0u8; 32], [1u8; 32], 1)).unwrap();
    assert_eq!(storage.transaction_count().unwrap(), 1);
}

#[test]
fn storage_rejects_second_store() {
    let mut storage = MemoryStorage::new();
    let tx = create_test_tx([0u8; 32], [1u8; 32], 1);
    let copy = tx.duplicate();
    storage.store_transaction(tx).unwrap();
    assert!(matches!(storage.store_transaction(copy), Err(NyxError::StorageError(_))));
    assert_eq!(storage.transaction_count().unwrap(), 1);
    assert!(matches!(storage.get_transaction(&[9u8; 32]), Err(NyxError::TransactionNotFound(_))));
}

#[test]
fn test_genesis_transaction() {
    let mut storage = MemoryStorage::new();
    let genesis1 = create_test_tx([0u8; 32], [0u8; 32], 1);
    let genesis2 = create_test_tx([0u8; 32], [0u8; 32], 2);
    let gen1_hash = storage.store_transaction(genesis1).unwrap();
    let gen2_hash = storage.store_transaction(genesis2).unwrap();
    assert_ne!(gen1_hash, gen2_hash);
    let mut dag = DagProcessor::new(storage);
    let tx = create_test_tx(gen1_hash, gen2_hash, 3);
    let tx_hash = dag.add_transaction(tx).unwrap();
    assert_eq!(score(&dag, &tx_hash), 1.0);
    assert_eq!(dag.get_state(&tx_hash).unwrap(), TxState::Pending);
    assert_eq!(dag.get_tips().unwrap(), vec![tx_hash]);
    assert_eq!(score(&dag, &gen1_hash), 1.9);
}

#[test]
fn test_tip_tracking() {
    let mut storage = MemoryStorage::new();
    storage.store_transaction(create_test_tx([0u8; 32], [0u8; 32], 1)).unwrap();
    let dag = DagProcessor::new(storage);
    assert_eq!(dag.get_tips().unwrap().len(), 0);
}

#[test]
fn score_propagation_along_a_chain() {
    let mut dag = DagProcessor::new(MemoryStorage::new());
    let g1 = dag.store_root(create_test_tx([0u8; 32], [0u8; 32], 1)).unwrap();
    let g2 = dag.store_root(create_test_tx([0u8; 32], [0u8; 32], 2)).unwrap();
    let mut chain = vec![g1];
    for nonce in 3u8..8 {
        let parent = *chain.last().unwrap();
        let h = dag.add_transaction(create_test_tx(parent, g2, nonce)).unwrap();
        chain.push(h);
    }
    assert_eq!(score(&dag, chain.last().unwrap()), 1.0);
    for w in chain.windows(2) {
        assert!(score(&dag, &w[0]) > score(&dag, &w[1]));
        assert!(score(&dag, &w[1]) >= 1.0);
    }
    assert!(score(&dag, &chain[0]) < 10.0);
    assert_eq!(score(&dag, &chain[chain.len() - 2]), 1.9);
    assert_eq!(score(&dag, &chain[chain.len() - 3]), 2.71);
}

#[test]
fn tip_set_maintenance() {
    let mut dag = DagProcessor::new(MemoryStorage::new());
    let g1 = dag.store_root(create_test_tx([0u8; 32], [0u8; 32], 1)).unwrap();
    let g2 = dag.store_root(create_test_tx([0u8; 32], [0u8; 32], 2)).unwrap();
    let t1 = dag.add_transaction(create_test_tx(g1, g2, 3)).unwrap();
    let t2 = dag.add_transaction(create_test_tx(g1, g2, 4)).unwrap();
    let mut tips = dag.get_tips().unwrap();
    tips.sort();
    let mut expected = vec![t1, t2];
    expected.sort();
    assert_eq!(tips, expected);
    let t3 = dag.add_transaction(create_test_tx(t1, t2, 5)).unwrap();
    assert_eq!(dag.get_tips().unwrap(), vec![t3]);
    let stats = dag.get_stats().unwrap();
    assert_eq!(stats.current_tips, 1);
    assert_eq!(stats.total_transactions, 5);
}

#[test]
fn admission_errors() {
    let mut dag = DagProcessor::new(MemoryStorage::new());
    let g1 = dag.store_root(create_test_tx([0u8; 32], [0u8; 32], 1)).unwrap();
    let g2 = dag.store_root(create_test_tx([0u8; 32], [0u8; 32], 2)).unwrap();
    // same parent twice
    assert!(matches!(dag.add_transaction(create_test_tx(g1, g1, 3)), Err(NyxError::InvalidTransaction(_))));
    // unknown parent
    assert!(matches!(dag.add_transaction(create_test_tx(g1, [7u8; 32], 3)), Err(NyxError::InvalidParent(_))));
    // all-zero key image
    let mut tx = create_test_tx(g1, g2, 3);
    tx.inputs[0].key_image = [0u8; 32];
    assert!(matches!(dag.add_transaction(tx), Err(NyxError::InvalidTransaction(_))));
    // ring of one member
    let mut tx = create_test_tx(g1, g2, 3);
    tx.ring_signature.ring_members = vec![vec![1u8]];
    assert!(matches!(dag.add_transaction(tx), Err(NyxError::InvalidTransaction(_))));
    // admitted twice
    let tx = create_test_tx(g1, g2, 3);
    let copy = tx.duplicate();
    dag.add_transaction(tx).unwrap();
    assert!(matches!(dag.add_transaction(copy), Err(NyxError::StorageError(_))));
}

#[test]
fn timestamp_too_far_ahead_is_rejected() {
    let mut dag = DagProcessor::new(MemoryStorage::new());
    let g1 = dag.store_root(create_test_tx([0u8; 32], [0u8; 32], 1)).unwrap();
    let g2 = dag.store_root(create_test_tx([0u8; 32], [0u8; 32], 2)).unwrap();
    let now = 1_700_000_000u64;
    let mut tx = create_test_tx(g1, g2, 3);
    tx.timestamp = now + 7201;
    assert!(!tx.validate_structure_at(now));
    assert!(matches!(dag.add_transaction_at(tx, now), Err(NyxError::InvalidTransaction(_))));
    let mut tx = create_test_tx(g1, g2, 4);
    tx.timestamp = now + 7200;
    assert!(tx.validate_structure_at(now));
    assert!(dag.add_transaction_at(tx, now).is_ok());
}

#[test]
fn double_spend_is_conflicted() {
    let mut dag = DagProcessor::new(MemoryStorage::new());
    let g1 = dag.store_root(create_test_tx([0u8; 32], [0u8; 32], 1)).unwrap();
    let g2 = dag.store_root(create_test_tx([0u8; 32], [0u8; 32], 2)).unwrap();
    let first = dag.add_transaction(create_test_tx(g1, g2, 3)).unwrap();
    let mut tx = create_test_tx(g1, g2, 4);
    tx.inputs[0].key_image = [3u8; 32];
    let second = dag.add_transaction(tx).unwrap();
    assert_eq!(dag.get_state(&first).unwrap(), TxState::Pending);
    assert_eq!(dag.get_state(&second).unwrap(), TxState::Conflicted);
    assert!(!dag.is_confirmed(&second).unwrap());
}

#[test]
fn finalize_and_terminal_states() {
    let mut dag = DagProcessor::new(MemoryStorage::new());
    let g1 = dag.store_root(create_test_tx([0u8; 32], [0u8; 32], 1)).unwrap();
    let g2 = dag.store_root(create_test_tx([0u8; 32], [0u8; 32], 2)).unwrap();
    let t = dag.add_transaction(create_test_tx(g1, g2, 3)).unwrap();
    let mut c = create_test_tx(g1, g2, 4);
    c.inputs[0].key_image = [3u8; 32];
    let c = dag.add_transaction(c).unwrap();
    dag.finalize_transaction(&t).unwrap();
    dag.finalize_transaction(&c).unwrap();
    assert_eq!(dag.get_state(&t).unwrap(), TxState::Finalized);
    assert_eq!(dag.get_state(&c).unwrap(), TxState::Conflicted);
    assert!(dag.storage().is_confirmed(&t).unwrap());
    dag.add_transaction(create_test_tx(t, c, 5)).unwrap();
    assert_eq!(dag.get_state(&t).unwrap(), TxState::Finalized);
    assert_eq!(dag.get_state(&c).unwrap(), TxState::Conflicted);
    let stats = dag.get_stats().unwrap();
    assert_eq!(stats.finalized_transactions, 1);
}

#[test]
fn unknown_hash_queries() {
    let dag = DagProcessor::new(MemoryStorage::new());
    assert_eq!(dag.get_score(&[5u8; 32]).unwrap(), 0);
    assert_eq!(dag.get_state(&[5u8; 32]).unwrap(), TxState::Pending);
    assert!(!dag.is_confirmed(&[5u8; 32]).unwrap());
}

#[test]
fn empty_tip_set_fails() {
    let selector = TipSelector::new();
    let r = selector.select_tips_weighted(&vec![], &vec![]);
    assert!(matches!(r, Err(NyxError::TipSelectionError(_))));
}

#[test]
fn tip_selection_pairs() {
    let selector = TipSelector::new();
    let one = selector.select_tips_weighted(&vec![[1u8; 32]], &vec![5]).unwrap();
    assert_eq!(one, [[1u8; 32], [1u8; 32]]);
    for _ in 0..20 {
        let pair = selector.select_tips_weighted(&vec![[1u8; 32], [2u8; 32]], &vec![1, 1000]).unwrap();
        assert_ne!(pair[0], pair[1]);
    }
    let same = selector.select_tips_weighted(&vec![[1u8; 32], [1u8; 32]], &vec![1, 1]).unwrap();
    assert_eq!(same, [[1u8; 32], [1u8; 32]]);
}

#[test]
fn weighted_pick_and_alpha() {
    assert_eq!(nyx::tips::pick_weighted(&vec![0, 5], 3), 1);
    assert_eq!(nyx::tips::pick_weighted(&vec![2, 5], 1), 0);
    assert_eq!(nyx::tips::pick_weighted(&vec![2, 5], 2), 1);
    assert_eq!(nyx::tips::pick_weighted(&vec![2, 5], 100), 1);
    let mut s = TipSelector::with_alpha(2500);
    assert_eq!(s.alpha(), 1000);
    s.set_alpha(300);
    assert_eq!(s.alpha(), 300);
    assert_eq!(TipSelector::new().alpha(), 500);
}

#[test]
fn mempool_add_twice_is_idempotent() {
    let mut pool = Mempool::new(1);
    let tx = create_test_tx([0u8; 32], [1u8; 32], 1);
    let copy = tx.duplicate();
    let h1 = pool.add_transaction(tx).unwrap();
    let h2 = pool.add_transaction(copy).unwrap();
    assert_eq!(h1, h2);
    assert_eq!(pool.size(), 1);
}

#[test]
fn mempool_capacity_and_removal() {
    let mut pool = Mempool::new(2);
    let a = pool.add_transaction(create_test_tx([0u8; 32], [1u8; 32], 1)).unwrap();
    pool.add_transaction(create_test_tx([0u8; 32], [1u8; 32], 2)).unwrap();
    assert!(matches!(
        pool.add_transaction(create_test_tx([0u8; 32], [1u8; 32], 3)),
        Err(nyx::errors::NodeError::MempoolError(_))
    ));
    assert!(pool.get_transaction(&a).is_some());
    assert_eq!(pool.get_all_transactions().len(), 2);
    assert!(pool.remove_transaction(&a).is_some());
    assert!(pool.get_transaction(&a).is_none());
    assert_eq!(pool.size(), 1);
    pool.clear();
    assert_eq!(pool.size(), 0);
}

#[test]
fn transaction_encoding_and_id() {
    let tx = create_test_tx([0u8; 32], [1u8; 32], 1);
    let bytes = tx.to_bytes();
    assert_eq!(bytes[0], 1);
    assert_eq!(tx.id(), nyx::hash::blake3_hash(&bytes));
    let mut other = tx.duplicate();
    assert_eq!(other.id(), tx.id());
    other.extra = vec![1];
    assert_ne!(other.id(), tx.id());
}

#[test]
fn transaction_sign_and_verify() {
    let mut tx = create_test_tx([0u8; 32], [1u8; 32], 1);
    let ring = vec![vec![7u8; 4], vec![8u8; 4]];
    let msg = tx.signing_message();
    assert_eq!(msg.len(), 32);
    tx.sign(&msg, &[5u8; 10], &[7u8; 4], &ring).unwrap();
    assert_eq!(tx.verify_signature().unwrap(), true);
    assert!(tx.sign(&msg, &[5u8; 10], &[9u8; 4], &ring).is_err());
}

#[test]
fn conflicted_transaction_still_binds_its_key_images() {
    let mut dag = DagProcessor::new(MemoryStorage::new());
    let g1 = dag.store_root(create_test_tx([0u8; 32], [0u8; 32], 1)).unwrap();
    let g2 = dag.store_root(create_test_tx([0u8; 32], [0u8; 32], 2)).unwrap();
    let first = dag.add_transaction(create_test_tx(g1, g2, 3)).unwrap();
    // spends key image 3 (already bound) and a fresh key image 9
    let mut e = create_test_tx(g1, g2, 4);
    e.inputs[0].key_image = [3u8; 32];
    e.inputs.push(TxInput { prev_tx: [4u8; 32], index: 1, key_image: [9u8; 32], ring_indices: vec![] });
    let e = dag.add_transaction(e).unwrap();
    assert_eq!(dag.get_state(&e).unwrap(), TxState::Conflicted);
    // a later transaction spending only key image 9 conflicts with e
    let mut later = create_test_tx(g1, g2, 5);
    later.inputs[0].key_image = [9u8; 32];
    let later = dag.add_transaction(later).unwrap();
    assert_eq!(dag.get_state(&later).unwrap(), TxState::Conflicted);
    assert_eq!(dag.get_state(&first).unwrap(), TxState::Pending);
}

#[test]
fn new_at_stamps_the_given_time() {
    let tx = Transaction::new_at(vec![], vec![], RingSignature { ring_members: vec![], signature: vec![], key_image: [0u8; 32] }, vec![], [0u8; 32], [1u8; 32], 1234);
    assert_eq!(tx.timestamp, 1234);
    assert_eq!(tx.version, 1);
    assert!(tx.extra.is_empty());
}

#[test]
fn second_parent_falls_back_to_first_other_tip() {
    let selector = TipSelector::new();
    // all weight on the first tip: both draws hit it, so the second parent is the first other tip
    let tips = vec![[1u8; 32], [2u8; 32], [3u8; 32]];
    let pair = selector.select_tips_weighted(&tips, &vec![10, 0, 0]).unwrap();
    assert_eq!(pair, [[1u8; 32], [2u8; 32]]);
}

#[test]
fn finalize_keeps_tips() {
    let mut dag = DagProcessor::new(MemoryStorage::new());
    let g1 = dag.store_root(create_test_tx([0u8; 32], [0u8; 32], 1)).unwrap();
    let g2 = dag.store_root(create_test_tx([0u8; 32], [0u8; 32], 2)).unwrap();
    let t = dag.add_transaction(create_test_tx(g1, g2, 3)).unwrap();
    dag.finalize_transaction(&t).unwrap();
    assert_eq!(dag.get_tips().unwrap(), vec![t]);
}
