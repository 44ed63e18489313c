use nyx::wallet::{Account, Utxo};
use nyx::wallet_builder::TransactionBuilder;

fn create_mock_utxo(amount: u64) -> Utxo {
    Utxo { tx_hash: [1u8; 32], index: 0, amount, key_image: vec![2u8; 32] }
}

#[test]
fn test_builder_creation() {
    let builder = TransactionBuilder::new();
    assert_eq!(builder.input_count(), 0);
    assert_eq!(builder.output_count(), 0);
}

#[test]
fn test_builder_add_input() {
    let builder = TransactionBuilder::new().add_input(create_mock_utxo(1000));
    assert_eq!(builder.input_count(), 1);
}

#[test]
fn test_builder_add_output() {
    let builder = TransactionBuilder::new().add_output(vec![1u8; 32], vec![2u8; 32], 500);
    assert_eq!(builder.output_count(), 1);
}

#[test]
fn test_builder_build() {
    let account = Account::generate();
    let tx = TransactionBuilder::new()
        .sender(account.clone())
        .add_input(create_mock_utxo(1000))
        .add_output(account.view_public_key().to_vec(), account.spend_public_key().to_vec(), 900)
        .build([0u8; 32], [1u8; 32])
        .unwrap();
    assert_eq!(tx.inputs.len(), 1);
    assert_eq!(tx.outputs.len(), 1);
}

#[test]
fn test_builder_no_sender() {
    let result = TransactionBuilder::new()
        .add_input(create_mock_utxo(1000))
        .add_output(vec![1u8; 32], vec![2u8; 32], 500)
        .build([0u8; 32], [1u8; 32]);
    assert!(result.is_err());
}

#[test]
fn test_builder_no_inputs() {
    let account = Account::generate();
    let result = TransactionBuilder::new()
        .sender(account)
        .add_output(vec![1u8; 32], vec![2u8; 32], 500)
        .build([0u8; 32], [1u8; 32]);
    assert!(result.is_err());
}

#[test]
fn test_builder_no_outputs() {
    let account = Account::generate();
    let result = TransactionBuilder::new()
        .sender(account)
        .add_input(create_mock_utxo(1000))
        .build([0u8; 32], [1u8; 32]);
    assert!(result.is_err());
}

#[test]
fn test_mock_amount_commitment() {
    let commitment1 = TransactionBuilder::mock_amount_commitment(1000);
    let commitment2 = TransactionBuilder::mock_amount_commitment(1000);
    assert_eq!(commitment1, commitment2);
    assert_eq!(commitment1.len(), 32);
    assert_eq!(commitment1, nyx::hash::blake3_hash(&1000u64.to_le_bytes()).to_vec());
}

#[test]
fn test_builder_with_ring_members() {
    let account = Account::generate();
    let ring_members = vec![vec![3u8; 32], vec![4u8; 32], vec![5u8; 32]];
    let tx = TransactionBuilder::new()
        .sender(account.clone())
        .add_input(create_mock_utxo(1000))
        .add_output(account.view_public_key().to_vec(), account.spend_public_key().to_vec(), 900)
        .with_ring_members(ring_members)
        .build([0u8; 32], [1u8; 32])
        .unwrap();
    assert_eq!(tx.inputs.len(), 1);
    assert_eq!(tx.ring_signature.ring_members.len(), 16);
}

#[test]
fn test_builder_multiple_inputs_outputs() {
    let account = Account::generate();
    let tx = TransactionBuilder::new()
        .sender(account.clone())
        .add_input(create_mock_utxo(500))
        .add_input(create_mock_utxo(500))
        .add_output(account.view_public_key().to_vec(), account.spend_public_key().to_vec(), 400)
        .add_output(account.view_public_key().to_vec(), account.spend_public_key().to_vec(), 500)
        .build([0u8; 32], [1u8; 32])
        .unwrap();
    assert_eq!(tx.inputs.len(), 2);
    assert_eq!(tx.outputs.len(), 2);
}

#[test]
fn wallet_recognises_its_outputs() {
    let wallet = nyx::wallet::Wallet::with_default_account();
    let account = wallet.get_active_account().unwrap().clone();
    let tx = TransactionBuilder::new()
        .sender(account.clone())
        .add_input(create_mock_utxo(1000))
        .add_output(account.view_public_key().to_vec(), account.spend_public_key().to_vec(), 900)
        .build([0u8; 32], [1u8; 32])
        .unwrap();
    let out = &tx.outputs[0];
    assert!(wallet.is_mine(&out.stealth_address, &out.ephemeral_pubkey).unwrap());
    let other = Account::generate();
    let tx2 = TransactionBuilder::new()
        .sender(other.clone())
        .add_input(create_mock_utxo(1000))
        .add_output(other.view_public_key().to_vec(), other.spend_public_key().to_vec(), 900)
        .build([0u8; 32], [1u8; 32])
        .unwrap();
    let out2 = &tx2.outputs[0];
    assert!(!wallet.is_mine(&out2.stealth_address, &out2.ephemeral_pubkey).unwrap());
}

#[test]
fn wallet_builder_ring_and_key() {
    let account = Account::generate();
    let tx = TransactionBuilder::new()
        .sender(account.clone())
        .add_input(Utxo { tx_hash: [7u8; 32], index: 3, amount: 5, key_image: vec![2u8; 32] })
        .add_output(account.view_public_key().to_vec(), account.spend_public_key().to_vec(), 1)
        .build([0u8; 32], [1u8; 32])
        .unwrap();
    assert_eq!(tx.inputs[0].prev_tx, [7u8; 32]);
    assert_eq!(tx.inputs[0].index, 3);
    assert_eq!(tx.tx_key, account.spend_public_key().to_vec());
    assert_eq!(tx.ring_signature.ring_members.len(), 16);
    assert_eq!(tx.ring_signature.ring_members[0], account.spend_public_key().to_vec());
    let too_many: Vec<Vec<u8>> = (0..16u8).map(|i| vec![i; 32]).collect();
    let r = TransactionBuilder::new()
        .sender(account.clone())
        .add_input(create_mock_utxo(1))
        .add_output(account.view_public_key().to_vec(), account.spend_public_key().to_vec(), 1)
        .with_ring_members(too_many)
        .build([0u8; 32], [1u8; 32]);
    assert!(matches!(r, Err(nyx::errors::WalletError::CryptoError(_))));
}
