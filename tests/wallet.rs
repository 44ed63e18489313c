use nyx::keystore::Keystore;
use nyx::wallet::{Account, Utxo, Wallet, WALLET_VERSION};

fn utxo(tag: u8, amount: u64) -> Utxo {
    Utxo { tx_hash: [tag; 32], index: 0, amount, key_image: vec![tag + 1; 32] }
}

#[test]
fn test_wallet_version() {
    assert_eq!(WALLET_VERSION, 1);
}

#[test]
fn test_account_generation() {
    let account = Account::generate();
    assert_eq!(account.name, "default");
    assert!(!account.view_public_key().is_empty());
    assert!(!account.spend_public_key().is_empty());
}

#[test]
fn test_account_keys() {
    let account = Account::generate();
    assert!(!account.view_private_key().is_empty());
    assert!(!account.view_public_key().is_empty());
    assert!(!account.spend_private_key().is_empty());
    assert!(!account.spend_public_key().is_empty());
    assert_eq!(account.get_address().view_public, account.view_public_key().to_vec());
}

#[test]
fn test_wallet_creation() {
    let wallet = Wallet::new();
    assert_eq!(wallet.account_count(), 0);
    assert_eq!(wallet.get_balance(), 0);
}

#[test]
fn test_wallet_with_default_account() {
    let wallet = Wallet::with_default_account();
    assert_eq!(wallet.account_count(), 1);
}

#[test]
fn test_add_utxo() {
    let mut wallet = Wallet::with_default_account();
    let account = wallet.get_active_account().unwrap().clone();
    wallet.add_utxo(&account.name, utxo(1, 1000)).unwrap();
    assert_eq!(wallet.get_balance(), 1000);
}

#[test]
fn test_get_balance() {
    let mut wallet = Wallet::with_default_account();
    let account = wallet.get_active_account().unwrap().clone();
    wallet.add_utxo(&account.name, utxo(1, 500)).unwrap();
    wallet.add_utxo(&account.name, utxo(2, 300)).unwrap();
    assert_eq!(wallet.get_balance(), 800);
}

#[test]
fn test_scan_outputs() {
    let mut wallet = Wallet::with_default_account();
    let found = wallet.scan_outputs().unwrap();
    assert!(found > 0);
    assert!(wallet.get_balance() > 0);
}

#[test]
fn test_refresh_balance() {
    let mut wallet = Wallet::with_default_account();
    let account = wallet.get_active_account().unwrap().clone();
    wallet.add_utxo(&account.name, utxo(1, 1000)).unwrap();
    wallet.refresh_balance();
    assert_eq!(wallet.get_balance(), 1000);
}

#[test]
fn test_get_utxos() {
    let mut wallet = Wallet::with_default_account();
    let account = wallet.get_active_account().unwrap().clone();
    wallet.add_utxo(&account.name, utxo(1, 1000)).unwrap();
    let utxos = wallet.get_utxos(&account.name);
    assert_eq!(utxos.len(), 1);
    assert_eq!(utxos[0].amount, 1000);
}

#[test]
fn test_add_account() {
    let mut wallet = Wallet::new();
    wallet.add_account(Account::generate_with_name("test".to_string())).unwrap();
    assert_eq!(wallet.account_count(), 1);
}

#[test]
fn test_duplicate_account() {
    let mut wallet = Wallet::new();
    wallet.add_account(Account::generate_with_name("test".to_string())).unwrap();
    assert!(wallet.add_account(Account::generate_with_name("test".to_string())).is_err());
}

#[test]
fn test_set_active_account() {
    let mut wallet = Wallet::new();
    wallet.add_account(Account::generate_with_name("acc1".to_string())).unwrap();
    wallet.add_account(Account::generate_with_name("acc2".to_string())).unwrap();
    wallet.set_active_account(1).unwrap();
    assert_eq!(wallet.get_active_account().unwrap().name, "acc2");
    assert!(wallet.set_active_account(2).is_err());
}

#[test]
fn test_set_active_account_by_name() {
    let mut wallet = Wallet::new();
    wallet.add_account(Account::generate_with_name("first".to_string())).unwrap();
    wallet.add_account(Account::generate_with_name("second".to_string())).unwrap();
    wallet.set_active_account_by_name("second").unwrap();
    assert_eq!(wallet.get_active_account().unwrap().name, "second");
}

#[test]
fn test_list_accounts() {
    let mut wallet = Wallet::new();
    wallet.add_account(Account::generate_with_name("acc1".to_string())).unwrap();
    wallet.add_account(Account::generate_with_name("acc2".to_string())).unwrap();
    let names = wallet.list_accounts();
    assert_eq!(names.len(), 2);
    assert!(names.contains(&"acc1".to_string()));
    assert!(names.contains(&"acc2".to_string()));
}

#[test]
fn wallet_stats_and_missing_accounts() {
    let mut wallet = Wallet::new();
    wallet.add_account(Account::generate_with_name("a".to_string())).unwrap();
    wallet.add_account(Account::generate_with_name("b".to_string())).unwrap();
    wallet.add_utxo("b", utxo(1, 5)).unwrap();
    let stats = wallet.get_stats();
    assert_eq!(stats.total_accounts, 2);
    assert_eq!(stats.active_account, 0);
    assert_eq!(stats.total_utxos, 1);
    assert_eq!(wallet.get_balance_for_account("b").unwrap(), 5);
    assert!(wallet.get_balance_for_account("c").is_err());
    assert!(wallet.add_utxo("c", utxo(1, 5)).is_err());
    assert!(wallet.get_utxos("c").is_empty());
}

#[test]
fn test_keystore_wrong_password() {
    let account = Account::generate();
    let keystore = Keystore::new(&account, "correct").unwrap();
    let result = keystore.decrypt("wrong");
    assert!(result.is_err());
}

#[test]
fn test_derive_key() {
    let key1 = Keystore::derive_key("password");
    let key2 = Keystore::derive_key("password");
    assert_eq!(key1, key2);
    assert_eq!(key1.len(), 32);
}

#[test]
fn test_keystore_encrypt_decrypt() {
    let account = Account::generate_with_name("encrypt_test".to_string());
    let keystore = Keystore::new(&account, "test123").unwrap();
    let decrypted = keystore.decrypt("test123").unwrap();
    assert_eq!(account.name, decrypted.name);
    assert_eq!(account.address, decrypted.address);
    assert_eq!(account.spend_private_key(), decrypted.spend_private_key());
}

#[test]
fn account_bytes_round_trip() {
    let account = Account::generate_with_name("näme".to_string());
    let bytes = account.to_bytes();
    let back = Account::from_bytes(&bytes).unwrap();
    assert_eq!(back.name, "näme");
    assert_eq!(back.to_bytes(), bytes);
    assert!(Account::from_bytes(&bytes[..bytes.len() - 1]).is_none());
}

#[test]
fn scan_adds_the_scanned_output() {
    let mut wallet = Wallet::with_default_account();
    wallet.scan_outputs().unwrap();
    let utxos = wallet.get_utxos("default");
    assert_eq!(utxos.len(), 1);
    assert_eq!(utxos[0].tx_hash, [0u8; 32]);
    assert_eq!(utxos[0].index, 0);
    assert_eq!(utxos[0].amount, 1000);
    assert_eq!(utxos[0].key_image, vec![1u8; 32]);
    assert!(Wallet::new().scan_outputs().is_err());
    assert_eq!(Wallet::new().get_stats().total_balance, 0);
}
