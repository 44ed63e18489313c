//! Password-protected storage of an account: its encoding, encrypted under
//! a key derived from the password.
use vstd::prelude::*;
use vstd::utf8::encode_utf8;
use crate::encryption::{aes_gcm_sealed, decrypt, encrypt, MAX_PLAINTEXT, NONCE_SIZE};
use crate::errors::WalletError;
use crate::hash::{blake3_hash, blake3_of, copy_bytes};
use crate::wallet::{enc_account, Account, WALLET_VERSION};

verus! {

/// The key derived from a password: the hash of its bytes.
pub open spec fn password_key(password: Seq<u8>) -> Seq<u8> {
    blake3_of(password)
}

/// An account encrypted under a password.
pub struct Keystore {
    version: u32,
    encrypted_data: Vec<u8>,
    salt: Vec<u8>,
}

impl Keystore {
    /// The encrypted account: nonce, then sealed encoding.
    pub closed spec fn data(&self) -> Seq<u8> {
        self.encrypted_data@
    }

    /// Format version.
    pub closed spec fn version_spec(&self) -> u32 {
        self.version
    }

    /// The key derived from `password`: the 32-byte hash of its bytes.
    pub fn derive_key(password: &str) -> (r: Vec<u8>)
        ensures
            r@ == password_key(encode_utf8(password@)),
            r@.len() == 32,
    {
        let h = blake3_hash(password.as_bytes());
        copy_bytes(h.as_slice())
    }

    /// Encrypts `account` under the key derived from `password`.
    pub fn new(account: &Account, password: &str) -> (r: Result<Keystore, WalletError>)
        ensures
            enc_account(account.name_bytes(), account.view_spec(), account.spend_spec()).len() <= MAX_PLAINTEXT ==> r is Ok,
            r matches Ok(k) ==> k.version_spec() == WALLET_VERSION && k.data().len() >= NONCE_SIZE
                && k.data().subrange(NONCE_SIZE as int, k.data().len() as int) == aes_gcm_sealed(
                password_key(encode_utf8(password@)),
                k.data().subrange(0, NONCE_SIZE as int),
                Seq::empty(),
                enc_account(account.name_bytes(), account.view_spec(), account.spend_spec()),
            ),
    {
        let data = account.to_bytes();
        let key = Keystore::derive_key(password);
        match encrypt(data.as_slice(), key.as_slice()) {
            Ok(encrypted_data) => Ok(Keystore { version: WALLET_VERSION, encrypted_data, salt: vec![0u8; 32] }),
            Err(_) => Err(WalletError::CryptoError("Encryption failed".to_string())),
        }
    }

    /// Decrypts the account with the key derived from `password`.
    ///
    /// Fails with `InvalidPassword` where the data does not authenticate
    /// under that key, and with `SerializationError` where the decrypted
    /// bytes are not an account.
    pub fn decrypt(&self, password: &str) -> (r: Result<Account, WalletError>)
        ensures
            (exists|p: Seq<u8>| p.len() <= MAX_PLAINTEXT && self.data().len() >= NONCE_SIZE
                && self.data().subrange(NONCE_SIZE as int, self.data().len() as int) == aes_gcm_sealed(
                password_key(encode_utf8(password@)),
                self.data().subrange(0, NONCE_SIZE as int),
                Seq::empty(),
                p,
            )) ==> !(r matches Err(WalletError::InvalidPassword)),
            r matches Ok(a) ==> self.data().len() >= NONCE_SIZE && self.data().subrange(NONCE_SIZE as int, self.data().len() as int)
                == aes_gcm_sealed(
                password_key(encode_utf8(password@)),
                self.data().subrange(0, NONCE_SIZE as int),
                Seq::empty(),
                enc_account(a.name_bytes(), a.view_spec(), a.spend_spec()),
            ),
    {
        let key = Keystore::derive_key(password);
        assert(key@.len() == 32);
        let plain = match decrypt(self.encrypted_data.as_slice(), key.as_slice()) {
            Ok(p) => p,
            Err(_) => {
                return Err(WalletError::InvalidPassword);
            },
        };
        match Account::from_bytes(plain.as_slice()) {
            Some(a) => Ok(a),
            None => Err(WalletError::SerializationError("Not an account".to_string())),
        }
    }
}

} // verus!
