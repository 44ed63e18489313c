//! Authenticated symmetric encryption (AES-256-GCM) with a 12-byte nonce
//! stored in front of the ciphertext.
use vstd::prelude::*;
use crate::errors::CryptoError;
use crate::hash::{append_bytes, copy_bytes};
use crate::random::random_bytes;

verus! {

/// Size in bytes of a key.
pub const KEY_SIZE: usize = 32;

/// Size in bytes of a nonce.
pub const NONCE_SIZE: usize = 12;

/// Size in bytes of the authentication tag.
pub const TAG_SIZE: usize = 16;

/// Longest plaintext (and associated data) the cipher takes, in bytes.
pub const MAX_PLAINTEXT: u64 = 68719476736;

/// AES-256-GCM ciphertext with its tag appended, for key, nonce, associated
/// data and plaintext.
pub uninterp spec fn aes_gcm_sealed(key: Seq<u8>, nonce: Seq<u8>, aad: Seq<u8>, plaintext: Seq<u8>) -> Seq<u8>;

/// Relies on `aes_gcm::Aes256Gcm` (`KeyInit::new`, `Aead::encrypt`): the
/// result is a function of key, nonce, associated data and plaintext, one
/// 16-byte tag longer than the plaintext; it fails only past the length limits.
#[verifier::external_body]
fn seal(key: &[u8; 32], nonce: &[u8; 12], aad: &[u8], plaintext: &[u8]) -> (r: Option<Vec<u8>>)
    ensures
        plaintext@.len() <= MAX_PLAINTEXT && aad@.len() <= MAX_PLAINTEXT ==> r is Some,
        r matches Some(c) ==> c@ == aes_gcm_sealed(key@, nonce@, aad@, plaintext@) && c@.len() == plaintext@.len() + TAG_SIZE,
{
    let cipher = <aes_gcm::Aes256Gcm as aes_gcm::aead::KeyInit>::new(key.into());
    aes_gcm::aead::Aead::encrypt(&cipher, nonce.into(), aes_gcm::aead::Payload { msg: plaintext, aad }).ok()
}

/// Relies on `aes_gcm::Aes256Gcm` (`KeyInit::new`, `Aead::decrypt`): it
/// succeeds on what sealing under the same key, nonce and associated data
/// produced, and where it succeeds, sealing the returned plaintext gives the
/// ciphertext back (the tag is checked first).
#[verifier::external_body]
fn open(key: &[u8; 32], nonce: &[u8; 12], aad: &[u8], ciphertext: &[u8]) -> (r: Option<Vec<u8>>)
    ensures
        r matches Some(p) ==> ciphertext@ == aes_gcm_sealed(key@, nonce@, aad@, p@),
        (exists|p: Seq<u8>| p.len() <= MAX_PLAINTEXT && aad@.len() <= MAX_PLAINTEXT && ciphertext@ == aes_gcm_sealed(key@, nonce@, aad@, p))
            ==> r is Some,
{
    let cipher = <aes_gcm::Aes256Gcm as aes_gcm::aead::KeyInit>::new(key.into());
    aes_gcm::aead::Aead::decrypt(&cipher, nonce.into(), aes_gcm::aead::Payload { msg: ciphertext, aad }).ok()
}

/// A 32-byte key as an array.
fn key_array(b: &[u8]) -> (r: [u8; 32])
    requires
        b@.len() == 32,
    ensures
        r@ == b@,
{
    let mut a = [0u8; 32];
    let mut i: usize = 0;
    while i < 32
        invariant
            b@.len() == 32,
            0 <= i <= 32,
            forall|j: int| 0 <= j < i ==> a@[j] == b@[j],
        decreases 32 - i,
    {
        a[i] = b[i];
        i += 1;
    }
    assert(a@ =~= b@);
    a
}

/// The nonce held in the first twelve bytes of `b`.
fn nonce_array(b: &[u8]) -> (r: [u8; 12])
    requires
        b@.len() >= 12,
    ensures
        r@ == b@.subrange(0, 12),
{
    let mut a = [0u8; 12];
    let mut i: usize = 0;
    while i < 12
        invariant
            b@.len() >= 12,
            0 <= i <= 12,
            forall|j: int| 0 <= j < i ==> a@[j] == b@[j],
        decreases 12 - i,
    {
        a[i] = b[i];
        i += 1;
    }
    assert(a@ =~= b@.subrange(0, 12));
    a
}

/// Bytes from position 12 on.
fn after_nonce(b: &[u8]) -> (r: Vec<u8>)
    requires
        b@.len() >= 12,
    ensures
        r@ == b@.subrange(12, b@.len() as int),
{
    let mut r: Vec<u8> = Vec::new();
    let mut i: usize = 12;
    while i < b.len()
        invariant
            12 <= i <= b@.len(),
            r@ == b@.subrange(12, i as int),
        decreases b@.len() - i,
    {
        r.push(b[i]);
        i += 1;
        assert(r@ =~= b@.subrange(12, i as int));
    }
    r
}

/// A fresh random key.
pub fn generate_key() -> (r: Vec<u8>)
    ensures
        r@.len() == KEY_SIZE,
{
    random_bytes(KEY_SIZE)
}

/// Encrypts `plaintext` under `key` with the given nonce and associated data:
/// the nonce, then the sealed plaintext.
///
/// Fails with `EncryptionError` on a key that is not 32 bytes, a nonce that
/// is not 12 bytes, or inputs past the cipher's limits.
pub fn encrypt_with_aad(plaintext: &[u8], key: &[u8], nonce: &[u8], aad: &[u8]) -> (r: Result<Vec<u8>, CryptoError>)
    ensures
        key@.len() != KEY_SIZE || nonce@.len() != NONCE_SIZE ==> r matches Err(CryptoError::EncryptionError(_)),
        key@.len() == KEY_SIZE && nonce@.len() == NONCE_SIZE && plaintext@.len() <= MAX_PLAINTEXT && aad@.len() <= MAX_PLAINTEXT ==> r is Ok,
        r matches Ok(c) ==> c@ == nonce@ + aes_gcm_sealed(key@, nonce@, aad@, plaintext@),
{
    if key.len() != KEY_SIZE {
        return Err(CryptoError::EncryptionError("Invalid key size".to_string()));
    }
    if nonce.len() != NONCE_SIZE {
        return Err(CryptoError::EncryptionError("Invalid nonce size".to_string()));
    }
    let k = key_array(key);
    let n = nonce_array(nonce);
    assert(n@ == nonce@) by {
        assert(nonce@.subrange(0, 12) =~= nonce@);
    }
    match seal(&k, &n, aad, plaintext) {
        Some(sealed) => {
            let mut out = copy_bytes(nonce);
            append_bytes(&mut out, sealed.as_slice());
            Ok(out)
        },
        None => Err(CryptoError::EncryptionError("Encryption failed".to_string())),
    }
}

/// Encrypts `plaintext` under `key` with the given nonce and no associated data.
pub fn encrypt_with_nonce(plaintext: &[u8], key: &[u8], nonce: &[u8]) -> (r: Result<Vec<u8>, CryptoError>)
    ensures
        key@.len() != KEY_SIZE || nonce@.len() != NONCE_SIZE ==> r matches Err(CryptoError::EncryptionError(_)),
        key@.len() == KEY_SIZE && nonce@.len() == NONCE_SIZE && plaintext@.len() <= MAX_PLAINTEXT ==> r is Ok,
        r matches Ok(c) ==> c@ == nonce@ + aes_gcm_sealed(key@, nonce@, Seq::empty(), plaintext@),
{
    let empty: Vec<u8> = Vec::new();
    encrypt_with_aad(plaintext, key, nonce, empty.as_slice())
}

/// Encrypts `plaintext` under `key` with a fresh random nonce.
pub fn encrypt(plaintext: &[u8], key: &[u8]) -> (r: Result<Vec<u8>, CryptoError>)
    ensures
        key@.len() != KEY_SIZE ==> r matches Err(CryptoError::EncryptionError(_)),
        key@.len() == KEY_SIZE && plaintext@.len() <= MAX_PLAINTEXT ==> r is Ok,
        r matches Ok(c) ==> c@.len() >= NONCE_SIZE && c@.subrange(NONCE_SIZE as int, c@.len() as int)
            == aes_gcm_sealed(key@, c@.subrange(0, NONCE_SIZE as int), Seq::empty(), plaintext@),
{
    let nonce = random_bytes(NONCE_SIZE);
    let r = encrypt_with_nonce(plaintext, key, nonce.as_slice());
    proof {
        if r is Ok {
            let c = r->Ok_0;
            assert(c@.subrange(0, 12) =~= nonce@);
            assert(c@.subrange(12, c@.len() as int) =~= aes_gcm_sealed(key@, nonce@, Seq::empty(), plaintext@));
        }
    }
    r
}

/// Decrypts what `encrypt_with_aad` produced: nonce, then sealed text.
///
/// Fails with `DecryptionError` on a key that is not 32 bytes, a ciphertext
/// shorter than a nonce, or one that does not authenticate; a plaintext it
/// returns seals back to the ciphertext.
pub fn decrypt_with_aad(ciphertext: &[u8], key: &[u8], aad: &[u8]) -> (r: Result<Vec<u8>, CryptoError>)
    ensures
        key@.len() != KEY_SIZE || ciphertext@.len() < NONCE_SIZE ==> r matches Err(CryptoError::DecryptionError(_)),
        r is Err ==> r matches Err(CryptoError::DecryptionError(_)),
        r matches Ok(p) ==> ciphertext@.len() >= NONCE_SIZE && ciphertext@.subrange(NONCE_SIZE as int, ciphertext@.len() as int)
            == aes_gcm_sealed(key@, ciphertext@.subrange(0, NONCE_SIZE as int), aad@, p@),
        (exists|p: Seq<u8>| p.len() <= MAX_PLAINTEXT && aad@.len() <= MAX_PLAINTEXT && key@.len() == KEY_SIZE
            && ciphertext@.len() >= NONCE_SIZE && ciphertext@.subrange(NONCE_SIZE as int, ciphertext@.len() as int)
            == aes_gcm_sealed(key@, ciphertext@.subrange(0, NONCE_SIZE as int), aad@, p)) ==> r is Ok,
{
    if key.len() != KEY_SIZE {
        return Err(CryptoError::DecryptionError("Invalid key size".to_string()));
    }
    if ciphertext.len() < NONCE_SIZE {
        return Err(CryptoError::DecryptionError("Ciphertext too short".to_string()));
    }
    let k = key_array(key);
    let n = nonce_array(ciphertext);
    let body = after_nonce(ciphertext);
    match open(&k, &n, aad, body.as_slice()) {
        Some(p) => Ok(p),
        None => Err(CryptoError::DecryptionError("Decryption failed".to_string())),
    }
}

/// Decrypts what `encrypt` or `encrypt_with_nonce` produced.
pub fn decrypt(ciphertext: &[u8], key: &[u8]) -> (r: Result<Vec<u8>, CryptoError>)
    ensures
        key@.len() != KEY_SIZE || ciphertext@.len() < NONCE_SIZE ==> r matches Err(CryptoError::DecryptionError(_)),
        r is Err ==> r matches Err(CryptoError::DecryptionError(_)),
        r matches Ok(p) ==> ciphertext@.len() >= NONCE_SIZE && ciphertext@.subrange(NONCE_SIZE as int, ciphertext@.len() as int)
            == aes_gcm_sealed(key@, ciphertext@.subrange(0, NONCE_SIZE as int), Seq::empty(), p@),
        (exists|p: Seq<u8>| p.len() <= MAX_PLAINTEXT && Seq::<u8>::empty().len() <= MAX_PLAINTEXT && key@.len() == KEY_SIZE
            && ciphertext@.len() >= NONCE_SIZE && ciphertext@.subrange(NONCE_SIZE as int, ciphertext@.len() as int)
            == aes_gcm_sealed(key@, ciphertext@.subrange(0, NONCE_SIZE as int), Seq::<u8>::empty(), p)) ==> r is Ok,
{
    let empty: Vec<u8> = Vec::new();
    assert(empty@ =~= Seq::<u8>::empty());
    decrypt_with_aad(ciphertext, key, empty.as_slice())
}

} // verus!
