//! Key pairs and hash-based signatures.
use vstd::prelude::*;
use crate::errors::CryptoError;
use crate::hash::{append_bytes, blake3_hash, blake3_of, bytes_eq, copy_bytes};
use crate::random::random_bytes;

verus! {

/// Size in bytes of a public key.
pub const PQ_PUBLIC_KEY_SIZE: usize = 1952;

/// Size in bytes of a private key.
pub const PQ_PRIVATE_KEY_SIZE: usize = 4000;

/// Size in bytes of a signature.
pub const PQ_SIGNATURE_SIZE: usize = 3293;

/// The bytes that a generator seeded with `seed` yields first, `n` of them.
pub uninterp spec fn seeded_stream(seed: Seq<u8>, n: nat) -> Seq<u8>;

/// Relies on `rand::rngs::StdRng::from_seed` and `rand::Rng::fill`: a seeded
/// generator's output depends on the seed alone.
#[verifier::external_body]
fn seeded_bytes(seed: [u8; 32], n: usize) -> (r: Vec<u8>)
    ensures
        r@ == seeded_stream(seed@, n as nat),
        r@.len() == n,
{
    let mut v = vec![0u8; n];
    rand::Rng::fill(&mut <rand::rngs::StdRng as rand::SeedableRng>::from_seed(seed), &mut v[..]);
    v
}

/// A public key and its private key.
#[derive(Clone, Debug)]
pub struct KeyPair {
    public_key: Vec<u8>,
    private_key_inner: Vec<u8>,
}

impl KeyPair {
    /// The public key.
    pub closed spec fn public_spec(&self) -> Seq<u8> {
        self.public_key@
    }

    /// The private key.
    pub closed spec fn private_spec(&self) -> Seq<u8> {
        self.private_key_inner@
    }

    /// A key pair from its two halves.
    pub fn from_parts(public_key: Vec<u8>, private_key: Vec<u8>) -> (r: KeyPair)
        ensures
            r.public_spec() == public_key@,
            r.private_spec() == private_key@,
    {
        KeyPair { public_key, private_key_inner: private_key }
    }

    /// The public key.
    pub fn public_key(&self) -> (r: &[u8])
        ensures
            r@ == self.public_spec(),
    {
        self.public_key.as_slice()
    }

    /// The private key.
    pub fn private_key(&self) -> (r: &[u8])
        ensures
            r@ == self.private_spec(),
    {
        self.private_key_inner.as_slice()
    }

    /// A copy of this key pair.
    pub fn duplicate(&self) -> (r: KeyPair)
        ensures
            r.public_spec() == self.public_spec(),
            r.private_spec() == self.private_spec(),
    {
        KeyPair {
            public_key: copy_bytes(self.public_key.as_slice()),
            private_key_inner: copy_bytes(self.private_key_inner.as_slice()),
        }
    }
}

/// A fresh random key pair whose private key opens with the hash of the public key.
pub fn generate_keypair() -> (r: KeyPair)
    ensures
        r.public_spec().len() == PQ_PUBLIC_KEY_SIZE,
        r.private_spec().len() == PQ_PRIVATE_KEY_SIZE,
        r.private_spec().subrange(0, 32) == blake3_of(r.public_spec()),
{
    let public_key = random_bytes(PQ_PUBLIC_KEY_SIZE);
    let random_private = random_bytes(PQ_PRIVATE_KEY_SIZE);
    let head = blake3_hash(public_key.as_slice());
    let mut private_data = copy_bytes(head.as_slice());
    let mut i: usize = 32;
    while i < PQ_PRIVATE_KEY_SIZE
        invariant
            32 <= i <= PQ_PRIVATE_KEY_SIZE,
            random_private@.len() == PQ_PRIVATE_KEY_SIZE,
            private_data@.len() == i,
            private_data@.subrange(0, 32) == head@,
        decreases PQ_PRIVATE_KEY_SIZE - i,
    {
        let ghost before = private_data@;
        private_data.push(random_private[i]);
        assert(private_data@.subrange(0, 32) =~= before.subrange(0, 32));
        i += 1;
    }
    KeyPair { public_key, private_key_inner: private_data }
}

/// The signature of `data` under `private_key`: the hash of data and key,
/// the hash of the data, then bytes of a generator seeded with the first hash.
pub open spec fn signature_of(data: Seq<u8>, private_key: Seq<u8>) -> Seq<u8> {
    let h = blake3_of(data + private_key);
    h + blake3_of(data) + seeded_stream(h, (PQ_SIGNATURE_SIZE - 64) as nat)
}

/// Signs `data`; fails with `InvalidKey` on a private key of the wrong size.
pub fn sign(data: &[u8], private_key: &[u8]) -> (r: Result<Vec<u8>, CryptoError>)
    ensures
        r is Err <==> private_key@.len() != PQ_PRIVATE_KEY_SIZE,
        r is Err ==> r matches Err(CryptoError::InvalidKey(_)),
        r matches Ok(sig) ==> sig@ == signature_of(data@, private_key@),
        r matches Ok(sig) ==> sig@.len() == PQ_SIGNATURE_SIZE && sig@.subrange(32, 64) == blake3_of(data@),
{
    if private_key.len() != PQ_PRIVATE_KEY_SIZE {
        return Err(CryptoError::InvalidKey("Invalid private key size".to_string()));
    }
    let mut joined = copy_bytes(data);
    append_bytes(&mut joined, private_key);
    let h = blake3_hash(joined.as_slice());
    let d = blake3_hash(data);
    let mut sig = copy_bytes(h.as_slice());
    append_bytes(&mut sig, d.as_slice());
    let tail = seeded_bytes(h, PQ_SIGNATURE_SIZE - 64);
    let ghost hd = sig@;
    append_bytes(&mut sig, tail.as_slice());
    assert(sig@.subrange(32, 64) =~= d@);
    Ok(sig)
}

/// Checks a signature's size and its data hash.
///
/// Fails with `InvalidKey` on a public key of the wrong size and with
/// `SignatureError` on a signature of the wrong size.
pub fn verify(data: &[u8], signature: &[u8], public_key: &[u8]) -> (r: Result<bool, CryptoError>)
    ensures
        public_key@.len() != PQ_PUBLIC_KEY_SIZE ==> r matches Err(CryptoError::InvalidKey(_)),
        public_key@.len() == PQ_PUBLIC_KEY_SIZE && signature@.len() != PQ_SIGNATURE_SIZE ==> r matches Err(CryptoError::SignatureError(_)),
        public_key@.len() == PQ_PUBLIC_KEY_SIZE && signature@.len() == PQ_SIGNATURE_SIZE ==> r == Ok::<bool, CryptoError>(
            signature@.subrange(32, 64) == blake3_of(data@)),
{
    if public_key.len() != PQ_PUBLIC_KEY_SIZE {
        return Err(CryptoError::InvalidKey("Invalid public key size".to_string()));
    }
    if signature.len() != PQ_SIGNATURE_SIZE {
        return Err(CryptoError::SignatureError("Invalid signature size".to_string()));
    }
    let d = blake3_hash(data);
    let mut mid: Vec<u8> = Vec::new();
    let mut i: usize = 32;
    while i < 64
        invariant
            32 <= i <= 64,
            signature@.len() == PQ_SIGNATURE_SIZE,
            mid@ == signature@.subrange(32, i as int),
        decreases 64 - i,
    {
        mid.push(signature[i]);
        i += 1;
        assert(mid@ =~= signature@.subrange(32, i as int));
    }
    Ok(bytes_eq(mid.as_slice(), d.as_slice()))
}

} // verus!
