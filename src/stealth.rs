//! One-time stealth addresses on the Ed25519 curve. Points travel as their
//! 32-byte compressed encodings; scalars as 32 bytes reduced modulo the
//! group order.
use vstd::prelude::*;
use crate::errors::CryptoError;
use crate::hash::{blake3_hash, blake3_of, copy_bytes};

verus! {

/// Compressed encoding of the base point times the scalar that `s` reduces to.
pub uninterp spec fn base_mul_of(s: Seq<u8>) -> Seq<u8>;

/// Compressed encoding of the point encoded by `p` times the scalar that `s`
/// reduces to.
pub uninterp spec fn point_mul_of(s: Seq<u8>, p: Seq<u8>) -> Seq<u8>;

/// Compressed encoding of the sum of the points encoded by `p` and `q`.
pub uninterp spec fn point_add_of(p: Seq<u8>, q: Seq<u8>) -> Seq<u8>;

/// Relies on `curve25519_dalek` (`Scalar::from_bytes_mod_order`,
/// `EdwardsPoint::mul_base`, `compress`): the encoding depends on `s` alone.
#[verifier::external_body]
fn base_mul(s: [u8; 32]) -> (r: [u8; 32])
    ensures
        r@ == base_mul_of(s@),
{
    let k = curve25519_dalek::scalar::Scalar::from_bytes_mod_order(s);
    curve25519_dalek::edwards::EdwardsPoint::mul_base(&k).compress().to_bytes()
}

/// Relies on `curve25519_dalek` (`CompressedEdwardsY::from_slice`,
/// `decompress`, scalar multiplication, `compress`): fails where `p` is not
/// 32 bytes or encodes no point; the encoding depends on `s` and `p` alone.
#[verifier::external_body]
fn point_mul(s: [u8; 32], p: &[u8]) -> (r: Option<[u8; 32]>)
    ensures
        p@.len() != 32 ==> r is None,
        r matches Some(q) ==> q@ == point_mul_of(s@, p@),
{
    let k = curve25519_dalek::scalar::Scalar::from_bytes_mod_order(s);
    let point = curve25519_dalek::edwards::CompressedEdwardsY::from_slice(p).ok()?.decompress()?;
    Some((k * point).compress().to_bytes())
}

/// Relies on `curve25519_dalek` (`CompressedEdwardsY::from_slice`,
/// `decompress`, point addition, `compress`): fails where `p` is not 32
/// bytes or `p` or `q` encodes no point.
#[verifier::external_body]
fn point_add(p: &[u8], q: &[u8; 32]) -> (r: Option<[u8; 32]>)
    ensures
        p@.len() != 32 ==> r is None,
        r matches Some(x) ==> x@ == point_add_of(p@, q@),
{
    let a = curve25519_dalek::edwards::CompressedEdwardsY::from_slice(p).ok()?.decompress()?;
    let b = curve25519_dalek::edwards::CompressedEdwardsY(*q).decompress()?;
    Some((a + b).compress().to_bytes())
}

/// The stealth address for view and spend keys and ephemeral randomness:
/// hash(view · H(random)) · B + spend, with H(random) · B as the ephemeral key.
pub open spec fn stealth_of(view_public: Seq<u8>, spend_public: Seq<u8>, random: Seq<u8>) -> (Seq<u8>, Seq<u8>) {
    let r = blake3_of(random);
    let shared = point_mul_of(r, view_public);
    (point_add_of(spend_public, base_mul_of(blake3_of(shared))), base_mul_of(r))
}

/// Derives a one-time address for the recipient with the given view and spend
/// public keys; returns the address and the ephemeral public key.
///
/// Fails with `StealthAddressError` on keys that are not 32 bytes or do not
/// encode points.
pub fn generate_stealth_address(view_public: &[u8], spend_public: &[u8], random_data: &[u8]) -> (r: Result<(Vec<u8>, Vec<u8>), CryptoError>)
    ensures
        view_public@.len() != 32 || spend_public@.len() != 32 ==> r matches Err(CryptoError::StealthAddressError(_)),
        r is Err ==> r matches Err(CryptoError::StealthAddressError(_)),
        r matches Ok((a, e)) ==> (a@, e@) == stealth_of(view_public@, spend_public@, random_data@),
{
    if view_public.len() != 32 {
        return Err(CryptoError::StealthAddressError("View public key must be 32 bytes".to_string()));
    }
    if spend_public.len() != 32 {
        return Err(CryptoError::StealthAddressError("Spend public key must be 32 bytes".to_string()));
    }
    let r = blake3_hash(random_data);
    let ephemeral = base_mul(r);
    let shared = match point_mul(r, view_public) {
        Some(x) => x,
        None => {
            return Err(CryptoError::StealthAddressError("Invalid view public key".to_string()));
        },
    };
    let shared_hash = blake3_hash(shared.as_slice());
    let offset = base_mul(shared_hash);
    let address = match point_add(spend_public, &offset) {
        Some(x) => x,
        None => {
            return Err(CryptoError::StealthAddressError("Invalid spend public key".to_string()));
        },
    };
    Ok((copy_bytes(address.as_slice()), copy_bytes(ephemeral.as_slice())))
}

/// The shared secret a recipient computes: H(view_private) · ephemeral.
///
/// Fails with `StealthAddressError` on inputs that are not 32 bytes or an
/// ephemeral key that encodes no point.
pub fn derive_shared_secret(view_private: &[u8], ephemeral_public: &[u8]) -> (r: Result<Vec<u8>, CryptoError>)
    ensures
        view_private@.len() != 32 || ephemeral_public@.len() != 32 ==> r matches Err(CryptoError::StealthAddressError(_)),
        r is Err ==> r matches Err(CryptoError::StealthAddressError(_)),
        r matches Ok(s) ==> s@ == point_mul_of(blake3_of(view_private@), ephemeral_public@),
{
    if view_private.len() != 32 {
        return Err(CryptoError::StealthAddressError("View private key must be 32 bytes".to_string()));
    }
    if ephemeral_public.len() != 32 {
        return Err(CryptoError::StealthAddressError("Ephemeral public key must be 32 bytes".to_string()));
    }
    let k = blake3_hash(view_private);
    match point_mul(k, ephemeral_public) {
        Some(s) => Ok(copy_bytes(s.as_slice())),
        None => Err(CryptoError::StealthAddressError("Invalid ephemeral public key".to_string())),
    }
}

/// Whether `stealth_address` is the one-time address that the view private
/// key and spend public key recover from the ephemeral key.
pub fn is_mine(stealth_address: &[u8], view_private: &[u8], spend_public: &[u8], ephemeral_public: &[u8]) -> (r: Result<bool, CryptoError>)
    ensures
        r is Err ==> r matches Err(CryptoError::StealthAddressError(_)),
        r matches Ok(b) ==> b == (stealth_address@ == point_add_of(
            spend_public@,
            base_mul_of(blake3_of(point_mul_of(blake3_of(view_private@), ephemeral_public@))),
        )),
{
    let shared = match derive_shared_secret(view_private, ephemeral_public) {
        Ok(s) => s,
        Err(e) => {
            return Err(e);
        },
    };
    let offset = base_mul(blake3_hash(shared.as_slice()));
    match point_add(spend_public, &offset) {
        Some(x) => Ok(crate::hash::bytes_eq(stealth_address, x.as_slice())),
        None => Err(CryptoError::StealthAddressError("Invalid spend public key".to_string())),
    }
}

/// A fresh random 32-byte ephemeral secret.
pub fn generate_random_ephemeral() -> (r: Vec<u8>)
    ensures
        r@.len() == 32,
{
    crate::random::random_bytes(32)
}

/// A fresh Ed25519 key pair: a random private key and H(private) · B.
pub fn generate_keypair_ed25519() -> (r: (Vec<u8>, Vec<u8>))
    ensures
        r.0@.len() == 32,
        r.1@ == base_mul_of(blake3_of(r.0@)),
{
    let private = crate::random::random_array32();
    let public = base_mul(blake3_hash(private.as_slice()));
    (copy_bytes(private.as_slice()), copy_bytes(public.as_slice()))
}

} // verus!
