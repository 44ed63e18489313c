//! Ring signatures over a set of member public keys, and key images.
use vstd::prelude::*;
use crate::errors::CryptoError;
use crate::hash::{append_bytes, blake3_hash, blake3_of, bytes_eq, copy_bytes};
use crate::random::random_array32;

verus! {

/// Largest number of members in a ring.
pub const RING_SIZE: usize = 16;

/// Size in bytes of a key image.
pub const KEY_IMAGE_SIZE: usize = 32;

/// A ring signature: the ring's members, the signature bytes and the signer's key image.
pub struct RingSignature {
    /// Public keys of the ring's members, the signer among them.
    pub ring_members: Vec<Vec<u8>>,
    /// Commitment followed by one response per member.
    pub signature: Vec<u8>,
    /// Key image of the signer.
    pub key_image: [u8; 32],
}

/// The value of a ring signature.
pub struct RingModel {
    pub ring_members: Seq<Seq<u8>>,
    pub signature: Seq<u8>,
    pub key_image: Seq<u8>,
}

impl View for RingSignature {
    type V = RingModel;

    open spec fn view(&self) -> RingModel {
        RingModel {
            ring_members: self.ring_members@.map_values(|m: Vec<u8>| m@),
            signature: self.signature@,
            key_image: self.key_image@,
        }
    }
}

/// Concatenation of byte strings, in order.
pub open spec fn concat(s: Seq<Seq<u8>>) -> Seq<u8>
    decreases s.len(),
{
    if s.len() == 0 {
        Seq::empty()
    } else {
        concat(s.drop_last()) + s.last()
    }
}

/// The tag appended to a private key to derive its key image.
pub open spec fn key_image_tag() -> Seq<u8> {
    seq![107u8, 101, 121, 95, 105, 109, 97, 103, 101]
}

/// Key image of a private key.
pub open spec fn key_image_of(private_key: Seq<u8>) -> Seq<u8> {
    blake3_of(private_key + key_image_tag())
}

/// The bytes that a ring signature commits to.
pub open spec fn commitment_input(message: Seq<u8>, members: Seq<Seq<u8>>, key_image: Seq<u8>) -> Seq<u8> {
    message + concat(members) + key_image
}

/// Whether the signature bytes open with the commitment to message, ring and key image.
pub open spec fn ring_signature_valid(message: Seq<u8>, r: RingModel) -> bool {
    r.signature.len() >= 32 && r.signature.subrange(0, 32) == blake3_of(
        commitment_input(message, r.ring_members, r.key_image),
    )
}

impl RingSignature {
    /// Number of members of the ring.
    pub fn ring_size(&self) -> (r: usize)
        ensures
            r == self@.ring_members.len(),
    {
        self.ring_members.len()
    }

    /// Whether `public_key` is a member of the ring.
    pub fn contains_member(&self, public_key: &[u8]) -> (r: bool)
        ensures
            r == self@.ring_members.contains(public_key@),
    {
        members_contain(&self.ring_members, public_key)
    }

    /// A copy of this signature.
    pub fn duplicate(&self) -> (r: RingSignature)
        ensures
            r@ == self@,
    {
        RingSignature {
            ring_members: copy_members(&self.ring_members),
            signature: copy_bytes(self.signature.as_slice()),
            key_image: self.key_image,
        }
    }
}

/// Whether `key` is among `members`.
pub fn members_contain(members: &Vec<Vec<u8>>, key: &[u8]) -> (r: bool)
    ensures
        r == members@.map_values(|m: Vec<u8>| m@).contains(key@),
{
    let ghost view = members@.map_values(|m: Vec<u8>| m@);
    let mut i: usize = 0;
    while i < members.len()
        invariant
            0 <= i <= members@.len(),
            view == members@.map_values(|m: Vec<u8>| m@),
            forall|j: int| 0 <= j < i ==> view[j] != key@,
        decreases members@.len() - i,
    {
        if bytes_eq(members[i].as_slice(), key) {
            assert(view[i as int] == key@);
            return true;
        }
        i += 1;
    }
    false
}

/// A copy of a list of byte strings.
pub fn copy_members(members: &Vec<Vec<u8>>) -> (r: Vec<Vec<u8>>)
    ensures
        r@.map_values(|m: Vec<u8>| m@) == members@.map_values(|m: Vec<u8>| m@),
{
    let mut r: Vec<Vec<u8>> = Vec::new();
    let mut i: usize = 0;
    while i < members.len()
        invariant
            0 <= i <= members@.len(),
            r@.len() == i,
            forall|j: int| 0 <= j < i ==> r@[j]@ == members@[j]@,
        decreases members@.len() - i,
    {
        r.push(copy_bytes(members[i].as_slice()));
        i += 1;
    }
    assert(r@.map_values(|m: Vec<u8>| m@) =~= members@.map_values(|m: Vec<u8>| m@));
    r
}

/// Appends the concatenation of `members` to `out`.
fn append_members(out: &mut Vec<u8>, members: &Vec<Vec<u8>>)
    ensures
        final(out)@ == old(out)@ + concat(members@.map_values(|m: Vec<u8>| m@)),
{
    let ghost view = members@.map_values(|m: Vec<u8>| m@);
    let mut i: usize = 0;
    while i < members.len()
        invariant
            0 <= i <= members@.len(),
            view == members@.map_values(|m: Vec<u8>| m@),
            out@ == old(out)@ + concat(view.take(i as int)),
        decreases members@.len() - i,
    {
        append_bytes(out, members[i].as_slice());
        proof {
            assert(view.take(i + 1).drop_last() =~= view.take(i as int));
            assert(view.take(i + 1).last() == view[i as int]);
        }
        i += 1;
    }
    assert(view.take(members@.len() as int) =~= view);
}

/// The tag bytes that key images are derived with.
fn key_image_tag_bytes() -> (r: Vec<u8>)
    ensures
        r@ == key_image_tag(),
{
    let r = vec![107u8, 101, 121, 95, 105, 109, 97, 103, 101];
    assert(r@ =~= key_image_tag());
    r
}

/// Derives the key image of a private key.
pub fn generate_key_image(private_key: &[u8]) -> (r: [u8; 32])
    ensures
        r@ == key_image_of(private_key@),
{
    let mut data = copy_bytes(private_key);
    let tag = key_image_tag_bytes();
    append_bytes(&mut data, tag.as_slice());
    blake3_hash(data.as_slice())
}

/// The commitment of a ring signature.
fn commitment(message: &[u8], members: &Vec<Vec<u8>>, key_image: &[u8; 32]) -> (r: crate::hash::Hash)
    ensures
        r@ == blake3_of(
            commitment_input(message@, members@.map_values(|m: Vec<u8>| m@), key_image@),
        ),
{
    let mut data = copy_bytes(message);
    append_members(&mut data, members);
    append_bytes(&mut data, key_image.as_slice());
    blake3_hash(data.as_slice())
}

/// Signs `message` on behalf of a ring that holds the signer's public key.
///
/// Fails on an empty ring, on a ring of more than `RING_SIZE` members, and when
/// `public_key` is not a member. On success the ring is kept as given, the key
/// image is that of `private_key`, and the signature verifies for `message`.
pub fn generate_ring_signature(
    message: &[u8],
    private_key: &[u8],
    public_key: &[u8],
    ring_members: &Vec<Vec<u8>>,
) -> (r: Result<RingSignature, CryptoError>)
    ensures
        r is Ok <==> (1 <= ring_members@.len() <= RING_SIZE && ring_members@.map_values(
            |m: Vec<u8>| m@,
        ).contains(public_key@)),
        r is Err ==> r matches Err(CryptoError::RingSignatureError(_)),
        r matches Ok(sig) ==> {
            &&& sig@.ring_members == ring_members@.map_values(|m: Vec<u8>| m@)
            &&& sig@.key_image == key_image_of(private_key@)
            &&& sig@.signature.len() == 32 * (ring_members@.len() + 1)
            &&& ring_signature_valid(message@, sig@)
        },
{
    if ring_members.len() == 0 {
        return Err(CryptoError::RingSignatureError("Ring must contain at least one member".to_string()));
    }
    if ring_members.len() > RING_SIZE {
        return Err(CryptoError::RingSignatureError("Ring too large".to_string()));
    }
    if !members_contain(ring_members, public_key) {
        return Err(CryptoError::RingSignatureError("Signer's public key not found in ring".to_string()));
    }
    let key_image = generate_key_image(private_key);
    let c = commitment(message, ring_members, &key_image);
    let mut signature = copy_bytes(c.as_slice());
    let mut i: usize = 0;
    while i < ring_members.len()
        invariant
            0 <= i <= ring_members@.len() <= RING_SIZE,
            signature@.len() == 32 * (i + 1),
            signature@.subrange(0, 32) == c@,
        decreases ring_members@.len() - i,
    {
        let response: crate::hash::Hash = if bytes_eq(ring_members[i].as_slice(), public_key) {
            let mut chunk = copy_bytes(private_key);
            append_bytes(&mut chunk, c.as_slice());
            chunk.push(i as u8);
            blake3_hash(chunk.as_slice())
        } else {
            random_array32()
        };
        let ghost before = signature@;
        append_bytes(&mut signature, response.as_slice());
        assert(signature@.subrange(0, 32) =~= before.subrange(0, 32));
        i += 1;
    }
    Ok(RingSignature { ring_members: copy_members(ring_members), signature, key_image })
}

/// Checks a ring signature against `message`.
///
/// Fails on a ring without members; otherwise tells whether the signature opens
/// with the commitment to the message, the ring and the key image.
pub fn verify_ring_signature(message: &[u8], ring_sig: &RingSignature) -> (r: Result<bool, CryptoError>)
    ensures
        r is Err <==> ring_sig@.ring_members.len() == 0,
        r is Err ==> r matches Err(CryptoError::RingSignatureError(_)),
        r matches Ok(b) ==> b == ring_signature_valid(message@, ring_sig@),
{
    if ring_sig.ring_members.len() == 0 {
        return Err(CryptoError::RingSignatureError("Ring signature has no members".to_string()));
    }
    let expected = commitment(message, &ring_sig.ring_members, &ring_sig.key_image);
    if ring_sig.signature.len() < 32 {
        return Ok(false);
    }
    let head = slice_prefix(ring_sig.signature.as_slice(), 32);
    Ok(bytes_eq(head.as_slice(), expected.as_slice()))
}

/// The first `n` bytes of `b`.
pub fn slice_prefix(b: &[u8], n: usize) -> (r: Vec<u8>)
    requires
        n <= b@.len(),
    ensures
        r@ == b@.subrange(0, n as int),
{
    let mut r: Vec<u8> = Vec::new();
    let mut i: usize = 0;
    while i < n
        invariant
            0 <= i <= n <= b@.len(),
            r@ == b@.subrange(0, i as int),
        decreases n - i,
    {
        r.push(b[i]);
        i += 1;
        assert(r@ =~= b@.subrange(0, i as int));
    }
    r
}

/// Whether two key images are equal.
pub fn key_images_equal(key_image1: &[u8; 32], key_image2: &[u8; 32]) -> (r: bool)
    ensures
        r == (key_image1@ == key_image2@),
{
    bytes_eq(key_image1.as_slice(), key_image2.as_slice())
}

/// Whether a key image is acceptable: not all zeros.
pub open spec fn key_image_ok(k: Seq<u8>) -> bool {
    exists|i: int| 0 <= i < k.len() && k[i] != 0
}

/// Rejects the all-zero key image.
pub fn validate_key_image(key_image: &[u8; 32]) -> (r: Result<(), CryptoError>)
    ensures
        r is Ok <==> key_image_ok(key_image@),
        r is Err ==> r matches Err(CryptoError::InvalidKeyImage(_)),
{
    let mut i: usize = 0;
    while i < 32
        invariant
            0 <= i <= 32,
            key_image@.len() == 32,
            forall|j: int| 0 <= j < i ==> key_image@[j] == 0,
        decreases 32 - i,
    {
        if key_image[i] != 0 {
            return Ok(());
        }
        i += 1;
    }
    Err(CryptoError::InvalidKeyImage("Key image cannot be all zeros".to_string()))
}

} // verus!
