//! Content hashing and hex conversion of 32-byte hashes.
use vstd::prelude::*;

verus! {

/// Size in bytes of every hash.
pub const HASH_SIZE: usize = 32;

/// A 32-byte content hash.
pub type Hash = [u8; 32];

/// The BLAKE3 digest of a byte string, truncated to its first 32 bytes.
pub uninterp spec fn blake3_of(data: Seq<u8>) -> Seq<u8>;

/// Relies on `blake3::hash`: the 32-byte digest depends on the input bytes alone.
#[verifier::external_body]
fn blake3_digest(data: &[u8]) -> (r: [u8; 32])
    ensures
        r@ == blake3_of(data@),
{
    *blake3::hash(data).as_bytes()
}

/// BLAKE3 hash of `data`.
pub fn blake3_hash(data: &[u8]) -> (r: Hash)
    ensures
        r@ == blake3_of(data@),
{
    blake3_digest(data)
}

/// The Keccak-256 digest of a byte string.
pub uninterp spec fn keccak_of(data: Seq<u8>) -> Seq<u8>;

/// Relies on `sha3::Keccak256` through `digest::Digest::digest`: the 32-byte
/// digest depends on the input bytes alone.
#[verifier::external_body]
fn keccak_digest(data: &[u8]) -> (r: [u8; 32])
    ensures
        r@ == keccak_of(data@),
{
    <sha3::Keccak256 as sha3::Digest>::digest(data).into()
}

/// Keccak-256 hash of `data`.
pub fn keccak_hash(data: &[u8]) -> (r: Hash)
    ensures
        r@ == keccak_of(data@),
{
    keccak_digest(data)
}

/// BLAKE3 hash of the concatenation of `chunks`, in order.
pub fn hash_chunks(chunks: &Vec<Vec<u8>>) -> (r: Hash)
    ensures
        r@ == blake3_of(crate::ring::concat(chunks@.map_values(|c: Vec<u8>| c@))),
{
    let ghost view = chunks@.map_values(|c: Vec<u8>| c@);
    let mut data: Vec<u8> = Vec::new();
    let mut i: usize = 0;
    while i < chunks.len()
        invariant
            0 <= i <= chunks@.len(),
            view == chunks@.map_values(|c: Vec<u8>| c@),
            data@ == crate::ring::concat(view.take(i as int)),
        decreases chunks@.len() - i,
    {
        append_bytes(&mut data, chunks[i].as_slice());
        assert(view.take(i + 1).drop_last() =~= view.take(i as int));
        i += 1;
    }
    assert(view.take(chunks@.len() as int) =~= view);
    blake3_hash(data.as_slice())
}

/// Hash of the hash of `data`.
pub fn double_blake3(data: &[u8]) -> (r: Hash)
    ensures
        r@ == blake3_of(blake3_of(data@)),
{
    let first = blake3_hash(data);
    blake3_hash(first.as_slice())
}

/// Byte-wise equality of two byte sequences.
pub fn bytes_eq(a: &[u8], b: &[u8]) -> (r: bool)
    ensures
        r == (a@ == b@),
{
    if a.len() != b.len() {
        return false;
    }
    let mut i: usize = 0;
    while i < a.len()
        invariant
            a@.len() == b@.len(),
            0 <= i <= a@.len(),
            forall|j: int| 0 <= j < i ==> a@[j] == b@[j],
        decreases a@.len() - i,
    {
        if a[i] != b[i] {
            return false;
        }
        i += 1;
    }
    assert(a@ =~= b@);
    true
}

/// Equality of two hashes.
pub fn hash_eq(a: &Hash, b: &Hash) -> (r: bool)
    ensures
        r == (*a == *b),
        r == (a@ == b@),
{
    let r = bytes_eq(a.as_slice(), b.as_slice());
    proof {
        if a@ == b@ {
            assert(*a =~= *b);
        }
    }
    r
}

/// Copy of a byte sequence.
pub fn copy_bytes(v: &[u8]) -> (r: Vec<u8>)
    ensures
        r@ == v@,
{
    let mut r: Vec<u8> = Vec::with_capacity(v.len());
    let mut i: usize = 0;
    while i < v.len()
        invariant
            0 <= i <= v@.len(),
            r@ == v@.subrange(0, i as int),
        decreases v@.len() - i,
    {
        r.push(v[i]);
        i += 1;
        assert(r@ =~= v@.subrange(0, i as int));
    }
    assert(r@ =~= v@);
    r
}

/// Appends `src` to `dst`.
pub fn append_bytes(dst: &mut Vec<u8>, src: &[u8])
    ensures
        final(dst)@ == old(dst)@ + src@,
{
    let mut i: usize = 0;
    while i < src.len()
        invariant
            0 <= i <= src@.len(),
            dst@ == old(dst)@ + src@.subrange(0, i as int),
        decreases src@.len() - i,
    {
        dst.push(src[i]);
        i += 1;
        assert(dst@ =~= old(dst)@ + src@.subrange(0, i as int));
    }
    assert(src@.subrange(0, src@.len() as int) =~= src@);
}

/// Lower-case hex digit of a value below 16.
pub open spec fn hex_digit(n: u8) -> char {
    if n < 10 {
        (('0' as u8) + n) as char
    } else {
        (('a' as u8) + (n - 10)) as char
    }
}

/// Lower-case hex text of a byte string, two digits per byte, high nibble first.
pub open spec fn hex_text(b: Seq<u8>) -> Seq<char>
    decreases b.len(),
{
    if b.len() == 0 {
        Seq::empty()
    } else {
        hex_text(b.drop_last()) + seq![hex_digit(b.last() / 16), hex_digit(b.last() % 16)]
    }
}

/// Whether `c` is a hex digit of either case.
pub open spec fn is_hex_char(c: char) -> bool {
    ('0' <= c && c <= '9') || ('a' <= c && c <= 'f') || ('A' <= c && c <= 'F')
}

/// Value of a hex digit.
pub open spec fn hex_value(c: char) -> int {
    if '0' <= c && c <= '9' {
        c as int - '0' as int
    } else if 'a' <= c && c <= 'f' {
        c as int - 'a' as int + 10
    } else {
        c as int - 'A' as int + 10
    }
}

/// Whether `s` is hex text: an even number of hex digits.
pub open spec fn is_hex_text(s: Seq<char>) -> bool {
    s.len() % 2 == 0 && forall|i: int| 0 <= i < s.len() ==> is_hex_char(#[trigger] s[i])
}

/// Whether `b` is the byte string that the hex text `s` spells.
pub open spec fn hex_decodes_to(s: Seq<char>, b: Seq<u8>) -> bool {
    &&& b.len() * 2 == s.len()
    &&& forall|i: int|
        0 <= i < b.len() ==> #[trigger] b[i] as int == hex_value(s[2 * i]) * 16 + hex_value(
            s[2 * i + 1],
        )
}

/// Relies on `hex::encode`: two lower-case digits per byte, high nibble first.
#[verifier::external_body]
fn hex_encode(b: &[u8]) -> (r: String)
    ensures
        r@ == hex_text(b@),
{
    hex::encode(b)
}

/// Relies on `hex::decode`: succeeds exactly on an even number of hex digits of
/// either case, and yields one byte per pair of digits.
#[verifier::external_body]
fn hex_decode(s: &str) -> (r: Option<Vec<u8>>)
    ensures
        r is Some <==> is_hex_text(s@),
        r matches Some(v) ==> hex_decodes_to(s@, v@),
{
    hex::decode(s).ok()
}

/// Lower-case hex text of a hash (64 characters).
pub fn hash_to_hex(hash: &Hash) -> (r: String)
    ensures
        r@ == hex_text(hash@),
{
    hex_encode(hash.as_slice())
}

/// Parses 64 hex digits into a hash.
pub fn hex_to_hash(hex_str: &str) -> (r: Option<Hash>)
    ensures
        r is Some <==> (hex_str@.len() == 64 && is_hex_text(hex_str@)),
        r matches Some(h) ==> hex_decodes_to(hex_str@, h@),
{
    let n = hex_str.unicode_len();
    if n != 64 {
        return None;
    }
    match hex_decode(hex_str) {
        None => None,
        Some(bytes) => {
            let mut h: Hash = [0u8; 32];
            let mut i: usize = 0;
            while i < 32
                invariant
                    bytes@.len() == 32,
                    0 <= i <= 32,
                    forall|j: int| 0 <= j < i ==> h@[j] == bytes@[j],
                decreases 32 - i,
            {
                h[i] = bytes[i];
                i += 1;
            }
            assert(h@ =~= bytes@);
            Some(h)
        },
    }
}

} // verus!
