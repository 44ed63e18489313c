//! Primitive pieces of the canonical byte encoding: little-endian integers and
//! length-prefixed byte strings.
use vstd::prelude::*;
use vstd::bytes::{spec_u32_to_le_bytes, spec_u64_to_le_bytes, u32_to_le_bytes, u64_to_le_bytes};
use crate::hash::append_bytes;

verus! {

/// Four little-endian bytes of `n`.
pub open spec fn enc_u32(n: u32) -> Seq<u8> {
    spec_u32_to_le_bytes(n)
}

/// Eight little-endian bytes of `n`.
pub open spec fn enc_u64(n: u64) -> Seq<u8> {
    spec_u64_to_le_bytes(n)
}

/// A byte string preceded by its length.
pub open spec fn enc_bytes(b: Seq<u8>) -> Seq<u8> {
    enc_u64(b.len() as u64) + b
}

/// Concatenation of the encodings of `s`'s items, in order.
pub open spec fn cat_u32s(s: Seq<u32>) -> Seq<u8>
    decreases s.len(),
{
    if s.len() == 0 {
        Seq::empty()
    } else {
        cat_u32s(s.drop_last()) + enc_u32(s.last())
    }
}

/// Concatenation of length-prefixed byte strings, in order.
pub open spec fn cat_byte_strings(s: Seq<Seq<u8>>) -> Seq<u8>
    decreases s.len(),
{
    if s.len() == 0 {
        Seq::empty()
    } else {
        cat_byte_strings(s.drop_last()) + enc_bytes(s.last())
    }
}

/// Appends the encoding of `n`.
pub fn put_u32(out: &mut Vec<u8>, n: u32)
    ensures
        final(out)@ == old(out)@ + enc_u32(n),
{
    let b = u32_to_le_bytes(n);
    append_bytes(out, b.as_slice());
}

/// Appends the encoding of `n`.
pub fn put_u64(out: &mut Vec<u8>, n: u64)
    ensures
        final(out)@ == old(out)@ + enc_u64(n),
{
    let b = u64_to_le_bytes(n);
    append_bytes(out, b.as_slice());
}

/// Appends `b` preceded by its length.
pub fn put_bytes(out: &mut Vec<u8>, b: &[u8])
    ensures
        final(out)@ == old(out)@ + enc_bytes(b@),
{
    put_u64(out, b.len() as u64);
    append_bytes(out, b);
    assert(final(out)@ =~= old(out)@ + enc_bytes(b@));
}

/// Appends the length of `s` and then each of its items.
pub fn put_u32s(out: &mut Vec<u8>, s: &Vec<u32>)
    ensures
        final(out)@ == old(out)@ + enc_u64(s@.len() as u64) + cat_u32s(s@),
{
    put_u64(out, s.len() as u64);
    let ghost start = out@;
    let mut i: usize = 0;
    while i < s.len()
        invariant
            0 <= i <= s@.len(),
            out@ == start + cat_u32s(s@.take(i as int)),
        decreases s@.len() - i,
    {
        put_u32(out, s[i]);
        assert(s@.take(i + 1).drop_last() =~= s@.take(i as int));
        i += 1;
    }
    assert(s@.take(s@.len() as int) =~= s@);
}

/// Appends the count of `s` and then each byte string, length-prefixed.
pub fn put_byte_strings(out: &mut Vec<u8>, s: &Vec<Vec<u8>>)
    ensures
        final(out)@ == old(out)@ + enc_u64(s@.len() as u64) + cat_byte_strings(
            s@.map_values(|m: Vec<u8>| m@),
        ),
{
    let ghost view = s@.map_values(|m: Vec<u8>| m@);
    put_u64(out, s.len() as u64);
    let ghost start = out@;
    let mut i: usize = 0;
    while i < s.len()
        invariant
            0 <= i <= s@.len(),
            view == s@.map_values(|m: Vec<u8>| m@),
            out@ == start + cat_byte_strings(view.take(i as int)),
        decreases s@.len() - i,
    {
        put_bytes(out, s[i].as_slice());
        assert(view.take(i + 1).drop_last() =~= view.take(i as int));
        i += 1;
    }
    assert(view.take(s@.len() as int) =~= view);
}

} // verus!
