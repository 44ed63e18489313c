//! Decoding of the canonical encoding. Every parser reads a prefix of the
//! bytes left and states that the value it returns encodes to exactly that
//! prefix.
use vstd::prelude::*;
use vstd::bytes::{
    lemma_auto_spec_u32_to_from_le_bytes, lemma_auto_spec_u64_to_from_le_bytes, u32_from_le_bytes,
    u64_from_le_bytes,
};
use crate::codec::{cat_byte_strings, cat_u32s, enc_bytes, enc_u32, enc_u64};
use crate::errors::NetworkError;
use crate::message::{cat_txs, enc_kind, enc_message, enc_sender, KindModel, Message, MessageModel, MessageType};
use crate::ring::RingSignature;
use crate::transaction::{
    cat_inputs, cat_outputs, enc_input, enc_output, enc_ring, enc_tx, InputModel, OutputModel, Transaction, TxInput,
    TxModel, TxOutput,
};

verus! {

/// Bytes `i` to `j` of `b`.
fn sub_bytes(b: &[u8], i: usize, j: usize) -> (r: Vec<u8>)
    requires
        i <= j <= b@.len(),
    ensures
        r@ == b@.subrange(i as int, j as int),
{
    let mut r: Vec<u8> = Vec::new();
    let mut k: usize = i;
    while k < j
        invariant
            i <= k <= j <= b@.len(),
            r@ == b@.subrange(i as int, k as int),
        decreases j - k,
    {
        r.push(b[k]);
        k += 1;
        assert(r@ =~= b@.subrange(i as int, k as int));
    }
    r
}

/// Whether `b[pos..end]` is `e`.
pub open spec fn reads(b: Seq<u8>, pos: int, end: int, e: Seq<u8>) -> bool {
    0 <= pos <= end <= b.len() && b.subrange(pos, end) == e
}

/// Whether `b` holds `e` from position `pos` on.
pub open spec fn at(b: Seq<u8>, pos: int, e: Seq<u8>) -> bool {
    reads(b, pos, pos + e.len(), e)
}

/// What `b` holds at `pos` as `x + y` it holds as `x`, then `y`.
pub proof fn lemma_at_split(b: Seq<u8>, pos: int, x: Seq<u8>, y: Seq<u8>)
    requires
        at(b, pos, x + y),
    ensures
        at(b, pos, x),
        at(b, pos + x.len(), y),
{
    assert(b.subrange(pos, pos + x.len()) =~= (x + y).subrange(0, x.len() as int));
    assert(b.subrange(pos + x.len(), pos + x.len() + y.len()) =~= (x + y).subrange(x.len() as int, (x + y).len() as int));
    assert((x + y).subrange(0, x.len() as int) =~= x);
    assert((x + y).subrange(x.len() as int, (x + y).len() as int) =~= y);
}

/// What `b` holds at `base` as `whole` it holds, from `pre`'s end on, as `x`,
/// where `pre + x` opens `whole`.
pub proof fn lemma_at_inner(b: Seq<u8>, base: int, whole: Seq<u8>, pre: Seq<u8>, x: Seq<u8>)
    requires
        at(b, base, whole),
        pre.len() + x.len() <= whole.len(),
        whole.subrange(0, (pre.len() + x.len()) as int) == pre + x,
    ensures
        at(b, base + pre.len(), x),
{
    assert(b.subrange(base + pre.len(), base + pre.len() + x.len()) =~= whole.subrange(0, (pre.len() + x.len()) as int).subrange(
        pre.len() as int,
        (pre.len() + x.len()) as int,
    ));
    assert((pre + x).subrange(pre.len() as int, (pre.len() + x.len()) as int) =~= x);
}

/// A prefix `cp` of `c` stays a prefix behind `h` and before any tail.
pub proof fn lemma_prefix_extend(h: Seq<u8>, c: Seq<u8>, cp: Seq<u8>, tail: Seq<u8>)
    requires
        cp.len() <= c.len(),
        c.subrange(0, cp.len() as int) == cp,
    ensures
        (h + c + tail).subrange(0, (h.len() + cp.len()) as int) == h + cp,
        h.len() + cp.len() <= (h + c + tail).len(),
{
    assert((h + c + tail).subrange(0, (h.len() + cp.len()) as int) =~= h + cp);
}

/// The encoding of the first `k` items opens the encoding of all.
pub proof fn lemma_cat_u32s_prefix(s: Seq<u32>, k: int)
    requires
        0 <= k <= s.len(),
    ensures
        cat_u32s(s.take(k)).len() <= cat_u32s(s).len(),
        cat_u32s(s).subrange(0, cat_u32s(s.take(k)).len() as int) == cat_u32s(s.take(k)),
    decreases s.len(),
{
    if k < s.len() {
        lemma_cat_u32s_prefix(s.drop_last(), k);
        assert(s.drop_last().take(k) =~= s.take(k));
        assert(cat_u32s(s).subrange(0, cat_u32s(s.take(k)).len() as int) =~= cat_u32s(s.drop_last()).subrange(
            0,
            cat_u32s(s.take(k)).len() as int,
        ));
    } else {
        assert(s.take(k) =~= s);
        assert(cat_u32s(s).subrange(0, cat_u32s(s).len() as int) =~= cat_u32s(s));
    }
}

/// The encoding of the first `k` items opens the encoding of all.
pub proof fn lemma_cat_byte_strings_prefix(s: Seq<Seq<u8>>, k: int)
    requires
        0 <= k <= s.len(),
    ensures
        cat_byte_strings(s.take(k)).len() <= cat_byte_strings(s).len(),
        cat_byte_strings(s).subrange(0, cat_byte_strings(s.take(k)).len() as int) == cat_byte_strings(s.take(k)),
    decreases s.len(),
{
    if k < s.len() {
        lemma_cat_byte_strings_prefix(s.drop_last(), k);
        assert(s.drop_last().take(k) =~= s.take(k));
        assert(cat_byte_strings(s).subrange(0, cat_byte_strings(s.take(k)).len() as int) =~= cat_byte_strings(s.drop_last()).subrange(
            0,
            cat_byte_strings(s.take(k)).len() as int,
        ));
    } else {
        assert(s.take(k) =~= s);
        assert(cat_byte_strings(s).subrange(0, cat_byte_strings(s).len() as int) =~= cat_byte_strings(s));
    }
}

/// The encoding of the first `k` items opens the encoding of all.
pub proof fn lemma_cat_inputs_prefix(s: Seq<InputModel>, k: int)
    requires
        0 <= k <= s.len(),
    ensures
        cat_inputs(s.take(k)).len() <= cat_inputs(s).len(),
        cat_inputs(s).subrange(0, cat_inputs(s.take(k)).len() as int) == cat_inputs(s.take(k)),
    decreases s.len(),
{
    if k < s.len() {
        lemma_cat_inputs_prefix(s.drop_last(), k);
        assert(s.drop_last().take(k) =~= s.take(k));
        assert(cat_inputs(s).subrange(0, cat_inputs(s.take(k)).len() as int) =~= cat_inputs(s.drop_last()).subrange(
            0,
            cat_inputs(s.take(k)).len() as int,
        ));
    } else {
        assert(s.take(k) =~= s);
        assert(cat_inputs(s).subrange(0, cat_inputs(s).len() as int) =~= cat_inputs(s));
    }
}

/// The encoding of the first `k` items opens the encoding of all.
pub proof fn lemma_cat_outputs_prefix(s: Seq<OutputModel>, k: int)
    requires
        0 <= k <= s.len(),
    ensures
        cat_outputs(s.take(k)).len() <= cat_outputs(s).len(),
        cat_outputs(s).subrange(0, cat_outputs(s.take(k)).len() as int) == cat_outputs(s.take(k)),
    decreases s.len(),
{
    if k < s.len() {
        lemma_cat_outputs_prefix(s.drop_last(), k);
        assert(s.drop_last().take(k) =~= s.take(k));
        assert(cat_outputs(s).subrange(0, cat_outputs(s.take(k)).len() as int) =~= cat_outputs(s.drop_last()).subrange(
            0,
            cat_outputs(s.take(k)).len() as int,
        ));
    } else {
        assert(s.take(k) =~= s);
        assert(cat_outputs(s).subrange(0, cat_outputs(s).len() as int) =~= cat_outputs(s));
    }
}

/// The encoding of the first `k` items opens the encoding of all.
pub proof fn lemma_cat_txs_prefix(s: Seq<TxModel>, k: int)
    requires
        0 <= k <= s.len(),
    ensures
        cat_txs(s.take(k)).len() <= cat_txs(s).len(),
        cat_txs(s).subrange(0, cat_txs(s.take(k)).len() as int) == cat_txs(s.take(k)),
    decreases s.len(),
{
    if k < s.len() {
        lemma_cat_txs_prefix(s.drop_last(), k);
        assert(s.drop_last().take(k) =~= s.take(k));
        assert(cat_txs(s).subrange(0, cat_txs(s.take(k)).len() as int) =~= cat_txs(s.drop_last()).subrange(
            0,
            cat_txs(s.take(k)).len() as int,
        ));
    } else {
        assert(s.take(k) =~= s);
        assert(cat_txs(s).subrange(0, cat_txs(s).len() as int) =~= cat_txs(s));
    }
}

/// Each item takes at least one byte.
pub proof fn lemma_cat_u32s_len(s: Seq<u32>)
    ensures
        cat_u32s(s).len() >= s.len(),
    decreases s.len(),
{
    lemma_auto_spec_u32_to_from_le_bytes();
    lemma_auto_spec_u64_to_from_le_bytes();
    if s.len() > 0 {
        lemma_cat_u32s_len(s.drop_last());
    }
}

/// Each item takes at least one byte.
pub proof fn lemma_cat_byte_strings_len(s: Seq<Seq<u8>>)
    ensures
        cat_byte_strings(s).len() >= s.len(),
    decreases s.len(),
{
    lemma_auto_spec_u32_to_from_le_bytes();
    lemma_auto_spec_u64_to_from_le_bytes();
    if s.len() > 0 {
        lemma_cat_byte_strings_len(s.drop_last());
    }
}

/// Each item takes at least one byte.
pub proof fn lemma_cat_inputs_len(s: Seq<InputModel>)
    ensures
        cat_inputs(s).len() >= s.len(),
    decreases s.len(),
{
    lemma_auto_spec_u32_to_from_le_bytes();
    lemma_auto_spec_u64_to_from_le_bytes();
    if s.len() > 0 {
        lemma_cat_inputs_len(s.drop_last());
    }
}

/// Each item takes at least one byte.
pub proof fn lemma_cat_outputs_len(s: Seq<OutputModel>)
    ensures
        cat_outputs(s).len() >= s.len(),
    decreases s.len(),
{
    lemma_auto_spec_u32_to_from_le_bytes();
    lemma_auto_spec_u64_to_from_le_bytes();
    if s.len() > 0 {
        lemma_cat_outputs_len(s.drop_last());
    }
}

/// Each item takes at least one byte.
pub proof fn lemma_cat_txs_len(s: Seq<TxModel>)
    ensures
        cat_txs(s).len() >= s.len(),
    decreases s.len(),
{
    lemma_auto_spec_u32_to_from_le_bytes();
    lemma_auto_spec_u64_to_from_le_bytes();
    if s.len() > 0 {
        lemma_cat_txs_len(s.drop_last());
    }
}

/// Adjacent reads join.
pub proof fn lemma_reads_join(b: Seq<u8>, p0: int, p1: int, p2: int, e1: Seq<u8>, e2: Seq<u8>)
    requires
        reads(b, p0, p1, e1),
        reads(b, p1, p2, e2),
    ensures
        reads(b, p0, p2, e1 + e2),
{
    assert(b.subrange(p0, p2) =~= b.subrange(p0, p1) + b.subrange(p1, p2));
}

/// Reads one byte.
fn parse_u8(b: &[u8], pos: usize) -> (r: Option<(u8, usize)>)
    ensures
        r matches Some((v, p)) ==> reads(b@, pos as int, p as int, seq![v]),
        forall|v: u8| #[trigger] at(b@, pos as int, seq![v]) ==> r == Some((v, (pos + 1) as usize)),
{
    if pos >= b.len() {
        return None;
    }
    assert(b@.subrange(pos as int, pos + 1) =~= seq![b@[pos as int]]);
    assert forall|v: u8| #[trigger] at(b@, pos as int, seq![v]) implies b@[pos as int] == v by {
        assert(b@.subrange(pos as int, pos + 1)[0] == seq![v][0]);
    }
    Some((b[pos], pos + 1))
}

/// Reads a little-endian `u32`.
fn parse_u32(b: &[u8], pos: usize) -> (r: Option<(u32, usize)>)
    ensures
        r matches Some((v, p)) ==> reads(b@, pos as int, p as int, enc_u32(v)),
        forall|v: u32| #[trigger] at(b@, pos as int, enc_u32(v)) ==> r == Some((v, (pos + 4) as usize)),
{
    proof {
        lemma_auto_spec_u32_to_from_le_bytes();
    }
    if pos > b.len() || b.len() - pos < 4 {
        return None;
    }
    let s = sub_bytes(b, pos, pos + 4);
    let v = u32_from_le_bytes(s.as_slice());
    proof {
        lemma_auto_spec_u32_to_from_le_bytes();
    }
    Some((v, pos + 4))
}

/// Reads a little-endian `u64`.
fn parse_u64(b: &[u8], pos: usize) -> (r: Option<(u64, usize)>)
    ensures
        r matches Some((v, p)) ==> reads(b@, pos as int, p as int, enc_u64(v)),
        forall|v: u64| #[trigger] at(b@, pos as int, enc_u64(v)) ==> r == Some((v, (pos + 8) as usize)),
{
    proof {
        lemma_auto_spec_u64_to_from_le_bytes();
    }
    if pos > b.len() || b.len() - pos < 8 {
        return None;
    }
    let s = sub_bytes(b, pos, pos + 8);
    let v = u64_from_le_bytes(s.as_slice());
    proof {
        lemma_auto_spec_u64_to_from_le_bytes();
    }
    Some((v, pos + 8))
}

/// Reads 32 raw bytes.
fn parse_array32(b: &[u8], pos: usize) -> (r: Option<([u8; 32], usize)>)
    ensures
        r matches Some((v, p)) ==> reads(b@, pos as int, p as int, v@) && p == pos + 32,
        forall|v: Seq<u8>| v.len() == 32 && #[trigger] at(b@, pos as int, v) ==> (r matches Some((x, p)) && x@ == v
            && p == pos + 32),
{
    if pos > b.len() || b.len() - pos < 32 {
        return None;
    }
    let mut a = [0u8; 32];
    let end: usize = pos + 32;
    let mut k: usize = 0;
    while k < 32
        invariant
            end == pos + 32,
            pos + 32 <= b@.len(),
            0 <= k <= 32,
            forall|j: int| 0 <= j < k ==> a@[j] == b@[pos + j],
        decreases 32 - k,
    {
        a[k] = b[pos + k];
        k += 1;
    }
    assert(a@ =~= b@.subrange(pos as int, pos + 32));
    Some((a, pos + 32))
}

/// Reads a length-prefixed byte string.
pub(crate) fn parse_bytes(b: &[u8], pos: usize) -> (r: Option<(Vec<u8>, usize)>)
    ensures
        r matches Some((v, p)) ==> reads(b@, pos as int, p as int, enc_bytes(v@)),
        forall|v: Seq<u8>| #[trigger] at(b@, pos as int, enc_bytes(v)) ==> (r matches Some((x, p)) && x@ == v
            && p == pos + enc_bytes(v).len()),
{
    proof {
        lemma_auto_spec_u64_to_from_le_bytes();
        assert forall|v: Seq<u8>| #[trigger] at(b@, pos as int, enc_bytes(v)) implies at(b@, pos as int, enc_u64(v.len() as u64))
            && at(b@, pos + 8, v) by {
            lemma_at_split(b@, pos as int, enc_u64(v.len() as u64), v);
        }
    }
    let (n, p1) = match parse_u64(b, pos) {
        Some(x) => x,
        None => {
            return None;
        },
    };
    let rem: u64 = (b.len() - p1) as u64;
    if rem < n {
        return None;
    }
    let p2 = p1 + n as usize;
    let v = sub_bytes(b, p1, p2);
    proof {
        lemma_reads_join(b@, pos as int, p1 as int, p2 as int, enc_u64(n), v@);
    }
    Some((v, p2))
}

/// Reads a count and that many `u32`s.
fn parse_u32s(b: &[u8], pos: usize) -> (r: Option<(Vec<u32>, usize)>)
    ensures
        r matches Some((v, p)) ==> reads(b@, pos as int, p as int, enc_u64(v@.len() as u64) + cat_u32s(v@)),
        forall|v: Seq<u32>| #[trigger] at(b@, pos as int, enc_u64(v.len() as u64) + cat_u32s(v)) ==> (r matches Some((x, p))
            && x@ == v && p == pos + (enc_u64(v.len() as u64) + cat_u32s(v)).len()),
{
    let blen = b.len();
    proof {
        lemma_auto_spec_u32_to_from_le_bytes();
        lemma_auto_spec_u64_to_from_le_bytes();
        assert forall|v: Seq<u32>| #[trigger] at(b@, pos as int, enc_u64(v.len() as u64) + cat_u32s(v)) implies at(
            b@,
            pos as int,
            enc_u64(v.len() as u64),
        ) && v.len() <= usize::MAX by {
            lemma_at_split(b@, pos as int, enc_u64(v.len() as u64), cat_u32s(v));
            lemma_cat_u32s_len(v);
        }
    }
    let (n, p1) = match parse_u64(b, pos) {
        Some(x) => x,
        None => {
            return None;
        },
    };
    let mut items: Vec<u32> = Vec::new();
    let mut p = p1;
    let mut i: u64 = 0;
    while i < n
        invariant
            items@.len() == i,
            i <= n,
            p1 == pos + 8,
            reads(b@, pos as int, p as int, enc_u64(n) + cat_u32s(items@)),
            forall|v: Seq<u32>| #[trigger] at(b@, pos as int, enc_u64(v.len() as u64) + cat_u32s(v)) ==> (n == v.len()
                && items@ == v.take(i as int) && p == pos + 8 + cat_u32s(v.take(i as int)).len()),
        decreases n - i,
    {
        proof {
            assert forall|v: Seq<u32>| #[trigger] at(b@, pos as int, enc_u64(v.len() as u64) + cat_u32s(v)) implies at(
                b@,
                p as int,
                enc_u32(v[i as int]),
            ) by {
                lemma_cat_u32s_prefix(v, i + 1);
                assert(v.take(i + 1).drop_last() =~= v.take(i as int));
                lemma_prefix_extend(enc_u64(v.len() as u64), cat_u32s(v), cat_u32s(v.take(i + 1)), Seq::empty());
                assert(enc_u64(v.len() as u64) + cat_u32s(v) + Seq::<u8>::empty() =~= enc_u64(v.len() as u64) + cat_u32s(v));
                assert(enc_u64(v.len() as u64) + cat_u32s(v.take(i + 1)) =~= (enc_u64(v.len() as u64) + cat_u32s(v.take(i as int)))
                    + enc_u32(v[i as int]));
                lemma_at_inner(
                    b@,
                    pos as int,
                    enc_u64(v.len() as u64) + cat_u32s(v),
                    enc_u64(v.len() as u64) + cat_u32s(v.take(i as int)),
                    enc_u32(v[i as int]),
                );
            }
        }
        let (v, p2) = match parse_u32(b, p) {
            Some(x) => x,
            None => {
                return None;
            },
        };
        proof {
            lemma_reads_join(b@, pos as int, p as int, p2 as int, enc_u64(n) + cat_u32s(items@), enc_u32(v));
            assert(items@.push(v).drop_last() =~= items@);
            assert(enc_u64(n) + cat_u32s(items@) + enc_u32(v) =~= enc_u64(n) + cat_u32s(items@.push(v)));
            assert forall|w: Seq<u32>| #[trigger] at(b@, pos as int, enc_u64(w.len() as u64) + cat_u32s(w)) implies (n == w.len()
                && items@.push(v) == w.take(i + 1) && p2 == pos + 8 + cat_u32s(w.take(i + 1)).len()) by {
                assert(w.take(i + 1) =~= w.take(i as int).push(w[i as int]));
                assert(w.take(i + 1).drop_last() =~= w.take(i as int));
            }
        }
        items.push(v);
        p = p2;
        i += 1;
    }
    proof {
        assert forall|v: Seq<u32>| #[trigger] at(b@, pos as int, enc_u64(v.len() as u64) + cat_u32s(v)) implies items@ == v by {
            assert(v.take(n as int) =~= v);
        }
    }
    Some((items, p))
}

/// Reads a count and that many length-prefixed byte strings.
fn parse_byte_strings(b: &[u8], pos: usize) -> (r: Option<(Vec<Vec<u8>>, usize)>)
    ensures
        r matches Some((v, p)) ==> reads(
            b@,
            pos as int,
            p as int,
            enc_u64(v@.len() as u64) + cat_byte_strings(v@.map_values(|m: Vec<u8>| m@)),
        ),
        forall|v: Seq<Seq<u8>>| #[trigger] at(b@, pos as int, enc_u64(v.len() as u64) + cat_byte_strings(v)) ==> (r matches Some((x, p))
            && x@.map_values(|m: Vec<u8>| m@) == v && p == pos + (enc_u64(v.len() as u64) + cat_byte_strings(v)).len()),
{
    let blen = b.len();
    proof {
        lemma_auto_spec_u64_to_from_le_bytes();
        assert forall|v: Seq<Seq<u8>>| #[trigger] at(b@, pos as int, enc_u64(v.len() as u64) + cat_byte_strings(v)) implies at(
            b@,
            pos as int,
            enc_u64(v.len() as u64),
        ) && v.len() <= usize::MAX by {
            lemma_at_split(b@, pos as int, enc_u64(v.len() as u64), cat_byte_strings(v));
            lemma_cat_byte_strings_len(v);
        }
    }
    let (n, p1) = match parse_u64(b, pos) {
        Some(x) => x,
        None => {
            return None;
        },
    };
    let mut items: Vec<Vec<u8>> = Vec::new();
    let mut p = p1;
    let mut i: u64 = 0;
    assert(items@.map_values(|m: Vec<u8>| m@) =~= Seq::<Seq<u8>>::empty());
    while i < n
        invariant
            items@.len() == i,
            i <= n,
            p1 == pos + 8,
            reads(b@, pos as int, p as int, enc_u64(n) + cat_byte_strings(items@.map_values(|m: Vec<u8>| m@))),
            forall|v: Seq<Seq<u8>>| #[trigger] at(b@, pos as int, enc_u64(v.len() as u64) + cat_byte_strings(v)) ==> (n == v.len()
                && items@.map_values(|m: Vec<u8>| m@) == v.take(i as int) && p == pos + 8 + cat_byte_strings(v.take(i as int)).len()),
        decreases n - i,
    {
        proof {
            assert forall|v: Seq<Seq<u8>>| #[trigger] at(b@, pos as int, enc_u64(v.len() as u64) + cat_byte_strings(v)) implies at(
                b@,
                p as int,
                enc_bytes(v[i as int]),
            ) by {
                lemma_cat_byte_strings_prefix(v, i + 1);
                assert(v.take(i + 1).drop_last() =~= v.take(i as int));
                lemma_prefix_extend(enc_u64(v.len() as u64), cat_byte_strings(v), cat_byte_strings(v.take(i + 1)), Seq::empty());
                assert(enc_u64(v.len() as u64) + cat_byte_strings(v) + Seq::<u8>::empty() =~= enc_u64(v.len() as u64) + cat_byte_strings(v));
                assert(enc_u64(v.len() as u64) + cat_byte_strings(v.take(i + 1)) =~= (enc_u64(v.len() as u64) + cat_byte_strings(v.take(i as int)))
                    + enc_bytes(v[i as int]));
                lemma_at_inner(
                    b@,
                    pos as int,
                    enc_u64(v.len() as u64) + cat_byte_strings(v),
                    enc_u64(v.len() as u64) + cat_byte_strings(v.take(i as int)),
                    enc_bytes(v[i as int]),
                );
            }
        }
        let (v, p2) = match parse_bytes(b, p) {
            Some(x) => x,
            None => {
                return None;
            },
        };
        let ghost before = items@.map_values(|m: Vec<u8>| m@);
        proof {
            lemma_reads_join(b@, pos as int, p as int, p2 as int, enc_u64(n) + cat_byte_strings(before), enc_bytes(v@));
        }
        items.push(v);
        proof {
            let after = items@.map_values(|m: Vec<u8>| m@);
            assert(after =~= before.push(v@));
            assert(after.drop_last() =~= before);
            assert(enc_u64(n) + cat_byte_strings(before) + enc_bytes(after.last()) =~= enc_u64(n) + cat_byte_strings(after));
            assert forall|w: Seq<Seq<u8>>| #[trigger] at(b@, pos as int, enc_u64(w.len() as u64) + cat_byte_strings(w)) implies (n == w.len()
                && after == w.take(i + 1) && p2 == pos + 8 + cat_byte_strings(w.take(i + 1)).len()) by {
                assert(w.take(i + 1) =~= w.take(i as int).push(w[i as int]));
                assert(w.take(i + 1).drop_last() =~= w.take(i as int));
            }
        }
        p = p2;
        i += 1;
    }
    proof {
        assert forall|v: Seq<Seq<u8>>| #[trigger] at(b@, pos as int, enc_u64(v.len() as u64) + cat_byte_strings(v)) implies items@.map_values(|m: Vec<u8>| m@) == v by {
            assert(v.take(n as int) =~= v);
        }
    }
    Some((items, p))
}

/// Whether an input's fixed-size fields have their sizes.
pub open spec fn input_ok(v: InputModel) -> bool {
    v.prev_tx.len() == 32 && v.key_image.len() == 32
}

/// Reads an input.
fn parse_input(b: &[u8], pos: usize) -> (r: Option<(TxInput, usize)>)
    ensures
        r matches Some((v, p)) ==> reads(b@, pos as int, p as int, enc_input(v@)),
        forall|v: InputModel| input_ok(v) && #[trigger] at(b@, pos as int, enc_input(v)) ==> (r matches Some((x, p))
            && x@ == v && p == pos + enc_input(v).len()),
{
    proof {
        lemma_auto_spec_u32_to_from_le_bytes();
        lemma_auto_spec_u64_to_from_le_bytes();
        assert forall|v: InputModel| input_ok(v) && #[trigger] at(b@, pos as int, enc_input(v)) implies at(b@, pos as int, v.prev_tx)
            && at(b@, pos + 32, enc_u32(v.index)) && at(b@, pos + 36, v.key_image) && at(
            b@,
            pos + 68,
            enc_u64(v.ring_indices.len() as u64) + cat_u32s(v.ring_indices),
        ) by {
            let e = enc_u64(v.ring_indices.len() as u64) + cat_u32s(v.ring_indices);
            assert(enc_input(v) =~= (v.prev_tx + enc_u32(v.index) + v.key_image) + e);
            lemma_at_split(b@, pos as int, v.prev_tx + enc_u32(v.index) + v.key_image, e);
            lemma_at_split(b@, pos as int, v.prev_tx + enc_u32(v.index), v.key_image);
            lemma_at_split(b@, pos as int, v.prev_tx, enc_u32(v.index));
        }
    }
    let (prev_tx, p1) = match parse_array32(b, pos) { Some(x) => x, None => { return None; } };
    let (index, p2) = match parse_u32(b, p1) { Some(x) => x, None => { return None; } };
    let (key_image, p3) = match parse_array32(b, p2) { Some(x) => x, None => { return None; } };
    let (ring_indices, p4) = match parse_u32s(b, p3) { Some(x) => x, None => { return None; } };
    proof {
        lemma_reads_join(b@, pos as int, p1 as int, p2 as int, prev_tx@, enc_u32(index));
        lemma_reads_join(b@, pos as int, p2 as int, p3 as int, prev_tx@ + enc_u32(index), key_image@);
        lemma_reads_join(b@, pos as int, p3 as int, p4 as int, prev_tx@ + enc_u32(index) + key_image@, enc_u64(ring_indices@.len() as u64) + cat_u32s(ring_indices@));
    }
    let v = TxInput { prev_tx, index, key_image, ring_indices };
    assert(prev_tx@ + enc_u32(index) + key_image@ + (enc_u64(ring_indices@.len() as u64) + cat_u32s(ring_indices@)) =~= enc_input(v@));
    Some((v, p4))
}

/// Reads an output.
fn parse_output(b: &[u8], pos: usize) -> (r: Option<(TxOutput, usize)>)
    ensures
        r matches Some((v, p)) ==> reads(b@, pos as int, p as int, enc_output(v@)),
        forall|v: OutputModel| #[trigger] at(b@, pos as int, enc_output(v)) ==> (r matches Some((x, p))
            && x@ == v && p == pos + enc_output(v).len()),
{
    proof {
        assert forall|v: OutputModel| #[trigger] at(b@, pos as int, enc_output(v)) implies at(b@, pos as int, enc_bytes(v.stealth_address))
            && at(b@, pos + enc_bytes(v.stealth_address).len(), enc_bytes(v.amount_commitment))
            && at(b@, pos + enc_bytes(v.stealth_address).len() + enc_bytes(v.amount_commitment).len(), enc_bytes(v.range_proof))
            && at(b@, pos + enc_bytes(v.stealth_address).len() + enc_bytes(v.amount_commitment).len() + enc_bytes(v.range_proof).len(),
                enc_bytes(v.ephemeral_pubkey)) by {
            let a = enc_bytes(v.stealth_address);
            let c = enc_bytes(v.amount_commitment);
            let d = enc_bytes(v.range_proof);
            let e = enc_bytes(v.ephemeral_pubkey);
            lemma_at_split(b@, pos as int, a + c + d, e);
            lemma_at_split(b@, pos as int, a + c, d);
            lemma_at_split(b@, pos as int, a, c);
        }
    }
    let (a, p1) = match parse_bytes(b, pos) { Some(x) => x, None => { return None; } };
    let (c, p2) = match parse_bytes(b, p1) { Some(x) => x, None => { return None; } };
    let (d, p3) = match parse_bytes(b, p2) { Some(x) => x, None => { return None; } };
    let (e, p4) = match parse_bytes(b, p3) { Some(x) => x, None => { return None; } };
    proof {
        lemma_reads_join(b@, pos as int, p1 as int, p2 as int, enc_bytes(a@), enc_bytes(c@));
        lemma_reads_join(b@, pos as int, p2 as int, p3 as int, enc_bytes(a@) + enc_bytes(c@), enc_bytes(d@));
        lemma_reads_join(b@, pos as int, p3 as int, p4 as int, enc_bytes(a@) + enc_bytes(c@) + enc_bytes(d@), enc_bytes(e@));
    }
    let v = TxOutput { stealth_address: a, amount_commitment: c, range_proof: d, ephemeral_pubkey: e };
    Some((v, p4))
}

/// Whether a transaction's fixed-size fields have their sizes.
pub open spec fn tx_ok(v: TxModel) -> bool {
    &&& forall|k: int| 0 <= k < v.inputs.len() ==> input_ok(#[trigger] v.inputs[k])
    &&& v.ring.key_image.len() == 32
    &&& v.parent1.len() == 32
    &&& v.parent2.len() == 32
}

/// Where each field of `v`'s encoding lies when `b` holds it at `pos`.
pub open spec fn tx_fields_at(b: Seq<u8>, pos: int, v: TxModel) -> bool {
    let o_nout = pos + 9 + cat_inputs(v.inputs).len();
    let o_out = o_nout + 8;
    let o_ring = o_out + cat_outputs(v.outputs).len();
    let members = enc_u64(v.ring.ring_members.len() as u64) + cat_byte_strings(v.ring.ring_members);
    let o_sig = o_ring + members.len();
    let o_rk = o_sig + enc_bytes(v.ring.signature).len();
    let o_key = o_rk + 32;
    let o_p1 = o_key + enc_bytes(v.tx_key).len();
    let o_p2 = o_p1 + 32;
    let o_ts = o_p2 + 32;
    let o_ex = o_ts + 8;
    &&& at(b, pos, seq![v.version])
    &&& at(b, pos + 1, enc_u64(v.inputs.len() as u64))
    &&& at(b, pos + 9, cat_inputs(v.inputs))
    &&& at(b, o_nout, enc_u64(v.outputs.len() as u64))
    &&& at(b, o_out, cat_outputs(v.outputs))
    &&& at(b, o_ring, members)
    &&& at(b, o_sig, enc_bytes(v.ring.signature))
    &&& at(b, o_rk, v.ring.key_image)
    &&& at(b, o_key, enc_bytes(v.tx_key))
    &&& at(b, o_p1, v.parent1)
    &&& at(b, o_p2, v.parent2)
    &&& at(b, o_ts, enc_u64(v.timestamp))
    &&& at(b, o_ex, enc_bytes(v.extra))
    &&& o_ex + enc_bytes(v.extra).len() == pos + enc_tx(v).len()
    &&& v.inputs.len() <= cat_inputs(v.inputs).len()
    &&& v.outputs.len() <= cat_outputs(v.outputs).len()
}

/// The fields of an encoded transaction lie one after the other.
pub proof fn lemma_tx_fields(b: Seq<u8>, pos: int, v: TxModel)
    requires
        tx_ok(v),
        at(b, pos, enc_tx(v)),
    ensures
        tx_fields_at(b, pos, v),
{
    lemma_auto_spec_u64_to_from_le_bytes();
    lemma_cat_inputs_len(v.inputs);
    lemma_cat_outputs_len(v.outputs);
    let a1 = seq![v.version];
    let a2 = enc_u64(v.inputs.len() as u64);
    let a3 = cat_inputs(v.inputs);
    let a4 = enc_u64(v.outputs.len() as u64);
    let a5 = cat_outputs(v.outputs);
    let m = enc_u64(v.ring.ring_members.len() as u64) + cat_byte_strings(v.ring.ring_members);
    let a7 = enc_bytes(v.ring.signature);
    let a8 = v.ring.key_image;
    let a9 = enc_bytes(v.tx_key);
    let a10 = v.parent1;
    let a11 = v.parent2;
    let a12 = enc_u64(v.timestamp);
    let a13 = enc_bytes(v.extra);
    assert(enc_tx(v) =~= a1 + a2 + a3 + a4 + a5 + m + a7 + a8 + a9 + a10 + a11 + a12 + a13);
    lemma_at_split(b, pos, a1 + a2 + a3 + a4 + a5 + m + a7 + a8 + a9 + a10 + a11 + a12, a13);
    lemma_at_split(b, pos, a1 + a2 + a3 + a4 + a5 + m + a7 + a8 + a9 + a10 + a11, a12);
    lemma_at_split(b, pos, a1 + a2 + a3 + a4 + a5 + m + a7 + a8 + a9 + a10, a11);
    lemma_at_split(b, pos, a1 + a2 + a3 + a4 + a5 + m + a7 + a8 + a9, a10);
    lemma_at_split(b, pos, a1 + a2 + a3 + a4 + a5 + m + a7 + a8, a9);
    lemma_at_split(b, pos, a1 + a2 + a3 + a4 + a5 + m + a7, a8);
    lemma_at_split(b, pos, a1 + a2 + a3 + a4 + a5 + m, a7);
    lemma_at_split(b, pos, a1 + a2 + a3 + a4 + a5, m);
    lemma_at_split(b, pos, a1 + a2 + a3 + a4, a5);
    lemma_at_split(b, pos, a1 + a2 + a3, a4);
    lemma_at_split(b, pos, a1 + a2, a3);
    lemma_at_split(b, pos, a1, a2);
}

/// Reads a transaction.
#[verifier::rlimit(100)]
pub fn parse_tx(b: &[u8], pos: usize) -> (r: Option<(Transaction, usize)>)
    ensures
        r matches Some((v, p)) ==> reads(b@, pos as int, p as int, enc_tx(v@)),
        forall|v: TxModel| tx_ok(v) && #[trigger] at(b@, pos as int, enc_tx(v)) ==> (r matches Some((x, p))
            && x@ == v && p == pos + enc_tx(v).len()),
{
    let blen = b.len();
    proof {
        lemma_auto_spec_u64_to_from_le_bytes();
        assert forall|v: TxModel| tx_ok(v) && #[trigger] at(b@, pos as int, enc_tx(v)) implies tx_fields_at(b@, pos as int, v) by {
            lemma_tx_fields(b@, pos as int, v);
        }
    }
    let (version, p0) = match parse_u8(b, pos) { Some(x) => x, None => { return None; } };
    let (n_in, p1) = match parse_u64(b, p0) { Some(x) => x, None => { return None; } };
    proof {
        lemma_reads_join(b@, pos as int, p0 as int, p1 as int, seq![version], enc_u64(n_in));
    }
    let ghost head = seq![version] + enc_u64(n_in);
    let mut inputs: Vec<TxInput> = Vec::new();
    let mut p = p1;
    let mut i: u64 = 0;
    assert(inputs@.map_values(|x: TxInput| x@) =~= Seq::<InputModel>::empty());
    while i < n_in
        invariant
            inputs@.len() == i,
            i <= n_in,
            p1 == pos + 9,
            reads(b@, pos as int, p as int, head + cat_inputs(inputs@.map_values(|x: TxInput| x@))),
            forall|v: TxModel| tx_ok(v) && #[trigger] at(b@, pos as int, enc_tx(v)) ==> (tx_fields_at(b@, pos as int, v)
                && version == v.version && n_in == v.inputs.len() && inputs@.map_values(|x: TxInput| x@) == v.inputs.take(i as int)
                && p == pos + 9 + cat_inputs(v.inputs.take(i as int)).len()),
        decreases n_in - i,
    {
        proof {
            assert forall|v: TxModel| tx_ok(v) && #[trigger] at(b@, pos as int, enc_tx(v)) implies at(b@, p as int, enc_input(v.inputs[i as int]))
                && input_ok(v.inputs[i as int]) by {
                let ins = v.inputs;
                lemma_cat_inputs_prefix(ins, i + 1);
                assert(ins.take(i + 1).drop_last() =~= ins.take(i as int));
                assert(cat_inputs(ins.take(i + 1)) == cat_inputs(ins.take(i as int)) + enc_input(ins[i as int]));
                lemma_at_inner(b@, pos + 9, cat_inputs(ins), cat_inputs(ins.take(i as int)), enc_input(ins[i as int]));
            }
        }
        let (v, p2) = match parse_input(b, p) { Some(x) => x, None => { return None; } };
        let ghost before = inputs@.map_values(|x: TxInput| x@);
        proof {
            lemma_reads_join(b@, pos as int, p as int, p2 as int, head + cat_inputs(before), enc_input(v@));
        }
        inputs.push(v);
        proof {
            let after = inputs@.map_values(|x: TxInput| x@);
            assert(after =~= before.push(v@));
            assert(after.drop_last() =~= before);
            assert(head + cat_inputs(before) + enc_input(after.last()) =~= head + cat_inputs(after));
            assert forall|w: TxModel| tx_ok(w) && #[trigger] at(b@, pos as int, enc_tx(w)) implies (after == w.inputs.take(i + 1)
                && p2 == pos + 9 + cat_inputs(w.inputs.take(i + 1)).len()) by {
                assert(w.inputs.take(i + 1) =~= w.inputs.take(i as int).push(w.inputs[i as int]));
                assert(w.inputs.take(i + 1).drop_last() =~= w.inputs.take(i as int));
            }
        }
        p = p2;
        i += 1;
    }
    proof {
        assert forall|v: TxModel| tx_ok(v) && #[trigger] at(b@, pos as int, enc_tx(v)) implies inputs@.map_values(|x: TxInput| x@) == v.inputs
            && p == pos + 9 + cat_inputs(v.inputs).len() by {
            assert(v.inputs.take(n_in as int) =~= v.inputs);
        }
    }
    let (n_out, p3) = match parse_u64(b, p) { Some(x) => x, None => { return None; } };
    let ghost head2 = head + cat_inputs(inputs@.map_values(|x: TxInput| x@)) + enc_u64(n_out);
    proof {
        lemma_reads_join(b@, pos as int, p as int, p3 as int, head + cat_inputs(inputs@.map_values(|x: TxInput| x@)), enc_u64(n_out));
    }
    let mut outputs: Vec<TxOutput> = Vec::new();
    let mut q = p3;
    let mut k: u64 = 0;
    assert(outputs@.map_values(|x: TxOutput| x@) =~= Seq::<OutputModel>::empty());
    while k < n_out
        invariant
            outputs@.len() == k,
            k <= n_out,
            reads(b@, pos as int, q as int, head2 + cat_outputs(outputs@.map_values(|x: TxOutput| x@))),
            forall|v: TxModel| tx_ok(v) && #[trigger] at(b@, pos as int, enc_tx(v)) ==> (tx_fields_at(b@, pos as int, v)
                && version == v.version && inputs@.map_values(|x: TxInput| x@) == v.inputs
                && n_out == v.outputs.len() && p3 == pos + 17 + cat_inputs(v.inputs).len()
                && outputs@.map_values(|x: TxOutput| x@) == v.outputs.take(k as int)
                && q == p3 + cat_outputs(v.outputs.take(k as int)).len()),
        decreases n_out - k,
    {
        proof {
            assert forall|v: TxModel| tx_ok(v) && #[trigger] at(b@, pos as int, enc_tx(v)) implies at(b@, q as int, enc_output(v.outputs[k as int])) by {
                let outs = v.outputs;
                lemma_cat_outputs_prefix(outs, k + 1);
                assert(outs.take(k + 1).drop_last() =~= outs.take(k as int));
                assert(cat_outputs(outs.take(k + 1)) == cat_outputs(outs.take(k as int)) + enc_output(outs[k as int]));
                lemma_at_inner(b@, p3 as int, cat_outputs(outs), cat_outputs(outs.take(k as int)), enc_output(outs[k as int]));
            }
        }
        let (v, q2) = match parse_output(b, q) { Some(x) => x, None => { return None; } };
        let ghost before = outputs@.map_values(|x: TxOutput| x@);
        proof {
            lemma_reads_join(b@, pos as int, q as int, q2 as int, head2 + cat_outputs(before), enc_output(v@));
        }
        outputs.push(v);
        proof {
            let after = outputs@.map_values(|x: TxOutput| x@);
            assert(after =~= before.push(v@));
            assert(after.drop_last() =~= before);
            assert(head2 + cat_outputs(before) + enc_output(after.last()) =~= head2 + cat_outputs(after));
            assert forall|w: TxModel| tx_ok(w) && #[trigger] at(b@, pos as int, enc_tx(w)) implies (after == w.outputs.take(k + 1)
                && q2 == p3 + cat_outputs(w.outputs.take(k + 1)).len()) by {
                assert(w.outputs.take(k + 1) =~= w.outputs.take(k as int).push(w.outputs[k as int]));
                assert(w.outputs.take(k + 1).drop_last() =~= w.outputs.take(k as int));
            }
        }
        q = q2;
        k += 1;
    }
    proof {
        assert forall|v: TxModel| tx_ok(v) && #[trigger] at(b@, pos as int, enc_tx(v)) implies outputs@.map_values(|x: TxOutput| x@) == v.outputs
            && q == p3 + cat_outputs(v.outputs).len() by {
            assert(v.outputs.take(n_out as int) =~= v.outputs);
        }
    }
    let ghost head3 = head2 + cat_outputs(outputs@.map_values(|x: TxOutput| x@));
    let (members, q3) = match parse_byte_strings(b, q) { Some(x) => x, None => { return None; } };
    let (signature, q4) = match parse_bytes(b, q3) { Some(x) => x, None => { return None; } };
    let (ring_key_image, q5) = match parse_array32(b, q4) { Some(x) => x, None => { return None; } };
    let (tx_key, q6) = match parse_bytes(b, q5) { Some(x) => x, None => { return None; } };
    let (r0, q7) = match parse_array32(b, q6) { Some(x) => x, None => { return None; } };
    let (r1, q8) = match parse_array32(b, q7) { Some(x) => x, None => { return None; } };
    let (timestamp, q9) = match parse_u64(b, q8) { Some(x) => x, None => { return None; } };
    let (extra, q10) = match parse_bytes(b, q9) { Some(x) => x, None => { return None; } };
    let ring = RingSignature { ring_members: members, signature, key_image: ring_key_image };
    proof {
        let m = enc_u64(ring.ring_members@.len() as u64) + cat_byte_strings(ring.ring_members@.map_values(|m: Vec<u8>| m@));
        lemma_reads_join(b@, pos as int, q as int, q3 as int, head3, m);
        lemma_reads_join(b@, pos as int, q3 as int, q4 as int, head3 + m, enc_bytes(ring.signature@));
        lemma_reads_join(b@, pos as int, q4 as int, q5 as int, head3 + m + enc_bytes(ring.signature@), ring_key_image@);
        assert(m + enc_bytes(ring.signature@) + ring_key_image@ =~= enc_ring(ring@));
        assert(head3 + m + enc_bytes(ring.signature@) + ring_key_image@ =~= head3 + enc_ring(ring@));
        let h4 = head3 + enc_ring(ring@);
        lemma_reads_join(b@, pos as int, q5 as int, q6 as int, h4, enc_bytes(tx_key@));
        lemma_reads_join(b@, pos as int, q6 as int, q7 as int, h4 + enc_bytes(tx_key@), r0@);
        lemma_reads_join(b@, pos as int, q7 as int, q8 as int, h4 + enc_bytes(tx_key@) + r0@, r1@);
        lemma_reads_join(b@, pos as int, q8 as int, q9 as int, h4 + enc_bytes(tx_key@) + r0@ + r1@, enc_u64(timestamp));
        lemma_reads_join(b@, pos as int, q9 as int, q10 as int, h4 + enc_bytes(tx_key@) + r0@ + r1@ + enc_u64(timestamp), enc_bytes(extra@));
    }
    let tx = Transaction {
        version,
        inputs,
        outputs,
        ring_signature: ring,
        tx_key,
        references: [r0, r1],
        timestamp,
        extra,
    };
    proof {
        assert(tx@.inputs.len() == n_in);
        assert(tx@.outputs.len() == n_out);
        assert(head3 + enc_ring(tx@.ring) + enc_bytes(tx@.tx_key) + tx@.parent1 + tx@.parent2 + enc_u64(tx@.timestamp) + enc_bytes(tx@.extra) =~= enc_tx(tx@));
        assert forall|v: TxModel| tx_ok(v) && #[trigger] at(b@, pos as int, enc_tx(v)) implies tx@ == v && q10 == pos + enc_tx(v).len() by {
            assert(tx@.ring =~= v.ring);
            assert(tx@ =~= v);
        }
    }
    Some((tx, q10))
}

/// Whether every transaction of `v` has its fixed-size fields' sizes.
pub open spec fn txs_ok(v: Seq<TxModel>) -> bool {
    forall|k: int| 0 <= k < v.len() ==> tx_ok(#[trigger] v[k])
}

/// Reads a count and that many transactions.
#[verifier::rlimit(80)]
fn parse_txs(b: &[u8], pos: usize) -> (r: Option<(Vec<Transaction>, usize)>)
    ensures
        r matches Some((v, p)) ==> reads(
            b@,
            pos as int,
            p as int,
            enc_u64(v@.len() as u64) + cat_txs(v@.map_values(|t: Transaction| t@)),
        ),
        forall|v: Seq<TxModel>| txs_ok(v) && #[trigger] at(b@, pos as int, enc_u64(v.len() as u64) + cat_txs(v)) ==> (r matches Some((x, p))
            && x@.map_values(|t: Transaction| t@) == v && p == pos + (enc_u64(v.len() as u64) + cat_txs(v)).len()),
{
    let blen = b.len();
    proof {
        lemma_auto_spec_u64_to_from_le_bytes();
        assert forall|v: Seq<TxModel>| txs_ok(v) && #[trigger] at(b@, pos as int, enc_u64(v.len() as u64) + cat_txs(v)) implies at(
            b@,
            pos as int,
            enc_u64(v.len() as u64),
        ) && v.len() <= usize::MAX by {
            lemma_at_split(b@, pos as int, enc_u64(v.len() as u64), cat_txs(v));
            lemma_cat_txs_len(v);
        }
    }
    let (n, p1) = match parse_u64(b, pos) { Some(x) => x, None => { return None; } };
    let mut items: Vec<Transaction> = Vec::new();
    let mut p = p1;
    let mut i: u64 = 0;
    assert(items@.map_values(|t: Transaction| t@) =~= Seq::<TxModel>::empty());
    while i < n
        invariant
            items@.len() == i,
            i <= n,
            p1 == pos + 8,
            reads(b@, pos as int, p as int, enc_u64(n) + cat_txs(items@.map_values(|t: Transaction| t@))),
            forall|v: Seq<TxModel>| txs_ok(v) && #[trigger] at(b@, pos as int, enc_u64(v.len() as u64) + cat_txs(v)) ==> (n == v.len()
                && items@.map_values(|t: Transaction| t@) == v.take(i as int) && p == pos + 8 + cat_txs(v.take(i as int)).len()),
        decreases n - i,
    {
        proof {
            assert forall|v: Seq<TxModel>| txs_ok(v) && #[trigger] at(b@, pos as int, enc_u64(v.len() as u64) + cat_txs(v)) implies at(
                b@,
                p as int,
                enc_tx(v[i as int]),
            ) && tx_ok(v[i as int]) by {
                lemma_cat_txs_prefix(v, i + 1);
                assert(v.take(i + 1).drop_last() =~= v.take(i as int));
                lemma_prefix_extend(enc_u64(v.len() as u64), cat_txs(v), cat_txs(v.take(i + 1)), Seq::empty());
                assert(enc_u64(v.len() as u64) + cat_txs(v) + Seq::<u8>::empty() =~= enc_u64(v.len() as u64) + cat_txs(v));
                assert(enc_u64(v.len() as u64) + cat_txs(v.take(i + 1)) =~= (enc_u64(v.len() as u64) + cat_txs(v.take(i as int)))
                    + enc_tx(v[i as int]));
                lemma_at_inner(
                    b@,
                    pos as int,
                    enc_u64(v.len() as u64) + cat_txs(v),
                    enc_u64(v.len() as u64) + cat_txs(v.take(i as int)),
                    enc_tx(v[i as int]),
                );
            }
        }
        let (v, p2) = match parse_tx(b, p) { Some(x) => x, None => { return None; } };
        let ghost before = items@.map_values(|t: Transaction| t@);
        proof {
            lemma_reads_join(b@, pos as int, p as int, p2 as int, enc_u64(n) + cat_txs(before), enc_tx(v@));
        }
        items.push(v);
        proof {
            let after = items@.map_values(|t: Transaction| t@);
            assert(after =~= before.push(v@));
            assert(after.drop_last() =~= before);
            assert(enc_u64(n) + cat_txs(before) + enc_tx(after.last()) =~= enc_u64(n) + cat_txs(after));
            assert forall|w: Seq<TxModel>| txs_ok(w) && #[trigger] at(b@, pos as int, enc_u64(w.len() as u64) + cat_txs(w)) implies (n == w.len()
                && after == w.take(i + 1) && p2 == pos + 8 + cat_txs(w.take(i + 1)).len()) by {
                assert(w.take(i + 1) =~= w.take(i as int).push(w[i as int]));
                assert(w.take(i + 1).drop_last() =~= w.take(i as int));
            }
        }
        p = p2;
        i += 1;
    }
    proof {
        assert forall|v: Seq<TxModel>| txs_ok(v) && #[trigger] at(b@, pos as int, enc_u64(v.len() as u64) + cat_txs(v)) implies items@.map_values(|t: Transaction| t@) == v by {
            assert(v.take(n as int) =~= v);
        }
    }
    Some((items, p))
}

/// Whether a payload's fixed-size fields have their sizes.
pub open spec fn kind_ok(k: KindModel) -> bool {
    match k {
        KindModel::Transaction(t) => tx_ok(t),
        KindModel::SyncResponse(txs) => txs_ok(txs),
        _ => true,
    }
}

/// The tag that opens a payload's encoding.
pub open spec fn kind_tag(k: KindModel) -> u32 {
    match k {
        KindModel::Transaction(_) => 0,
        KindModel::Ping => 1,
        KindModel::Pong => 2,
        KindModel::SyncRequest(_) => 3,
        KindModel::SyncResponse(_) => 4,
        KindModel::PeerDiscovery(_) => 5,
    }
}

/// What follows the tag in a payload's encoding.
pub open spec fn kind_body(k: KindModel) -> Seq<u8> {
    match k {
        KindModel::Transaction(t) => enc_tx(t),
        KindModel::Ping => Seq::empty(),
        KindModel::Pong => Seq::empty(),
        KindModel::SyncRequest(h) => enc_u64(h),
        KindModel::SyncResponse(txs) => enc_u64(txs.len() as u64) + cat_txs(txs),
        KindModel::PeerDiscovery(peers) => enc_u64(peers.len() as u64) + cat_byte_strings(peers),
    }
}

/// Reads a payload.
fn parse_kind(b: &[u8], pos: usize) -> (r: Option<(MessageType, usize)>)
    ensures
        r matches Some((v, p)) ==> reads(b@, pos as int, p as int, enc_kind(v@)),
        forall|k: KindModel| kind_ok(k) && #[trigger] at(b@, pos as int, enc_kind(k)) ==> (r matches Some((x, p))
            && x@ == k && p == pos + enc_kind(k).len()),
{
    proof {
        lemma_auto_spec_u32_to_from_le_bytes();
        lemma_auto_spec_u64_to_from_le_bytes();
        assert forall|k: KindModel| kind_ok(k) && #[trigger] at(b@, pos as int, enc_kind(k)) implies at(b@, pos as int, enc_u32(kind_tag(k)))
            && at(b@, pos + 4, kind_body(k)) by {
            assert(enc_kind(k) =~= enc_u32(kind_tag(k)) + kind_body(k));
            lemma_at_split(b@, pos as int, enc_u32(kind_tag(k)), kind_body(k));
        }
    }
    let (tag, p1) = match parse_u32(b, pos) { Some(x) => x, None => { return None; } };
    assert(forall|k: KindModel| kind_ok(k) && #[trigger] at(b@, pos as int, enc_kind(k)) ==> tag == kind_tag(k) && p1 == pos + 4);
    if tag == 0 {
        let (t, p2) = match parse_tx(b, p1) { Some(x) => x, None => { return None; } };
        proof { lemma_reads_join(b@, pos as int, p1 as int, p2 as int, enc_u32(tag), enc_tx(t@)); }
        proof {
            assert forall|k: KindModel| kind_ok(k) && #[trigger] at(b@, pos as int, enc_kind(k)) implies (MessageType::Transaction(t))@ == k
                && p2 == pos + enc_kind(k).len() by {
                assert(at(b@, p1 as int, enc_tx(k->Transaction_0)));
            }
        }
        Some((MessageType::Transaction(t), p2))
    } else if tag == 1 {
        Some((MessageType::Ping, p1))
    } else if tag == 2 {
        Some((MessageType::Pong, p1))
    } else if tag == 3 {
        let (h, p2) = match parse_u64(b, p1) { Some(x) => x, None => { return None; } };
        proof { lemma_reads_join(b@, pos as int, p1 as int, p2 as int, enc_u32(tag), enc_u64(h)); }
        proof {
            assert forall|k: KindModel| kind_ok(k) && #[trigger] at(b@, pos as int, enc_kind(k)) implies (MessageType::SyncRequest { from_height: h })@ == k
                && p2 == pos + enc_kind(k).len() by {
                assert(at(b@, p1 as int, enc_u64(k->SyncRequest_0)));
            }
        }
        Some((MessageType::SyncRequest { from_height: h }, p2))
    } else if tag == 4 {
        let (txs, p2) = match parse_txs(b, p1) { Some(x) => x, None => { return None; } };
        proof {
            let e = enc_u64(txs@.len() as u64) + cat_txs(txs@.map_values(|t: Transaction| t@));
            lemma_reads_join(b@, pos as int, p1 as int, p2 as int, enc_u32(tag), e);
            assert(enc_u32(tag) + e =~= enc_kind((MessageType::SyncResponse { transactions: txs })@));
        }
        proof {
            assert forall|k: KindModel| kind_ok(k) && #[trigger] at(b@, pos as int, enc_kind(k)) implies (MessageType::SyncResponse { transactions: txs })@ == k
                && p2 == pos + enc_kind(k).len() by {
                let v = k->SyncResponse_0;
                assert(at(b@, p1 as int, enc_u64(v.len() as u64) + cat_txs(v)));
            }
        }
        Some((MessageType::SyncResponse { transactions: txs }, p2))
    } else if tag == 5 {
        let (peers, p2) = match parse_byte_strings(b, p1) { Some(x) => x, None => { return None; } };
        proof {
            let e = enc_u64(peers@.len() as u64) + cat_byte_strings(peers@.map_values(|m: Vec<u8>| m@));
            lemma_reads_join(b@, pos as int, p1 as int, p2 as int, enc_u32(tag), e);
            assert(enc_u32(tag) + e =~= enc_kind((MessageType::PeerDiscovery { peers })@));
        }
        proof {
            assert forall|k: KindModel| kind_ok(k) && #[trigger] at(b@, pos as int, enc_kind(k)) implies (MessageType::PeerDiscovery { peers })@ == k
                && p2 == pos + enc_kind(k).len() by {
                let v = k->PeerDiscovery_0;
                assert(at(b@, p1 as int, enc_u64(v.len() as u64) + cat_byte_strings(v)));
            }
        }
        Some((MessageType::PeerDiscovery { peers }, p2))
    } else {
        None
    }
}

/// Whether a message's fixed-size fields have their sizes.
pub open spec fn message_ok(m: MessageModel) -> bool {
    m.id.len() == 32 && kind_ok(m.kind)
}

/// Decodes a whole message; fails with `SerializationError` on bytes that are
/// not exactly the encoding of one message. What it returns encodes to the
/// bytes, and the encoding of a message decodes to that message.
pub fn message_from_bytes(bytes: &[u8]) -> (r: Result<Message, NetworkError>)
    ensures
        r matches Ok(m) ==> enc_message(m@) == bytes@,
        r is Err ==> r matches Err(NetworkError::SerializationError(_)),
        forall|m: MessageModel| message_ok(m) && #[trigger] enc_message(m) == bytes@ ==> (r matches Ok(d) && d@ == m),
{
    proof {
        lemma_auto_spec_u64_to_from_le_bytes();
        assert forall|m: MessageModel| message_ok(m) && #[trigger] enc_message(m) == bytes@ implies at(bytes@, 0, m.id)
            && at(bytes@, 32, enc_kind(m.kind)) && at(bytes@, (32 + enc_kind(m.kind).len()) as int, enc_u64(m.timestamp))
            && at(bytes@, (40 + enc_kind(m.kind).len()) as int, enc_sender(m.sender)) by {
            assert(bytes@.subrange(0, bytes@.len() as int) =~= bytes@);
            let h = m.id + enc_kind(m.kind) + enc_u64(m.timestamp);
            lemma_at_split(bytes@, 0, h, enc_sender(m.sender));
            lemma_at_split(bytes@, 0, m.id + enc_kind(m.kind), enc_u64(m.timestamp));
            lemma_at_split(bytes@, 0, m.id, enc_kind(m.kind));
        }
    }
    let (id, p1) = match parse_array32(bytes, 0) { Some(x) => x, None => { return Err(NetworkError::SerializationError("truncated identifier".to_string())); } };
    let (kind, p2) = match parse_kind(bytes, p1) { Some(x) => x, None => { return Err(NetworkError::SerializationError("bad payload".to_string())); } };
    let (timestamp, p3) = match parse_u64(bytes, p2) { Some(x) => x, None => { return Err(NetworkError::SerializationError("truncated timestamp".to_string())); } };
    proof {
        assert forall|m: MessageModel| message_ok(m) && #[trigger] enc_message(m) == bytes@ implies p3 == 40 + enc_kind(m.kind).len()
            && at(bytes@, p3 as int, seq![if m.sender is None { 0u8 } else { 1u8 }]) by {
            match m.sender {
                None => {
                    assert(enc_sender(m.sender) == seq![0u8]);
                },
                Some(sv) => {
                    assert(enc_sender(m.sender) == seq![1u8] + enc_bytes(sv));
                    lemma_at_split(bytes@, p3 as int, seq![1u8], enc_bytes(sv));
                },
            }
        }
    }
    let (flag, p4) = match parse_u8(bytes, p3) { Some(x) => x, None => { return Err(NetworkError::SerializationError("truncated sender".to_string())); } };
    proof {
        lemma_reads_join(bytes@, 0, p1 as int, p2 as int, id@, enc_kind(kind@));
        lemma_reads_join(bytes@, 0, p2 as int, p3 as int, id@ + enc_kind(kind@), enc_u64(timestamp));
        assert forall|m: MessageModel| message_ok(m) && #[trigger] enc_message(m) == bytes@ implies id@ == m.id && kind@ == m.kind
            && timestamp == m.timestamp && p3 == 40 + enc_kind(m.kind).len() && (flag == 0 <==> m.sender is None) && (flag == 1 <==> m.sender is Some)
            && p4 == p3 + 1 && (m.sender is Some ==> at(bytes@, p4 as int, enc_bytes(m.sender->Some_0))) by {
            match m.sender {
                None => {
                    assert(enc_sender(m.sender) == seq![0u8]);
                },
                Some(sv) => {
                    assert(enc_sender(m.sender) == seq![1u8] + enc_bytes(sv));
                    lemma_at_split(bytes@, p3 as int, seq![1u8], enc_bytes(sv));
                },
            }
        }
    }
    let ghost head = id@ + enc_kind(kind@) + enc_u64(timestamp);
    let (sender, end) = if flag == 0 {
        proof { lemma_reads_join(bytes@, 0, p3 as int, p4 as int, head, seq![flag]); }
        (None, p4)
    } else if flag == 1 {
        let (s, p5) = match parse_bytes(bytes, p4) { Some(x) => x, None => { return Err(NetworkError::SerializationError("truncated sender".to_string())); } };
        proof {
            lemma_reads_join(bytes@, 0, p3 as int, p4 as int, head, seq![flag]);
            lemma_reads_join(bytes@, 0, p4 as int, p5 as int, head + seq![flag], enc_bytes(s@));
            assert(head + seq![flag] + enc_bytes(s@) =~= head + enc_sender(Some(s@)));
        }
        (Some(s), p5)
    } else {
        return Err(NetworkError::SerializationError("bad sender flag".to_string()));
    };
    proof {
        assert forall|m: MessageModel| message_ok(m) && #[trigger] enc_message(m) == bytes@ implies end == bytes@.len()
            && (match sender { Some(s) => Some(s@), None => None::<Seq<u8>> }) == m.sender by {
            assert(enc_message(m).len() == bytes@.len());
        }
    }
    if end != bytes.len() {
        return Err(NetworkError::SerializationError("trailing bytes".to_string()));
    }
    let m = Message { id, message_type: kind, timestamp, sender };
    proof {
        assert(bytes@.subrange(0, bytes@.len() as int) =~= bytes@);
        assert(head + enc_sender(m@.sender) =~= enc_message(m@));
    }
    Ok(m)
}

/// The value of every message has its fixed-size fields' sizes, so the
/// encoding of any message decodes back to it.
pub proof fn lemma_message_sizes(m: &Message)
    ensures
        message_ok(m@),
{
    match &m.message_type {
        MessageType::Transaction(t) => lemma_tx_sizes(t),
        MessageType::SyncResponse { transactions } => {
            let v = transactions@.map_values(|t: Transaction| t@);
            assert forall|k: int| 0 <= k < v.len() implies tx_ok(#[trigger] v[k]) by {
                lemma_tx_sizes(&transactions@[k]);
            }
        },
        _ => {},
    }
}

/// The value of every transaction has its fixed-size fields' sizes.
pub proof fn lemma_tx_sizes(t: &Transaction)
    ensures
        tx_ok(t@),
{
    assert forall|k: int| 0 <= k < t@.inputs.len() implies input_ok(#[trigger] t@.inputs[k]) by {
        assert(t@.inputs[k] == t.inputs@[k]@);
    }
}

} // verus!
