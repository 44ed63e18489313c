//! Transactions, their canonical encoding, identifier and structural checks.
use vstd::prelude::*;
use crate::codec::{cat_byte_strings, cat_u32s, enc_bytes, enc_u32, enc_u64, put_byte_strings, put_bytes, put_u32, put_u32s, put_u64};
use crate::errors::CryptoError;
use crate::hash::{append_bytes, blake3_hash, blake3_of, bytes_eq, copy_bytes};
use crate::ring::{
    concat, generate_ring_signature, key_image_ok, validate_key_image, verify_ring_signature,
    ring_signature_valid, RingModel, RingSignature, RING_SIZE,
};

verus! {

/// How far in the future, in seconds, a transaction's timestamp may lie.
pub const MAX_FUTURE_DRIFT_SECS: u64 = 7200;

/// A transaction input spending an earlier output.
pub struct TxInput {
    /// Hash of the transaction whose output is spent.
    pub prev_tx: [u8; 32],
    /// Index of the spent output.
    pub index: u32,
    /// Key image, for double-spend detection.
    pub key_image: [u8; 32],
    /// Indices of the ring's decoy outputs.
    pub ring_indices: Vec<u32>,
}

/// A transaction output to a stealth address with a hidden amount.
pub struct TxOutput {
    /// One-time stealth address.
    pub stealth_address: Vec<u8>,
    /// Commitment to the amount.
    pub amount_commitment: Vec<u8>,
    /// Range proof of the amount.
    pub range_proof: Vec<u8>,
    /// Ephemeral public key for the key exchange.
    pub ephemeral_pubkey: Vec<u8>,
}

/// A transaction: inputs, outputs, ring signature and two parent references.
pub struct Transaction {
    /// Protocol version.
    pub version: u8,
    /// Inputs being spent.
    pub inputs: Vec<TxInput>,
    /// Outputs being created.
    pub outputs: Vec<TxOutput>,
    /// Ring signature.
    pub ring_signature: RingSignature,
    /// Transaction public key.
    pub tx_key: Vec<u8>,
    /// The two parents in the graph.
    pub references: [[u8; 32]; 2],
    /// Creation time, seconds since the Unix epoch.
    pub timestamp: u64,
    /// Extra data.
    pub extra: Vec<u8>,
}

/// The value of an input.
pub struct InputModel {
    pub prev_tx: Seq<u8>,
    pub index: u32,
    pub key_image: Seq<u8>,
    pub ring_indices: Seq<u32>,
}

/// The value of an output.
pub struct OutputModel {
    pub stealth_address: Seq<u8>,
    pub amount_commitment: Seq<u8>,
    pub range_proof: Seq<u8>,
    pub ephemeral_pubkey: Seq<u8>,
}

/// The value of a transaction.
pub struct TxModel {
    pub version: u8,
    pub inputs: Seq<InputModel>,
    pub outputs: Seq<OutputModel>,
    pub ring: RingModel,
    pub tx_key: Seq<u8>,
    pub parent1: Seq<u8>,
    pub parent2: Seq<u8>,
    pub timestamp: u64,
    pub extra: Seq<u8>,
}

impl View for TxInput {
    type V = InputModel;

    open spec fn view(&self) -> InputModel {
        InputModel {
            prev_tx: self.prev_tx@,
            index: self.index,
            key_image: self.key_image@,
            ring_indices: self.ring_indices@,
        }
    }
}

impl View for TxOutput {
    type V = OutputModel;

    open spec fn view(&self) -> OutputModel {
        OutputModel {
            stealth_address: self.stealth_address@,
            amount_commitment: self.amount_commitment@,
            range_proof: self.range_proof@,
            ephemeral_pubkey: self.ephemeral_pubkey@,
        }
    }
}

impl View for Transaction {
    type V = TxModel;

    open spec fn view(&self) -> TxModel {
        TxModel {
            version: self.version,
            inputs: self.inputs@.map_values(|i: TxInput| i@),
            outputs: self.outputs@.map_values(|o: TxOutput| o@),
            ring: self.ring_signature@,
            tx_key: self.tx_key@,
            parent1: self.references[0]@,
            parent2: self.references[1]@,
            timestamp: self.timestamp,
            extra: self.extra@,
        }
    }
}

/// Canonical encoding of an input.
pub open spec fn enc_input(m: InputModel) -> Seq<u8> {
    m.prev_tx + enc_u32(m.index) + m.key_image + enc_u64(m.ring_indices.len() as u64) + cat_u32s(
        m.ring_indices,
    )
}

/// Canonical encoding of an output.
pub open spec fn enc_output(m: OutputModel) -> Seq<u8> {
    enc_bytes(m.stealth_address) + enc_bytes(m.amount_commitment) + enc_bytes(m.range_proof)
        + enc_bytes(m.ephemeral_pubkey)
}

/// Concatenated encodings of inputs.
pub open spec fn cat_inputs(s: Seq<InputModel>) -> Seq<u8>
    decreases s.len(),
{
    if s.len() == 0 {
        Seq::empty()
    } else {
        cat_inputs(s.drop_last()) + enc_input(s.last())
    }
}

/// Concatenated encodings of outputs.
pub open spec fn cat_outputs(s: Seq<OutputModel>) -> Seq<u8>
    decreases s.len(),
{
    if s.len() == 0 {
        Seq::empty()
    } else {
        cat_outputs(s.drop_last()) + enc_output(s.last())
    }
}

/// Canonical encoding of a ring signature.
pub open spec fn enc_ring(r: RingModel) -> Seq<u8> {
    enc_u64(r.ring_members.len() as u64) + cat_byte_strings(r.ring_members) + enc_bytes(
        r.signature,
    ) + r.key_image
}

/// Canonical encoding of a transaction: every field in declaration order.
pub open spec fn enc_tx(t: TxModel) -> Seq<u8> {
    seq![t.version] + enc_u64(t.inputs.len() as u64) + cat_inputs(t.inputs) + enc_u64(
        t.outputs.len() as u64,
    ) + cat_outputs(t.outputs) + enc_ring(t.ring) + enc_bytes(t.tx_key) + t.parent1 + t.parent2
        + enc_u64(t.timestamp) + enc_bytes(t.extra)
}

/// The identifier of a transaction: the hash of its canonical encoding.
pub open spec fn tx_id(t: TxModel) -> Seq<u8> {
    blake3_of(enc_tx(t))
}

/// Whether every input's key image is acceptable.
pub open spec fn key_images_ok(inputs: Seq<InputModel>) -> bool {
    forall|i: int| 0 <= i < inputs.len() ==> key_image_ok(#[trigger] inputs[i].key_image)
}

/// The structural rules that do not involve the clock.
pub open spec fn shape_valid(t: TxModel) -> bool {
    &&& t.inputs.len() > 0
    &&& t.outputs.len() > 0
    &&& t.parent1 != t.parent2
    &&& t.ring.ring_members.len() >= 2
    &&& key_images_ok(t.inputs)
}

/// The structural rules a transaction must meet at time `now`.
pub open spec fn structurally_valid(t: TxModel, now: u64) -> bool {
    &&& t.inputs.len() > 0
    &&& t.outputs.len() > 0
    &&& t.parent1 != t.parent2
    &&& t.timestamp <= now + MAX_FUTURE_DRIFT_SECS
    &&& t.ring.ring_members.len() >= 2
    &&& key_images_ok(t.inputs)
}

/// The bytes covered by the signing message: version, each input's spent
/// output, each output's address and commitment, and both parents.
pub open spec fn signing_data(t: TxModel) -> Seq<u8> {
    seq![t.version] + concat(t.inputs.map_values(|i: InputModel| i.prev_tx + enc_u32(i.index)))
        + concat(t.outputs.map_values(|o: OutputModel| o.stealth_address + o.amount_commitment))
        + t.parent1 + t.parent2
}

impl TxInput {
    /// A copy of this input.
    pub fn duplicate(&self) -> (r: TxInput)
        ensures
            r@ == self@,
    {
        let mut ring_indices: Vec<u32> = Vec::new();
        let mut i: usize = 0;
        while i < self.ring_indices.len()
            invariant
                0 <= i <= self.ring_indices@.len(),
                ring_indices@ == self.ring_indices@.take(i as int),
            decreases self.ring_indices@.len() - i,
        {
            ring_indices.push(self.ring_indices[i]);
            i += 1;
            assert(ring_indices@ =~= self.ring_indices@.take(i as int));
        }
        assert(ring_indices@ =~= self.ring_indices@);
        TxInput { prev_tx: self.prev_tx, index: self.index, key_image: self.key_image, ring_indices }
    }

    /// Appends the canonical encoding of this input.
    pub fn encode(&self, out: &mut Vec<u8>)
        ensures
            final(out)@ == old(out)@ + enc_input(self@),
    {
        append_bytes(out, self.prev_tx.as_slice());
        put_u32(out, self.index);
        append_bytes(out, self.key_image.as_slice());
        put_u32s(out, &self.ring_indices);
        assert(final(out)@ =~= old(out)@ + enc_input(self@));
    }
}

impl TxOutput {
    /// A copy of this output.
    pub fn duplicate(&self) -> (r: TxOutput)
        ensures
            r@ == self@,
    {
        TxOutput {
            stealth_address: copy_bytes(self.stealth_address.as_slice()),
            amount_commitment: copy_bytes(self.amount_commitment.as_slice()),
            range_proof: copy_bytes(self.range_proof.as_slice()),
            ephemeral_pubkey: copy_bytes(self.ephemeral_pubkey.as_slice()),
        }
    }

    /// Appends the canonical encoding of this output.
    pub fn encode(&self, out: &mut Vec<u8>)
        ensures
            final(out)@ == old(out)@ + enc_output(self@),
    {
        put_bytes(out, self.stealth_address.as_slice());
        put_bytes(out, self.amount_commitment.as_slice());
        put_bytes(out, self.range_proof.as_slice());
        put_bytes(out, self.ephemeral_pubkey.as_slice());
        assert(final(out)@ =~= old(out)@ + enc_output(self@));
    }
}

/// Appends the canonical encoding of a ring signature.
pub fn encode_ring(r: &RingSignature, out: &mut Vec<u8>)
    ensures
        final(out)@ == old(out)@ + enc_ring(r@),
{
    put_byte_strings(out, &r.ring_members);
    put_bytes(out, r.signature.as_slice());
    append_bytes(out, r.key_image.as_slice());
    assert(final(out)@ =~= old(out)@ + enc_ring(r@));
}

impl Transaction {
    /// Builds a version-1 transaction stamped with the clock time `now` and
    /// no extra data.
    pub fn new_at(
        inputs: Vec<TxInput>,
        outputs: Vec<TxOutput>,
        ring_signature: RingSignature,
        tx_key: Vec<u8>,
        parent1: [u8; 32],
        parent2: [u8; 32],
        now: u64,
    ) -> (r: Transaction)
        ensures
            r.version == 1,
            r.inputs == inputs,
            r.outputs == outputs,
            r.ring_signature == ring_signature,
            r.tx_key == tx_key,
            r.references == [parent1, parent2],
            r.timestamp == now,
            r.extra@.len() == 0,
    {
        Transaction {
            version: 1,
            inputs,
            outputs,
            ring_signature,
            tx_key,
            references: [parent1, parent2],
            timestamp: now,
            extra: Vec::new(),
        }
    }

    /// Builds a version-1 transaction stamped with the current time (see
    /// `new_at`).
    pub fn new(
        inputs: Vec<TxInput>,
        outputs: Vec<TxOutput>,
        ring_signature: RingSignature,
        tx_key: Vec<u8>,
        parent1: [u8; 32],
        parent2: [u8; 32],
    ) -> (r: Transaction)
        ensures
            r.version == 1,
            r.inputs == inputs,
            r.outputs == outputs,
            r.ring_signature == ring_signature,
            r.tx_key == tx_key,
            r.references == [parent1, parent2],
            r.extra@.len() == 0,
    {
        Transaction::new_at(inputs, outputs, ring_signature, tx_key, parent1, parent2, crate::clock::unix_now())
    }

    /// A copy of this transaction.
    pub fn duplicate(&self) -> (r: Transaction)
        ensures
            r@ == self@,
            r.references == self.references,
    {
        let mut inputs: Vec<TxInput> = Vec::new();
        let mut i: usize = 0;
        while i < self.inputs.len()
            invariant
                0 <= i <= self.inputs@.len(),
                inputs@.len() == i,
                forall|j: int| 0 <= j < i ==> inputs@[j]@ == self.inputs@[j]@,
            decreases self.inputs@.len() - i,
        {
            inputs.push(self.inputs[i].duplicate());
            i += 1;
        }
        let mut outputs: Vec<TxOutput> = Vec::new();
        let mut k: usize = 0;
        while k < self.outputs.len()
            invariant
                0 <= k <= self.outputs@.len(),
                outputs@.len() == k,
                forall|j: int| 0 <= j < k ==> outputs@[j]@ == self.outputs@[j]@,
            decreases self.outputs@.len() - k,
        {
            outputs.push(self.outputs[k].duplicate());
            k += 1;
        }
        let r = Transaction {
            version: self.version,
            inputs,
            outputs,
            ring_signature: self.ring_signature.duplicate(),
            tx_key: copy_bytes(self.tx_key.as_slice()),
            references: self.references,
            timestamp: self.timestamp,
            extra: copy_bytes(self.extra.as_slice()),
        };
        assert(r@.inputs =~= self@.inputs);
        assert(r@.outputs =~= self@.outputs);
        r
    }

    /// Appends the canonical encoding of this transaction.
    pub fn encode(&self, out: &mut Vec<u8>)
        ensures
            final(out)@ == old(out)@ + enc_tx(self@),
    {
        let ghost start = out@;
        out.push(self.version);
        put_u64(out, self.inputs.len() as u64);
        let ghost ins = self@.inputs;
        let ghost mid = out@;
        let mut i: usize = 0;
        while i < self.inputs.len()
            invariant
                0 <= i <= self.inputs@.len(),
                ins == self.inputs@.map_values(|x: TxInput| x@),
                out@ == mid + cat_inputs(ins.take(i as int)),
            decreases self.inputs@.len() - i,
        {
            self.inputs[i].encode(out);
            assert(ins.take(i + 1).drop_last() =~= ins.take(i as int));
            i += 1;
        }
        assert(ins.take(self.inputs@.len() as int) =~= ins);
        put_u64(out, self.outputs.len() as u64);
        let ghost outs = self@.outputs;
        let ghost mid2 = out@;
        let mut k: usize = 0;
        while k < self.outputs.len()
            invariant
                0 <= k <= self.outputs@.len(),
                outs == self.outputs@.map_values(|x: TxOutput| x@),
                out@ == mid2 + cat_outputs(outs.take(k as int)),
            decreases self.outputs@.len() - k,
        {
            self.outputs[k].encode(out);
            assert(outs.take(k + 1).drop_last() =~= outs.take(k as int));
            k += 1;
        }
        assert(outs.take(self.outputs@.len() as int) =~= outs);
        encode_ring(&self.ring_signature, out);
        put_bytes(out, self.tx_key.as_slice());
        append_bytes(out, self.references[0].as_slice());
        append_bytes(out, self.references[1].as_slice());
        put_u64(out, self.timestamp);
        put_bytes(out, self.extra.as_slice());
        assert(out@ =~= start + enc_tx(self@));
    }

    /// The canonical encoding of this transaction.
    pub fn to_bytes(&self) -> (r: Vec<u8>)
        ensures
            r@ == enc_tx(self@),
    {
        let mut out: Vec<u8> = Vec::new();
        self.encode(&mut out);
        assert(out@ =~= enc_tx(self@));
        out
    }

    /// The identifier: hash of the canonical encoding.
    pub fn id(&self) -> (r: [u8; 32])
        ensures
            r@ == tx_id(self@),
    {
        let bytes = self.to_bytes();
        blake3_hash(bytes.as_slice())
    }

    /// Checks the structural rules against the clock time `now`.
    pub fn validate_structure_at(&self, now: u64) -> (r: bool)
        ensures
            r == structurally_valid(self@, now),
    {
        if self.inputs.len() == 0 || self.outputs.len() == 0 {
            return false;
        }
        if bytes_eq(self.references[0].as_slice(), self.references[1].as_slice()) {
            return false;
        }
        if self.timestamp > now && self.timestamp - now > MAX_FUTURE_DRIFT_SECS {
            return false;
        }
        if self.ring_signature.ring_size() < 2 {
            return false;
        }
        let mut i: usize = 0;
        while i < self.inputs.len()
            invariant
                0 <= i <= self.inputs@.len(),
                forall|j: int| 0 <= j < i ==> key_image_ok(#[trigger] self.inputs@[j]@.key_image),
            decreases self.inputs@.len() - i,
        {
            if validate_key_image(&self.inputs[i].key_image).is_err() {
                assert(!key_image_ok(self@.inputs[i as int].key_image));
                return false;
            }
            i += 1;
        }
        assert(key_images_ok(self@.inputs));
        true
    }

    /// Checks the structural rules against the current clock.
    pub fn validate_structure(&self) -> (r: bool)
        ensures
            exists|now: u64| r == structurally_valid(self@, now),
            !shape_valid(self@) ==> !r,
    {
        self.validate_structure_at(crate::clock::unix_now())
    }

    /// The message that the ring signature signs: the hash of `signing_data`.
    pub fn signing_message(&self) -> (r: Vec<u8>)
        ensures
            r@ == blake3_of(signing_data(self@)),
            r@.len() == 32,
    {
        let mut data: Vec<u8> = Vec::new();
        data.push(self.version);
        let ghost ins = self@.inputs.map_values(|x: InputModel| x.prev_tx + enc_u32(x.index));
        let mut i: usize = 0;
        while i < self.inputs.len()
            invariant
                0 <= i <= self.inputs@.len(),
                ins == self@.inputs.map_values(|x: InputModel| x.prev_tx + enc_u32(x.index)),
                data@ == seq![self.version] + concat(ins.take(i as int)),
            decreases self.inputs@.len() - i,
        {
            let ghost before = data@;
            append_bytes(&mut data, self.inputs[i].prev_tx.as_slice());
            put_u32(&mut data, self.inputs[i].index);
            assert(ins.take(i + 1).drop_last() =~= ins.take(i as int));
            assert(data@ =~= before + ins[i as int]);
            i += 1;
        }
        assert(ins.take(self.inputs@.len() as int) =~= ins);
        let ghost mid = data@;
        let ghost outs = self@.outputs.map_values(
            |o: OutputModel| o.stealth_address + o.amount_commitment,
        );
        let mut k: usize = 0;
        while k < self.outputs.len()
            invariant
                0 <= k <= self.outputs@.len(),
                outs == self@.outputs.map_values(
                    |o: OutputModel| o.stealth_address + o.amount_commitment,
                ),
                data@ == mid + concat(outs.take(k as int)),
            decreases self.outputs@.len() - k,
        {
            let ghost before = data@;
            append_bytes(&mut data, self.outputs[k].stealth_address.as_slice());
            append_bytes(&mut data, self.outputs[k].amount_commitment.as_slice());
            assert(outs.take(k + 1).drop_last() =~= outs.take(k as int));
            assert(data@ =~= before + outs[k as int]);
            k += 1;
        }
        assert(outs.take(self.outputs@.len() as int) =~= outs);
        append_bytes(&mut data, self.references[0].as_slice());
        append_bytes(&mut data, self.references[1].as_slice());
        assert(data@ =~= signing_data(self@));
        let h = blake3_hash(data.as_slice());
        copy_bytes(h.as_slice())
    }

    /// Replaces the ring signature with one made over `message` for the given ring.
    ///
    /// Fails, leaving the transaction as it was, where `generate_ring_signature` fails.
    pub fn sign(
        &mut self,
        message: &[u8],
        private_key: &[u8],
        public_key: &[u8],
        ring_members: &Vec<Vec<u8>>,
    ) -> (r: Result<(), CryptoError>)
        ensures
            r is Ok <==> (1 <= ring_members@.len() <= RING_SIZE && ring_members@.map_values(
                |m: Vec<u8>| m@,
            ).contains(public_key@)),
            r is Err ==> final(self)@ == old(self)@,
            r is Err ==> r matches Err(CryptoError::RingSignatureError(_)),
            r is Ok ==> {
                &&& final(self)@ == (TxModel { ring: final(self)@.ring, ..old(self)@ })
                &&& final(self)@.ring.ring_members == ring_members@.map_values(|m: Vec<u8>| m@)
                &&& final(self)@.ring.key_image == crate::ring::key_image_of(private_key@)
                &&& ring_signature_valid(message@, final(self)@.ring)
            },
    {
        match generate_ring_signature(message, private_key, public_key, ring_members) {
            Ok(sig) => {
                self.ring_signature = sig;
                Ok(())
            },
            Err(e) => Err(e),
        }
    }

    /// Checks the ring signature against the signing message.
    pub fn verify_signature(&self) -> (r: Result<bool, CryptoError>)
        ensures
            r is Err <==> self@.ring.ring_members.len() == 0,
            r matches Ok(b) ==> b == ring_signature_valid(
                blake3_of(signing_data(self@)),
                self@.ring,
            ),
    {
        let message = self.signing_message();
        verify_ring_signature(message.as_slice(), &self.ring_signature)
    }
}

} // verus!
