//! Assembling and signing a transaction from spent outputs, recipients and
//! a ring of decoy keys.
use vstd::prelude::*;
use vstd::bytes::u64_to_le_bytes;
use crate::encryption::{encrypt, generate_key};
use crate::errors::CryptoError;
use crate::keys::KeyPair;
use crate::ring::{generate_key_image, key_image_of, ring_signature_valid, RingSignature, RING_SIZE};
use crate::stealth::{generate_random_ephemeral, generate_stealth_address};
use crate::hash::{blake3_of, copy_bytes};
use crate::ring::copy_members;
use crate::transaction::{signing_data, InputModel, OutputModel, Transaction, TxInput, TxOutput};

verus! {

/// Size in bytes of the placeholder range proof.
pub const RANGE_PROOF_SIZE: usize = 100;

/// A transaction under construction.
pub struct TransactionBuilder {
    inputs: Vec<TxInput>,
    outputs: Vec<TxOutput>,
    ring_members: Vec<Vec<u8>>,
    signer_keypair: Option<KeyPair>,
}

impl TransactionBuilder {
    /// The inputs so far.
    pub closed spec fn inputs_view(&self) -> Seq<InputModel> {
        self.inputs@.map_values(|i: TxInput| i@)
    }

    /// The outputs so far.
    pub closed spec fn outputs_view(&self) -> Seq<OutputModel> {
        self.outputs@.map_values(|o: TxOutput| o@)
    }

    /// The ring's members.
    pub closed spec fn members_view(&self) -> Seq<Seq<u8>> {
        self.ring_members@.map_values(|m: Vec<u8>| m@)
    }

    /// The signer, if set.
    pub closed spec fn signer_view(&self) -> Option<KeyPair> {
        self.signer_keypair
    }

    /// An empty builder.
    pub fn new() -> (r: TransactionBuilder)
        ensures
            r.inputs_view().len() == 0,
            r.outputs_view().len() == 0,
            r.members_view().len() == 0,
            r.signer_view() is None,
    {
        let r = TransactionBuilder { inputs: Vec::new(), outputs: Vec::new(), ring_members: Vec::new(), signer_keypair: None };
        assert(r.inputs_view() =~= Seq::<InputModel>::empty());
        assert(r.outputs_view() =~= Seq::<OutputModel>::empty());
        assert(r.members_view() =~= Seq::<Seq<u8>>::empty());
        r
    }

    /// Sets the signer.
    pub fn with_signer(self, keypair: KeyPair) -> (r: TransactionBuilder)
        ensures
            r.signer_view() == Some(keypair),
            r.inputs_view() == self.inputs_view(),
            r.outputs_view() == self.outputs_view(),
            r.members_view() == self.members_view(),
    {
        TransactionBuilder { signer_keypair: Some(keypair), ..self }
    }

    /// Adds an input spending output `index` of `prev_tx`, with the key
    /// image of `private_key`.
    pub fn add_input(self, prev_tx: [u8; 32], index: u32, private_key: &[u8]) -> (r: Result<TransactionBuilder, CryptoError>)
        ensures
            r matches Ok(b) && b.inputs_view() == self.inputs_view().push(InputModel {
                prev_tx: prev_tx@,
                index,
                key_image: key_image_of(private_key@),
                ring_indices: Seq::empty(),
            }) && b.outputs_view() == self.outputs_view() && b.members_view() == self.members_view()
                && b.signer_view() == self.signer_view(),
    {
        let key_image = generate_key_image(private_key);
        let mut b = self;
        let ghost before = b.inputs_view();
        b.inputs.push(TxInput { prev_tx, index, key_image, ring_indices: Vec::new() });
        assert(b.inputs_view() =~= before.push(InputModel {
            prev_tx: prev_tx@,
            index,
            key_image: key_image_of(private_key@),
            ring_indices: Seq::empty(),
        }));
        Ok(b)
    }

    /// Adds an output of `amount` to the recipient's keys: a fresh stealth
    /// address, the amount encrypted under a fresh key, and a placeholder
    /// range proof. Fails where the stealth address or the encryption fails.
    pub fn add_output(self, view_public: &[u8], spend_public: &[u8], amount: u64) -> (r: Result<TransactionBuilder, CryptoError>)
        ensures
            view_public@.len() != 32 || spend_public@.len() != 32 ==> r matches Err(CryptoError::StealthAddressError(_)),
            r matches Ok(b) ==> b.outputs_view().len() == self.outputs_view().len() + 1
                && b.outputs_view().drop_last() == self.outputs_view() && b.outputs_view().last().range_proof.len() == RANGE_PROOF_SIZE
                && b.inputs_view() == self.inputs_view() && b.members_view() == self.members_view()
                && b.signer_view() == self.signer_view(),
    {
        let random = generate_random_ephemeral();
        let (stealth_address, ephemeral_pubkey) = match generate_stealth_address(view_public, spend_public, random.as_slice()) {
            Ok(x) => x,
            Err(e) => {
                return Err(e);
            },
        };
        let key = generate_key();
        let amount_bytes = u64_to_le_bytes(amount);
        let amount_commitment = match encrypt(amount_bytes.as_slice(), key.as_slice()) {
            Ok(c) => c,
            Err(e) => {
                return Err(e);
            },
        };
        let range_proof = vec![0u8; RANGE_PROOF_SIZE];
        let mut b = self;
        let ghost before = b.outputs_view();
        b.outputs.push(TxOutput { stealth_address, amount_commitment, range_proof, ephemeral_pubkey });
        assert(b.outputs_view().drop_last() =~= before);
        Ok(b)
    }

    /// Sets the ring's members.
    pub fn with_ring_members(self, members: Vec<Vec<u8>>) -> (r: TransactionBuilder)
        ensures
            r.members_view() == members@.map_values(|m: Vec<u8>| m@),
            r.inputs_view() == self.inputs_view(),
            r.outputs_view() == self.outputs_view(),
            r.signer_view() == self.signer_view(),
    {
        TransactionBuilder { ring_members: members, ..self }
    }

    /// Builds the transaction with the given parents and signs it on behalf
    /// of the ring.
    ///
    /// Fails with `InvalidKey` without a signer, with `RingSignatureError` on
    /// an empty ring, and where signing fails (a ring over `RING_SIZE`, or a
    /// signer that is not a member).
    pub fn build(self, parent1: [u8; 32], parent2: [u8; 32]) -> (r: Result<Transaction, CryptoError>)
        ensures
            self.signer_view() is None ==> r matches Err(CryptoError::InvalidKey(_)),
            self.signer_view() is Some && self.members_view().len() == 0 ==> r matches Err(CryptoError::RingSignatureError(_)),
            self.signer_view() matches Some(k) ==> (r is Ok <==> (1 <= self.members_view().len() <= RING_SIZE
                && self.members_view().contains(k.public_spec()))),
            r matches Ok(tx) ==> {
                &&& tx@.version == 1
                &&& tx@.inputs == self.inputs_view()
                &&& tx@.outputs == self.outputs_view()
                &&& tx@.parent1 == parent1@ && tx@.parent2 == parent2@
                &&& tx@.ring.ring_members == self.members_view()
                &&& tx@.tx_key == self.signer_view()->Some_0.public_spec()
                &&& tx@.ring.key_image == key_image_of(self.signer_view()->Some_0.private_spec())
                &&& ring_signature_valid(blake3_of(signing_data(tx@)), tx@.ring)
            },
    {
        let keypair = match self.signer_keypair {
            Some(k) => k,
            None => {
                return Err(CryptoError::InvalidKey("No signer keypair".to_string()));
            },
        };
        if self.ring_members.len() == 0 {
            return Err(CryptoError::RingSignatureError("Ring members required".to_string()));
        }
        let mut tx = Transaction {
            version: 1,
            inputs: self.inputs,
            outputs: self.outputs,
            ring_signature: RingSignature {
                ring_members: copy_members(&self.ring_members),
                signature: Vec::new(),
                key_image: [0u8; 32],
            },
            tx_key: copy_bytes(keypair.public_key()),
            references: [parent1, parent2],
            timestamp: crate::clock::unix_now(),
            extra: Vec::new(),
        };
        let message = tx.signing_message();
        let ghost unsigned = tx@;
        match tx.sign(message.as_slice(), keypair.private_key(), keypair.public_key(), &self.ring_members) {
            Ok(()) => {
                proof {
                    assert(signing_data(tx@) == signing_data(unsigned));
                }
                Ok(tx)
            },
            Err(e) => Err(e),
        }
    }
}

} // verus!
