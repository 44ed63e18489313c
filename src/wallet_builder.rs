//! Building a wallet's transaction: spent outputs, recipients, and a ring
//! padded to the default size around the sender's spend key.
use vstd::prelude::*;
use vstd::bytes::u64_to_le_bytes;
use crate::errors::WalletError;
use crate::hash::{blake3_hash, blake3_of, copy_bytes};
use crate::ring::{copy_members, generate_ring_signature};
use crate::stealth::{generate_random_ephemeral, generate_stealth_address};
use crate::transaction::{Transaction, TxInput, TxOutput};
use crate::wallet::{Account, Utxo};
use vstd::bytes::spec_u64_to_le_bytes;

verus! {

/// Number of ring members a wallet transaction is signed with.
pub const WALLET_RING_SIZE: usize = 16;

/// The bytes "transaction_data", which a wallet transaction's ring signs.
pub open spec fn wallet_message() -> Seq<u8> {
    seq![116u8, 114, 97, 110, 115, 97, 99, 116, 105, 111, 110, 95, 100, 97, 116, 97]
}

/// A wallet transaction under construction.
pub struct TransactionBuilder {
    inputs: Vec<Utxo>,
    outputs: Vec<(Vec<u8>, Vec<u8>, u64)>,
    ring_members: Vec<Vec<u8>>,
    sender: Option<Account>,
}

impl TransactionBuilder {
    /// Number of inputs so far.
    pub closed spec fn input_len(&self) -> nat {
        self.inputs@.len()
    }

    /// Number of outputs so far.
    pub closed spec fn output_len(&self) -> nat {
        self.outputs@.len()
    }

    /// The outputs to spend.
    pub closed spec fn utxos_view(&self) -> Seq<Utxo> {
        self.inputs@
    }

    /// The sender, if set.
    pub closed spec fn sender_view(&self) -> Option<Account> {
        self.sender
    }

    /// Whether every output to spend has a 32-byte key image.
    pub open spec fn key_images_sized(&self) -> bool {
        forall|k: int| 0 <= k < self.utxos_view().len() ==> (#[trigger] self.utxos_view()[k]).key_image@.len() == 32
    }

    /// Whether a sender is set.
    pub closed spec fn has_sender(&self) -> bool {
        self.sender is Some
    }

    /// Number of decoy ring members.
    pub closed spec fn member_len(&self) -> nat {
        self.ring_members@.len()
    }

    /// Number of inputs so far.
    pub fn input_count(&self) -> (r: usize)
        ensures
            r == self.input_len(),
    {
        self.inputs.len()
    }

    /// Number of outputs so far.
    pub fn output_count(&self) -> (r: usize)
        ensures
            r == self.output_len(),
    {
        self.outputs.len()
    }

    /// An empty builder.
    pub fn new() -> (r: TransactionBuilder)
        ensures
            r.input_len() == 0 && r.output_len() == 0 && !r.has_sender() && r.member_len() == 0,
    {
        TransactionBuilder { inputs: Vec::new(), outputs: Vec::new(), ring_members: Vec::new(), sender: None }
    }

    /// Sets the sending account.
    pub fn sender(self, account: Account) -> (r: TransactionBuilder)
        ensures
            r.has_sender() && r.input_len() == self.input_len() && r.output_len() == self.output_len()
                && r.member_len() == self.member_len(),
    {
        TransactionBuilder { sender: Some(account), ..self }
    }

    /// Adds an output to spend.
    pub fn add_input(self, utxo: Utxo) -> (r: TransactionBuilder)
        ensures
            r.input_len() == self.input_len() + 1 && r.output_len() == self.output_len()
                && r.has_sender() == self.has_sender() && r.member_len() == self.member_len(),
    {
        let mut b = self;
        b.inputs.push(utxo);
        b
    }

    /// Adds a payment of `amount` to the recipient's keys.
    pub fn add_output(self, view_public: Vec<u8>, spend_public: Vec<u8>, amount: u64) -> (r: TransactionBuilder)
        ensures
            r.output_len() == self.output_len() + 1 && r.input_len() == self.input_len()
                && r.has_sender() == self.has_sender() && r.member_len() == self.member_len(),
    {
        let mut b = self;
        b.outputs.push((view_public, spend_public, amount));
        b
    }

    /// Sets the decoy ring members.
    pub fn with_ring_members(self, members: Vec<Vec<u8>>) -> (r: TransactionBuilder)
        ensures
            r.member_len() == members@.len() && r.input_len() == self.input_len()
                && r.output_len() == self.output_len() && r.has_sender() == self.has_sender(),
    {
        TransactionBuilder { ring_members: members, ..self }
    }

    /// The commitment to an amount: the hash of its little-endian bytes.
    pub fn mock_amount_commitment(amount: u64) -> (r: Vec<u8>)
        ensures
            r@ == blake3_of(spec_u64_to_le_bytes(amount)),
            r@.len() == 32,
    {
        let bytes = u64_to_le_bytes(amount);
        let h = blake3_hash(bytes.as_slice());
        copy_bytes(h.as_slice())
    }

    /// Builds and signs the transaction with the given parents.
    ///
    /// Fails with `TransactionBuildError` without a sender, without inputs,
    /// without outputs, or with a spent output whose key image is not 32
    /// bytes; with `CryptoError` where a stealth address or the ring
    /// signature fails. The ring is the sender's spend key, then the decoys,
    /// padded with zero keys to `WALLET_RING_SIZE`.
    pub fn build(self, parent1: [u8; 32], parent2: [u8; 32]) -> (r: Result<Transaction, WalletError>)
        ensures
            !self.has_sender() || self.input_len() == 0 || self.output_len() == 0 ==> r matches Err(
                WalletError::TransactionBuildError(_),
            ),
            self.has_sender() && self.input_len() > 0 && self.output_len() > 0 && self.key_images_sized()
                && 1 + self.member_len() > WALLET_RING_SIZE ==> r matches Err(WalletError::CryptoError(_)),
            r matches Ok(tx) ==> {
                &&& tx@.inputs.len() == self.input_len()
                &&& tx@.outputs.len() == self.output_len()
                &&& tx@.parent1 == parent1@ && tx@.parent2 == parent2@
                &&& forall|i: int| 0 <= i < self.input_len() ==> (#[trigger] tx@.inputs[i]).prev_tx == self.utxos_view()[i].tx_hash@
                    && tx@.inputs[i].index == self.utxos_view()[i].index
                    && tx@.inputs[i].key_image == self.utxos_view()[i].key_image@
                &&& tx@.tx_key == self.sender_view()->Some_0.spend_spec().public_spec()
                &&& tx@.ring.ring_members.len() == if 1 + self.member_len() > WALLET_RING_SIZE {
                    1 + self.member_len()
                } else {
                    WALLET_RING_SIZE as nat
                }
                &&& tx@.ring.ring_members[0] == self.sender_view()->Some_0.spend_spec().public_spec()
            },
    {
        let ghost utxos = self.utxos_view();
        let ghost members = self.member_len();
        let sender = match self.sender {
            Some(a) => a,
            None => {
                return Err(WalletError::TransactionBuildError("No sender set".to_string()));
            },
        };
        if self.inputs.len() == 0 {
            return Err(WalletError::TransactionBuildError("No inputs provided".to_string()));
        }
        if self.outputs.len() == 0 {
            return Err(WalletError::TransactionBuildError("No outputs provided".to_string()));
        }
        let mut tx_inputs: Vec<TxInput> = Vec::new();
        let mut i: usize = 0;
        while i < self.inputs.len()
            invariant
                0 <= i <= self.inputs@.len(),
                tx_inputs@.len() == i,
                utxos == self.inputs@,
                forall|k: int| 0 <= k < i ==> (#[trigger] tx_inputs@[k]).prev_tx == utxos[k].tx_hash
                    && tx_inputs@[k].index == utxos[k].index && tx_inputs@[k].key_image@ == utxos[k].key_image@,
                forall|k: int| 0 <= k < i ==> utxos[k].key_image@.len() == 32,
            decreases self.inputs@.len() - i,
        {
            let u = &self.inputs[i];
            if u.key_image.len() != 32 {
                assert(self.utxos_view()[i as int].key_image@.len() != 32);
                return Err(WalletError::TransactionBuildError("Key image must be 32 bytes".to_string()));
            }
            let mut key_image = [0u8; 32];
            let mut k: usize = 0;
            while k < 32
                invariant
                    u.key_image@.len() == 32,
                    0 <= k <= 32,
                    forall|j: int| 0 <= j < k ==> key_image@[j] == u.key_image@[j],
                decreases 32 - k,
            {
                key_image[k] = u.key_image[k];
                k += 1;
            }
            assert(key_image@ =~= u.key_image@);
            tx_inputs.push(TxInput { prev_tx: u.tx_hash, index: u.index, key_image, ring_indices: vec![0u32, 1, 2, 3] });
            i += 1;
        }
        let mut tx_outputs: Vec<TxOutput> = Vec::new();
        let mut j: usize = 0;
        while j < self.outputs.len()
            invariant
                0 <= j <= self.outputs@.len(),
                self.has_sender() && self.input_len() > 0 && self.output_len() > 0 && self.key_images_sized(),
                tx_inputs@.len() == self.input_len(),
                tx_outputs@.len() == j,
            decreases self.outputs@.len() - j,
        {
            let random = generate_random_ephemeral();
            let (stealth_address, ephemeral_pubkey) = match generate_stealth_address(
                self.outputs[j].0.as_slice(),
                self.outputs[j].1.as_slice(),
                random.as_slice(),
            ) {
                Ok(x) => x,
                Err(_) => {
                    return Err(WalletError::CryptoError("Stealth address generation failed".to_string()));
                },
            };
            let amount_commitment = TransactionBuilder::mock_amount_commitment(self.outputs[j].2);
            tx_outputs.push(TxOutput { stealth_address, amount_commitment, range_proof: vec![0u8; 100], ephemeral_pubkey });
            j += 1;
        }
        let ghost spend = sender.spend_spec().public_spec();
        let mut ring: Vec<Vec<u8>> = Vec::new();
        ring.push(copy_bytes(sender.spend_public_key()));
        let decoys = copy_members(&self.ring_members);
        assert(decoys@.len() == decoys@.map_values(|m: Vec<u8>| m@).len());
        assert(self.ring_members@.len() == self.ring_members@.map_values(|m: Vec<u8>| m@).len());
        let mut d: usize = 0;
        while d < decoys.len()
            invariant
                0 <= d <= decoys@.len() == members,
                ring@.len() == 1 + d,
                ring@[0]@ == spend,
                self.has_sender() && self.input_len() > 0 && self.output_len() > 0 && self.key_images_sized(),
                tx_inputs@.len() == self.input_len() && tx_outputs@.len() == self.output_len(),
            decreases decoys@.len() - d,
        {
            ring.push(copy_bytes(decoys[d].as_slice()));
            d += 1;
        }
        while ring.len() < WALLET_RING_SIZE
            invariant
                1 + members <= ring@.len(),
                ring@.len() > 1 + members ==> ring@.len() <= WALLET_RING_SIZE,
                ring@[0]@ == spend,
                self.has_sender() && self.input_len() > 0 && self.output_len() > 0 && self.key_images_sized(),
                tx_inputs@.len() == self.input_len() && tx_outputs@.len() == self.output_len(),
            decreases WALLET_RING_SIZE - ring@.len(),
        {
            ring.push(vec![0u8; 32]);
        }
        assert(ring@.map_values(|m: Vec<u8>| m@)[0] == spend);
        let message: Vec<u8> = vec![116u8, 114, 97, 110, 115, 97, 99, 116, 105, 111, 110, 95, 100, 97, 116, 97];
        let ring_sig = match generate_ring_signature(message.as_slice(), sender.spend_private_key(), sender.spend_public_key(), &ring) {
            Ok(s) => s,
            Err(_) => {
                return Err(WalletError::CryptoError("Ring signature failed".to_string()));
            },
        };
        let tx = Transaction::new(tx_inputs, tx_outputs, ring_sig, copy_bytes(sender.spend_public_key()), parent1, parent2);
        proof {
            assert forall|k: int| 0 <= k < self.input_len() implies (#[trigger] tx@.inputs[k]).prev_tx == self.utxos_view()[k].tx_hash@
                && tx@.inputs[k].index == self.utxos_view()[k].index && tx@.inputs[k].key_image == self.utxos_view()[k].key_image@ by {
                assert(tx@.inputs[k] == tx.inputs@[k]@);
            }
        }
        Ok(tx)
    }
}

} // verus!
