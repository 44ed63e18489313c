//! In-memory content-addressed transaction store with a confirmed flag per hash.
use vstd::prelude::*;
use crate::errors::NyxError;
use crate::hash::hash_eq;
use crate::transaction::{tx_id, Transaction, TxModel};

verus! {

/// Transactions keyed by their identifier, and the set of confirmed hashes.
pub struct MemoryStorage {
    entries: Vec<([u8; 32], Transaction)>,
    confirmed: Vec<[u8; 32]>,
    txs: Ghost<Map<Seq<u8>, TxModel>>,
    confirmed_set: Ghost<Set<Seq<u8>>>,
}

impl MemoryStorage {
    /// The stored transactions, by identifier.
    pub closed spec fn txs(&self) -> Map<Seq<u8>, TxModel> {
        self.txs@
    }

    /// The hashes marked confirmed.
    pub closed spec fn confirmed_hashes(&self) -> Set<Seq<u8>> {
        self.confirmed_set@
    }

    /// Keys are unique, each entry is in the map under its identifier, and the
    /// map holds nothing else.
    pub closed spec fn wf(&self) -> bool {
        &&& forall|i: int, j: int|
            0 <= i < j < self.entries@.len() ==> self.entries@[i].0@ != self.entries@[j].0@
        &&& forall|i: int|
            0 <= i < self.entries@.len() ==> #[trigger] self.txs@.contains_key(self.entries@[i].0@)
                && self.txs@[self.entries@[i].0@] == self.entries@[i].1@
        &&& forall|k: Seq<u8>|
            #[trigger] self.txs@.contains_key(k) ==> exists|i: int|
                0 <= i < self.entries@.len() && self.entries@[i].0@ == k
        &&& forall|k: Seq<u8>| #[trigger] self.txs@.contains_key(k) ==> k == tx_id(self.txs@[k])
        &&& self.txs@.dom().finite()
        &&& self.txs@.dom().len() == self.entries@.len()
        &&& forall|k: Seq<u8>|
            #[trigger] self.confirmed_set@.contains(k) <==> exists|i: int|
                0 <= i < self.confirmed@.len() && self.confirmed@[i]@ == k
    }

    /// An empty store.
    pub fn new() -> (r: MemoryStorage)
        ensures
            r.wf(),
            r.txs() == Map::<Seq<u8>, TxModel>::empty(),
            r.confirmed_hashes() == Set::<Seq<u8>>::empty(),
    {
        MemoryStorage {
            entries: Vec::new(),
            confirmed: Vec::new(),
            txs: Ghost(Map::empty()),
            confirmed_set: Ghost(Set::empty()),
        }
    }

    /// Position of `h` among the entries.
    fn find(&self, h: &[u8; 32]) -> (r: Option<usize>)
        requires
            self.wf(),
        ensures
            r is None <==> !self.txs().contains_key(h@),
            r matches Some(i) ==> i < self.entries@.len() && self.entries@[i as int].0@ == h@,
    {
        let mut i: usize = 0;
        while i < self.entries.len()
            invariant
                self.wf(),
                0 <= i <= self.entries@.len(),
                forall|j: int| 0 <= j < i ==> self.entries@[j].0@ != h@,
            decreases self.entries@.len() - i,
        {
            if hash_eq(&self.entries[i].0, h) {
                return Some(i);
            }
            i += 1;
        }
        None
    }

    /// Stores `tx` under its identifier.
    ///
    /// Fails with `StorageError` where a transaction with that identifier is
    /// already stored: storing is never silently repeated.
    pub fn store_transaction(&mut self, tx: Transaction) -> (r: Result<[u8; 32], NyxError>)
        requires
            old(self).wf(),
        ensures
            final(self).wf(),
            final(self).confirmed_hashes() == old(self).confirmed_hashes(),
            r is Err ==> *final(self) == *old(self),
            old(self).txs().contains_key(tx_id(tx@)) ==> {
                &&& r matches Err(NyxError::StorageError(_))
                &&& final(self).txs() == old(self).txs()
            },
            !old(self).txs().contains_key(tx_id(tx@)) ==> {
                &&& r matches Ok(h) && h@ == tx_id(tx@)
                &&& final(self).txs() == old(self).txs().insert(tx_id(tx@), tx@)
            },
    {
        let id = tx.id();
        if self.find(&id).is_some() {
            return Err(NyxError::StorageError("Transaction already exists".to_string()));
        }
        let ghost old_txs = self.txs@;
        let ghost old_entries = self.entries@;
        self.entries.push((id, tx));
        self.txs = Ghost(old_txs.insert(id@, self.entries@.last().1@));
        proof {
            assert(old_txs.dom().insert(id@) =~= self.txs@.dom());
            assert(!old_txs.dom().contains(id@));
            assert(self.txs@.dom().len() == old_txs.dom().len() + 1);
            assert forall|i: int| 0 <= i < old_entries.len() implies old_entries[i].0@ != id@ by {
                assert(old_txs.contains_key(old_entries[i].0@));
            }
            assert forall|i: int|
                0 <= i < self.entries@.len() implies #[trigger] self.txs@.contains_key(
                self.entries@[i].0@,
            ) && self.txs@[self.entries@[i].0@] == self.entries@[i].1@ by {
                if i < old_entries.len() {
                    assert(self.entries@[i] == old_entries[i]);
                }
            }
            assert forall|k: Seq<u8>| #[trigger] self.txs@.contains_key(k) implies exists|i: int|
                0 <= i < self.entries@.len() && self.entries@[i].0@ == k by {
                if k == id@ {
                    assert(self.entries@[old_entries.len() as int].0@ == k);
                } else {
                    assert(old_txs.contains_key(k));
                    let i = choose|i: int| 0 <= i < old_entries.len() && old_entries[i].0@ == k;
                    assert(self.entries@[i].0@ == k);
                }
            }
        }
        proof {
            assert(forall|i: int, j: int|
            0 <= i < j < self.entries@.len() ==> self.entries@[i].0@ != self.entries@[j].0@);
            assert(forall|k: Seq<u8>| #[trigger] self.txs@.contains_key(k) ==> k == tx_id(self.txs@[k]));
            assert(self.txs@.dom().finite());
            assert(self.txs@.dom().len() == self.entries@.len());
            assert(self.confirmed@ == old(self).confirmed@);
            assert(self.confirmed_set@ == old(self).confirmed_set@);
            assert(forall|k: Seq<u8>|
                #[trigger] self.confirmed_set@.contains(k) <==> exists|i: int|
                    0 <= i < self.confirmed@.len() && self.confirmed@[i]@ == k);
        }
        Ok(id)
    }

    /// The transaction stored under `tx_hash`.
    pub fn get_transaction(&self, tx_hash: &[u8; 32]) -> (r: Result<Transaction, NyxError>)
        requires
            self.wf(),
        ensures
            r is Ok <==> self.txs().contains_key(tx_hash@),
            r matches Ok(tx) ==> tx@ == self.txs()[tx_hash@] && tx_id(tx@) == tx_hash@,
            r is Err ==> r matches Err(NyxError::TransactionNotFound(_)),
    {
        match self.find(tx_hash) {
            Some(i) => Ok(self.entries[i].1.duplicate()),
            None => Err(NyxError::TransactionNotFound("Transaction not found".to_string())),
        }
    }

    /// Marks `tx_hash` confirmed.
    pub fn mark_confirmed(&mut self, tx_hash: &[u8; 32]) -> (r: Result<(), NyxError>)
        requires
            old(self).wf(),
        ensures
            final(self).wf(),
            r is Ok,
            final(self).txs() == old(self).txs(),
            final(self).confirmed_hashes() == old(self).confirmed_hashes().insert(tx_hash@),
    {
        let ghost old_set = self.confirmed_set@;
        let ghost old_c = self.confirmed@;
        self.confirmed.push(*tx_hash);
        self.confirmed_set = Ghost(old_set.insert(tx_hash@));
        proof {
            assert(self.entries@ == old(self).entries@);
            assert(self.txs@ == old(self).txs@);
            assert(forall|k: Seq<u8>|
                #[trigger] self.txs@.contains_key(k) ==> exists|i: int|
                    0 <= i < self.entries@.len() && self.entries@[i].0@ == k);
            assert forall|k: Seq<u8>| #[trigger] self.confirmed_set@.contains(k) <==> exists|i: int|
                0 <= i < self.confirmed@.len() && self.confirmed@[i]@ == k by {
                if old_set.contains(k) {
                    let i = choose|i: int| 0 <= i < old_c.len() && old_c[i]@ == k;
                    assert(self.confirmed@[i]@ == k);
                }
                if k == tx_hash@ {
                    assert(self.confirmed@[old_c.len() as int]@ == k);
                }
                if exists|i: int| 0 <= i < self.confirmed@.len() && self.confirmed@[i]@ == k {
                    let i = choose|i: int| 0 <= i < self.confirmed@.len() && self.confirmed@[i]@ == k;
                    if i < old_c.len() {
                        assert(old_c[i]@ == k);
                    }
                }
            }
        }
        Ok(())
    }

    /// Whether `tx_hash` is marked confirmed.
    pub fn is_confirmed(&self, tx_hash: &[u8; 32]) -> (r: Result<bool, NyxError>)
        requires
            self.wf(),
        ensures
            r matches Ok(b) && b == self.confirmed_hashes().contains(tx_hash@),
    {
        let mut i: usize = 0;
        while i < self.confirmed.len()
            invariant
                self.wf(),
                0 <= i <= self.confirmed@.len(),
                forall|j: int| 0 <= j < i ==> self.confirmed@[j]@ != tx_hash@,
            decreases self.confirmed@.len() - i,
        {
            if hash_eq(&self.confirmed[i], tx_hash) {
                return Ok(true);
            }
            i += 1;
        }
        Ok(false)
    }

    /// Number of stored transactions.
    pub fn transaction_count(&self) -> (r: Result<usize, NyxError>)
        requires
            self.wf(),
        ensures
            r matches Ok(n) && n == self.txs().dom().len(),
    {
        Ok(self.entries.len())
    }

    /// Whether a transaction is stored under `tx_hash`.
    pub fn has_transaction(&self, tx_hash: &[u8; 32]) -> (r: Result<bool, NyxError>)
        requires
            self.wf(),
        ensures
            r matches Ok(b) && b == self.txs().contains_key(tx_hash@),
    {
        Ok(self.find(tx_hash).is_some())
    }
}

} // verus!
