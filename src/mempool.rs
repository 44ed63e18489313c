//! Bounded pool of pending transactions, keyed by identifier.
use vstd::prelude::*;
use crate::errors::NodeError;
use crate::hash::hash_eq;
use crate::transaction::{tx_id, Transaction, TxModel};

verus! {

/// Default capacity of the pool.
pub const DEFAULT_MEMPOOL_SIZE: usize = 1000;

/// Pending transactions by identifier, at most `max_size` of them.
pub struct Mempool {
    entries: Vec<([u8; 32], Transaction)>,
    max_size: usize,
}

impl Mempool {
    /// The pooled transactions, in order of arrival.
    pub closed spec fn ids(&self) -> Seq<Seq<u8>> {
        self.entries@.map_values(|e: ([u8; 32], Transaction)| e.0@)
    }

    /// The pooled transaction under `id`, in order of arrival.
    pub closed spec fn tx_models(&self) -> Seq<TxModel> {
        self.entries@.map_values(|e: ([u8; 32], Transaction)| e.1@)
    }

    /// Capacity.
    pub closed spec fn capacity(&self) -> nat {
        self.max_size as nat
    }

    /// Whether `id` is pooled.
    pub open spec fn contains(&self, id: Seq<u8>) -> bool {
        self.ids().contains(id)
    }

    /// Identifiers are unique and each is that of its transaction.
    pub closed spec fn wf(&self) -> bool {
        &&& forall|i: int, j: int|
            0 <= i < j < self.entries@.len() ==> self.entries@[i].0@ != self.entries@[j].0@
        &&& forall|i: int| 0 <= i < self.entries@.len() ==> #[trigger] self.entries@[i].0@ == tx_id(self.entries@[i].1@)
    }

    /// An empty pool holding at most `max_size` transactions.
    pub fn new(max_size: usize) -> (r: Mempool)
        ensures
            r.wf(),
            r.ids().len() == 0,
            r.tx_models().len() == 0,
            r.capacity() == max_size,
    {
        Mempool { entries: Vec::new(), max_size }
    }

    /// Position of `id`.
    fn find(&self, id: &[u8; 32]) -> (r: Option<usize>)
        ensures
            r is None <==> !self.contains(id@),
            r matches Some(i) ==> i < self.ids().len() && self.ids()[i as int] == id@,
    {
        let mut i: usize = 0;
        while i < self.entries.len()
            invariant
                0 <= i <= self.entries@.len(),
                forall|j: int| 0 <= j < i ==> self.entries@[j].0@ != id@,
            decreases self.entries@.len() - i,
        {
            if hash_eq(&self.entries[i].0, id) {
                assert(self.ids()[i as int] == id@);
                return Some(i);
            }
            i += 1;
        }
        assert(!self.ids().contains(id@)) by {
            if self.ids().contains(id@) {
                let j = choose|j: int| 0 <= j < self.ids().len() && self.ids()[j] == id@;
                assert(self.entries@[j].0@ == id@);
            }
        }
        None
    }

    /// Adds `tx` and returns its identifier.
    ///
    /// Adding a transaction that is already pooled changes nothing and returns
    /// the same identifier; otherwise a full pool fails with `MempoolError`.
    pub fn add_transaction(&mut self, tx: Transaction) -> (r: Result<[u8; 32], NodeError>)
        requires
            old(self).wf(),
        ensures
            final(self).wf(),
            final(self).capacity() == old(self).capacity(),
            old(self).contains(tx_id(tx@)) ==> (r matches Ok(h) && h@ == tx_id(tx@)) && *final(self) == *old(self),
            !old(self).contains(tx_id(tx@)) && old(self).ids().len() >= old(self).capacity() ==> (r matches Err(NodeError::MempoolError(_))) && *final(self) == *old(self),
            !old(self).contains(tx_id(tx@)) && old(self).ids().len() < old(self).capacity() ==> {
                &&& r matches Ok(h) && h@ == tx_id(tx@)
                &&& final(self).ids() == old(self).ids().push(tx_id(tx@))
                &&& final(self).tx_models() == old(self).tx_models().push(tx@)
            },
    {
        let id = tx.id();
        if self.find(&id).is_some() {
            return Ok(id);
        }
        if self.entries.len() >= self.max_size {
            return Err(NodeError::MempoolError("Mempool is full".to_string()));
        }
        let ghost prev = self.entries@;
        self.entries.push((id, tx));
        proof {
            assert(self.ids() =~= old(self).ids().push(tx_id(tx@)));
            assert(self.tx_models() =~= old(self).tx_models().push(tx@));
            assert forall|i: int, j: int| 0 <= i < j < self.entries@.len() implies self.entries@[i].0@ != self.entries@[j].0@ by {
                if j == prev.len() {
                    assert(old(self).ids()[i] == prev[i].0@);
                }
            }
        }
        Ok(id)
    }

    /// A copy of the transaction pooled under `tx_id`.
    pub fn get_transaction(&self, id: &[u8; 32]) -> (r: Option<Transaction>)
        requires
            self.wf(),
        ensures
            r is Some <==> self.contains(id@),
            r matches Some(tx) ==> exists|i: int| 0 <= i < self.ids().len() && self.ids()[i] == id@ && tx@ == self.tx_models()[i],
    {
        match self.find(id) {
            Some(i) => Some(self.entries[i].1.duplicate()),
            None => None,
        }
    }

    /// Removes and returns the transaction pooled under `tx_id`.
    pub fn remove_transaction(&mut self, id: &[u8; 32]) -> (r: Option<Transaction>)
        requires
            old(self).wf(),
        ensures
            final(self).wf(),
            final(self).capacity() == old(self).capacity(),
            r is Some <==> old(self).contains(id@),
            !final(self).contains(id@),
            r is None ==> *final(self) == *old(self),
            r matches Some(tx) ==> exists|i: int| 0 <= i < old(self).ids().len() && old(self).ids()[i] == id@
                && tx@ == old(self).tx_models()[i] && final(self).ids() == old(self).ids().remove(i)
                && final(self).tx_models() == old(self).tx_models().remove(i),
    {
        match self.find(id) {
            Some(i) => {
                let ghost prev = self.entries@;
                let e = self.entries.remove(i);
                proof {
                    assert(self.entries@ == prev.remove(i as int));
                    assert(self.ids() =~= old(self).ids().remove(i as int));
                    assert(self.tx_models() =~= old(self).tx_models().remove(i as int));
                    assert forall|a: int, b: int| 0 <= a < b < self.entries@.len() implies self.entries@[a].0@ != self.entries@[b].0@ by {
                        let a2 = if a < i { a } else { a + 1 };
                        let b2 = if b < i { b } else { b + 1 };
                        assert(self.entries@[a] == prev[a2]);
                        assert(self.entries@[b] == prev[b2]);
                    }
                    assert forall|a: int| 0 <= a < self.entries@.len() implies #[trigger] self.entries@[a].0@ == tx_id(self.entries@[a].1@) by {
                        let a2 = if a < i { a } else { a + 1 };
                        assert(self.entries@[a] == prev[a2]);
                    }
                    assert(!self.ids().contains(id@)) by {
                        if self.ids().contains(id@) {
                            let j = choose|j: int| 0 <= j < self.ids().len() && self.ids()[j] == id@;
                            let j2 = if j < i { j } else { j + 1 };
                            assert(self.entries@[j] == prev[j2]);
                            assert(prev[i as int].0@ == id@);
                        }
                    }
                }
                Some(e.1)
            },
            None => None,
        }
    }

    /// Copies of all pooled transactions, in order of arrival.
    pub fn get_all_transactions(&self) -> (r: Vec<Transaction>)
        ensures
            r@.map_values(|t: Transaction| t@) == self.tx_models(),
    {
        let mut r: Vec<Transaction> = Vec::new();
        let mut i: usize = 0;
        while i < self.entries.len()
            invariant
                0 <= i <= self.entries@.len(),
                r@.len() == i,
                forall|j: int| 0 <= j < i ==> #[trigger] r@[j]@ == self.entries@[j].1@,
            decreases self.entries@.len() - i,
        {
            r.push(self.entries[i].1.duplicate());
            i += 1;
        }
        assert(r@.map_values(|t: Transaction| t@) =~= self.tx_models());
        r
    }

    /// Number of pooled transactions.
    pub fn size(&self) -> (r: usize)
        ensures
            r == self.ids().len(),
    {
        self.entries.len()
    }

    /// Empties the pool.
    pub fn clear(&mut self)
        ensures
            final(self).wf(),
            final(self).ids().len() == 0,
            final(self).capacity() == old(self).capacity(),
    {
        self.entries.clear();
    }
}

/// Adding the same transaction twice leaves one copy and yields the same
/// identifier both times.
pub proof fn lemma_add_twice(
    pool0: Mempool,
    pool1: Mempool,
    pool2: Mempool,
    tx: TxModel,
    h1: Seq<u8>,
    h2: Seq<u8>,
)
    requires
        pool0.ids().len() == 0,
        pool0.capacity() >= 1,
        !pool0.contains(tx_id(tx)) && pool0.ids().len() < pool0.capacity() ==> h1 == tx_id(tx)
            && pool1.ids() == pool0.ids().push(tx_id(tx)),
        pool1.contains(tx_id(tx)) ==> h2 == tx_id(tx) && pool2 == pool1,
    ensures
        pool2.ids().len() == 1,
        h1 == h2,
{
    assert(pool1.ids()[0] == tx_id(tx));
}

} // verus!
