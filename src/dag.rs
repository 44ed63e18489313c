//! The transaction graph: parents and children, confirmation scores, states,
//! tips and double-spend detection.
//!
//! Scores are fixed-point numbers: `SCORE_UNIT` stands for a score of one.
use vstd::prelude::*;
use crate::errors::NyxError;
use crate::hash::hash_eq;
use crate::storage::MemoryStorage;
use crate::transaction::{shape_valid, structurally_valid, tx_id, Transaction, TxModel};

verus! {

/// Fixed-point value of a score of one.
pub const SCORE_UNIT: u64 = 1_000_000;

/// Score at which a pending transaction becomes confirmed (one hundred).
pub const CONFIRMATION_THRESHOLD: u64 = 100_000_000;

/// Numerator of the decay applied to each child's score (decay is 9/10).
pub const SCORE_DECAY_NUM: u64 = 9;

/// Denominator of the decay applied to each child's score.
pub const SCORE_DECAY_DEN: u64 = 10;

/// Largest score; sums saturate here.
pub const SCORE_CAP: u64 = 1_000_000_000_000_000_000;

/// State of a transaction in the graph.
#[derive(Debug, Clone, Copy, PartialEq, Eq, Structural)]
pub enum TxState {
    /// Waiting for confirmation.
    Pending,
    /// Score has reached the confirmation threshold.
    Confirmed,
    /// Stamped final by a snapshot.
    Finalized,
    /// Spends a key image that an earlier transaction spent.
    Conflicted,
}

/// Counts over the graph.
#[derive(Debug, Clone)]
pub struct DagStats {
    /// Number of transactions in the graph.
    pub total_transactions: usize,
    /// Pending transactions.
    pub pending_transactions: usize,
    /// Confirmed transactions.
    pub confirmed_transactions: usize,
    /// Finalized transactions.
    pub finalized_transactions: usize,
    /// Number of tips.
    pub current_tips: usize,
}

/// A child's contribution to its parent's score.
pub open spec fn decay(s: u64) -> int {
    s as int * SCORE_DECAY_NUM as int / SCORE_DECAY_DEN as int
}

/// Sum of the decayed scores.
pub open spec fn decayed_sum(s: Seq<u64>) -> int
    decreases s.len(),
{
    if s.len() == 0 {
        0
    } else {
        decayed_sum(s.drop_last()) + decay(s.last())
    }
}

/// The score of a transaction whose children score `s`: one plus the decayed
/// sum of the children's scores, saturating at `SCORE_CAP`.
pub open spec fn rescored(s: Seq<u64>) -> int {
    if SCORE_UNIT + decayed_sum(s) > SCORE_CAP {
        SCORE_CAP as int
    } else {
        SCORE_UNIT + decayed_sum(s)
    }
}

/// The state after re-scoring: a pending transaction whose score reached the
/// threshold becomes confirmed; every other state stays.
pub open spec fn after_rescore(s: TxState, score: u64) -> TxState {
    if s == TxState::Pending && score >= CONFIRMATION_THRESHOLD {
        TxState::Confirmed
    } else {
        s
    }
}

/// Key images of a transaction's inputs.
pub open spec fn input_key_images(t: TxModel) -> Set<Seq<u8>> {
    Set::new(|k: Seq<u8>| exists|i: int| 0 <= i < t.inputs.len() && t.inputs[i].key_image == k)
}

/// Whether the graph admits `t` given the stored map and clock time.
pub open spec fn admissible(stored: Map<Seq<u8>, TxModel>, t: TxModel, now: u64) -> bool {
    structurally_valid(t, now) && stored.contains_key(t.parent1) && stored.contains_key(t.parent2)
        && !stored.contains_key(tx_id(t))
}

/// Number of `st` among `s`.
pub open spec fn count_state(s: Seq<TxState>, st: TxState) -> nat
    decreases s.len(),
{
    if s.len() == 0 {
        0
    } else {
        count_state(s.drop_last(), st) + if s.last() == st { 1nat } else { 0nat }
    }
}

/// The graph over a store of transactions.
///
/// Node `i` holds a hash, a score, a state and the indices of its children.
/// Children always come after their parents. Nodes enter either as admitted
/// transactions or as parents that were stored directly (roots).
pub struct DagProcessor {
    storage: MemoryStorage,
    hashes: Vec<[u8; 32]>,
    scores: Vec<u64>,
    states: Vec<TxState>,
    children: Vec<Vec<usize>>,
    admitted: Vec<bool>,
    key_images: Vec<[u8; 32]>,
}

impl DagProcessor {
    /// The underlying store's transactions.
    pub closed spec fn stored(&self) -> Map<Seq<u8>, TxModel> {
        self.storage.txs()
    }

    /// The underlying store's confirmed hashes.
    pub closed spec fn confirmed_in_store(&self) -> Set<Seq<u8>> {
        self.storage.confirmed_hashes()
    }

    /// Number of nodes.
    pub closed spec fn count(&self) -> int {
        self.hashes@.len() as int
    }

    /// Hash of node `i`.
    pub closed spec fn hash_at(&self, i: int) -> Seq<u8> {
        self.hashes@[i]@
    }

    /// Score of node `i`.
    pub closed spec fn score_at(&self, i: int) -> u64 {
        self.scores@[i]
    }

    /// State of node `i`.
    pub closed spec fn state_at(&self, i: int) -> TxState {
        self.states@[i]
    }

    /// States of all nodes, in node order.
    pub closed spec fn state_seq(&self) -> Seq<TxState> {
        self.states@
    }

    /// Children of node `i`, as node indices.
    pub closed spec fn child_indices(&self, i: int) -> Seq<usize> {
        self.children@[i]@
    }

    /// Whether node `i` was admitted through the graph (not a directly stored root).
    pub closed spec fn admitted_at(&self, i: int) -> bool {
        self.admitted@[i]
    }

    /// Scores of the children of node `i`.
    pub closed spec fn child_scores(&self, i: int) -> Seq<u64> {
        self.children@[i]@.map_values(|c: usize| self.scores@[c as int])
    }

    /// Key images bound to admitted transactions.
    pub closed spec fn bound_key_images(&self) -> Set<Seq<u8>> {
        Set::new(|k: Seq<u8>| exists|j: int| 0 <= j < self.key_images@.len() && self.key_images@[j]@ == k)
    }

    /// Whether some input of `t` spends a key image already bound.
    pub open spec fn conflicts_with(&self, t: TxModel) -> bool {
        exists|k: int| 0 <= k < t.inputs.len() && self.bound_key_images().contains(#[trigger] t.inputs[k].key_image)
    }


    /// Whether node `i` is a tip: admitted and without children.
    pub open spec fn is_tip(&self, i: int) -> bool {
        self.admitted_at(i) && self.child_indices(i).len() == 0
    }

    /// Hashes of the tips among the first `n` nodes, in node order.
    pub open spec fn tip_hashes(&self, n: int) -> Seq<Seq<u8>>
        decreases n,
    {
        if n <= 0 {
            Seq::empty()
        } else if self.is_tip(n - 1) {
            self.tip_hashes(n - 1).push(self.hash_at(n - 1))
        } else {
            self.tip_hashes(n - 1)
        }
    }

    /// The stored transactions of the admitted nodes at positions from `h`
    /// up to `n`, in node order.
    pub open spec fn txs_from(&self, h: int, n: int) -> Seq<TxModel>
        decreases n,
    {
        if n <= 0 || n <= h {
            Seq::empty()
        } else if self.admitted_at(n - 1) {
            self.txs_from(h, n - 1).push(self.stored()[self.hash_at(n - 1)])
        } else {
            self.txs_from(h, n - 1)
        }
    }

    /// Positions of the tips among the first `n` nodes, in node order.
    pub open spec fn tip_indices(&self, n: int) -> Seq<int>
        decreases n,
    {
        if n <= 0 {
            Seq::empty()
        } else if self.is_tip(n - 1) {
            self.tip_indices(n - 1).push(n - 1)
        } else {
            self.tip_indices(n - 1)
        }
    }

    /// Number of tips among the first `n` nodes.
    pub open spec fn tip_count(&self, n: int) -> nat
        decreases n,
    {
        if n <= 0 {
            0
        } else {
            self.tip_count(n - 1) + if self.is_tip(n - 1) { 1nat } else { 0nat }
        }
    }

    /// Whether `h` is the hash of some node.
    pub open spec fn has_node(&self, h: Seq<u8>) -> bool {
        exists|i: int| 0 <= i < self.count() && self.hash_at(i) == h
    }

    /// Shape of the graph: equal lengths, unique hashes, every node stored,
    /// children after their parents and without repeats, admitted transactions
    /// with distinct parents.
    pub closed spec fn shape_ok(&self) -> bool {
        let n = self.hashes@.len();
        &&& self.storage.wf()
        &&& self.scores@.len() == n && self.states@.len() == n
        &&& self.children@.len() == n && self.admitted@.len() == n
        &&& forall|i: int, j: int| 0 <= i < j < n ==> self.hashes@[i]@ != self.hashes@[j]@
        &&& forall|i: int| 0 <= i < n ==> #[trigger] self.storage.txs().contains_key(self.hashes@[i]@)
        &&& forall|i: int, k: int|
            0 <= i < n && 0 <= k < self.children@[i]@.len() ==> i < #[trigger] self.children@[i]@[k] < n
        &&& forall|i: int, k1: int, k2: int|
            0 <= i < n && 0 <= k1 < k2 < self.children@[i]@.len() ==> #[trigger] self.children@[i]@[k1]
                != #[trigger] self.children@[i]@[k2]
        &&& forall|i: int|
            0 <= i < n && #[trigger] self.admitted@[i] ==> self.storage.txs()[self.hashes@[i]@].parent1
                != self.storage.txs()[self.hashes@[i]@].parent2
    }

    /// Every score is at most the cap.
    pub closed spec fn scores_bounded(&self) -> bool {
        forall|i: int| 0 <= i < self.scores@.len() ==> #[trigger] self.scores@[i] <= SCORE_CAP
    }

    /// Every score is one plus the decayed sum of its children's scores.
    pub closed spec fn scores_ok(&self) -> bool {
        forall|i: int| 0 <= i < self.count() ==> #[trigger] self.scores@[i] == rescored(self.child_scores(i))
    }

    /// Well-formedness: shape and scores.
    pub closed spec fn wf(&self) -> bool {
        &&& self.shape_ok()
        &&& self.scores_bounded()
        &&& self.scores_ok()
    }

    /// A graph over `storage`, with no nodes.
    pub fn new(storage: MemoryStorage) -> (r: DagProcessor)
        requires
            storage.wf(),
        ensures
            r.wf(),
            r.count() == 0,
            r.stored() == storage.txs(),
            r.bound_key_images() == Set::<Seq<u8>>::empty(),
    {
        let r = DagProcessor {
            storage,
            hashes: Vec::new(),
            scores: Vec::new(),
            states: Vec::new(),
            children: Vec::new(),
            admitted: Vec::new(),
            key_images: Vec::new(),
        };
        assert(r.bound_key_images() =~= Set::<Seq<u8>>::empty());
        r
    }

    /// The store.
    pub fn storage(&self) -> (r: &MemoryStorage)
        ensures
            r.txs() == self.stored(),
            r.confirmed_hashes() == self.confirmed_in_store(),
    {
        &self.storage
    }

    /// Index of the node with hash `h`.
    fn find_node(&self, h: &[u8; 32]) -> (r: Option<usize>)
        requires
            self.shape_ok(),
        ensures
            r is None <==> !self.has_node(h@),
            r matches Some(i) ==> i < self.count() && self.hash_at(i as int) == h@,
    {
        let mut i: usize = 0;
        while i < self.hashes.len()
            invariant
                self.shape_ok(),
                0 <= i <= self.hashes@.len(),
                forall|j: int| 0 <= j < i ==> self.hashes@[j]@ != h@,
            decreases self.hashes@.len() - i,
        {
            if hash_eq(&self.hashes[i], h) {
                assert(self.hash_at(i as int) == h@);
                return Some(i);
            }
            i += 1;
        }
        None
    }

    /// One plus the decayed sum of node `i`'s children's scores, saturating.
    fn rescore_node(&self, i: usize) -> (r: u64)
        requires
            i < self.count(),
            self.shape_ok(),
            self.scores_bounded(),
        ensures
            r == rescored(self.child_scores(i as int)),
            r <= SCORE_CAP,
    {
        let ch = &self.children[i];
        let ghost cs = self.child_scores(i as int);
        let mut acc: u64 = SCORE_UNIT;
        let mut k: usize = 0;
        assert(cs.take(0) =~= Seq::<u64>::empty());
        while k < ch.len()
            invariant
                self.shape_ok(),
                self.scores_bounded(),
                i < self.count(),
                ch@ == self.children@[i as int]@,
                cs == ch@.map_values(|c: usize| self.scores@[c as int]),
                0 <= k <= ch@.len(),
                acc == rescored(cs.take(k as int)),
                acc <= SCORE_CAP,
            decreases ch@.len() - k,
        {
            let c = ch[k];
            assert(i < c < self.count());
            let s = self.scores[c];
            assert(s <= SCORE_CAP);
            assert(s * 9 <= 9 * SCORE_CAP) by (nonlinear_arith)
                requires
                    s <= SCORE_CAP,
            ;
            let d = s * SCORE_DECAY_NUM / SCORE_DECAY_DEN;
            assert(d <= s) by (nonlinear_arith)
                requires
                    d == s * 9 / 10,
            ;
            proof {
                assert(cs.take(k + 1).drop_last() =~= cs.take(k as int));
                assert(cs.take(k + 1).last() == s);
                assert(decayed_sum(cs.take(k + 1)) == decayed_sum(cs.take(k as int)) + d);
            }
            acc = if acc + d > SCORE_CAP {
                SCORE_CAP
            } else {
                acc + d
            };
            k += 1;
        }
        assert(cs.take(ch@.len() as int) =~= cs);
        acc
    }

    /// Re-scores every node, last to first, and confirms the pending nodes that
    /// reach the threshold. Children come after parents, so each node is scored
    /// from its children's final scores.
    fn recompute_scores(&mut self)
        requires
            old(self).shape_ok(),
            old(self).scores_bounded(),
        ensures
            final(self).wf(),
            final(self).storage == old(self).storage,
            final(self).hashes@ == old(self).hashes@,
            final(self).children@ == old(self).children@,
            final(self).admitted@ == old(self).admitted@,
            final(self).key_images@ == old(self).key_images@,
            forall|j: int|
                0 <= j < old(self).count() ==> #[trigger] final(self).states@[j] == after_rescore(
                    old(self).states@[j],
                    final(self).scores@[j],
                ),
    {
        let n = self.hashes.len();
        let mut i: usize = n;
        while i > 0
            invariant
                0 <= i <= n == self.hashes@.len(),
                self.shape_ok(),
                self.scores_bounded(),
                self.storage == old(self).storage,
                self.hashes@ == old(self).hashes@,
                self.children@ == old(self).children@,
                self.admitted@ == old(self).admitted@,
                self.key_images@ == old(self).key_images@,
                forall|j: int| i <= j < n ==> #[trigger] self.scores@[j] == rescored(self.child_scores(j)),
                forall|j: int|
                    i <= j < n ==> #[trigger] self.states@[j] == after_rescore(
                        old(self).states@[j],
                        self.scores@[j],
                    ),
                forall|j: int| 0 <= j < i ==> #[trigger] self.states@[j] == old(self).states@[j],
            decreases i,
        {
            i -= 1;
            let s = self.rescore_node(i);
            let ghost prev = *self;
            self.scores.set(i, s);
            if self.states[i] == TxState::Pending && s >= CONFIRMATION_THRESHOLD {
                self.states.set(i, TxState::Confirmed);
            }
            proof {
                assert forall|j: int| i <= j < n implies #[trigger] self.scores@[j] == rescored(
                    self.child_scores(j),
                ) by {
                    assert forall|k: int| 0 <= k < self.children@[j]@.len() implies self.children@[j]@[k] > i by {
                        assert(j < self.children@[j]@[k]);
                    }
                    assert(self.child_scores(j) =~= prev.child_scores(j));
                }
            }
        }
    }

    /// Index of the node with hash `h`, adding `h` as a root when it has none.
    fn ensure_node(&mut self, h: &[u8; 32]) -> (r: usize)
        requires
            old(self).wf(),
            old(self).stored().contains_key(h@),
        ensures
            final(self).wf(),
            r < final(self).count(),
            final(self).hash_at(r as int) == h@,
            final(self).storage == old(self).storage,
            final(self).key_images@ == old(self).key_images@,
            old(self).has_node(h@) ==> *final(self) == *old(self),
            !old(self).has_node(h@) ==> {
                &&& r == old(self).count()
                &&& final(self).hashes@ == old(self).hashes@.push(*h)
                &&& final(self).scores@ == old(self).scores@.push(SCORE_UNIT)
                &&& final(self).states@ == old(self).states@.push(TxState::Pending)
                &&& final(self).children@.len() == old(self).count() + 1
                &&& final(self).children@.drop_last() == old(self).children@
                &&& final(self).children@.last()@ == Seq::<usize>::empty()
                &&& final(self).admitted@ == old(self).admitted@.push(false)
            },
    {
        match self.find_node(h) {
            Some(i) => i,
            None => {
                let n = self.hashes.len();
                let ghost prev = *self;
                self.hashes.push(*h);
                self.scores.push(SCORE_UNIT);
                self.states.push(TxState::Pending);
                self.children.push(Vec::new());
                self.admitted.push(false);
                proof {
                    assert(self.children@.drop_last() =~= prev.children@);
                    assert forall|i: int| 0 <= i < n implies #[trigger] self.scores@[i] == rescored(
                        self.child_scores(i),
                    ) by {
                        assert(self.children@[i] == prev.children@[i]);
                        assert(self.child_scores(i) =~= prev.child_scores(i));
                    }
                    assert(self.child_scores(n as int) =~= Seq::<u64>::empty());
                    assert(decayed_sum(Seq::<u64>::empty()) == 0);
                    assert forall|i: int, j: int| 0 <= i < j < n + 1 implies self.hashes@[i]@ != self.hashes@[j]@ by {
                        if j == n {
                            assert(!prev.has_node(h@));
                            assert(prev.hash_at(i) != h@);
                        }
                    }
                }
                n
            },
        }
    }

    /// Whether some input of `tx` spends a key image that is already bound.
    fn has_conflict(&self, tx: &Transaction) -> (r: bool)
        ensures
            r == self.conflicts_with(tx@),
    {
        let mut k: usize = 0;
        while k < tx.inputs.len()
            invariant
                0 <= k <= tx.inputs@.len(),
                forall|m: int| 0 <= m < k ==> !self.bound_key_images().contains(#[trigger] tx@.inputs[m].key_image),
            decreases tx.inputs@.len() - k,
        {
            let image = &tx.inputs[k].key_image;
            let mut j: usize = 0;
            while j < self.key_images.len()
                invariant
                    0 <= k < tx.inputs@.len(),
                    *image == tx.inputs@[k as int].key_image,
                    0 <= j <= self.key_images@.len(),
                    forall|m: int| 0 <= m < j ==> self.key_images@[m]@ != image@,
                decreases self.key_images@.len() - j,
            {
                if hash_eq(&self.key_images[j], image) {
                    assert(self.bound_key_images().contains(tx@.inputs[k as int].key_image));
                    return true;
                }
                j += 1;
            }
            k += 1;
        }
        false
    }

    /// Binds every input's key image of `tx`.
    fn bind_key_images(&mut self, tx: &Transaction)
        ensures
            final(self).bound_key_images() == old(self).bound_key_images().union(input_key_images(tx@)),
            final(self).storage == old(self).storage,
            final(self).hashes@ == old(self).hashes@,
            final(self).scores@ == old(self).scores@,
            final(self).states@ == old(self).states@,
            final(self).children@ == old(self).children@,
            final(self).admitted@ == old(self).admitted@,
    {
        let ghost start = self.key_images@;
        let mut k: usize = 0;
        while k < tx.inputs.len()
            invariant
                0 <= k <= tx.inputs@.len(),
                self.key_images@.len() == start.len() + k,
                self.key_images@.take(start.len() as int) == start,
                forall|m: int| 0 <= m < k ==> #[trigger] self.key_images@[start.len() + m]@ == tx@.inputs[m].key_image,
                self.storage == old(self).storage,
                self.hashes@ == old(self).hashes@,
                self.scores@ == old(self).scores@,
                self.states@ == old(self).states@,
                self.children@ == old(self).children@,
                self.admitted@ == old(self).admitted@,
                start == old(self).key_images@,
            decreases tx.inputs@.len() - k,
        {
            let ghost before = self.key_images@;
            self.key_images.push(tx.inputs[k].key_image);
            assert(self.key_images@.take(start.len() as int) =~= before.take(start.len() as int));
            k += 1;
        }
        assert forall|x: Seq<u8>| #[trigger] final(self).bound_key_images().contains(x)
            <==> old(self).bound_key_images().union(input_key_images(tx@)).contains(x) by {
            if final(self).bound_key_images().contains(x) {
                let j = choose|j: int| 0 <= j < self.key_images@.len() && self.key_images@[j]@ == x;
                if j < start.len() {
                    assert(start[j] == self.key_images@.take(start.len() as int)[j]);
                    assert(old(self).bound_key_images().contains(x));
                } else {
                    assert(self.key_images@[start.len() + (j - start.len())]@ == tx@.inputs[j - start.len()].key_image);
                    assert(input_key_images(tx@).contains(x));
                }
            }
            if old(self).bound_key_images().contains(x) {
                let j = choose|j: int| 0 <= j < start.len() && start[j]@ == x;
                assert(self.key_images@.take(start.len() as int)[j] == self.key_images@[j]);
                assert(final(self).bound_key_images().contains(x));
            }
            if input_key_images(tx@).contains(x) {
                let m = choose|m: int| 0 <= m < tx@.inputs.len() && tx@.inputs[m].key_image == x;
                assert(self.key_images@[start.len() + m]@ == x);
                assert(final(self).bound_key_images().contains(x));
            }
        }
        assert(final(self).bound_key_images() =~= old(self).bound_key_images().union(input_key_images(tx@)));
    }

    /// Admits `tx` into the graph, with `now` as the clock time.
    ///
    /// Fails with `InvalidTransaction` where `tx` breaks a structural rule, with
    /// `InvalidParent` where a parent is not stored, and with `StorageError`
    /// where `tx` is stored already; the graph is then unchanged. Otherwise the
    /// transaction is stored and becomes the last node: a tip with score one,
    /// `Conflicted` where one of its key images is already bound and `Pending`
    /// where none is; either way its key images are bound from then on, so the
    /// earliest admission wins. Parents that were not yet nodes
    /// are added as roots before it, each parent gains it as a child, and every
    /// node is re-scored.
    pub fn add_transaction_at(&mut self, tx: Transaction, now: u64) -> (r: Result<[u8; 32], NyxError>)
        requires
            old(self).wf(),
        ensures
            final(self).wf(),
            !structurally_valid(tx@, now) ==> r matches Err(NyxError::InvalidTransaction(_)),
            structurally_valid(tx@, now) && !(old(self).stored().contains_key(tx@.parent1)
                && old(self).stored().contains_key(tx@.parent2)) ==> r matches Err(
                NyxError::InvalidParent(_),
            ),
            structurally_valid(tx@, now) && old(self).stored().contains_key(tx@.parent1)
                && old(self).stored().contains_key(tx@.parent2) && old(self).stored().contains_key(
                tx_id(tx@),
            ) ==> r matches Err(NyxError::StorageError(_)),
            r is Err ==> *final(self) == *old(self),
            r is Ok <==> (structurally_valid(tx@, now) && old(self).stored().contains_key(
                tx@.parent1,
            ) && old(self).stored().contains_key(tx@.parent2) && !old(self).stored().contains_key(
                tx_id(tx@),
            )),
            r matches Ok(h) ==> h@ == tx_id(tx@),
            r is Ok ==> final(self).stored() == old(self).stored().insert(tx_id(tx@), tx@),
            r is Ok ==> old(self).count() < final(self).count() <= old(self).count() + 3,
            r is Ok ==> final(self).hash_at(final(self).count() - 1) == tx_id(tx@),
            r is Ok ==> final(self).admitted_at(final(self).count() - 1),
            r is Ok ==> final(self).child_indices(final(self).count() - 1).len() == 0,
            r is Ok ==> final(self).state_at(final(self).count() - 1) == if old(self).conflicts_with(tx@) {
                TxState::Conflicted
            } else {
                TxState::Pending
            },
            r is Ok ==> final(self).bound_key_images() == old(self).bound_key_images().union(input_key_images(tx@)),
            r is Ok ==> final(self).has_node(tx@.parent1) && final(self).has_node(tx@.parent2),
            r is Ok ==> forall|i: int|
            #![trigger final(self).hash_at(i)]
            0 <= i < old(self).count() ==> final(self).hash_at(i) == old(self).hash_at(i)
                && final(self).admitted_at(i) == old(self).admitted_at(i) && final(self).state_at(i) == after_rescore(
                old(self).state_at(i),
                final(self).score_at(i),
            ),
            r is Ok ==> forall|i: int|
            0 <= i < old(self).count() && (old(self).hash_at(i) == tx@.parent1 || old(self).hash_at(i) == tx@.parent2)
                ==> #[trigger] final(self).child_indices(i) == old(self).child_indices(i).push(
                (final(self).count() - 1) as usize,
            ),
            r is Ok ==> forall|i: int|
            0 <= i < old(self).count() && old(self).hash_at(i) != tx@.parent1 && old(self).hash_at(i) != tx@.parent2
                ==> #[trigger] final(self).child_indices(i) == old(self).child_indices(i),
            r is Ok ==> forall|i: int|
                old(self).count() <= i < final(self).count() - 1 ==> #[trigger] final(self).admitted_at(i) == false,
            r is Ok ==> forall|i: int|
                old(self).count() <= i < final(self).count() - 1 ==> #[trigger] final(self).hash_at(i) == tx@.parent1
                    || final(self).hash_at(i) == tx@.parent2,
            r is Ok ==> forall|i: int|
                old(self).count() <= i < final(self).count() - 1 ==> #[trigger] final(self).child_indices(i).len() == 1
                    && final(self).child_indices(i)[0] == (final(self).count() - 1) as usize,
            r is Ok ==> forall|i: int|
                old(self).count() <= i < final(self).count() - 1 ==> #[trigger] final(self).state_at(i) == after_rescore(
                    TxState::Pending,
                    final(self).score_at(i),
                ),
            r is Ok ==> forall|i: int|
                0 <= i < old(self).count() && (old(self).state_at(i) == TxState::Finalized
                    || old(self).state_at(i) == TxState::Conflicted) ==> #[trigger] final(self).state_at(i) == old(self).state_at(i),
            r is Ok ==> forall|i: int|
                0 <= i < old(self).count() && old(self).state_at(i) == TxState::Pending
                    && #[trigger] final(self).state_at(i) == TxState::Confirmed ==> final(self).score_at(i) >= CONFIRMATION_THRESHOLD,
            r is Ok ==> final(self).score_at(final(self).count() - 1) == SCORE_UNIT,
            r is Ok ==> forall|i: int|
                0 <= i < final(self).count() ==> (#[trigger] final(self).is_tip(i) <==> (i == final(self).count() - 1
                    || (i < old(self).count() && old(self).is_tip(i) && old(self).hash_at(i) != tx@.parent1
                        && old(self).hash_at(i) != tx@.parent2))),
    {
        if !tx.validate_structure_at(now) {
            return Err(NyxError::InvalidTransaction("Invalid transaction structure".to_string()));
        }
        let p1 = tx.references[0];
        let p2 = tx.references[1];
        match self.storage.has_transaction(&p1) {
            Ok(true) => {},
            _ => {
                return Err(NyxError::InvalidParent("Parent transaction not found".to_string()));
            },
        }
        match self.storage.has_transaction(&p2) {
            Ok(true) => {},
            _ => {
                return Err(NyxError::InvalidParent("Parent transaction not found".to_string()));
            },
        }
        let conflict = self.has_conflict(&tx);
        let images = tx.duplicate();
        let ghost model = tx@;
        let ghost old_self = *self;
        let h = match self.storage.store_transaction(tx) {
            Ok(h) => h,
            Err(e) => {
                return Err(e);
            },
        };
        proof {
            assert forall|i: int| 0 <= i < self.hashes@.len() implies #[trigger] self.storage.txs().contains_key(self.hashes@[i]@) by {
                assert(old_self.storage.txs().contains_key(self.hashes@[i]@));
            }
            assert forall|i: int| 0 <= i < self.hashes@.len() && #[trigger] self.admitted@[i] implies
                self.storage.txs()[self.hashes@[i]@].parent1 != self.storage.txs()[self.hashes@[i]@].parent2 by {
                assert(old_self.storage.txs().contains_key(self.hashes@[i]@));
                assert(self.hashes@[i]@ != tx_id(model));
            }
        }
        let ghost stored = *self;
        proof {
            assert(self.storage.txs()[h@] == model);
            assert(!self.has_node(h@)) by {
                if self.has_node(h@) {
                    let j = choose|j: int| 0 <= j < self.count() && self.hash_at(j) == h@;
                    assert(old_self.storage.txs().contains_key(self.hashes@[j]@));
                }
            }
        }
        let ghost before_link = *self;
        self.link_and_rescore(h, &images, conflict);
        proof {
            assert(images@ == model);
            assert(before_link.hashes@ == old(self).hashes@);
            assert(before_link.states@ == old(self).states@);
            assert(before_link.admitted@ == old(self).admitted@);
            assert(before_link.children@ == old(self).children@);
            assert forall|i: int|
                #![trigger self.hash_at(i)]
                0 <= i < old(self).count() implies self.hash_at(i) == old(self).hash_at(i)
                    && self.admitted_at(i) == old(self).admitted_at(i) && self.state_at(i) == after_rescore(
                    old(self).state_at(i),
                    self.score_at(i),
                ) by {
                assert(self.hash_at(i) == before_link.hash_at(i));
            }
            assert forall|i: int| 0 <= i < old(self).count() implies #[trigger] self.state_at(i) == after_rescore(
                old(self).state_at(i),
                self.score_at(i),
            ) by {
                assert(self.hash_at(i) == before_link.hash_at(i));
            }
            assert forall|i: int| 0 <= i < old(self).count() implies #[trigger] self.admitted_at(i)
                == old(self).admitted_at(i) by {
                assert(self.hash_at(i) == before_link.hash_at(i));
            }
            assert(self.bound_key_images() == old(self).bound_key_images().union(input_key_images(tx@)));
            assert forall|i: int|
                0 <= i < old(self).count() && (old(self).state_at(i) == TxState::Finalized
                    || old(self).state_at(i) == TxState::Conflicted) implies #[trigger] self.state_at(i)
                == old(self).state_at(i) by {
                assert(self.hash_at(i) == old(self).hash_at(i));
            }
            assert forall|i: int|
                0 <= i < old(self).count() && old(self).state_at(i) == TxState::Pending && #[trigger] self.state_at(i)
                    == TxState::Confirmed implies self.score_at(i) >= CONFIRMATION_THRESHOLD by {
                assert(self.hash_at(i) == old(self).hash_at(i));
            }
        }
        Ok(h)
    }

    /// Adds `h` as the last node, admitted, with `state`, below the parents
    /// `p1` and `p2`; parents without a node are first added as roots.
    fn attach(&mut self, h: [u8; 32], p1: &[u8; 32], p2: &[u8; 32], state: TxState)
        requires
            old(self).wf(),
            old(self).stored().contains_key(p1@),
            old(self).stored().contains_key(p2@),
            p1@ != p2@,
            old(self).stored().contains_key(h@),
            old(self).stored()[h@].parent1 != old(self).stored()[h@].parent2,
            !old(self).has_node(h@),
            h@ != p1@,
            h@ != p2@,
        ensures
            final(self).shape_ok(),
            final(self).scores_bounded(),
            final(self).storage == old(self).storage,
            final(self).key_images@ == old(self).key_images@,
            old(self).count() < final(self).count() <= old(self).count() + 3,
            final(self).hash_at(final(self).count() - 1) == h@,
            final(self).admitted_at(final(self).count() - 1),
            final(self).child_indices(final(self).count() - 1).len() == 0,
            final(self).state_at(final(self).count() - 1) == state,
            final(self).has_node(p1@) && final(self).has_node(p2@),
            forall|i: int|
                0 <= i < old(self).count() ==> {
                    &&& #[trigger] final(self).hash_at(i) == old(self).hash_at(i)
                    &&& final(self).admitted_at(i) == old(self).admitted_at(i)
                    &&& final(self).state_at(i) == old(self).state_at(i)
                    &&& final(self).child_indices(i) == if old(self).hash_at(i) == p1@ || old(
                        self,
                    ).hash_at(i) == p2@ {
                        old(self).child_indices(i).push((final(self).count() - 1) as usize)
                    } else {
                        old(self).child_indices(i)
                    }
                },
            forall|i: int|
                #![trigger final(self).admitted_at(i)]
                old(self).count() <= i < final(self).count() - 1 ==> {
                    &&& !final(self).admitted_at(i)
                    &&& (final(self).hash_at(i) == p1@ || final(self).hash_at(i) == p2@)
                    &&& final(self).child_indices(i) == seq![(final(self).count() - 1) as usize]
                    &&& final(self).state_at(i) == TxState::Pending
                },
    {
        let i1 = self.ensure_node(p1);
        let ghost after1 = *self;
        let i2 = self.ensure_node(p2);
        let ghost mid = *self;
        let n = self.hashes.len();
        assert(i1 != i2);
        assert(!mid.has_node(h@)) by {
            if mid.has_node(h@) {
                let j = choose|j: int| 0 <= j < mid.count() && mid.hash_at(j) == h@;
                if j < old(self).count() {
                    assert(after1.hashes@[j] == old(self).hashes@[j]);
                    assert(mid.hashes@[j] == after1.hashes@[j]);
                    assert(old(self).hash_at(j) == h@);
                } else if j < after1.count() {
                    assert(mid.hashes@[j] == after1.hashes@[j]);
                    assert(after1.hash_at(j) == p1@);
                } else {
                    assert(mid.hash_at(j) == p2@);
                }
            }
        }
        self.hashes.push(h);
        self.scores.push(SCORE_UNIT);
        self.states.push(state);
        self.children.push(Vec::new());
        self.admitted.push(true);
        self.children[i1].push(n);
        self.children[i2].push(n);
        proof {
            let n0 = old(self).count();
            assert forall|i: int| 0 <= i <= n implies #[trigger] self.children@[i]@ == (if i == i1
                || i == i2 {
                mid.children@[i]@.push(n)
            } else if i < n {
                mid.children@[i]@
            } else {
                Seq::<usize>::empty()
            }) by {}
            assert forall|i: int| 0 <= i < n0 implies {
                &&& mid.hash_at(i) == old(self).hash_at(i)
                &&& mid.admitted_at(i) == old(self).admitted_at(i)
                &&& mid.child_indices(i) == old(self).child_indices(i)
                &&& mid.state_at(i) == old(self).state_at(i)
                &&& mid.score_at(i) == old(self).score_at(i)
            } by {
                assert(after1.hashes@[i] == old(self).hashes@[i]);
                assert(after1.children@[i] == old(self).children@[i]);
                assert(mid.children@[i] == after1.children@[i]);
            }
            assert forall|i: int| 0 <= i < n0 implies (old(self).hash_at(i) == p1@
                || old(self).hash_at(i) == p2@) == (i == i1 || i == i2) by {
                if old(self).hash_at(i) == p1@ {
                    assert(mid.hash_at(i) == mid.hash_at(i1 as int));
                }
                if old(self).hash_at(i) == p2@ {
                    assert(mid.hash_at(i) == mid.hash_at(i2 as int));
                }
            }
            assert forall|i: int| n0 <= i < n implies {
                &&& !mid.admitted_at(i)
                &&& (mid.hash_at(i) == p1@ || mid.hash_at(i) == p2@)
                &&& mid.child_indices(i) == Seq::<usize>::empty()
                &&& mid.state_at(i) == TxState::Pending
                &&& (i == i1 || i == i2)
            } by {
                if i < after1.count() {
                    assert(mid.children@[i] == after1.children@[i]);
                }
            }
            assert forall|i: int, j: int| 0 <= i < j < n + 1 implies self.hashes@[i]@ != self.hashes@[j]@ by {
                if j == n {
                    assert(mid.hash_at(i) != h@);
                }
            }
            assert forall|i: int, k: int|
                0 <= i < n + 1 && 0 <= k < self.children@[i]@.len() implies i < #[trigger] self.children@[i]@[k] < n + 1 by {
                if i < n {
                    if k < mid.children@[i]@.len() {
                        assert(self.children@[i]@[k] == mid.children@[i]@[k]);
                    }
                }
            }
            assert forall|i: int, k1: int, k2: int|
                0 <= i < n + 1 && 0 <= k1 < k2 < self.children@[i]@.len() implies #[trigger] self.children@[i]@[k1]
                    != #[trigger] self.children@[i]@[k2] by {
                if i < n && k2 < mid.children@[i]@.len() {
                    assert(self.children@[i]@[k1] == mid.children@[i]@[k1]);
                    assert(self.children@[i]@[k2] == mid.children@[i]@[k2]);
                } else if i < n {
                    assert(self.children@[i]@[k1] == mid.children@[i]@[k1]);
                    assert(mid.children@[i]@[k1] < n);
                }
            }
            assert forall|i: int| 0 <= i < n + 1 implies #[trigger] self.storage.txs().contains_key(self.hashes@[i]@) by {
                if i < n {
                    assert(mid.hashes@[i] == self.hashes@[i]);
                }
            }
            assert(self.has_node(p1@)) by {
                assert(self.hash_at(i1 as int) == p1@);
            }
            assert(self.has_node(p2@)) by {
                assert(self.hash_at(i2 as int) == p2@);
            }
        }
    }

    /// Attaches the stored transaction `t` (with identifier `h`) below its
    /// parents, binds its key images unless `conflict`, and re-scores.
    fn link_and_rescore(&mut self, h: [u8; 32], t: &Transaction, conflict: bool)
        requires
            old(self).wf(),
            old(self).stored().contains_key(t@.parent1),
            old(self).stored().contains_key(t@.parent2),
            t@.parent1 != t@.parent2,
            old(self).stored().contains_key(h@),
            old(self).stored()[h@].parent1 != old(self).stored()[h@].parent2,
            !old(self).has_node(h@),
            h@ != t@.parent1,
            h@ != t@.parent2,
        ensures
            final(self).wf(),
            final(self).storage == old(self).storage,
            old(self).count() < final(self).count() <= old(self).count() + 3,
            final(self).hash_at(final(self).count() - 1) == h@,
            final(self).admitted_at(final(self).count() - 1),
            final(self).child_indices(final(self).count() - 1).len() == 0,
            final(self).state_at(final(self).count() - 1) == if conflict {
                TxState::Conflicted
            } else {
                TxState::Pending
            },
            final(self).bound_key_images() == old(self).bound_key_images().union(input_key_images(t@)),
            final(self).has_node(t@.parent1) && final(self).has_node(t@.parent2),
            forall|i: int|
            #![trigger final(self).hash_at(i)]
            0 <= i < old(self).count() ==> final(self).hash_at(i) == old(self).hash_at(i)
                && final(self).admitted_at(i) == old(self).admitted_at(i) && final(self).state_at(i) == after_rescore(
                old(self).state_at(i),
                final(self).score_at(i),
            ),
            forall|i: int|
            0 <= i < old(self).count() && (old(self).hash_at(i) == t@.parent1 || old(self).hash_at(i) == t@.parent2)
                ==> #[trigger] final(self).child_indices(i) == old(self).child_indices(i).push(
                (final(self).count() - 1) as usize,
            ),
            forall|i: int|
            0 <= i < old(self).count() && old(self).hash_at(i) != t@.parent1 && old(self).hash_at(i) != t@.parent2
                ==> #[trigger] final(self).child_indices(i) == old(self).child_indices(i),
            forall|i: int|
                old(self).count() <= i < final(self).count() - 1 ==> #[trigger] final(self).admitted_at(i) == false,
            forall|i: int|
                old(self).count() <= i < final(self).count() - 1 ==> #[trigger] final(self).hash_at(i) == t@.parent1
                    || final(self).hash_at(i) == t@.parent2,
            forall|i: int|
                old(self).count() <= i < final(self).count() - 1 ==> #[trigger] final(self).child_indices(i).len() == 1
                    && final(self).child_indices(i)[0] == (final(self).count() - 1) as usize,
            forall|i: int|
                old(self).count() <= i < final(self).count() - 1 ==> #[trigger] final(self).state_at(i) == after_rescore(
                    TxState::Pending,
                    final(self).score_at(i),
                ),
    {
        let p1 = t.references[0];
        let p2 = t.references[1];
        self.attach(h, &p1, &p2, if conflict { TxState::Conflicted } else { TxState::Pending });
        let ghost attached = *self;
        self.bind_key_images(t);
        let ghost pre = *self;
        self.recompute_scores();
        proof {
            let n0 = old(self).count();
            let last = self.count() - 1;
            assert(self.has_node(t@.parent1)) by {
                let j = choose|j: int| 0 <= j < attached.count() && attached.hash_at(j) == t@.parent1;
                assert(self.hash_at(j) == attached.hash_at(j));
            }
            assert(self.has_node(t@.parent2)) by {
                let j = choose|j: int| 0 <= j < attached.count() && attached.hash_at(j) == t@.parent2;
                assert(self.hash_at(j) == attached.hash_at(j));
            }
            assert(self.child_scores(last) =~= Seq::<u64>::empty());
            assert(decayed_sum(Seq::<u64>::empty()) == 0);
            assert(self.state_at(last) == pre.state_at(last));
            assert forall|i: int| 0 <= i < n0 implies {
                &&& #[trigger] self.hash_at(i) == old(self).hash_at(i)
                &&& self.admitted_at(i) == old(self).admitted_at(i)
                &&& self.child_indices(i) == if old(self).hash_at(i) == t@.parent1
                    || old(self).hash_at(i) == t@.parent2 {
                    old(self).child_indices(i).push(last as usize)
                } else {
                    old(self).child_indices(i)
                }
                &&& self.state_at(i) == after_rescore(old(self).state_at(i), self.score_at(i))
            } by {
                assert(attached.hash_at(i) == old(self).hash_at(i));
                assert(attached.state_at(i) == old(self).state_at(i));
                assert(pre.states@ == attached.states@);
                assert(self.states@[i] == after_rescore(pre.states@[i], self.scores@[i]));
            }
            assert forall|i: int|
                #![trigger self.admitted_at(i)]
                n0 <= i < last implies !self.admitted_at(i) && (self.hash_at(i) == t@.parent1
                    || self.hash_at(i) == t@.parent2) && self.child_indices(i) == seq![last as usize]
                    && self.state_at(i) == after_rescore(TxState::Pending, self.score_at(i)) by {
                assert(!attached.admitted_at(i));
                assert(attached.hash_at(i) == t@.parent1 || attached.hash_at(i) == t@.parent2);
                assert(attached.child_indices(i) == seq![(attached.count() - 1) as usize]);
                assert(attached.state_at(i) == TxState::Pending);
                assert(pre.states@ == attached.states@);
                assert(self.states@[i] == after_rescore(pre.states@[i], self.scores@[i]));
            }
            assert forall|i: int|
                0 <= i < n0 && (old(self).hash_at(i) == t@.parent1 || old(self).hash_at(i) == t@.parent2)
                    implies #[trigger] self.child_indices(i) == old(self).child_indices(i).push(last as usize) by {
                assert(self.hash_at(i) == old(self).hash_at(i));
            }
            assert forall|i: int|
                0 <= i < n0 && old(self).hash_at(i) != t@.parent1 && old(self).hash_at(i) != t@.parent2
                    implies #[trigger] self.child_indices(i) == old(self).child_indices(i) by {
                assert(self.hash_at(i) == old(self).hash_at(i));
            }
            assert forall|i: int| 0 <= i < n0 implies #[trigger] self.state_at(i) == after_rescore(old(self).state_at(i), self.score_at(i)) by {
                assert(attached.hash_at(i) == old(self).hash_at(i));
                assert(attached.state_at(i) == old(self).state_at(i));
                assert(pre.states@ == attached.states@);
                assert(self.states@[i] == after_rescore(pre.states@[i], self.scores@[i]));
            }
            assert forall|i: int| 0 <= i < n0 implies #[trigger] self.hash_at(i) == old(self).hash_at(i) by {
                assert(attached.hash_at(i) == old(self).hash_at(i));
            }
            assert forall|i: int| 0 <= i < n0 implies #[trigger] self.admitted_at(i) == old(self).admitted_at(i) by {
                assert(attached.hash_at(i) == old(self).hash_at(i));
            }
            assert forall|i: int| n0 <= i < last implies #[trigger] self.hash_at(i) == t@.parent1
                || self.hash_at(i) == t@.parent2 by {
                assert(attached.admitted_at(i) == false);
            }
            assert forall|i: int| n0 <= i < last implies #[trigger] self.admitted_at(i) == false by {
                assert(attached.admitted_at(i) == false);
            }
            assert forall|i: int| n0 <= i < last implies #[trigger] self.child_indices(i).len() == 1
                && self.child_indices(i)[0] == last as usize by {
                assert(attached.admitted_at(i) == false);
                assert(attached.child_indices(i) == seq![last as usize]);
                assert(self.children@ == attached.children@);
                assert(self.hashes@ == attached.hashes@);
                assert(self.child_indices(i) == attached.child_indices(i));
            }
            assert forall|i: int| n0 <= i < last implies #[trigger] self.state_at(i) == after_rescore(
                TxState::Pending,
                self.score_at(i),
            ) by {
                assert(attached.admitted_at(i) == false);
                assert(pre.states@ == attached.states@);
                assert(self.states@[i] == after_rescore(pre.states@[i], self.scores@[i]));
            }
        }
    }

    /// Admits `tx` with the current clock time: what `add_transaction_at`
    /// states for the time read, and, whatever the time, the errors of the
    /// rules that do not involve it.
    pub fn add_transaction(&mut self, tx: Transaction) -> (r: Result<[u8; 32], NyxError>)
        requires
            old(self).wf(),
        ensures
            final(self).wf(),
            r is Err ==> *final(self) == *old(self),
            exists|now: u64|
                #![trigger structurally_valid(tx@, now)]
                (r is Ok <==> (structurally_valid(tx@, now) && old(self).stored().contains_key(tx@.parent1)
                    && old(self).stored().contains_key(tx@.parent2) && !old(self).stored().contains_key(tx_id(tx@)))),
            !shape_valid(tx@) ==> r matches Err(NyxError::InvalidTransaction(_)),
            shape_valid(tx@) && !(old(self).stored().contains_key(tx@.parent1) && old(self).stored().contains_key(
                tx@.parent2)) ==> (r matches Err(NyxError::InvalidParent(_)) || r matches Err(NyxError::InvalidTransaction(_))),
            shape_valid(tx@) && old(self).stored().contains_key(tx@.parent1) && old(self).stored().contains_key(tx@.parent2)
                && old(self).stored().contains_key(tx_id(tx@)) ==> (r matches Err(NyxError::StorageError(_)) || r matches Err(NyxError::InvalidTransaction(_))),
            r matches Ok(h) ==> h@ == tx_id(tx@),
            r is Ok ==> final(self).stored() == old(self).stored().insert(tx_id(tx@), tx@),
            r is Ok ==> old(self).count() < final(self).count() <= old(self).count() + 3,
            r is Ok ==> final(self).hash_at(final(self).count() - 1) == tx_id(tx@),
            r is Ok ==> final(self).admitted_at(final(self).count() - 1),
            r is Ok ==> final(self).child_indices(final(self).count() - 1).len() == 0,
            r is Ok ==> final(self).state_at(final(self).count() - 1) == if old(self).conflicts_with(tx@) {
                TxState::Conflicted
            } else {
                TxState::Pending
            },
            r is Ok ==> final(self).bound_key_images() == old(self).bound_key_images().union(input_key_images(tx@)),
            r is Ok ==> final(self).has_node(tx@.parent1) && final(self).has_node(tx@.parent2),
            r is Ok ==> forall|i: int|
            #![trigger final(self).hash_at(i)]
            0 <= i < old(self).count() ==> final(self).hash_at(i) == old(self).hash_at(i)
                && final(self).admitted_at(i) == old(self).admitted_at(i) && final(self).state_at(i) == after_rescore(
                old(self).state_at(i),
                final(self).score_at(i),
            ),
            r is Ok ==> forall|i: int|
            0 <= i < old(self).count() && (old(self).hash_at(i) == tx@.parent1 || old(self).hash_at(i) == tx@.parent2)
                ==> #[trigger] final(self).child_indices(i) == old(self).child_indices(i).push(
                (final(self).count() - 1) as usize,
            ),
            r is Ok ==> forall|i: int|
            0 <= i < old(self).count() && old(self).hash_at(i) != tx@.parent1 && old(self).hash_at(i) != tx@.parent2
                ==> #[trigger] final(self).child_indices(i) == old(self).child_indices(i),
            r is Ok ==> forall|i: int|
                old(self).count() <= i < final(self).count() - 1 ==> #[trigger] final(self).admitted_at(i) == false,
            r is Ok ==> forall|i: int|
                old(self).count() <= i < final(self).count() - 1 ==> #[trigger] final(self).hash_at(i) == tx@.parent1
                    || final(self).hash_at(i) == tx@.parent2,
            r is Ok ==> forall|i: int|
                old(self).count() <= i < final(self).count() - 1 ==> #[trigger] final(self).child_indices(i).len() == 1
                    && final(self).child_indices(i)[0] == (final(self).count() - 1) as usize,
            r is Ok ==> forall|i: int|
                old(self).count() <= i < final(self).count() - 1 ==> #[trigger] final(self).state_at(i) == after_rescore(
                    TxState::Pending,
                    final(self).score_at(i),
                ),
            r is Ok ==> forall|i: int|
                0 <= i < old(self).count() && (old(self).state_at(i) == TxState::Finalized
                    || old(self).state_at(i) == TxState::Conflicted) ==> #[trigger] final(self).state_at(i) == old(self).state_at(i),
            r is Ok ==> forall|i: int|
                0 <= i < old(self).count() && old(self).state_at(i) == TxState::Pending
                    && #[trigger] final(self).state_at(i) == TxState::Confirmed ==> final(self).score_at(i) >= CONFIRMATION_THRESHOLD,
            r is Ok ==> final(self).score_at(final(self).count() - 1) == SCORE_UNIT,
            r is Ok ==> forall|i: int|
                0 <= i < final(self).count() ==> (#[trigger] final(self).is_tip(i) <==> (i == final(self).count() - 1
                    || (i < old(self).count() && old(self).is_tip(i) && old(self).hash_at(i) != tx@.parent1
                        && old(self).hash_at(i) != tx@.parent2))),
    {
        let now = crate::clock::unix_now();
        let ghost model = tx@;
        let r = self.add_transaction_at(tx, now);
        proof {
            if r is Ok {
                assert forall|i: int| 0 <= i < old(self).count() implies #[trigger] self.hash_at(i) == old(self).hash_at(i) by {}
                assert forall|i: int| 0 <= i < old(self).count() implies #[trigger] self.admitted_at(i) == old(self).admitted_at(i) by {
                    assert(self.hash_at(i) == old(self).hash_at(i));
                }
                assert forall|i: int| 0 <= i < old(self).count() implies #[trigger] self.state_at(i) == after_rescore(
                    old(self).state_at(i),
                    self.score_at(i),
                ) by {
                    assert(self.hash_at(i) == old(self).hash_at(i));
                }
            }
            assert(structurally_valid(model, now) ==> shape_valid(model));
        }
        r
    }

    /// Stores `tx` directly, without admitting it: a root that later
    /// transactions may reference.
    pub fn store_root(&mut self, tx: Transaction) -> (r: Result<[u8; 32], NyxError>)
        requires
            old(self).wf(),
        ensures
            final(self).wf(),
            final(self).count() == old(self).count(),
            old(self).stored().contains_key(tx_id(tx@)) ==> r is Err && *final(self) == *old(self),
            !old(self).stored().contains_key(tx_id(tx@)) ==> (r matches Ok(h) && h@ == tx_id(tx@))
                && final(self).stored() == old(self).stored().insert(tx_id(tx@), tx@),
            final(self).bound_key_images() == old(self).bound_key_images(),
            forall|i: int|
                #![trigger final(self).hash_at(i)]
                0 <= i < old(self).count() ==> final(self).hash_at(i) == old(self).hash_at(i)
                    && final(self).score_at(i) == old(self).score_at(i) && final(self).state_at(i) == old(self).state_at(i)
                    && final(self).child_indices(i) == old(self).child_indices(i)
                    && final(self).admitted_at(i) == old(self).admitted_at(i),
    {
        let ghost prev = *self;
        let r = self.storage.store_transaction(tx);
        proof {
            assert forall|i: int| 0 <= i < self.hashes@.len() implies #[trigger] self.storage.txs().contains_key(self.hashes@[i]@) by {
                assert(prev.storage.txs().contains_key(self.hashes@[i]@));
            }
            assert forall|i: int| 0 <= i < self.hashes@.len() && #[trigger] self.admitted@[i] implies
                self.storage.txs()[self.hashes@[i]@].parent1 != self.storage.txs()[self.hashes@[i]@].parent2 by {
                assert(prev.storage.txs().contains_key(self.hashes@[i]@));
            }
        }
        r
    }

    /// Score of the transaction `tx_hash`, zero where it has no node.
    pub fn get_score(&self, tx_hash: &[u8; 32]) -> (r: Result<u64, NyxError>)
        requires
            self.wf(),
        ensures
            r is Ok,
            r matches Ok(s) ==> (exists|i: int| 0 <= i < self.count() && self.hash_at(i) == tx_hash@ && s == self.score_at(i))
                || (!self.has_node(tx_hash@) && s == 0),
            r matches Ok(s) ==> forall|i: int| 0 <= i < self.count() && #[trigger] self.hash_at(i) == tx_hash@ ==> s == self.score_at(i),
    {
        match self.find_node(tx_hash) {
            Some(i) => Ok(self.scores[i]),
            None => Ok(0),
        }
    }

    /// State of the transaction `tx_hash`, `Pending` where it has no node.
    pub fn get_state(&self, tx_hash: &[u8; 32]) -> (r: Result<TxState, NyxError>)
        requires
            self.wf(),
        ensures
            r is Ok,
            r matches Ok(st) ==> (exists|i: int| 0 <= i < self.count() && self.hash_at(i) == tx_hash@ && st == self.state_at(i))
                || (!self.has_node(tx_hash@) && st == TxState::Pending),
            r matches Ok(st) ==> forall|i: int| 0 <= i < self.count() && #[trigger] self.hash_at(i) == tx_hash@ ==> st == self.state_at(i),
    {
        match self.find_node(tx_hash) {
            Some(i) => Ok(self.states[i]),
            None => Ok(TxState::Pending),
        }
    }

    /// Whether `tx_hash` has reached the threshold and is not conflicted.
    pub fn is_confirmed(&self, tx_hash: &[u8; 32]) -> (r: Result<bool, NyxError>)
        requires
            self.wf(),
        ensures
            r is Ok,
            r matches Ok(b) ==> (exists|i: int|
                0 <= i < self.count() && self.hash_at(i) == tx_hash@ && b == (self.score_at(i)
                    >= CONFIRMATION_THRESHOLD && self.state_at(i) != TxState::Conflicted)) || (
            !self.has_node(tx_hash@) && !b),
            r matches Ok(b) ==> forall|i: int| 0 <= i < self.count() && #[trigger] self.hash_at(i) == tx_hash@ ==> b == (
                self.score_at(i) >= CONFIRMATION_THRESHOLD && self.state_at(i) != TxState::Conflicted),
    {
        match self.find_node(tx_hash) {
            Some(i) => Ok(self.scores[i] >= CONFIRMATION_THRESHOLD && self.states[i] != TxState::Conflicted),
            None => Ok(false),
        }
    }

    /// The tips: hashes of the admitted transactions without children, in
    /// order of admission, each once.
    pub fn get_tips(&self) -> (r: Result<Vec<[u8; 32]>, NyxError>)
        requires
            self.wf(),
        ensures
            r matches Ok(tips) && tips@.map_values(|h: [u8; 32]| h@) == self.tip_hashes(self.count()),
    {
        let mut tips: Vec<[u8; 32]> = Vec::new();
        let mut i: usize = 0;
        let ghost n = self.count();
        while i < self.hashes.len()
            invariant
                self.admitted@.len() == n,
                self.children@.len() == n,
                self.hashes@.len() == n,
                0 <= i <= n,
                tips@.map_values(|h: [u8; 32]| h@) == self.tip_hashes(i as int),
            decreases n - i,
        {
            if self.admitted[i] && self.children[i].len() == 0 {
                tips.push(self.hashes[i]);
            }
            proof {
                assert(tips@.map_values(|h: [u8; 32]| h@) =~= self.tip_hashes(i + 1));
            }
            i += 1;
        }
        Ok(tips)
    }

    /// Stamps `tx_hash` final and marks it confirmed in the store. A
    /// conflicted transaction stays conflicted.
    pub fn finalize_transaction(&mut self, tx_hash: &[u8; 32]) -> (r: Result<(), NyxError>)
        requires
            old(self).wf(),
        ensures
            final(self).wf(),
            r is Ok,
            final(self).count() == old(self).count(),
            final(self).stored() == old(self).stored(),
            final(self).confirmed_in_store() == old(self).confirmed_in_store().insert(tx_hash@),
            final(self).bound_key_images() == old(self).bound_key_images(),
            forall|i: int| 0 <= i < old(self).count() ==> #[trigger] final(self).admitted_at(i) == old(self).admitted_at(i),
            forall|i: int|
                0 <= i < old(self).count() ==> {
                    &&& #[trigger] final(self).hash_at(i) == old(self).hash_at(i)
                    &&& final(self).score_at(i) == old(self).score_at(i)
                    &&& final(self).child_indices(i) == old(self).child_indices(i)
                    &&& final(self).state_at(i) == if old(self).hash_at(i) == tx_hash@ && old(self).state_at(i) != TxState::Conflicted {
                        TxState::Finalized
                    } else {
                        old(self).state_at(i)
                    }
                },
    {
        match self.find_node(tx_hash) {
            Some(i) => {
                if self.states[i] != TxState::Conflicted {
                    self.states.set(i, TxState::Finalized);
                }
            },
            None => {},
        }
        let ghost prev = *self;
        let _ = self.storage.mark_confirmed(tx_hash);
        proof {
            assert(self.storage.txs() == prev.storage.txs());
            assert forall|i: int| 0 <= i < self.count() implies #[trigger] self.scores@[i] == rescored(self.child_scores(i)) by {
                assert(self.child_scores(i) == prev.child_scores(i));
            }
            assert forall|i: int, j: int| 0 <= i < self.count() && 0 <= j < self.count() && i != j implies self.hash_at(i) != self.hash_at(j) by {
                if i < j {} else {}
            }
        }
        Ok(())
    }

    /// Counts of nodes by state, and of tips.
    pub fn get_stats(&self) -> (r: Result<DagStats, NyxError>)
        requires
            self.wf(),
        ensures
            r matches Ok(st) && {
                &&& st.total_transactions == self.count()
                &&& st.pending_transactions == count_state(self.state_seq(), TxState::Pending)
                &&& st.confirmed_transactions == count_state(self.state_seq(), TxState::Confirmed)
                &&& st.finalized_transactions == count_state(self.state_seq(), TxState::Finalized)
                &&& st.current_tips == self.tip_count(self.count())
            },
    {
        let mut pending: usize = 0;
        let mut confirmed: usize = 0;
        let mut finalized: usize = 0;
        let mut tips: usize = 0;
        let mut i: usize = 0;
        while i < self.states.len()
            invariant
                self.wf(),
                0 <= i <= self.states@.len(),
                pending == count_state(self.states@.take(i as int), TxState::Pending),
                confirmed == count_state(self.states@.take(i as int), TxState::Confirmed),
                finalized == count_state(self.states@.take(i as int), TxState::Finalized),
                tips == self.tip_count(i as int),
                pending <= i && confirmed <= i && finalized <= i && tips <= i,
            decreases self.states@.len() - i,
        {
            proof {
                assert(self.states@.take(i + 1).drop_last() =~= self.states@.take(i as int));
            }
            match self.states[i] {
                TxState::Pending => pending += 1,
                TxState::Confirmed => confirmed += 1,
                TxState::Finalized => finalized += 1,
                TxState::Conflicted => {},
            }
            if self.admitted[i] && self.children[i].len() == 0 {
                tips += 1;
            }
            i += 1;
        }
        assert(self.states@.take(self.states@.len() as int) =~= self.states@);
        Ok(DagStats {
            total_transactions: self.hashes.len(),
            pending_transactions: pending,
            confirmed_transactions: confirmed,
            finalized_transactions: finalized,
            current_tips: tips,
        })
    }
}

/// The tips are exactly the admitted transactions without children, and no
/// tip has a child.
pub proof fn lemma_tips_have_no_children(d: &DagProcessor)
    requires
        d.wf(),
    ensures
        forall|i: int| 0 <= i < d.count() && #[trigger] d.is_tip(i) ==> d.admitted_at(i) && d.child_indices(i).len() == 0,
{
}

/// No two nodes share a hash.
pub proof fn lemma_node_hashes_unique(d: &DagProcessor)
    requires
        d.wf(),
    ensures
        forall|i: int, j: int| 0 <= i < d.count() && 0 <= j < d.count() && i != j ==> #[trigger] d.hash_at(i) != #[trigger] d.hash_at(j),
{
    assert forall|i: int, j: int| 0 <= i < d.count() && 0 <= j < d.count() && i != j implies #[trigger] d.hash_at(i) != #[trigger] d.hash_at(j) by {
        if i > j {
            assert(d.hashes@[j]@ != d.hashes@[i]@);
        }
    }
}

/// The tip list names, in node order, exactly the tips among the first `n`
/// nodes, each once.
pub proof fn lemma_tip_indices(d: &DagProcessor, n: int)
    requires
        d.wf(),
        0 <= n <= d.count(),
    ensures
        d.tip_hashes(n).len() == d.tip_indices(n).len(),
        forall|k: int| 0 <= k < d.tip_indices(n).len() ==> 0 <= #[trigger] d.tip_indices(n)[k] < n
            && d.is_tip(d.tip_indices(n)[k]) && d.tip_hashes(n)[k] == d.hash_at(d.tip_indices(n)[k]),
        forall|a: int, b: int| 0 <= a < b < d.tip_indices(n).len() ==> #[trigger] d.tip_indices(n)[a] < #[trigger] d.tip_indices(n)[b],
        forall|i: int| 0 <= i < n && #[trigger] d.is_tip(i) ==> d.tip_indices(n).contains(i),
    decreases n,
{
    if n > 0 {
        lemma_tip_indices(d, n - 1);
        let ti = d.tip_indices(n);
        let ti0 = d.tip_indices(n - 1);
        if d.is_tip(n - 1) {
            assert(ti == ti0.push(n - 1));
            assert(d.tip_hashes(n) == d.tip_hashes(n - 1).push(d.hash_at(n - 1)));
            assert forall|i: int| 0 <= i < n && #[trigger] d.is_tip(i) implies ti.contains(i) by {
                if i == n - 1 {
                    assert(ti[ti.len() - 1] == i);
                } else {
                    let k = choose|k: int| 0 <= k < ti0.len() && ti0[k] == i;
                    assert(ti[k] == i);
                }
            }
        } else {
            assert(ti == ti0);
            assert(d.tip_hashes(n) == d.tip_hashes(n - 1));
        }
    }
}

/// Each tip is an admitted transaction without children (the one at
/// `tip_indices`), every such transaction is a tip, and the tip list holds
/// no hash twice.
pub proof fn lemma_tips_exact(d: &DagProcessor)
    requires
        d.wf(),
    ensures
        forall|k: int| 0 <= k < d.tip_hashes(d.count()).len() ==> d.admitted_at(#[trigger] d.tip_indices(d.count())[k])
            && d.child_indices(d.tip_indices(d.count())[k]).len() == 0
            && d.tip_hashes(d.count())[k] == d.hash_at(d.tip_indices(d.count())[k]),
        forall|i: int| 0 <= i < d.count() && d.admitted_at(i) && #[trigger] d.child_indices(i).len() == 0
            ==> d.tip_hashes(d.count()).contains(d.hash_at(i)),
        forall|a: int, b: int| 0 <= a < b < d.tip_hashes(d.count()).len() ==> d.tip_hashes(d.count())[a] != d.tip_hashes(d.count())[b],
{
    let n = d.count();
    lemma_tip_indices(d, n);
    lemma_node_hashes_unique(d);
    let ti = d.tip_indices(n);
    let th = d.tip_hashes(n);
    assert forall|i: int| 0 <= i < n && d.admitted_at(i) && #[trigger] d.child_indices(i).len() == 0
        implies th.contains(d.hash_at(i)) by {
        assert(d.is_tip(i));
        let k = choose|k: int| 0 <= k < ti.len() && ti[k] == i;
        assert(th[k] == d.hash_at(ti[k]));
    }
    assert forall|a: int, b: int| 0 <= a < b < th.len() implies th[a] != th[b] by {
        assert(ti[a] < ti[b]);
        assert(th[a] == d.hash_at(ti[a]) && th[b] == d.hash_at(ti[b]));
    }
}

/// A re-scored pending transaction becomes confirmed exactly when its score
/// reaches the threshold, and finalized or conflicted ones stay as they are.
pub proof fn lemma_rescore_states(s: TxState, score: u64)
    ensures
        s == TxState::Pending ==> (after_rescore(s, score) == TxState::Confirmed <==> score >= CONFIRMATION_THRESHOLD),
        s == TxState::Finalized || s == TxState::Conflicted ==> after_rescore(s, score) == s,
{
}

/// Every admitted transaction has two distinct parents.
pub proof fn lemma_admitted_parents_distinct(d: &DagProcessor)
    requires
        d.wf(),
    ensures
        forall|i: int|
            0 <= i < d.count() && #[trigger] d.admitted_at(i) ==> d.stored().contains_key(d.hash_at(i))
                && d.stored()[d.hash_at(i)].parent1 != d.stored()[d.hash_at(i)].parent2,
{
}

/// Every score is at least one, and is one plus the decayed sum of the
/// children's scores (saturating at the cap).
pub proof fn lemma_score_recurrence(d: &DagProcessor)
    requires
        d.wf(),
    ensures
        forall|i: int|
            0 <= i < d.count() ==> #[trigger] d.score_at(i) == rescored(d.child_scores(i)) && d.score_at(i)
                >= SCORE_UNIT,
{
    assert forall|i: int| 0 <= i < d.count() implies #[trigger] d.score_at(i) == rescored(d.child_scores(i))
        && d.score_at(i) >= SCORE_UNIT by {
        lemma_decayed_sum_nonneg(d.child_scores(i));
    }
}

/// A decayed sum is never negative.
pub proof fn lemma_decayed_sum_nonneg(s: Seq<u64>)
    ensures
        decayed_sum(s) >= 0,
    decreases s.len(),
{
    if s.len() > 0 {
        lemma_decayed_sum_nonneg(s.drop_last());
        assert(decay(s.last()) >= 0) by (nonlinear_arith);
    }
}

impl DagProcessor {

    /// Copies of the admitted transactions from position `from_height` on, in
    /// order of admission: the graph's node order serves as the sync height.
    pub fn transactions_from_height(&self, from_height: u64) -> (r: Vec<Transaction>)
        requires
            self.wf(),
        ensures
            r@.map_values(|t: Transaction| t@) == self.txs_from(from_height as int, self.count()),
    {
        let mut r: Vec<Transaction> = Vec::new();
        let n = self.hashes.len();
        let mut i: usize = if from_height as u128 > n as u128 { n } else { from_height as usize };
        while i < n
            invariant
                self.wf(),
                n == self.count(),
                0 <= i <= n,
                i >= from_height || i == n,
                r@.map_values(|t: Transaction| t@) == self.txs_from(from_height as int, i as int),
            decreases n - i,
        {
            let ghost before = r@.map_values(|t: Transaction| t@);
            if self.admitted[i] {
                assert(self.storage.txs().contains_key(self.hashes@[i as int]@));
                match self.storage.get_transaction(&self.hashes[i]) {
                    Ok(tx) => {
                        r.push(tx);
                    },
                    Err(_) => {},
                }
            }
            assert(r@.map_values(|t: Transaction| t@) =~= self.txs_from(from_height as int, i + 1));
            i += 1;
        }
        r
    }
}

} // verus!
