//! Batch synchronisation: the sync progress record, requests, batching of
//! responses and admission of received batches.
use vstd::prelude::*;
use crate::dag::{admissible, DagProcessor};
use crate::message::{Message, MessageType, MAX_SYNC_BATCH_SIZE};
use crate::transaction::{tx_id, Transaction, TxModel};

verus! {

/// Progress of a synchronisation.
#[derive(Debug, Clone, Copy, PartialEq, Eq, Structural)]
pub struct SyncState {
    /// Height from which the last request asked.
    pub current_height: u64,
    /// Height to reach, once a sync has started.
    pub target_height: Option<u64>,
    /// Whether a sync is under way.
    pub is_syncing: bool,
    /// Transactions admitted since the sync started.
    pub synced_count: usize,
}

/// The sync progress record.
pub struct SyncManager {
    state: SyncState,
}

impl SyncManager {
    /// The progress record.
    pub closed spec fn state_spec(&self) -> SyncState {
        self.state
    }

    /// A manager that is not syncing.
    pub fn new() -> (r: SyncManager)
        ensures
            r.state_spec() == (SyncState { current_height: 0, target_height: None, is_syncing: false, synced_count: 0 }),
    {
        SyncManager { state: SyncState { current_height: 0, target_height: None, is_syncing: false, synced_count: 0 } }
    }

    /// Starts a sync towards `target_height`, counting from zero.
    pub fn start_sync(&mut self, target_height: u64)
        ensures
            final(self).state_spec() == (SyncState {
                is_syncing: true,
                target_height: Some(target_height),
                synced_count: 0,
                ..old(self).state_spec()
            }),
    {
        self.state.is_syncing = true;
        self.state.target_height = Some(target_height);
        self.state.synced_count = 0;
    }

    /// Ends the sync; the count of synced transactions is kept.
    pub fn complete_sync(&mut self)
        ensures
            final(self).state_spec() == (SyncState { is_syncing: false, ..old(self).state_spec() }),
    {
        self.state.is_syncing = false;
    }

    /// A copy of the progress record.
    pub fn get_state(&self) -> (r: SyncState)
        ensures
            r == self.state_spec(),
    {
        self.state
    }

    /// Whether a sync is under way.
    pub fn is_syncing(&self) -> (r: bool)
        ensures
            r == self.state_spec().is_syncing,
    {
        self.state.is_syncing
    }

    /// Marks a sync under way from `from_height` and returns the request to send.
    pub fn request_sync(&mut self, from_height: u64) -> (r: Message)
        ensures
            final(self).state_spec() == (SyncState {
                is_syncing: true,
                current_height: from_height,
                ..old(self).state_spec()
            }),
            r.message_type == (MessageType::SyncRequest { from_height }),
    {
        self.state.is_syncing = true;
        self.state.current_height = from_height;
        Message::new(MessageType::SyncRequest { from_height })
    }

    /// Offers each received transaction, in order, to the graph at clock
    /// time `now`. Returns how many were admitted; the synced count grows by
    /// as many (saturating). Refused transactions are skipped; a later sync
    /// supplies what they lacked.
    pub fn handle_sync_response_at(&mut self, dag: &mut DagProcessor, transactions: Vec<Transaction>, now: u64) -> (r: usize)
        requires
            old(dag).wf(),
        ensures
            final(dag).wf(),
            final(dag).stored() == sync_outcome(old(dag).stored(), transactions@.map_values(|t: Transaction| t@), now).0,
            r == sync_outcome(old(dag).stored(), transactions@.map_values(|t: Transaction| t@), now).1,
            final(self).state_spec() == (SyncState {
                synced_count: if old(self).state_spec().synced_count + r > usize::MAX {
                    usize::MAX as usize
                } else {
                    (old(self).state_spec().synced_count + r) as usize
                },
                ..old(self).state_spec()
            }),
    {
        let ghost all = transactions@.map_values(|t: Transaction| t@);
        let mut added: usize = 0;
        let n = transactions.len();
        let mut rest = transactions;
        let mut i: usize = 0;
        let ghost start = self.state.synced_count;
        while i < n
            invariant
                dag.wf(),
                0 <= added <= i <= n == all.len(),
                rest@.len() == n - i,
                rest@.map_values(|t: Transaction| t@) == all.skip(i as int),
                dag.stored() == sync_outcome(old(dag).stored(), all.take(i as int), now).0,
                added == sync_outcome(old(dag).stored(), all.take(i as int), now).1,
                self.state.synced_count == if start + added > usize::MAX { usize::MAX as int } else { start + added },
                start == old(self).state.synced_count,
                self.state == (SyncState { synced_count: self.state.synced_count, ..old(self).state }),
            decreases n - i,
        {
            let ghost before = rest@;
            let tx = rest.remove(0);
            proof {
                assert(tx@ == all[i as int]) by {
                    assert(tx == before[0]);
                    assert(before.map_values(|t: Transaction| t@)[0] == all.skip(i as int)[0]);
                }
                assert forall|j: int| 0 <= j < rest@.len() implies rest@[j]@ == all.skip(i + 1)[j] by {
                    assert(rest@[j] == before[j + 1]);
                    assert(before.map_values(|t: Transaction| t@)[j + 1] == all.skip(i as int)[j + 1]);
                }
                assert(rest@.map_values(|t: Transaction| t@) =~= all.skip(i + 1));
                assert(all.take(i + 1).drop_last() =~= all.take(i as int));
            }
            match dag.add_transaction_at(tx, now) {
                Ok(_) => {
                    added += 1;
                    if self.state.synced_count < usize::MAX {
                        self.state.synced_count = self.state.synced_count + 1;
                    }
                },
                Err(_) => {},
            }
            i += 1;
        }
        assert(all.take(n as int) =~= all);
        added
    }

    /// As `handle_sync_response_at`, at one reading of the clock.
    pub fn handle_sync_response(&mut self, dag: &mut DagProcessor, transactions: Vec<Transaction>) -> (r: usize)
        requires
            old(dag).wf(),
        ensures
            final(dag).wf(),
            exists|now: u64|
                #![trigger sync_outcome(old(dag).stored(), models_of(transactions@), now)]
                final(dag).stored() == sync_outcome(old(dag).stored(), models_of(transactions@), now).0
                && r == sync_outcome(old(dag).stored(), models_of(transactions@), now).1,
            final(self).state_spec() == (SyncState {
                synced_count: if old(self).state_spec().synced_count + r > usize::MAX {
                    usize::MAX as usize
                } else {
                    (old(self).state_spec().synced_count + r) as usize
                },
                ..old(self).state_spec()
            }),
    {
        let now = crate::clock::unix_now();
        let ghost txs = transactions@;
        let r = self.handle_sync_response_at(dag, transactions, now);
        assert(models_of(txs) == txs.map_values(|t: Transaction| t@));
        assert(final(dag).stored() == sync_outcome(old(dag).stored(), models_of(txs), now).0
            && r == sync_outcome(old(dag).stored(), models_of(txs), now).1);
        r
    }

    /// Splits `transactions` into sync responses of at most
    /// `MAX_SYNC_BATCH_SIZE` transactions each, none empty; in order, the
    /// responses carry exactly `transactions`.
    pub fn handle_sync_request(&self, transactions: Vec<Transaction>) -> (r: Vec<Message>)
        ensures
            forall|k: int| 0 <= k < r@.len() ==> (#[trigger] r@[k]).message_type is SyncResponse
                && 0 < batch_of(r@[k]).len() <= MAX_SYNC_BATCH_SIZE,
            r@.map_values(|m: Message| batch_of(m)).flatten() == transactions@.map_values(|t: Transaction| t@),
    {
        let ghost items = transactions@;
        let batches = split_batches(transactions, MAX_SYNC_BATCH_SIZE);
        let ghost bviews = batches@.map_values(|b: Vec<Transaction>| b@);
        let mut out: Vec<Message> = Vec::new();
        let mut rest = batches;
        let m = rest.len();
        let mut i: usize = 0;
        while i < m
            invariant
                0 <= i <= m == bviews.len(),
                rest@.len() == m - i,
                rest@.map_values(|b: Vec<Transaction>| b@) == bviews.skip(i as int),
                out@.len() == i,
                forall|k: int| 0 <= k < out@.len() ==> (#[trigger] out@[k]).message_type is SyncResponse
                    && batch_of(out@[k]) == bviews[k].map_values(|t: Transaction| t@),
                forall|k: int| 0 <= k < bviews.len() ==> 0 < (#[trigger] bviews[k]).len() <= MAX_SYNC_BATCH_SIZE,
            decreases m - i,
        {
            let ghost before = rest@;
            let batch = rest.remove(0);
            proof {
                assert(batch == before[0]);
                assert(before.map_values(|b: Vec<Transaction>| b@)[0] == batch@);
                assert(bviews[i as int] == batch@);
                assert forall|j: int| 0 <= j < rest@.len() implies rest@[j]@ == bviews[i + 1 + j] by {
                    assert(rest@[j] == before[j + 1]);
                    assert(before.map_values(|b: Vec<Transaction>| b@)[j + 1] == bviews.skip(i as int)[j + 1]);
                }
                assert(rest@.map_values(|b: Vec<Transaction>| b@) =~= bviews.skip(i + 1));
            }
            out.push(Message::new(MessageType::SyncResponse { transactions: batch }));
            i += 1;
        }
        proof {
            let outv = out@.map_values(|m: Message| batch_of(m));
            assert(outv =~= bviews.map_values(|b: Seq<Transaction>| b.map_values(|t: Transaction| t@)));
            lemma_flatten_map(bviews);
            assert(bviews.flatten() == items);
        }
        out
    }
}

/// The transactions a sync response carries, as values.
pub open spec fn batch_of(m: Message) -> Seq<crate::transaction::TxModel> {
    match m.message_type {
        MessageType::SyncResponse { transactions } => transactions@.map_values(|t: Transaction| t@),
        _ => Seq::empty(),
    }
}

/// Mapping every item commutes with flattening.
pub proof fn lemma_flatten_map(s: Seq<Seq<Transaction>>)
    ensures
        s.map_values(|b: Seq<Transaction>| b.map_values(|t: Transaction| t@)).flatten() == s.flatten().map_values(
            |t: Transaction| t@,
        ),
    decreases s.len(),
{
    let f = |b: Seq<Transaction>| b.map_values(|t: Transaction| t@);
    if s.len() == 0 {
        assert(s.map_values(f) =~= Seq::<Seq<crate::transaction::TxModel>>::empty());
        assert(s.flatten().map_values(|t: Transaction| t@) =~= Seq::<crate::transaction::TxModel>::empty());
    } else {
        lemma_flatten_map(s.drop_first());
        assert(s.map_values(f).drop_first() =~= s.drop_first().map_values(f));
        assert((s.first() + s.drop_first().flatten()).map_values(|t: Transaction| t@) =~= s.first().map_values(|t: Transaction| t@) + s.drop_first().flatten().map_values(|t: Transaction| t@));
    }
}

/// The values of a list of transactions.
pub open spec fn models_of(txs: Seq<Transaction>) -> Seq<TxModel> {
    txs.map_values(|t: Transaction| t@)
}

/// The stored map after offering `txs` in order at time `now`, and how many were admitted.
pub open spec fn sync_outcome(stored: Map<Seq<u8>, TxModel>, txs: Seq<TxModel>, now: u64) -> (Map<Seq<u8>, TxModel>, nat)
    decreases txs.len(),
{
    if txs.len() == 0 {
        (stored, 0)
    } else {
        let prev = sync_outcome(stored, txs.drop_last(), now);
        if admissible(prev.0, txs.last(), now) {
            (prev.0.insert(tx_id(txs.last()), txs.last()), prev.1 + 1)
        } else {
            prev
        }
    }
}

/// Splits `items` into consecutive batches of at most `size` items, none
/// empty; concatenated, the batches give `items` back.
pub fn split_batches(items: Vec<Transaction>, size: usize) -> (r: Vec<Vec<Transaction>>)
    requires
        size > 0,
    ensures
        forall|k: int| 0 <= k < r@.len() ==> 0 < (#[trigger] r@[k])@.len() <= size,
        r@.map_values(|b: Vec<Transaction>| b@).flatten() == items@,
{
    let mut out: Vec<Vec<Transaction>> = Vec::new();
    let mut current: Vec<Transaction> = Vec::new();
    let n = items.len();
    let mut rest = items;
    let ghost all = rest@;
    let mut i: usize = 0;
    while i < n
        invariant
            0 <= i <= n == all.len(),
            rest@ == all.skip(i as int),
            current@.len() < size,
            forall|k: int| 0 <= k < out@.len() ==> 0 < (#[trigger] out@[k])@.len() <= size,
            out@.map_values(|b: Vec<Transaction>| b@).flatten() + current@ == all.take(i as int),
        decreases n - i,
    {
        let tx = rest.remove(0);
        assert(tx == all[i as int]);
        assert(rest@ =~= all.skip(i + 1));
        let ghost pre_out = out@.map_values(|b: Vec<Transaction>| b@);
        let ghost pre_cur = current@;
        current.push(tx);
        assert(all.take(i + 1) =~= all.take(i as int).push(all[i as int]));
        if current.len() == size {
            let full = current;
            current = Vec::new();
            out.push(full);
            proof {
                assert(out@.map_values(|b: Vec<Transaction>| b@) =~= pre_out.push(pre_cur.push(tx)));
                lemma_flatten_push(pre_out, pre_cur.push(tx));
                assert(out@.map_values(|b: Vec<Transaction>| b@).flatten() + current@ =~= all.take(i + 1));
            }
        } else {
            assert(out@.map_values(|b: Vec<Transaction>| b@).flatten() + current@ =~= all.take(i + 1));
        }
        i += 1;
    }
    let ghost pre_out = out@.map_values(|b: Vec<Transaction>| b@);
    let ghost cur = current@;
    if current.len() > 0 {
        out.push(current);
        proof {
            assert(out@.map_values(|b: Vec<Transaction>| b@) =~= pre_out.push(cur));
            lemma_flatten_push(pre_out, cur);
        }
    }
    assert(all.take(n as int) =~= all);
    assert(pre_out.flatten() + Seq::<Transaction>::empty() =~= pre_out.flatten());
    out
}

/// Flattening after appending one more sequence appends its items.
pub proof fn lemma_flatten_push<A>(s: Seq<Seq<A>>, last: Seq<A>)
    ensures
        s.push(last).flatten() == s.flatten() + last,
    decreases s.len(),
{
    if s.len() == 0 {
        assert(s.push(last).drop_first() =~= Seq::<Seq<A>>::empty());
        assert(s.push(last).flatten() =~= last + Seq::<Seq<A>>::empty().flatten());
    } else {
        lemma_flatten_push(s.drop_first(), last);
        assert(s.push(last).drop_first() =~= s.drop_first().push(last));
        assert(s.push(last).flatten() =~= s.first() + s.drop_first().push(last).flatten());
        assert(s.flatten() =~= s.first() + s.drop_first().flatten());
    }
}

} // verus!
