//! Gossip: a bounded record of seen message identifiers, fan-out decisions
//! and the forward rule for received transactions.
use vstd::prelude::*;
use crate::dag::{admissible, DagProcessor};
use crate::hash::{bytes_eq, hash_eq};
use crate::message::{Message, MessageType};
use crate::peer::{Peer, PeerState};
use crate::transaction::{structurally_valid, tx_id, Transaction};

verus! {

/// Largest number of remembered message identifiers.
pub const MAX_SEEN_MESSAGES: usize = 10000;

/// How many of the oldest identifiers are forgotten when the record is full.
pub const SEEN_EVICTION: usize = 1000;

/// Counts describing the gossip engine.
#[derive(Debug, Clone)]
pub struct GossipStats {
    /// Remembered message identifiers.
    pub seen_messages: usize,
    /// Registered peers.
    pub active_peers: usize,
    /// Messages waiting to be sent.
    pub pending_messages: usize,
}

/// The record of seen identifiers, oldest first, after `id` is seen: full
/// records first forget their oldest `SEEN_EVICTION` entries.
pub open spec fn seen_after(seen: Seq<Seq<u8>>, id: Seq<u8>) -> Seq<Seq<u8>> {
    if seen.contains(id) {
        seen
    } else if seen.len() >= MAX_SEEN_MESSAGES {
        seen.skip(SEEN_EVICTION as int).push(id)
    } else {
        seen.push(id)
    }
}

/// Positions of the connected peers among `peers`, except those with
/// identifier `skip`, in order.
pub open spec fn targets(peers: Seq<Peer>, skip: Option<Seq<u8>>, n: int) -> Seq<usize>
    decreases n,
{
    if n <= 0 {
        Seq::empty()
    } else if peers[n - 1].state == PeerState::Connected && skip != Some(peers[n - 1].id@) {
        targets(peers, skip, n - 1).push((n - 1) as usize)
    } else {
        targets(peers, skip, n - 1)
    }
}

/// Seen identifiers and registered peers.
pub struct GossipEngine {
    seen: Vec<[u8; 32]>,
    registered: Vec<Vec<u8>>,
    pending: Vec<Message>,
}

impl GossipEngine {
    /// Seen identifiers, oldest first.
    pub closed spec fn seen_ids(&self) -> Seq<Seq<u8>> {
        self.seen@.map_values(|h: [u8; 32]| h@)
    }

    /// Registered peer identifiers.
    pub closed spec fn registered_ids(&self) -> Seq<Seq<u8>> {
        self.registered@.map_values(|p: Vec<u8>| p@)
    }

    /// An engine that has seen nothing.
    pub fn new() -> (r: GossipEngine)
        ensures
            r.seen_ids().len() == 0,
            r.registered_ids().len() == 0,
    {
        let r = GossipEngine { seen: Vec::new(), registered: Vec::new(), pending: Vec::new() };
        assert(r.seen_ids() =~= Seq::<Seq<u8>>::empty());
        assert(r.registered_ids() =~= Seq::<Seq<u8>>::empty());
        r
    }

    /// Whether `message_id` was seen.
    pub fn has_seen(&self, message_id: &[u8; 32]) -> (r: bool)
        ensures
            r == self.seen_ids().contains(message_id@),
    {
        let mut i: usize = 0;
        while i < self.seen.len()
            invariant
                0 <= i <= self.seen@.len(),
                forall|j: int| 0 <= j < i ==> self.seen@[j]@ != message_id@,
            decreases self.seen@.len() - i,
        {
            if hash_eq(&self.seen[i], message_id) {
                assert(self.seen_ids()[i as int] == message_id@);
                return true;
            }
            i += 1;
        }
        assert(!self.seen_ids().contains(message_id@)) by {
            if self.seen_ids().contains(message_id@) {
                let j = choose|j: int| 0 <= j < self.seen_ids().len() && self.seen_ids()[j] == message_id@;
                assert(self.seen@[j]@ == message_id@);
            }
        }
        false
    }

    /// Records `message_id` as seen, forgetting the oldest entries of a full record.
    pub fn mark_seen(&mut self, message_id: [u8; 32])
        ensures
            final(self).seen_ids() == seen_after(old(self).seen_ids(), message_id@),
            final(self).registered_ids() == old(self).registered_ids(),
    {
        if self.has_seen(&message_id) {
            return;
        }
        if self.seen.len() >= MAX_SEEN_MESSAGES {
            let ghost before = self.seen@;
            let rest = self.seen.split_off(SEEN_EVICTION);
            self.seen = rest;
            assert(self.seen_ids() =~= old(self).seen_ids().skip(SEEN_EVICTION as int));
        }
        let ghost mid = self.seen_ids();
        self.seen.push(message_id);
        assert(self.seen_ids() =~= mid.push(message_id@));
    }

    /// Decides a broadcast of `message_id` to `peers`: nothing where it was
    /// seen already; otherwise it is marked seen and every connected peer is
    /// a target. Returns the targets' positions.
    pub fn broadcast(&mut self, message_id: [u8; 32], peers: &Vec<Peer>) -> (r: Vec<usize>)
        ensures
            old(self).seen_ids().contains(message_id@) ==> r@.len() == 0 && *final(self) == *old(self),
            !old(self).seen_ids().contains(message_id@) ==> r@ == targets(peers@, None, peers@.len() as int),
            final(self).seen_ids() == seen_after(old(self).seen_ids(), message_id@),
            final(self).registered_ids() == old(self).registered_ids(),
    {
        if self.has_seen(&message_id) {
            return Vec::new();
        }
        self.mark_seen(message_id);
        connected_targets(peers, None)
    }

    /// Wraps `tx` in a message created now and decides its broadcast.
    pub fn gossip_transaction(&mut self, tx: Transaction, peers: &Vec<Peer>) -> (r: (Message, Vec<usize>))
        ensures
            r.0.message_type == MessageType::Transaction(tx),
            old(self).seen_ids().contains(r.0.id@) ==> r.1@.len() == 0,
            !old(self).seen_ids().contains(r.0.id@) ==> r.1@ == targets(peers@, None, peers@.len() as int),
            final(self).seen_ids() == seen_after(old(self).seen_ids(), r.0.id@),
    {
        let message = Message::new(MessageType::Transaction(tx));
        let sent = self.broadcast(message.id, peers);
        (message, sent)
    }

    /// Forward rule for a transaction received from peer `from`.
    ///
    /// A seen message is dropped (no targets, nothing changes). Otherwise it
    /// is marked seen, offered to the graph (whose refusals are dropped), and
    /// forwarded to every connected peer but the sender.
    pub fn receive_transaction(
        &mut self,
        message_id: [u8; 32],
        tx: Transaction,
        from: &Vec<u8>,
        peers: &Vec<Peer>,
        dag: &mut DagProcessor,
    ) -> (r: Vec<usize>)
        requires
            old(dag).wf(),
        ensures
            final(dag).wf(),
            old(self).seen_ids().contains(message_id@) ==> r@.len() == 0 && *final(self) == *old(self)
                && *final(dag) == *old(dag),
            !old(self).seen_ids().contains(message_id@) ==> r@ == targets(peers@, Some(from@), peers@.len() as int),
            !old(self).seen_ids().contains(message_id@) ==> exists|now: u64|
                #![trigger admissible(old(dag).stored(), tx@, now)]
                (admissible(old(dag).stored(), tx@, now) ==> final(dag).stored() == old(dag).stored().insert(tx_id(tx@), tx@))
                && (!admissible(old(dag).stored(), tx@, now) ==> *final(dag) == *old(dag)),
            final(self).seen_ids() == seen_after(old(self).seen_ids(), message_id@),
            final(self).registered_ids() == old(self).registered_ids(),
    {
        if self.has_seen(&message_id) {
            return Vec::new();
        }
        self.mark_seen(message_id);
        let ghost t = tx@;
        let ghost before = *dag;
        let r = dag.add_transaction(tx);
        proof {
            let now = choose|now: u64|
                #![trigger structurally_valid(t, now)]
                (r is Ok <==> (structurally_valid(t, now) && before.stored().contains_key(t.parent1)
                    && before.stored().contains_key(t.parent2) && !before.stored().contains_key(tx_id(t))));
            assert(admissible(before.stored(), t, now) ==> dag.stored() == before.stored().insert(tx_id(t), t));
            assert(!admissible(before.stored(), t, now) ==> *dag == before);
        }
        connected_targets(peers, Some(from))
    }

    /// Registers the peer `peer_id` as reachable for broadcasts.
    pub fn register_peer(&mut self, peer_id: Vec<u8>)
        ensures
            final(self).registered_ids().contains(peer_id@),
            final(self).seen_ids() == old(self).seen_ids(),
    {
        if !self.is_registered(&peer_id) {
            let ghost before = self.registered_ids();
            self.registered.push(peer_id);
            assert(self.registered_ids() =~= before.push(peer_id@));
            assert(self.registered_ids()[before.len() as int] == peer_id@);
        }
    }

    /// Whether `peer_id` is registered.
    fn is_registered(&self, peer_id: &Vec<u8>) -> (r: bool)
        ensures
            r == self.registered_ids().contains(peer_id@),
    {
        let mut i: usize = 0;
        while i < self.registered.len()
            invariant
                0 <= i <= self.registered@.len(),
                forall|j: int| 0 <= j < i ==> self.registered@[j]@ != peer_id@,
            decreases self.registered@.len() - i,
        {
            if bytes_eq(self.registered[i].as_slice(), peer_id.as_slice()) {
                assert(self.registered_ids()[i as int] == peer_id@);
                return true;
            }
            i += 1;
        }
        assert(!self.registered_ids().contains(peer_id@)) by {
            if self.registered_ids().contains(peer_id@) {
                let j = choose|j: int| 0 <= j < self.registered_ids().len() && self.registered_ids()[j] == peer_id@;
                assert(self.registered@[j]@ == peer_id@);
            }
        }
        false
    }

    /// Forgets the peer `peer_id`.
    pub fn unregister_peer(&mut self, peer_id: &Vec<u8>)
        ensures
            !final(self).registered_ids().contains(peer_id@),
            final(self).seen_ids() == old(self).seen_ids(),
    {
        let mut kept: Vec<Vec<u8>> = Vec::new();
        let mut i: usize = 0;
        while i < self.registered.len()
            invariant
                0 <= i <= self.registered@.len(),
                forall|k: int| 0 <= k < kept@.len() ==> #[trigger] kept@[k]@ != peer_id@,
                self.seen_ids() == old(self).seen_ids(),
            decreases self.registered@.len() - i,
        {
            if !bytes_eq(self.registered[i].as_slice(), peer_id.as_slice()) {
                kept.push(crate::hash::copy_bytes(self.registered[i].as_slice()));
            }
            i += 1;
        }
        self.registered = kept;
        assert(!self.registered_ids().contains(peer_id@)) by {
            if self.registered_ids().contains(peer_id@) {
                let j = choose|j: int| 0 <= j < self.registered_ids().len() && self.registered_ids()[j] == peer_id@;
                assert(self.registered@[j]@ == peer_id@);
            }
        }
    }

    /// Counts of seen identifiers, registered peers and pending messages.
    pub fn stats(&self) -> (r: GossipStats)
        ensures
            r.seen_messages == self.seen_ids().len(),
            r.active_peers == self.registered_ids().len(),
    {
        GossipStats {
            seen_messages: self.seen.len(),
            active_peers: self.registered.len(),
            pending_messages: self.pending.len(),
        }
    }
}

/// Positions of the connected peers except the one with identifier `skip`.
pub(crate) fn connected_targets(peers: &Vec<Peer>, skip: Option<&Vec<u8>>) -> (r: Vec<usize>)
    ensures
        r@ == targets(peers@, match skip { Some(s) => Some(s@), None => None }, peers@.len() as int),
{
    let ghost sk = match skip { Some(s) => Some(s@), None => None::<Seq<u8>> };
    let mut r: Vec<usize> = Vec::new();
    let mut i: usize = 0;
    while i < peers.len()
        invariant
            0 <= i <= peers@.len(),
            sk == match skip { Some(s) => Some(s@), None => None::<Seq<u8>> },
            r@ == targets(peers@, sk, i as int),
        decreases peers@.len() - i,
    {
        let excluded = match skip {
            Some(s) => bytes_eq(peers[i].id.as_slice(), s.as_slice()),
            None => false,
        };
        if peers[i].is_connected() && !excluded {
            r.push(i);
        }
        i += 1;
    }
    r
}

/// Once a broadcast has marked an identifier seen, a second broadcast of
/// the same identifier sends to nobody.
pub proof fn lemma_broadcast_idempotent(seen: Seq<Seq<u8>>, id: Seq<u8>)
    ensures
        seen_after(seen, id).contains(id),
        seen_after(seen_after(seen, id), id) == seen_after(seen, id),
{
    let s = seen_after(seen, id);
    if !seen.contains(id) {
        if seen.len() >= MAX_SEEN_MESSAGES {
            assert(s[s.len() - 1] == id);
        } else {
            assert(s[s.len() - 1] == id);
        }
    }
}

} // verus!
