//! Peers and the bounded peer table.
use vstd::prelude::*;
use crate::errors::NetworkError;
use crate::gossip::{connected_targets, targets};
use crate::hash::bytes_eq;
use crate::message::{Message, MessageType};

verus! {

/// Default largest number of peers.
pub const MAX_PEERS: usize = 50;

/// Default smallest number of connected peers a node tries to keep.
pub const MIN_PEERS: usize = 8;

/// Connection state of a peer.
#[derive(Debug, Clone, Copy, PartialEq, Eq, Structural)]
pub enum PeerState {
    /// Connection under way.
    Connecting,
    /// Connected.
    Connected,
    /// Disconnected.
    Disconnected,
    /// Banned.
    Banned,
}

/// Whether nothing arrived from `p` within two heartbeat intervals before `now_ms`.
pub open spec fn stale_at(p: Peer, now_ms: u64, interval_ms: u64) -> bool {
    now_ms as int - p.last_seen_ms as int > 2 * interval_ms as int
}

/// Positions, among the first `n` peers, of the connected peers that are not stale.
pub open spec fn live_peers(peers: Seq<Peer>, now_ms: u64, interval_ms: u64, n: int) -> Seq<usize>
    decreases n,
{
    if n <= 0 {
        Seq::empty()
    } else if peers[n - 1].state == PeerState::Connected && !stale_at(peers[n - 1], now_ms, interval_ms) {
        live_peers(peers, now_ms, interval_ms, n - 1).push((n - 1) as usize)
    } else {
        live_peers(peers, now_ms, interval_ms, n - 1)
    }
}

#[derive(Clone, Debug)]
/// A neighbour: identifier, address, last time heard from (milliseconds of
/// the node's monotonic clock), measured latency and state.
pub struct Peer {
    /// Identifier: hash of the socket address.
    pub id: Vec<u8>,
    /// Socket address, as text.
    pub address: String,
    /// Last time a message arrived, in milliseconds.
    pub last_seen_ms: u64,
    /// Round-trip latency, in milliseconds, once measured.
    pub latency_ms: Option<u64>,
    /// Connection state.
    pub state: PeerState,
}

impl Peer {
    /// A peer that is connecting, last seen at `now_ms`.
    pub fn new(id: Vec<u8>, address: String, now_ms: u64) -> (r: Peer)
        ensures
            r.id == id,
            r.address == address,
            r.last_seen_ms == now_ms,
            r.latency_ms is None,
            r.state == PeerState::Connecting,
    {
        Peer { id, address, last_seen_ms: now_ms, latency_ms: None, state: PeerState::Connecting }
    }

    /// Sets the state.
    pub fn update_state(&mut self, new_state: PeerState)
        ensures
            *final(self) == (Peer { state: new_state, ..*old(self) }),
    {
        self.state = new_state;
    }

    /// Whether the peer is connected.
    pub fn is_connected(&self) -> (r: bool)
        ensures
            r == (self.state == PeerState::Connected),
    {
        self.state == PeerState::Connected
    }

    /// Records that a message arrived at `now_ms`.
    pub fn touch(&mut self, now_ms: u64)
        ensures
            *final(self) == (Peer { last_seen_ms: now_ms, ..*old(self) }),
    {
        self.last_seen_ms = now_ms;
    }

    /// Records a measured round trip.
    pub fn record_latency(&mut self, latency_ms: u64)
        ensures
            *final(self) == (Peer { latency_ms: Some(latency_ms), ..*old(self) }),
    {
        self.latency_ms = Some(latency_ms);
    }

    /// Completes a latency measurement: `response` answered a probe sent at
    /// `sent_ms` and arrived at `now_ms`. Fails with `InvalidMessage` unless
    /// the response is `Pong`; otherwise records and returns the elapsed
    /// milliseconds (zero where the clock did not advance) and marks the
    /// peer as heard from.
    pub fn finish_latency(&mut self, response: &Message, sent_ms: u64, now_ms: u64) -> (r: Result<u64, NetworkError>)
        ensures
            !(response.message_type is Pong) ==> (r matches Err(NetworkError::InvalidMessage(_))) && *final(self) == *old(self),
            response.message_type is Pong ==> {
                let elapsed = if now_ms >= sent_ms { (now_ms - sent_ms) as u64 } else { 0u64 };
                &&& r == Ok::<u64, NetworkError>(elapsed)
                &&& *final(self) == (Peer { latency_ms: Some(elapsed), last_seen_ms: now_ms, ..*old(self) })
            },
    {
        match response.message_type {
            MessageType::Pong => {
                let elapsed = if now_ms >= sent_ms { now_ms - sent_ms } else { 0 };
                self.latency_ms = Some(elapsed);
                self.last_seen_ms = now_ms;
                Ok(elapsed)
            },
            _ => Err(NetworkError::InvalidMessage("Expected Pong".to_string())),
        }
    }

    /// Whether nothing arrived within two heartbeat intervals before `now_ms`.
    pub fn is_stale(&self, now_ms: u64, interval_ms: u64) -> (r: bool)
        ensures
            r == stale_at(*self, now_ms, interval_ms),
    {
        if now_ms <= self.last_seen_ms {
            false
        } else {
            let elapsed = now_ms - self.last_seen_ms;
            elapsed / 2 >= interval_ms && (elapsed / 2 > interval_ms || elapsed % 2 == 1)
        }
    }
}

/// The peers of a node, at most `max_peers` of them, identifiers unique.
pub struct PeerManager {
    peers: Vec<Peer>,
    max_peers: usize,
}

impl PeerManager {
    /// The peers, in order of arrival.
    pub closed spec fn peer_seq(&self) -> Seq<Peer> {
        self.peers@
    }

    /// Capacity.
    pub closed spec fn capacity(&self) -> nat {
        self.max_peers as nat
    }

    /// Whether a peer with identifier `id` is present.
    pub open spec fn has_peer(&self, id: Seq<u8>) -> bool {
        exists|i: int| 0 <= i < self.peer_seq().len() && self.peer_seq()[i].id@ == id
    }

    /// Identifiers are unique and the table is within capacity.
    pub closed spec fn wf(&self) -> bool {
        &&& self.peers@.len() <= self.max_peers
        &&& forall|i: int, j: int| 0 <= i < j < self.peers@.len() ==> self.peers@[i].id@ != self.peers@[j].id@
    }

    /// An empty table for at most `max_peers` peers.
    pub fn new(max_peers: usize) -> (r: PeerManager)
        ensures
            r.wf(),
            r.peer_seq().len() == 0,
            r.capacity() == max_peers,
    {
        PeerManager { peers: Vec::new(), max_peers }
    }

    /// Position of the peer `id`.
    fn find(&self, id: &Vec<u8>) -> (r: Option<usize>)
        ensures
            r is None <==> !self.has_peer(id@),
            r matches Some(i) ==> i < self.peer_seq().len() && self.peer_seq()[i as int].id@ == id@,
    {
        let mut i: usize = 0;
        while i < self.peers.len()
            invariant
                0 <= i <= self.peers@.len(),
                forall|j: int| 0 <= j < i ==> self.peers@[j].id@ != id@,
            decreases self.peers@.len() - i,
        {
            if bytes_eq(self.peers[i].id.as_slice(), id.as_slice()) {
                return Some(i);
            }
            i += 1;
        }
        None
    }

    /// Adds `peer`.
    ///
    /// A full table fails with `MaxPeersReached`; a peer whose identifier is
    /// present already is not added again.
    pub fn add_peer(&mut self, peer: Peer) -> (r: Result<(), NetworkError>)
        requires
            old(self).wf(),
        ensures
            final(self).wf(),
            final(self).capacity() == old(self).capacity(),
            old(self).peer_seq().len() >= old(self).capacity() ==> (r matches Err(NetworkError::MaxPeersReached)) && *final(self) == *old(self),
            old(self).peer_seq().len() < old(self).capacity() && old(self).has_peer(peer.id@) ==> r is Ok && *final(self) == *old(self),
            old(self).peer_seq().len() < old(self).capacity() && !old(self).has_peer(peer.id@) ==> r is Ok && final(self).peer_seq() == old(self).peer_seq().push(peer),
    {
        if self.peers.len() >= self.max_peers {
            return Err(NetworkError::MaxPeersReached);
        }
        if self.find(&peer.id).is_some() {
            return Ok(());
        }
        self.peers.push(peer);
        proof {
            assert forall|i: int, j: int| 0 <= i < j < self.peers@.len() implies self.peers@[i].id@ != self.peers@[j].id@ by {
                if j == old(self).peers@.len() {
                    assert(!old(self).has_peer(self.peers@[j].id@));
                    assert(old(self).peer_seq()[i] == self.peers@[i]);
                }
            }
        }
        Ok(())
    }

    /// Removes the peer `peer_id`, if present.
    pub fn remove_peer(&mut self, peer_id: &Vec<u8>)
        requires
            old(self).wf(),
        ensures
            final(self).wf(),
            final(self).capacity() == old(self).capacity(),
            !final(self).has_peer(peer_id@),
            final(self).peer_seq().len() <= old(self).peer_seq().len(),
            forall|id: Seq<u8>| id != peer_id@ ==> (#[trigger] final(self).has_peer(id) <==> old(self).has_peer(id)),
    {
        match self.find(peer_id) {
            Some(i) => {
                let ghost prev = self.peers@;
                let _ = self.peers.remove(i);
                proof {
                    assert(self.peers@ == prev.remove(i as int));
                    assert forall|a: int, b: int| 0 <= a < b < self.peers@.len() implies self.peers@[a].id@ != self.peers@[b].id@ by {
                        let a2 = if a < i { a } else { a + 1 };
                        let b2 = if b < i { b } else { b + 1 };
                        assert(self.peers@[a] == prev[a2]);
                        assert(self.peers@[b] == prev[b2]);
                    }
                    assert forall|id: Seq<u8>| id != peer_id@ implies (#[trigger] self.has_peer(id) <==> old(self).has_peer(id)) by {
                        if self.has_peer(id) {
                            let j = choose|j: int| 0 <= j < self.peers@.len() && self.peers@[j].id@ == id;
                            let j2 = if j < i { j } else { j + 1 };
                            assert(self.peers@[j] == prev[j2]);
                            assert(old(self).peer_seq()[j2].id@ == id);
                        }
                        if old(self).has_peer(id) {
                            let j = choose|j: int| 0 <= j < prev.len() && prev[j].id@ == id;
                            assert(j != i);
                            let j2 = if j < i { j } else { j - 1 };
                            assert(self.peers@[j2] == prev[j]);
                            assert(self.peer_seq()[j2].id@ == id);
                        }
                    }
                    assert(!self.has_peer(peer_id@)) by {
                        if self.has_peer(peer_id@) {
                            let j = choose|j: int| 0 <= j < self.peers@.len() && self.peers@[j].id@ == peer_id@;
                            let j2 = if j < i { j } else { j + 1 };
                            assert(self.peers@[j] == prev[j2]);
                        }
                    }
                }
            },
            None => {},
        }
    }

    /// The peer `peer_id`, if present.
    pub fn get_peer(&self, peer_id: &Vec<u8>) -> (r: Option<&Peer>)
        ensures
            r is Some <==> self.has_peer(peer_id@),
            r matches Some(p) ==> p.id@ == peer_id@ && self.peer_seq().contains(*p),
    {
        match self.find(peer_id) {
            Some(i) => Some(&self.peers[i]),
            None => None,
        }
    }

    /// Sets the state of the peer `peer_id`; reports whether it is present.
    pub fn set_peer_state(&mut self, peer_id: &Vec<u8>, state: PeerState) -> (r: bool)
        requires
            old(self).wf(),
        ensures
            final(self).wf(),
            r == old(self).has_peer(peer_id@),
            final(self).peer_seq().len() == old(self).peer_seq().len(),
            forall|i: int| 0 <= i < old(self).peer_seq().len() ==> #[trigger] final(self).peer_seq()[i] == if old(self).peer_seq()[i].id@ == peer_id@ {
                Peer { state, ..old(self).peer_seq()[i] }
            } else {
                old(self).peer_seq()[i]
            },
    {
        match self.find(peer_id) {
            Some(i) => {
                self.peers[i].state = state;
                proof {
                    assert forall|k: int| 0 <= k < old(self).peer_seq().len() && k != i implies old(self).peer_seq()[k].id@ != peer_id@ by {
                        if k < i { } else { }
                    }
                }
                true
            },
            None => false,
        }
    }

    /// Records that a message from the peer `peer_id` arrived at `now_ms`;
    /// reports whether the peer is present.
    pub fn touch_peer(&mut self, peer_id: &Vec<u8>, now_ms: u64) -> (r: bool)
        requires
            old(self).wf(),
        ensures
            final(self).wf(),
            r == old(self).has_peer(peer_id@),
            final(self).capacity() == old(self).capacity(),
            final(self).peer_seq().len() == old(self).peer_seq().len(),
            forall|i: int| 0 <= i < old(self).peer_seq().len() ==> #[trigger] final(self).peer_seq()[i] == if old(self).peer_seq()[i].id@ == peer_id@ {
                Peer { last_seen_ms: now_ms, ..old(self).peer_seq()[i] }
            } else {
                old(self).peer_seq()[i]
            },
    {
        match self.find(peer_id) {
            Some(i) => {
                self.peers[i].last_seen_ms = now_ms;
                proof {
                    assert forall|k: int| 0 <= k < old(self).peer_seq().len() && k != i implies old(self).peer_seq()[k].id@ != peer_id@ by {
                        if k < i {} else {}
                    }
                }
                true
            },
            None => false,
        }
    }

    /// Completes a latency measurement for the peer `peer_id` (see
    /// `Peer::finish_latency`). Fails with `PeerNotFound` where no such peer is
    /// present.
    pub fn finish_latency_for(&mut self, peer_id: &Vec<u8>, response: &Message, sent_ms: u64, now_ms: u64) -> (r: Result<u64, NetworkError>)
        requires
            old(self).wf(),
        ensures
            final(self).wf(),
            final(self).capacity() == old(self).capacity(),
            !old(self).has_peer(peer_id@) ==> (r matches Err(NetworkError::PeerNotFound(_))) && *final(self) == *old(self),
            old(self).has_peer(peer_id@) && !(response.message_type is Pong) ==> (r matches Err(NetworkError::InvalidMessage(_)))
                && *final(self) == *old(self),
            old(self).has_peer(peer_id@) && response.message_type is Pong ==> {
                let elapsed = if now_ms >= sent_ms { (now_ms - sent_ms) as u64 } else { 0u64 };
                &&& r == Ok::<u64, NetworkError>(elapsed)
                &&& final(self).peer_seq().len() == old(self).peer_seq().len()
                &&& forall|i: int| 0 <= i < old(self).peer_seq().len() ==> #[trigger] final(self).peer_seq()[i] == if old(self).peer_seq()[i].id@ == peer_id@ {
                    Peer { latency_ms: Some(elapsed), last_seen_ms: now_ms, ..old(self).peer_seq()[i] }
                } else {
                    old(self).peer_seq()[i]
                }
            },
    {
        match self.find(peer_id) {
            Some(i) => {
                match response.message_type {
                    MessageType::Pong => {},
                    _ => {
                        return Err(NetworkError::InvalidMessage("Expected Pong".to_string()));
                    },
                }
                let r = self.peers[i].finish_latency(response, sent_ms, now_ms);
                proof {
                    assert forall|k: int| 0 <= k < old(self).peer_seq().len() && k != i implies old(self).peer_seq()[k].id@ != peer_id@ by {
                        if k < i {} else {}
                    }
                }
                r
            },
            None => Err(NetworkError::PeerNotFound("Unknown peer".to_string())),
        }
    }

    /// Positions of the connected peers, in order.
    pub fn connected_peers(&self) -> (r: Vec<usize>)
        ensures
            r@ == targets(self.peer_seq(), None, self.peer_seq().len() as int),
    {
        connected_targets(&self.peers, None)
    }

    /// Number of connected peers.
    pub fn peer_count(&self) -> (r: usize)
        ensures
            r == targets(self.peer_seq(), None, self.peer_seq().len() as int).len(),
    {
        self.connected_peers().len()
    }

    /// The peers, in order of arrival.
    pub fn peer_list(&self) -> (r: &Vec<Peer>)
        ensures
            r@ == self.peer_seq(),
    {
        &self.peers
    }

    /// The heartbeat's decision at `now_ms`: the connected peers that were
    /// heard from within two intervals are probed; the others are marked
    /// disconnected. Returns the positions to probe.
    pub fn heartbeat(&mut self, now_ms: u64, interval_ms: u64) -> (r: Vec<usize>)
        requires
            old(self).wf(),
        ensures
            final(self).wf(),
            final(self).capacity() == old(self).capacity(),
            final(self).peer_seq().len() == old(self).peer_seq().len(),
            r@ == live_peers(old(self).peer_seq(), now_ms, interval_ms, old(self).peer_seq().len() as int),
            forall|i: int| 0 <= i < old(self).peer_seq().len() ==> #[trigger] final(self).peer_seq()[i] == if old(self).peer_seq()[i].state
                == PeerState::Connected && stale_at(old(self).peer_seq()[i], now_ms, interval_ms) {
                Peer { state: PeerState::Disconnected, ..old(self).peer_seq()[i] }
            } else {
                old(self).peer_seq()[i]
            },
    {
        let mut r: Vec<usize> = Vec::new();
        let mut i: usize = 0;
        let n = self.peers.len();
        while i < n
            invariant
                self.wf(),
                n == old(self).peers@.len() == self.peers@.len(),
                self.max_peers == old(self).max_peers,
                0 <= i <= n,
                r@ == live_peers(old(self).peers@, now_ms, interval_ms, i as int),
                forall|j: int| 0 <= j < n ==> self.peers@[j].id == old(self).peers@[j].id,
                forall|j: int| 0 <= j < i ==> #[trigger] self.peers@[j] == if old(self).peers@[j].state == PeerState::Connected
                    && stale_at(old(self).peers@[j], now_ms, interval_ms) {
                    Peer { state: PeerState::Disconnected, ..old(self).peers@[j] }
                } else {
                    old(self).peers@[j]
                },
                forall|j: int| i <= j < n ==> #[trigger] self.peers@[j] == old(self).peers@[j],
            decreases n - i,
        {
            if self.peers[i].is_connected() {
                if self.peers[i].is_stale(now_ms, interval_ms) {
                    self.peers[i].state = PeerState::Disconnected;
                } else {
                    r.push(i);
                }
            }
            i += 1;
        }
        r
    }

    /// Whether another peer fits.
    pub fn can_accept_more(&self) -> (r: bool)
        ensures
            r == (self.peer_seq().len() < self.capacity()),
    {
        self.peers.len() < self.max_peers
    }
}

} // verus!
