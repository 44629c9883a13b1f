use vstd::prelude::*;
use crate::config::SockAddr;

verus! {

/// One table entry: the peer it belongs to and, while a session for that
/// peer is live, the session's identifier. `None` is the Empty state: the
/// entry is present but its session has died. A peer with no entry at all
/// is Absent. Slots are never removed; they only decay to Empty.
#[derive(Clone, Copy, PartialEq, Eq, Structural, Debug)]
pub struct Slot {
    pub peer: SockAddr,
    pub session: Option<u64>,
}

/// Whether no two slots belong to the same peer.
pub open spec fn peers_distinct(s: Seq<Slot>) -> bool {
    forall|j: int, k: int| 0 <= j < k < s.len() ==> s[j].peer != s[k].peer
}

/// Whether some slot belongs to `p`.
pub open spec fn has_peer(s: Seq<Slot>, p: SockAddr) -> bool {
    exists|j: int| 0 <= j < s.len() && s[j].peer == p
}

/// The index of `p`'s slot. Meaningful only when `has_peer` holds and the
/// peers are distinct, which makes the index unique.
pub open spec fn peer_index(s: Seq<Slot>, p: SockAddr) -> int {
    choose|j: int| 0 <= j < s.len() && s[j].peer == p
}

/// The state of `p`'s slot: the live session's id, or `None` when Empty.
pub open spec fn peer_state(s: Seq<Slot>, p: SockAddr) -> Option<u64>
    recommends
        has_peer(s, p),
{
    s[peer_index(s, p)].session
}

/// With distinct peers, any slot that belongs to `p` is the one
/// `peer_index` names.
pub proof fn lemma_peer_index_unique(s: Seq<Slot>, p: SockAddr, i: int)
    requires
        peers_distinct(s),
        0 <= i < s.len(),
        s[i].peer == p,
    ensures
        has_peer(s, p),
        peer_index(s, p) == i,
{
    assert(has_peer(s, p));
    let j = peer_index(s, p);
    if j != i {
        if j < i {
            assert(s[j].peer != s[i].peer);
        } else {
            assert(s[i].peer != s[j].peer);
        }
    }
}

/// What one `get_or_create` call did.
#[derive(Clone, Copy, PartialEq, Eq, Structural, Debug)]
pub enum GetOutcome {
    /// The peer's slot held a live session; it is reused unchanged.
    Reused(u64),
    /// No session was live, and opening the upstream succeeded: this is
    /// the fresh session's id, now stored in the peer's slot.
    Opened(u64),
    /// No session was live, and opening the upstream failed. The slot
    /// stays Empty; the next datagram from the peer retries.
    Failed,
}

/// The per-server session table: a map from downstream peer to the state
/// of its upstream session. In the running relay each live session is an
/// upstream socket held weakly by the table and strongly by its receive
/// task; here a session is its identifier, and liveness is tracked by the
/// events the surrounding loops report (`get_or_create`, `expire`).
pub struct SessionTable {
    entries: Vec<Slot>,
    next_id: u64,
}

impl SessionTable {
    /// The slots in insertion order.
    pub closed spec fn slots(&self) -> Seq<Slot> {
        self.entries@
    }

    /// The id the next opened session will get. Ids are never reused.
    pub closed spec fn next_id(&self) -> u64 {
        self.next_id
    }

    /// Whether the table holds a slot for `p` (Empty or Live).
    pub open spec fn contains_peer(&self, p: SockAddr) -> bool {
        has_peer(self.slots(), p)
    }

    /// The state of `p`'s slot: `Some(sid)` when a session is live.
    pub open spec fn slot_state(&self, p: SockAddr) -> Option<u64>
        recommends
            self.contains_peer(p),
    {
        peer_state(self.slots(), p)
    }

    /// Whether a session with id `sid` is live for `p`.
    pub open spec fn live(&self, p: SockAddr, sid: u64) -> bool {
        self.contains_peer(p) && self.slot_state(p) == Some(sid)
    }

    /// The table's invariant: one slot per peer, session ids handed out
    /// in order and never twice, so no two peers share a live session.
    pub open spec fn wf(&self) -> bool {
        &&& peers_distinct(self.slots())
        &&& forall|j: int|
            0 <= j < self.slots().len() && self.slots()[j].session is Some
                ==> self.slots()[j].session->Some_0 < self.next_id()
        &&& forall|j: int, k: int|
            0 <= j < k < self.slots().len() && self.slots()[j].session is Some
                && self.slots()[k].session is Some
                ==> self.slots()[j].session->Some_0 != self.slots()[k].session->Some_0
    }

    /// An empty table, as each server starts with.
    pub fn new() -> (t: SessionTable)
        ensures
            t.wf(),
            t.slots().len() == 0,
            t.next_id() == 0,
    {
        SessionTable { entries: Vec::new(), next_id: 0 }
    }

    /// Find the index of `p`'s slot, if any.
    fn find(&self, p: SockAddr) -> (r: Option<usize>)
        requires
            self.wf(),
        ensures
            match r {
                Some(i) => i < self.slots().len() && self.slots()[i as int].peer == p
                    && self.contains_peer(p) && peer_index(self.slots(), p) == i,
                None => !self.contains_peer(p),
            },
    {
        let n: usize = self.entries.len();
        let mut i: usize = 0;
        while i < n
            invariant
                self.wf(),
                n == self.slots().len(),
                i <= n,
                forall|j: int| 0 <= j < i ==> self.slots()[j].peer != p,
            decreases n - i,
        {
            if self.entries[i].peer == p {
                proof {
                    lemma_peer_index_unique(self.slots(), p, i as int);
                }
                return Some(i);
            }
            i += 1;
        }
        None
    }

    /// One `get_or_create(p)` step, the decision chain the ingress path
    /// runs for every datagram, serialized per peer by the slot's mutex.
    /// Whether the slot is Live decides everything: a live session is
    /// reused as it is, and only when none is live is one upstream opened.
    /// `open_ok` reports whether that open (bind and connect, performed
    /// outside the core) succeeded; it is ignored when nothing is opened.
    ///
    /// The contract carries the single-flight guarantee in sequential
    /// form: a call opens at most one session, never opens while one is
    /// live, and after a successful open every later call for the same
    /// peer reuses that very session until it expires.
    pub fn get_or_create(&mut self, peer: SockAddr, open_ok: bool) -> (r: GetOutcome)
        requires
            old(self).wf(),
            old(self).next_id() < u64::MAX,
        ensures
            final(self).wf(),
            final(self).contains_peer(peer),
            // other peers are untouched
            forall|q: SockAddr| q != peer
                ==> final(self).contains_peer(q) == old(self).contains_peer(q),
            forall|q: SockAddr| q != peer && old(self).contains_peer(q)
                ==> final(self).slot_state(q) == old(self).slot_state(q),
            // the three outcomes, each tied exactly to its precondition
            match r {
                GetOutcome::Reused(sid) => old(self).live(peer, sid)
                    && final(self).slots() == old(self).slots()
                    && final(self).next_id() == old(self).next_id(),
                GetOutcome::Opened(sid) => open_ok
                    && !(old(self).contains_peer(peer) && old(self).slot_state(peer) is Some)
                    && sid == old(self).next_id()
                    && final(self).slot_state(peer) == Some(sid)
                    && final(self).next_id() == old(self).next_id() + 1,
                GetOutcome::Failed => !open_ok
                    && !(old(self).contains_peer(peer) && old(self).slot_state(peer) is Some)
                    && final(self).slot_state(peer) is None
                    && final(self).next_id() == old(self).next_id(),
            },
            // which outcome comes is decided by the old state and open_ok
            (r is Reused) == (old(self).contains_peer(peer) && old(self).slot_state(peer) is Some),
    {
        let ghost old_slots = self.entries@;
        let i: usize = match self.find(peer) {
            Some(i) => {
                if let Some(sid) = self.entries[i].session {
                    return GetOutcome::Reused(sid);
                }
                i
            },
            None => {
                let n: usize = self.entries.len();
                self.entries.push(Slot { peer, session: None });
                proof {
                    assert forall|j: int, k: int|
                        0 <= j < k < self.entries@.len() implies self.entries@[j].peer
                        != self.entries@[k].peer by {
                        if k < old_slots.len() {
                        } else {
                            assert(self.entries@[k].peer == peer);
                        }
                    }
                    lemma_peer_index_unique(self.entries@, peer, n as int);
                    assert forall|q: SockAddr| q != peer && has_peer(old_slots, q)
                        implies has_peer(self.entries@, q)
                        && peer_state(self.entries@, q) == peer_state(old_slots, q) by {
                        let j = peer_index(old_slots, q);
                        lemma_peer_index_unique(old_slots, q, j);
                        lemma_peer_index_unique(self.entries@, q, j);
                    }
                    assert forall|q: SockAddr| q != peer && has_peer(self.entries@, q)
                        implies has_peer(old_slots, q) by {
                        let j = peer_index(self.entries@, q);
                        assert(old_slots[j] == self.entries@[j]);
                    }
                }
                n
            },
        };
        // The slot exists and is Empty: single-flight says open now.
        if !open_ok {
            proof {
                lemma_peer_index_unique(self.entries@, peer, i as int);
            }
            return GetOutcome::Failed;
        }
        let sid: u64 = self.next_id;
        self.next_id = sid + 1;
        let ghost pre = self.entries@;
        self.entries.set(i, Slot { peer, session: Some(sid) });
        proof {
            assert forall|j: int, k: int|
                0 <= j < k < self.entries@.len() implies self.entries@[j].peer
                != self.entries@[k].peer by {
                assert(pre[j].peer == self.entries@[j].peer);
                assert(pre[k].peer == self.entries@[k].peer);
            }
            lemma_peer_index_unique(self.entries@, peer, i as int);
            assert forall|q: SockAddr| q != peer && has_peer(pre, q)
                implies has_peer(self.entries@, q)
                && peer_state(self.entries@, q) == peer_state(pre, q) by {
                let j = peer_index(pre, q);
                lemma_peer_index_unique(pre, q, j);
                lemma_peer_index_unique(self.entries@, q, j);
            }
            assert forall|q: SockAddr| q != peer && has_peer(self.entries@, q)
                implies has_peer(pre, q) by {
                let j = peer_index(self.entries@, q);
                lemma_peer_index_unique(self.entries@, q, j);
                assert(pre[j].peer == q);
            }
        }
        GetOutcome::Opened(sid)
    }

    /// The receive task of session `sid` for `peer` has exited (upstream
    /// timeout or I/O error), dropping the last strong reference. If the
    /// peer's slot still holds that session, it decays to Empty; if a
    /// newer session has replaced it meanwhile, nothing changes.
    pub fn expire(&mut self, peer: SockAddr, sid: u64)
        requires
            old(self).wf(),
        ensures
            final(self).wf(),
            final(self).next_id() == old(self).next_id(),
            forall|q: SockAddr|
                final(self).contains_peer(q) == old(self).contains_peer(q),
            forall|q: SockAddr| q != peer && old(self).contains_peer(q)
                ==> final(self).slot_state(q) == old(self).slot_state(q),
            old(self).live(peer, sid) ==> final(self).slot_state(peer) is None,
            old(self).contains_peer(peer) && old(self).slot_state(peer) != Some(sid)
                ==> final(self).slot_state(peer) == old(self).slot_state(peer),
    {
        let found = self.find(peer);
        if let Some(i) = found {
            let matches_sid = match self.entries[i].session {
                Some(cur) => cur == sid,
                None => false,
            };
            if matches_sid {
                let ghost pre = self.entries@;
                self.entries.set(i, Slot { peer, session: None });
                proof {
                    assert forall|j: int, k: int|
                        0 <= j < k < self.entries@.len() implies self.entries@[j].peer
                        != self.entries@[k].peer by {
                        assert(pre[j].peer == self.entries@[j].peer);
                        assert(pre[k].peer == self.entries@[k].peer);
                    }
                    lemma_peer_index_unique(self.entries@, peer, i as int);
                    assert forall|q: SockAddr| q != peer && has_peer(pre, q)
                        implies has_peer(self.entries@, q)
                        && peer_state(self.entries@, q) == peer_state(pre, q) by {
                        let j = peer_index(pre, q);
                        lemma_peer_index_unique(pre, q, j);
                        lemma_peer_index_unique(self.entries@, q, j);
                    }
                    assert forall|q: SockAddr| q != peer && has_peer(self.entries@, q)
                        implies has_peer(pre, q) by {
                        let j = peer_index(self.entries@, q);
                        lemma_peer_index_unique(self.entries@, q, j);
                        assert(pre[j].peer == q);
                    }
                }
            }
        }
    }
}

/// No packet from one peer's upstream can reach another peer: two
/// distinct peers never share a live session, because every session id
/// is handed out once and stored in a single slot.
pub proof fn lemma_peer_isolation(t: &SessionTable, p1: SockAddr, p2: SockAddr)
    requires
        t.wf(),
        p1 != p2,
        t.contains_peer(p1),
        t.contains_peer(p2),
        t.slot_state(p1) is Some,
        t.slot_state(p2) is Some,
    ensures
        t.slot_state(p1) != t.slot_state(p2),
{
    let i = peer_index(t.slots(), p1);
    let j = peer_index(t.slots(), p2);
    assert(0 <= i < t.slots().len() && t.slots()[i].peer == p1);
    assert(0 <= j < t.slots().len() && t.slots()[j].peer == p2);
    if i < j {
        assert(t.slots()[i].session->Some_0 != t.slots()[j].session->Some_0);
    } else {
        assert(t.slots()[j].session->Some_0 != t.slots()[i].session->Some_0);
    }
}

} // verus!
