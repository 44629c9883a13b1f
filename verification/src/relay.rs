use vstd::prelude::*;
use crate::config::SockAddr;
use crate::obfs::{ObfsConfig, obfs_seq, xor_obfuscate};
use crate::session::{GetOutcome, SessionTable};

verus! {

/// What one receive on a session's upstream socket yielded.
pub enum RecvEvent {
    /// A datagram arrived with these bytes.
    Data(Vec<u8>),
    /// The receive failed with an I/O error.
    Failed,
    /// No datagram arrived within the upstream timeout.
    TimedOut,
}

/// What the session's receive loop does next.
pub enum RecvAction {
    /// Send these bytes to this downstream peer via the relay socket.
    Relay(Vec<u8>, SockAddr),
    /// The session is over: end the loop and drop the last strong
    /// reference, letting the table's slot decay to Empty.
    Terminate,
}

/// One turn of the per-session receive loop for the session bound to
/// `peer`: a received datagram is XOR-transformed and relayed back to
/// that peer and no other; an error or timeout ends the session.
pub fn recv_step(ev: RecvEvent, peer: SockAddr, cfg: &ObfsConfig) -> (a: RecvAction)
    requires
        cfg.wf(),
    ensures
        (a is Relay) == (ev is Data),
        ev is Data ==> a->Relay_0@ == obfs_seq(ev->Data_0@, cfg.key@, cfg.first)
            && a->Relay_1 == peer,
{
    match ev {
        RecvEvent::Data(data) => {
            let mut buf = data;
            xor_obfuscate(&mut buf, cfg);
            RecvAction::Relay(buf, peer)
        },
        RecvEvent::Failed => RecvAction::Terminate,
        RecvEvent::TimedOut => RecvAction::Terminate,
    }
}

/// What the ingress path does with one downstream datagram.
pub enum IngressAction {
    /// Send these bytes on the session with this id.
    Send(u64, Vec<u8>),
    /// No session could be opened; the datagram is dropped and the next
    /// one from the same peer will retry.
    Dropped,
}

/// One ingress datagram from `peer`, the work the relay loop spawns per
/// receive: transform the payload, find or open the peer's session, and
/// say what to send on it. `open_ok` reports whether opening an upstream
/// socket (done outside the core) succeeded; it matters only when no
/// session was live.
pub fn ingress_step(
    table: &mut SessionTable,
    peer: SockAddr,
    data: Vec<u8>,
    cfg: &ObfsConfig,
    open_ok: bool,
) -> (a: IngressAction)
    requires
        old(table).wf(),
        cfg.wf(),
        old(table).next_id() < u64::MAX,
    ensures
        final(table).wf(),
        final(table).contains_peer(peer),
        (a is Send) == (open_ok || (old(table).contains_peer(peer)
            && old(table).slot_state(peer) is Some)),
        a is Send ==> a->Send_1@ == obfs_seq(data@, cfg.key@, cfg.first)
            && final(table).slot_state(peer) == Some(a->Send_0),
        a is Dropped ==> final(table).slot_state(peer) is None,
        forall|q: SockAddr| q != peer
            ==> final(table).contains_peer(q) == old(table).contains_peer(q),
        forall|q: SockAddr| q != peer && old(table).contains_peer(q)
            ==> final(table).slot_state(q) == old(table).slot_state(q),
{
    let mut buf = data;
    xor_obfuscate(&mut buf, cfg);
    match table.get_or_create(peer, open_ok) {
        GetOutcome::Reused(sid) => IngressAction::Send(sid, buf),
        GetOutcome::Opened(sid) => IngressAction::Send(sid, buf),
        GetOutcome::Failed => IngressAction::Dropped,
    }
}

} // verus!
