//! A peer of a torrent, whatever state it is in.

use crate::addr::SocketAddr;
use crate::chunk::WriterRequest;
use crate::counting::law_queued_on_the_way;
use crate::live::{ConnectionKind, Id20, LivePeerState, LivePeerView};
use crate::stats::{PeerBackoffConfig, PeerStates, PeerStatesView, PeerStats, StateKind};
use crate::writer::{receiver_channel, waiting_at_opening, PeerRx, PeerTx};
use vstd::prelude::*;

verus! {

/// The state of a peer.
pub enum PeerState {
    /// It is to be connected to as soon as possible.
    Queued,
    /// It is being connected to.
    Connecting(PeerTx),
    /// There is a connection.
    Live(LivePeerState),
    /// There was an error, and its backoff has not passed yet.
    Dead,
    /// There is nothing to do with it any more: both sides have the full torrent.
    NotNeeded,
}

impl Default for PeerState {
    fn default() -> (res: PeerState)
        ensures
            res == PeerState::Queued,
    {
        PeerState::Queued
    }
}

impl PeerState {
    /// The state without what it carries.
    pub open spec fn kind(self) -> StateKind {
        match self {
            PeerState::Queued => StateKind::Queued,
            PeerState::Connecting(_) => StateKind::Connecting,
            PeerState::Live(_) => StateKind::Live,
            PeerState::Dead => StateKind::Dead,
            PeerState::NotNeeded => StateKind::NotNeeded,
        }
    }

    /// What the state is called.
    pub fn name(&self) -> (res: &'static str)
        ensures
            res@ == (match self.kind() {
                StateKind::Queued => "queued"@,
                StateKind::Connecting => "connecting"@,
                StateKind::Live => "live"@,
                StateKind::Dead => "dead"@,
                StateKind::NotNeeded => "not needed"@,
            }),
    {
        match self {
            PeerState::Queued => "queued",
            PeerState::Connecting(_) => "connecting",
            PeerState::Live(_) => "live",
            PeerState::Dead => "dead",
            PeerState::NotNeeded => "not needed",
        }
    }

    /// What a live peer carries. No counts are changed.
    pub fn take_live_no_counters(self) -> (res: Option<LivePeerState>)
        ensures
            res == (match self {
                PeerState::Live(live) => Some(live),
                _ => None,
            }),
    {
        match self {
            PeerState::Live(live) => Some(live),
            _ => None,
        }
    }
}

/// Why a connection that a peer made is refused.
#[derive(Clone, Copy, Debug, PartialEq, Eq, Structural)]
pub enum IncomingConnectionResult {
    /// There is one already, or one is being made.
    AlreadyActive,
}

impl IncomingConnectionResult {
    /// The reason in words.
    pub fn message(&self) -> (res: &'static str)
        ensures
            res@ == "peer already active"@,
    {
        match self {
            IncomingConnectionResult::AlreadyActive => "peer already active",
        }
    }
}

/// A peer of a torrent.
pub struct Peer {
    pub addr: SocketAddr,
    state: PeerState,
    pub stats: PeerStats,
    /// The address to which the peer is connected from here, where one is known.
    pub outgoing_address: Option<SocketAddr>,
}

/// What a [`Peer`] stands for.
pub struct PeerView {
    pub addr: SocketAddr,
    pub state: PeerState,
    pub stats: PeerStats,
    pub outgoing_address: Option<SocketAddr>,
}

impl View for Peer {
    type V = PeerView;

    closed spec fn view(&self) -> PeerView {
        PeerView {
            addr: self.addr,
            state: self.state,
            stats: self.stats,
            outgoing_address: self.outgoing_address,
        }
    }
}

/// What a [`Peer`] stands for is told by its fields, each by its own.
proof fn lemma_stands_for_its_fields(peer: Peer)
    ensures
        peer@.addr == peer.addr,
        peer@.state == peer.state,
        peer@.stats == peer.stats,
        peer@.outgoing_address == peer.outgoing_address,
{
}

impl PeerView {
    /// The peer in another state.
    pub open spec fn in_state(self, state: PeerState) -> PeerView {
        PeerView { state, ..self }
    }

    /// What the counts become when the peer goes to state `to`.
    pub open spec fn counts_after(
        self,
        counts: PeerStatesView,
        to: StateKind,
    ) -> PeerStatesView {
        counts.moved(
            self.state.kind(),
            to,
            self.outgoing_address,
            self.stats.counters.outgoing_connections > 0,
        )
    }
}

impl Peer {
    /// A peer that has connected to here from `addr`. It is counted as live.
    pub fn new_live_for_incoming_connection(
        addr: SocketAddr,
        peer_id: Id20,
        tx: PeerTx,
        counters: &mut PeerStates,
        connection_kind: ConnectionKind,
    ) -> (res: Peer)
        ensures
            res@.addr == addr,
            res@.state matches PeerState::Live(live) && live@ == LivePeerView::fresh(
                peer_id,
                tx,
                true,
                connection_kind,
                live@.slots_notify,
            ),
            res@.stats == PeerStats::fresh(None),
            res@.outgoing_address is None,
            final(counters)@ == old(counters)@.entered(StateKind::Live),
    {
        let state = PeerState::Live(LivePeerState::new(peer_id, tx, true, connection_kind));
        counters.session_stats.inc(&state);
        counters.stats.inc(&state);
        Peer { addr, state, stats: PeerStats::default(), outgoing_address: None }
    }

    /// A peer that is to be connected to at `addr`. It is not counted yet.
    pub fn new_with_outgoing_address(
        addr: SocketAddr,
        backoff_config: Option<PeerBackoffConfig>,
    ) -> (res: Peer)
        ensures
            res@ == (PeerView {
                addr,
                state: PeerState::Queued,
                stats: PeerStats::fresh(backoff_config),
                outgoing_address: Some(addr),
            }),
    {
        let res = Peer {
            addr,
            outgoing_address: Some(addr),
            stats: PeerStats::with_backoff_config(backoff_config),
            state: PeerState::default(),
        };
        proof {
            lemma_stands_for_its_fields(res);
        }
        res
    }

    /// If the peer was not needed, returns the address at which it is to be connected to again, where
    /// one is known. If that is the address under which it goes, it is queued; if it is another, the
    /// peer stays as it is.
    pub fn reconnect_not_needed_peer(&mut self, counters: &mut PeerStates) -> (res: Option<
        SocketAddr,
    >)
        ensures
            res == (if old(self)@.state is NotNeeded {
                old(self)@.outgoing_address
            } else {
                None
            }),
            if old(self)@.state is NotNeeded && old(self)@.outgoing_address == Some(
                old(self)@.addr,
            ) {
                &&& final(self)@ == old(self)@.in_state(PeerState::Queued)
                &&& final(counters)@ == old(self)@.counts_after(
                    old(counters)@,
                    StateKind::Queued,
                )
            } else {
                &&& final(self)@ == old(self)@
                &&& final(counters)@ == old(counters)@
            },
    {
        if let PeerState::NotNeeded = self.get_state() {
            match self.outgoing_address {
                None => None,
                Some(socket_addr) => {
                    if self.addr == socket_addr {
                        self.set_state(PeerState::Queued, counters);
                    }
                    Some(socket_addr)
                },
            }
        } else {
            None
        }
    }

    /// Notes at which address the peer is connected to from here.
    pub fn set_outgoing_address(&mut self, addr: Option<SocketAddr>)
        ensures
            final(self)@ == (PeerView { outgoing_address: addr, ..old(self)@ }),
    {
        self.outgoing_address = addr;
    }

    /// Notes what is known of the past of the peer.
    pub fn set_stats(&mut self, stats: PeerStats)
        ensures
            final(self)@ == (PeerView { stats, ..old(self)@ }),
    {
        self.stats = stats;
    }

    /// The state of the peer.
    pub fn get_state(&self) -> (res: &PeerState)
        ensures
            *res == self@.state,
    {
        &self.state
    }

    /// Takes the state out of the peer, which is queued afterwards.
    pub fn take_state(&mut self, counters: &mut PeerStates) -> (res: PeerState)
        ensures
            res == old(self)@.state,
            final(self)@ == old(self)@.in_state(PeerState::Queued),
            final(counters)@ == old(self)@.counts_after(old(counters)@, StateKind::Queued),
    {
        self.set_state(PeerState::default(), counters)
    }

    /// Ends the peer: it is counted no more.
    pub fn destroy(self, counters: &mut PeerStates)
        ensures
            final(counters)@ == old(counters)@.left(self@.state.kind(), self@.outgoing_address),
    {
        counters.session_stats.dec(&self.state);
        counters.stats.dec(&self.state);
        if let (Some(addr), PeerState::Live(_)) = (self.outgoing_address, &self.state) {
            counters.live_outgoing_peers.remove(&addr);
        }
        assert(counters@ =~= old(counters)@.left(self@.state.kind(), self@.outgoing_address));
    }

    /// Puts the peer in state `new`, keeps the counts in step, and returns the state that it was in.
    pub fn set_state(&mut self, new: PeerState, counters: &mut PeerStates) -> (res: PeerState)
        ensures
            res == old(self)@.state,
            final(self)@ == old(self)@.in_state(new),
            final(counters)@ == old(self)@.counts_after(old(counters)@, new.kind()),
    {
        counters.session_stats.incdec(&self.state, &new);
        counters.stats.incdec(&self.state, &new);
        if let Some(addr) = self.outgoing_address {
            if let PeerState::Live(_) = &self.state {
                counters.live_outgoing_peers.remove(&addr);
            }
            if let PeerState::Live(_) = &new {
                if self.stats.counters.outgoing_connections > 0 {
                    counters.live_outgoing_peers.insert(addr);
                }
            }
        }
        assert(counters@ =~= old(self)@.counts_after(old(counters)@, new.kind()));
        let mut state = new;
        std::mem::swap(&mut self.state, &mut state);
        state
    }

    /// What is kept of the peer while it is live.
    pub fn get_live(&self) -> (res: Option<&LivePeerState>)
        ensures
            match self@.state {
                PeerState::Live(live) => res == Some(&live),
                _ => res is None,
            },
    {
        match &self.state {
            PeerState::Live(live) => Some(live),
            _ => None,
        }
    }

    /// What is kept of the peer while it is live, to be changed.
    pub fn get_live_mut(&mut self) -> (res: Option<&mut LivePeerState>)
        ensures
            match old(self)@.state {
                PeerState::Live(live) => {
                    &&& res matches Some(l)
                    &&& *l == live
                    &&& final(self)@ == old(self)@.in_state(PeerState::Live(*final(l)))
                },
                _ => res is None && final(self)@ == old(self)@,
            },
    {
        match &mut self.state {
            PeerState::Live(live) => Some(live),
            _ => None,
        }
    }

    /// Starts to connect to a peer that is queued or was not needed. Returns the two ends of a new
    /// channel to the task that will write to it.
    pub fn idle_to_connecting(&mut self, counters: &mut PeerStates) -> (res: Option<
        (PeerRx, PeerTx),
    >)
        ensures
            res is Some <==> old(self)@.state is Queued || old(self)@.state is NotNeeded,
            match res {
                Some((rx, tx)) => {
                    &&& final(self)@.state matches PeerState::Connecting(kept)
                    &&& !old(counters)@.channels.contains(receiver_channel(rx))
                    &&& waiting_at_opening(rx) == Seq::<WriterRequest>::empty()
                    &&& kept.channel() == receiver_channel(rx)
                    &&& kept.sent() == Seq::<WriterRequest>::empty()
                    &&& tx.channel() == receiver_channel(rx)
                    &&& tx.sent() == Seq::<WriterRequest>::empty()
                    &&& final(self)@ == old(self)@.in_state(final(self)@.state)
                    &&& final(counters)@ == old(self)@.counts_after(
                        old(counters)@.with_channel(receiver_channel(rx)),
                        StateKind::Connecting,
                    )
                },
                None => final(self)@ == old(self)@ && final(counters)@ == old(counters)@,
            },
    {
        match &self.state {
            PeerState::Queued | PeerState::NotNeeded => {
                let (tx, rx) = counters.channels.peer_channel();
                let tx_2 = tx.clone();
                self.set_state(PeerState::Connecting(tx), counters);
                Some((rx, tx_2))
            },
            _ => None,
        }
    }

    /// The peer has connected to here. That is refused where there is a connection already, or one is
    /// being made; else the peer is live.
    pub fn incoming_connection(
        &mut self,
        peer_id: Id20,
        tx: PeerTx,
        counters: &mut PeerStates,
        connection_kind: ConnectionKind,
    ) -> (res: Result<(), IncomingConnectionResult>)
        ensures
            match old(self)@.state {
                PeerState::Connecting(_) | PeerState::Live(_) => {
                    &&& res == Err::<(), _>(IncomingConnectionResult::AlreadyActive)
                    &&& final(self)@ == old(self)@
                    &&& final(counters)@ == old(counters)@
                },
                PeerState::Queued | PeerState::Dead | PeerState::NotNeeded => {
                    &&& res == Ok::<_, IncomingConnectionResult>(())
                    &&& final(self)@.state matches PeerState::Live(live)
                    &&& live@ == LivePeerView::fresh(
                        peer_id,
                        tx,
                        true,
                        connection_kind,
                        live@.slots_notify,
                    )
                    &&& final(self)@ == old(self)@.in_state(final(self)@.state)
                    &&& final(counters)@ == old(self)@.counts_after(
                        old(counters)@,
                        StateKind::Live,
                    )
                },
            },
    {
        match &self.state {
            PeerState::Connecting(_) | PeerState::Live(_) => {
                return Err(IncomingConnectionResult::AlreadyActive);
            },
            PeerState::Queued | PeerState::Dead | PeerState::NotNeeded => {},
        }
        self.take_state(counters);
        self.set_state(
            PeerState::Live(LivePeerState::new(peer_id, tx, true, connection_kind)),
            counters,
        );
        proof {
            law_queued_on_the_way(old(counters)@, old(self)@, StateKind::Live);
        }
        Ok(())
    }

    /// The connection to the peer has been made. If it was being made, the peer is live.
    pub fn connecting_to_live(
        &mut self,
        peer_id: Id20,
        counters: &mut PeerStates,
        conn_kind: ConnectionKind,
    ) -> (res: Option<&mut LivePeerState>)
        ensures
            match old(self)@.state {
                PeerState::Connecting(tx) => {
                    &&& res matches Some(live)
                    &&& live@ == LivePeerView::fresh(
                        peer_id,
                        tx,
                        false,
                        conn_kind,
                        live@.slots_notify,
                    )
                    &&& final(self)@ == old(self)@.in_state(PeerState::Live(*final(live)))
                    &&& final(counters)@ == old(self)@.counts_after(
                        old(counters)@,
                        StateKind::Live,
                    )
                },
                _ => {
                    &&& res is None
                    &&& final(self)@ == old(self)@
                    &&& final(counters)@ == old(counters)@
                },
            },
    {
        match &self.state {
            PeerState::Connecting(_) => {},
            _ => {
                return None;
            },
        }
        match self.take_state(counters) {
            PeerState::Connecting(tx) => {
                self.set_state(
                    PeerState::Live(LivePeerState::new(peer_id, tx, false, conn_kind)),
                    counters,
                );
                proof {
                    law_queued_on_the_way(old(counters)@, old(self)@, StateKind::Live);
                }
                self.get_live_mut()
            },
            _ => None,
        }
    }

    /// The peer is not needed any more; returns the state that it was in.
    pub fn set_not_needed(&mut self, counters: &mut PeerStates) -> (res: PeerState)
        ensures
            res == old(self)@.state,
            final(self)@ == old(self)@.in_state(PeerState::NotNeeded),
            final(counters)@ == old(self)@.counts_after(old(counters)@, StateKind::NotNeeded),
    {
        self.set_state(PeerState::NotNeeded, counters)
    }
}

} // verus!
