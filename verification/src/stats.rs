//! How many peers are in which state, and what is counted of a single peer.

use crate::addr::{AddrSet, SocketAddr};
use crate::peer::PeerState;
use crate::time::Duration;
use crate::writer::WriterChannels;
use vstd::prelude::*;

verus! {

/// The states of a peer, without what they carry.
pub enum StateKind {
    Queued,
    Connecting,
    Live,
    Dead,
    NotNeeded,
}

/// How many peers are in each state. A count that leaves the range of its type wraps around.
#[derive(Clone, Copy, Debug, PartialEq, Eq, Structural)]
pub struct AggregatePeerStats {
    pub queued: u32,
    pub connecting: u32,
    pub live: u32,
    pub dead: u32,
    pub not_needed: u32,
}

impl AggregatePeerStats {
    /// The count of one state.
    pub open spec fn count(self, kind: StateKind) -> u32 {
        match kind {
            StateKind::Queued => self.queued,
            StateKind::Connecting => self.connecting,
            StateKind::Live => self.live,
            StateKind::Dead => self.dead,
            StateKind::NotNeeded => self.not_needed,
        }
    }

    /// The counts with that of one state replaced.
    pub open spec fn with_count(self, kind: StateKind, n: u32) -> AggregatePeerStats {
        match kind {
            StateKind::Queued => AggregatePeerStats { queued: n, ..self },
            StateKind::Connecting => AggregatePeerStats { connecting: n, ..self },
            StateKind::Live => AggregatePeerStats { live: n, ..self },
            StateKind::Dead => AggregatePeerStats { dead: n, ..self },
            StateKind::NotNeeded => AggregatePeerStats { not_needed: n, ..self },
        }
    }

    /// One peer more in a state.
    pub open spec fn one_more(self, kind: StateKind) -> AggregatePeerStats {
        self.with_count(kind, self.count(kind).wrapping_add(1))
    }

    /// One peer less in a state.
    pub open spec fn one_less(self, kind: StateKind) -> AggregatePeerStats {
        self.with_count(kind, self.count(kind).wrapping_sub(1))
    }

    /// A peer goes from one state to another.
    pub open spec fn moved(self, from: StateKind, to: StateKind) -> AggregatePeerStats {
        self.one_less(from).one_more(to)
    }

    /// No peers.
    pub open spec fn zero() -> AggregatePeerStats {
        AggregatePeerStats { queued: 0, connecting: 0, live: 0, dead: 0, not_needed: 0 }
    }

    /// No peers.
    pub fn new() -> (res: AggregatePeerStats)
        ensures
            res == AggregatePeerStats::zero(),
    {
        AggregatePeerStats { queued: 0, connecting: 0, live: 0, dead: 0, not_needed: 0 }
    }

    /// Counts a peer in `state`.
    pub fn inc(&mut self, state: &PeerState)
        ensures
            *final(self) == old(self).one_more(state.kind()),
    {
        match state {
            PeerState::Queued => self.queued = self.queued.wrapping_add(1),
            PeerState::Connecting(_) => self.connecting = self.connecting.wrapping_add(1),
            PeerState::Live(_) => self.live = self.live.wrapping_add(1),
            PeerState::Dead => self.dead = self.dead.wrapping_add(1),
            PeerState::NotNeeded => self.not_needed = self.not_needed.wrapping_add(1),
        }
    }

    /// Counts a peer in `state` no more.
    pub fn dec(&mut self, state: &PeerState)
        ensures
            *final(self) == old(self).one_less(state.kind()),
    {
        match state {
            PeerState::Queued => self.queued = self.queued.wrapping_sub(1),
            PeerState::Connecting(_) => self.connecting = self.connecting.wrapping_sub(1),
            PeerState::Live(_) => self.live = self.live.wrapping_sub(1),
            PeerState::Dead => self.dead = self.dead.wrapping_sub(1),
            PeerState::NotNeeded => self.not_needed = self.not_needed.wrapping_sub(1),
        }
    }

    /// Counts a peer in `new`, and in `old_state` no more.
    pub fn incdec(&mut self, old_state: &PeerState, new: &PeerState)
        ensures
            *final(self) == old(self).moved(old_state.kind(), new.kind()),
    {
        self.dec(old_state);
        self.inc(new);
    }
}

/// What is kept over all peers of a torrent.
pub struct PeerStates {
    /// The counts of the session, in which the torrent's peers are a part.
    pub session_stats: AggregatePeerStats,
    /// The counts of the torrent.
    pub stats: AggregatePeerStats,
    /// The addresses of live peers that were connected to from here.
    pub live_outgoing_peers: AddrSet,
    /// The channels to the tasks that write to the peers.
    pub channels: WriterChannels,
}

/// What a [`PeerStates`] stands for.
#[verifier::ext_equal]
pub struct PeerStatesView {
    pub session_stats: AggregatePeerStats,
    pub stats: AggregatePeerStats,
    pub live_outgoing_peers: Set<SocketAddr>,
    pub channels: Set<int>,
}

impl View for PeerStates {
    type V = PeerStatesView;

    open spec fn view(&self) -> PeerStatesView {
        PeerStatesView {
            session_stats: self.session_stats,
            stats: self.stats,
            live_outgoing_peers: self.live_outgoing_peers@,
            channels: self.channels.opened(),
        }
    }
}

impl PeerStatesView {
    /// A peer comes, in state `kind`.
    pub open spec fn entered(self, kind: StateKind) -> PeerStatesView {
        PeerStatesView {
            session_stats: self.session_stats.one_more(kind),
            stats: self.stats.one_more(kind),
            ..self
        }
    }

    /// A peer goes from state `from` to state `to`. `outgoing` is the address to which it is
    /// connected from here, if there is one, and `connected` says whether that was ever done.
    pub open spec fn moved(
        self,
        from: StateKind,
        to: StateKind,
        outgoing: Option<SocketAddr>,
        connected: bool,
    ) -> PeerStatesView {
        PeerStatesView {
            session_stats: self.session_stats.moved(from, to),
            stats: self.stats.moved(from, to),
            live_outgoing_peers: match outgoing {
                Some(addr) => if to is Live && connected {
                    self.live_outgoing_peers.insert(addr)
                } else if from is Live {
                    self.live_outgoing_peers.remove(addr)
                } else {
                    self.live_outgoing_peers
                },
                None => self.live_outgoing_peers,
            },
            ..self
        }
    }

    /// A channel to a writing task is opened.
    pub open spec fn with_channel(self, channel: int) -> PeerStatesView {
        PeerStatesView { channels: self.channels.insert(channel), ..self }
    }

    /// A peer goes for good, out of state `kind`.
    pub open spec fn left(self, kind: StateKind, outgoing: Option<SocketAddr>) -> PeerStatesView {
        PeerStatesView {
            session_stats: self.session_stats.one_less(kind),
            stats: self.stats.one_less(kind),
            live_outgoing_peers: match outgoing {
                Some(addr) => if kind is Live {
                    self.live_outgoing_peers.remove(addr)
                } else {
                    self.live_outgoing_peers
                },
                None => self.live_outgoing_peers,
            },
            ..self
        }
    }
}

impl PeerStates {
    /// The counts of a torrent without peers, in a session whose counts are `session_stats`.
    pub fn new(session_stats: AggregatePeerStats) -> (res: PeerStates)
        ensures
            res@ == (PeerStatesView {
                session_stats,
                stats: AggregatePeerStats::zero(),
                live_outgoing_peers: Set::empty(),
                channels: Set::empty(),
            }),
    {
        PeerStates {
            session_stats,
            stats: AggregatePeerStats::new(),
            live_outgoing_peers: AddrSet::new(),
            channels: WriterChannels::new(),
        }
    }
}

/// How the time between attempts to reach a dead peer grows.
#[derive(Clone, Copy, Debug)]
pub struct PeerBackoffConfig {
    pub initial_interval: Duration,
    pub multiplier: u32,
    pub max_interval: Duration,
    pub max_elapsed_time: Option<Duration>,
}

/// What is counted of a single peer.
#[derive(Clone, Copy, Debug, PartialEq, Eq, Structural)]
pub struct PeerCounters {
    /// How often the peer was connected to from here.
    pub outgoing_connections: u32,
}

/// What is known of the past of a single peer.
#[derive(Clone, Copy, Debug)]
pub struct PeerStats {
    pub counters: PeerCounters,
    /// How to space attempts to reach the peer, where that was said.
    pub backoff_config: Option<PeerBackoffConfig>,
}

impl PeerStats {
    /// A peer without a past.
    pub open spec fn fresh(backoff_config: Option<PeerBackoffConfig>) -> PeerStats {
        PeerStats { counters: PeerCounters { outgoing_connections: 0 }, backoff_config }
    }

    /// A peer without a past.
    pub fn with_backoff_config(backoff_config: Option<PeerBackoffConfig>) -> (res: PeerStats)
        ensures
            res == PeerStats::fresh(backoff_config),
    {
        PeerStats { counters: PeerCounters { outgoing_connections: 0 }, backoff_config }
    }
}

impl Default for PeerStats {
    /// A peer without a past, of which nothing was said.
    fn default() -> (res: PeerStats)
        ensures
            res == PeerStats::fresh(None),
    {
        PeerStats::with_backoff_config(None)
    }
}

} // verus!
