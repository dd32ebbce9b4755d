//! What the counts say of the peers that are counted in them.

use crate::addr::SocketAddr;
use crate::peer::{PeerState, PeerView};
use crate::stats::{
    AggregatePeerStats, PeerBackoffConfig, PeerStates, PeerStatesView, PeerStats, StateKind,
};
use vstd::prelude::*;

verus! {

/// How many of `peers` are in a state.
pub open spec fn tally(peers: Seq<PeerView>, kind: StateKind) -> nat
    decreases peers.len(),
{
    if peers.len() == 0 {
        0
    } else {
        tally(peers.drop_last(), kind) + one_if(peers.last().state.kind() == kind)
    }
}

/// One where `b` holds, zero elsewhere.
pub open spec fn one_if(b: bool) -> nat {
    if b {
        1
    } else {
        0
    }
}

/// `stats` counts `peers`, and `others(kind)` peers in each state besides, as far as the range of a
/// count goes.
pub open spec fn counts_peers(
    stats: AggregatePeerStats,
    peers: Seq<PeerView>,
    others: spec_fn(StateKind) -> nat,
) -> bool {
    forall|kind: StateKind|
        #![trigger stats.count(kind)]
        stats.count(kind) == (tally(peers, kind) + others(kind)) % 0x1_0000_0000
}

/// Some live peer among `peers` has `addr` as its outgoing address.
pub open spec fn live_at(peers: Seq<PeerView>, addr: SocketAddr) -> bool {
    exists|i: int|
        0 <= i < peers.len() && (#[trigger] peers[i]).state is Live && peers[i].outgoing_address
            == Some(addr)
}

/// `counts` is true of the torrent's `peers`: its own counts are those of `peers`, those of the
/// session are of `peers` and of the peers of other torrents, and every address in its set is the
/// outgoing address of a live peer.
pub open spec fn true_of(
    counts: PeerStatesView,
    peers: Seq<PeerView>,
    elsewhere: spec_fn(StateKind) -> nat,
) -> bool {
    &&& counts_peers(counts.stats, peers, |kind: StateKind| 0nat)
    &&& counts_peers(counts.session_stats, peers, elsewhere)
    &&& forall|addr: SocketAddr| #[trigger]
        counts.live_outgoing_peers.contains(addr) ==> live_at(peers, addr)
}

/// The tally with one peer in another state.
proof fn lemma_tally_update(peers: Seq<PeerView>, i: int, peer: PeerView, kind: StateKind)
    requires
        0 <= i < peers.len(),
    ensures
        tally(peers.update(i, peer), kind) + one_if(peers[i].state.kind() == kind) == tally(
            peers,
            kind,
        ) + one_if(peer.state.kind() == kind),
    decreases peers.len(),
{
    let updated = peers.update(i, peer);
    if i == peers.len() - 1 {
        assert(updated.drop_last() =~= peers.drop_last());
    } else {
        lemma_tally_update(peers.drop_last(), i, peer, kind);
        assert(updated.drop_last() =~= peers.drop_last().update(i, peer));
    }
}

/// The tally with one peer gone.
proof fn lemma_tally_remove(peers: Seq<PeerView>, i: int, kind: StateKind)
    requires
        0 <= i < peers.len(),
    ensures
        tally(peers.remove(i), kind) + one_if(peers[i].state.kind() == kind) == tally(peers, kind),
    decreases peers.len(),
{
    let rest = peers.remove(i);
    if i == peers.len() - 1 {
        assert(rest =~= peers.drop_last());
    } else {
        lemma_tally_remove(peers.drop_last(), i, kind);
        assert(rest.drop_last() =~= peers.drop_last().remove(i));
    }
}

/// One count goes up by one with the number that it shows, and the others stay.
proof fn lemma_one_more(stats: AggregatePeerStats, kind: StateKind, other: StateKind)
    ensures
        stats.one_more(kind).count(other) == (stats.count(other) + one_if(kind == other))
            % 0x1_0000_0000,
{
}

/// One count goes down by one with the number that it shows, and the others stay.
proof fn lemma_one_less(stats: AggregatePeerStats, kind: StateKind, other: StateKind)
    ensures
        stats.one_less(kind).count(other) == (stats.count(other) - one_if(kind == other))
            % 0x1_0000_0000,
{
}

/// What a move from one state to another does to the number that each count shows.
proof fn lemma_moved(stats: AggregatePeerStats, from: StateKind, to: StateKind, other: StateKind)
    ensures
        stats.moved(from, to).count(other) == (stats.count(other) - one_if(from == other) + one_if(
            to == other,
        )) % 0x1_0000_0000,
{
    lemma_one_less(stats, from, other);
    lemma_one_more(stats.one_less(from), to, other);
}

/// Counting a peer that comes.
proof fn lemma_counts_push(
    stats: AggregatePeerStats,
    peers: Seq<PeerView>,
    others: spec_fn(StateKind) -> nat,
    peer: PeerView,
)
    requires
        counts_peers(stats, peers, others),
    ensures
        counts_peers(stats.one_more(peer.state.kind()), peers.push(peer), others),
{
    let after = stats.one_more(peer.state.kind());
    assert(peers.push(peer).drop_last() =~= peers);
    assert forall|kind: StateKind| #[trigger] after.count(kind) == (tally(peers.push(peer), kind)
        + others(kind)) % 0x1_0000_0000 by {
        assert(stats.count(kind) == (tally(peers, kind) + others(kind)) % 0x1_0000_0000);
        lemma_one_more(stats, peer.state.kind(), kind);
    }
}

/// Counting a peer no more.
proof fn lemma_counts_remove(
    stats: AggregatePeerStats,
    peers: Seq<PeerView>,
    others: spec_fn(StateKind) -> nat,
    i: int,
)
    requires
        counts_peers(stats, peers, others),
        0 <= i < peers.len(),
    ensures
        counts_peers(stats.one_less(peers[i].state.kind()), peers.remove(i), others),
{
    let after = stats.one_less(peers[i].state.kind());
    assert forall|kind: StateKind| #[trigger] after.count(kind) == (tally(peers.remove(i), kind)
        + others(kind)) % 0x1_0000_0000 by {
        assert(stats.count(kind) == (tally(peers, kind) + others(kind)) % 0x1_0000_0000);
        lemma_one_less(stats, peers[i].state.kind(), kind);
        lemma_tally_remove(peers, i, kind);
    }
}

/// Counting a peer in another state.
proof fn lemma_counts_update(
    stats: AggregatePeerStats,
    peers: Seq<PeerView>,
    others: spec_fn(StateKind) -> nat,
    i: int,
    peer: PeerView,
)
    requires
        counts_peers(stats, peers, others),
        0 <= i < peers.len(),
    ensures
        counts_peers(
            stats.moved(peers[i].state.kind(), peer.state.kind()),
            peers.update(i, peer),
            others,
        ),
{
    let from = peers[i].state.kind();
    let to = peer.state.kind();
    let after = stats.moved(from, to);
    assert forall|kind: StateKind| #[trigger] after.count(kind) == (tally(
        peers.update(i, peer),
        kind,
    ) + others(kind)) % 0x1_0000_0000 by {
        assert(stats.count(kind) == (tally(peers, kind) + others(kind)) % 0x1_0000_0000);
        lemma_moved(stats, from, to, kind);
        lemma_tally_update(peers, i, peer, kind);
    }
}

/// Where a state holds no more peers than a count can show, the count is the tally: that of the torrent
/// for its peers, that of the session for these and the peers elsewhere.
pub proof fn law_counts_are_exact(
    counts: PeerStatesView,
    peers: Seq<PeerView>,
    elsewhere: spec_fn(StateKind) -> nat,
    kind: StateKind,
)
    requires
        true_of(counts, peers, elsewhere),
    ensures
        tally(peers, kind) <= u32::MAX ==> counts.stats.count(kind) == tally(peers, kind),
        tally(peers, kind) + elsewhere(kind) <= u32::MAX ==> counts.session_stats.count(kind)
            == tally(peers, kind) + elsewhere(kind),
{
}

/// The counts of a torrent without peers are true of it.
pub proof fn law_no_peers(counts: PeerStatesView, elsewhere: spec_fn(StateKind) -> nat)
    requires
        counts.stats == AggregatePeerStats::zero(),
        forall|kind: StateKind| #[trigger]
            counts.session_stats.count(kind) == elsewhere(kind) % 0x1_0000_0000,
        counts.live_outgoing_peers == Set::<SocketAddr>::empty(),
    ensures
        true_of(counts, Seq::empty(), elsewhere),
{
}

/// A peer that comes and is counted in its state leaves the counts true.
pub proof fn law_entering_keeps_counts_true(
    counts: PeerStatesView,
    peers: Seq<PeerView>,
    elsewhere: spec_fn(StateKind) -> nat,
    peer: PeerView,
)
    requires
        true_of(counts, peers, elsewhere),
    ensures
        true_of(counts.entered(peer.state.kind()), peers.push(peer), elsewhere),
{
    let after = counts.entered(peer.state.kind());
    lemma_counts_push(counts.stats, peers, |kind: StateKind| 0nat, peer);
    lemma_counts_push(counts.session_stats, peers, elsewhere, peer);
    assert forall|addr: SocketAddr| #[trigger]
        after.live_outgoing_peers.contains(addr) implies live_at(peers.push(peer), addr) by {
        let i = choose|i: int|
            0 <= i < peers.len() && (#[trigger] peers[i]).state is Live && peers[i].outgoing_address
                == Some(addr);
        assert(peers.push(peer)[i] == peers[i]);
    }
}

/// A peer that changes its state, whatever the two states are, leaves the counts true.
pub proof fn law_changing_state_keeps_counts_true(
    counts: PeerStatesView,
    peers: Seq<PeerView>,
    elsewhere: spec_fn(StateKind) -> nat,
    i: int,
    new: PeerState,
)
    requires
        true_of(counts, peers, elsewhere),
        0 <= i < peers.len(),
    ensures
        true_of(
            peers[i].counts_after(counts, new.kind()),
            peers.update(i, peers[i].in_state(new)),
            elsewhere,
        ),
{
    let after = peers[i].counts_after(counts, new.kind());
    let changed = peers[i].in_state(new);
    let peers_after = peers.update(i, changed);
    lemma_counts_update(counts.stats, peers, |kind: StateKind| 0nat, i, changed);
    lemma_counts_update(counts.session_stats, peers, elsewhere, i, changed);
    assert forall|addr: SocketAddr| #[trigger]
        after.live_outgoing_peers.contains(addr) implies live_at(peers_after, addr) by {
        if changed.state is Live && changed.outgoing_address == Some(addr) {
            assert(peers_after[i] == changed);
        } else {
            assert(counts.live_outgoing_peers.contains(addr));
            let j = choose|j: int|
                0 <= j < peers.len() && (#[trigger] peers[j]).state is Live
                    && peers[j].outgoing_address == Some(addr);
            assert(j != i);
            assert(peers_after[j] == peers[j]);
        }
    }
}

/// A peer that is ended leaves the counts true of those that remain.
pub proof fn law_leaving_keeps_counts_true(
    counts: PeerStatesView,
    peers: Seq<PeerView>,
    elsewhere: spec_fn(StateKind) -> nat,
    i: int,
)
    requires
        true_of(counts, peers, elsewhere),
        0 <= i < peers.len(),
    ensures
        true_of(
            counts.left(peers[i].state.kind(), peers[i].outgoing_address),
            peers.remove(i),
            elsewhere,
        ),
{
    let after = counts.left(peers[i].state.kind(), peers[i].outgoing_address);
    let rest = peers.remove(i);
    lemma_counts_remove(counts.stats, peers, |kind: StateKind| 0nat, i);
    lemma_counts_remove(counts.session_stats, peers, elsewhere, i);
    assert forall|addr: SocketAddr| #[trigger]
        after.live_outgoing_peers.contains(addr) implies live_at(rest, addr) by {
        let j = choose|j: int|
            0 <= j < peers.len() && (#[trigger] peers[j]).state is Live
                && peers[j].outgoing_address == Some(addr);
        assert(j != i);
        assert(rest[if j < i { j } else { j - 1 }] == peers[j]);
    }
}

/// The address under which a live peer that was connected to from here is listed.
pub open spec fn listed_address(peer: PeerView) -> Option<SocketAddr> {
    if peer.state is Live && peer.stats.counters.outgoing_connections > 0 {
        peer.outgoing_address
    } else {
        None
    }
}

/// Every live peer that was connected to from here has its address in the set of `counts`.
pub open spec fn all_listed(counts: PeerStatesView, peers: Seq<PeerView>) -> bool {
    forall|i: int|
        0 <= i < peers.len() ==> (listed_address(#[trigger] peers[i]) matches Some(addr)
            ==> counts.live_outgoing_peers.contains(addr))
}

/// No two peers have the same outgoing address.
pub open spec fn outgoing_distinct(peers: Seq<PeerView>) -> bool {
    forall|i: int, j: int|
        0 <= i < j < peers.len() && (#[trigger] peers[i]).outgoing_address is Some
            ==> peers[i].outgoing_address != (#[trigger] peers[j]).outgoing_address
}

/// A peer that comes, and is not live at an address connected to from here, leaves the live peers
/// listed.
pub proof fn law_entering_keeps_live_peers_listed(
    counts: PeerStatesView,
    peers: Seq<PeerView>,
    peer: PeerView,
)
    requires
        all_listed(counts, peers),
        listed_address(peer) is None,
    ensures
        all_listed(counts.entered(peer.state.kind()), peers.push(peer)),
{
}

/// Where no two peers have the same outgoing address, a peer that changes its state leaves the live
/// peers listed.
pub proof fn law_changing_state_keeps_live_peers_listed(
    counts: PeerStatesView,
    peers: Seq<PeerView>,
    i: int,
    new: PeerState,
)
    requires
        all_listed(counts, peers),
        outgoing_distinct(peers),
        0 <= i < peers.len(),
    ensures
        all_listed(
            peers[i].counts_after(counts, new.kind()),
            peers.update(i, peers[i].in_state(new)),
        ),
{
    let peers_after = peers.update(i, peers[i].in_state(new));
    let after = peers[i].counts_after(counts, new.kind());
    assert forall|j: int| 0 <= j < peers_after.len() implies (listed_address(
        #[trigger] peers_after[j],
    ) matches Some(addr) ==> after.live_outgoing_peers.contains(addr)) by {
        if j != i {
            assert(peers_after[j] == peers[j]);
        }
    }
}

/// Where no two peers have the same outgoing address, a peer that is ended leaves the other live peers
/// listed.
pub proof fn law_leaving_keeps_live_peers_listed(
    counts: PeerStatesView,
    peers: Seq<PeerView>,
    i: int,
)
    requires
        all_listed(counts, peers),
        outgoing_distinct(peers),
        0 <= i < peers.len(),
    ensures
        all_listed(
            counts.left(peers[i].state.kind(), peers[i].outgoing_address),
            peers.remove(i),
        ),
{
    let rest = peers.remove(i);
    let after = counts.left(peers[i].state.kind(), peers[i].outgoing_address);
    assert forall|j: int| 0 <= j < rest.len() implies (listed_address(
        #[trigger] rest[j],
    ) matches Some(addr) ==> after.live_outgoing_peers.contains(addr)) by {
        let k = if j < i {
            j
        } else {
            j + 1
        };
        assert(rest[j] == peers[k]);
        assert(k != i);
    }
}

/// To be queued on the way from one state to another makes no difference to the counts.
pub proof fn law_queued_on_the_way(counts: PeerStatesView, peer: PeerView, to: StateKind)
    ensures
        peer.in_state(PeerState::Queued).counts_after(
            peer.counts_after(counts, StateKind::Queued),
            to,
        ) == peer.counts_after(counts, to),
{
    let twice = peer.in_state(PeerState::Queued).counts_after(
        peer.counts_after(counts, StateKind::Queued),
        to,
    );
    assert(twice =~= peer.counts_after(counts, to));
}

/// A peer that goes to another state and comes back has every state counted as before.
pub proof fn law_there_and_back(stats: AggregatePeerStats, from: StateKind, to: StateKind)
    ensures
        stats.moved(from, to).moved(to, from) == stats,
{
}

/// A state is counted as what it is, whatever it carries, and each kind of state has a count of its own.
pub proof fn law_each_state_has_its_count(state: PeerState, stats: AggregatePeerStats)
    ensures
        state.kind() is Queued <==> state is Queued,
        state.kind() is Connecting <==> state is Connecting,
        state.kind() is Live <==> state is Live,
        state.kind() is Dead <==> state is Dead,
        state.kind() is NotNeeded <==> state is NotNeeded,
        stats.count(StateKind::Queued) == stats.queued,
        stats.count(StateKind::Connecting) == stats.connecting,
        stats.count(StateKind::Live) == stats.live,
        stats.count(StateKind::Dead) == stats.dead,
        stats.count(StateKind::NotNeeded) == stats.not_needed,
        AggregatePeerStats::zero().queued == 0,
        AggregatePeerStats::zero().connecting == 0,
        AggregatePeerStats::zero().live == 0,
        AggregatePeerStats::zero().dead == 0,
        AggregatePeerStats::zero().not_needed == 0,
{
}

/// A peer that comes in a state adds one to the count of that state, which goes around at its end, and
/// to no other.
pub proof fn law_one_peer_more(stats: AggregatePeerStats, state: PeerState)
    ensures
        ({
            let after = stats.one_more(state.kind());
            &&& after.queued == (stats.queued + one_if(state is Queued)) % 0x1_0000_0000
            &&& after.connecting == (stats.connecting + one_if(state is Connecting)) % 0x1_0000_0000
            &&& after.live == (stats.live + one_if(state is Live)) % 0x1_0000_0000
            &&& after.dead == (stats.dead + one_if(state is Dead)) % 0x1_0000_0000
            &&& after.not_needed == (stats.not_needed + one_if(state is NotNeeded)) % 0x1_0000_0000
        }),
{
}

/// A peer that goes takes one from the count of its state, which goes around at its end, and from no
/// other.
pub proof fn law_one_peer_less(stats: AggregatePeerStats, state: PeerState)
    ensures
        ({
            let after = stats.one_less(state.kind());
            &&& after.queued == (stats.queued - one_if(state is Queued)) % 0x1_0000_0000
            &&& after.connecting == (stats.connecting - one_if(state is Connecting)) % 0x1_0000_0000
            &&& after.live == (stats.live - one_if(state is Live)) % 0x1_0000_0000
            &&& after.dead == (stats.dead - one_if(state is Dead)) % 0x1_0000_0000
            &&& after.not_needed == (stats.not_needed - one_if(state is NotNeeded)) % 0x1_0000_0000
        }),
{
}

/// A peer that changes its state takes one from the count of the state that it leaves and adds one to
/// that of the state that it goes to. The other counts stay, and so do all if the two are of one kind.
pub proof fn law_peer_counted_where_it_goes(
    stats: AggregatePeerStats,
    from: PeerState,
    to: PeerState,
)
    ensures
        ({
            let after = stats.moved(from.kind(), to.kind());
            &&& after.queued == (stats.queued - one_if(from is Queued) + one_if(to is Queued))
                % 0x1_0000_0000
            &&& after.connecting == (stats.connecting - one_if(from is Connecting) + one_if(to is Connecting))
                % 0x1_0000_0000
            &&& after.live == (stats.live - one_if(from is Live) + one_if(to is Live))
                % 0x1_0000_0000
            &&& after.dead == (stats.dead - one_if(from is Dead) + one_if(to is Dead))
                % 0x1_0000_0000
            &&& after.not_needed == (stats.not_needed - one_if(from is NotNeeded) + one_if(to is NotNeeded))
                % 0x1_0000_0000
        }),
        from.kind() == to.kind() ==> stats.moved(from.kind(), to.kind()) == stats,
{
    lemma_moved(stats, from.kind(), to.kind(), StateKind::Queued);
    lemma_moved(stats, from.kind(), to.kind(), StateKind::Connecting);
    lemma_moved(stats, from.kind(), to.kind(), StateKind::Live);
    lemma_moved(stats, from.kind(), to.kind(), StateKind::Dead);
    lemma_moved(stats, from.kind(), to.kind(), StateKind::NotNeeded);
}

/// When a peer changes its state, the counts of the torrent and those of the session change alike.
/// The outgoing address of the peer is listed if the peer goes live and was ever connected to from
/// here, is taken off the list if it only stops being live, and else stays as it was. No other address
/// is touched, and no channel.
pub proof fn law_changing_state_touches_one_address(
    counts: PeerStatesView,
    peer: PeerView,
    to: PeerState,
    addr: SocketAddr,
)
    ensures
        ({
            let after = peer.counts_after(counts, to.kind());
            let before = counts.live_outgoing_peers.contains(addr);
            let listed = after.live_outgoing_peers.contains(addr);
            &&& after.stats == counts.stats.moved(peer.state.kind(), to.kind())
            &&& after.session_stats == counts.session_stats.moved(peer.state.kind(), to.kind())
            &&& after.channels == counts.channels
            &&& peer.outgoing_address != Some(addr) ==> listed == before
            &&& peer.outgoing_address == Some(addr) ==> {
                &&& to is Live && peer.stats.counters.outgoing_connections > 0 ==> listed
                &&& to is Live && peer.stats.counters.outgoing_connections == 0 ==> listed == (before
                    && !(peer.state is Live))
                &&& !(to is Live) && peer.state is Live ==> !listed
                &&& !(to is Live) && !(peer.state is Live) ==> listed == before
            }
        }),
{
}

/// A peer that comes is counted in the torrent and in the session alike; no address is listed for it, and
/// no channel is opened.
pub proof fn law_entering_lists_no_address(counts: PeerStatesView, state: PeerState)
    ensures
        counts.entered(state.kind()).stats == counts.stats.one_more(state.kind()),
        counts.entered(state.kind()).session_stats == counts.session_stats.one_more(state.kind()),
        counts.entered(state.kind()).live_outgoing_peers == counts.live_outgoing_peers,
        counts.entered(state.kind()).channels == counts.channels,
{
}

/// A peer that is ended is counted no more in the torrent and in the session alike. If it was live, its
/// outgoing address is listed no more. No other address is touched, and no channel.
pub proof fn law_leaving_touches_one_address(
    counts: PeerStatesView,
    peer: PeerView,
    addr: SocketAddr,
)
    ensures
        ({
            let after = counts.left(peer.state.kind(), peer.outgoing_address);
            let before = counts.live_outgoing_peers.contains(addr);
            &&& after.stats == counts.stats.one_less(peer.state.kind())
            &&& after.session_stats == counts.session_stats.one_less(peer.state.kind())
            &&& after.channels == counts.channels
            &&& after.live_outgoing_peers.contains(addr) <==> before && !(peer.state is Live
                && peer.outgoing_address == Some(addr))
        }),
{
}

/// A peer that comes and is ended in the same state leaves every count as it was.
pub proof fn law_come_and_gone(stats: AggregatePeerStats, state: PeerState)
    ensures
        stats.one_more(state.kind()).one_less(state.kind()) == stats,
{
}

/// To open a channel adds it to the channels, and changes no count and no address.
pub proof fn law_channel_changes_no_count(counts: PeerStatesView, channel: int, other: int)
    ensures
        ({
            let after = counts.with_channel(channel);
            &&& after.channels.contains(channel)
            &&& other != channel ==> (after.channels.contains(other) <==> counts.channels.contains(
                other,
            ))
            &&& after.stats == counts.stats
            &&& after.session_stats == counts.session_stats
            &&& after.live_outgoing_peers == counts.live_outgoing_peers
        }),
{
}

/// A peer that changes its state is the same peer otherwise.
pub proof fn law_state_is_all_that_changes(peer: PeerView, state: PeerState)
    ensures
        peer.in_state(state).state == state,
        peer.in_state(state).addr == peer.addr,
        peer.in_state(state).stats == peer.stats,
        peer.in_state(state).outgoing_address == peer.outgoing_address,
{
}

/// A peer without a past was never connected to from here, and keeps what was said of its backoff.
pub proof fn law_no_past_no_connections(backoff_config: Option<PeerBackoffConfig>)
    ensures
        PeerStats::fresh(backoff_config).counters.outgoing_connections == 0,
        PeerStats::fresh(backoff_config).backoff_config == backoff_config,
{
}

/// What is kept over all peers stands for its own fields.
pub proof fn law_counts_stand_for_their_fields(counts: PeerStates)
    ensures
        counts@.session_stats == counts.session_stats,
        counts@.stats == counts.stats,
        counts@.live_outgoing_peers == counts.live_outgoing_peers@,
        counts@.channels == counts.channels.opened(),
{
}

} // verus!
