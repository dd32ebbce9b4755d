use rqbit_peer::addr::{AddrSet, SocketAddr, SocketAddrV4, SocketAddrV6};
use rqbit_peer::chunk::{Message, Request, WriterRequest};
use rqbit_peer::live::{ConnectionKind, Id20};
use rqbit_peer::peer::{IncomingConnectionResult, Peer, PeerState};
use rqbit_peer::stats::{AggregatePeerStats, PeerBackoffConfig, PeerStates, PeerStats};
use rqbit_peer::time::Duration;
use rqbit_peer::writer::{PeerTx, WriterChannels};

fn addr(n: u32) -> SocketAddr {
    SocketAddr::V4(SocketAddrV4 { ip: n, port: 6881 })
}

fn counters() -> PeerStates {
    PeerStates::new(AggregatePeerStats {
        queued: 10,
        connecting: 20,
        live: 30,
        dead: 40,
        not_needed: 50,
    })
}

fn cancel(n: u32) -> WriterRequest {
    WriterRequest::Message(Message::Cancel(Request { index: n, begin: 0, length: 1 }))
}

fn sender() -> PeerTx {
    WriterChannels::new().peer_channel().0
}

/// A peer counted as queued.
fn queued(n: u32, counters: &mut PeerStates) -> Peer {
    let peer = Peer::new_with_outgoing_address(addr(n), None);
    counters.stats.inc(peer.get_state());
    counters.session_stats.inc(peer.get_state());
    peer
}

fn counts(stats: &AggregatePeerStats) -> [u32; 5] {
    [stats.queued, stats.connecting, stats.live, stats.dead, stats.not_needed]
}

const IDS: Id20 = Id20([1; 20]);

#[test]
fn names_of_states() {
    assert_eq!(PeerState::default().name(), "queued");
    assert_eq!(PeerState::Queued.name(), "queued");
    assert_eq!(PeerState::Connecting(sender()).name(), "connecting");
    assert_eq!(PeerState::Dead.name(), "dead");
    assert_eq!(PeerState::NotNeeded.name(), "not needed");
    let mut c = counters();
    let peer = Peer::new_live_for_incoming_connection(
        addr(1),
        IDS,
        sender(),
        &mut c,
        ConnectionKind::Tcp,
    );
    assert_eq!(peer.get_state().name(), "live");
}

#[test]
fn reason_of_a_refusal() {
    assert_eq!(IncomingConnectionResult::AlreadyActive.message(), "peer already active");
}

#[test]
fn live_is_taken_only_out_of_a_live_state() {
    let mut c = counters();
    let mut peer = Peer::new_live_for_incoming_connection(
        addr(1),
        IDS,
        sender(),
        &mut c,
        ConnectionKind::Socks,
    );
    let state = peer.take_state(&mut c);
    let live = state.take_live_no_counters();
    assert_eq!(live.map(|l| l.connection_kind), Some(ConnectionKind::Socks));
    assert!(PeerState::Dead.take_live_no_counters().is_none());
    assert!(PeerState::Connecting(sender()).take_live_no_counters().is_none());
}

#[test]
fn an_incoming_peer_is_counted_as_live() {
    let mut c = counters();
    let peer = Peer::new_live_for_incoming_connection(
        addr(1),
        IDS,
        sender(),
        &mut c,
        ConnectionKind::Tcp,
    );
    assert_eq!(counts(&c.stats), [0, 0, 1, 0, 0]);
    assert_eq!(counts(&c.session_stats), [10, 20, 31, 40, 50]);
    assert_eq!(peer.addr, addr(1));
    assert_eq!(peer.outgoing_address, None);
    assert_eq!(peer.stats.counters.outgoing_connections, 0);
    assert!(peer.get_live().unwrap().peer_interested);
    assert!(!c.live_outgoing_peers.contains(&addr(1)));
    peer.destroy(&mut c);
    assert_eq!(counts(&c.stats), [0, 0, 0, 0, 0]);
    assert_eq!(counts(&c.session_stats), [10, 20, 30, 40, 50]);
}

#[test]
fn an_outgoing_peer_is_queued() {
    let interval = Duration { secs: 10, nanos: 0 };
    let config = PeerBackoffConfig {
        initial_interval: interval,
        multiplier: 6,
        max_interval: interval,
        max_elapsed_time: None,
    };
    let peer = Peer::new_with_outgoing_address(addr(1), Some(config));
    assert!(matches!(peer.get_state(), PeerState::Queued));
    assert_eq!(peer.outgoing_address, Some(addr(1)));
    assert_eq!(peer.stats.backoff_config.map(|b| b.multiplier), Some(6));
    assert!(PeerStats::default().backoff_config.is_none());
    assert!(peer.get_live().is_none());
}

#[test]
fn the_way_of_an_outgoing_peer() {
    let mut c = counters();
    let mut peer = queued(1, &mut c);
    assert_eq!(counts(&c.stats), [1, 0, 0, 0, 0]);

    let (mut rx, tx) = peer.idle_to_connecting(&mut c).unwrap();
    assert!(matches!(peer.get_state(), PeerState::Connecting(_)));
    assert_eq!(counts(&c.stats), [0, 1, 0, 0, 0]);
    assert!(peer.idle_to_connecting(&mut c).is_none());

    peer.stats.counters.outgoing_connections = 1;
    let live = peer.connecting_to_live(IDS, &mut c, ConnectionKind::Utp).unwrap();
    assert!(!live.peer_interested);
    assert!(live.am_choking);
    assert_eq!(live.connection_kind, ConnectionKind::Utp);
    // Both ways to the writing task lead to the receiver that was given out.
    assert!(rx.is_empty());
    assert!(tx.sender().send(cancel(1)).is_ok());
    assert!(live.tx.sender().send(cancel(2)).is_ok());
    assert_eq!(rx.try_recv().unwrap(), cancel(1));
    assert_eq!(rx.try_recv().unwrap(), cancel(2));
    live.last_rechoke_fetched = 77;
    assert_eq!(counts(&c.stats), [0, 0, 1, 0, 0]);
    assert_eq!(counts(&c.session_stats), [10, 20, 31, 40, 50]);
    assert!(c.live_outgoing_peers.contains(&addr(1)));
    assert_eq!(peer.get_live().unwrap().last_rechoke_fetched, 77);
    peer.get_live_mut().unwrap().last_rechoke_fetched = 78;
    assert_eq!(peer.get_live().unwrap().last_rechoke_fetched, 78);
    assert!(peer.connecting_to_live(IDS, &mut c, ConnectionKind::Utp).is_none());

    let before = peer.set_not_needed(&mut c);
    assert_eq!(before.name(), "live");
    assert!(peer.get_live_mut().is_none());
    assert_eq!(counts(&c.stats), [0, 0, 0, 0, 1]);
    assert!(!c.live_outgoing_peers.contains(&addr(1)));

    assert_eq!(peer.reconnect_not_needed_peer(&mut c), Some(addr(1)));
    assert_eq!(counts(&c.stats), [1, 0, 0, 0, 0]);
    assert_eq!(peer.reconnect_not_needed_peer(&mut c), None);
    assert!(peer.idle_to_connecting(&mut c).is_some());
    assert_eq!(peer.reconnect_not_needed_peer(&mut c), None);
    assert_eq!(counts(&c.session_stats), [10, 21, 30, 40, 50]);
}

#[test]
fn a_clone_feeds_the_same_channel() {
    let (tx, mut rx) = WriterChannels::new().peer_channel();
    let other = tx.clone();
    assert!(tx.sender().same_channel(&other.sender()));
    assert!(!tx.sender().same_channel(&sender().sender()));
    assert!(rx.is_empty());
    assert!(other.sender().send(cancel(1)).is_ok());
    assert_eq!(rx.try_recv(), Ok(cancel(1)));
}

#[test]
fn each_attempt_to_connect_has_a_channel_of_its_own() {
    let mut c = counters();
    let mut first = queued(1, &mut c);
    let mut second = queued(2, &mut c);
    let (mut rx_1, tx_1) = first.idle_to_connecting(&mut c).unwrap();
    let (mut rx_2, tx_2) = second.idle_to_connecting(&mut c).unwrap();
    assert!(rx_1.is_empty() && rx_2.is_empty());
    assert!(!tx_1.sender().same_channel(&tx_2.sender()));
    assert!(tx_1.sender().send(cancel(1)).is_ok());
    assert!(rx_2.try_recv().is_err());
    assert_eq!(rx_1.try_recv(), Ok(cancel(1)));

    // The next attempt of the same peer does not share the channel of the last one.
    first.set_not_needed(&mut c);
    let (rx_3, tx_3) = first.idle_to_connecting(&mut c).unwrap();
    assert!(rx_3.is_empty());
    assert!(!tx_3.sender().same_channel(&tx_1.sender()));
}

#[test]
fn peers_and_counts_can_be_shared_between_threads() {
    fn is_send<T: Send>() {}
    is_send::<Peer>();
    is_send::<PeerStates>();
}

#[test]
fn another_address_and_past_can_be_noted() {
    let mut c = counters();
    let mut peer = queued(1, &mut c);
    peer.set_outgoing_address(Some(addr(5)));
    let mut stats = PeerStats::default();
    stats.counters.outgoing_connections = 2;
    peer.set_stats(stats);
    assert!(peer.incoming_connection(IDS, sender(), &mut c, ConnectionKind::Tcp).is_ok());
    assert!(c.live_outgoing_peers.contains(&addr(5)));
    assert!(!c.live_outgoing_peers.contains(&addr(1)));
    // A live peer is listed again when its state is put back.
    let state = peer.take_state(&mut c);
    assert!(!c.live_outgoing_peers.contains(&addr(5)));
    peer.set_state(state, &mut c);
    assert!(c.live_outgoing_peers.contains(&addr(5)));
    assert_eq!(counts(&c.stats), [0, 0, 1, 0, 0]);
}

#[test]
fn a_live_peer_never_connected_to_is_not_listed() {
    let mut c = counters();
    let mut peer = queued(1, &mut c);
    peer.idle_to_connecting(&mut c).unwrap();
    assert!(peer.connecting_to_live(IDS, &mut c, ConnectionKind::Tcp).is_some());
    assert!(!c.live_outgoing_peers.contains(&addr(1)));
    assert_eq!(counts(&c.stats), [0, 0, 1, 0, 0]);
}

#[test]
fn a_live_peer_that_is_ended_is_unlisted() {
    let mut c = counters();
    let mut other = queued(2, &mut c);
    other.stats.counters.outgoing_connections = 3;
    assert!(other.incoming_connection(IDS, sender(), &mut c, ConnectionKind::Tcp).is_ok());
    let mut peer = queued(1, &mut c);
    peer.stats.counters.outgoing_connections = 1;
    assert!(peer.incoming_connection(IDS, sender(), &mut c, ConnectionKind::Tcp).is_ok());
    assert!(c.live_outgoing_peers.contains(&addr(1)));
    assert!(c.live_outgoing_peers.contains(&addr(2)));
    peer.destroy(&mut c);
    assert!(!c.live_outgoing_peers.contains(&addr(1)));
    assert!(c.live_outgoing_peers.contains(&addr(2)));
    assert_eq!(counts(&c.stats), [0, 0, 1, 0, 0]);
}

#[test]
fn peers_with_one_outgoing_address_unlist_each_other() {
    let mut c = counters();
    let mut first = queued(1, &mut c);
    let mut second = queued(1, &mut c);
    for peer in [&mut first, &mut second] {
        peer.stats.counters.outgoing_connections = 1;
        assert!(peer.incoming_connection(IDS, sender(), &mut c, ConnectionKind::Tcp).is_ok());
    }
    first.set_state(PeerState::Dead, &mut c);
    assert!(second.get_live().is_some());
    assert!(!c.live_outgoing_peers.contains(&addr(1)));
}

#[test]
fn incoming_connections_of_idle_peers_are_taken() {
    for state in [PeerState::Queued, PeerState::Dead, PeerState::NotNeeded] {
        let mut c = counters();
        let mut peer = queued(1, &mut c);
        peer.set_state(state, &mut c);
        assert_eq!(
            peer.incoming_connection(IDS, sender(), &mut c, ConnectionKind::Utp),
            Ok(())
        );
        let live = peer.get_live().unwrap();
        assert!(live.peer_interested);
        assert_eq!(live.connection_kind, ConnectionKind::Utp);
        assert_eq!(counts(&c.stats), [0, 0, 1, 0, 0]);
        assert_eq!(counts(&c.session_stats), [10, 20, 31, 40, 50]);
    }
}

#[test]
fn incoming_connections_of_active_peers_are_refused() {
    let mut c = counters();
    let mut peer = queued(1, &mut c);
    peer.idle_to_connecting(&mut c).unwrap();
    assert_eq!(
        peer.incoming_connection(IDS, sender(), &mut c, ConnectionKind::Tcp),
        Err(IncomingConnectionResult::AlreadyActive)
    );
    assert_eq!(counts(&c.stats), [0, 1, 0, 0, 0]);
    assert!(peer.connecting_to_live(IDS, &mut c, ConnectionKind::Tcp).is_some());
    assert_eq!(
        peer.incoming_connection(IDS, sender(), &mut c, ConnectionKind::Utp),
        Err(IncomingConnectionResult::AlreadyActive)
    );
    assert_eq!(counts(&c.stats), [0, 0, 1, 0, 0]);
    assert_eq!(peer.get_live().unwrap().connection_kind, ConnectionKind::Tcp);
}

#[test]
fn only_idle_peers_start_to_connect() {
    let mut c = counters();
    let mut peer = queued(1, &mut c);
    peer.set_state(PeerState::Dead, &mut c);
    assert!(peer.idle_to_connecting(&mut c).is_none());
    assert!(peer.connecting_to_live(IDS, &mut c, ConnectionKind::Tcp).is_none());
    assert_eq!(counts(&c.stats), [0, 0, 0, 1, 0]);
    peer.set_not_needed(&mut c);
    assert!(peer.idle_to_connecting(&mut c).is_some());
    assert_eq!(counts(&c.stats), [0, 1, 0, 0, 0]);
}

#[test]
fn a_peer_not_needed_with_another_address_is_left_alone() {
    let mut c = counters();
    let mut peer = queued(1, &mut c);
    peer.set_not_needed(&mut c);
    peer.outgoing_address = Some(addr(9));
    assert_eq!(peer.reconnect_not_needed_peer(&mut c), Some(addr(9)));
    assert!(matches!(peer.get_state(), PeerState::NotNeeded));
    peer.outgoing_address = None;
    assert_eq!(peer.reconnect_not_needed_peer(&mut c), None);
    assert_eq!(counts(&c.stats), [0, 0, 0, 0, 1]);
}

#[test]
fn there_and_back_changes_no_count() {
    let mut c = counters();
    let mut peer = queued(1, &mut c);
    let before = c.stats;
    peer.set_state(PeerState::Dead, &mut c);
    assert_eq!(counts(&c.stats), [0, 0, 0, 1, 0]);
    peer.set_state(PeerState::Queued, &mut c);
    assert_eq!(c.stats, before);
    peer.set_state(PeerState::Queued, &mut c);
    assert_eq!(c.stats, before);
}

#[test]
fn counts_wrap_around() {
    let mut stats = AggregatePeerStats::new();
    stats.dec(&PeerState::Dead);
    assert_eq!(stats.dead, u32::MAX);
    stats.inc(&PeerState::Dead);
    assert_eq!(stats.dead, 0);
    stats.incdec(&PeerState::Dead, &PeerState::NotNeeded);
    assert_eq!(counts(&stats), [0, 0, 0, u32::MAX, 1]);
}

#[test]
fn sets_of_addresses() {
    let mut set = AddrSet::new();
    let v6 = |scope_id: u32| {
        SocketAddr::V6(SocketAddrV6 { ip: 1, port: 6881, flowinfo: 0, scope_id })
    };
    assert!(set.insert(v6(1)));
    assert!(!set.insert(v6(1)));
    assert!(set.insert(v6(2)));
    assert!(set.insert(addr(1)));
    assert!(set.remove(&v6(1)));
    assert!(!set.remove(&v6(1)));
    assert!(set.contains(&v6(2)) && set.contains(&addr(1)));
    assert!(!set.contains(&v6(1)) && !set.contains(&addr(2)));
}
