use rqbit_peer::chunk::{ChunkInfo, Message, Request, ValidPieceIndex, WriterRequest};
use rqbit_peer::live::{BF, ConnectionKind, Id20, LivePeerState, RemoveInflightRequestResult};
use rqbit_peer::time::{Clock, Duration, Instant};
use rqbit_peer::writer::{PeerRx, WriterChannels};
use std::future::Future;
use std::task::{Context, Waker};

const MS: u32 = 1_000_000;

fn chunk(piece: u32, n: u32) -> ChunkInfo {
    ChunkInfo {
        piece_index: ValidPieceIndex { index: piece },
        chunk_index: n,
        absolute_index: piece * 16 + n,
        size: 16384,
        offset: n * 16384,
    }
}

fn at(secs: u64) -> Instant {
    Instant { nanos: u128::from(secs) * 1_000_000_000 }
}

fn secs(secs: u64) -> Duration {
    Duration { secs, nanos: 0 }
}

fn live_peer() -> (LivePeerState, PeerRx) {
    let (tx, rx) = WriterChannels::new().peer_channel();
    (LivePeerState::new(Id20([7; 20]), tx, true, ConnectionKind::Utp), rx)
}

fn drain(rx: &mut PeerRx) -> Vec<Request> {
    let mut res = Vec::new();
    while let Ok(request) = rx.try_recv() {
        match request {
            WriterRequest::Message(Message::Cancel(r)) => res.push(r),
            other => panic!("unexpected request: {other:?}"),
        }
    }
    res
}

/// Whether someone who waited for a slot from before `f` on is woken by it.
fn wakes(live: &mut LivePeerState, f: impl FnOnce(&mut LivePeerState)) -> bool {
    let notify = live.request_slots_changed();
    let mut waiting = Box::pin(notify.notified());
    let mut cx = Context::from_waker(Waker::noop());
    assert!(waiting.as_mut().poll(&mut cx).is_pending());
    f(live);
    waiting.as_mut().poll(&mut cx).is_ready()
}

#[test]
fn a_new_live_peer() {
    let (live, _rx) = live_peer();
    assert!(live.client_name.is_none());
    assert!(live.peer_interested);
    assert!(live.am_choking);
    assert!(live.bitfield.bits.is_empty());
    assert_eq!(live.connection_kind, ConnectionKind::Utp);
    assert_eq!(live.last_rechoke_uploaded, 0);
    assert_eq!(live.last_rechoke_fetched, 0);
    assert_eq!(live.requested_inflight_count(), 0);
    assert_eq!(live.chunk_timeouts(), 0);
    assert_eq!(live.late_cancelled_request_tolerance(), 0);
    assert!(!live.is_snubbed(at(0)));
}

#[test]
fn full_torrent() {
    let (mut live, _rx) = live_peer();
    assert!(live.has_full_torrent(0));
    assert!(!live.has_full_torrent(1));
    live.set_bitfield(BF { bits: vec![true, true, false, true] });
    assert!(live.has_full_torrent(0));
    assert!(live.has_full_torrent(2));
    assert!(!live.has_full_torrent(3));
    assert!(!live.has_full_torrent(4));
    live.bitfield = BF { bits: vec![true, true, true, true] };
    assert!(live.has_full_torrent(4));
    assert!(!live.has_full_torrent(5));
}

#[test]
fn a_chunk_is_new_only_once() {
    let (mut live, _rx) = live_peer();
    assert!(live.add_inflight_request_at(chunk(1, 0), at(1)));
    assert!(!live.add_inflight_request_at(chunk(1, 0), at(2)));
    assert!(live.add_inflight_request_at(chunk(1, 1), at(2)));
    assert_eq!(live.requested_inflight_count(), 2);
    let mut keys = live.inflight_requests();
    keys.sort_by_key(|c| c.chunk_index);
    assert_eq!(keys, vec![chunk(1, 0), chunk(1, 1)]);
    let requests = live.inflight_requests_debug();
    assert_eq!(requests.len(), 2);
    assert_eq!(requests.get(&chunk(1, 0)), Some(at(2)));
    assert_eq!(requests.get(&chunk(2, 0)), None);
}

#[test]
fn chunks_that_differ_in_any_field_are_different() {
    let (mut live, _rx) = live_peer();
    let first = chunk(1, 0);
    let others = [
        ChunkInfo { piece_index: ValidPieceIndex { index: 2 }, ..first },
        ChunkInfo { chunk_index: 5, ..first },
        ChunkInfo { absolute_index: 5, ..first },
        ChunkInfo { size: 5, ..first },
        ChunkInfo { offset: 5, ..first },
    ];
    assert!(live.add_inflight_request_at(first, at(1)));
    for other in others {
        assert!(live.add_inflight_request_at(other, at(1)));
    }
    assert_eq!(live.requested_inflight_count(), 6);
}

#[test]
fn a_request_repeated_starts_anew() {
    let (mut live, _rx) = live_peer();
    live.add_inflight_request_at(chunk(1, 0), at(1));
    live.add_inflight_request_at(chunk(1, 0), at(20));
    assert!(live.expire_inflight_requests_at(at(30), secs(25)).is_empty());
    assert_eq!(live.expire_inflight_requests_at(at(46), secs(25)), vec![chunk(1, 0)]);
}

#[test]
fn an_arrival_is_expected_once() {
    let (mut live, _rx) = live_peer();
    live.add_inflight_request_at(chunk(1, 0), at(1));
    assert_eq!(
        live.remove_inflight_request(&chunk(1, 0)),
        RemoveInflightRequestResult::Expected
    );
    assert_eq!(live.requested_inflight_count(), 0);
    assert_eq!(
        live.remove_inflight_request(&chunk(1, 0)),
        RemoveInflightRequestResult::Unexpected
    );
}

#[test]
fn cancel_tells_the_peer_and_excuses_what_was_on_the_way() {
    let (mut live, mut rx) = live_peer();
    live.add_inflight_request_at(chunk(1, 0), at(1));
    live.add_inflight_request_at(chunk(2, 0), at(1));
    live.add_inflight_request_at(chunk(1, 1), at(1));
    live.cancel_inflight_requests_for_piece(ValidPieceIndex { index: 1 });
    let mut cancels = drain(&mut rx);
    cancels.sort_by_key(|r| r.begin);
    assert_eq!(
        cancels,
        vec![
            Request { index: 1, begin: 0, length: 16384 },
            Request { index: 1, begin: 16384, length: 16384 },
        ]
    );
    assert_eq!(live.late_cancelled_request_tolerance(), 2);
    assert_eq!(live.inflight_requests(), vec![chunk(2, 0)]);

    assert_eq!(
        live.remove_inflight_request(&chunk(1, 1)),
        RemoveInflightRequestResult::LateCanceled
    );
    assert_eq!(
        live.remove_inflight_request(&chunk(2, 0)),
        RemoveInflightRequestResult::Expected
    );
    // Any chunk is excused, not just one that was cancelled.
    assert_eq!(
        live.remove_inflight_request(&chunk(9, 9)),
        RemoveInflightRequestResult::LateCanceled
    );
    assert_eq!(
        live.remove_inflight_request(&chunk(1, 0)),
        RemoveInflightRequestResult::Unexpected
    );
    assert_eq!(live.late_cancelled_request_tolerance(), 0);
}

#[test]
fn the_way_to_the_writer_carries_other_requests_too() {
    let (mut live, mut rx) = live_peer();
    let tx = live.tx.sender();
    assert!(tx.send(WriterRequest::Message(Message::Unchoke)).is_ok());
    live.add_inflight_request_at(chunk(1, 0), at(1));
    live.cancel_inflight_requests_for_piece(ValidPieceIndex { index: 1 });
    assert!(tx.send(WriterRequest::ReadChunkRequest(chunk(3, 0))).is_ok());
    assert!(tx.send(WriterRequest::Disconnect).is_ok());
    assert_eq!(rx.try_recv(), Ok(WriterRequest::Message(Message::Unchoke)));
    let cancelled = Request { index: 1, begin: 0, length: 16384 };
    assert_eq!(rx.try_recv(), Ok(WriterRequest::Message(Message::Cancel(cancelled))));
    assert_eq!(rx.try_recv(), Ok(WriterRequest::ReadChunkRequest(chunk(3, 0))));
    assert_eq!(rx.try_recv(), Ok(WriterRequest::Disconnect));
    assert!(rx.try_recv().is_err());
    assert_eq!(live.late_cancelled_request_tolerance(), 1);
}

#[test]
fn cancel_without_a_listener_still_excuses() {
    let (mut live, rx) = live_peer();
    drop(rx);
    live.add_inflight_request_at(chunk(1, 0), at(1));
    live.cancel_inflight_requests_for_piece(ValidPieceIndex { index: 1 });
    assert_eq!(live.requested_inflight_count(), 0);
    assert_eq!(live.late_cancelled_request_tolerance(), 1);
}

#[test]
fn cancel_of_a_piece_not_requested_does_nothing() {
    let (mut live, mut rx) = live_peer();
    live.add_inflight_request_at(chunk(2, 0), at(1));
    assert!(!wakes(&mut live, |l| {
        l.cancel_inflight_requests_for_piece(ValidPieceIndex { index: 1 })
    }));
    assert!(drain(&mut rx).is_empty());
    assert_eq!(live.late_cancelled_request_tolerance(), 0);
    assert_eq!(live.requested_inflight_count(), 1);
}

#[test]
fn waiters_are_woken_when_a_slot_is_freed() {
    let (mut live, _rx) = live_peer();
    assert!(!wakes(&mut live, |l| {
        l.add_inflight_request_at(chunk(1, 0), at(1));
        l.add_inflight_request_at(chunk(1, 1), at(1));
        l.add_inflight_request_at(chunk(2, 0), at(1));
    }));
    assert!(wakes(&mut live, |l| {
        l.remove_inflight_request(&chunk(1, 0));
    }));
    assert!(!wakes(&mut live, |l| {
        l.remove_inflight_request(&chunk(1, 0));
    }));
    assert!(wakes(&mut live, |l| {
        l.cancel_inflight_requests_for_piece(ValidPieceIndex { index: 1 })
    }));
    assert!(!wakes(&mut live, |l| {
        l.expire_inflight_requests_at(at(2), secs(5));
    }));
    assert!(wakes(&mut live, |l| {
        l.expire_inflight_requests_at(at(9), secs(5));
    }));
    assert!(!wakes(&mut live, |l| l.record_timeout_at(at(9), secs(5))));
}

#[test]
fn expiry_takes_what_is_outstanding_for_longer() {
    let (mut live, _rx) = live_peer();
    live.add_inflight_request_at(chunk(1, 0), at(10));
    live.add_inflight_request_at(chunk(1, 1), at(11));
    live.add_inflight_request_at(chunk(1, 2), at(12));
    live.add_inflight_request_at(chunk(1, 3), at(99));
    // Outstanding for 25 s, for 24 s, for 23 s, and not yet by this reading.
    assert!(live.expire_inflight_requests_at(at(35), secs(25)).is_empty());
    let expired =
        live.expire_inflight_requests_at(at(35), Duration { secs: 23, nanos: 500 * MS });
    assert_eq!(expired.len(), 2);
    assert!(expired.contains(&chunk(1, 0)) && expired.contains(&chunk(1, 1)));
    assert_eq!(live.requested_inflight_count(), 2);
    assert!(live
        .expire_inflight_requests_at(at(35), Duration { secs: 23, nanos: 500 * MS })
        .is_empty());
    assert_eq!(live.late_cancelled_request_tolerance(), 0);
    assert_eq!(
        live.remove_inflight_request(&chunk(1, 0)),
        RemoveInflightRequestResult::Unexpected
    );
}

#[test]
fn snub_holds_until_its_end() {
    let (mut live, _rx) = live_peer();
    live.record_timeout_at(at(100), secs(60));
    assert_eq!(live.chunk_timeouts(), 1);
    assert!(live.is_snubbed(at(100)));
    assert!(live.is_snubbed(Instant { nanos: at(160).nanos - 1 }));
    assert!(!live.is_snubbed(at(160)));
    live.record_timeout_at(at(110), Duration { secs: 1, nanos: 5 });
    assert_eq!(live.chunk_timeouts(), 2);
    assert!(live.is_snubbed(Instant { nanos: at(111).nanos + 4 }));
    assert!(!live.is_snubbed(Instant { nanos: at(111).nanos + 5 }));
}

#[test]
fn the_clock_goes_forward() {
    let mut clock = Clock::start();
    let first = clock.now();
    let mut later = clock.now();
    while later.nanos == first.nanos {
        later = clock.now();
    }
    assert!(later.nanos > first.nanos);
    assert!(later.nanos_since(&first) > 0);
    assert_eq!(first.nanos_since(&later), 0);
}

#[test]
fn a_clock_counts_from_its_origin() {
    let origin = std::time::Instant::now();
    let mut started = Clock::start();
    while origin.elapsed().as_millis() < 5 {}
    let mut clock = Clock::from_origin(origin);
    let before = origin.elapsed().as_nanos();
    let now = clock.now().nanos;
    let after = origin.elapsed().as_nanos();
    assert!(before <= now && now <= after);
    // A clock started after the origin shows less than the time since the origin.
    assert!(started.now().nanos <= origin.elapsed().as_nanos());
    assert!(started.now().nanos > 0);
    // A copy counts from the same origin.
    let mut copy = clock;
    assert!(copy.now().nanos >= now);
}

#[test]
fn points_from_elapsed_time() {
    assert_eq!(Instant::from_elapsed(Duration { secs: 3, nanos: 7 }).nanos, 3_000_000_007);
    assert_eq!(Instant::from_elapsed(secs(0)), at(0));
    assert_eq!(Instant::from_elapsed(secs(9)), at(9));
}

#[test]
fn requests_by_the_clock() {
    let mut clock = Clock::start();
    let (mut live, _rx) = live_peer();
    let before = clock.now();
    assert!(live.add_inflight_request(chunk(1, 0), &mut clock));
    let noted = live.inflight_requests_debug().get(&chunk(1, 0)).unwrap();
    assert!(before.nanos <= noted.nanos && noted.nanos <= clock.now().nanos);
    assert!(!live.add_inflight_request(chunk(1, 0), &mut clock));
    assert!(live.expire_inflight_requests(secs(3600), &mut clock).is_empty());
    let start = clock.now();
    while clock.now().nanos_since(&start) < 5 * u128::from(MS) {}
    assert_eq!(
        live.expire_inflight_requests(Duration { secs: 0, nanos: MS }, &mut clock),
        vec![chunk(1, 0)]
    );
    live.record_timeout(secs(3600), &mut clock);
    assert_eq!(live.chunk_timeouts(), 1);
    assert!(live.is_snubbed(clock.now()));
    live.record_timeout(Duration { secs: 0, nanos: 0 }, &mut clock);
    assert!(!live.is_snubbed(clock.now()));
}

#[test]
fn durations_in_nanoseconds() {
    assert_eq!(Duration { secs: 2, nanos: 3 }.as_nanos(), 2_000_000_003);
    assert_eq!(
        Duration { secs: u64::MAX, nanos: 999_999_999 }.as_nanos(),
        std::time::Duration::MAX.as_nanos()
    );
}
