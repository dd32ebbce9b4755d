//! A peer with which there is a connection.

use crate::chunk::{ChunkInfo, ValidPieceIndex, WriterRequest};
use crate::inflight::{lists, of_piece, outstanding_longer, InflightRequests};
use crate::signal::Signal;
use crate::time::{Clock, Duration, Instant};
use crate::writer::PeerTx;
use std::sync::Arc;
use tokio::sync::Notify;
use vstd::prelude::*;

verus! {

/// The name that a peer gives itself.
#[derive(Clone, Copy, Debug)]
pub struct Id20(pub [u8; 20]);

/// How a peer is connected.
#[derive(Clone, Copy, Debug, PartialEq, Eq, Structural)]
pub enum ConnectionKind {
    Tcp,
    Utp,
    Socks,
}

/// Which pieces a peer has: one bit for each.
#[derive(Debug)]
pub struct BF {
    pub bits: Vec<bool>,
}

impl BF {
    /// Whether the first `n` bits are there, and all are set.
    pub fn all_in(&self, n: usize) -> (res: bool)
        ensures
            res == (n <= self.bits@.len() && forall|i: int| 0 <= i < n ==> #[trigger] self.bits@[i]),
    {
        if n > self.bits.len() {
            return false;
        }
        let mut i: usize = 0;
        while i < n
            invariant
                i <= n <= self.bits@.len(),
                forall|j: int| 0 <= j < i ==> #[trigger] self.bits@[j],
            decreases n - i,
        {
            if !self.bits[i] {
                return false;
            }
            i = i + 1;
        }
        true
    }
}

impl Default for BF {
    /// No bits.
    fn default() -> (res: BF)
        ensures
            res.bits@ == Seq::<bool>::empty(),
    {
        BF { bits: Vec::new() }
    }
}

/// What became of the request for a chunk that has arrived.
#[derive(Clone, Copy, Debug, PartialEq, Eq, Structural)]
pub enum RemoveInflightRequestResult {
    /// It was outstanding.
    Expected,
    /// It was not, but a cancelled request may explain it.
    LateCanceled,
    /// It was not, and nothing explains it.
    Unexpected,
}

/// The dealings with a live peer.
pub struct LivePeerState {
    peer_id: Id20,
    pub client_name: Option<String>,
    pub peer_interested: bool,
    /// The pieces that the peer has.
    pub bitfield: BF,
    /// The chunks requested of this peer and when, so that a request that stalls can be timed out
    /// and made elsewhere.
    inflight_requests: InflightRequests,
    /// When set, no new pieces are requested of this peer until then.
    snubbed_until: Option<Instant>,
    chunk_timeouts: u32,
    /// How many chunks may still arrive unrequested because a cancel crossed them on the way. This
    /// is a count and not a list of the cancelled chunks, so it excuses any chunk.
    late_cancelled_request_tolerance: u32,
    request_slots_changed: Signal,
    /// The way to the task that writes to the peer.
    pub tx: PeerTx,
    pub connection_kind: ConnectionKind,
    /// Whether this side chokes the peer.
    pub am_choking: bool,
    /// Bytes sent to the peer up to the last round of choking.
    pub last_rechoke_uploaded: u64,
    /// Bytes got from the peer up to the last round of choking.
    pub last_rechoke_fetched: u64,
}

/// What a [`LivePeerState`] stands for.
#[verifier::ext_equal]
pub struct LivePeerView {
    pub peer_id: Id20,
    pub client_name: Option<String>,
    pub peer_interested: bool,
    pub bitfield: Seq<bool>,
    /// The outstanding requests, each with the time at which it was made.
    pub inflight: Map<ChunkInfo, Instant>,
    pub snubbed_until: Option<Instant>,
    pub chunk_timeouts: nat,
    pub late_cancelled_request_tolerance: nat,
    /// What tasks wait on for a free request slot.
    pub slots_notify: Arc<Notify>,
    /// How often those tasks were signalled.
    pub slots_signalled: nat,
    /// The channel to the writing task.
    pub channel: int,
    /// What was handed to `send` for that task, the first request first, with what it refused.
    pub sent: Seq<WriterRequest>,
    pub connection_kind: ConnectionKind,
    pub am_choking: bool,
    pub last_rechoke_uploaded: u64,
    pub last_rechoke_fetched: u64,
}

impl LivePeerView {
    /// A peer that has just become live: it is choked, nothing is requested of it, and it is not
    /// known to have anything. Tasks will wait on `slots_notify` for a free request slot.
    pub open spec fn fresh(
        peer_id: Id20,
        tx: PeerTx,
        initial_interested: bool,
        connection_kind: ConnectionKind,
        slots_notify: Arc<Notify>,
    ) -> LivePeerView {
        LivePeerView {
            peer_id,
            client_name: None,
            peer_interested: initial_interested,
            bitfield: Seq::empty(),
            inflight: Map::empty(),
            snubbed_until: None,
            chunk_timeouts: 0,
            late_cancelled_request_tolerance: 0,
            slots_notify,
            slots_signalled: 0,
            channel: tx.channel(),
            sent: tx.sent(),
            connection_kind,
            am_choking: true,
            last_rechoke_uploaded: 0,
            last_rechoke_fetched: 0,
        }
    }

    /// All of the first `total_pieces` pieces are there.
    pub open spec fn has_all(self, total_pieces: nat) -> bool {
        &&& total_pieces <= self.bitfield.len()
        &&& forall|i: int| 0 <= i < total_pieces ==> #[trigger] self.bitfield[i]
    }

    /// The peer is snubbed at `now`.
    pub open spec fn snubbed_at(self, now: Instant) -> bool {
        self.snubbed_until matches Some(until) && until.nanos > now.nanos
    }

    /// `chunk` is requested at `at`.
    pub open spec fn requested(self, chunk: ChunkInfo, at: Instant) -> LivePeerView {
        LivePeerView { inflight: self.inflight.insert(chunk, at), ..self }
    }

    /// What the arrival of `chunk` means.
    pub open spec fn arrival(self, chunk: ChunkInfo) -> RemoveInflightRequestResult {
        if self.inflight.contains_key(chunk) {
            RemoveInflightRequestResult::Expected
        } else if self.late_cancelled_request_tolerance > 0 {
            RemoveInflightRequestResult::LateCanceled
        } else {
            RemoveInflightRequestResult::Unexpected
        }
    }

    /// `chunk` has arrived.
    pub open spec fn arrived(self, chunk: ChunkInfo) -> LivePeerView {
        match self.arrival(chunk) {
            RemoveInflightRequestResult::Expected => self.freed(set![chunk]),
            RemoveInflightRequestResult::LateCanceled => LivePeerView {
                late_cancelled_request_tolerance: (self.late_cancelled_request_tolerance
                    - 1) as nat,
                ..self
            },
            RemoveInflightRequestResult::Unexpected => self,
        }
    }

    /// The slots of `chunks` are free again; if there are any, those who wait for one are told.
    pub open spec fn freed(self, chunks: Set<ChunkInfo>) -> LivePeerView {
        LivePeerView {
            inflight: self.inflight.remove_keys(chunks),
            slots_signalled: if chunks == Set::<ChunkInfo>::empty() {
                self.slots_signalled
            } else {
                self.slots_signalled + 1
            },
            ..self
        }
    }

    /// The requests for the chunks in `order` are cancelled one after the other: each cancel is sent,
    /// and each excuses one late chunk.
    pub open spec fn cancelled(self, order: Seq<ChunkInfo>) -> LivePeerView {
        LivePeerView {
            late_cancelled_request_tolerance: self.late_cancelled_request_tolerance + order.len(),
            sent: self.sent + order.map_values(|chunk: ChunkInfo| chunk.cancel_message()),
            ..self.freed(order.to_set())
        }
    }

    /// The requests outstanding for longer than `timeout` are given up.
    pub open spec fn expired(self, now: Instant, timeout: Duration) -> LivePeerView {
        self.freed(outstanding_longer(self.inflight, now, timeout))
    }

    /// At `now` the peer is snubbed for `duration`.
    pub open spec fn snubbed(self, now: Instant, duration: Duration) -> LivePeerView {
        LivePeerView {
            chunk_timeouts: self.chunk_timeouts + 1,
            snubbed_until: Some(Instant { nanos: (now.nanos + duration.len()) as u128 }),
            ..self
        }
    }
}

/// The members of a list that has grown by one.
proof fn lemma_push_to_set(list: Seq<ChunkInfo>, chunk: ChunkInfo)
    ensures
        list.push(chunk).to_set() == list.to_set().insert(chunk),
{
    let grown = list.push(chunk);
    assert forall|c: ChunkInfo| list.contains(c) implies grown.contains(c) by {
        assert(grown[list.index_of(c)] == c);
    }
    assert(grown[list.len() as int] == chunk);
    assert(grown.to_set() =~= list.to_set().insert(chunk));
}

impl View for LivePeerState {
    type V = LivePeerView;

    closed spec fn view(&self) -> LivePeerView {
        LivePeerView {
            peer_id: self.peer_id,
            client_name: self.client_name,
            peer_interested: self.peer_interested,
            bitfield: self.bitfield.bits@,
            inflight: self.inflight_requests@,
            snubbed_until: self.snubbed_until,
            chunk_timeouts: self.chunk_timeouts as nat,
            late_cancelled_request_tolerance: self.late_cancelled_request_tolerance as nat,
            slots_notify: self.request_slots_changed.notify(),
            slots_signalled: self.request_slots_changed.raised(),
            channel: self.tx.channel(),
            sent: self.tx.sent(),
            connection_kind: self.connection_kind,
            am_choking: self.am_choking,
            last_rechoke_uploaded: self.last_rechoke_uploaded,
            last_rechoke_fetched: self.last_rechoke_fetched,
        }
    }
}

/// What a [`LivePeerState`] stands for is told by its fields, each by its own.
proof fn lemma_stands_for_its_fields(live: LivePeerState)
    ensures
        live@.peer_id == live.peer_id,
        live@.client_name == live.client_name,
        live@.peer_interested == live.peer_interested,
        live@.bitfield == live.bitfield.bits@,
        live@.inflight == live.inflight_requests@,
        live@.snubbed_until == live.snubbed_until,
        live@.chunk_timeouts == live.chunk_timeouts,
        live@.late_cancelled_request_tolerance == live.late_cancelled_request_tolerance,
        live@.slots_notify == live.request_slots_changed.notify(),
        live@.slots_signalled == live.request_slots_changed.raised(),
        live@.channel == live.tx.channel(),
        live@.sent == live.tx.sent(),
        live@.connection_kind == live.connection_kind,
        live@.am_choking == live.am_choking,
        live@.last_rechoke_uploaded == live.last_rechoke_uploaded,
        live@.last_rechoke_fetched == live.last_rechoke_fetched,
{
}

impl LivePeerState {
    /// A peer that has just become live: it is choked, nothing is requested of it, and it is not
    /// known to have anything.
    pub fn new(
        peer_id: Id20,
        tx: PeerTx,
        initial_interested: bool,
        connection_kind: ConnectionKind,
    ) -> (res: LivePeerState)
        ensures
            res@ == LivePeerView::fresh(
                peer_id,
                tx,
                initial_interested,
                connection_kind,
                res@.slots_notify,
            ),
            res@.am_choking,
            res@.peer_interested == initial_interested,
            res@.connection_kind == connection_kind,
            res@.inflight == Map::<ChunkInfo, Instant>::empty(),
            res@.snubbed_until is None,
    {
        let res = LivePeerState {
            peer_id,
            client_name: None,
            peer_interested: initial_interested,
            bitfield: BF::default(),
            inflight_requests: InflightRequests::new(),
            late_cancelled_request_tolerance: 0,
            request_slots_changed: Signal::new(),
            tx,
            connection_kind,
            am_choking: true,
            last_rechoke_uploaded: 0,
            last_rechoke_fetched: 0,
            snubbed_until: None,
            chunk_timeouts: 0,
        };
        proof {
            lemma_stands_for_its_fields(res);
        }
        res
    }

    /// Whether the peer has all of the `total_pieces` pieces of the torrent.
    pub fn has_full_torrent(&self, total_pieces: usize) -> (res: bool)
        ensures
            res == self@.has_all(total_pieces as nat),
            res <==> total_pieces <= self@.bitfield.len() && forall|i: int|
                0 <= i < total_pieces ==> #[trigger] self@.bitfield[i],
    {
        self.bitfield.all_in(total_pieces)
    }

    /// What to wait on for a free request slot.
    pub fn request_slots_changed(&self) -> (res: Arc<Notify>)
        ensures
            res == self@.slots_notify,
    {
        self.request_slots_changed.handle()
    }

    /// Notes which pieces the peer has.
    pub fn set_bitfield(&mut self, bitfield: BF)
        ensures
            final(self)@ == (LivePeerView { bitfield: bitfield.bits@, ..old(self)@ }),
    {
        self.bitfield = bitfield;
    }

    /// How many chunks are requested of the peer.
    pub fn requested_inflight_count(&self) -> (res: usize)
        ensures
            self@.inflight.dom().finite(),
            res == self@.inflight.len(),
    {
        self.inflight_requests.len()
    }

    /// How many unrequested chunks are still excused by cancels.
    pub fn late_cancelled_request_tolerance(&self) -> (res: u32)
        ensures
            res == self@.late_cancelled_request_tolerance,
    {
        self.late_cancelled_request_tolerance
    }

    /// How often [`record_timeout`](LivePeerState::record_timeout) was called.
    pub fn chunk_timeouts(&self) -> (res: u32)
        ensures
            res == self@.chunk_timeouts,
    {
        self.chunk_timeouts
    }

    /// Notes that `chunk` was requested at `now`; returns whether it was not requested already.
    pub fn add_inflight_request_at(&mut self, chunk: ChunkInfo, now: Instant) -> (res: bool)
        ensures
            res == !old(self)@.inflight.contains_key(chunk),
            final(self)@ == old(self)@.requested(chunk, now),
    {
        self.inflight_requests.insert(chunk, now).is_none()
    }

    /// Notes that `chunk` is requested now; returns whether it was not requested already.
    pub fn add_inflight_request(&mut self, chunk: ChunkInfo, clock: &mut Clock) -> (res: bool)
        ensures
            final(clock).advanced_from(*old(clock)),
            res == !old(self)@.inflight.contains_key(chunk),
            final(self)@ == old(self)@.requested(chunk, final(clock).shown()),
    {
        let now = clock.now();
        self.add_inflight_request_at(chunk, now)
    }

    /// Notes that `chunk` has arrived, and says what that means.
    pub fn remove_inflight_request(&mut self, chunk: &ChunkInfo) -> (res:
        RemoveInflightRequestResult)
        ensures
            res == old(self)@.arrival(*chunk),
            final(self)@ == old(self)@.arrived(*chunk),
    {
        if self.inflight_requests.remove(chunk).is_some() {
            self.request_slots_changed.raise();
            assert(self@.inflight =~= old(self)@.inflight.remove_keys(set![*chunk]));
            assert(set![*chunk].contains(*chunk));
            return RemoveInflightRequestResult::Expected;
        }
        assert(self@.inflight =~= old(self)@.inflight);
        if self.late_cancelled_request_tolerance > 0 {
            // This may be any chunk, not just a cancelled one, but there are no more of them than
            // there were cancels.
            self.late_cancelled_request_tolerance = self.late_cancelled_request_tolerance - 1;
            RemoveInflightRequestResult::LateCanceled
        } else {
            RemoveInflightRequestResult::Unexpected
        }
    }

    /// Gives up the requests for chunks of `piece`: the peer is told, and each excuses one chunk that
    /// arrives all the same.
    pub fn cancel_inflight_requests_for_piece(&mut self, piece: ValidPieceIndex)
        requires
            old(self)@.late_cancelled_request_tolerance + of_piece(
                old(self)@.inflight,
                piece,
            ).len() <= u32::MAX,
        ensures
            exists|order: Seq<ChunkInfo>|
                lists(order, of_piece(old(self)@.inflight, piece)) && final(self)@
                    == #[trigger] old(self)@.cancelled(order),
    {
        let chunks = self.inflight_requests.keys_of_piece(piece);
        let ghost before = self@;
        let ghost message = |chunk: ChunkInfo| chunk.cancel_message();
        proof {
            assert(chunks@.take(0) =~= Seq::empty());
            assert(before.inflight.remove_keys(chunks@.take(0).to_set()) =~= before.inflight);
        }
        let mut i: usize = 0;
        while i < chunks.len()
            invariant
                i <= chunks@.len(),
                message == (|chunk: ChunkInfo| chunk.cancel_message()),
                before.late_cancelled_request_tolerance + chunks@.len() <= u32::MAX,
                self@ == (LivePeerView {
                    inflight: before.inflight.remove_keys(chunks@.take(i as int).to_set()),
                    late_cancelled_request_tolerance: (before.late_cancelled_request_tolerance + i) as nat,
                    sent: before.sent + chunks@.take(i as int).map_values(message),
                    ..before
                }),
            decreases chunks@.len() - i,
        {
            let chunk = chunks[i];
            let _ = self.tx.send(chunk.to_cancel_message());
            let _ = self.inflight_requests.remove(&chunk);
            self.late_cancelled_request_tolerance = self.late_cancelled_request_tolerance + 1;
            proof {
                let done = chunks@.take(i as int);
                let next = chunks@.take(i + 1);
                assert(next =~= done.push(chunk));
                assert(next.map_values(message) =~= done.map_values(message).push(message(chunk)));
                lemma_push_to_set(done, chunk);
                assert(self@.inflight =~= before.inflight.remove_keys(next.to_set()));
                assert(self@.sent =~= before.sent + next.map_values(message));
            }
            i = i + 1;
        }
        assert(chunks@.take(i as int) =~= chunks@);
        if chunks.len() > 0 {
            self.request_slots_changed.raise();
            assert(chunks@.to_set().contains(chunks@[0]));
        } else {
            assert(chunks@.to_set() =~= Set::empty());
        }
        assert(self@ =~= before.cancelled(chunks@));
    }

    /// The chunks that are requested of the peer.
    pub fn inflight_requests(&self) -> (res: Vec<ChunkInfo>)
        ensures
            lists(res@, self@.inflight.dom()),
    {
        self.inflight_requests.keys()
    }

    /// The requests themselves, to be shown.
    pub fn inflight_requests_debug(&self) -> (res: &InflightRequests)
        ensures
            res@ == self@.inflight,
    {
        &self.inflight_requests
    }

    /// Returns the chunks that at `now` have been outstanding for longer than `timeout`; they count as
    /// requested no more. A chunk outstanding for just `timeout` is not among them.
    pub fn expire_inflight_requests_at(&mut self, now: Instant, timeout: Duration) -> (res: Vec<
        ChunkInfo,
    >)
        ensures
            lists(res@, outstanding_longer(old(self)@.inflight, now, timeout)),
            final(self)@ == old(self)@.expired(now, timeout),
    {
        let expired = self.inflight_requests.keys_outstanding_longer(now, timeout);
        let ghost before = self@;
        proof {
            assert(expired@.take(0) =~= Seq::empty());
            assert(before.inflight.remove_keys(expired@.take(0).to_set()) =~= before.inflight);
        }
        let mut i: usize = 0;
        while i < expired.len()
            invariant
                i <= expired@.len(),
                self@ == (LivePeerView {
                    inflight: before.inflight.remove_keys(expired@.take(i as int).to_set()),
                    ..before
                }),
            decreases expired@.len() - i,
        {
            let _ = self.inflight_requests.remove(&expired[i]);
            proof {
                let done = expired@.take(i as int);
                let next = expired@.take(i + 1);
                assert(next =~= done.push(expired@[i as int]));
                lemma_push_to_set(done, expired@[i as int]);
                assert(self@.inflight =~= before.inflight.remove_keys(next.to_set()));
            }
            i = i + 1;
        }
        assert(expired@.take(i as int) =~= expired@);
        if expired.len() > 0 {
            self.request_slots_changed.raise();
            assert(expired@.to_set().contains(expired@[0]));
        } else {
            assert(expired@.to_set() =~= Set::empty());
        }
        assert(self@ =~= before.expired(now, timeout));
        expired
    }

    /// Returns the chunks that have by now been outstanding for longer than `timeout`; they count as
    /// requested no more.
    pub fn expire_inflight_requests(&mut self, timeout: Duration, clock: &mut Clock) -> (res: Vec<
        ChunkInfo,
    >)
        ensures
            final(clock).advanced_from(*old(clock)),
            lists(
                res@,
                outstanding_longer(old(self)@.inflight, final(clock).shown(), timeout),
            ),
            final(self)@ == old(self)@.expired(final(clock).shown(), timeout),
    {
        let now = clock.now();
        self.expire_inflight_requests_at(now, timeout)
    }

    /// Snubs the peer for `duration` from `now` on, and counts one timeout more.
    pub fn record_timeout_at(&mut self, now: Instant, duration: Duration)
        requires
            old(self)@.chunk_timeouts < u32::MAX,
            now.nanos + duration.len() <= u128::MAX,
        ensures
            final(self)@ == old(self)@.snubbed(now, duration),
    {
        self.chunk_timeouts = self.chunk_timeouts + 1;
        self.snubbed_until = Some(Instant { nanos: now.nanos + duration.as_nanos() });
    }

    /// Snubs the peer for `duration` from now on, and counts one timeout more.
    pub fn record_timeout(&mut self, duration: Duration, clock: &mut Clock)
        requires
            old(self)@.chunk_timeouts < u32::MAX,
        ensures
            final(clock).advanced_from(*old(clock)),
            final(self)@ == old(self)@.snubbed(final(clock).shown(), duration),
    {
        let now = clock.now();
        self.record_timeout_at(now, duration)
    }

    /// Whether the peer is snubbed at `now`.
    pub fn is_snubbed(&self, now: Instant) -> (res: bool)
        ensures
            res == self@.snubbed_at(now),
            res <==> (self@.snubbed_until matches Some(until) && now.nanos < until.nanos),
    {
        match &self.snubbed_until {
            Some(until) => until.nanos > now.nanos,
            None => false,
        }
    }
}

} // verus!
