//! What holds of the requests made of a live peer, whatever happens to them.

use crate::chunk::{ChunkInfo, Message, ValidPieceIndex, WriterRequest};
use crate::inflight::{
    law_list_names_each_once, law_overdue_by_its_own_time, lists, of_piece, outstanding_longer,
};
use crate::live::{ConnectionKind, Id20, LivePeerView, RemoveInflightRequestResult};
use crate::time::{Duration, Instant};
use crate::writer::PeerTx;
use std::sync::Arc;
use tokio::sync::Notify;
use vstd::prelude::*;

verus! {

/// Something that happens to the requests made of a peer.
pub enum RequestEvent {
    /// A chunk is requested.
    Requested { chunk: ChunkInfo, at: Instant },
    /// A chunk arrives.
    Arrived { chunk: ChunkInfo },
    /// The requests for a piece are cancelled, in the given order.
    Cancelled { piece: ValidPieceIndex, order: Seq<ChunkInfo> },
    /// Requests that have been outstanding for too long are given up.
    Expired { now: Instant, timeout: Duration },
    /// The peer is snubbed.
    Snubbed { now: Instant, duration: Duration },
}

impl RequestEvent {
    /// The event can happen to `live`: what is cancelled is what is requested of the piece.
    pub open spec fn possible(self, live: LivePeerView) -> bool {
        match self {
            RequestEvent::Cancelled { piece, order } => lists(
                order,
                of_piece(live.inflight, piece),
            ),
            _ => true,
        }
    }

    /// `live` after the event.
    pub open spec fn applied(self, live: LivePeerView) -> LivePeerView {
        match self {
            RequestEvent::Requested { chunk, at } => live.requested(chunk, at),
            RequestEvent::Arrived { chunk } => live.arrived(chunk),
            RequestEvent::Cancelled { piece, order } => live.cancelled(order),
            RequestEvent::Expired { now, timeout } => live.expired(now, timeout),
            RequestEvent::Snubbed { now, duration } => live.snubbed(now, duration),
        }
    }

    /// The event is the arrival of a chunk that is excused by a cancel.
    pub open spec fn is_excused_arrival(self, live: LivePeerView) -> bool {
        self matches RequestEvent::Arrived { chunk } && live.arrival(chunk)
            is LateCanceled
    }
}

/// `live` after all `events`, the first one first.
pub open spec fn after_all(live: LivePeerView, events: Seq<RequestEvent>) -> LivePeerView
    decreases events.len(),
{
    if events.len() == 0 {
        live
    } else {
        events.last().applied(after_all(live, events.drop_last()))
    }
}

/// How many of `events` are arrivals excused by a cancel.
pub open spec fn excused_arrivals(live: LivePeerView, events: Seq<RequestEvent>) -> nat
    decreases events.len(),
{
    if events.len() == 0 {
        0
    } else {
        let before = after_all(live, events.drop_last());
        excused_arrivals(live, events.drop_last()) + if events.last().is_excused_arrival(before) {
            1nat
        } else {
            0
        }
    }
}

/// How many of `sent` are cancels.
pub open spec fn cancels(sent: Seq<WriterRequest>) -> nat
    decreases sent.len(),
{
    if sent.len() == 0 {
        0
    } else {
        cancels(sent.drop_last()) + if sent.last() matches WriterRequest::Message(Message::Cancel(_)) {
            1nat
        } else {
            0
        }
    }
}

/// With the cancel messages of `order`, there are as many cancels more.
proof fn lemma_cancels_sent(sent: Seq<WriterRequest>, order: Seq<ChunkInfo>)
    ensures
        cancels(sent + order.map_values(|chunk: ChunkInfo| chunk.cancel_message())) == cancels(sent)
            + order.len(),
    decreases order.len(),
{
    let message = |chunk: ChunkInfo| chunk.cancel_message();
    let all = sent + order.map_values(message);
    if order.len() == 0 {
        assert(all =~= sent);
    } else {
        lemma_cancels_sent(sent, order.drop_last());
        assert(all.drop_last() =~= sent + order.drop_last().map_values(message));
        assert(all.last() == order.last().cancel_message());
    }
}

/// Whatever happens to a peer, the chunks that were excused and those that still can be are together
/// as many as those that could be at the start and the cancels sent since.
pub proof fn law_excuses_match_cancels(live: LivePeerView, events: Seq<RequestEvent>)
    ensures
        after_all(live, events).late_cancelled_request_tolerance + excused_arrivals(live, events)
            + cancels(live.sent) == live.late_cancelled_request_tolerance + cancels(
            after_all(live, events).sent,
        ),
    decreases events.len(),
{
    if events.len() > 0 {
        let before = after_all(live, events.drop_last());
        law_excuses_match_cancels(live, events.drop_last());
        if let RequestEvent::Cancelled { piece, order } = events.last() {
            lemma_cancels_sent(before.sent, order);
        }
    }
}

/// A peer that starts without excuses is never excused more chunks than it was sent cancels.
pub proof fn law_excused_arrivals_are_bounded(live: LivePeerView, events: Seq<RequestEvent>)
    requires
        live.late_cancelled_request_tolerance == 0,
    ensures
        excused_arrivals(live, events) <= cancels(after_all(live, events).sent) - cancels(live.sent),
{
    law_excuses_match_cancels(live, events);
}

/// Those who wait for a request slot are woken, once, exactly when an event frees one.
pub proof fn law_signal_when_a_slot_is_freed(live: LivePeerView, event: RequestEvent)
    requires
        event.possible(live),
    ensures
        event.applied(live).slots_signalled == live.slots_signalled + if live.inflight.dom().subset_of(
            event.applied(live).inflight.dom(),
        ) {
            0nat
        } else {
            1
        },
{
    let after = event.applied(live);
    match event {
        RequestEvent::Requested { chunk, at } => {},
        RequestEvent::Arrived { chunk } => {
            if live.arrival(chunk) is Expected {
                assert(live.inflight.dom().contains(chunk));
                assert(set![chunk].contains(chunk));
                assert(!after.inflight.dom().contains(chunk));
            }
        },
        RequestEvent::Cancelled { piece, order } => {
            lemma_freed_signal(live, order.to_set());
        },
        RequestEvent::Expired { now, timeout } => {
            lemma_freed_signal(live, outstanding_longer(live.inflight, now, timeout));
        },
        RequestEvent::Snubbed { now, duration } => {},
    }
}

/// To free requested chunks is to signal it, unless there are none.
proof fn lemma_freed_signal(live: LivePeerView, chunks: Set<ChunkInfo>)
    requires
        chunks.subset_of(live.inflight.dom()),
    ensures
        live.freed(chunks).slots_signalled == live.slots_signalled + if live.inflight.dom().subset_of(
            live.freed(chunks).inflight.dom(),
        ) {
            0nat
        } else {
            1
        },
{
    if chunks == Set::<ChunkInfo>::empty() {
        assert(live.freed(chunks).inflight =~= live.inflight);
    } else {
        let chunk = choose|chunk: ChunkInfo| chunks.contains(chunk);
        assert(exists|chunk: ChunkInfo| chunks.contains(chunk)) by {
            if forall|chunk: ChunkInfo| !chunks.contains(chunk) {
                assert(chunks =~= Set::empty());
            }
        }
        assert(!live.freed(chunks).inflight.dom().contains(chunk));
    }
}

/// A chunk that is requested anew and then arrives was expected, and its arrival undoes the request:
/// only those who wait for a slot notice.
pub proof fn law_arrival_undoes_request(live: LivePeerView, chunk: ChunkInfo, at: Instant)
    requires
        !live.inflight.contains_key(chunk),
    ensures
        live.requested(chunk, at).arrival(chunk) is Expected,
        live.requested(chunk, at).arrived(chunk) == (LivePeerView {
            slots_signalled: live.slots_signalled + 1,
            ..live
        }),
{
    assert(set![chunk].contains(chunk));
    assert(live.requested(chunk, at).arrived(chunk) =~= (LivePeerView {
        slots_signalled: live.slots_signalled + 1,
        ..live
    }));
}

/// A chunk is expected only once for each request.
pub proof fn law_expected_only_once(live: LivePeerView, chunk: ChunkInfo)
    ensures
        !(live.arrived(chunk).arrival(chunk) is Expected),
{
    assert(set![chunk].contains(chunk));
}

/// After a cancel nothing is requested of the piece, and what is requested of other pieces is as
/// before.
pub proof fn law_cancel_is_for_one_piece(
    live: LivePeerView,
    piece: ValidPieceIndex,
    order: Seq<ChunkInfo>,
    chunk: ChunkInfo,
)
    requires
        lists(order, of_piece(live.inflight, piece)),
    ensures
        chunk.piece_index == piece ==> !live.cancelled(order).inflight.contains_key(chunk),
        chunk.piece_index != piece ==> live.cancelled(order).inflight.get(chunk)
            == live.inflight.get(chunk),
{
    if chunk.piece_index == piece && live.inflight.contains_key(chunk) {
        assert(of_piece(live.inflight, piece).contains(chunk));
    }
    if chunk.piece_index != piece {
        assert(!of_piece(live.inflight, piece).contains(chunk));
    }
}

/// Chunks that arrive one after the other, as events.
pub open spec fn arrivals(chunks: Seq<ChunkInfo>) -> Seq<RequestEvent> {
    chunks.map_values(|chunk: ChunkInfo| RequestEvent::Arrived { chunk })
}

/// A peer is not blamed for chunks that cross a cancel on the way: of a cancelled piece, as many chunks
/// as requests were cancelled can still arrive, and each of them is excused.
pub proof fn law_cancelled_chunks_are_excused(
    live: LivePeerView,
    piece: ValidPieceIndex,
    order: Seq<ChunkInfo>,
    late: Seq<ChunkInfo>,
    k: int,
)
    requires
        lists(order, of_piece(live.inflight, piece)),
        late.len() <= order.len(),
        forall|i: int| 0 <= i < late.len() ==> (#[trigger] late[i]).piece_index == piece,
        0 <= k < late.len(),
    ensures
        after_all(live.cancelled(order), arrivals(late.take(k))).arrival(late[k]) is LateCanceled,
{
    lemma_excuses_used(live.cancelled(order), piece, late.take(k));
    assert forall|chunk: ChunkInfo| chunk.piece_index == piece implies !live.cancelled(
        order,
    ).inflight.contains_key(chunk) by {
        law_cancel_is_for_one_piece(live, piece, order, chunk);
    }
}

/// Each chunk that arrives of a piece of which nothing is requested uses up one excuse.
proof fn lemma_excuses_used(live: LivePeerView, piece: ValidPieceIndex, late: Seq<ChunkInfo>)
    requires
        forall|chunk: ChunkInfo|
            chunk.piece_index == piece ==> !#[trigger] live.inflight.contains_key(chunk),
        late.len() <= live.late_cancelled_request_tolerance,
        forall|i: int| 0 <= i < late.len() ==> (#[trigger] late[i]).piece_index == piece,
    ensures
        after_all(live, arrivals(late)).inflight == live.inflight,
        after_all(live, arrivals(late)).late_cancelled_request_tolerance
            == live.late_cancelled_request_tolerance - late.len(),
    decreases late.len(),
{
    if late.len() > 0 {
        let earlier = late.drop_last();
        lemma_excuses_used(live, piece, earlier);
        assert(arrivals(late).drop_last() =~= arrivals(earlier));
        assert(late[late.len() - 1].piece_index == piece);
    }
}

/// After an expiry no request is left that has been outstanding for longer than the timeout, and to
/// expire the requests again at the same time changes nothing.
pub proof fn law_expiry_is_complete(live: LivePeerView, now: Instant, timeout: Duration)
    ensures
        forall|chunk: ChunkInfo| #[trigger]
            live.expired(now, timeout).inflight.contains_key(chunk) ==> now.since(
                live.expired(now, timeout).inflight[chunk],
            ) <= timeout.len(),
        live.expired(now, timeout).expired(now, timeout) == live.expired(now, timeout),
{
    let once = live.expired(now, timeout);
    let gone = outstanding_longer(live.inflight, now, timeout);
    assert forall|chunk: ChunkInfo| #[trigger] once.inflight.contains_key(chunk) implies now.since(
        once.inflight[chunk],
    ) <= timeout.len() by {
        assert(!gone.contains(chunk));
        assert(once.inflight[chunk] == live.inflight[chunk]);
    }
    assert(outstanding_longer(once.inflight, now, timeout) =~= Set::empty());
    assert(once.expired(now, timeout) =~= once);
}

/// A snub changes nothing about the requests that are outstanding: what arrives means the same as
/// without it.
pub proof fn law_snub_leaves_requests_alone(
    live: LivePeerView,
    now: Instant,
    duration: Duration,
    chunk: ChunkInfo,
)
    ensures
        live.snubbed(now, duration).inflight == live.inflight,
        live.snubbed(now, duration).arrival(chunk) == live.arrival(chunk),
{
}

/// How many of `events` are snubs.
pub open spec fn snubs(events: Seq<RequestEvent>) -> nat
    decreases events.len(),
{
    if events.len() == 0 {
        0
    } else {
        snubs(events.drop_last()) + if events.last() is Snubbed {
            1nat
        } else {
            0
        }
    }
}

/// Whatever happens, the count of timeouts grows by one with each snub, and never shrinks.
pub proof fn law_timeouts_add_up(live: LivePeerView, events: Seq<RequestEvent>)
    ensures
        after_all(live, events).chunk_timeouts == live.chunk_timeouts + snubs(events),
    decreases events.len(),
{
    if events.len() > 0 {
        law_timeouts_add_up(live, events.drop_last());
    }
}

/// Nothing that happens to the requests touches the rest of what is kept of the peer.
pub proof fn law_requests_leave_the_rest_alone(live: LivePeerView, event: RequestEvent)
    ensures
        event.applied(live) == (LivePeerView {
            inflight: event.applied(live).inflight,
            snubbed_until: event.applied(live).snubbed_until,
            chunk_timeouts: event.applied(live).chunk_timeouts,
            late_cancelled_request_tolerance: event.applied(
                live,
            ).late_cancelled_request_tolerance,
            slots_signalled: event.applied(live).slots_signalled,
            sent: event.applied(live).sent,
            ..live
        }),
{
}

/// A snub holds from the time that it is given until its duration has passed, and no longer.
pub proof fn law_snub_lasts_for_its_duration(
    live: LivePeerView,
    now: Instant,
    duration: Duration,
    later: Instant,
)
    requires
        now.nanos + duration.len() <= u128::MAX,
        now.nanos <= later.nanos,
    ensures
        live.snubbed(now, duration).snubbed_at(later) <==> later.since(now) < duration.len(),
{
}

/// A peer that has just become live is choked, however it is connected, and is interested exactly if it
/// was said to be. It is what it was given, and has no past: nothing is known of it, counted of it or
/// requested of it, it is not snubbed at any time, whatever it sends is unexpected, and of a torrent
/// with pieces it does not have all.
pub proof fn law_fresh_peer_has_no_past(
    peer_id: Id20,
    tx: PeerTx,
    interested: bool,
    kind: ConnectionKind,
    notify: Arc<Notify>,
    chunk: ChunkInfo,
    now: Instant,
    total_pieces: nat,
)
    ensures
        ({
            let live = LivePeerView::fresh(peer_id, tx, interested, kind, notify);
            &&& live.am_choking
            &&& live.peer_interested == interested
            &&& live.peer_id == peer_id
            &&& live.connection_kind == kind
            &&& live.slots_notify == notify
            &&& live.channel == tx.channel()
            &&& live.sent == tx.sent()
            &&& live.client_name is None
            &&& live.bitfield.len() == 0
            &&& live.snubbed_until is None
            &&& live.chunk_timeouts == 0
            &&& live.late_cancelled_request_tolerance == 0
            &&& live.slots_signalled == 0
            &&& live.last_rechoke_uploaded == 0
            &&& live.last_rechoke_fetched == 0
            &&& !live.inflight.contains_key(chunk)
            &&& live.arrival(chunk) is Unexpected
            &&& !live.snubbed_at(now)
            &&& live.has_all(total_pieces) <==> total_pieces == 0
        }),
{
}

/// How a peer is connected makes no difference to what is thought of it at first.
pub proof fn law_connection_kind_changes_nothing_else(
    peer_id: Id20,
    tx: PeerTx,
    interested: bool,
    kind: ConnectionKind,
    other: ConnectionKind,
    notify: Arc<Notify>,
)
    ensures
        LivePeerView::fresh(peer_id, tx, interested, other, notify) == (LivePeerView {
            connection_kind: other,
            ..LivePeerView::fresh(peer_id, tx, interested, kind, notify)
        }),
{
}

/// A peer with the full torrent has each of its pieces, wherever in the torrent the piece lies; one
/// without it lacks a piece.
pub proof fn law_full_torrent_is_every_piece(live: LivePeerView, total_pieces: nat, piece: int)
    ensures
        live.has_all(total_pieces) && 0 <= piece < total_pieces ==> piece < live.bitfield.len()
            && live.bitfield[piece],
        total_pieces <= live.bitfield.len() && (forall|i: int|
            0 <= i < total_pieces ==> #[trigger] live.bitfield[i]) ==> live.has_all(total_pieces),
        live.has_all(total_pieces + 1) <==> live.has_all(total_pieces) && total_pieces
            < live.bitfield.len() && live.bitfield[total_pieces as int],
{
    let has = live.has_all(total_pieces);
    if has && total_pieces < live.bitfield.len() && live.bitfield[total_pieces as int] {
        assert forall|i: int| 0 <= i < total_pieces + 1 implies #[trigger] live.bitfield[i] by {}
    }
}

/// A peer that loses any one piece has the full torrent no more, and one that gets the only piece it
/// lacks has it.
pub proof fn law_one_piece_decides(live: LivePeerView, total_pieces: nat, piece: int)
    requires
        0 <= piece < total_pieces <= live.bitfield.len(),
    ensures
        !(LivePeerView { bitfield: live.bitfield.update(piece, false), ..live }).has_all(
            total_pieces,
        ),
        (forall|i: int| 0 <= i < total_pieces && i != piece ==> #[trigger] live.bitfield[i]) ==> (
        LivePeerView { bitfield: live.bitfield.update(piece, true), ..live }).has_all(total_pieces),
{
    let lost = LivePeerView { bitfield: live.bitfield.update(piece, false), ..live };
    assert(!lost.bitfield[piece]);
}

/// To request a chunk is to note it with the time of the request. No other request is touched, and
/// nothing else is.
pub proof fn law_request_notes_one_chunk(
    live: LivePeerView,
    chunk: ChunkInfo,
    at: Instant,
    other: ChunkInfo,
)
    ensures
        live.requested(chunk, at).inflight.contains_key(chunk),
        live.requested(chunk, at).inflight[chunk].nanos == at.nanos,
        other != chunk ==> live.requested(chunk, at).inflight.get(other) == live.inflight.get(other),
        live.requested(chunk, at) == (LivePeerView {
            inflight: live.requested(chunk, at).inflight,
            ..live
        }),
{
}

/// A chunk that arrives is expected exactly if it is outstanding. Else it is excused as long as there
/// are excuses, and only then, whichever chunk it is.
pub proof fn law_arrival_goes_by_what_is_outstanding(live: LivePeerView, chunk: ChunkInfo)
    ensures
        live.arrival(chunk) is Expected <==> live.inflight.contains_key(chunk),
        live.arrival(chunk) is LateCanceled <==> !live.inflight.contains_key(chunk)
            && live.late_cancelled_request_tolerance > 0,
        live.arrival(chunk) is Unexpected <==> !live.inflight.contains_key(chunk)
            && live.late_cancelled_request_tolerance == 0,
{
}

/// A chunk that arrives is outstanding no more, and no other request is touched. If it was outstanding,
/// the signal is given once and no excuse is used; else there is no signal, and one excuse is used if
/// there is one. Nothing else changes.
pub proof fn law_arrival_settles_one_chunk(live: LivePeerView, chunk: ChunkInfo, other: ChunkInfo)
    ensures
        ({
            let after = live.arrived(chunk);
            &&& !after.inflight.contains_key(chunk)
            &&& other != chunk ==> after.inflight.get(other) == live.inflight.get(other)
            &&& live.inflight.contains_key(chunk) ==> {
                &&& after.slots_signalled == live.slots_signalled + 1
                &&& after.late_cancelled_request_tolerance == live.late_cancelled_request_tolerance
            }
            &&& !live.inflight.contains_key(chunk) ==> {
                &&& after.slots_signalled == live.slots_signalled
                &&& live.late_cancelled_request_tolerance == 0
                    ==> after.late_cancelled_request_tolerance == 0
                &&& live.late_cancelled_request_tolerance > 0
                    ==> after.late_cancelled_request_tolerance + 1
                    == live.late_cancelled_request_tolerance
            }
            &&& after == (LivePeerView {
                inflight: after.inflight,
                slots_signalled: after.slots_signalled,
                late_cancelled_request_tolerance: after.late_cancelled_request_tolerance,
                ..live
            })
        }),
{
    assert(set![chunk].contains(chunk));
}

/// To cancel the requests for a piece is to send one cancel for each of its outstanding chunks, and for
/// nothing else, after what was sent before: it names the piece, where the chunk begins in it, and how
/// long the chunk is.
pub proof fn law_cancels_name_what_is_cancelled(
    live: LivePeerView,
    piece: ValidPieceIndex,
    order: Seq<ChunkInfo>,
)
    requires
        lists(order, of_piece(live.inflight, piece)),
    ensures
        ({
            let earlier = live.sent.len();
            let sent = live.cancelled(order).sent;
            &&& sent.len() == earlier + order.len()
            &&& forall|i: int| 0 <= i < earlier ==> #[trigger] sent[i] == live.sent[i]
            &&& forall|i: int|
                0 <= i < order.len() ==> {
                    &&& live.inflight.contains_key(#[trigger] order[i])
                    &&& order[i].piece_index.index == piece.index
                    &&& sent[earlier + i] matches WriterRequest::Message(Message::Cancel(request))
                    &&& request.index == piece.index
                    &&& request.begin == order[i].offset
                    &&& request.length == order[i].size
                }
            &&& forall|chunk: ChunkInfo| #[trigger]
                live.inflight.contains_key(chunk) && chunk.piece_index.index == piece.index
                    ==> exists|i: int| 0 <= i < order.len() && order[i] == chunk
            &&& forall|i: int, j: int|
                0 <= i < j < order.len() ==> #[trigger] order[i] != #[trigger] order[j]
        }),
{
    law_list_names_each_once(order, of_piece(live.inflight, piece));
    assert forall|i: int| 0 <= i < order.len() implies live.inflight.contains_key(
        #[trigger] order[i],
    ) && order[i].piece_index == piece by {
        assert(of_piece(live.inflight, piece).contains(order[i]));
    }
    assert forall|chunk: ChunkInfo| #[trigger]
        live.inflight.contains_key(chunk) && chunk.piece_index.index
            == piece.index implies exists|i: int| 0 <= i < order.len() && order[i] == chunk by {
        assert(of_piece(live.inflight, piece).contains(chunk));
    }
}

/// A cancel takes the chunks of the piece out of the outstanding ones and no others, gives one excuse for
/// each cancel that it sends, and gives the signal once if it takes out any chunk. Nothing else changes.
pub proof fn law_cancel_excuses_what_it_takes(
    live: LivePeerView,
    piece: ValidPieceIndex,
    order: Seq<ChunkInfo>,
    chunk: ChunkInfo,
)
    requires
        lists(order, of_piece(live.inflight, piece)),
    ensures
        ({
            let after = live.cancelled(order);
            &&& chunk.piece_index.index == piece.index ==> !after.inflight.contains_key(chunk)
            &&& chunk.piece_index.index != piece.index ==> after.inflight.get(chunk)
                == live.inflight.get(chunk)
            &&& after.late_cancelled_request_tolerance - live.late_cancelled_request_tolerance
                == after.sent.len() - live.sent.len()
            &&& live.inflight.contains_key(chunk) && chunk.piece_index.index == piece.index
                ==> after.slots_signalled == live.slots_signalled + 1
            &&& order.len() == 0 ==> after.slots_signalled == live.slots_signalled
            &&& after == (LivePeerView {
                inflight: after.inflight,
                late_cancelled_request_tolerance: after.late_cancelled_request_tolerance,
                slots_signalled: after.slots_signalled,
                sent: after.sent,
                ..live
            })
        }),
{
    let gone = of_piece(live.inflight, piece);
    assert(gone.contains(chunk) <==> live.inflight.contains_key(chunk) && chunk.piece_index
        == piece);
    if order.len() == 0 {
        assert(order.to_set() =~= Set::empty());
    }
}

/// An expiry takes out a request exactly if it was made more than the timeout before `now`. Every other
/// request stays with the time noted for it, whatever the rest of the requests are. The signal is given
/// once if any request is taken out, and not otherwise. Nothing else changes.
pub proof fn law_expiry_takes_only_the_overdue(
    live: LivePeerView,
    now: Instant,
    timeout: Duration,
    chunk: ChunkInfo,
)
    ensures
        ({
            let after = live.expired(now, timeout);
            let limit = timeout.secs * 1_000_000_000 + timeout.nanos;
            &&& live.inflight.contains_key(chunk) && now.nanos - live.inflight[chunk].nanos <= limit
                ==> after.inflight.contains_key(chunk) && after.inflight[chunk]
                == live.inflight[chunk]
            &&& live.inflight.contains_key(chunk) && now.nanos - live.inflight[chunk].nanos > limit
                ==> !after.inflight.contains_key(chunk) && after.slots_signalled
                == live.slots_signalled + 1
            &&& !live.inflight.contains_key(chunk) ==> !after.inflight.contains_key(chunk)
            &&& (forall|c: ChunkInfo| #[trigger]
                live.inflight.contains_key(c) ==> now.nanos - live.inflight[c].nanos <= limit)
                ==> after == live
            &&& after == (LivePeerView {
                inflight: after.inflight,
                slots_signalled: after.slots_signalled,
                ..live
            })
        }),
{
    let after = live.expired(now, timeout);
    let limit = timeout.secs * 1_000_000_000 + timeout.nanos;
    let gone = outstanding_longer(live.inflight, now, timeout);
    law_overdue_by_its_own_time(live.inflight, live.inflight, now, timeout, chunk);
    if forall|c: ChunkInfo| #[trigger]
        live.inflight.contains_key(c) ==> now.nanos - live.inflight[c].nanos <= limit {
        assert forall|c: ChunkInfo| !gone.contains(c) by {
            law_overdue_by_its_own_time(live.inflight, live.inflight, now, timeout, c);
        }
        assert(gone =~= Set::empty());
        assert(after =~= live);
    }
}

/// The chunks that an expiry returns are those that it takes out: each was outstanding for longer than
/// the timeout, none that was is missing, and none is named twice.
pub proof fn law_expiry_returns_what_it_takes(
    live: LivePeerView,
    now: Instant,
    timeout: Duration,
    returned: Seq<ChunkInfo>,
)
    requires
        lists(returned, outstanding_longer(live.inflight, now, timeout)),
    ensures
        ({
            let after = live.expired(now, timeout);
            let limit = timeout.secs * 1_000_000_000 + timeout.nanos;
            &&& forall|i: int|
                0 <= i < returned.len() ==> {
                    &&& live.inflight.contains_key(#[trigger] returned[i])
                    &&& now.nanos - live.inflight[returned[i]].nanos > limit
                    &&& !after.inflight.contains_key(returned[i])
                }
            &&& forall|chunk: ChunkInfo| #[trigger]
                live.inflight.contains_key(chunk) && !after.inflight.contains_key(chunk)
                    ==> exists|i: int| 0 <= i < returned.len() && returned[i] == chunk
            &&& forall|i: int, j: int|
                0 <= i < j < returned.len() ==> #[trigger] returned[i] != #[trigger] returned[j]
        }),
{
    let gone = outstanding_longer(live.inflight, now, timeout);
    law_list_names_each_once(returned, gone);
    assert forall|i: int| 0 <= i < returned.len() implies gone.contains(
        #[trigger] returned[i],
    ) by {}
    assert forall|chunk: ChunkInfo| #[trigger]
        live.inflight.contains_key(chunk) && !live.expired(now, timeout).inflight.contains_key(
            chunk,
        ) implies exists|i: int| 0 <= i < returned.len() && returned[i] == chunk by {
        assert(gone.contains(chunk));
    }
}

/// A snub counts one timeout and sets the end of the snub to its duration after `now`, in place of any
/// earlier one. Nothing else changes.
pub proof fn law_snub_sets_its_end(live: LivePeerView, now: Instant, duration: Duration)
    requires
        now.nanos + duration.secs * 1_000_000_000 + duration.nanos <= u128::MAX,
    ensures
        ({
            let after = live.snubbed(now, duration);
            &&& after.snubbed_until matches Some(until)
            &&& until.nanos == now.nanos + duration.secs * 1_000_000_000 + duration.nanos
        }),
        live.snubbed(now, duration).chunk_timeouts == live.chunk_timeouts + 1,
        live.snubbed(now, duration) == (LivePeerView {
            snubbed_until: live.snubbed(now, duration).snubbed_until,
            chunk_timeouts: live.snubbed(now, duration).chunk_timeouts,
            ..live
        }),
{
}

/// A peer without an end set for its snub is not snubbed at any time. One with an end is snubbed before
/// it and at no time from it on, whatever else is known of the peer.
pub proof fn law_snubbed_before_the_end(live: LivePeerView, other: LivePeerView, now: Instant)
    ensures
        live.snubbed_until is None ==> !live.snubbed_at(now),
        live.snubbed_until matches Some(until) ==> (live.snubbed_at(now) <==> now.nanos
            < until.nanos),
        live.snubbed_until == other.snubbed_until ==> live.snubbed_at(now) == other.snubbed_at(now),
{
}

/// The event is a snub that lasts beyond `at`.
pub open spec fn snubs_beyond(event: RequestEvent, at: Instant) -> bool {
    event matches RequestEvent::Snubbed { now, duration } && at.nanos < now.nanos + duration.secs
        * 1_000_000_000 + duration.nanos
}

/// A peer that starts without a snub is snubbed at a time exactly if it was snubbed at all, and the last
/// of its snubs has not passed by then. Requests, arrivals, cancels and expiries never snub it and never
/// end a snub.
pub proof fn law_snubbed_only_by_the_last_snub(
    live: LivePeerView,
    events: Seq<RequestEvent>,
    at: Instant,
)
    requires
        live.snubbed_until is None,
        forall|k: int|
            0 <= k < events.len() ==> (#[trigger] events[k] matches RequestEvent::Snubbed {
                now,
                duration,
            } ==> now.nanos + duration.secs * 1_000_000_000 + duration.nanos <= u128::MAX),
    ensures
        after_all(live, events).snubbed_at(at) <==> exists|k: int|
            0 <= k < events.len() && snubs_beyond(#[trigger] events[k], at) && forall|j: int|
                k < j < events.len() ==> !(#[trigger] events[j] is Snubbed),
        snubs(events) == 0 ==> after_all(live, events).snubbed_until is None,
    decreases events.len(),
{
    if events.len() > 0 {
        let rest = events.drop_last();
        let n = rest.len() as int;
        assert forall|k: int| 0 <= k < n implies rest[k] == #[trigger] events[k] by {}
        law_snubbed_only_by_the_last_snub(live, rest, at);
        assert(events[n] == events.last());
        if events[n] is Snubbed {
            assert(after_all(live, events).snubbed_at(at) <==> snubs_beyond(events[n], at));
        } else {
            assert(after_all(live, events).snubbed_until == after_all(live, rest).snubbed_until);
            if after_all(live, rest).snubbed_at(at) {
                let k = choose|k: int|
                    0 <= k < n && snubs_beyond(#[trigger] rest[k], at) && forall|j: int|
                        k < j < n ==> !(#[trigger] rest[j] is Snubbed);
                assert(snubs_beyond(events[k], at));
                assert forall|j: int| k < j < events.len() implies !(#[trigger] events[j]
                    is Snubbed) by {
                    if j < n {
                        assert(!(rest[j] is Snubbed));
                    }
                }
            }
            if exists|k: int|
                0 <= k < events.len() && snubs_beyond(#[trigger] events[k], at) && forall|j: int|
                    k < j < events.len() ==> !(#[trigger] events[j] is Snubbed) {
                let k = choose|k: int|
                    0 <= k < events.len() && snubs_beyond(#[trigger] events[k], at) && forall|
                        j: int,
                    |
                        k < j < events.len() ==> !(#[trigger] events[j] is Snubbed);
                assert(k < n);
                assert(snubs_beyond(rest[k], at));
                assert forall|j: int| k < j < n implies !(#[trigger] rest[j] is Snubbed) by {
                    assert(!(events[j] is Snubbed));
                }
            }
        }
    }
}

} // verus!
