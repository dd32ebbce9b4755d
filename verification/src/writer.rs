//! The channel on which the task that writes to a peer gets its requests.

use crate::chunk::WriterRequest;
use tokio::sync::mpsc::{unbounded_channel, UnboundedReceiver, UnboundedSender};
use vstd::prelude::*;

verus! {

/// The sending half of tokio's unbounded channel.
#[verifier::external_type_specification]
#[verifier::external_body]
#[verifier::reject_recursive_types(T)]
pub struct ExUnboundedSender<T>(UnboundedSender<T>);

/// The receiving half of tokio's unbounded channel.
#[verifier::external_type_specification]
#[verifier::external_body]
#[verifier::reject_recursive_types(T)]
pub struct ExUnboundedReceiver<T>(UnboundedReceiver<T>);

/// The channel that a sending half feeds.
pub uninterp spec fn sender_channel(tx: UnboundedSender<WriterRequest>) -> int;

/// The channel that a receiving half drains.
pub uninterp spec fn receiver_channel(rx: UnboundedReceiver<WriterRequest>) -> int;

/// What waits in a receiving half at the moment at which its channel is opened.
pub uninterp spec fn waiting_at_opening(rx: UnboundedReceiver<WriterRequest>) -> Seq<WriterRequest>;

/// `UnboundedSender::clone`: the new half feeds the same channel as the one it was made from.
#[verifier::external_body]
fn clone_sender(tx: &UnboundedSender<WriterRequest>) -> (res: UnboundedSender<WriterRequest>)
    ensures
        sender_channel(res) == sender_channel(*tx),
{
    tx.clone()
}

/// The end of the channel from which the writing task takes its requests.
pub type PeerRx = UnboundedReceiver<WriterRequest>;

/// A handle by which the writing task is given requests.
pub struct PeerTx {
    tx: UnboundedSender<WriterRequest>,
    sent: Ghost<Seq<WriterRequest>>,
}

impl PeerTx {
    /// The channel that the handle feeds.
    pub closed spec fn channel(&self) -> int {
        sender_channel(self.tx)
    }

    /// The requests that were handed to [`send`](PeerTx::send) on this handle, the first one first,
    /// with those that the receiver refused.
    pub closed spec fn sent(&self) -> Seq<WriterRequest> {
        self.sent@
    }

    /// A handle on the channel of `tx`.
    pub fn new(tx: UnboundedSender<WriterRequest>) -> (res: PeerTx)
        ensures
            res.channel() == sender_channel(tx),
            res.sent() == Seq::<WriterRequest>::empty(),
    {
        PeerTx { tx, sent: Ghost(Seq::empty()) }
    }

    /// A sending half for the same channel.
    pub fn sender(&self) -> (res: UnboundedSender<WriterRequest>)
        ensures
            sender_channel(res) == self.channel(),
    {
        clone_sender(&self.tx)
    }

    /// `UnboundedSender::send`: `request` is handed to it, which this call alone records. It puts the
    /// request on the channel, or hands it back where the receiving half is closed; which of the two
    /// happens rests on the receiver and is not claimed.
    #[verifier::external_body]
    pub(crate) fn send(&mut self, request: WriterRequest) -> (res: Result<(), WriterRequest>)
        ensures
            final(self).channel() == old(self).channel(),
            final(self).sent() == old(self).sent().push(request),
            res matches Err(returned) ==> returned == request,
    {
        self.tx.send(request).map_err(|refused| refused.0)
    }
}

/// Another handle on the same channel, through which nothing was sent yet.
impl Clone for PeerTx {
    fn clone(&self) -> (res: PeerTx)
        ensures
            res.channel() == self.channel(),
            res.sent() == Seq::<WriterRequest>::empty(),
    {
        PeerTx::new(self.sender())
    }
}

/// `channel` is opened where `before` were opened already: it is none of those.
pub open spec fn opens(before: Set<int>, channel: int, after: Set<int>) -> bool {
    &&& !before.contains(channel)
    &&& after == before.insert(channel)
}

/// The channels to writing tasks that were opened so far.
pub struct WriterChannels {
    opened: Ghost<Set<int>>,
}

impl WriterChannels {
    /// The channels that were opened.
    pub closed spec fn opened(&self) -> Set<int> {
        self.opened@
    }

    /// None opened yet.
    pub fn new() -> (res: WriterChannels)
        ensures
            res.opened() == Set::<int>::empty(),
    {
        WriterChannels { opened: Ghost(Set::empty()) }
    }

    /// `tokio::sync::mpsc::unbounded_channel`: the two halves that it returns are halves of one new
    /// channel, in which nothing waits. This call alone records a channel as opened, and hands out the
    /// one receiving half that the channel has. That the receiver gets what is sent in the order in
    /// which it is sent is so too, but is not claimed: it speaks of what other tasks do with the halves.
    #[verifier::external_body]
    fn open(&mut self) -> (res: (
        UnboundedSender<WriterRequest>,
        UnboundedReceiver<WriterRequest>,
    ))
        ensures
            sender_channel(res.0) == receiver_channel(res.1),
            opens(old(self).opened(), receiver_channel(res.1), final(self).opened()),
            waiting_at_opening(res.1) == Seq::<WriterRequest>::empty(),
    {
        unbounded_channel()
    }

    /// Opens a channel to a writing task.
    pub fn peer_channel(&mut self) -> (res: (PeerTx, PeerRx))
        ensures
            res.0.channel() == receiver_channel(res.1),
            opens(old(self).opened(), receiver_channel(res.1), final(self).opened()),
            waiting_at_opening(res.1) == Seq::<WriterRequest>::empty(),
            res.0.sent() == Seq::<WriterRequest>::empty(),
    {
        let (tx, rx) = self.open();
        (PeerTx::new(tx), rx)
    }
}

/// A channel has one receiving half: each is handed out with a channel of its own, however many were
/// opened in between.
pub proof fn law_one_receiver_for_each_channel(
    first: PeerRx,
    second: PeerRx,
    before: Set<int>,
    between: Set<int>,
    later: Set<int>,
    after: Set<int>,
)
    requires
        opens(before, receiver_channel(first), between),
        between.subset_of(later),
        opens(later, receiver_channel(second), after),
    ensures
        receiver_channel(first) != receiver_channel(second),
{
    assert(between.contains(receiver_channel(first)));
}

/// To open a channel is to have it besides those opened before, which stay.
pub proof fn law_opening_adds_one_channel(
    before: Set<int>,
    channel: int,
    after: Set<int>,
    other: int,
)
    requires
        opens(before, channel, after),
    ensures
        !before.contains(channel),
        after.contains(channel),
        other != channel ==> (after.contains(other) <==> before.contains(other)),
{
}

} // verus!
