//! The signal that a request slot of a peer has become free.

use std::sync::Arc;
use tokio::sync::Notify;
use vstd::prelude::*;

verus! {

/// tokio's `Notify`, on which tasks wait.
#[verifier::external_type_specification]
#[verifier::external_body]
pub struct ExNotify(Notify);

/// `Notify::new`: a `Notify` on which nobody waits. Nothing is claimed of it.
#[verifier::external_body]
fn new_notify() -> (res: Notify) {
    Notify::new()
}

/// A signal that tasks can wait for.
pub struct Signal {
    notify: Arc<Notify>,
    raised: Ghost<nat>,
}

impl Signal {
    /// What the waiting tasks wait on.
    pub closed spec fn notify(&self) -> Arc<Notify> {
        self.notify
    }

    /// How often the signal was raised.
    pub closed spec fn raised(&self) -> nat {
        self.raised@
    }

    /// A signal not raised yet.
    pub fn new() -> (res: Signal)
        ensures
            res.raised() == 0,
    {
        Signal { notify: Arc::new(new_notify()), raised: Ghost(0) }
    }

    /// `Notify::notify_waiters`: it is called on the signal's `Notify`, which this call alone records.
    /// It wakes the tasks that wait at this moment; which tasks those are rests on the scheduler and is
    /// not claimed.
    #[verifier::external_body]
    pub(crate) fn raise(&mut self)
        ensures
            final(self).notify() == old(self).notify(),
            final(self).raised() == old(self).raised() + 1,
    {
        self.notify.notify_waiters()
    }

    /// What a task has to wait on to be woken by this signal.
    pub fn handle(&self) -> (res: Arc<Notify>)
        ensures
            res == self.notify(),
    {
        Arc::clone(&self.notify)
    }
}

} // verus!
