//! The monotonic clock of the machine.

use crate::time::{Duration, NANOS_PER_SEC};
use vstd::prelude::*;

verus! {

/// A point on the monotonic clock, as the standard library gives it.
#[verifier::external_type_specification]
#[verifier::external_body]
pub struct ExInstant(std::time::Instant);

/// `std::time::Instant::now`: a reading of the monotonic clock. Nothing is claimed of it.
#[verifier::external_body]
fn read_clock() -> (res: std::time::Instant) {
    std::time::Instant::now()
}

/// The monotonic clock, read from an origin on.
#[derive(Clone, Copy)]
pub struct Monotonic {
    origin: std::time::Instant,
    last: Ghost<nat>,
}

impl Monotonic {
    /// The point from which time is counted.
    pub closed spec fn origin(&self) -> std::time::Instant {
        self.origin
    }

    /// The last reading, in nanoseconds; zero before the first one.
    pub closed spec fn last_reading(&self) -> nat {
        self.last@
    }

    /// The clock, read from `origin` on and not read yet.
    pub fn from_origin(origin: std::time::Instant) -> (res: Monotonic)
        ensures
            res.origin() == origin,
            res.last_reading() == 0,
    {
        Monotonic { origin, last: Ghost(0) }
    }

    /// The clock, read from the present on and not read yet.
    pub fn start() -> (res: Monotonic)
        ensures
            res.last_reading() == 0,
    {
        Monotonic::from_origin(read_clock())
    }

    /// `std::time::Instant::elapsed`, called on the origin: the time that has passed since then, as
    /// whole seconds and the nanoseconds left over, which make less than a second. This call alone
    /// records a reading. Readings from one origin do not go back, since the clock does not. How much
    /// time has passed rests on the clock and is not claimed.
    #[verifier::external_body]
    pub(crate) fn read(&mut self) -> (res: (u64, u32))
        ensures
            res.1 < NANOS_PER_SEC,
            final(self).last_reading() == (Duration { secs: res.0, nanos: res.1 }).len(),
            final(self).last_reading() >= old(self).last_reading(),
            final(self).origin() == old(self).origin(),
    {
        let elapsed = self.origin.elapsed();
        (elapsed.as_secs(), elapsed.subsec_nanos())
    }
}

} // verus!
