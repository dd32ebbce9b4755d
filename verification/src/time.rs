//! Points in time and spans of time, in whole nanoseconds.

use crate::monotonic::Monotonic;
use vstd::prelude::*;

verus! {

/// How many nanoseconds make a second.
pub const NANOS_PER_SEC: u128 = 1_000_000_000;

/// A span of time: so many seconds, and so many nanoseconds more.
#[derive(Clone, Copy, Debug)]
pub struct Duration {
    pub secs: u64,
    pub nanos: u32,
}

impl Duration {
    /// The length of the span in nanoseconds.
    pub open spec fn len(self) -> nat {
        (self.secs * NANOS_PER_SEC + self.nanos) as nat
    }

    /// The length of the span in nanoseconds.
    pub fn as_nanos(&self) -> (res: u128)
        ensures
            res == self.len(),
    {
        (self.secs as u128) * NANOS_PER_SEC + (self.nanos as u128)
    }
}

/// A point in time, counted from the origin of the [`Clock`] that gave it.
#[derive(Clone, Copy, Debug, PartialEq, Eq, Structural)]
pub struct Instant {
    pub nanos: u128,
}

impl Instant {
    /// The point that lies `elapsed` after the origin.
    pub fn from_elapsed(elapsed: Duration) -> (res: Instant)
        ensures
            res.nanos == elapsed.len(),
    {
        Instant { nanos: elapsed.as_nanos() }
    }

    /// How long `self` comes after `earlier`; nothing if it does not.
    pub open spec fn since(self, earlier: Instant) -> nat {
        if self.nanos >= earlier.nanos {
            (self.nanos - earlier.nanos) as nat
        } else {
            0
        }
    }

    /// How long `self` comes after `earlier`, in nanoseconds; zero if it does not.
    pub fn nanos_since(&self, earlier: &Instant) -> (res: u128)
        ensures
            res == self.since(*earlier),
    {
        if self.nanos >= earlier.nanos {
            self.nanos - earlier.nanos
        } else {
            0
        }
    }
}

/// The latest point that a [`Clock`] can show.
pub open spec fn latest_nanos() -> nat {
    (u64::MAX * NANOS_PER_SEC + NANOS_PER_SEC - 1) as nat
}

/// A source of [`Instant`]s. All points that are to be compared come from one clock, or from copies of
/// it.
#[derive(Clone, Copy)]
pub struct Clock {
    source: Monotonic,
}

/// A clock shows the last reading of its source, to the nanosecond.
proof fn lemma_shows_the_last_reading(clock: Clock)
    requires
        clock.source.last_reading() <= latest_nanos(),
    ensures
        clock.shown().nanos == clock.source.last_reading(),
        clock.origin() == clock.source.origin(),
{
}

impl Clock {
    /// The point from which the clock counts.
    pub closed spec fn origin(&self) -> std::time::Instant {
        self.source.origin()
    }

    /// What the clock showed when it was last read; its origin before the first reading.
    pub closed spec fn shown(&self) -> Instant {
        Instant { nanos: self.source.last_reading() as u128 }
    }

    /// `self` is what `before` has become: it counts from the same origin, and what it shows has not
    /// gone back.
    pub open spec fn advanced_from(&self, before: Clock) -> bool {
        &&& self.origin() == before.origin()
        &&& before.shown().nanos <= self.shown().nanos <= latest_nanos()
    }

    #[verifier::type_invariant]
    spec fn shows_what_it_can(self) -> bool {
        self.source.last_reading() <= latest_nanos()
    }

    /// A clock that counts from `origin`.
    pub fn from_origin(origin: std::time::Instant) -> (res: Clock)
        ensures
            res.origin() == origin,
            res.shown().nanos == 0,
    {
        Clock { source: Monotonic::from_origin(origin) }
    }

    /// A clock whose origin is the present.
    pub fn start() -> (res: Clock)
        ensures
            res.shown().nanos == 0,
    {
        Clock { source: Monotonic::start() }
    }

    /// The present.
    pub fn now(&mut self) -> (res: Instant)
        ensures
            res == final(self).shown(),
            final(self).advanced_from(*old(self)),
    {
        proof {
            use_type_invariant(&*self);
        }
        let mut source = self.source;
        let (secs, nanos) = source.read();
        self.source = source;
        proof {
            lemma_shows_the_last_reading(*self);
        }
        Instant::from_elapsed(Duration { secs, nanos })
    }
}

/// A span is as long as its seconds, a thousand million nanoseconds each, and its nanoseconds are
/// together.
pub proof fn law_length_of_a_span(span: Duration)
    ensures
        span.len() == span.secs * 1_000_000_000 + span.nanos,
{
}

/// The time from one point to another added to the first gives the second; from a later point to an
/// earlier one no time passes.
pub proof fn law_time_between_points(earlier: Instant, later: Instant)
    ensures
        earlier.nanos <= later.nanos ==> earlier.nanos + later.since(earlier) == later.nanos,
        later.nanos <= earlier.nanos ==> later.since(earlier) == 0,
{
}

/// What one clock shows does not go back, however often it is read, and lies in the range of a span of
/// the standard library.
pub proof fn law_clock_goes_on(first: Clock, second: Clock, third: Clock)
    requires
        second.advanced_from(first),
        third.advanced_from(second),
    ensures
        first.origin() == third.origin(),
        first.shown().nanos <= second.shown().nanos <= third.shown().nanos,
        third.shown().nanos <= 18_446_744_073_709_551_615 * 1_000_000_000 + 999_999_999,
        third.advanced_from(first),
{
}

} // verus!
