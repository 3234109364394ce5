//! Spans and points of time, counted in whole nanoseconds.
//!
//! The library never reads a clock: callers hand in the current [`Instant`].

use vstd::prelude::*;

verus! {

/// The longest representable span: `u64::MAX` seconds and 999,999,999 nanoseconds.
pub const MAX_DURATION_NANOS: u128 = 18_446_744_073_709_551_615_999_999_999;

/// A span of time.
#[derive(Clone, Copy, Debug, PartialEq, Eq, Structural)]
pub struct Duration {
    nanos: u128,
}

impl Duration {
    /// The length of the span in nanoseconds.
    pub closed spec fn nanos(self) -> nat {
        self.nanos as nat
    }

    #[verifier::type_invariant]
    spec fn within_range(self) -> bool {
        self.nanos <= MAX_DURATION_NANOS
    }

    pub fn new(secs: u64, nanos: u32) -> (span: Duration)
        requires
            nanos < 1_000_000_000,
        ensures
            span.nanos() == secs * 1_000_000_000 + nanos,
    {
        Duration { nanos: secs as u128 * 1_000_000_000 + nanos as u128 }
    }

    pub fn from_nanos(nanos: u64) -> (span: Duration)
        ensures
            span.nanos() == nanos,
    {
        Duration { nanos: nanos as u128 }
    }

    pub fn from_micros(micros: u64) -> (span: Duration)
        ensures
            span.nanos() == micros * 1_000,
    {
        Duration { nanos: micros as u128 * 1_000 }
    }

    pub fn from_millis(millis: u64) -> (span: Duration)
        ensures
            span.nanos() == millis * 1_000_000,
    {
        Duration { nanos: millis as u128 * 1_000_000 }
    }

    pub fn from_secs(secs: u64) -> (span: Duration)
        ensures
            span.nanos() == secs * 1_000_000_000,
    {
        Duration { nanos: secs as u128 * 1_000_000_000 }
    }

    /// The longest span.
    pub fn longest() -> (span: Duration)
        ensures
            span.nanos() == MAX_DURATION_NANOS,
    {
        Duration { nanos: MAX_DURATION_NANOS }
    }

    pub fn as_nanos(&self) -> (nanos: u128)
        ensures
            nanos == self.nanos(),
            nanos <= MAX_DURATION_NANOS,
    {
        proof {
            use_type_invariant(self);
        }
        self.nanos
    }

    /// The sum of two spans, or `None` where it is longer than the longest span.
    pub fn checked_add(&self, other: Duration) -> (sum: Option<Duration>)
        ensures
            match sum {
                Some(sum) => sum.nanos() == self.nanos() + other.nanos(),
                None => self.nanos() + other.nanos() > MAX_DURATION_NANOS,
            },
    {
        proof {
            use_type_invariant(self);
            use_type_invariant(&other);
        }
        let nanos: u128 = self.nanos + other.nanos;
        if nanos <= MAX_DURATION_NANOS {
            Some(Duration { nanos })
        } else {
            None
        }
    }
}

/// A point in time, as the span since an arbitrary origin that all points share.
#[derive(Clone, Copy, Debug, PartialEq, Eq, Structural)]
pub struct Instant {
    since_origin: Duration,
}

impl Instant {
    /// Nanoseconds since the origin.
    pub closed spec fn nanos(self) -> nat {
        self.since_origin.nanos()
    }

    /// Whether the point `span_nanos` later can still be represented.
    pub open spec fn has_room(self, span_nanos: int) -> bool {
        self.nanos() + span_nanos <= MAX_DURATION_NANOS
    }

    /// How long before `self` the point `earlier` lies, and zero where it does not.
    pub open spec fn elapsed_since(self, earlier: Instant) -> nat {
        if self.nanos() > earlier.nanos() {
            (self.nanos() - earlier.nanos()) as nat
        } else {
            0
        }
    }

    pub fn at(since_origin: Duration) -> (point: Instant)
        ensures
            point.nanos() == since_origin.nanos(),
    {
        Instant { since_origin }
    }

    pub fn as_nanos(&self) -> (nanos: u128)
        ensures
            nanos == self.nanos(),
            nanos <= MAX_DURATION_NANOS,
    {
        self.since_origin.as_nanos()
    }

    /// The point `span` later.
    pub fn after(&self, span: Duration) -> (later: Instant)
        requires
            self.has_room(span.nanos() as int),
        ensures
            later.nanos() == self.nanos() + span.nanos(),
    {
        match self.since_origin.checked_add(span) {
            Some(since_origin) => Instant { since_origin },
            None => *self,
        }
    }

    /// The span from `earlier` to `self`, empty where `earlier` lies later.
    pub fn duration_since(&self, earlier: Instant) -> (span: Duration)
        ensures
            span.nanos() == self.elapsed_since(earlier),
    {
        let nanos: u128 = self.nanos_since(earlier);
        Duration::new((nanos / 1_000_000_000) as u64, (nanos % 1_000_000_000) as u32)
    }

    /// Nanoseconds from `earlier` to `self`, zero where `earlier` lies later.
    pub fn nanos_since(&self, earlier: Instant) -> (nanos: u128)
        ensures
            nanos == self.elapsed_since(earlier),
            nanos <= MAX_DURATION_NANOS,
    {
        let now: u128 = self.as_nanos();
        let then_nanos: u128 = earlier.as_nanos();
        if now > then_nanos {
            now - then_nanos
        } else {
            0
        }
    }
}

/// What has passed between two points in time is their distance, and nothing where the
/// second is not the later one.
pub proof fn law_elapsed_time(now: Instant, earlier: Instant)
    ensures
        now.nanos() >= earlier.nanos() ==> now.elapsed_since(earlier) + earlier.nanos()
            == now.nanos(),
        now.nanos() <= earlier.nanos() ==> now.elapsed_since(earlier) == 0,
        now.elapsed_since(now) == 0,
{
}

} // verus!
