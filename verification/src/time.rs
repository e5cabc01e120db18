//! Spans of time, and the clock that a level is played against.

use vstd::prelude::*;

verus! {

/// The standard library's monotonic clock reading, carried and never looked into.
#[verifier::external_type_specification]
#[verifier::external_body]
pub struct ExInstant(std::time::Instant);

/// A span of time: whole seconds, and the nanoseconds beyond them.
#[derive(Debug, Clone, Copy, PartialEq, Eq, Structural)]
pub struct Duration {
    pub secs: u64,
    pub nanos: u32,
}

impl Duration {
    /// The nanoseconds stay below one second.
    pub open spec fn wf(self) -> bool {
        self.nanos < 1_000_000_000
    }

    /// The whole milliseconds of the span.
    pub open spec fn millis(self) -> nat {
        (self.secs * 1000 + self.nanos / 1_000_000) as nat
    }

    /// The span of `millis` milliseconds.
    pub fn from_millis(millis: u64) -> (span: Self)
        ensures
            span.wf(),
            span.millis() == millis,
            span == Self::of_millis(millis),
    {
        Self { secs: millis / 1000, nanos: ((millis % 1000) * 1_000_000) as u32 }
    }

    /// The span of `millis` milliseconds.
    pub open spec fn of_millis(millis: u64) -> Self {
        Self { secs: millis / 1000, nanos: ((millis % 1000) * 1_000_000) as u32 }
    }

    /// The whole milliseconds of the span.
    pub fn as_millis(&self) -> (millis: u128)
        ensures
            millis == self.millis(),
    {
        (self.secs as u128) * 1000 + (self.nanos / 1_000_000) as u128
    }

    /// The whole seconds of the span.
    pub fn as_secs(&self) -> (secs: u64)
        ensures
            secs == self.secs,
    {
        self.secs
    }
}

/// `Instant::now` reads the clock. Nothing is said of the reading.
#[verifier::external_body]
pub(crate) fn clock_now() -> (now: std::time::Instant)
{
    std::time::Instant::now()
}

/// `Instant::elapsed` reads the clock and returns the time that has passed since
/// `start`. The reading is not fixed by anything; of every one it is said only
/// that the part below a second is below a second.
#[verifier::external_body]
pub(crate) fn elapsed_since(start: &std::time::Instant) -> (elapsed: Duration)
    ensures
        elapsed.wf(),
{
    let elapsed = start.elapsed();
    Duration { secs: elapsed.as_secs(), nanos: elapsed.subsec_nanos() }
}

/// A longer span has no fewer whole milliseconds.
pub proof fn millis_follow_time(a: Duration, b: Duration)
    requires
        a.wf(),
        b.wf(),
        a.secs < b.secs || (a.secs == b.secs && a.nanos <= b.nanos),
    ensures
        a.millis() <= b.millis(),
{
}

/// A span of milliseconds is made of whole seconds and the nanoseconds of the rest.
pub proof fn spans_are_made_of_seconds(millis: u64)
    ensures
        Duration::of_millis(millis).secs * 1000 + Duration::of_millis(millis).nanos / 1_000_000
            == millis,
        Duration::of_millis(millis).nanos % 1_000_000 == 0,
        Duration::of_millis(millis).millis() == millis,
{
}

} // verus!
