//! Spans of time and points in time, to the nanosecond.

use vstd::prelude::*;

verus! {

/// A span of time, in nanoseconds.
#[derive(Clone, Copy, Debug, PartialEq, Eq, Structural)]
pub struct Duration {
    pub nanos: u128,
}

/// A wall-clock instant, in nanoseconds since the Unix epoch (negative before it).
#[derive(Clone, Copy, Debug, PartialEq, Eq, Structural)]
pub struct SystemTime {
    pub nanos: i128,
}

pub const NANOS_PER_SEC: u128 = 1_000_000_000;

impl View for Duration {
    type V = int;

    open spec fn view(&self) -> int {
        self.nanos as int
    }
}

impl View for SystemTime {
    type V = int;

    open spec fn view(&self) -> int {
        self.nanos as int
    }
}

impl Duration {
    /// The span of `secs` whole seconds.
    pub fn from_secs(secs: u64) -> (d: Duration)
        ensures
            d@ == secs * 1_000_000_000,
    {
        assert(secs * 1_000_000_000 <= u128::MAX) by (nonlinear_arith)
            requires secs <= u64::MAX;
        Duration { nanos: secs as u128 * NANOS_PER_SEC }
    }

    /// The whole seconds in the span.
    pub fn as_secs(self) -> (secs: u128)
        ensures
            secs == self@ / 1_000_000_000,
    {
        self.nanos / NANOS_PER_SEC
    }
}

impl SystemTime {
    /// The span from `earlier` to this instant; `None` when `earlier` is in fact later.
    pub fn duration_since(self, earlier: SystemTime) -> (d: Option<Duration>)
        ensures
            earlier@ <= self@ <==> d is Some,
            d matches Some(span) ==> span@ == self@ - earlier@,
    {
        if earlier.nanos <= self.nanos {
            let nanos: u128 = if earlier.nanos < 0 && self.nanos >= 0 {
                // The difference may exceed the signed range, so the two parts
                // on either side of the epoch are added unsigned.
                (self.nanos as u128) + (-(earlier.nanos + 1)) as u128 + 1
            } else {
                (self.nanos - earlier.nanos) as u128
            };
            Some(Duration { nanos })
        } else {
            None
        }
    }
}

/// A span and an instant are their count of nanoseconds.
pub proof fn law_times_are_nanoseconds(span: Duration, instant: SystemTime)
    ensures
        span@ == span.nanos,
        instant@ == instant.nanos,
{
}

/// The span since an earlier instant leads from that instant to this one, to the
/// nanosecond; since a later instant there is none.
pub proof fn law_span_leads_back(now: SystemTime, earlier: SystemTime, span: Option<Duration>)
    requires
        call_ensures(SystemTime::duration_since, (now, earlier), span),
    ensures
        span matches Some(d) ==> earlier.nanos + d.nanos == now.nanos,
        span is None ==> earlier.nanos > now.nanos,
{
}

/// Seconds made into a span can be read back from it, and the seconds of any span
/// are those that have gone by in full.
pub proof fn law_whole_seconds(secs: u64, made: Duration, span: Duration, read: u128)
    requires
        call_ensures(Duration::from_secs, (secs,), made),
        call_ensures(Duration::as_secs, (span,), read),
    ensures
        made.nanos == 1_000_000_000 * secs,
        read * 1_000_000_000 <= span.nanos < (read + 1) * 1_000_000_000,
        span == made ==> read == secs,
{
}

} // verus!
