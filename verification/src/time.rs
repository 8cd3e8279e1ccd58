//! Points on the monotonic clock and spans between them, in nanoseconds.

use vstd::prelude::*;

verus! {

/// A span of time. A point in time is the span since a fixed start.
#[derive(Clone, Copy, Debug, PartialEq, Eq, Structural)]
pub struct TimeSpan {
    pub nanos: u128,
}

/// The span from `earlier` to `later`, zero where `later` comes first.
pub open spec fn elapsed(earlier: TimeSpan, later: TimeSpan) -> int {
    if later.nanos >= earlier.nanos {
        later.nanos - earlier.nanos
    } else {
        0
    }
}

impl TimeSpan {
    /// The span since `earlier`, zero where `earlier` comes later.
    pub fn since(self, earlier: TimeSpan) -> (r: TimeSpan)
        ensures
            r.nanos == elapsed(earlier, self),
    {
        TimeSpan { nanos: self.nanos.saturating_sub(earlier.nanos) }
    }
}

/// The whole microseconds of a span, as far as they fit.
pub open spec fn whole_micros(span: TimeSpan) -> u64 {
    if span.nanos / 1_000 <= u64::MAX {
        (span.nanos / 1_000) as u64
    } else {
        u64::MAX
    }
}

/// The whole microseconds of a span, `u64::MAX` where they do not fit.
pub fn duration_us(duration: TimeSpan) -> (r: u64)
    ensures
        r == whole_micros(duration),
{
    let micros: u128 = duration.nanos / 1_000;
    if micros <= u64::MAX as u128 {
        micros as u64
    } else {
        u64::MAX
    }
}

/// The milliseconds since the start of the clock, modulo 2^64.
pub open spec fn clock_ms(since_start: TimeSpan) -> int {
    (since_start.nanos / 1_000_000) as int % 0x1_0000_0000_0000_0000
}

/// The current time in milliseconds, from the span since the start of the
/// clock. It wraps around at 2^64.
pub fn current_time_ms(since_start: TimeSpan) -> (r: u64)
    ensures
        r == clock_ms(since_start),
{
    let millis: u128 = since_start.nanos / 1_000_000;
    (millis % 0x1_0000_0000_0000_0000) as u64
}

/// What has elapsed since an earlier point, added to it, is the later point;
/// nothing has elapsed since a point that is still to come.
pub proof fn law_elapsed_adds_up(earlier: TimeSpan, later: TimeSpan)
    ensures
        earlier.nanos <= later.nanos ==> earlier.nanos + elapsed(earlier, later) == later.nanos,
        earlier.nanos > later.nanos ==> elapsed(earlier, later) == 0,
{
}

/// The microseconds of a span are all whole microseconds in it and no more; a
/// span that has more of them than fit has the largest number.
pub proof fn law_micros_fill_the_span(span: TimeSpan)
    ensures
        span.nanos < u64::MAX * 1_000 ==> whole_micros(span) * 1_000 <= span.nanos < (
        whole_micros(span) + 1) * 1_000,
        span.nanos >= u64::MAX * 1_000 ==> whole_micros(span) == u64::MAX,
{
}

/// A longer span never has fewer microseconds.
pub proof fn law_micros_grow(a: TimeSpan, b: TimeSpan)
    requires
        a.nanos <= b.nanos,
    ensures
        whole_micros(a) <= whole_micros(b),
{
}

/// The clock counts whole milliseconds: up to its largest value it shows all
/// that are in the span, and after that it starts again at 0.
pub proof fn law_clock_counts_milliseconds(span: TimeSpan, rounds: nat)
    ensures
        0 <= clock_ms(span) <= u64::MAX,
        rounds * 0x1_0000_0000_0000_0000 <= span.nanos / 1_000_000 < (rounds + 1)
            * 0x1_0000_0000_0000_0000 ==> (rounds * 0x1_0000_0000_0000_0000 + clock_ms(span))
            * 1_000_000 <= span.nanos < (rounds * 0x1_0000_0000_0000_0000 + clock_ms(span) + 1)
            * 1_000_000,
{
    let ms = (span.nanos / 1_000_000) as int;
    if rounds * 0x1_0000_0000_0000_0000 <= ms < (rounds + 1) * 0x1_0000_0000_0000_0000 {
        assert(ms % 0x1_0000_0000_0000_0000 == ms - rounds * 0x1_0000_0000_0000_0000);
    }
}

/// Measuring a span and adding it to its start gives its end back. The
/// microseconds of a span and the milliseconds of the clock are all that are in
/// it and no more, as far as they fit.
pub proof fn law_measured_spans(
    earlier: TimeSpan,
    later: TimeSpan,
    span: TimeSpan,
    us: u64,
    ms: u64,
)
    requires
        call_ensures(TimeSpan::since, (later, earlier), span),
        call_ensures(duration_us, (span,), us),
        call_ensures(current_time_ms, (span,), ms),
        span.nanos < u64::MAX * 1_000,
    ensures
        earlier.nanos <= later.nanos ==> earlier.nanos + span.nanos == later.nanos,
        earlier.nanos > later.nanos ==> span.nanos == 0,
        us * 1_000 <= span.nanos < (us + 1) * 1_000,
        ms * 1_000_000 <= span.nanos < (ms + 1) * 1_000_000,
{
    law_clock_counts_milliseconds(span, 0);
}

} // verus!
