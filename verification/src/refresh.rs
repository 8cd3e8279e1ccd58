//! The pacing of refreshes: the compositor refreshes at once when it has been
//! quiet for longer than an interval, and puts off a refresh that comes
//! sooner until the interval is over.

use vstd::prelude::*;
use crate::time;
use crate::time::TimeSpan;

verus! {

/// The interval between refreshes, in nanoseconds.
pub const REFRESH_INTERVAL_NANOS: u128 = 150_000_000;

/// When the last refresh was, or that one is scheduled.
#[derive(Clone, Copy, Debug, PartialEq, Eq, Structural)]
pub enum LastRefresh {
    /// None since the start or since a timer ended.
    Idle,
    At(TimeSpan),
    Scheduled,
}

/// What to do about a refresh.
#[derive(Clone, Copy, Debug, PartialEq, Eq, Structural)]
pub enum RefreshStep {
    /// Nothing: one is scheduled.
    Skip,
    /// Set a timer that ends after this span.
    Schedule(TimeSpan),
    /// Refresh at once.
    Refresh,
}

/// What to do about a refresh at `now`.
pub open spec fn step_at(last: LastRefresh, now: TimeSpan) -> RefreshStep {
    match last {
        LastRefresh::Scheduled => RefreshStep::Skip,
        LastRefresh::Idle => RefreshStep::Refresh,
        LastRefresh::At(instant) => {
            let quiet = time::elapsed(instant, now);
            if quiet <= REFRESH_INTERVAL_NANOS {
                RefreshStep::Schedule(
                    TimeSpan { nanos: (REFRESH_INTERVAL_NANOS - quiet) as u128 },
                )
            } else {
                RefreshStep::Refresh
            }
        },
    }
}

/// Decides about a refresh at `now`.
pub fn refresh_step(last: LastRefresh, now: TimeSpan) -> (r: RefreshStep)
    ensures
        r == step_at(last, now),
{
    match last {
        LastRefresh::Scheduled => RefreshStep::Skip,
        LastRefresh::Idle => RefreshStep::Refresh,
        LastRefresh::At(instant) => {
            let quiet: u128 = now.since(instant).nanos;
            if quiet <= REFRESH_INTERVAL_NANOS {
                RefreshStep::Schedule(TimeSpan { nanos: REFRESH_INTERVAL_NANOS - quiet })
            } else {
                RefreshStep::Refresh
            }
        },
    }
}

/// A refresh at once comes more than an interval after the last one.
pub proof fn law_refreshes_are_apart(last: TimeSpan, now: TimeSpan)
    requires
        step_at(LastRefresh::At(last), now) == RefreshStep::Refresh,
    ensures
        now.nanos > last.nanos + REFRESH_INTERVAL_NANOS,
{
}

/// A refresh that is put off is due exactly an interval after the last one.
pub proof fn law_put_off_to_the_interval(last: TimeSpan, now: TimeSpan, span: TimeSpan)
    requires
        last.nanos <= now.nanos,
        step_at(LastRefresh::At(last), now) == RefreshStep::Schedule(span),
    ensures
        now.nanos + span.nanos == last.nanos + REFRESH_INTERVAL_NANOS,
{
}

/// A refresh that was put off is done once its timer has ended, and so keeps
/// the interval to the last one too.
pub proof fn law_put_off_refresh_keeps_the_interval(
    last: TimeSpan,
    now: TimeSpan,
    span: TimeSpan,
    ended: TimeSpan,
)
    requires
        last.nanos <= now.nanos,
        step_at(LastRefresh::At(last), now) == RefreshStep::Schedule(span),
        ended.nanos >= now.nanos + span.nanos,
    ensures
        step_at(LastRefresh::Idle, ended) == RefreshStep::Refresh,
        ended.nanos >= last.nanos + REFRESH_INTERVAL_NANOS,
{
    law_put_off_to_the_interval(last, now, span);
}

/// While a refresh is scheduled no other one is done or scheduled.
pub proof fn law_scheduled_refresh_waits(now: TimeSpan)
    ensures
        step_at(LastRefresh::Scheduled, now) == RefreshStep::Skip,
{
}

/// A refresh is done at once exactly when more than an interval has passed
/// since the last one. Before that it is put off to the end of the interval, or
/// by a whole interval where the last one lies ahead of `now`.
pub proof fn law_due_refresh_is_done(last: TimeSpan, now: TimeSpan)
    ensures
        now.nanos > last.nanos + 150_000_000 <==> step_at(LastRefresh::At(last), now)
            == RefreshStep::Refresh,
        now.nanos <= last.nanos + 150_000_000 <==> step_at(LastRefresh::At(last), now) is Schedule,
        last.nanos <= now.nanos <= last.nanos + 150_000_000 ==> now.nanos + step_at(
            LastRefresh::At(last),
            now,
        )->Schedule_0.nanos == last.nanos + 150_000_000,
        now.nanos < last.nanos ==> step_at(LastRefresh::At(last), now)->Schedule_0.nanos
            == 150_000_000,
{
}

/// Nothing is done about a refresh only if one is scheduled, and one is put off
/// only if there was one before.
pub proof fn law_idle_only_when_scheduled(last: LastRefresh, now: TimeSpan)
    ensures
        step_at(last, now) == RefreshStep::Skip <==> last == LastRefresh::Scheduled,
        step_at(last, now) is Schedule ==> last is At,
        last == LastRefresh::Idle ==> step_at(last, now) == RefreshStep::Refresh,
{
}

/// Waiting for as long as a refresh was put off brings the point at which a
/// moment more makes it due.
pub proof fn law_waiting_makes_it_due(last: TimeSpan, now: TimeSpan, span: TimeSpan, later: TimeSpan)
    requires
        last.nanos <= now.nanos,
        step_at(LastRefresh::At(last), now) == RefreshStep::Schedule(span),
    ensures
        later.nanos > now.nanos + span.nanos <==> step_at(LastRefresh::At(last), later)
            == RefreshStep::Refresh,
{
}

/// What is decided about a refresh: nothing exactly while one is scheduled, and
/// else to refresh exactly if there was none or more than an interval has
/// passed since the last one. A refresh that is put off by a span is put off to
/// the end of the interval.
pub proof fn law_refresh_is_decided(last: LastRefresh, now: TimeSpan, step: RefreshStep)
    requires
        call_ensures(refresh_step, (last, now), step),
    ensures
        step == RefreshStep::Skip <==> last == LastRefresh::Scheduled,
        step == RefreshStep::Refresh <==> last == LastRefresh::Idle || (last matches LastRefresh::At(
            at,
        ) && now.nanos > at.nanos + 150_000_000),
        step matches RefreshStep::Schedule(span) ==> last matches LastRefresh::At(at)
            && now.nanos <= at.nanos + 150_000_000 && (at.nanos <= now.nanos ==> now.nanos
            + span.nanos == at.nanos + 150_000_000) && (now.nanos < at.nanos ==> span.nanos
            == 150_000_000),
{
}

} // verus!
