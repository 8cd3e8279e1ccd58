//! Statistics of the main loop: how long its stages take, in microseconds.
//! They are reported once a minute at most, and start again from zero then.

use vstd::prelude::*;
use crate::time;
use crate::time::TimeSpan;

verus! {

/// The shortest span between two reports, in nanoseconds.
pub const REPORT_INTERVAL_NANOS: u128 = 60_000_000_000;

/// What has been counted since the last report. Counts and totals stay at
/// `u64::MAX` once they reach it.
#[derive(Clone, Copy, Debug, PartialEq, Eq, Structural)]
pub struct MainLoopCounters {
    pub callbacks: u64,
    pub callback_us_total: u64,
    pub callback_us_max: u64,
    pub update_animations_us_total: u64,
    pub update_animations_us_max: u64,
    pub blocker_clear_us_total: u64,
    pub blocker_clear_us_max: u64,
    pub refresh_us_total: u64,
    pub refresh_us_max: u64,
    pub animation_schedule_us_total: u64,
    pub animation_schedule_us_max: u64,
    pub flush_clients_us_total: u64,
    pub flush_clients_us_max: u64,
    pub dispatch_clients_calls: u64,
    pub dispatch_clients_us_total: u64,
    pub dispatch_clients_us_max: u64,
    pub dispatch_clients_events_total: u64,
    pub animation_outputs_scheduled: u64,
    pub animation_active_callbacks: u64,
}

/// The counters, and when they were last reported.
#[derive(Clone, Copy, Debug, PartialEq, Eq, Structural)]
pub struct MainLoopStats {
    pub last_log: TimeSpan,
    pub counters: MainLoopCounters,
}

/// What one callback of the main loop took.
#[derive(Clone, Copy, Debug, PartialEq, Eq, Structural)]
pub struct MainLoopSample {
    pub callback: TimeSpan,
    pub update_animations: TimeSpan,
    pub blocker_clear: TimeSpan,
    pub refresh: TimeSpan,
    pub animation_schedule: TimeSpan,
    pub flush_clients: TimeSpan,
    pub animation_outputs_scheduled: u64,
    pub animations_active: bool,
}

/// The counters at a report, and the averages that go with them.
#[derive(Clone, Copy, Debug, PartialEq, Eq, Structural)]
pub struct MainLoopReport {
    pub counters: MainLoopCounters,
    pub callback_us_avg: u64,
    pub dispatch_clients_us_avg: u64,
}

/// `a + b`, or `u64::MAX` where that is too large.
pub open spec fn capped_sum(a: u64, b: u64) -> u64 {
    if a + b <= u64::MAX {
        (a + b) as u64
    } else {
        u64::MAX
    }
}

/// The larger of two numbers.
pub open spec fn larger(a: u64, b: u64) -> u64 {
    if a < b {
        b
    } else {
        a
    }
}

fn larger_of(a: u64, b: u64) -> (r: u64)
    ensures
        r == larger(a, b),
{
    if a < b {
        b
    } else {
        a
    }
}

/// Counters that have counted nothing.
pub open spec fn zero_counters() -> MainLoopCounters {
    MainLoopCounters {
        callbacks: 0,
        callback_us_total: 0,
        callback_us_max: 0,
        update_animations_us_total: 0,
        update_animations_us_max: 0,
        blocker_clear_us_total: 0,
        blocker_clear_us_max: 0,
        refresh_us_total: 0,
        refresh_us_max: 0,
        animation_schedule_us_total: 0,
        animation_schedule_us_max: 0,
        flush_clients_us_total: 0,
        flush_clients_us_max: 0,
        dispatch_clients_calls: 0,
        dispatch_clients_us_total: 0,
        dispatch_clients_us_max: 0,
        dispatch_clients_events_total: 0,
        animation_outputs_scheduled: 0,
        animation_active_callbacks: 0,
    }
}

/// The counters with one more callback counted.
pub open spec fn with_sample(c: MainLoopCounters, s: MainLoopSample) -> MainLoopCounters {
    MainLoopCounters {
        callbacks: capped_sum(c.callbacks, 1),
        callback_us_total: capped_sum(c.callback_us_total, time::whole_micros(s.callback)),
        callback_us_max: larger(c.callback_us_max, time::whole_micros(s.callback)),
        update_animations_us_total: capped_sum(
            c.update_animations_us_total,
            time::whole_micros(s.update_animations),
        ),
        update_animations_us_max: larger(
            c.update_animations_us_max,
            time::whole_micros(s.update_animations),
        ),
        blocker_clear_us_total: capped_sum(
            c.blocker_clear_us_total,
            time::whole_micros(s.blocker_clear),
        ),
        blocker_clear_us_max: larger(c.blocker_clear_us_max, time::whole_micros(s.blocker_clear)),
        refresh_us_total: capped_sum(c.refresh_us_total, time::whole_micros(s.refresh)),
        refresh_us_max: larger(c.refresh_us_max, time::whole_micros(s.refresh)),
        animation_schedule_us_total: capped_sum(
            c.animation_schedule_us_total,
            time::whole_micros(s.animation_schedule),
        ),
        animation_schedule_us_max: larger(
            c.animation_schedule_us_max,
            time::whole_micros(s.animation_schedule),
        ),
        flush_clients_us_total: capped_sum(
            c.flush_clients_us_total,
            time::whole_micros(s.flush_clients),
        ),
        flush_clients_us_max: larger(c.flush_clients_us_max, time::whole_micros(s.flush_clients)),
        animation_outputs_scheduled: capped_sum(
            c.animation_outputs_scheduled,
            s.animation_outputs_scheduled,
        ),
        animation_active_callbacks: if s.animations_active {
            capped_sum(c.animation_active_callbacks, 1)
        } else {
            c.animation_active_callbacks
        },
        ..c
    }
}

/// The counters with one more dispatch of client requests counted.
pub open spec fn with_dispatch(
    c: MainLoopCounters,
    elapsed: TimeSpan,
    dispatched: u64,
) -> MainLoopCounters {
    MainLoopCounters {
        dispatch_clients_calls: capped_sum(c.dispatch_clients_calls, 1),
        dispatch_clients_us_total: capped_sum(
            c.dispatch_clients_us_total,
            time::whole_micros(elapsed),
        ),
        dispatch_clients_us_max: larger(c.dispatch_clients_us_max, time::whole_micros(elapsed)),
        dispatch_clients_events_total: capped_sum(c.dispatch_clients_events_total, dispatched),
        ..c
    }
}

/// `total` divided among `count`, rounded down; 0 where there is nothing to
/// divide among.
pub open spec fn average(total: u64, count: u64) -> u64 {
    if count == 0 {
        0
    } else {
        total / count
    }
}

/// The report on these counters.
pub open spec fn report_on(c: MainLoopCounters) -> MainLoopReport {
    MainLoopReport {
        counters: c,
        callback_us_avg: average(c.callback_us_total, c.callbacks),
        dispatch_clients_us_avg: average(c.dispatch_clients_us_total, c.dispatch_clients_calls),
    }
}

/// Whether a report is due at `now`.
pub open spec fn report_due(last_log: TimeSpan, now: TimeSpan) -> bool {
    time::elapsed(last_log, now) >= REPORT_INTERVAL_NANOS
}

/// `after` and `report` are what becomes of `before` at `now`: where a report
/// is due it is made and the counters start again, else nothing happens.
pub open spec fn logged(
    before: MainLoopStats,
    now: TimeSpan,
    after: MainLoopStats,
    report: Option<MainLoopReport>,
) -> bool {
    if report_due(before.last_log, now) {
        &&& report == Some(report_on(before.counters))
        &&& after == MainLoopStats { last_log: now, counters: zero_counters() }
    } else {
        &&& report is None
        &&& after == before
    }
}

impl Default for MainLoopCounters {
    fn default() -> (r: Self)
        ensures
            r == zero_counters(),
    {
        MainLoopCounters {
            callbacks: 0,
            callback_us_total: 0,
            callback_us_max: 0,
            update_animations_us_total: 0,
            update_animations_us_max: 0,
            blocker_clear_us_total: 0,
            blocker_clear_us_max: 0,
            refresh_us_total: 0,
            refresh_us_max: 0,
            animation_schedule_us_total: 0,
            animation_schedule_us_max: 0,
            flush_clients_us_total: 0,
            flush_clients_us_max: 0,
            dispatch_clients_calls: 0,
            dispatch_clients_us_total: 0,
            dispatch_clients_us_max: 0,
            dispatch_clients_events_total: 0,
            animation_outputs_scheduled: 0,
            animation_active_callbacks: 0,
        }
    }
}

impl MainLoopStats {
    /// Statistics that start at `now`.
    pub fn new(now: TimeSpan) -> (r: Self)
        ensures
            r == (MainLoopStats { last_log: now, counters: zero_counters() }),
    {
        MainLoopStats { last_log: now, counters: MainLoopCounters::default() }
    }
}

fn average_of(total: u64, count: u64) -> (r: u64)
    ensures
        r == average(total, count),
{
    if count == 0 {
        0
    } else {
        total / count
    }
}

/// Makes the report that is due at `now`, if one is.
pub fn maybe_log_main_loop_stats(stats: &mut MainLoopStats, now: TimeSpan) -> (r: Option<
    MainLoopReport,
>)
    ensures
        logged(*old(stats), now, *final(stats), r),
{
    if now.since(stats.last_log).nanos < REPORT_INTERVAL_NANOS {
        return None;
    }
    let counters = stats.counters;
    stats.counters = MainLoopCounters::default();
    stats.last_log = now;
    Some(
        MainLoopReport {
            counters,
            callback_us_avg: average_of(counters.callback_us_total, counters.callbacks),
            dispatch_clients_us_avg: average_of(
                counters.dispatch_clients_us_total,
                counters.dispatch_clients_calls,
            ),
        },
    )
}

/// Counts a callback of the main loop that ended at `now`.
pub fn note_main_loop_sample(
    stats: &mut MainLoopStats,
    sample: MainLoopSample,
    now: TimeSpan,
) -> (r: Option<MainLoopReport>)
    ensures
        logged(
            MainLoopStats { counters: with_sample(old(stats).counters, sample), ..*old(stats) },
            now,
            *final(stats),
            r,
        ),
{
    let mut counters = stats.counters;

    counters.callbacks = counters.callbacks.saturating_add(1);

    let callback_us = time::duration_us(sample.callback);
    counters.callback_us_total = counters.callback_us_total.saturating_add(callback_us);
    counters.callback_us_max = larger_of(counters.callback_us_max, callback_us);

    let update_us = time::duration_us(sample.update_animations);
    counters.update_animations_us_total =
    counters.update_animations_us_total.saturating_add(update_us);
    counters.update_animations_us_max = larger_of(counters.update_animations_us_max, update_us);

    let blocker_us = time::duration_us(sample.blocker_clear);
    counters.blocker_clear_us_total = counters.blocker_clear_us_total.saturating_add(blocker_us);
    counters.blocker_clear_us_max = larger_of(counters.blocker_clear_us_max, blocker_us);

    let refresh_us = time::duration_us(sample.refresh);
    counters.refresh_us_total = counters.refresh_us_total.saturating_add(refresh_us);
    counters.refresh_us_max = larger_of(counters.refresh_us_max, refresh_us);

    let schedule_us = time::duration_us(sample.animation_schedule);
    counters.animation_schedule_us_total =
    counters.animation_schedule_us_total.saturating_add(schedule_us);
    counters.animation_schedule_us_max = larger_of(counters.animation_schedule_us_max, schedule_us);

    let flush_us = time::duration_us(sample.flush_clients);
    counters.flush_clients_us_total = counters.flush_clients_us_total.saturating_add(flush_us);
    counters.flush_clients_us_max = larger_of(counters.flush_clients_us_max, flush_us);

    counters.animation_outputs_scheduled =
    counters.animation_outputs_scheduled.saturating_add(sample.animation_outputs_scheduled);
    if sample.animations_active {
        counters.animation_active_callbacks = counters.animation_active_callbacks.saturating_add(1);
    }
    stats.counters = counters;

    maybe_log_main_loop_stats(stats, now)
}

/// Counts a dispatch of client requests that took `elapsed`, handled
/// `dispatched` requests and ended at `now`.
pub fn note_wayland_dispatch_sample(
    stats: &mut MainLoopStats,
    elapsed: TimeSpan,
    dispatched: u64,
    now: TimeSpan,
) -> (r: Option<MainLoopReport>)
    ensures
        logged(
            MainLoopStats {
                counters: with_dispatch(old(stats).counters, elapsed, dispatched),
                ..*old(stats)
            },
            now,
            *final(stats),
            r,
        ),
{
    let mut counters = stats.counters;
    let elapsed_us = time::duration_us(elapsed);

    counters.dispatch_clients_calls = counters.dispatch_clients_calls.saturating_add(1);
    counters.dispatch_clients_us_total =
    counters.dispatch_clients_us_total.saturating_add(elapsed_us);
    counters.dispatch_clients_us_max = larger_of(counters.dispatch_clients_us_max, elapsed_us);
    counters.dispatch_clients_events_total =
    counters.dispatch_clients_events_total.saturating_add(dispatched);
    stats.counters = counters;

    maybe_log_main_loop_stats(stats, now)
}

/// A total and a maximum that can belong to `count` measurements.
pub open spec fn tally_ok(count: u64, total: u64, max: u64) -> bool {
    max <= total <= count * max
}

/// The counters can belong to one list of callbacks and dispatches.
pub open spec fn consistent(c: MainLoopCounters) -> bool {
    &&& tally_ok(c.callbacks, c.callback_us_total, c.callback_us_max)
    &&& tally_ok(c.callbacks, c.update_animations_us_total, c.update_animations_us_max)
    &&& tally_ok(c.callbacks, c.blocker_clear_us_total, c.blocker_clear_us_max)
    &&& tally_ok(c.callbacks, c.refresh_us_total, c.refresh_us_max)
    &&& tally_ok(c.callbacks, c.animation_schedule_us_total, c.animation_schedule_us_max)
    &&& tally_ok(c.callbacks, c.flush_clients_us_total, c.flush_clients_us_max)
    &&& tally_ok(c.dispatch_clients_calls, c.dispatch_clients_us_total, c.dispatch_clients_us_max)
    &&& c.animation_active_callbacks <= c.callbacks
}

proof fn lemma_tally(count: u64, total: u64, max: u64, x: u64)
    requires
        tally_ok(count, total, max),
    ensures
        tally_ok(capped_sum(count, 1), capped_sum(total, x), larger(max, x)),
{
    let m = larger(max, x);
    if count < u64::MAX {
        assert(total + x <= (count + 1) * m) by (nonlinear_arith)
            requires
                total <= count * max,
                max <= m,
                x <= m,
                0 <= count,
        ;
    } else if m > 0 {
        assert(u64::MAX * m >= u64::MAX) by (nonlinear_arith)
            requires
                m >= 1,
        ;
    } else {
        assert(count * max == 0) by (nonlinear_arith)
            requires
                max == 0,
        ;
    }
}

/// Counters start consistent, and counting keeps them so.
pub proof fn law_counters_stay_consistent(
    c: MainLoopCounters,
    sample: MainLoopSample,
    elapsed: TimeSpan,
    dispatched: u64,
)
    ensures
        consistent(zero_counters()),
        consistent(c) ==> consistent(with_sample(c, sample)),
        consistent(c) ==> consistent(with_dispatch(c, elapsed, dispatched)),
{
    if consistent(c) {
        lemma_tally(
            c.callbacks,
            c.callback_us_total,
            c.callback_us_max,
            time::whole_micros(sample.callback),
        );
        lemma_tally(
            c.callbacks,
            c.update_animations_us_total,
            c.update_animations_us_max,
            time::whole_micros(sample.update_animations),
        );
        lemma_tally(
            c.callbacks,
            c.blocker_clear_us_total,
            c.blocker_clear_us_max,
            time::whole_micros(sample.blocker_clear),
        );
        lemma_tally(
            c.callbacks,
            c.refresh_us_total,
            c.refresh_us_max,
            time::whole_micros(sample.refresh),
        );
        lemma_tally(
            c.callbacks,
            c.animation_schedule_us_total,
            c.animation_schedule_us_max,
            time::whole_micros(sample.animation_schedule),
        );
        lemma_tally(
            c.callbacks,
            c.flush_clients_us_total,
            c.flush_clients_us_max,
            time::whole_micros(sample.flush_clients),
        );
        lemma_tally(
            c.dispatch_clients_calls,
            c.dispatch_clients_us_total,
            c.dispatch_clients_us_max,
            time::whole_micros(elapsed),
        );
    }
}

/// A reported average never exceeds the reported maximum.
pub proof fn law_average_within_maximum(c: MainLoopCounters)
    requires
        consistent(c),
    ensures
        report_on(c).callback_us_avg <= c.callback_us_max,
        report_on(c).dispatch_clients_us_avg <= c.dispatch_clients_us_max,
{
    lemma_average(c.callbacks, c.callback_us_total, c.callback_us_max);
    lemma_average(
        c.dispatch_clients_calls,
        c.dispatch_clients_us_total,
        c.dispatch_clients_us_max,
    );
}

proof fn lemma_average(count: u64, total: u64, max: u64)
    requires
        tally_ok(count, total, max),
    ensures
        average(total, count) <= max,
{
    if count > 0 {
        assert(total / count <= max) by (nonlinear_arith)
            requires
                total <= count * max,
                count > 0,
        ;
    }
}

/// Two reports in a row are at least the report interval apart.
pub proof fn law_reports_are_apart(
    first: MainLoopStats,
    first_now: TimeSpan,
    after_first: MainLoopStats,
    second: MainLoopStats,
    second_now: TimeSpan,
    after_second: MainLoopStats,
    report: Option<MainLoopReport>,
    next_report: Option<MainLoopReport>,
)
    requires
        logged(first, first_now, after_first, report),
        report is Some,
        second.last_log == after_first.last_log,
        logged(second, second_now, after_second, next_report),
        next_report is Some,
    ensures
        second_now.nanos >= first_now.nanos + REPORT_INTERVAL_NANOS,
{
}

/// A sum is the sum wherever it fits and the largest number elsewhere, and the
/// larger of two numbers is one of them and below neither.
pub proof fn law_sums_and_maxima(a: u64, b: u64)
    ensures
        capped_sum(a, b) == if a + b <= u64::MAX {
            a + b
        } else {
            u64::MAX as int
        },
        larger(a, b) >= a && larger(a, b) >= b,
        larger(a, b) == a || larger(a, b) == b,
{
}

/// Counting a callback adds its time to the total of each stage and one to the
/// callbacks, as far as they fit, and lifts each maximum that it exceeds. What
/// was counted of dispatches stays.
pub proof fn law_callback_is_counted(c: MainLoopCounters, s: MainLoopSample)
    ensures
        ({
            let after = with_sample(c, s);
            &&& after.callbacks == if c.callbacks + 1 <= u64::MAX {
                c.callbacks + 1
            } else {
                u64::MAX as int
            }
            &&& after.callback_us_total == if c.callback_us_total
                + time::whole_micros(s.callback) <= u64::MAX {
                c.callback_us_total + time::whole_micros(s.callback)
            } else {
                u64::MAX as int
            }
            &&& after.callback_us_max >= c.callback_us_max
                && after.callback_us_max >= time::whole_micros(s.callback)
            &&& after.callback_us_max == c.callback_us_max
                || after.callback_us_max == time::whole_micros(s.callback)
            &&& after.update_animations_us_total == if c.update_animations_us_total
                + time::whole_micros(s.update_animations) <= u64::MAX {
                c.update_animations_us_total + time::whole_micros(s.update_animations)
            } else {
                u64::MAX as int
            }
            &&& after.update_animations_us_max >= c.update_animations_us_max
                && after.update_animations_us_max >= time::whole_micros(s.update_animations)
            &&& after.update_animations_us_max == c.update_animations_us_max
                || after.update_animations_us_max == time::whole_micros(s.update_animations)
            &&& after.blocker_clear_us_total == if c.blocker_clear_us_total
                + time::whole_micros(s.blocker_clear) <= u64::MAX {
                c.blocker_clear_us_total + time::whole_micros(s.blocker_clear)
            } else {
                u64::MAX as int
            }
            &&& after.blocker_clear_us_max >= c.blocker_clear_us_max
                && after.blocker_clear_us_max >= time::whole_micros(s.blocker_clear)
            &&& after.blocker_clear_us_max == c.blocker_clear_us_max
                || after.blocker_clear_us_max == time::whole_micros(s.blocker_clear)
            &&& after.refresh_us_total == if c.refresh_us_total
                + time::whole_micros(s.refresh) <= u64::MAX {
                c.refresh_us_total + time::whole_micros(s.refresh)
            } else {
                u64::MAX as int
            }
            &&& after.refresh_us_max >= c.refresh_us_max
                && after.refresh_us_max >= time::whole_micros(s.refresh)
            &&& after.refresh_us_max == c.refresh_us_max
                || after.refresh_us_max == time::whole_micros(s.refresh)
            &&& after.animation_schedule_us_total == if c.animation_schedule_us_total
                + time::whole_micros(s.animation_schedule) <= u64::MAX {
                c.animation_schedule_us_total + time::whole_micros(s.animation_schedule)
            } else {
                u64::MAX as int
            }
            &&& after.animation_schedule_us_max >= c.animation_schedule_us_max
                && after.animation_schedule_us_max >= time::whole_micros(s.animation_schedule)
            &&& after.animation_schedule_us_max == c.animation_schedule_us_max
                || after.animation_schedule_us_max == time::whole_micros(s.animation_schedule)
            &&& after.flush_clients_us_total == if c.flush_clients_us_total
                + time::whole_micros(s.flush_clients) <= u64::MAX {
                c.flush_clients_us_total + time::whole_micros(s.flush_clients)
            } else {
                u64::MAX as int
            }
            &&& after.flush_clients_us_max >= c.flush_clients_us_max
                && after.flush_clients_us_max >= time::whole_micros(s.flush_clients)
            &&& after.flush_clients_us_max == c.flush_clients_us_max
                || after.flush_clients_us_max == time::whole_micros(s.flush_clients)
            &&& after.animation_outputs_scheduled == if c.animation_outputs_scheduled
                + s.animation_outputs_scheduled <= u64::MAX {
                c.animation_outputs_scheduled + s.animation_outputs_scheduled
            } else {
                u64::MAX as int
            }
            &&& after.animation_active_callbacks == if !s.animations_active
                || c.animation_active_callbacks == u64::MAX {
                c.animation_active_callbacks as int
            } else {
                c.animation_active_callbacks + 1
            }
            &&& after.dispatch_clients_calls == c.dispatch_clients_calls
            &&& after.dispatch_clients_us_total == c.dispatch_clients_us_total
            &&& after.dispatch_clients_us_max == c.dispatch_clients_us_max
            &&& after.dispatch_clients_events_total == c.dispatch_clients_events_total
        }),
{
}

/// Counting a dispatch adds its time, its requests and one call, as far as they
/// fit, and lifts the maximum if it exceeds it. Everything else stays.
pub proof fn law_dispatch_is_counted(c: MainLoopCounters, elapsed: TimeSpan, dispatched: u64)
    ensures
        ({
            let after = with_dispatch(c, elapsed, dispatched);
            &&& after.dispatch_clients_calls == if c.dispatch_clients_calls + 1 <= u64::MAX {
                c.dispatch_clients_calls + 1
            } else {
                u64::MAX as int
            }
            &&& after.dispatch_clients_us_total == if c.dispatch_clients_us_total
                + time::whole_micros(elapsed) <= u64::MAX {
                c.dispatch_clients_us_total + time::whole_micros(elapsed)
            } else {
                u64::MAX as int
            }
            &&& after.dispatch_clients_us_max >= c.dispatch_clients_us_max
                && after.dispatch_clients_us_max >= time::whole_micros(elapsed)
            &&& after.dispatch_clients_us_max == c.dispatch_clients_us_max
                || after.dispatch_clients_us_max == time::whole_micros(elapsed)
            &&& after.dispatch_clients_events_total == if c.dispatch_clients_events_total
                + dispatched <= u64::MAX {
                c.dispatch_clients_events_total + dispatched
            } else {
                u64::MAX as int
            }
            &&& after == MainLoopCounters {
                dispatch_clients_calls: after.dispatch_clients_calls,
                dispatch_clients_us_total: after.dispatch_clients_us_total,
                dispatch_clients_us_max: after.dispatch_clients_us_max,
                dispatch_clients_events_total: after.dispatch_clients_events_total,
                ..c
            }
        }),
{
}

/// The order in which callbacks and dispatches are counted makes no difference.
pub proof fn law_counting_order_does_not_matter(
    c: MainLoopCounters,
    s: MainLoopSample,
    t: MainLoopSample,
    elapsed: TimeSpan,
    dispatched: u64,
    more_elapsed: TimeSpan,
    more_dispatched: u64,
)
    ensures
        with_sample(with_sample(c, s), t) == with_sample(with_sample(c, t), s),
        with_sample(with_dispatch(c, elapsed, dispatched), s) == with_dispatch(
            with_sample(c, s),
            elapsed,
            dispatched,
        ),
        with_dispatch(with_dispatch(c, elapsed, dispatched), more_elapsed, more_dispatched)
            == with_dispatch(
            with_dispatch(c, more_elapsed, more_dispatched),
            elapsed,
            dispatched,
        ),
{
}

/// A report is made exactly if at least a minute has passed since the last one.
/// It holds the counters as they were, and they all start again from zero then;
/// without a report nothing changes.
pub proof fn law_report_once_a_minute(
    before: MainLoopStats,
    now: TimeSpan,
    after: MainLoopStats,
    report: Option<MainLoopReport>,
)
    requires
        logged(before, now, after, report),
    ensures
        report is Some <==> now.nanos >= before.last_log.nanos + 60_000_000_000,
        report is None ==> after == before,
        report matches Some(made) ==> {
            &&& made.counters == before.counters
            &&& after.last_log == now
            &&& after.counters.callbacks == 0
            &&& after.counters.callback_us_total == 0 && after.counters.callback_us_max == 0
            &&& after.counters.update_animations_us_total == 0
                && after.counters.update_animations_us_max == 0
            &&& after.counters.blocker_clear_us_total == 0 && after.counters.blocker_clear_us_max
                == 0
            &&& after.counters.refresh_us_total == 0 && after.counters.refresh_us_max == 0
            &&& after.counters.animation_schedule_us_total == 0
                && after.counters.animation_schedule_us_max == 0
            &&& after.counters.flush_clients_us_total == 0 && after.counters.flush_clients_us_max
                == 0
            &&& after.counters.dispatch_clients_calls == 0
            &&& after.counters.dispatch_clients_us_total == 0
                && after.counters.dispatch_clients_us_max == 0
            &&& after.counters.dispatch_clients_events_total == 0
            &&& after.counters.animation_outputs_scheduled == 0
            &&& after.counters.animation_active_callbacks == 0
        },
{
}

/// A reported average is the total shared out evenly, rounded down, and 0 where
/// nothing was counted.
pub proof fn law_average_shares_the_total(c: MainLoopCounters)
    ensures
        ({
            let report = report_on(c);
            &&& report.counters == c
            &&& c.callbacks == 0 ==> report.callback_us_avg == 0
            &&& c.callbacks > 0 ==> report.callback_us_avg * c.callbacks <= c.callback_us_total < (
            report.callback_us_avg + 1) * c.callbacks
            &&& c.dispatch_clients_calls == 0 ==> report.dispatch_clients_us_avg == 0
            &&& c.dispatch_clients_calls > 0 ==> report.dispatch_clients_us_avg
                * c.dispatch_clients_calls <= c.dispatch_clients_us_total < (
            report.dispatch_clients_us_avg + 1) * c.dispatch_clients_calls
        }),
{
    lemma_shared(c.callback_us_total, c.callbacks);
    lemma_shared(c.dispatch_clients_us_total, c.dispatch_clients_calls);
}

proof fn lemma_shared(total: u64, count: u64)
    ensures
        count > 0 ==> average(total, count) * count <= total < (average(total, count) + 1) * count,
{
    if count > 0 {
        assert((total / count) * count <= total < (total / count + 1) * count) by (nonlinear_arith)
            requires
                count > 0,
        ;
    }
}

/// Statistics start at nothing. What is noted is counted before a report is
/// made: it is in the report where one is made, and in the statistics else. A
/// report is made exactly if at least a minute has passed since the last one,
/// whatever was noted.
pub proof fn law_noted_then_reported(
    fresh: MainLoopStats,
    start: TimeSpan,
    stats: &mut MainLoopStats,
    sample: MainLoopSample,
    now: TimeSpan,
    report: Option<MainLoopReport>,
    dispatch_stats: &mut MainLoopStats,
    elapsed: TimeSpan,
    dispatched: u64,
    dispatch_now: TimeSpan,
    dispatch_report: Option<MainLoopReport>,
)
    requires
        call_ensures(MainLoopStats::new, (start,), fresh),
        call_ensures(note_main_loop_sample, (stats, sample, now), report),
        call_ensures(
            note_wayland_dispatch_sample,
            (dispatch_stats, elapsed, dispatched, dispatch_now),
            dispatch_report,
        ),
    ensures
        fresh.last_log == start,
        fresh.counters.callbacks == 0,
        fresh.counters.dispatch_clients_calls == 0,
        consistent(fresh.counters),
        report is Some <==> now.nanos >= old(stats).last_log.nanos + 60_000_000_000,
        report matches Some(made) ==> {
            &&& made.counters == with_sample(old(stats).counters, sample)
            &&& final(stats).last_log == now
            &&& final(stats).counters == fresh.counters
        },
        report is None ==> {
            &&& final(stats).last_log == old(stats).last_log
            &&& final(stats).counters == with_sample(old(stats).counters, sample)
        },
        dispatch_report is Some <==> dispatch_now.nanos >= old(dispatch_stats).last_log.nanos
            + 60_000_000_000,
        dispatch_report matches Some(made) ==> {
            &&& made.counters == with_dispatch(old(dispatch_stats).counters, elapsed, dispatched)
            &&& final(dispatch_stats).last_log == dispatch_now
            &&& final(dispatch_stats).counters == fresh.counters
        },
        dispatch_report is None ==> {
            &&& final(dispatch_stats).last_log == old(dispatch_stats).last_log
            &&& final(dispatch_stats).counters == with_dispatch(
                old(dispatch_stats).counters,
                elapsed,
                dispatched,
            )
        },
{
    law_counters_stay_consistent(fresh.counters, sample, elapsed, dispatched);
}

/// A report holds the counters as they were, and the averages of the callbacks
/// and the dispatches: each total shared out evenly among what was counted,
/// rounded down, and 0 where nothing was.
pub proof fn law_report_holds_the_averages(
    stats: &mut MainLoopStats,
    now: TimeSpan,
    report: Option<MainLoopReport>,
)
    requires
        call_ensures(maybe_log_main_loop_stats, (stats, now), report),
    ensures
        report is Some <==> now.nanos >= old(stats).last_log.nanos + 60_000_000_000,
        report is None ==> *final(stats) == *old(stats),
        report matches Some(made) ==> {
            let c = old(stats).counters;
            &&& made.counters == c
            &&& c.callbacks == 0 ==> made.callback_us_avg == 0
            &&& c.callbacks > 0 ==> made.callback_us_avg * c.callbacks <= c.callback_us_total < (
            made.callback_us_avg + 1) * c.callbacks
            &&& c.dispatch_clients_calls == 0 ==> made.dispatch_clients_us_avg == 0
            &&& c.dispatch_clients_calls > 0 ==> made.dispatch_clients_us_avg
                * c.dispatch_clients_calls <= c.dispatch_clients_us_total < (
            made.dispatch_clients_us_avg + 1) * c.dispatch_clients_calls
            &&& final(stats).last_log == now
            &&& final(stats).counters.callbacks == 0
            &&& final(stats).counters.dispatch_clients_calls == 0
        },
{
    law_average_shares_the_total(old(stats).counters);
}

} // verus!
