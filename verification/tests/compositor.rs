use clap_lex::RawArgs;
use cosmic_comp::children::{kiosk_exit, ChildPoll, KioskPoll};
use cosmic_comp::main_loop_stats::{
    maybe_log_main_loop_stats, note_main_loop_sample, note_wayland_dispatch_sample,
    MainLoopCounters, MainLoopSample, MainLoopStats,
};
use cosmic_comp::refresh::{LastRefresh, RefreshStep};
use cosmic_comp::startup::{
    help_text, parse_raw_args, parse_startup, priority_to_set, version_text, Startup,
};
use cosmic_comp::state::State;
use cosmic_comp::time::{current_time_ms, duration_us, TimeSpan};

fn nanos(nanos: u128) -> TimeSpan {
    TimeSpan { nanos }
}

fn micros(n: u128) -> TimeSpan {
    nanos(n * 1_000)
}

fn millis(n: u128) -> TimeSpan {
    nanos(n * 1_000_000)
}

fn seconds(n: u128) -> TimeSpan {
    nanos(n * 1_000_000_000)
}

fn strings(values: &[&str]) -> Vec<String> {
    values.iter().map(|value| value.to_string()).collect()
}

fn sample(us: u128) -> MainLoopSample {
    MainLoopSample {
        callback: micros(us),
        update_animations: micros(us + 1),
        blocker_clear: micros(us + 2),
        refresh: micros(us + 3),
        animation_schedule: micros(us + 4),
        flush_clients: micros(us + 5),
        animation_outputs_scheduled: 2,
        animations_active: us > 10,
    }
}

#[test]
fn starts_as_the_arguments_say() {
    let start = |words: &[&str]| parse_raw_args(&RawArgs::new(words.iter().copied()));
    assert_eq!(start(&[]), Startup::Run { with_xwayland: true });
    assert_eq!(start(&["cosmic-comp"]), Startup::Run { with_xwayland: true });
    assert_eq!(
        start(&["cosmic-comp", "--no-xwayland", "--unknown"]),
        Startup::Run { with_xwayland: false }
    );
    assert_eq!(start(&["cosmic-comp", "--no-xwayland", "-h"]), Startup::Help);
    assert_eq!(start(&["cosmic-comp", "--help", "--version"]), Startup::Help);
    assert_eq!(start(&["cosmic-comp", "-V", "--help"]), Startup::Version);
    assert_eq!(start(&["cosmic-comp", "--version"]), Startup::Version);
    assert_eq!(start(&["cosmic-comp", "-v"]), Startup::Version);
}

#[test]
fn ignores_arguments_that_are_not_text() {
    let args = vec![None, Some("--no-xwayland".to_string()), None];
    assert_eq!(parse_startup(&args), Startup::Run { with_xwayland: false });
}

#[test]
fn writes_version_and_help() {
    assert_eq!(version_text("1.2", "abc"), "cosmic-comp 1.2 (git commit abc)");
    let help = help_text("1.2", "abc");
    assert!(help.starts_with("cosmic-comp 1.2 (git commit abc)\nSystem76 <info@system76.com>\n\n"));
    assert!(help.contains("COSMIC\u{2122} desktop environment"));
    assert!(help.ends_with("  -v, --version       Show the version of cosmic-comp"));
    assert_eq!(help.lines().count(), 11);
}

#[test]
fn raises_the_priority_only_where_needed() {
    assert_eq!(priority_to_set(0), Some(-10));
    assert_eq!(priority_to_set(-9), Some(-10));
    assert_eq!(priority_to_set(-10), None);
    assert_eq!(priority_to_set(-20), None);
}

#[test]
fn is_ready_once() {
    let mut state = State::new(1);
    match state.notify_ready(true, strings(&["cosmic-comp", "kiosk", "-a", "b"])) {
        Some(plan) => {
            assert!(plan.announce);
            let kiosk = plan.kiosk.expect("a kiosk command");
            assert_eq!(kiosk.program, "kiosk");
            assert_eq!(kiosk.args, ["-a", "b"]);
        }
        None => panic!("not ready"),
    }
    assert!(state.notify_ready(true, strings(&["cosmic-comp", "kiosk"])).is_none());

    let mut state = State::new(1);
    match state.notify_ready(false, strings(&["cosmic-comp"])) {
        Some(plan) => {
            assert!(!plan.announce);
            assert!(plan.kiosk.is_none());
        }
        None => panic!("not ready"),
    }
}

#[test]
fn ends_with_its_kiosk_child() {
    assert_eq!(kiosk_exit(KioskPoll::Running), None);
    assert_eq!(kiosk_exit(KioskPoll::Exited(Some(3))), Some(3));
    assert_eq!(kiosk_exit(KioskPoll::Exited(Some(0))), Some(0));
    assert_eq!(kiosk_exit(KioskPoll::Exited(None)), Some(1));
    assert_eq!(kiosk_exit(KioskPoll::Failed), Some(1));
}

#[test]
fn reaps_children_that_are_gone() {
    let mut state = State::new(1);
    state.background_launch_children = vec![11, 12, 13, 14];
    let exited = state.reap_background_children(&vec![
        ChildPoll::Exited,
        ChildPoll::Running,
        ChildPoll::Failed,
        ChildPoll::Running,
    ]);
    assert_eq!(exited, [11, 13]);
    assert_eq!(state.background_launch_children, [12, 14]);
}

#[test]
fn rounds_durations_down_and_caps_them() {
    assert_eq!(duration_us(nanos(1_999)), 1);
    assert_eq!(duration_us(micros(u64::MAX as u128)), u64::MAX);
    assert_eq!(duration_us(nanos(u128::MAX)), u64::MAX);
}

#[test]
fn counts_milliseconds_modulo() {
    assert_eq!(current_time_ms(nanos(1_999_999)), 1);
    assert_eq!(current_time_ms(millis(u64::MAX as u128)), u64::MAX);
    assert_eq!(current_time_ms(millis((1 << 64) + 5)), 5);
}

#[test]
fn paces_refreshes() {
    let mut state = State::new(1);
    assert_eq!(state.refresh(seconds(1)), RefreshStep::Refresh);
    state.refreshed(seconds(1));
    assert_eq!(state.last_refresh, LastRefresh::At(seconds(1)));
    assert_eq!(state.refresh(millis(1_100)), RefreshStep::Schedule(millis(50)));
    assert_eq!(state.refresh(millis(1_150)), RefreshStep::Schedule(nanos(0)));
    assert_eq!(state.refresh(nanos(1_150_000_001)), RefreshStep::Refresh);
    assert_eq!(state.refresh(millis(900)), RefreshStep::Schedule(millis(150)));

    assert_eq!(state.refresh_put_off(false), RefreshStep::Refresh);
    assert_eq!(state.last_refresh, LastRefresh::At(seconds(1)));
    assert_eq!(state.refresh_put_off(true), RefreshStep::Skip);
    assert_eq!(state.refresh(seconds(9)), RefreshStep::Skip);
    state.refresh_timer_ended();
    assert_eq!(state.refresh(millis(1_150)), RefreshStep::Refresh);
}

#[test]
fn counts_samples_and_reports_after_a_minute() {
    let mut stats = MainLoopStats::new(seconds(5));
    assert_eq!(note_main_loop_sample(&mut stats, sample(10), seconds(6)), None);
    assert_eq!(note_main_loop_sample(&mut stats, sample(21), seconds(7)), None);
    assert_eq!(note_wayland_dispatch_sample(&mut stats, micros(9), 4, seconds(8)), None);
    assert_eq!(
        stats.counters,
        MainLoopCounters {
            callbacks: 2,
            callback_us_total: 31,
            callback_us_max: 21,
            update_animations_us_total: 33,
            update_animations_us_max: 22,
            blocker_clear_us_total: 35,
            blocker_clear_us_max: 23,
            refresh_us_total: 37,
            refresh_us_max: 24,
            animation_schedule_us_total: 39,
            animation_schedule_us_max: 25,
            flush_clients_us_total: 41,
            flush_clients_us_max: 26,
            dispatch_clients_calls: 1,
            dispatch_clients_us_total: 9,
            dispatch_clients_us_max: 9,
            dispatch_clients_events_total: 4,
            animation_outputs_scheduled: 4,
            animation_active_callbacks: 1,
        }
    );
    assert_eq!(maybe_log_main_loop_stats(&mut stats, nanos(64_999_999_999)), None);
    let report = note_wayland_dispatch_sample(&mut stats, micros(2), 0, seconds(65))
        .expect("a report");
    assert_eq!(report.counters.callbacks, 2);
    assert_eq!(report.callback_us_avg, 15);
    assert!(report.callback_us_avg <= report.counters.callback_us_max);
    assert_eq!(report.dispatch_clients_us_avg, 5);
    assert_eq!(stats, MainLoopStats::new(seconds(65)));
    let report = maybe_log_main_loop_stats(&mut stats, seconds(125)).expect("a report");
    assert_eq!(report.callback_us_avg, 0);
    assert_eq!(report.dispatch_clients_us_avg, 0);
}

#[test]
fn counts_stay_at_their_limit() {
    let mut stats = MainLoopStats::new(seconds(0));
    stats.counters.callbacks = u64::MAX;
    stats.counters.callback_us_total = u64::MAX - 1;
    note_main_loop_sample(&mut stats, sample(7), seconds(1));
    assert_eq!(stats.counters.callbacks, u64::MAX);
    assert_eq!(stats.counters.callback_us_total, u64::MAX);
}

#[test]
fn a_failed_dispatch_stops_the_loop() {
    let mut state = State::new(1);
    let mut stats = MainLoopStats::new(seconds(0));
    assert_eq!(state.wayland_dispatched(&mut stats, micros(3), Some(5), seconds(1)), None);
    assert!(!state.should_stop);
    assert_eq!(stats.counters.dispatch_clients_events_total, 5);
    assert_eq!(state.wayland_dispatched(&mut stats, micros(4), None, seconds(2)), None);
    assert!(state.should_stop);
    assert_eq!(stats.counters.dispatch_clients_calls, 2);
    assert_eq!(stats.counters.dispatch_clients_us_total, 7);
    assert_eq!(stats.counters.dispatch_clients_events_total, 5);
}
