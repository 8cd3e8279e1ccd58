//! The part of the compositor's state that its decisions depend on.

use vstd::prelude::*;
use crate::background_launch;
use crate::background_launch::LaunchRequest;
use crate::background_launch::LaunchStep;
use crate::background_launch::PendingReconcile;
use crate::background_launch::ReconcileRequest;
use crate::background_launch::RegisterStep;
use crate::background_launch::StartingLaunch;
use crate::children;
use crate::children::ChildPoll;
use crate::main_loop_stats;
use crate::main_loop_stats::MainLoopReport;
use crate::main_loop_stats::MainLoopStats;
use crate::refresh;
use crate::refresh::LastRefresh;
use crate::refresh::RefreshStep;
use crate::startup;
use crate::startup::ReadyPlan;
use crate::text;
use crate::time::TimeSpan;

verus! {

/// The compositor's state.
pub struct State {
    /// The compositor's own process id.
    pub process_id: u32,
    /// The number of the next background launch.
    pub next_launch_id: u64,
    /// The process ids of the background-launched children, oldest first.
    pub background_launch_children: Vec<u32>,
    /// Whether the compositor has been ready before.
    pub ready: bool,
    /// Whether the main loop is to end.
    pub should_stop: bool,
    /// When the last refresh was.
    pub last_refresh: LastRefresh,
}

/// The number after `number`; it starts again at 0 after the last one.
pub open spec fn next_number(number: u64) -> u64 {
    if number < u64::MAX {
        (number + 1) as u64
    } else {
        0
    }
}

/// `a` and `b` differ at most in the children and the next launch number.
pub open spec fn same_but_launches(a: State, b: State) -> bool {
    &&& a.process_id == b.process_id
    &&& a.ready == b.ready
    &&& a.should_stop == b.should_stop
    &&& a.last_refresh == b.last_refresh
}

impl State {
    /// The state of a compositor that has just started.
    pub fn new(process_id: u32) -> (r: Self)
        ensures
            r.process_id == process_id,
            r.next_launch_id == 1,
            r.background_launch_children@ == Seq::<u32>::empty(),
            !r.ready,
            !r.should_stop,
            r.last_refresh == LastRefresh::Idle,
    {
        State {
            process_id,
            next_launch_id: 1,
            background_launch_children: Vec::new(),
            ready: false,
            should_stop: false,
            last_refresh: LastRefresh::Idle,
        }
    }

    /// Takes a launch request: refuses it, or accepts it under a new launch id.
    /// A refused request uses up no id.
    pub fn handle_background_launch<R>(&mut self, request: LaunchRequest<R>) -> (r: LaunchStep<R>)
        ensures
            background_launch::launch_step(
                request,
                background_launch::launch_id(old(self).process_id, old(self).next_launch_id),
                r,
            ),
            final(self).next_launch_id == if r is Answer {
                old(self).next_launch_id
            } else {
                next_number(old(self).next_launch_id)
            },
            final(self).background_launch_children@ == old(self).background_launch_children@,
            same_but_launches(*old(self), *final(self)),
    {
        let step = background_launch::begin_launch(self.process_id, self.next_launch_id, request);
        match step {
            LaunchStep::Answer(_) => {},
            LaunchStep::EnsureWorkspace(_) => {
                self.next_launch_id = self.next_launch_id.wrapping_add(1);
            },
        }
        step
    }

    /// Ends a launch: `pid` is the process that was started, `None` where it
    /// could not be. A process that was started joins the children.
    pub fn launch_started<R>(&mut self, starting: StartingLaunch<R>, pid: Option<u32>) -> (r:
        RegisterStep<R>)
        ensures
            background_launch::register_step(starting, pid, r),
            final(self).background_launch_children@ == match pid {
                Some(pid) => old(self).background_launch_children@.push(pid),
                None => old(self).background_launch_children@,
            },
            final(self).next_launch_id == old(self).next_launch_id,
            same_but_launches(*old(self), *final(self)),
    {
        if let Some(pid) = pid {
            self.background_launch_children.push(pid);
        }
        starting.finish(pid)
    }

    /// Takes a reconcile request: the launch id to reconcile, and the request
    /// to answer with what came of it.
    pub fn handle_background_reconcile<R>(&mut self, request: ReconcileRequest<R>) -> (r: (
        String,
        PendingReconcile<R>,
    ))
        ensures
            r.0 == request.launch_id,
            r.1 == (PendingReconcile { reply: request.reply }),
            *final(self) == *old(self),
    {
        (request.launch_id, PendingReconcile { reply: request.reply })
    }

    /// Drops the children that are gone and returns their process ids, so that
    /// their launches can be released; `polls` holds what polling each child
    /// showed.
    pub fn reap_background_children(&mut self, polls: &Vec<ChildPoll>) -> (exited: Vec<u32>)
        requires
            old(self).background_launch_children@.len() == polls@.len(),
        ensures
            exited@ == children::gone(old(self).background_launch_children@, polls@),
            final(self).background_launch_children@ == children::running(
                old(self).background_launch_children@,
                polls@,
            ),
            final(self).next_launch_id == old(self).next_launch_id,
            same_but_launches(*old(self), *final(self)),
    {
        children::reap(&mut self.background_launch_children, polls)
    }

    /// The compositor is ready: what to do the first time, nothing after that.
    /// `on_kms` says whether it drives the display itself, and `args` are the
    /// arguments of the process, its name first.
    pub fn notify_ready(&mut self, on_kms: bool, args: Vec<String>) -> (r: Option<ReadyPlan>)
        ensures
            old(self).ready ==> r is None,
            !old(self).ready ==> {
                &&& r matches Some(plan)
                &&& plan.announce == on_kms
                &&& startup::is_kiosk_command(text::texts(args@), plan.kiosk)
            },
            *final(self) == (State { ready: true, ..*old(self) }),
    {
        if self.ready {
            return None;
        }
        self.ready = true;
        Some(ReadyPlan { announce: on_kms, kiosk: startup::kiosk_command(args) })
    }

    /// Counts a dispatch of client requests that took `elapsed` and ended at
    /// `now`. `dispatched` is the number of requests; `None` stands for an
    /// I/O error, which ends the main loop.
    pub fn wayland_dispatched(
        &mut self,
        stats: &mut MainLoopStats,
        elapsed: TimeSpan,
        dispatched: Option<usize>,
        now: TimeSpan,
    ) -> (r: Option<MainLoopReport>)
        ensures
            main_loop_stats::logged(
                MainLoopStats {
                    counters: main_loop_stats::with_dispatch(
                        old(stats).counters,
                        elapsed,
                        match dispatched {
                            Some(n) => n as u64,
                            None => 0,
                        },
                    ),
                    ..*old(stats)
                },
                now,
                *final(stats),
                r,
            ),
            *final(self) == (State {
                should_stop: old(self).should_stop || dispatched is None,
                ..*old(self)
            }),
    {
        match dispatched {
            Some(n) => main_loop_stats::note_wayland_dispatch_sample(stats, elapsed, n as u64, now),
            None => {
                self.should_stop = true;
                main_loop_stats::note_wayland_dispatch_sample(stats, elapsed, 0, now)
            },
        }
    }

    /// Decides about a refresh at `now`.
    pub fn refresh(&self, now: TimeSpan) -> (r: RefreshStep)
        ensures
            r == refresh::step_at(self.last_refresh, now),
    {
        refresh::refresh_step(self.last_refresh, now)
    }

    /// Goes on with a refresh that was put off: `set` says whether its timer
    /// could be set. Where it could not, the compositor refreshes at once.
    pub fn refresh_put_off(&mut self, set: bool) -> (r: RefreshStep)
        ensures
            r == if set {
                RefreshStep::Skip
            } else {
                RefreshStep::Refresh
            },
            *final(self) == if set {
                State { last_refresh: LastRefresh::Scheduled, ..*old(self) }
            } else {
                *old(self)
            },
    {
        if set {
            self.last_refresh = LastRefresh::Scheduled;
            RefreshStep::Skip
        } else {
            RefreshStep::Refresh
        }
    }

    /// The timer of a refresh that was put off has ended.
    pub fn refresh_timer_ended(&mut self)
        ensures
            *final(self) == (State { last_refresh: LastRefresh::Idle, ..*old(self) }),
    {
        self.last_refresh = LastRefresh::Idle;
    }

    /// A refresh was done at `now`.
    pub fn refreshed(&mut self, now: TimeSpan)
        ensures
            *final(self) == (State { last_refresh: LastRefresh::At(now), ..*old(self) }),
    {
        self.last_refresh = LastRefresh::At(now);
    }
}

/// Two launches that are accepted one after the other have different ids.
pub proof fn law_next_launch_id_is_new(process_id: u32, number: u64)
    ensures
        background_launch::launch_id(process_id, number) != background_launch::launch_id(
            process_id,
            next_number(number),
        ),
{
    if background_launch::launch_id(process_id, number) == background_launch::launch_id(
        process_id,
        next_number(number),
    ) {
        background_launch::law_launch_ids_differ(
            process_id,
            number,
            process_id,
            next_number(number),
        );
    }
}

/// The numbers of launches count up by one, and start again at 0 only after the
/// largest; no number follows two others.
pub proof fn law_launch_numbers_count_up(number: u64, other: u64)
    ensures
        number < u64::MAX ==> next_number(number) == number + 1,
        number == u64::MAX ==> next_number(number) == 0,
        next_number(number) == next_number(other) ==> number == other,
{
}

/// A launch leaves the rest of the state alone.
pub proof fn law_launches_leave_the_rest_alone(a: State, b: State)
    ensures
        same_but_launches(a, b) <==> b == (State {
            next_launch_id: b.next_launch_id,
            background_launch_children: b.background_launch_children,
            ..a
        }),
{
}

/// A child that joined and has exited by the next poll is returned then, and
/// the children before it are sorted as if it had not joined.
pub proof fn law_started_child_is_reaped(
    before: Seq<u32>,
    pid: u32,
    polls: Seq<ChildPoll>,
    poll: ChildPoll,
)
    requires
        before.len() == polls.len(),
    ensures
        poll != ChildPoll::Running ==> {
            &&& children::gone(before.push(pid), polls.push(poll)) == children::gone(
                before,
                polls,
            ).push(pid)
            &&& children::running(before.push(pid), polls.push(poll)) == children::running(
                before,
                polls,
            )
        },
        poll == ChildPoll::Running ==> {
            &&& children::gone(before.push(pid), polls.push(poll)) == children::gone(before, polls)
            &&& children::running(before.push(pid), polls.push(poll)) == children::running(
                before,
                polls,
            ).push(pid)
        },
{
    children::law_children_are_sorted_one_by_one(
        pid,
        poll,
        before,
        polls,
        seq![pid],
        seq![poll],
    );
    assert(before.push(pid) =~= before + seq![pid]);
    assert(polls.push(poll) =~= polls + seq![poll]);
    let g = children::gone(before, polls);
    let r = children::running(before, polls);
    assert(g.push(pid) =~= g + seq![pid]);
    assert(r.push(pid) =~= r + seq![pid]);
    assert(g =~= g + Seq::<u32>::empty());
    assert(r =~= r + Seq::<u32>::empty());
}

/// The compositor becomes ready once: the first time there is something to do,
/// and it announces itself exactly if it drives the display; from then on there
/// is nothing to do. Nothing else changes.
pub proof fn law_ready_once(
    first: &mut State,
    on_kms: bool,
    args: Vec<String>,
    plan: Option<ReadyPlan>,
    second: &mut State,
    again_on_kms: bool,
    again_args: Vec<String>,
    again: Option<ReadyPlan>,
)
    requires
        call_ensures(State::notify_ready, (first, on_kms, args), plan),
        call_ensures(State::notify_ready, (second, again_on_kms, again_args), again),
        *old(second) == *final(first),
    ensures
        plan is Some <==> !old(first).ready,
        again is None,
        plan matches Some(todo) ==> {
            &&& todo.announce == on_kms
            &&& todo.kiosk is Some <==> args@.len() > 1
            &&& todo.kiosk matches Some(kiosk) ==> kiosk.program@ == args@[1]@
                && kiosk.args@.len() == args@.len() - 2
        },
        *final(first) == (State { ready: true, ..*old(first) }),
        *final(second) == *final(first),
{
    if let Some(todo) = plan {
        startup::law_kiosk_command_is_the_rest(text::texts(args@), todo.kiosk);
    }
}

/// Launch requests in a row get ids with numbers in a row. A refused request
/// gets none, and the next one gets the id that it would have got. Requests
/// start no process and leave the rest of the state alone.
pub proof fn law_launch_ids_in_a_row<R>(
    first: &mut State,
    request: LaunchRequest<R>,
    step: LaunchStep<R>,
    second: &mut State,
    next_request: LaunchRequest<R>,
    next_step: LaunchStep<R>,
)
    requires
        call_ensures(State::handle_background_launch::<R>, (first, request), step),
        call_ensures(State::handle_background_launch::<R>, (second, next_request), next_step),
        *old(second) == *final(first),
    ensures
        step matches LaunchStep::EnsureWorkspace(pending) ==> pending.launch_id@
            == background_launch::launch_id(old(first).process_id, old(first).next_launch_id),
        next_step matches LaunchStep::EnsureWorkspace(pending) ==> {
            &&& step is Answer ==> pending.launch_id@ == background_launch::launch_id(
                old(first).process_id,
                old(first).next_launch_id,
            )
            &&& step is EnsureWorkspace && old(first).next_launch_id < u64::MAX
                ==> pending.launch_id@ == background_launch::launch_id(
                old(first).process_id,
                (old(first).next_launch_id + 1) as u64,
            )
            &&& step matches LaunchStep::EnsureWorkspace(earlier) ==> pending.launch_id@
                != earlier.launch_id@
        },
        final(first).background_launch_children@ == old(first).background_launch_children@,
        final(first).process_id == old(first).process_id,
        final(first).ready == old(first).ready,
        final(first).should_stop == old(first).should_stop,
        final(first).last_refresh == old(first).last_refresh,
{
    law_next_launch_id_is_new(old(first).process_id, old(first).next_launch_id);
    if let LaunchStep::EnsureWorkspace(pending) = step {
        background_launch::law_accepted_launch_is_the_requested_one(
            request,
            background_launch::launch_id(old(first).process_id, old(first).next_launch_id),
            pending,
            0,
        );
    }
    if let LaunchStep::EnsureWorkspace(pending) = next_step {
        background_launch::law_accepted_launch_is_the_requested_one(
            next_request,
            background_launch::launch_id(old(second).process_id, old(second).next_launch_id),
            pending,
            0,
        );
    }
}

/// A process that was started joins the children as the newest, and is polled
/// and dropped like the others from then on: once it has exited, the next poll
/// returns it last. A launch that failed to start adds no child.
pub proof fn law_started_process_is_watched<R>(
    first: &mut State,
    starting: StartingLaunch<R>,
    pid: Option<u32>,
    step: RegisterStep<R>,
    second: &mut State,
    polls: &Vec<ChildPoll>,
    exited: Vec<u32>,
)
    requires
        call_ensures(State::launch_started::<R>, (first, starting, pid), step),
        call_ensures(State::reap_background_children, (second, polls), exited),
        *old(second) == *final(first),
        polls@.len() == old(second).background_launch_children@.len(),
    ensures
        pid is None ==> final(first).background_launch_children@
            == old(first).background_launch_children@,
        pid matches Some(pid) ==> {
            let joined = final(first).background_launch_children@;
            &&& joined.len() == old(first).background_launch_children@.len() + 1
            &&& joined.last() == pid
            &&& joined.drop_last() == old(first).background_launch_children@
            &&& polls@.last() != ChildPoll::Running ==> exited@.len() > 0 && exited@.last() == pid
            &&& polls@.last() == ChildPoll::Running ==> final(second).background_launch_children@.len() > 0
                && final(second).background_launch_children@.last() == pid
        },
        final(first).next_launch_id == old(first).next_launch_id,
        final(first).process_id == old(first).process_id,
        final(first).ready == old(first).ready,
        final(first).should_stop == old(first).should_stop,
        final(first).last_refresh == old(first).last_refresh,
        final(second).next_launch_id == old(second).next_launch_id,
        final(second).process_id == old(second).process_id,
        final(second).ready == old(second).ready,
        final(second).should_stop == old(second).should_stop,
        final(second).last_refresh == old(second).last_refresh,
{
    if let Some(pid) = pid {
        let before = old(first).background_launch_children@;
        let joined = final(first).background_launch_children@;
        assert(joined.drop_last() =~= before);
        law_started_child_is_reaped(before, pid, polls@.drop_last(), polls@.last());
        assert(polls@.drop_last().push(polls@.last()) =~= polls@);
        assert(before.push(pid) =~= joined);
    }
}

/// Each child that is polled is kept if it runs and returned if it does not.
pub proof fn law_polled_children_are_sorted(
    state: &mut State,
    polls: &Vec<ChildPoll>,
    exited: Vec<u32>,
    i: int,
)
    requires
        call_ensures(State::reap_background_children, (state, polls), exited),
        polls@.len() == old(state).background_launch_children@.len(),
        0 <= i < polls@.len(),
    ensures
        polls@[i] == ChildPoll::Running ==> final(state).background_launch_children@.contains(
            old(state).background_launch_children@[i],
        ),
        polls@[i] != ChildPoll::Running ==> exited@.contains(
            old(state).background_launch_children@[i],
        ),
        final(state).background_launch_children@.len() + exited@.len() == polls@.len(),
{
    broadcast use vstd::seq_lib::group_to_multiset_ensures;

    let pids = old(state).background_launch_children@;
    children::law_each_child_by_its_own_poll(pids, polls@, i);
    children::law_every_child_is_accounted_for(pids, polls@);
    let kept = final(state).background_launch_children@;
    assert(pids.to_multiset().len() == kept.to_multiset().len() + exited@.to_multiset().len());
}

/// A reconcile request names the launch that it asks for, is answered where it
/// said, and leaves the state alone.
pub proof fn law_reconcile_leaves_the_state_alone<R>(
    state: &mut State,
    request: ReconcileRequest<R>,
    r: (String, PendingReconcile<R>),
)
    requires
        call_ensures(State::handle_background_reconcile::<R>, (state, request), r),
    ensures
        r.0@ == request.launch_id@,
        r.1.reply == request.reply,
        *final(state) == *old(state),
{
}

/// The main loop is to end exactly if it was before or a dispatch failed. The
/// dispatch is counted either way, with no requests where it failed.
pub proof fn law_failed_dispatch_ends_the_loop(
    state: &mut State,
    stats: &mut MainLoopStats,
    elapsed: TimeSpan,
    dispatched: Option<usize>,
    now: TimeSpan,
    r: Option<MainLoopReport>,
)
    requires
        call_ensures(State::wayland_dispatched, (state, stats, elapsed, dispatched, now), r),
    ensures
        final(state).should_stop <==> old(state).should_stop || dispatched is None,
        *final(state) == (State { should_stop: final(state).should_stop, ..*old(state) }),
        r is Some <==> now.nanos >= old(stats).last_log.nanos + 60_000_000_000,
        ({
            let c = old(stats).counters;
            let counted = if r is Some {
                r->Some_0.counters
            } else {
                final(stats).counters
            };
            let n = match dispatched {
                Some(n) => n as u64,
                None => 0,
            };
            &&& c.dispatch_clients_calls < u64::MAX ==> counted.dispatch_clients_calls
                == c.dispatch_clients_calls + 1
            &&& c.dispatch_clients_events_total + n <= u64::MAX
                ==> counted.dispatch_clients_events_total == c.dispatch_clients_events_total + n
            &&& counted.callbacks == c.callbacks
        }),
{
}

/// While the timer of a refresh that was put off runs, nothing is done about
/// refreshes; once it has ended, the next one is done. Where the timer could
/// not be set, the refresh is done at once.
pub proof fn law_refresh_that_was_put_off(
    state: &mut State,
    set: bool,
    step: RefreshStep,
    ended: &mut State,
    now: TimeSpan,
)
    requires
        call_ensures(State::refresh_put_off, (state, set), step),
        call_ensures(State::refresh_timer_ended, (ended,), ()),
        *old(ended) == *final(state),
    ensures
        set ==> step == RefreshStep::Skip && refresh::step_at(final(state).last_refresh, now)
            == RefreshStep::Skip,
        !set ==> step == RefreshStep::Refresh && *final(state) == *old(state),
        refresh::step_at(final(ended).last_refresh, now) == RefreshStep::Refresh,
        *final(state) == (State { last_refresh: final(state).last_refresh, ..*old(state) }),
        *final(ended) == (State { last_refresh: final(ended).last_refresh, ..*old(ended) }),
{
}

/// After a refresh the next one is done exactly once more than an interval has
/// passed, and never left undone before that without a timer.
pub proof fn law_next_refresh_after_a_refresh(
    state: &mut State,
    at: TimeSpan,
    after: &State,
    now: TimeSpan,
    step: RefreshStep,
)
    requires
        call_ensures(State::refreshed, (state, at), ()),
        call_ensures(State::refresh, (after, now), step),
        *after == *final(state),
    ensures
        step == RefreshStep::Refresh <==> now.nanos > at.nanos + 150_000_000,
        step is Schedule <==> now.nanos <= at.nanos + 150_000_000,
        *final(state) == (State { last_refresh: final(state).last_refresh, ..*old(state) }),
{
    refresh::law_due_refresh_is_done(at, now);
}

/// The compositor starts with nothing launched and nothing to refresh, and its
/// first launch has the number 1.
pub proof fn law_fresh_state<R>(
    process_id: u32,
    fresh: State,
    now: TimeSpan,
    step: RefreshStep,
    state: &mut State,
    request: LaunchRequest<R>,
    launched: LaunchStep<R>,
)
    requires
        call_ensures(State::new, (process_id,), fresh),
        call_ensures(State::refresh, (&fresh, now), step),
        call_ensures(State::handle_background_launch::<R>, (state, request), launched),
        *old(state) == fresh,
    ensures
        fresh.background_launch_children@.len() == 0,
        !fresh.ready,
        !fresh.should_stop,
        step == RefreshStep::Refresh,
        launched matches LaunchStep::EnsureWorkspace(pending) ==> pending.launch_id@
            == background_launch::launch_id(process_id, 1),
{
}

/// A launch that goes through: its program is started in the directory of its
/// request, if the request names one, and with its arguments; it is registered
/// with the workspace and the pacing of the request under the process that was
/// started, and that process and the launch id are the answer, which goes where
/// the request said.
pub proof fn law_launch_goes_through<R>(
    accepting: &mut State,
    request: LaunchRequest<R>,
    pending: background_launch::PendingLaunch<R>,
    session: crate::environment::EnvVars,
    command: background_launch::SpawnCommand,
    starting: StartingLaunch<R>,
    started: &mut State,
    pid: u32,
    step: RegisterStep<R>,
    i: int,
)
    requires
        call_ensures(
            State::handle_background_launch::<R>,
            (accepting, request),
            LaunchStep::EnsureWorkspace(pending),
        ),
        call_ensures(
            background_launch::PendingLaunch::<R>::with_session_environment,
            (pending, Ok::<crate::environment::EnvVars, String>(session)),
            background_launch::SpawnStep::Spawn(command, starting),
        ),
        call_ensures(State::launch_started::<R>, (started, starting, Some(pid)), step),
    ensures
        !text::blank(request.workspace_name@),
        command.program@ == request.argv@[0]@,
        command.program@.len() > 0,
        command.args@.len() == request.argv@.len() - 1,
        1 <= i < request.argv@.len() ==> command.args@[i - 1]@ == request.argv@[i]@,
        request.cwd@.len() > 0 ==> command.cwd is Some && command.cwd->Some_0@ == request.cwd@,
        request.cwd@.len() == 0 ==> command.cwd is None,
        step matches RegisterStep::Register(registration, answer) && registration.pid == pid
            && registration.workspace_name@ == request.workspace_name@
            && registration.frame_pacing == request.frame_pacing && answer.reply == request.reply
            && answer.result is Ok && answer.result->Ok_0.pid == pid
            && answer.result->Ok_0.launch_id@ == registration.launch_id@
            && registration.launch_id@ == background_launch::launch_id(
            old(accepting).process_id,
            old(accepting).next_launch_id,
        ),
{
    let id = background_launch::launch_id(old(accepting).process_id, old(accepting).next_launch_id);
    background_launch::law_what_a_launch_needs(
        request,
        id,
        LaunchStep::EnsureWorkspace(pending),
    );
    background_launch::law_accepted_launch_is_the_requested_one(request, id, pending, i);
    background_launch::law_session_starts_the_launch(
        pending,
        Ok(session),
        background_launch::SpawnStep::Spawn(command, starting),
        i - 1,
        Seq::empty(),
        Seq::empty(),
    );
    background_launch::law_started_launch_is_registered(starting, Some(pid), step);
}

} // verus!
