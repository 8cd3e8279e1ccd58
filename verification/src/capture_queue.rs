//! The frames that wait to be captured from an output, and statistics on them.
//!
//! At most one frame of a session waits, and at most eight frames in all; an
//! older frame makes room for a newer one by failing.

use vstd::prelude::*;
use crate::capture_sessions::Output;
use crate::capture_sessions::SessionRef;
use crate::main_loop_stats;
use crate::main_loop_stats::REPORT_INTERVAL_NANOS;
use crate::time;
use crate::time::TimeSpan;

verus! {

/// A frame that a client asked for.
#[derive(Clone, Copy, Debug, PartialEq, Eq, Structural)]
pub struct FrameRef {
    pub id: u64,
}

/// A waiting frame and the session that it belongs to.
#[derive(Clone, Copy, Debug, PartialEq, Eq, Structural)]
pub struct PendingFrame {
    pub session: SessionRef,
    pub frame: FrameRef,
}

/// How many frames may wait on one output.
pub const MAX_PENDING_FRAMES_PER_OUTPUT: usize = 8;

/// What has been counted since the last report. Counts stay at `u64::MAX` once
/// they reach it.
#[derive(Clone, Copy, Debug, PartialEq, Eq, Structural)]
pub struct CaptureQueueStats {
    pub last_log: TimeSpan,
    pub queued: u64,
    pub taken: u64,
    pub dropped_session_cap: u64,
    pub dropped_output_cap: u64,
    pub max_pending_after_push: usize,
}

/// The counts at a report.
#[derive(Clone, Copy, Debug, PartialEq, Eq, Structural)]
pub struct CaptureQueueReport {
    pub queued: u64,
    pub taken: u64,
    pub dropped_session_cap: u64,
    pub dropped_output_cap: u64,
    pub max_pending_after_push: usize,
}

/// Statistics that start at `now`.
pub open spec fn fresh_stats(now: TimeSpan) -> CaptureQueueStats {
    CaptureQueueStats {
        last_log: now,
        queued: 0,
        taken: 0,
        dropped_session_cap: 0,
        dropped_output_cap: 0,
        max_pending_after_push: 0,
    }
}

/// The statistics with these numbers counted in.
pub open spec fn counted(
    stats: CaptureQueueStats,
    queued: u64,
    taken: u64,
    dropped_session_cap: u64,
    dropped_output_cap: u64,
    pending_after_push: usize,
) -> CaptureQueueStats {
    CaptureQueueStats {
        last_log: stats.last_log,
        queued: main_loop_stats::capped_sum(stats.queued, queued),
        taken: main_loop_stats::capped_sum(stats.taken, taken),
        dropped_session_cap: main_loop_stats::capped_sum(stats.dropped_session_cap, dropped_session_cap),
        dropped_output_cap: main_loop_stats::capped_sum(stats.dropped_output_cap, dropped_output_cap),
        max_pending_after_push: if stats.max_pending_after_push < pending_after_push {
            pending_after_push
        } else {
            stats.max_pending_after_push
        },
    }
}

/// `after` and `report` are what becomes of `before` at `now`: where a report
/// is due it is made and the counts start again, else nothing happens.
pub open spec fn logged(
    before: CaptureQueueStats,
    now: TimeSpan,
    after: CaptureQueueStats,
    report: Option<CaptureQueueReport>,
) -> bool {
    if main_loop_stats::report_due(before.last_log, now) {
        &&& report == Some(
            CaptureQueueReport {
                queued: before.queued,
                taken: before.taken,
                dropped_session_cap: before.dropped_session_cap,
                dropped_output_cap: before.dropped_output_cap,
                max_pending_after_push: before.max_pending_after_push,
            },
        )
        &&& after == fresh_stats(now)
    } else {
        &&& report is None
        &&& after == before
    }
}

impl CaptureQueueStats {
    /// Statistics that start at `now`.
    pub fn new(now: TimeSpan) -> (r: Self)
        ensures
            r == fresh_stats(now),
    {
        CaptureQueueStats {
            last_log: now,
            queued: 0,
            taken: 0,
            dropped_session_cap: 0,
            dropped_output_cap: 0,
            max_pending_after_push: 0,
        }
    }
}

/// Counts what happened to a queue at `now`, and makes the report that is due.
pub fn note_capture_queue(
    stats: &mut CaptureQueueStats,
    queued: u64,
    taken: u64,
    dropped_session_cap: u64,
    dropped_output_cap: u64,
    pending_after_push: usize,
    now: TimeSpan,
) -> (r: Option<CaptureQueueReport>)
    ensures
        logged(
            counted(
                *old(stats),
                queued,
                taken,
                dropped_session_cap,
                dropped_output_cap,
                pending_after_push,
            ),
            now,
            *final(stats),
            r,
        ),
{
    stats.queued = stats.queued.saturating_add(queued);
    stats.taken = stats.taken.saturating_add(taken);
    stats.dropped_session_cap = stats.dropped_session_cap.saturating_add(dropped_session_cap);
    stats.dropped_output_cap = stats.dropped_output_cap.saturating_add(dropped_output_cap);
    if stats.max_pending_after_push < pending_after_push {
        stats.max_pending_after_push = pending_after_push;
    }
    if now.since(stats.last_log).nanos < REPORT_INTERVAL_NANOS {
        return None;
    }
    let report = CaptureQueueReport {
        queued: stats.queued,
        taken: stats.taken,
        dropped_session_cap: stats.dropped_session_cap,
        dropped_output_cap: stats.dropped_output_cap,
        max_pending_after_push: stats.max_pending_after_push,
    };
    *stats = CaptureQueueStats::new(now);
    Some(report)
}

/// The frames of a queue that belong to `session`, oldest first.
pub open spec fn frames_of(queue: Seq<PendingFrame>, session: SessionRef) -> Seq<PendingFrame> {
    queue.filter(|p: PendingFrame| p.session == session)
}

/// The frames of a queue that belong to other sessions, oldest first.
pub open spec fn frames_of_others(queue: Seq<PendingFrame>, session: SessionRef) -> Seq<
    PendingFrame,
> {
    queue.filter(|p: PendingFrame| p.session != session)
}

/// How many frames must leave a queue of this length before one can join.
pub open spec fn overflow(len: nat) -> nat {
    if len < MAX_PENDING_FRAMES_PER_OUTPUT {
        0
    } else {
        (len - MAX_PENDING_FRAMES_PER_OUTPUT + 1) as nat
    }
}

/// The waiting frames once `new` joined: the earlier frames of its session are
/// gone, then the oldest frames for which there is no room.
pub open spec fn with_frame(queue: Seq<PendingFrame>, new: PendingFrame) -> Seq<PendingFrame> {
    let others = frames_of_others(queue, new.session);
    others.skip(overflow(others.len()) as int).push(new)
}

/// The frames that fail so that `new` can join, in the order in which they do.
pub open spec fn failed_for(queue: Seq<PendingFrame>, new: PendingFrame) -> Seq<PendingFrame> {
    let others = frames_of_others(queue, new.session);
    frames_of(queue, new.session) + others.take(overflow(others.len()) as int)
}

/// A queue without a given frame.
pub open spec fn without_frame(queue: Seq<PendingFrame>, frame: FrameRef) -> Seq<PendingFrame> {
    queue.filter(|p: PendingFrame| p.frame != frame)
}

/// What came of adding a frame.
pub struct AddedFrame {
    /// Whether no frame was waiting before.
    pub was_empty: bool,
    /// The frames that are to be failed, with an unknown reason, in this order.
    pub failed: Vec<PendingFrame>,
    /// The report that was due.
    pub report: Option<CaptureQueueReport>,
}

/// What holds the frames that wait to be captured from it.
pub trait FrameHolder {
    /// The waiting frames, oldest first.
    spec fn pending_frames(&self) -> Seq<PendingFrame>;

    /// Lets a frame wait, at `now`.
    fn add_frame(
        &mut self,
        session: SessionRef,
        frame: FrameRef,
        stats: &mut CaptureQueueStats,
        now: TimeSpan,
    ) -> (r: AddedFrame)
        ensures
            final(self).pending_frames() == with_frame(
                old(self).pending_frames(),
                PendingFrame { session, frame },
            ),
            r.was_empty == (old(self).pending_frames().len() == 0),
            r.failed@ == failed_for(old(self).pending_frames(), PendingFrame { session, frame }),
            logged(
                counted(
                    *old(stats),
                    1,
                    0,
                    frames_of(old(self).pending_frames(), session).len() as u64,
                    overflow(frames_of_others(old(self).pending_frames(), session).len()) as u64,
                    final(self).pending_frames().len() as usize,
                ),
                now,
                *final(stats),
                r.report,
            ),
    ;

    /// Takes a frame back.
    fn remove_frame(&mut self, frame: FrameRef)
        ensures
            final(self).pending_frames() == without_frame(old(self).pending_frames(), frame),
    ;

    /// Takes all waiting frames, at `now`, and returns them with the report
    /// that was due.
    fn take_pending_frames(&mut self, stats: &mut CaptureQueueStats, now: TimeSpan) -> (r: (
        Vec<PendingFrame>,
        Option<CaptureQueueReport>,
    ))
        ensures
            r.0@ == old(self).pending_frames(),
            final(self).pending_frames() == Seq::<PendingFrame>::empty(),
            logged(
                counted(*old(stats), 0, old(self).pending_frames().len() as u64, 0, 0, 0),
                now,
                *final(stats),
                r.1,
            ),
    ;
}

/// The frames of an optional queue.
pub open spec fn frames_in(pending: Option<Vec<PendingFrame>>) -> Seq<PendingFrame> {
    match pending {
        Some(queue) => queue@,
        None => Seq::empty(),
    }
}

/// Splits a queue into the frames of `session` and the others.
fn split_queue(queue: &Vec<PendingFrame>, session: SessionRef) -> (r: (
    Vec<PendingFrame>,
    Vec<PendingFrame>,
))
    ensures
        r.0@ == frames_of(queue@, session),
        r.1@ == frames_of_others(queue@, session),
        r.0@.len() <= queue@.len(),
        r.1@.len() <= queue@.len(),
{
    let mut own: Vec<PendingFrame> = Vec::new();
    let mut others: Vec<PendingFrame> = Vec::new();
    let mut i: usize = 0;
    proof {
        reveal(Seq::filter);
        assert(queue@.take(0) =~= Seq::<PendingFrame>::empty());
    }
    while i < queue.len()
        invariant
            i <= queue@.len(),
            own@ == frames_of(queue@.take(i as int), session),
            others@ == frames_of_others(queue@.take(i as int), session),
            own@.len() <= i,
            others@.len() <= i,
        decreases queue@.len() - i,
    {
        proof {
            reveal(Seq::filter);
            assert(queue@.take(i + 1).drop_last() =~= queue@.take(i as int));
        }
        if queue[i].session == session {
            own.push(queue[i]);
        } else {
            others.push(queue[i]);
        }
        i = i + 1;
    }
    assert(queue@.take(queue@.len() as int) =~= queue@);
    (own, others)
}

impl FrameHolder for Output {
    open spec fn pending_frames(&self) -> Seq<PendingFrame> {
        frames_in(self.user_data.pending)
    }

    fn add_frame(
        &mut self,
        session: SessionRef,
        frame: FrameRef,
        stats: &mut CaptureQueueStats,
        now: TimeSpan,
    ) -> (r: AddedFrame)
        ensures
            final(self).user_data.image_copy == old(self).user_data.image_copy,
    {
        let ghost before = self.pending_frames();
        let queue = match self.user_data.pending.take() {
            Some(queue) => queue,
            None => Vec::new(),
        };
        let was_empty = queue.len() == 0;

        let (own, others) = split_queue(&queue, session);
        let dropped_session_cap: u64 = own.len() as u64;
        let mut failed = own;

        let ghost rest = others@;
        let mut pending = others;
        let mut dropped_output_cap: u64 = 0;
        while pending.len() >= MAX_PENDING_FRAMES_PER_OUTPUT
            invariant
                dropped_output_cap <= rest.len(),
                rest.len() <= usize::MAX,
                pending@ == rest.skip(dropped_output_cap as int),
                failed@ == own@ + rest.take(dropped_output_cap as int),
                dropped_output_cap <= overflow(rest.len()),
            decreases pending@.len(),
        {
            let oldest = pending.remove(0);
            failed.push(oldest);
            dropped_output_cap = dropped_output_cap + 1;
            proof {
                let n = dropped_output_cap as int;
                assert(rest.skip(n - 1)[0] == rest[n - 1]);
                assert(pending@ =~= rest.skip(n));
                assert(rest.take(n) =~= rest.take(n - 1).push(rest[n - 1]));
                assert(failed@ =~= own@ + rest.take(n));
            }
        }
        pending.push(PendingFrame { session, frame });
        let report = note_capture_queue(
            stats,
            1,
            0,
            dropped_session_cap,
            dropped_output_cap,
            pending.len(),
            now,
        );
        self.user_data.pending = Some(pending);
        AddedFrame { was_empty, failed, report }
    }

    fn remove_frame(&mut self, frame: FrameRef)
        ensures
            final(self).user_data.image_copy == old(self).user_data.image_copy,
    {
        match self.user_data.pending.take() {
            Some(queue) => {
                let mut kept: Vec<PendingFrame> = Vec::new();
                let mut i: usize = 0;
                proof {
                    reveal(Seq::filter);
                    assert(queue@.take(0) =~= Seq::<PendingFrame>::empty());
                }
                while i < queue.len()
                    invariant
                        i <= queue@.len(),
                        kept@ == without_frame(queue@.take(i as int), frame),
                    decreases queue@.len() - i,
                {
                    proof {
                        reveal(Seq::filter);
                        assert(queue@.take(i + 1).drop_last() =~= queue@.take(i as int));
                    }
                    if queue[i].frame != frame {
                        kept.push(queue[i]);
                    }
                    i = i + 1;
                }
                assert(queue@.take(queue@.len() as int) =~= queue@);
                self.user_data.pending = Some(kept);
            },
            None => {
                proof {
                    reveal(Seq::filter);
                }
            },
        }
    }

    fn take_pending_frames(&mut self, stats: &mut CaptureQueueStats, now: TimeSpan) -> (r: (
        Vec<PendingFrame>,
        Option<CaptureQueueReport>,
    ))
        ensures
            final(self).user_data.image_copy == old(self).user_data.image_copy,
    {
        let frames = match self.user_data.pending.take() {
            Some(queue) => {
                self.user_data.pending = Some(Vec::new());
                queue
            },
            None => Vec::new(),
        };
        let report = note_capture_queue(stats, 0, frames.len() as u64, 0, 0, 0, now);
        (frames, report)
    }
}

/// No session has two frames in the queue, and there are no more frames than
/// an output takes.
pub open spec fn queue_ok(queue: Seq<PendingFrame>) -> bool {
    &&& queue.len() <= MAX_PENDING_FRAMES_PER_OUTPUT
    &&& forall|i: int, j: int|
        0 <= i < j < queue.len() ==> #[trigger] queue[i].session != #[trigger] queue[j].session
}

/// `part` holds items of `whole` in the same order, at the places `at`.
spec fn placed(part: Seq<PendingFrame>, whole: Seq<PendingFrame>, at: Seq<int>) -> bool {
    &&& at.len() == part.len()
    &&& forall|i: int|
        0 <= i < part.len() ==> 0 <= #[trigger] at[i] < whole.len() && whole[at[i]] == part[i]
    &&& forall|i: int, j: int| 0 <= i < j < at.len() ==> #[trigger] at[i] < #[trigger] at[j]
}

proof fn lemma_filter_placed(
    queue: Seq<PendingFrame>,
    pred: spec_fn(PendingFrame) -> bool,
) -> (at: Seq<int>)
    ensures
        placed(queue.filter(pred), queue, at),
        forall|i: int| 0 <= i < queue.filter(pred).len() ==> pred(#[trigger] queue.filter(pred)[i]),
    decreases queue.len(),
{
    reveal(Seq::filter);
    if queue.len() == 0 {
        Seq::empty()
    } else {
        let at = lemma_filter_placed(queue.drop_last(), pred);
        if pred(queue.last()) {
            at.push(queue.len() - 1)
        } else {
            at
        }
    }
}

proof fn lemma_part_ok(part: Seq<PendingFrame>, whole: Seq<PendingFrame>, at: Seq<int>)
    requires
        queue_ok(whole),
        placed(part, whole, at),
        part.len() <= whole.len(),
    ensures
        queue_ok(part),
{
    assert forall|i: int, j: int| 0 <= i < j < part.len() implies #[trigger] part[i].session
        != #[trigger] part[j].session by {
        assert(at[i] < at[j]);
        assert(whole[at[i]] == part[i] && whole[at[j]] == part[j]);
    }
}

proof fn lemma_split(queue: Seq<PendingFrame>, session: SessionRef)
    ensures
        queue.len() == frames_of(queue, session).len() + frames_of_others(queue, session).len(),
        queue.to_multiset() == frames_of(queue, session).to_multiset().add(
            frames_of_others(queue, session).to_multiset(),
        ),
    decreases queue.len(),
{
    broadcast use vstd::seq_lib::group_to_multiset_ensures;

    reveal(Seq::filter);
    if queue.len() > 0 {
        lemma_split(queue.drop_last(), session);
        assert(queue =~= queue.drop_last().push(queue.last()));
    }
    assert(queue.to_multiset() =~= frames_of(queue, session).to_multiset().add(
        frames_of_others(queue, session).to_multiset(),
    ));
}

/// An output never holds more frames than it takes, whatever was there before,
/// and the newest frame comes last.
pub proof fn law_queue_is_bounded(queue: Seq<PendingFrame>, new: PendingFrame)
    ensures
        0 < with_frame(queue, new).len() <= MAX_PENDING_FRAMES_PER_OUTPUT,
        with_frame(queue, new).last() == new,
{
}

/// The empty queue is in order, and adding a frame, taking one back or taking
/// all keeps a queue in order: at most one frame of a session waits.
pub proof fn law_queue_stays_in_order(
    queue: Seq<PendingFrame>,
    new: PendingFrame,
    frame: FrameRef,
)
    requires
        queue_ok(queue),
    ensures
        queue_ok(Seq::empty()),
        queue_ok(with_frame(queue, new)),
        queue_ok(without_frame(queue, frame)),
{
    let removed = lemma_filter_placed(queue, |p: PendingFrame| p.frame != frame);
    queue.lemma_filter_len(|p: PendingFrame| p.frame != frame);
    lemma_part_ok(without_frame(queue, frame), queue, removed);

    let others = frames_of_others(queue, new.session);
    let at = lemma_filter_placed(queue, |p: PendingFrame| p.session != new.session);
    queue.lemma_filter_len(|p: PendingFrame| p.session != new.session);
    lemma_part_ok(others, queue, at);
    let n = overflow(others.len()) as int;
    let after = with_frame(queue, new);
    assert forall|i: int, j: int| 0 <= i < j < after.len() implies #[trigger] after[i].session
        != #[trigger] after[j].session by {
        assert(after[i] == others[i + n]);
        if j < after.len() - 1 {
            assert(after[j] == others[j + n]);
        }
    }
}

/// No frame is lost: each frame that waited, and the new one, either waits or
/// fails, and none does both.
pub proof fn law_every_frame_waits_or_fails(queue: Seq<PendingFrame>, new: PendingFrame)
    ensures
        queue.push(new).to_multiset() == with_frame(queue, new).to_multiset().add(
            failed_for(queue, new).to_multiset(),
        ),
{
    broadcast use vstd::seq_lib::group_to_multiset_ensures;

    lemma_split(queue, new.session);
    let own = frames_of(queue, new.session);
    let others = frames_of_others(queue, new.session);
    let n = overflow(others.len()) as int;
    let gone = others.take(n);
    let kept = others.skip(n);
    assert(others =~= gone + kept);
    vstd::seq_lib::lemma_multiset_commutative(gone, kept);
    vstd::seq_lib::lemma_multiset_commutative(own, gone);
    assert(queue.push(new).to_multiset() =~= with_frame(queue, new).to_multiset().add(
        failed_for(queue, new).to_multiset(),
    ));
}

/// In a queue that is in order a new frame makes at most one other fail: the
/// earlier frame of its session where there is one, else the oldest frame of a
/// full queue.
pub proof fn law_one_frame_makes_room(queue: Seq<PendingFrame>, new: PendingFrame)
    requires
        queue_ok(queue),
    ensures
        frames_of(queue, new.session).len() <= 1,
        frames_of(queue, new.session).len() == 1 ==> failed_for(queue, new) == frames_of(
            queue,
            new.session,
        ),
        frames_of(queue, new.session).len() == 0 && queue.len() < MAX_PENDING_FRAMES_PER_OUTPUT
            ==> failed_for(queue, new) == Seq::<PendingFrame>::empty() && with_frame(queue, new)
            == queue.push(new),
        frames_of(queue, new.session).len() == 0 && queue.len() == MAX_PENDING_FRAMES_PER_OUTPUT
            ==> failed_for(queue, new) == seq![queue[0]],
{
    lemma_split(queue, new.session);
    let own = frames_of(queue, new.session);
    let others = frames_of_others(queue, new.session);
    let at = lemma_filter_placed(queue, |p: PendingFrame| p.session == new.session);
    if own.len() > 1 {
        assert(at[0] < at[1]);
        assert(queue[at[0]].session == queue[at[1]].session);
    }
    if own.len() == 0 {
        lemma_nothing_own(queue, new.session);
        assert(others.skip(0) =~= others);
        assert(failed_for(queue, new) =~= others.take(overflow(others.len()) as int));
        if queue.len() == MAX_PENDING_FRAMES_PER_OUTPUT {
            assert(others.take(1) =~= seq![queue[0]]);
        } else {
            assert(others.take(0) =~= Seq::<PendingFrame>::empty());
        }
    } else {
        assert(failed_for(queue, new) =~= own);
    }
}

proof fn lemma_nothing_own(queue: Seq<PendingFrame>, session: SessionRef)
    requires
        frames_of(queue, session).len() == 0,
    ensures
        frames_of_others(queue, session) == queue,
    decreases queue.len(),
{
    reveal(Seq::filter);
    if queue.len() > 0 {
        lemma_nothing_own(queue.drop_last(), session);
        assert(queue =~= queue.drop_last().push(queue.last()));
    }
}

/// Counting adds each number to its own count, as far as it fits, and lifts the
/// longest queue if this one is longer. It makes no report by itself.
pub proof fn law_queue_events_are_counted(
    stats: CaptureQueueStats,
    queued: u64,
    taken: u64,
    dropped_session_cap: u64,
    dropped_output_cap: u64,
    pending: usize,
)
    ensures
        ({
            let after = counted(
                stats,
                queued,
                taken,
                dropped_session_cap,
                dropped_output_cap,
                pending,
            );
            &&& after.queued == if stats.queued + queued <= u64::MAX {
                stats.queued + queued
            } else {
                u64::MAX as int
            }
            &&& after.taken == if stats.taken + taken <= u64::MAX {
                stats.taken + taken
            } else {
                u64::MAX as int
            }
            &&& after.dropped_session_cap == if stats.dropped_session_cap
                + dropped_session_cap <= u64::MAX {
                stats.dropped_session_cap + dropped_session_cap
            } else {
                u64::MAX as int
            }
            &&& after.dropped_output_cap == if stats.dropped_output_cap
                + dropped_output_cap <= u64::MAX {
                stats.dropped_output_cap + dropped_output_cap
            } else {
                u64::MAX as int
            }
            &&& after.max_pending_after_push >= stats.max_pending_after_push
            &&& after.max_pending_after_push >= pending
            &&& after.max_pending_after_push == stats.max_pending_after_push
                || after.max_pending_after_push == pending
            &&& after.last_log == stats.last_log
        }),
{
}

/// A report on the queue is made exactly if at least a minute has passed since
/// the last one. It holds the counts as they were, and they all start again
/// from zero then; without a report nothing changes.
pub proof fn law_queue_report_once_a_minute(
    before: CaptureQueueStats,
    now: TimeSpan,
    after: CaptureQueueStats,
    report: Option<CaptureQueueReport>,
)
    requires
        logged(before, now, after, report),
    ensures
        report is Some <==> now.nanos >= before.last_log.nanos + 60_000_000_000,
        report is None ==> after == before,
        report matches Some(made) ==> {
            &&& made.queued == before.queued && after.queued == 0
            &&& made.taken == before.taken && after.taken == 0
            &&& made.dropped_session_cap == before.dropped_session_cap && after.dropped_session_cap
                == 0
            &&& made.dropped_output_cap == before.dropped_output_cap && after.dropped_output_cap
                == 0
            &&& made.max_pending_after_push == before.max_pending_after_push
                && after.max_pending_after_push == 0
            &&& after.last_log == now
        },
{
}

/// Each waiting frame is judged by itself: what is kept of a queue is the same
/// wherever the queue is cut, and a single frame stays or goes by its own
/// session or its own number.
pub proof fn law_frames_are_judged_one_by_one(
    p: PendingFrame,
    session: SessionRef,
    frame: FrameRef,
    a: Seq<PendingFrame>,
    b: Seq<PendingFrame>,
)
    ensures
        without_frame(seq![p], frame) == if p.frame == frame {
            Seq::<PendingFrame>::empty()
        } else {
            seq![p]
        },
        without_frame(a + b, frame) == without_frame(a, frame) + without_frame(b, frame),
        frames_of(seq![p], session) == if p.session == session {
            seq![p]
        } else {
            Seq::<PendingFrame>::empty()
        },
        frames_of(a + b, session) == frames_of(a, session) + frames_of(b, session),
        frames_of_others(seq![p], session) == if p.session == session {
            Seq::<PendingFrame>::empty()
        } else {
            seq![p]
        },
        frames_of_others(a + b, session) == frames_of_others(a, session) + frames_of_others(
            b,
            session,
        ),
{
    reveal(Seq::filter);
    reveal_with_fuel(Seq::filter, 2);
    assert(seq![p].drop_last() =~= Seq::<PendingFrame>::empty());
    Seq::filter_distributes_over_add(a, b, |q: PendingFrame| q.frame != frame);
    Seq::filter_distributes_over_add(a, b, |q: PendingFrame| q.session == session);
    Seq::filter_distributes_over_add(a, b, |q: PendingFrame| q.session != session);
}

/// A frame that was taken back no longer waits. Every other frame waits as
/// often as before and in the same order: `at` gives the place that each had.
pub proof fn law_frame_taken_back_is_gone(
    queue: Seq<PendingFrame>,
    frame: FrameRef,
    other: PendingFrame,
) -> (at: Seq<int>)
    ensures
        forall|i: int|
            0 <= i < without_frame(queue, frame).len() ==> (#[trigger] without_frame(
                queue,
                frame,
            )[i]).frame != frame,
        other.frame != frame ==> without_frame(queue, frame).to_multiset().count(other)
            == queue.to_multiset().count(other),
        at.len() == without_frame(queue, frame).len(),
        forall|i: int|
            0 <= i < at.len() ==> 0 <= #[trigger] at[i] < queue.len() && queue[at[i]]
                == without_frame(queue, frame)[i],
        forall|i: int, j: int| 0 <= i < j < at.len() ==> #[trigger] at[i] < #[trigger] at[j],
        forall|j: int|
            0 <= j < queue.len() && (#[trigger] queue[j]).frame != frame ==> at.contains(j),
{
    if other.frame != frame {
        lemma_taken_back_count(queue, frame, other);
    }
    lemma_filter_picks(queue, |p: PendingFrame| p.frame != frame)
}

proof fn lemma_taken_back_count(queue: Seq<PendingFrame>, frame: FrameRef, other: PendingFrame)
    requires
        other.frame != frame,
    ensures
        without_frame(queue, frame).to_multiset().count(other) == queue.to_multiset().count(other),
    decreases queue.len(),
{
    broadcast use vstd::seq_lib::group_to_multiset_ensures;

    reveal(Seq::filter);
    if queue.len() > 0 {
        lemma_taken_back_count(queue.drop_last(), frame, other);
        assert(queue =~= queue.drop_last().push(queue.last()));
    }
}

/// Where the items that a filter keeps stood: at places that grow, and every
/// item that is to be kept is there.
proof fn lemma_filter_picks(queue: Seq<PendingFrame>, pred: spec_fn(PendingFrame) -> bool) -> (at:
    Seq<int>)
    ensures
        at.len() == queue.filter(pred).len(),
        forall|i: int|
            0 <= i < at.len() ==> 0 <= #[trigger] at[i] < queue.len() && queue[at[i]]
                == queue.filter(pred)[i],
        forall|i: int| 0 <= i < at.len() ==> pred(#[trigger] queue.filter(pred)[i]),
        forall|i: int, j: int| 0 <= i < j < at.len() ==> #[trigger] at[i] < #[trigger] at[j],
        forall|j: int| 0 <= j < queue.len() && pred(#[trigger] queue[j]) ==> at.contains(j),
    decreases queue.len(),
{
    reveal(Seq::filter);
    if queue.len() == 0 {
        Seq::empty()
    } else {
        let rest = queue.drop_last();
        let before = lemma_filter_picks(rest, pred);
        let n = queue.len() - 1;
        assert(forall|j: int| 0 <= j < n ==> rest[j] == queue[j]);
        let at = if pred(queue.last()) {
            before.push(n)
        } else {
            before
        };
        assert forall|j: int| 0 <= j < queue.len() && pred(#[trigger] queue[j]) implies at.contains(
            j,
        ) by {
            if j < n {
                assert(pred(rest[j]));
                let k = choose|k: int| 0 <= k < before.len() && before[k] == j;
                assert(at[k] == j);
            } else {
                assert(at[before.len() as int] == n);
            }
        }
        at
    }
}

/// When a frame joins, the newest frames of other sessions stay, in their
/// order, before it: `at` gives the place that each had. One of them goes only
/// if the queue is full after that, and only if all that stay are newer.
pub proof fn law_newest_frames_stay(queue: Seq<PendingFrame>, new: PendingFrame) -> (at: Seq<int>)
    ensures
        at.len() == with_frame(queue, new).len() - 1,
        with_frame(queue, new).len() <= 8,
        with_frame(queue, new).last() == new,
        forall|i: int|
            0 <= i < at.len() ==> 0 <= #[trigger] at[i] < queue.len() && queue[at[i]] == with_frame(
                queue,
                new,
            )[i] && queue[at[i]].session != new.session,
        forall|i: int, j: int| 0 <= i < j < at.len() ==> #[trigger] at[i] < #[trigger] at[j],
        forall|j: int|
            0 <= j < queue.len() && (#[trigger] queue[j]).session != new.session && !at.contains(j)
                ==> with_frame(queue, new).len() == 8 && forall|i: int|
                0 <= i < at.len() ==> j < #[trigger] at[i],
{
    let pred = |p: PendingFrame| p.session != new.session;
    let others = frames_of_others(queue, new.session);
    let all = lemma_filter_picks(queue, pred);
    let n = overflow(others.len()) as int;
    let at = all.skip(n);
    let after = with_frame(queue, new);
    assert forall|i: int| 0 <= i < at.len() implies 0 <= #[trigger] at[i] < queue.len()
        && queue[at[i]] == after[i] && queue[at[i]].session != new.session by {
        assert(at[i] == all[i + n]);
        assert(after[i] == others[i + n]);
        assert(pred(queue.filter(pred)[i + n]));
    }
    assert forall|i: int, j: int| 0 <= i < j < at.len() implies #[trigger] at[i]
        < #[trigger] at[j] by {
        assert(all[i + n] < all[j + n]);
    }
    assert forall|j: int|
        0 <= j < queue.len() && (#[trigger] queue[j]).session != new.session && !at.contains(
            j,
        ) implies after.len() == 8 && forall|i: int| 0 <= i < at.len() ==> j < #[trigger] at[i] by {
        assert(pred(queue[j]));
        let k = choose|k: int| 0 <= k < all.len() && all[k] == j;
        if k >= n {
            assert(at[k - n] == j);
        }
        assert forall|i: int| 0 <= i < at.len() implies j < #[trigger] at[i] by {
            assert(all[k] < all[i + n]);
        }
    }
    at
}

/// The frames that fail for a new one are first all earlier frames of its
/// session, then frames of other sessions, each part in the order of the
/// queue: `at` gives the place that each had, and the first part has `own`
/// frames. Frames of other sessions fail only if the queue is full after that.
pub proof fn law_frames_fail_in_order(queue: Seq<PendingFrame>, new: PendingFrame) -> (r: (
    Seq<int>,
    int,
))
    ensures
        ({
            let (at, own) = r;
            let failed = failed_for(queue, new);
            &&& at.len() == failed.len()
            &&& 0 <= own <= failed.len()
            &&& own == frames_of(queue, new.session).len()
            &&& failed.len() - own == overflow(frames_of_others(queue, new.session).len())
            &&& forall|i: int|
                0 <= i < at.len() ==> 0 <= #[trigger] at[i] < queue.len() && queue[at[i]]
                    == failed[i]
            &&& forall|i: int|
                0 <= i < at.len() ==> ((#[trigger] failed[i]).session == new.session <==> i < own)
            &&& forall|i: int, j: int|
                0 <= i < j < at.len() && (j < own || own <= i) ==> #[trigger] at[i]
                    < #[trigger] at[j]
            &&& forall|j: int|
                0 <= j < queue.len() && (#[trigger] queue[j]).session == new.session
                    ==> at.contains(j)
            &&& own < failed.len() ==> with_frame(queue, new).len() == 8
        }),
{
    let mine = |p: PendingFrame| p.session == new.session;
    let theirs = |p: PendingFrame| p.session != new.session;
    let own = lemma_filter_picks(queue, mine);
    let rest = lemma_filter_picks(queue, theirs);
    let others = frames_of_others(queue, new.session);
    let n = overflow(others.len()) as int;
    let at = own + rest.take(n);
    let failed = failed_for(queue, new);
    let m = own.len() as int;
    assert forall|i: int| 0 <= i < at.len() implies 0 <= #[trigger] at[i] < queue.len()
        && queue[at[i]] == failed[i] by {
        if i < m {
            assert(at[i] == own[i]);
            assert(failed[i] == frames_of(queue, new.session)[i]);
        } else {
            assert(at[i] == rest[i - m]);
            assert(failed[i] == others[i - m]);
        }
    }
    assert forall|i: int| 0 <= i < at.len() implies ((#[trigger] failed[i]).session == new.session
        <==> i < m) by {
        if i < m {
            assert(mine(queue.filter(mine)[i]));
            assert(failed[i] == queue.filter(mine)[i]);
        } else {
            assert(theirs(queue.filter(theirs)[i - m]));
            assert(failed[i] == queue.filter(theirs)[i - m]);
        }
    }
    assert forall|i: int, j: int| 0 <= i < j < at.len() && (j < m || m <= i) implies #[trigger] at[i]
        < #[trigger] at[j] by {
        if j < m {
            assert(own[i] < own[j]);
        } else {
            assert(rest[i - m] < rest[j - m]);
        }
    }
    assert forall|j: int|
        0 <= j < queue.len() && (#[trigger] queue[j]).session == new.session implies at.contains(
        j,
    ) by {
        assert(mine(queue[j]));
        let k = choose|k: int| 0 <= k < own.len() && own[k] == j;
        assert(at[k] == j);
    }
    (at, m)
}

/// As many frames leave as it takes for one more to fit, and no more.
pub proof fn law_no_more_leave_than_must(len: nat)
    ensures
        overflow(len) <= len,
        len - overflow(len) <= 7,
        overflow(len) > 0 ==> len - overflow(len) == 7,
{
}

/// Adding a frame twice in a row leaves one entry of it, the first having
/// failed for the second; a frame that joined and was taken back leaves no
/// frame of its session.
pub proof fn law_adding_again_replaces(queue: Seq<PendingFrame>, new: PendingFrame)
    ensures
        with_frame(with_frame(queue, new), new) == with_frame(queue, new),
        frames_of(without_frame(with_frame(queue, new), new.frame), new.session).len() == 0,
{
    reveal(Seq::filter);
    let others = frames_of_others(queue, new.session);
    let kept = others.skip(overflow(others.len()) as int);
    let after = with_frame(queue, new);
    let at = law_newest_frames_stay(queue, new);
    assert forall|i: int| 0 <= i < kept.len() implies (#[trigger] kept[i]).session
        != new.session by {
        assert(after[i] == kept[i]);
        assert(queue[at[i]] == after[i]);
    }
    assert(after.drop_last() =~= kept);
    lemma_all_others(kept, new.session);
    assert(frames_of_others(after, new.session) =~= kept);
    assert(kept.skip(0) =~= kept);

    let left = without_frame(after, new.frame);
    assert(left == without_frame(kept, new.frame));
    let back = lemma_filter_picks(kept, |p: PendingFrame| p.frame != new.frame);
    assert forall|i: int| 0 <= i < left.len() implies (#[trigger] left[i]).session
        != new.session by {
        assert(kept[back[i]] == left[i]);
    }
    lemma_all_others(left, new.session);
}

proof fn lemma_all_others(queue: Seq<PendingFrame>, session: SessionRef)
    requires
        forall|i: int| 0 <= i < queue.len() ==> (#[trigger] queue[i]).session != session,
    ensures
        frames_of_others(queue, session) == queue,
        frames_of(queue, session).len() == 0,
    decreases queue.len(),
{
    reveal(Seq::filter);
    if queue.len() > 0 {
        let rest = queue.drop_last();
        assert forall|i: int| 0 <= i < rest.len() implies (#[trigger] rest[i]).session
            != session by {
            assert(rest[i] == queue[i]);
        }
        lemma_all_others(rest, session);
        assert(queue.last() == queue[queue.len() - 1]);
        assert(queue =~= rest.push(queue.last()));
    }
}

/// An output without a queue has no frames waiting, and one with a queue has
/// those in it.
pub proof fn law_waiting_frames(queue: Vec<PendingFrame>, output: Output)
    ensures
        frames_in(None::<Vec<PendingFrame>>).len() == 0,
        frames_in(Some(queue)) == queue@,
        output.user_data.pending == Some(queue) ==> output.pending_frames() == queue@,
        output.user_data.pending is None ==> output.pending_frames().len() == 0,
{
}

/// A frame that joined is the last of the frames that are taken next, and the
/// only one of its session; nothing waits after that, and the next time there
/// is nothing to take.
pub proof fn law_add_then_take<H: FrameHolder>(
    adding: &mut H,
    session: SessionRef,
    frame: FrameRef,
    adding_stats: &mut CaptureQueueStats,
    adding_now: TimeSpan,
    added: AddedFrame,
    taking: &mut H,
    taking_stats: &mut CaptureQueueStats,
    taking_now: TimeSpan,
    taken: (Vec<PendingFrame>, Option<CaptureQueueReport>),
    again: &mut H,
    again_stats: &mut CaptureQueueStats,
    again_now: TimeSpan,
    nothing: (Vec<PendingFrame>, Option<CaptureQueueReport>),
)
    requires
        call_ensures(
            H::add_frame,
            (adding, session, frame, adding_stats, adding_now),
            added,
        ),
        call_ensures(H::take_pending_frames, (taking, taking_stats, taking_now), taken),
        call_ensures(H::take_pending_frames, (again, again_stats, again_now), nothing),
        old(taking).pending_frames() == final(adding).pending_frames(),
        old(again).pending_frames() == final(taking).pending_frames(),
    ensures
        added.was_empty <==> old(adding).pending_frames().len() == 0,
        0 < taken.0@.len() <= 8,
        taken.0@.last() == (PendingFrame { session, frame }),
        forall|i: int|
            0 <= i < taken.0@.len() - 1 ==> (#[trigger] taken.0@[i]).session != session,
        old(adding).pending_frames().push(PendingFrame { session, frame }).to_multiset()
            == taken.0@.to_multiset().add(added.failed@.to_multiset()),
        final(taking).pending_frames().len() == 0,
        nothing.0@.len() == 0,
{
    let new = PendingFrame { session, frame };
    let before = old(adding).pending_frames();
    let at = law_newest_frames_stay(before, new);
    law_every_frame_waits_or_fails(before, new);
    assert forall|i: int| 0 <= i < taken.0@.len() - 1 implies (#[trigger] taken.0@[i]).session
        != session by {
        assert(before[at[i]] == taken.0@[i]);
    }
}

/// A frame that was taken back is not among the frames that are taken next, and
/// every other frame that waited is.
pub proof fn law_remove_then_take<H: FrameHolder>(
    removing: &mut H,
    frame: FrameRef,
    taking: &mut H,
    stats: &mut CaptureQueueStats,
    now: TimeSpan,
    taken: (Vec<PendingFrame>, Option<CaptureQueueReport>),
    other: PendingFrame,
)
    requires
        call_ensures(H::remove_frame, (removing, frame), ()),
        call_ensures(H::take_pending_frames, (taking, stats, now), taken),
        old(taking).pending_frames() == final(removing).pending_frames(),
    ensures
        forall|i: int| 0 <= i < taken.0@.len() ==> (#[trigger] taken.0@[i]).frame != frame,
        other.frame != frame ==> taken.0@.to_multiset().count(other)
            == old(removing).pending_frames().to_multiset().count(other),
{
    let at = law_frame_taken_back_is_gone(old(removing).pending_frames(), frame, other);
}

/// Adding a frame counts it as queued, counts the frames that failed for it,
/// those of its own session apart from the others, and lifts the largest number
/// of waiting frames to the number now waiting. Where a report is made the
/// counts are in it, and start again from zero.
pub proof fn law_added_frame_is_counted<H: FrameHolder>(
    holder: &mut H,
    session: SessionRef,
    frame: FrameRef,
    stats: &mut CaptureQueueStats,
    now: TimeSpan,
    added: AddedFrame,
)
    requires
        call_ensures(H::add_frame, (holder, session, frame, stats, now), added),
        old(stats).queued < u64::MAX,
        old(stats).dropped_session_cap + added.failed@.len() <= u64::MAX,
        old(stats).dropped_output_cap + added.failed@.len() <= u64::MAX,
    ensures
        added.report is Some <==> now.nanos >= old(stats).last_log.nanos + 60_000_000_000,
        ({
            let (queued, taken, own, others, most) = match added.report {
                Some(report) => (
                    report.queued,
                    report.taken,
                    report.dropped_session_cap - old(stats).dropped_session_cap,
                    report.dropped_output_cap - old(stats).dropped_output_cap,
                    report.max_pending_after_push,
                ),
                None => (
                    final(stats).queued,
                    final(stats).taken,
                    final(stats).dropped_session_cap - old(stats).dropped_session_cap,
                    final(stats).dropped_output_cap - old(stats).dropped_output_cap,
                    final(stats).max_pending_after_push,
                ),
            };
            let waiting = final(holder).pending_frames().len();
            &&& queued == old(stats).queued + 1
            &&& taken == old(stats).taken
            &&& own + others == added.failed@.len()
            &&& forall|i: int|
                0 <= i < added.failed@.len() ==> ((#[trigger] added.failed@[i]).session == session
                    <==> i < own)
            &&& most >= waiting && most >= old(stats).max_pending_after_push
            &&& most == waiting || most == old(stats).max_pending_after_push
        }),
        added.report is Some ==> {
            &&& final(stats).last_log == now
            &&& final(stats).queued == 0 && final(stats).taken == 0
            &&& final(stats).dropped_session_cap == 0 && final(stats).dropped_output_cap == 0
            &&& final(stats).max_pending_after_push == 0
        },
        added.report is None ==> final(stats).last_log == old(stats).last_log,
{
    let new = PendingFrame { session, frame };
    let (at, own) = law_frames_fail_in_order(old(holder).pending_frames(), new);
    let places = law_newest_frames_stay(old(holder).pending_frames(), new);
}

/// Taking frames counts those that were taken, and nothing else. Where a report
/// is made the counts are in it, and start again from zero.
pub proof fn law_taken_frames_are_counted<H: FrameHolder>(
    holder: &mut H,
    stats: &mut CaptureQueueStats,
    now: TimeSpan,
    taken: (Vec<PendingFrame>, Option<CaptureQueueReport>),
)
    requires
        call_ensures(H::take_pending_frames, (holder, stats, now), taken),
        old(stats).taken + taken.0@.len() <= u64::MAX,
    ensures
        taken.0@ == old(holder).pending_frames(),
        taken.1 is Some <==> now.nanos >= old(stats).last_log.nanos + 60_000_000_000,
        taken.1 matches Some(report) ==> {
            &&& report.taken == old(stats).taken + taken.0@.len()
            &&& report.queued == old(stats).queued
            &&& report.dropped_session_cap == old(stats).dropped_session_cap
            &&& report.dropped_output_cap == old(stats).dropped_output_cap
            &&& report.max_pending_after_push == old(stats).max_pending_after_push
            &&& final(stats).taken == 0 && final(stats).queued == 0
            &&& final(stats).dropped_session_cap == 0 && final(stats).dropped_output_cap == 0
            &&& final(stats).max_pending_after_push == 0 && final(stats).last_log == now
        },
        taken.1 is None ==> *final(stats) == (CaptureQueueStats {
            taken: (old(stats).taken + taken.0@.len()) as u64,
            ..*old(stats)
        }),
{
}

/// What is noted of a queue is added each to its own count, and lifts the
/// largest number of waiting frames where it exceeds it.
pub proof fn law_each_note_has_its_count(
    stats: &mut CaptureQueueStats,
    queued: u64,
    taken: u64,
    own: u64,
    others: u64,
    pending: usize,
    now: TimeSpan,
    report: Option<CaptureQueueReport>,
)
    requires
        call_ensures(note_capture_queue, (stats, queued, taken, own, others, pending, now), report),
        old(stats).queued + queued <= u64::MAX,
        old(stats).taken + taken <= u64::MAX,
        old(stats).dropped_session_cap + own <= u64::MAX,
        old(stats).dropped_output_cap + others <= u64::MAX,
        report is None,
    ensures
        final(stats).queued == old(stats).queued + queued,
        final(stats).taken == old(stats).taken + taken,
        final(stats).dropped_session_cap == old(stats).dropped_session_cap + own,
        final(stats).dropped_output_cap == old(stats).dropped_output_cap + others,
        final(stats).max_pending_after_push >= pending,
        final(stats).max_pending_after_push >= old(stats).max_pending_after_push,
        final(stats).max_pending_after_push == pending || final(stats).max_pending_after_push
            == old(stats).max_pending_after_push,
        final(stats).last_log == old(stats).last_log,
{
}

} // verus!
