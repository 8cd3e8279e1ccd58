use cosmic_comp::capture_queue::{
    note_capture_queue, CaptureQueueReport, CaptureQueueStats, FrameHolder, FrameRef, PendingFrame,
};
use cosmic_comp::capture_sessions::{
    stop_all_capture_sessions, CosmicSurface, CursorSessionRef, ImageCopySessions, Output,
    SessionHolder, SessionRef, SessionUserData, UserDataMap, Workspace,
};
use cosmic_comp::time::TimeSpan;

fn session(id: u64) -> SessionRef {
    SessionRef { id }
}

fn cursor(id: u64) -> CursorSessionRef {
    CursorSessionRef { id }
}

fn frame(id: u64) -> FrameRef {
    FrameRef { id }
}

fn pending(session_id: u64, frame_id: u64) -> PendingFrame {
    PendingFrame { session: session(session_id), frame: frame(frame_id) }
}

fn seconds(n: u128) -> TimeSpan {
    TimeSpan { nanos: n * 1_000_000_000 }
}

fn output() -> Output {
    Output { user_data: UserDataMap::new() }
}

fn exercise<H: SessionHolder>(holder: &mut H, has_data: bool) {
    assert!(holder.sessions().is_empty());
    assert!(holder.cursor_sessions().is_empty());
    holder.mark_capture_active(5_000);
    assert_eq!(holder.is_capture_active(5_000), has_data);

    holder.add_session(session(1));
    holder.add_session(session(2));
    holder.add_session(session(1));
    holder.add_cursor_session(cursor(1));
    holder.add_cursor_session(cursor(3));
    assert_eq!(holder.sessions(), [session(1), session(2), session(1)]);
    assert_eq!(holder.cursor_sessions(), [cursor(1), cursor(3)]);

    holder.mark_capture_active(7_000);
    assert!(holder.is_capture_active(6_000));
    assert!(holder.is_capture_active(7_999));
    assert!(!holder.is_capture_active(8_000));

    holder.remove_session(session(1));
    assert_eq!(holder.sessions(), [session(2)]);
    holder.add_session(session(9));
    holder.remove_session(session(9));
    assert_eq!(holder.sessions(), [session(2)]);
    holder.remove_cursor_session(cursor(1));
    assert_eq!(holder.cursor_sessions(), [cursor(3)]);
}

#[test]
fn outputs_windows_and_workspaces_hold_sessions() {
    exercise(&mut output(), false);
    exercise(&mut CosmicSurface { user_data: UserDataMap::new() }, false);
    exercise(&mut Workspace { image_copy: ImageCopySessions::default() }, true);
}

#[test]
fn removing_from_nothing_makes_no_data() {
    let mut surface = CosmicSurface { user_data: UserDataMap::new() };
    surface.remove_session(session(1));
    surface.remove_cursor_session(cursor(1));
    assert!(surface.user_data.image_copy.is_none());
}

#[test]
fn a_request_at_the_start_of_the_clock_does_not_count() {
    let mut sessions = ImageCopySessions::default();
    assert!(!sessions.is_capture_active(0));
    sessions.mark_capture_active(0);
    assert!(!sessions.is_capture_active(0));
    sessions.mark_capture_active(u64::MAX);
    assert!(sessions.is_capture_active(u64::MAX));
}

#[test]
fn stops_all_sessions_of_a_source() {
    let mut surface = CosmicSurface { user_data: UserDataMap::new() };
    stop_all_capture_sessions(&mut surface.user_data);
    assert!(surface.user_data.image_copy.is_none());
    surface.add_session(session(1));
    surface.add_cursor_session(cursor(2));
    surface.mark_capture_active(10);
    stop_all_capture_sessions(&mut surface.user_data);
    assert!(surface.sessions().is_empty());
    assert!(surface.cursor_sessions().is_empty());
    assert!(surface.is_capture_active(10));
}

#[test]
fn new_sessions_have_no_buffer() {
    let data: SessionUserData<u8, String> = SessionUserData::new(3);
    assert_eq!(data.dt, 3);
    assert!(data.offscreen.is_none());
}

#[test]
fn a_session_has_one_waiting_frame() {
    let mut output = output();
    let mut stats = CaptureQueueStats::new(seconds(0));
    let added = output.add_frame(session(1), frame(10), &mut stats, seconds(1));
    assert!(added.was_empty);
    assert!(added.failed.is_empty());
    assert_eq!(added.report, None);
    let added = output.add_frame(session(2), frame(20), &mut stats, seconds(1));
    assert!(!added.was_empty);
    assert!(added.failed.is_empty());
    let added = output.add_frame(session(1), frame(11), &mut stats, seconds(1));
    assert_eq!(added.failed, [pending(1, 10)]);
    assert_eq!(
        output.user_data.pending,
        Some(vec![pending(2, 20), pending(1, 11)])
    );
    assert_eq!(stats.queued, 3);
    assert_eq!(stats.dropped_session_cap, 1);
    assert_eq!(stats.dropped_output_cap, 0);
    assert_eq!(stats.max_pending_after_push, 2);
}

#[test]
fn an_output_has_eight_waiting_frames() {
    let mut output = output();
    let mut stats = CaptureQueueStats::new(seconds(0));
    for id in 0..8 {
        let added = output.add_frame(session(id), frame(id), &mut stats, seconds(1));
        assert!(added.failed.is_empty());
    }
    let added = output.add_frame(session(8), frame(8), &mut stats, seconds(1));
    assert_eq!(added.failed, [pending(0, 0)]);
    let added = output.add_frame(session(3), frame(33), &mut stats, seconds(1));
    assert_eq!(added.failed, [pending(3, 3)]);
    assert_eq!(stats.dropped_output_cap, 1);
    assert_eq!(stats.dropped_session_cap, 1);
    assert_eq!(stats.max_pending_after_push, 8);
    let (frames, report) = output.take_pending_frames(&mut stats, seconds(2));
    assert_eq!(report, None);
    assert_eq!(
        frames,
        [
            pending(1, 1),
            pending(2, 2),
            pending(4, 4),
            pending(5, 5),
            pending(6, 6),
            pending(7, 7),
            pending(8, 8),
            pending(3, 33),
        ]
    );
    assert_eq!(stats.taken, 8);
    let added = output.add_frame(session(1), frame(1), &mut stats, seconds(2));
    assert!(added.was_empty);
}

#[test]
fn an_overfull_queue_fails_in_order() {
    let mut output = output();
    let mut stats = CaptureQueueStats::new(seconds(0));
    output.user_data.pending = Some((0..10).map(|id| pending(id % 2, id)).collect());
    let added = output.add_frame(session(0), frame(99), &mut stats, seconds(1));
    assert_eq!(
        added.failed,
        [pending(0, 0), pending(0, 2), pending(0, 4), pending(0, 6), pending(0, 8)]
    );
    output.user_data.pending = Some((0..10).map(|id| pending(id, id)).collect());
    let added = output.add_frame(session(4), frame(99), &mut stats, seconds(1));
    assert_eq!(added.failed, [pending(4, 4), pending(0, 0), pending(1, 1)]);
}

#[test]
fn frames_can_be_taken_back() {
    let mut output = output();
    let mut stats = CaptureQueueStats::new(seconds(0));
    output.remove_frame(frame(1));
    assert!(output.take_pending_frames(&mut stats, seconds(1)).0.is_empty());
    for id in 1..4 {
        output.add_frame(session(id), frame(id), &mut stats, seconds(1));
    }
    output.remove_frame(frame(2));
    output.remove_frame(frame(7));
    let (frames, _) = output.take_pending_frames(&mut stats, seconds(1));
    assert_eq!(frames, [pending(1, 1), pending(3, 3)]);
}

#[test]
fn reports_the_queue_after_a_minute() {
    let mut stats = CaptureQueueStats::new(seconds(0));
    assert_eq!(note_capture_queue(&mut stats, 1, 2, 3, 4, 5, seconds(59)), None);
    assert_eq!(note_capture_queue(&mut stats, u64::MAX, 1, 1, 1, 2, seconds(59)), None);
    assert_eq!(
        note_capture_queue(&mut stats, 0, 0, 0, 0, 0, seconds(60)),
        Some(CaptureQueueReport {
            queued: u64::MAX,
            taken: 3,
            dropped_session_cap: 4,
            dropped_output_cap: 5,
            max_pending_after_push: 5,
        })
    );
    assert_eq!(stats, CaptureQueueStats::new(seconds(60)));
}
