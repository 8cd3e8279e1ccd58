//! Screen capture sessions of outputs, workspaces and windows.
//!
//! A session is known by a number; whoever owns the session itself drops it
//! when its number leaves the list.

use vstd::prelude::*;
use crate::capture_queue::PendingFrame;

verus! {

/// What belongs to a capture session: how damage is tracked, and a buffer that
/// is made when it is first needed.
pub struct SessionUserData<T, B> {
    pub dt: T,
    pub offscreen: Option<B>,
}

impl<T, B> SessionUserData<T, B> {
    /// The data of a new session.
    pub fn new(tracker: T) -> (r: SessionUserData<T, B>)
        ensures
            r == (SessionUserData { dt: tracker, offscreen: None::<B> }),
    {
        SessionUserData { dt: tracker, offscreen: None }
    }
}

/// A capture session.
#[derive(Clone, Copy, Debug, PartialEq, Eq, Structural)]
pub struct SessionRef {
    pub id: u64,
}

/// A capture session of a cursor.
#[derive(Clone, Copy, Debug, PartialEq, Eq, Structural)]
pub struct CursorSessionRef {
    pub id: u64,
}

/// For how long after a frame request a capture counts as active, in
/// milliseconds.
pub const CAPTURE_ACTIVE_TIMEOUT_MS: u64 = 1_000;

/// The capture sessions of one source. Long-lived sessions may stay open while
/// idle: `last_frame_request_ms` is when a frame was last requested, so that
/// only active captures count; 0 stands for never.
pub struct ImageCopySessions {
    pub sessions: Vec<SessionRef>,
    pub cursor_sessions: Vec<CursorSessionRef>,
    pub last_frame_request_ms: u64,
}

/// The contents of an [`ImageCopySessions`].
#[verifier::ext_equal]
pub ghost struct ImageCopyView {
    pub sessions: Seq<SessionRef>,
    pub cursor_sessions: Seq<CursorSessionRef>,
    pub last_frame_request_ms: u64,
}

impl View for ImageCopySessions {
    type V = ImageCopyView;

    open spec fn view(&self) -> ImageCopyView {
        ImageCopyView {
            sessions: self.sessions@,
            cursor_sessions: self.cursor_sessions@,
            last_frame_request_ms: self.last_frame_request_ms,
        }
    }
}

/// No sessions, and no frame requested yet.
pub open spec fn no_sessions() -> ImageCopyView {
    ImageCopyView {
        sessions: Seq::empty(),
        cursor_sessions: Seq::empty(),
        last_frame_request_ms: 0,
    }
}

/// `list` without any occurrence of `item`, in the same order.
pub open spec fn without<T>(list: Seq<T>, item: T) -> Seq<T> {
    list.filter(|other: T| other != item)
}

/// Whether a capture whose last frame request was at `last` is active at `now`.
pub open spec fn capture_active(last: u64, now: u64) -> bool {
    last != 0 && now < last + CAPTURE_ACTIVE_TIMEOUT_MS
}

impl Default for ImageCopySessions {
    fn default() -> (r: Self)
        ensures
            r@ == no_sessions(),
    {
        ImageCopySessions {
            sessions: Vec::new(),
            cursor_sessions: Vec::new(),
            last_frame_request_ms: 0,
        }
    }
}

impl ImageCopySessions {
    /// A frame was requested at `now_ms`.
    pub fn mark_capture_active(&mut self, now_ms: u64)
        ensures
            final(self)@ == (ImageCopyView { last_frame_request_ms: now_ms, ..old(self)@ }),
    {
        self.last_frame_request_ms = now_ms;
    }

    /// Whether a frame was requested lately, at `now_ms`.
    pub fn is_capture_active(&self, now_ms: u64) -> (r: bool)
        ensures
            r == capture_active(self.last_frame_request_ms, now_ms),
    {
        let last = self.last_frame_request_ms;
        last != 0 && now_ms.saturating_sub(last) < CAPTURE_ACTIVE_TIMEOUT_MS
    }

    fn push_session(&mut self, session: SessionRef)
        ensures
            final(self)@ == (ImageCopyView {
                sessions: old(self)@.sessions.push(session),
                ..old(self)@
            }),
    {
        self.sessions.push(session);
    }

    fn push_cursor_session(&mut self, session: CursorSessionRef)
        ensures
            final(self)@ == (ImageCopyView {
                cursor_sessions: old(self)@.cursor_sessions.push(session),
                ..old(self)@
            }),
    {
        self.cursor_sessions.push(session);
    }

    fn drop_session(&mut self, session: SessionRef)
        ensures
            final(self)@ == (ImageCopyView {
                sessions: without(old(self)@.sessions, session),
                ..old(self)@
            }),
    {
        let ghost all = self.sessions@;
        let mut kept: Vec<SessionRef> = Vec::new();
        let mut i: usize = 0;
        proof {
            reveal(Seq::filter);
            assert(all.take(0) =~= Seq::<SessionRef>::empty());
        }
        while i < self.sessions.len()
            invariant
                *self == *old(self),
                self.sessions@ == all,
                i <= all.len(),
                kept@ == without(all.take(i as int), session),
            decreases all.len() - i,
        {
            proof {
                reveal(Seq::filter);
                assert(all.take(i + 1).drop_last() =~= all.take(i as int));
            }
            if self.sessions[i] != session {
                kept.push(self.sessions[i]);
            }
            i = i + 1;
        }
        assert(all.take(all.len() as int) =~= all);
        self.sessions = kept;
    }

    fn drop_cursor_session(&mut self, session: CursorSessionRef)
        ensures
            final(self)@ == (ImageCopyView {
                cursor_sessions: without(old(self)@.cursor_sessions, session),
                ..old(self)@
            }),
    {
        let ghost all = self.cursor_sessions@;
        let mut kept: Vec<CursorSessionRef> = Vec::new();
        let mut i: usize = 0;
        proof {
            reveal(Seq::filter);
            assert(all.take(0) =~= Seq::<CursorSessionRef>::empty());
        }
        while i < self.cursor_sessions.len()
            invariant
                *self == *old(self),
                self.cursor_sessions@ == all,
                i <= all.len(),
                kept@ == without(all.take(i as int), session),
            decreases all.len() - i,
        {
            proof {
                reveal(Seq::filter);
                assert(all.take(i + 1).drop_last() =~= all.take(i as int));
            }
            if self.cursor_sessions[i] != session {
                kept.push(self.cursor_sessions[i]);
            }
            i = i + 1;
        }
        assert(all.take(all.len() as int) =~= all);
        self.cursor_sessions = kept;
    }
}

/// A copy of a list of sessions.
fn copy_sessions(list: &Vec<SessionRef>) -> (r: Vec<SessionRef>)
    ensures
        r@ == list@,
{
    let mut r: Vec<SessionRef> = Vec::new();
    let mut i: usize = 0;
    while i < list.len()
        invariant
            i <= list@.len(),
            r@ == list@.take(i as int),
        decreases list@.len() - i,
    {
        r.push(list[i]);
        proof {
            assert(list@.take(i + 1) =~= list@.take(i as int).push(list@[i as int]));
        }
        i = i + 1;
    }
    assert(list@.take(list@.len() as int) =~= list@);
    r
}

/// A copy of a list of cursor sessions.
fn copy_cursor_sessions(list: &Vec<CursorSessionRef>) -> (r: Vec<CursorSessionRef>)
    ensures
        r@ == list@,
{
    let mut r: Vec<CursorSessionRef> = Vec::new();
    let mut i: usize = 0;
    while i < list.len()
        invariant
            i <= list@.len(),
            r@ == list@.take(i as int),
        decreases list@.len() - i,
    {
        r.push(list[i]);
        proof {
            assert(list@.take(i + 1) =~= list@.take(i as int).push(list@[i as int]));
        }
        i = i + 1;
    }
    assert(list@.take(list@.len() as int) =~= list@);
    r
}

/// What is attached to an output or a window: each part is made when it is
/// first needed.
pub struct UserDataMap {
    pub image_copy: Option<ImageCopySessions>,
    pub pending: Option<Vec<PendingFrame>>,
}

/// The view of optional session data.
pub open spec fn sessions_of(data: Option<ImageCopySessions>) -> Option<ImageCopyView> {
    match data {
        Some(data) => Some(data@),
        None => None,
    }
}

/// The session data, new where there is none yet.
pub open spec fn or_no_sessions(data: Option<ImageCopyView>) -> ImageCopyView {
    match data {
        Some(data) => data,
        None => no_sessions(),
    }
}

/// Drops all capture sessions of a source that goes away, so that their
/// clients are told and their buffers freed.
pub fn stop_all_capture_sessions(user_data: &mut UserDataMap)
    ensures
        sessions_of(final(user_data).image_copy) == match sessions_of(old(user_data).image_copy) {
            Some(data) => Some(
                ImageCopyView {
                    last_frame_request_ms: data.last_frame_request_ms,
                    ..no_sessions()
                },
            ),
            None => None,
        },
        final(user_data).pending == old(user_data).pending,
{
    match user_data.image_copy.take() {
        Some(data) => {
            let mut data = data;
            data.sessions.clear();
            data.cursor_sessions.clear();
            user_data.image_copy = Some(data);
        },
        None => {},
    }
}

/// What can be captured, and so holds capture sessions.
pub trait SessionHolder {
    /// The holder's session data; `None` where none was needed so far.
    spec fn image_copy(&self) -> Option<ImageCopyView>;

    /// Opens a session.
    fn add_session(&mut self, session: SessionRef)
        ensures
            final(self).image_copy() == Some(
                ImageCopyView {
                    sessions: or_no_sessions(old(self).image_copy()).sessions.push(session),
                    ..or_no_sessions(old(self).image_copy())
                },
            ),
    ;

    /// Closes a session.
    fn remove_session(&mut self, session: SessionRef)
        ensures
            final(self).image_copy() == match old(self).image_copy() {
                Some(data) => Some(
                    ImageCopyView { sessions: without(data.sessions, session), ..data },
                ),
                None => None,
            },
    ;

    /// The open sessions, oldest first.
    fn sessions(&self) -> (r: Vec<SessionRef>)
        ensures
            r@ == or_no_sessions(self.image_copy()).sessions,
    ;

    /// Opens a cursor session.
    fn add_cursor_session(&mut self, session: CursorSessionRef)
        ensures
            final(self).image_copy() == Some(
                ImageCopyView {
                    cursor_sessions: or_no_sessions(old(self).image_copy()).cursor_sessions.push(
                        session,
                    ),
                    ..or_no_sessions(old(self).image_copy())
                },
            ),
    ;

    /// Closes a cursor session.
    fn remove_cursor_session(&mut self, session: CursorSessionRef)
        ensures
            final(self).image_copy() == match old(self).image_copy() {
                Some(data) => Some(
                    ImageCopyView {
                        cursor_sessions: without(data.cursor_sessions, session),
                        ..data
                    },
                ),
                None => None,
            },
    ;

    /// The open cursor sessions, oldest first.
    fn cursor_sessions(&self) -> (r: Vec<CursorSessionRef>)
        ensures
            r@ == or_no_sessions(self.image_copy()).cursor_sessions,
    ;

    /// A frame was requested at `now_ms`. A holder without session data stays
    /// without.
    fn mark_capture_active(&mut self, now_ms: u64)
        ensures
            final(self).image_copy() == match old(self).image_copy() {
                Some(data) => Some(ImageCopyView { last_frame_request_ms: now_ms, ..data }),
                None => None,
            },
    ;

    /// Whether a frame was requested lately, at `now_ms`.
    fn is_capture_active(&self, now_ms: u64) -> (r: bool)
        ensures
            r == capture_active(or_no_sessions(self.image_copy()).last_frame_request_ms, now_ms),
    ;
}

impl UserDataMap {
    /// Nothing attached yet.
    pub fn new() -> (r: Self)
        ensures
            r.image_copy is None,
            r.pending is None,
    {
        UserDataMap { image_copy: None, pending: None }
    }

    /// Takes the session data out, new where there is none yet.
    fn take_or_new(&mut self) -> (r: ImageCopySessions)
        ensures
            r@ == or_no_sessions(sessions_of(old(self).image_copy)),
            final(self).pending == old(self).pending,
    {
        match self.image_copy.take() {
            Some(data) => data,
            None => ImageCopySessions::default(),
        }
    }
}

impl SessionHolder for UserDataMap {
    open spec fn image_copy(&self) -> Option<ImageCopyView> {
        sessions_of(self.image_copy)
    }

    fn add_session(&mut self, session: SessionRef)
        ensures
            final(self).pending == old(self).pending,
    {
        let mut data = self.take_or_new();
        data.push_session(session);
        self.image_copy = Some(data);
    }

    fn remove_session(&mut self, session: SessionRef)
        ensures
            final(self).pending == old(self).pending,
    {
        match self.image_copy.take() {
            Some(data) => {
                let mut data = data;
                data.drop_session(session);
                self.image_copy = Some(data);
            },
            None => {},
        }
    }

    fn sessions(&self) -> (r: Vec<SessionRef>) {
        match &self.image_copy {
            Some(data) => copy_sessions(&data.sessions),
            None => Vec::new(),
        }
    }

    fn add_cursor_session(&mut self, session: CursorSessionRef)
        ensures
            final(self).pending == old(self).pending,
    {
        let mut data = self.take_or_new();
        data.push_cursor_session(session);
        self.image_copy = Some(data);
    }

    fn remove_cursor_session(&mut self, session: CursorSessionRef)
        ensures
            final(self).pending == old(self).pending,
    {
        match self.image_copy.take() {
            Some(data) => {
                let mut data = data;
                data.drop_cursor_session(session);
                self.image_copy = Some(data);
            },
            None => {},
        }
    }

    fn cursor_sessions(&self) -> (r: Vec<CursorSessionRef>) {
        match &self.image_copy {
            Some(data) => copy_cursor_sessions(&data.cursor_sessions),
            None => Vec::new(),
        }
    }

    fn mark_capture_active(&mut self, now_ms: u64)
        ensures
            final(self).pending == old(self).pending,
    {
        match self.image_copy.take() {
            Some(data) => {
                let mut data = data;
                data.mark_capture_active(now_ms);
                self.image_copy = Some(data);
            },
            None => {},
        }
    }

    fn is_capture_active(&self, now_ms: u64) -> (r: bool) {
        match &self.image_copy {
            Some(data) => data.is_capture_active(now_ms),
            None => false,
        }
    }
}

/// An output.
pub struct Output {
    pub user_data: UserDataMap,
}

impl SessionHolder for Output {
    open spec fn image_copy(&self) -> Option<ImageCopyView> {
        sessions_of(self.user_data.image_copy)
    }

    fn add_session(&mut self, session: SessionRef)
        ensures
            final(self).user_data.pending == old(self).user_data.pending,
    {
        self.user_data.add_session(session)
    }

    fn remove_session(&mut self, session: SessionRef)
        ensures
            final(self).user_data.pending == old(self).user_data.pending,
    {
        self.user_data.remove_session(session)
    }

    fn sessions(&self) -> (r: Vec<SessionRef>) {
        self.user_data.sessions()
    }

    fn add_cursor_session(&mut self, session: CursorSessionRef)
        ensures
            final(self).user_data.pending == old(self).user_data.pending,
    {
        self.user_data.add_cursor_session(session)
    }

    fn remove_cursor_session(&mut self, session: CursorSessionRef)
        ensures
            final(self).user_data.pending == old(self).user_data.pending,
    {
        self.user_data.remove_cursor_session(session)
    }

    fn cursor_sessions(&self) -> (r: Vec<CursorSessionRef>) {
        self.user_data.cursor_sessions()
    }

    fn mark_capture_active(&mut self, now_ms: u64)
        ensures
            final(self).user_data.pending == old(self).user_data.pending,
    {
        self.user_data.mark_capture_active(now_ms)
    }

    fn is_capture_active(&self, now_ms: u64) -> (r: bool) {
        self.user_data.is_capture_active(now_ms)
    }
}

/// A window.
pub struct CosmicSurface {
    pub user_data: UserDataMap,
}

impl SessionHolder for CosmicSurface {
    open spec fn image_copy(&self) -> Option<ImageCopyView> {
        sessions_of(self.user_data.image_copy)
    }

    fn add_session(&mut self, session: SessionRef)
        ensures
            final(self).user_data.pending == old(self).user_data.pending,
    {
        self.user_data.add_session(session)
    }

    fn remove_session(&mut self, session: SessionRef)
        ensures
            final(self).user_data.pending == old(self).user_data.pending,
    {
        self.user_data.remove_session(session)
    }

    fn sessions(&self) -> (r: Vec<SessionRef>) {
        self.user_data.sessions()
    }

    fn add_cursor_session(&mut self, session: CursorSessionRef)
        ensures
            final(self).user_data.pending == old(self).user_data.pending,
    {
        self.user_data.add_cursor_session(session)
    }

    fn remove_cursor_session(&mut self, session: CursorSessionRef)
        ensures
            final(self).user_data.pending == old(self).user_data.pending,
    {
        self.user_data.remove_cursor_session(session)
    }

    fn cursor_sessions(&self) -> (r: Vec<CursorSessionRef>) {
        self.user_data.cursor_sessions()
    }

    fn mark_capture_active(&mut self, now_ms: u64)
        ensures
            final(self).user_data.pending == old(self).user_data.pending,
    {
        self.user_data.mark_capture_active(now_ms)
    }

    fn is_capture_active(&self, now_ms: u64) -> (r: bool) {
        self.user_data.is_capture_active(now_ms)
    }
}

/// A workspace. It always has session data.
pub struct Workspace {
    pub image_copy: ImageCopySessions,
}

impl SessionHolder for Workspace {
    open spec fn image_copy(&self) -> Option<ImageCopyView> {
        Some(self.image_copy@)
    }

    fn add_session(&mut self, session: SessionRef) {
        self.image_copy.push_session(session)
    }

    fn remove_session(&mut self, session: SessionRef) {
        self.image_copy.drop_session(session)
    }

    fn sessions(&self) -> (r: Vec<SessionRef>) {
        copy_sessions(&self.image_copy.sessions)
    }

    fn add_cursor_session(&mut self, session: CursorSessionRef) {
        self.image_copy.push_cursor_session(session)
    }

    fn remove_cursor_session(&mut self, session: CursorSessionRef) {
        self.image_copy.drop_cursor_session(session)
    }

    fn cursor_sessions(&self) -> (r: Vec<CursorSessionRef>) {
        copy_cursor_sessions(&self.image_copy.cursor_sessions)
    }

    fn mark_capture_active(&mut self, now_ms: u64) {
        self.image_copy.mark_capture_active(now_ms)
    }

    fn is_capture_active(&self, now_ms: u64) -> (r: bool) {
        self.image_copy.is_capture_active(now_ms)
    }
}

/// A session that was closed is no longer open, and every other one stays as
/// it was.
pub proof fn law_closed_session_is_gone<T>(list: Seq<T>, session: T, other: T)
    ensures
        !without(list, session).contains(session),
        other != session ==> (without(list, session).contains(other) <==> list.contains(other)),
    decreases list.len(),
{
    reveal(Seq::filter);
    if list.len() > 0 {
        let rest = list.drop_last();
        law_closed_session_is_gone(rest, session, other);
        let kept = without(rest, session);
        assert(list =~= rest.push(list.last()));
        assert(list.contains(other) <==> rest.contains(other) || list.last() == other) by {
            if rest.contains(other) {
                let i = choose|i: int| 0 <= i < rest.len() && rest[i] == other;
                assert(list[i] == other);
            }
        }
        if list.last() != session {
            let now = kept.push(list.last());
            assert(without(list, session) == now);
            assert(now.contains(other) <==> kept.contains(other) || list.last() == other) by {
                if kept.contains(other) {
                    let i = choose|i: int| 0 <= i < kept.len() && kept[i] == other;
                    assert(now[i] == other);
                }
                if list.last() == other {
                    assert(now[kept.len() as int] == other);
                }
            }
            if now.contains(session) {
                let i = choose|i: int| 0 <= i < now.len() && now[i] == session;
                assert(kept[i] == session);
            }
        }
    }
}

/// Opening a session and closing it again leaves the sessions as they were, if
/// it was not open before.
pub proof fn law_close_undoes_open<T>(list: Seq<T>, session: T)
    requires
        !list.contains(session),
    ensures
        without(list.push(session), session) == list,
{
    reveal(Seq::filter);
    assert(list.push(session).drop_last() =~= list);
    lemma_without_absent(list, session);
}

proof fn lemma_without_absent<T>(list: Seq<T>, item: T)
    requires
        !list.contains(item),
    ensures
        without(list, item) == list,
    decreases list.len(),
{
    reveal(Seq::filter);
    if list.len() > 0 {
        let rest = list.drop_last();
        assert(!rest.contains(item)) by {
            if rest.contains(item) {
                let i = choose|i: int| 0 <= i < rest.len() && rest[i] == item;
                assert(list[i] == item);
            }
        }
        lemma_without_absent(rest, item);
        assert(list.contains(list.last()));
        assert(list =~= rest.push(list.last()));
    }
}

/// A capture counts as active for the timeout after a frame request, and for
/// no longer; a request at the very start of the clock does not count.
pub proof fn law_active_for_the_timeout(request: u64, now: u64)
    requires
        request <= now,
    ensures
        request > 0 ==> (capture_active(request, now) <==> now - request
            < CAPTURE_ACTIVE_TIMEOUT_MS),
        request == 0 ==> !capture_active(request, now),
{
}

/// Each open session is judged by itself: closing one gives the same wherever
/// the list is cut, and takes a single session away if it is that one. The
/// others keep their order.
pub proof fn law_sessions_are_judged_one_by_one<T>(a: Seq<T>, b: Seq<T>, one: T, session: T)
    ensures
        without(Seq::<T>::empty(), session).len() == 0,
        without(seq![one], session) == if one == session {
            Seq::<T>::empty()
        } else {
            seq![one]
        },
        without(a + b, session) == without(a, session) + without(b, session),
{
    reveal(Seq::filter);
    reveal_with_fuel(Seq::filter, 2);
    assert(seq![one].drop_last() =~= Seq::<T>::empty());
    Seq::filter_distributes_over_add(a, b, |other: T| other != session);
}

/// Closing a session leaves each other one open as often as it was.
pub proof fn law_closing_keeps_the_others<T>(list: Seq<T>, session: T, other: T)
    requires
        other != session,
    ensures
        without(list, session).to_multiset().count(other) == list.to_multiset().count(other),
    decreases list.len(),
{
    broadcast use vstd::seq_lib::group_to_multiset_ensures;

    reveal(Seq::filter);
    if list.len() > 0 {
        law_closing_keeps_the_others(list.drop_last(), session, other);
        assert(list =~= list.drop_last().push(list.last()));
    }
}

/// Closing a session twice is closing it once, and two sessions may be closed
/// in either order.
pub proof fn law_closing_order_does_not_matter<T>(list: Seq<T>, a: T, b: T)
    ensures
        without(without(list, a), a) == without(list, a),
        without(without(list, a), b) == without(without(list, b), a),
    decreases list.len(),
{
    reveal(Seq::filter);
    if list.len() > 0 {
        let rest = list.drop_last();
        let last = list.last();
        law_closing_order_does_not_matter(rest, a, b);
        assert(without(rest, a).push(last).drop_last() =~= without(rest, a));
        assert(without(rest, b).push(last).drop_last() =~= without(rest, b));
    }
}

/// A capture whose last request lies ahead of the clock counts as active, and
/// one that was never asked for a frame never does.
pub proof fn law_active_by_its_last_request(request: u64, now: u64)
    ensures
        capture_active(request, now) <==> request > 0 && (now < request || now - request < 1_000),
{
}

/// A source without session data has no sessions and was never asked for a
/// frame; one with session data has what is in it.
pub proof fn law_session_data(data: ImageCopySessions, view: ImageCopyView)
    ensures
        or_no_sessions(None).sessions.len() == 0,
        or_no_sessions(None).cursor_sessions.len() == 0,
        or_no_sessions(None).last_frame_request_ms == 0,
        or_no_sessions(Some(view)) == view,
        sessions_of(None::<ImageCopySessions>) is None,
        sessions_of(Some(data)) == Some(data@),
        data@.sessions == data.sessions@,
        data@.cursor_sessions == data.cursor_sessions@,
        data@.last_frame_request_ms == data.last_frame_request_ms,
{
}

/// The sessions of a holder are those in its own data.
pub proof fn law_holders_hold_their_own(output: Output, window: CosmicSurface, workspace: Workspace)
    ensures
        output.image_copy() == sessions_of(output.user_data.image_copy),
        window.image_copy() == sessions_of(window.user_data.image_copy),
        workspace.image_copy() == Some(workspace.image_copy@),
{
}

/// Opening a session puts it behind the open ones and leaves all else as it
/// was; closing it then leaves the others, if it was not open before.
pub proof fn law_open_then_close<H: SessionHolder>(
    opened: &mut H,
    session: SessionRef,
    closed: &mut H,
    list: Vec<SessionRef>,
    after: &H,
)
    requires
        call_ensures(H::add_session, (opened, session), ()),
        call_ensures(H::remove_session, (closed, session), ()),
        call_ensures(H::sessions, (after,), list),
        old(closed).image_copy() == final(opened).image_copy(),
        after.image_copy() == final(closed).image_copy(),
    ensures
        ({
            let before = or_no_sessions(old(opened).image_copy());
            let open = or_no_sessions(final(opened).image_copy());
            let left = or_no_sessions(final(closed).image_copy());
            &&& open.sessions.len() == before.sessions.len() + 1
            &&& open.sessions.last() == session
            &&& open.sessions.drop_last() == before.sessions
            &&& open.cursor_sessions == before.cursor_sessions
            &&& open.last_frame_request_ms == before.last_frame_request_ms
            &&& !left.sessions.contains(session)
            &&& left.cursor_sessions == before.cursor_sessions
            &&& left.last_frame_request_ms == before.last_frame_request_ms
            &&& list@ == left.sessions
            &&& !before.sessions.contains(session) ==> list@ == before.sessions
        }),
{
    let before = or_no_sessions(old(opened).image_copy());
    let open = or_no_sessions(final(opened).image_copy());
    assert(open.sessions.drop_last() =~= before.sessions);
    law_closed_session_is_gone(open.sessions, session, session);
    if !before.sessions.contains(session) {
        law_close_undoes_open(before.sessions, session);
    }
}

/// Opening a cursor session puts it behind the open ones and leaves all else as
/// it was; closing it then leaves the others, if it was not open before.
pub proof fn law_open_then_close_cursor<H: SessionHolder>(
    opened: &mut H,
    session: CursorSessionRef,
    closed: &mut H,
    list: Vec<CursorSessionRef>,
    after: &H,
)
    requires
        call_ensures(H::add_cursor_session, (opened, session), ()),
        call_ensures(H::remove_cursor_session, (closed, session), ()),
        call_ensures(H::cursor_sessions, (after,), list),
        old(closed).image_copy() == final(opened).image_copy(),
        after.image_copy() == final(closed).image_copy(),
    ensures
        ({
            let before = or_no_sessions(old(opened).image_copy());
            let open = or_no_sessions(final(opened).image_copy());
            let left = or_no_sessions(final(closed).image_copy());
            &&& open.cursor_sessions.len() == before.cursor_sessions.len() + 1
            &&& open.cursor_sessions.last() == session
            &&& open.cursor_sessions.drop_last() == before.cursor_sessions
            &&& open.sessions == before.sessions
            &&& open.last_frame_request_ms == before.last_frame_request_ms
            &&& !left.cursor_sessions.contains(session)
            &&& left.sessions == before.sessions
            &&& left.last_frame_request_ms == before.last_frame_request_ms
            &&& list@ == left.cursor_sessions
            &&& !before.cursor_sessions.contains(session) ==> list@ == before.cursor_sessions
        }),
{
    let before = or_no_sessions(old(opened).image_copy());
    let open = or_no_sessions(final(opened).image_copy());
    assert(open.cursor_sessions.drop_last() =~= before.cursor_sessions);
    law_closed_session_is_gone(open.cursor_sessions, session, session);
    if !before.cursor_sessions.contains(session) {
        law_close_undoes_open(before.cursor_sessions, session);
    }
}

/// Closing a session makes no session data where there is none, takes away no
/// other one, and leaves all else as it was.
pub proof fn law_closing_a_session_takes_one_away<H: SessionHolder>(
    holder: &mut H,
    session: SessionRef,
    other: SessionRef,
)
    requires
        call_ensures(H::remove_session, (holder, session), ()),
    ensures
        final(holder).image_copy() is Some <==> old(holder).image_copy() is Some,
        ({
            let before = or_no_sessions(old(holder).image_copy());
            let left = or_no_sessions(final(holder).image_copy());
            &&& !left.sessions.contains(session)
            &&& other != session ==> left.sessions.to_multiset().count(other)
                == before.sessions.to_multiset().count(other)
            &&& left.cursor_sessions == before.cursor_sessions
            &&& left.last_frame_request_ms == before.last_frame_request_ms
        }),
{
    broadcast use vstd::seq_lib::group_to_multiset_ensures;

    let before = or_no_sessions(old(holder).image_copy());
    law_closed_session_is_gone(before.sessions, session, other);
    if other != session {
        law_closing_keeps_the_others(before.sessions, session, other);
    }
}

/// Closing a cursor session makes no session data where there is none, takes away no
/// other one, and leaves all else as it was.
pub proof fn law_closing_a_cursor_session_takes_one_away<H: SessionHolder>(
    holder: &mut H,
    session: CursorSessionRef,
    other: CursorSessionRef,
)
    requires
        call_ensures(H::remove_cursor_session, (holder, session), ()),
    ensures
        final(holder).image_copy() is Some <==> old(holder).image_copy() is Some,
        ({
            let before = or_no_sessions(old(holder).image_copy());
            let left = or_no_sessions(final(holder).image_copy());
            &&& !left.cursor_sessions.contains(session)
            &&& other != session ==> left.cursor_sessions.to_multiset().count(other)
                == before.cursor_sessions.to_multiset().count(other)
            &&& left.sessions == before.sessions
            &&& left.last_frame_request_ms == before.last_frame_request_ms
        }),
{
    broadcast use vstd::seq_lib::group_to_multiset_ensures;

    let before = or_no_sessions(old(holder).image_copy());
    law_closed_session_is_gone(before.cursor_sessions, session, other);
    if other != session {
        law_closing_keeps_the_others(before.cursor_sessions, session, other);
    }
}

/// A holder with session data is active for less than a second after a frame
/// was requested of it, and a holder without stays without and inactive.
/// Neither changes its sessions by it.
pub proof fn law_active_after_a_request<H: SessionHolder>(
    holder: &mut H,
    request: u64,
    after: &H,
    now: u64,
    active: bool,
)
    requires
        call_ensures(H::mark_capture_active, (holder, request), ()),
        call_ensures(H::is_capture_active, (after, now), active),
        after.image_copy() == final(holder).image_copy(),
    ensures
        active <==> old(holder).image_copy() is Some && request > 0 && now - request < 1_000,
        final(holder).image_copy() is Some <==> old(holder).image_copy() is Some,
        or_no_sessions(final(holder).image_copy()).sessions == or_no_sessions(
            old(holder).image_copy(),
        ).sessions,
        or_no_sessions(final(holder).image_copy()).cursor_sessions == or_no_sessions(
            old(holder).image_copy(),
        ).cursor_sessions,
{
}

/// The session data of its own is marked and asked in the same way.
pub proof fn law_active_after_a_request_for_its_own(
    data: &mut ImageCopySessions,
    request: u64,
    after: &ImageCopySessions,
    now: u64,
    active: bool,
)
    requires
        call_ensures(ImageCopySessions::mark_capture_active, (data, request), ()),
        call_ensures(ImageCopySessions::is_capture_active, (after, now), active),
        *after == *final(data),
    ensures
        active <==> request > 0 && now - request < 1_000,
        final(data).sessions@ == old(data).sessions@,
        final(data).cursor_sessions@ == old(data).cursor_sessions@,
{
}

/// A source that goes away has no sessions left, of either kind; when a frame
/// was last requested, and the waiting frames, stay.
pub proof fn law_stopping_ends_every_session(user_data: &mut UserDataMap)
    requires
        call_ensures(stop_all_capture_sessions, (user_data,), ()),
    ensures
        final(user_data).image_copy is Some <==> old(user_data).image_copy is Some,
        final(user_data).image_copy matches Some(data) ==> {
            &&& data.sessions@.len() == 0
            &&& data.cursor_sessions@.len() == 0
            &&& data.last_frame_request_ms == old(user_data).image_copy->Some_0.last_frame_request_ms
        },
        final(user_data).pending == old(user_data).pending,
{
    if let Some(data) = final(user_data).image_copy {
        assert(sessions_of(final(user_data).image_copy) == Some(data@));
    }
}

/// A new session tracks damage as it was told to, and has no buffer yet.
pub proof fn law_new_session_data<T, B>(tracker: T, r: SessionUserData<T, B>)
    requires
        call_ensures(SessionUserData::<T, B>::new, (tracker,), r),
    ensures
        r.dt == tracker,
        r.offscreen is None,
{
}

} // verus!
