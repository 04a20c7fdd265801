//! The decisions of the activity tracker's polling loop.
//!
//! Each poll, the loop reads the foreground window and hands it to
//! [`SessionTracker::poll`], which says which stored session to close and
//! which new one to open; the loop performs those writes and reports the id
//! of the new session back through [`SessionTracker::opened`].

use vstd::prelude::*;

use crate::matching::open_time_fits;
use crate::model::{ActiveWindowInfo, AppSession, TrackerStatus};

verus! {

/// The application whose own windows are never tracked.
pub open spec fn own_app_name() -> Seq<char> {
    "Accountability App"@
}

/// The foreground window no longer matches the session: another application
/// or another window title.
pub open spec fn differs_from(session: AppSession, info: ActiveWindowInfo) -> bool {
    session.app_name@ != info.app_name@ || session.window_title.deep_view() != Some(
        info.window_title@,
    )
}

/// Whether the foreground window calls for a new session: its application or
/// its window title differs from the session's.
pub fn should_start_new_session(session: &AppSession, info: &ActiveWindowInfo) -> (r: bool)
    ensures
        r == differs_from(*session, *info),
{
    if session.app_name != info.app_name {
        return true;
    }
    match &session.window_title {
        Some(t) => *t != info.window_title,
        None => true,
    }
}

/// A stored session the tracker is extending, with its row id.
pub struct OpenSession {
    pub id: i64,
    pub session: AppSession,
}

/// Closing a stored session: its row id, end time and duration.
#[derive(Debug, Clone, Copy, PartialEq, Eq)]
pub struct SessionClose {
    pub id: i64,
    pub end_time: i64,
    pub duration: i64,
}

/// What one poll asks of the store: close a session, then open one.
pub struct PollPlan {
    pub close: Option<SessionClose>,
    pub open: Option<AppSession>,
}

/// The state of the polling loop: the session being extended, if any.
pub struct SessionTracker {
    pub current: Option<OpenSession>,
}

/// The session a window starts at time `now`.
pub open spec fn session_for(info: ActiveWindowInfo, now: i64, s: AppSession) -> bool {
    &&& s.id is None
    &&& s.app_name@ == info.app_name@
    &&& s.window_title.deep_view() == Some(info.window_title@)
    &&& s.start_time == now
    &&& s.end_time is None
    &&& s.duration_seconds == 0
}

/// Closing `o` at time `now`: its duration is the time since it started.
pub open spec fn close_of(o: OpenSession, now: i64) -> SessionClose {
    SessionClose { id: o.id, end_time: now, duration: (now - o.session.start_time) as i64 }
}

/// The row id of the session being extended.
pub open spec fn current_id(c: Option<OpenSession>) -> Option<i64> {
    match c {
        Some(o) => Some(o.id),
        None => None,
    }
}

/// `plan` and the tracker's next state `next` are what a poll at time `now`
/// decides, given the session `cur` left after any reset and the foreground
/// window `window`:
/// - no window: close the current session, if any, and keep none;
/// - the tracker's own window: do nothing;
/// - no current session: open one for the window;
/// - a window that differs from the current session: close it and open one
///   for the window, the current session staying until the new one is stored;
/// - the same window: do nothing.
pub open spec fn poll_decided(
    cur: Option<OpenSession>,
    window: Option<ActiveWindowInfo>,
    now: i64,
    plan: PollPlan,
    next: Option<OpenSession>,
) -> bool {
    match window {
        None => {
            &&& plan.open is None
            &&& plan.close == match cur {
                Some(o) => Some(close_of(o, now)),
                None => None,
            }
            &&& next is None
        },
        Some(info) => {
            &&& next == cur
            &&& if info.app_name@ == own_app_name() {
                plan.close is None && plan.open is None
            } else {
                match cur {
                    None => plan.close is None && (plan.open matches Some(s) && session_for(
                        info,
                        now,
                        s,
                    )),
                    Some(o) => if differs_from(o.session, info) {
                        plan.close == Some(close_of(o, now)) && (plan.open matches Some(s)
                            && session_for(info, now, s))
                    } else {
                        plan.close is None && plan.open is None
                    },
                }
            }
        },
    }
}

/// The durations of the poll can be computed: the current session started
/// at most `i64::MAX` seconds before `now`.
pub open spec fn poll_computable(cur: Option<OpenSession>, now: i64) -> bool {
    cur matches Some(o) ==> open_time_fits(o.session.start_time, now)
}

fn new_session(info: &ActiveWindowInfo, now: i64) -> (s: AppSession)
    ensures
        session_for(*info, now, s),
{
    AppSession {
        id: None,
        app_name: info.app_name.clone(),
        window_title: Some(info.window_title.clone()),
        start_time: now,
        end_time: None,
        duration_seconds: 0,
    }
}

impl SessionTracker {
    /// A tracker with no session.
    pub fn new() -> (t: Self)
        ensures
            t.current is None,
    {
        SessionTracker { current: None }
    }

    /// One poll at time `now`. A `reset` first forgets the current session
    /// without closing it (its rows were cleared); then the foreground
    /// `window` decides what to close and open.
    pub fn poll(&mut self, reset: bool, window: Option<ActiveWindowInfo>, now: i64) -> (plan:
        PollPlan)
        requires
            reset || poll_computable(old(self).current, now),
        ensures
            poll_decided(
                if reset {
                    None
                } else {
                    old(self).current
                },
                window,
                now,
                plan,
                final(self).current,
            ),
    {
        if reset {
            self.current = None;
        }
        match window {
            None => {
                let taken = self.current.take();
                match taken {
                    Some(o) => {
                        let end_time = now;
                        let duration = end_time - o.session.start_time;
                        PollPlan {
                            close: Some(SessionClose { id: o.id, end_time, duration }),
                            open: None,
                        }
                    },
                    None => PollPlan { close: None, open: None },
                }
            },
            Some(info) => {
                if info.app_name == String::from_str("Accountability App") {
                    return PollPlan { close: None, open: None };
                }
                match &self.current {
                    Some(o) => {
                        if should_start_new_session(&o.session, &info) {
                            let end_time = now;
                            let duration = end_time - o.session.start_time;
                            PollPlan {
                                close: Some(SessionClose { id: o.id, end_time, duration }),
                                open: Some(new_session(&info, now)),
                            }
                        } else {
                            PollPlan { close: None, open: None }
                        }
                    },
                    None => PollPlan { close: None, open: Some(new_session(&info, now)) },
                }
            },
        }
    }

    /// The store answered the opening of `session`: with its row id, it
    /// becomes the current session; on failure the tracker keeps what it had.
    pub fn opened(&mut self, session: AppSession, id: Option<i64>)
        ensures
            match id {
                Some(i) => final(self).current == Some(OpenSession { id: i, session }),
                None => final(self).current == old(self).current,
            },
    {
        match id {
            Some(i) => {
                self.current = Some(OpenSession { id: i, session });
            },
            None => {},
        }
    }

    /// The loop stops at time `now`: close the current session, if any.
    pub fn finish(&mut self, now: i64) -> (close: Option<SessionClose>)
        requires
            poll_computable(old(self).current, now),
        ensures
            close == match old(self).current {
                Some(o) => Some(close_of(o, now)),
                None => None,
            },
            final(self).current is None,
    {
        match self.current.take() {
            Some(o) => Some(
                SessionClose { id: o.id, end_time: now, duration: now - o.session.start_time },
            ),
            None => None,
        }
    }
}

/// The status shown for a tracker: when there is a tracker, whether it runs
/// and the foreground window; otherwise not tracking and no window.
pub fn tracker_status(running: Option<bool>, current: Option<ActiveWindowInfo>) -> (r:
    TrackerStatus)
    ensures
        match running {
            Some(b) => {
                &&& r.is_tracking == b
                &&& r.current_app.deep_view() == match current {
                    Some(c) => Some(c.app_name@),
                    None => None,
                }
                &&& r.current_window_title.deep_view() == match current {
                    Some(c) => Some(c.window_title@),
                    None => None,
                }
            },
            None => !r.is_tracking && r.current_app is None && r.current_window_title is None,
        },
{
    match running {
        Some(b) => match current {
            Some(c) => TrackerStatus {
                is_tracking: b,
                current_app: Some(c.app_name),
                current_window_title: Some(c.window_title),
            },
            None => TrackerStatus { is_tracking: b, current_app: None, current_window_title: None },
        },
        None => TrackerStatus { is_tracking: false, current_app: None, current_window_title: None },
    }
}

} // verus!
