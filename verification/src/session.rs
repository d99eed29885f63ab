//! The life cycle of a watch session, as a machine that is told what
//! happened and says what to do next.
//!
//! The session itself touches no file descriptor and blocks nowhere. Its
//! driver opens the backend, polls it, re-arms it and closes it, each when a
//! [`Action`] says so, and reports the outcome as an [`Event`]. A session
//! goes from `Created` to `Running` and from there to `Stopped` or
//! `Faulted`, where it stays.

use crate::watcher::{
    root_verdict, views, ConfigError, DecodeEnd, Decoded, FileChangeNotification,
    NotificationView, RootEvent, WatchDog,
};
use vstd::prelude::*;

verus! {

/// The kernel facility behind a session.
#[derive(Clone, Copy, Debug, PartialEq, Eq, Structural)]
pub enum Backend {
    /// A descriptor that is read. After a failed read the watch has to be
    /// registered again before the next read.
    Inotify,
    /// A directory handle and a call that fills a buffer. A failed call is
    /// final.
    DirectoryChanges,
}

/// A failure of the backend, with the error code of the operating system.
#[derive(Clone, Copy, Debug, PartialEq, Eq, Structural)]
pub enum BackendError {
    /// The root could not be opened, or the watch could not be registered.
    OpenFailed(i32),
    /// Waiting for changes failed.
    ReadFailed(i32),
}

/// Why a session is `Faulted`.
#[derive(Clone, Copy, Debug, PartialEq, Eq, Structural)]
pub enum SessionError {
    Backend(BackendError),
    /// The watched root itself was deleted or moved.
    RootInvalidated(RootEvent),
    /// The consumer's callback failed.
    CallbackFailed,
}

#[derive(Clone, Copy, Debug, PartialEq, Eq, Structural)]
pub enum SessionState {
    /// The configuration is captured; nothing is held.
    Created,
    Running,
    /// Ended on request.
    Stopped,
    /// Ended by an error.
    Faulted,
}

/// What a running session is waiting for.
#[derive(Clone, Copy, Debug, PartialEq, Eq, Structural)]
pub enum Waiting {
    /// The outcome of opening the backend.
    Open,
    /// The outcome of a poll.
    Read,
    /// The outcome of registering the watch again, after a read that
    /// failed with this error code.
    Rearm(i32),
}

/// What the driver reports to the session.
#[derive(Clone, Copy, Debug, PartialEq, Eq, Structural)]
pub enum Event {
    /// The caller asks the session to start.
    Start,
    /// The backend is open; this is its handle.
    Opened(i64),
    /// The backend could not be opened.
    OpenFailed(i32),
    /// A poll brought a buffer, and this is how decoding it went.
    Read { end: DecodeEnd, overflowed: bool },
    /// A poll failed.
    ReadFailed(i32),
    /// The watch is registered again.
    Rearmed,
    /// The watch could not be registered again.
    RearmFailed(i32),
    /// The caller, or a termination signal, asks the session to stop.
    Stop,
    /// The consumer's callback failed.
    CallbackFailed,
}

/// What the session asks of its driver.
#[derive(Clone, Copy, Debug, PartialEq, Eq, Structural)]
pub enum Action {
    /// Open the backend on the session's root.
    Open,
    /// Block until the backend brings a buffer.
    Poll,
    /// Register the watch again.
    Rearm,
    /// Close this handle. The session is over.
    Release(i64),
    /// Nothing.
    Idle,
}

/// The state of a session.
pub struct SessionView {
    pub root: Seq<char>,
    pub recursive: bool,
    pub backend: Backend,
    pub state: SessionState,
    pub waiting: Waiting,
    /// The backend's handle, while the session holds one.
    pub handle: Option<i64>,
    pub error: Option<SessionError>,
    /// The number of buffers that came with a notice of lost changes.
    pub lost: u64,
}

impl SessionView {
    /// Neither `Stopped` nor `Faulted`.
    pub open spec fn live(self) -> bool {
        self.state == SessionState::Created || self.state == SessionState::Running
    }

    /// What holds of every session: the root is one that can be watched; a
    /// handle is held exactly while the session runs with its backend
    /// open; an error is recorded exactly when the session is `Faulted`.
    pub open spec fn wf(self) -> bool {
        &&& root_verdict(self.root) is Ok
        &&& self.handle is Some <==> self.state == SessionState::Running && self.waiting
            != Waiting::Open
        &&& self.error is Some <==> self.state == SessionState::Faulted
    }

    /// The session with one more lost buffer counted. The count stops at
    /// the largest number it can hold.
    pub open spec fn counted(self, overflowed: bool) -> SessionView {
        if overflowed && self.lost < u64::MAX {
            SessionView { lost: (self.lost + 1) as u64, ..self }
        } else {
            self
        }
    }

    /// The session ended: it holds no handle any more.
    pub open spec fn ended(self, state: SessionState, error: Option<SessionError>) -> SessionView {
        SessionView { state, error, handle: None, ..self }
    }

    /// The action that gives up the handle, if one is held.
    pub open spec fn release(self) -> Action {
        match self.handle {
            Some(handle) => Action::Release(handle),
            None => Action::Idle,
        }
    }

    /// The session after an event, and what it asks of its driver.
    ///
    /// An event that the session is not waiting for changes nothing and
    /// asks for nothing. So does every event once the session is `Stopped`
    /// or `Faulted`.
    pub open spec fn next(self, event: Event) -> (SessionView, Action) {
        match self.state {
            SessionState::Created => match event {
                Event::Start => (
                    SessionView {
                        state: SessionState::Running,
                        waiting: Waiting::Open,
                        ..self
                    },
                    Action::Open,
                ),
                _ => (self, Action::Idle),
            },
            SessionState::Running => match event {
                Event::Stop => (self.ended(SessionState::Stopped, None), self.release()),
                Event::CallbackFailed => (
                    self.ended(SessionState::Faulted, Some(SessionError::CallbackFailed)),
                    self.release(),
                ),
                Event::Opened(handle) => if self.waiting == Waiting::Open {
                    (
                        SessionView { waiting: Waiting::Read, handle: Some(handle), ..self },
                        Action::Poll,
                    )
                } else {
                    (self, Action::Idle)
                },
                Event::OpenFailed(code) => if self.waiting == Waiting::Open {
                    (
                        self.ended(
                            SessionState::Faulted,
                            Some(SessionError::Backend(BackendError::OpenFailed(code))),
                        ),
                        Action::Idle,
                    )
                } else {
                    (self, Action::Idle)
                },
                Event::Read { end, overflowed } => if self.waiting == Waiting::Read {
                    match end {
                        DecodeEnd::RootInvalidated(how) => (
                            self.counted(overflowed).ended(
                                SessionState::Faulted,
                                Some(SessionError::RootInvalidated(how)),
                            ),
                            self.release(),
                        ),
                        _ => (self.counted(overflowed), Action::Poll),
                    }
                } else {
                    (self, Action::Idle)
                },
                Event::ReadFailed(code) => if self.waiting == Waiting::Read {
                    match self.backend {
                        Backend::Inotify => (
                            SessionView { waiting: Waiting::Rearm(code), ..self },
                            Action::Rearm,
                        ),
                        Backend::DirectoryChanges => (
                            self.ended(
                                SessionState::Faulted,
                                Some(SessionError::Backend(BackendError::ReadFailed(code))),
                            ),
                            self.release(),
                        ),
                    }
                } else {
                    (self, Action::Idle)
                },
                Event::Rearmed => match self.waiting {
                    Waiting::Rearm(_) => (
                        SessionView { waiting: Waiting::Read, ..self },
                        Action::Poll,
                    ),
                    _ => (self, Action::Idle),
                },
                Event::RearmFailed(_) => match self.waiting {
                    Waiting::Rearm(code) => (
                        self.ended(
                            SessionState::Faulted,
                            Some(SessionError::Backend(BackendError::ReadFailed(code))),
                        ),
                        self.release(),
                    ),
                    _ => (self, Action::Idle),
                },
                Event::Start => (self, Action::Idle),
            },
            SessionState::Stopped | SessionState::Faulted => (self, Action::Idle),
        }
    }
}

/// One watch over one root.
#[derive(Debug)]
pub struct WatchSession {
    config: WatchDog,
    backend: Backend,
    state: SessionState,
    waiting: Waiting,
    handle: Option<i64>,
    error: Option<SessionError>,
    lost: u64,
}

impl View for WatchSession {
    type V = SessionView;

    closed spec fn view(&self) -> SessionView {
        SessionView {
            root: self.config.dir@,
            recursive: self.config.watch_sub_dir,
            backend: self.backend,
            state: self.state,
            waiting: self.waiting,
            handle: self.handle,
            error: self.error,
            lost: self.lost,
        }
    }
}

/// What a session lets through of a decoded buffer.
#[derive(Debug)]
pub struct Accepted {
    /// The notifications to queue for the consumer, in their order.
    pub notifications: Vec<FileChangeNotification>,
    pub action: Action,
}

impl WatchSession {
    /// A session on `config`, not started yet. A root that cannot be
    /// watched is refused here, before anything is opened.
    pub fn new(config: WatchDog, backend: Backend) -> (made: Result<WatchSession, ConfigError>)
        ensures
            match made {
                Ok(session) => root_verdict(config.dir@) is Ok && session@ == (SessionView {
                    root: config.dir@,
                    recursive: config.watch_sub_dir,
                    backend,
                    state: SessionState::Created,
                    waiting: Waiting::Open,
                    handle: None,
                    error: None,
                    lost: 0,
                }) && session@.wf(),
                Err(error) => root_verdict(config.dir@) == Err::<(), ConfigError>(error),
            },
    {
        match config.validate() {
            Err(error) => Err(error),
            Ok(()) => Ok(
                WatchSession {
                    config,
                    backend,
                    state: SessionState::Created,
                    waiting: Waiting::Open,
                    handle: None,
                    error: None,
                    lost: 0,
                },
            ),
        }
    }

    /// What the session watches.
    pub fn config(&self) -> (config: &WatchDog)
        ensures
            config.dir@ == self@.root,
            config.watch_sub_dir == self@.recursive,
    {
        &self.config
    }

    pub fn backend(&self) -> (backend: Backend)
        ensures
            backend == self@.backend,
    {
        self.backend
    }

    pub fn state(&self) -> (state: SessionState)
        ensures
            state == self@.state,
    {
        self.state
    }

    /// Why the session is `Faulted`; `None` in every other state.
    pub fn error(&self) -> (error: Option<SessionError>)
        ensures
            error == self@.error,
    {
        self.error
    }

    /// The number of buffers so far that came with a notice of lost
    /// changes.
    pub fn lost(&self) -> (lost: u64)
        ensures
            lost == self@.lost,
    {
        self.lost
    }

    /// Ends the session and gives up its handle.
    fn end(&mut self, state: SessionState, error: Option<SessionError>) -> (action: Action)
        ensures
            final(self)@ == old(self)@.ended(state, error),
            action == old(self)@.release(),
    {
        let action = match self.handle {
            Some(handle) => Action::Release(handle),
            None => Action::Idle,
        };
        self.state = state;
        self.error = error;
        self.handle = None;
        action
    }

    /// Tells the session what happened, and learns what to do next.
    pub fn step(&mut self, event: Event) -> (action: Action)
        ensures
            (final(self)@, action) == old(self)@.next(event),
            old(self)@.wf() ==> final(self)@.wf(),
    {
        match self.state {
            SessionState::Created => match event {
                Event::Start => {
                    self.state = SessionState::Running;
                    self.waiting = Waiting::Open;
                    Action::Open
                },
                _ => Action::Idle,
            },
            SessionState::Running => match event {
                Event::Stop => self.end(SessionState::Stopped, None),
                Event::CallbackFailed => self.end(
                    SessionState::Faulted,
                    Some(SessionError::CallbackFailed),
                ),
                Event::Opened(handle) => match self.waiting {
                    Waiting::Open => {
                        self.waiting = Waiting::Read;
                        self.handle = Some(handle);
                        Action::Poll
                    },
                    _ => Action::Idle,
                },
                Event::OpenFailed(code) => match self.waiting {
                    Waiting::Open => {
                        self.end(
                            SessionState::Faulted,
                            Some(SessionError::Backend(BackendError::OpenFailed(code))),
                        );
                        Action::Idle
                    },
                    _ => Action::Idle,
                },
                Event::Read { end, overflowed } => match self.waiting {
                    Waiting::Read => {
                        if overflowed && self.lost < u64::MAX {
                            self.lost = self.lost + 1;
                        }
                        match end {
                            DecodeEnd::RootInvalidated(how) => self.end(
                                SessionState::Faulted,
                                Some(SessionError::RootInvalidated(how)),
                            ),
                            _ => Action::Poll,
                        }
                    },
                    _ => Action::Idle,
                },
                Event::ReadFailed(code) => match self.waiting {
                    Waiting::Read => match self.backend {
                        Backend::Inotify => {
                            self.waiting = Waiting::Rearm(code);
                            Action::Rearm
                        },
                        Backend::DirectoryChanges => self.end(
                            SessionState::Faulted,
                            Some(SessionError::Backend(BackendError::ReadFailed(code))),
                        ),
                    },
                    _ => Action::Idle,
                },
                Event::Rearmed => match self.waiting {
                    Waiting::Rearm(_) => {
                        self.waiting = Waiting::Read;
                        Action::Poll
                    },
                    _ => Action::Idle,
                },
                Event::RearmFailed(_) => match self.waiting {
                    Waiting::Rearm(code) => self.end(
                        SessionState::Faulted,
                        Some(SessionError::Backend(BackendError::ReadFailed(code))),
                    ),
                    _ => Action::Idle,
                },
                Event::Start => Action::Idle,
            },
            SessionState::Stopped | SessionState::Faulted => Action::Idle,
        }
    }

    /// Hands the session a decoded buffer: [`WatchSession::step`] with the
    /// event `Read`, and the notifications that may go on to the consumer.
    ///
    /// A session that is waiting for a poll lets every notification
    /// through, also those in front of a record that says the root is gone.
    /// Any other session lets none through.
    pub fn accept(&mut self, decoded: Decoded) -> (accepted: Accepted)
        ensures
            (final(self)@, accepted.action) == old(self)@.next(
                Event::Read { end: decoded.end, overflowed: decoded.overflowed },
            ),
            old(self)@.wf() ==> final(self)@.wf(),
            views(accepted.notifications@) == (if old(self)@.state == SessionState::Running
                && old(self)@.waiting == Waiting::Read {
                decoded@.notifications
            } else {
                Seq::<NotificationView>::empty()
            }),
    {
        let polling = match (self.state, self.waiting) {
            (SessionState::Running, Waiting::Read) => true,
            _ => false,
        };
        let action = self.step(Event::Read { end: decoded.end, overflowed: decoded.overflowed });
        let notifications = if polling {
            decoded.notifications
        } else {
            Vec::new()
        };
        assert(!polling ==> views(notifications@) =~= Seq::<NotificationView>::empty());
        Accepted { notifications, action }
    }
}

/// The session after a run of events, taken one after the other.
pub open spec fn run(start: SessionView, events: Seq<Event>) -> SessionView
    decreases events.len(),
{
    if events.len() == 0 {
        start
    } else {
        run(start.next(events[0]).0, events.drop_first())
    }
}

/// The number of times that a run of events makes the session ask for its
/// handle to be closed.
pub open spec fn releases(start: SessionView, events: Seq<Event>) -> nat
    decreases events.len(),
{
    if events.len() == 0 {
        0
    } else {
        let asked: nat = if start.next(events[0]).1 is Release {
            1
        } else {
            0
        };
        asked + releases(start.next(events[0]).0, events.drop_first())
    }
}

/// The number of times that a run of events hands the session a handle
/// that it takes.
pub open spec fn acquisitions(start: SessionView, events: Seq<Event>) -> nat
    decreases events.len(),
{
    if events.len() == 0 {
        0
    } else {
        let taken: nat = if start.handle is None && start.next(events[0]).0.handle is Some {
            1
        } else {
            0
        };
        taken + acquisitions(start.next(events[0]).0, events.drop_first())
    }
}

/// One if the session holds a handle, zero if not.
pub open spec fn held(session: SessionView) -> nat {
    if session.handle is Some {
        1
    } else {
        0
    }
}

/// No event takes a session out of what holds of every session.
pub proof fn lemma_next_keeps_wf(session: SessionView, event: Event)
    requires
        session.wf(),
    ensures
        session.next(event).0.wf(),
{
}

/// The only ways on are from `Created` to `Running`, and from `Running` to
/// `Stopped` or `Faulted`. What is watched, and through which backend,
/// never changes.
pub proof fn lemma_next_follows_the_life_cycle(session: SessionView, event: Event)
    ensures
        ({
            let after = session.next(event).0;
            &&& session.state == SessionState::Created ==> after.state == SessionState::Created
                || after.state == SessionState::Running
            &&& session.state == SessionState::Running ==> after.state != SessionState::Created
            &&& after.root == session.root
            &&& after.recursive == session.recursive
            &&& after.backend == session.backend
        }),
{
}

/// A session that is `Stopped` or `Faulted` stays as it is, whatever is
/// reported to it, and asks for nothing: no session restarts.
pub proof fn lemma_ended_is_final(session: SessionView, event: Event)
    requires
        !session.live(),
    ensures
        session.next(event) == (session, Action::Idle),
{
}

/// A session that was started ends only by a request to stop, which
/// leaves it `Stopped`, or by an error, which leaves it `Faulted` with that
/// error on record.
pub proof fn lemma_how_sessions_end(session: SessionView, event: Event)
    requires
        session.wf(),
        session.live(),
    ensures
        ({
            let after = session.next(event).0;
            &&& after.state == SessionState::Stopped <==> session.state == SessionState::Running
                && event == Event::Stop
            &&& after.state == SessionState::Faulted ==> session.state == SessionState::Running
                && after.error is Some
        }),
{
}

/// A buffer that says the root is gone takes a session that waits for a
/// poll to `Faulted`, with the error `RootInvalidated` and not a read
/// error, and has its handle closed.
pub proof fn lemma_root_invalidated_faults(session: SessionView, how: RootEvent, overflowed: bool)
    requires
        session.wf(),
        session.state == SessionState::Running,
        session.waiting == Waiting::Read,
    ensures
        ({
            let (after, action) = session.next(
                Event::Read { end: DecodeEnd::RootInvalidated(how), overflowed },
            );
            &&& after.state == SessionState::Faulted
            &&& after.error == Some(SessionError::RootInvalidated(how))
            &&& after.handle is None
            &&& session.handle == Some(action->Release_0)
            &&& action is Release
        }),
{
}

/// A failed read ends a session on a directory handle at once. A session
/// on inotify registers its watch again first, and goes on polling if that
/// works; if it does not, the session ends with the error of the read.
pub proof fn lemma_read_failure_policy(session: SessionView, code: i32, rearm_code: i32)
    requires
        session.wf(),
        session.state == SessionState::Running,
        session.waiting == Waiting::Read,
    ensures
        session.backend == Backend::DirectoryChanges ==> session.next(
            Event::ReadFailed(code),
        ).0.error == Some(SessionError::Backend(BackendError::ReadFailed(code))),
        session.backend == Backend::Inotify ==> ({
            let (rearming, action) = session.next(Event::ReadFailed(code));
            &&& action == Action::Rearm
            &&& rearming.state == SessionState::Running
            &&& rearming.next(Event::Rearmed) == (session, Action::Poll)
            &&& rearming.next(Event::RearmFailed(rearm_code)).0.error == Some(
                SessionError::Backend(BackendError::ReadFailed(code)),
            )
        }),
{
}

/// The session asks for a handle to be closed only if it holds that
/// handle, and from then on it holds none and is over. A handle that is
/// held never goes away in any other way.
pub proof fn lemma_release_gives_up_the_handle(session: SessionView, event: Event)
    requires
        session.wf(),
    ensures
        ({
            let (after, action) = session.next(event);
            match action {
                Action::Release(handle) => session.handle == Some(handle) && after.handle is None
                    && !after.live(),
                _ => session.handle is Some ==> after.handle == session.handle,
            }
        }),
{
}

/// A session that is past opening, or over, takes no handle any more.
proof fn lemma_no_second_handle(start: SessionView, events: Seq<Event>)
    requires
        start.wf(),
        !(start.state == SessionState::Created) && !(start.state == SessionState::Running
            && start.waiting == Waiting::Open),
    ensures
        acquisitions(start, events) == 0,
    decreases events.len(),
{
    if events.len() > 0 {
        lemma_no_second_handle(start.next(events[0]).0, events.drop_first());
    }
}

/// Over any run of events, a session takes at most one handle, and every
/// handle it ever held is either still held or was given up for closing
/// exactly once. A session that is over holds none: the one handle of a
/// session is closed exactly once.
pub proof fn lemma_handle_released_exactly_once(start: SessionView, events: Seq<Event>)
    requires
        start.wf(),
    ensures
        run(start, events).wf(),
        held(start) + acquisitions(start, events) <= 1,
        held(start) + acquisitions(start, events) == releases(start, events) + held(
            run(start, events),
        ),
        !run(start, events).live() ==> held(run(start, events)) == 0,
    decreases events.len(),
{
    if events.len() > 0 {
        let after = start.next(events[0]).0;
        lemma_handle_released_exactly_once(after, events.drop_first());
        if !(after.state == SessionState::Created) && !(after.state == SessionState::Running
            && after.waiting == Waiting::Open) {
            lemma_no_second_handle(after, events.drop_first());
        }
    }
}

} // verus!
