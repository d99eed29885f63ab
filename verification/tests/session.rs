use shepherd::session::{
    Action, Backend, BackendError, Event, SessionError, SessionState, WatchSession,
};
use shepherd::watcher::{
    ConfigError, DecodeEnd, Decoded, FileChange, FileChangeNotification, NativeName, RootEvent,
    WatchDog,
};

fn fresh(backend: Backend) -> WatchSession {
    let config = WatchDog { dir: "/tmp/watched".to_string(), watch_sub_dir: true };
    WatchSession::new(config, backend).unwrap()
}

fn polling(backend: Backend, handle: i64) -> WatchSession {
    let mut session = fresh(backend);
    assert_eq!(session.step(Event::Start), Action::Open);
    assert_eq!(session.step(Event::Opened(handle)), Action::Poll);
    session
}

fn two_notes() -> Vec<FileChangeNotification> {
    vec![
        FileChangeNotification {
            action: FileChange::Created,
            file: NativeName::Bytes(b"a.txt".to_vec()),
        },
        FileChangeNotification {
            action: FileChange::Deleted,
            file: NativeName::Bytes(b"a.txt".to_vec()),
        },
    ]
}

fn quiet_read() -> Event {
    Event::Read { end: DecodeEnd::Complete, overflowed: false }
}

#[test]
fn new_session_is_created_and_holds_its_configuration() {
    let session = fresh(Backend::Inotify);
    assert_eq!(session.state(), SessionState::Created);
    assert_eq!(session.error(), None);
    assert_eq!(session.lost(), 0);
    assert_eq!(session.backend(), Backend::Inotify);
    assert_eq!(session.config().dir, "/tmp/watched");
    assert!(session.config().watch_sub_dir);
}

#[test]
fn session_on_a_bad_root_is_refused() {
    let config = WatchDog { dir: String::new(), watch_sub_dir: false };
    assert_eq!(
        WatchSession::new(config, Backend::Inotify).map(|_| ()),
        Err(ConfigError::EmptyRoot)
    );
    let config = WatchDog { dir: "a\0".to_string(), watch_sub_dir: false };
    assert_eq!(
        WatchSession::new(config, Backend::DirectoryChanges).map(|_| ()),
        Err(ConfigError::NulInRoot)
    );
}

#[test]
fn start_opens_the_backend_and_then_polls() {
    let mut session = fresh(Backend::Inotify);
    assert_eq!(session.step(Event::Start), Action::Open);
    assert_eq!(session.state(), SessionState::Running);
    assert_eq!(session.step(Event::Opened(5)), Action::Poll);
    assert_eq!(session.state(), SessionState::Running);
    assert_eq!(session.step(quiet_read()), Action::Poll);
    assert_eq!(session.state(), SessionState::Running);
    assert_eq!(session.error(), None);
}

#[test]
fn created_session_waits_for_start() {
    let mut session = fresh(Backend::Inotify);
    for event in [
        Event::Opened(5),
        Event::OpenFailed(2),
        quiet_read(),
        Event::ReadFailed(4),
        Event::Rearmed,
        Event::RearmFailed(4),
        Event::Stop,
        Event::CallbackFailed,
    ] {
        assert_eq!(session.step(event), Action::Idle);
        assert_eq!(session.state(), SessionState::Created);
    }
    assert_eq!(session.step(Event::Start), Action::Open);
}

#[test]
fn failed_open_faults_the_session() {
    let mut session = fresh(Backend::Inotify);
    session.step(Event::Start);
    assert_eq!(session.step(Event::OpenFailed(13)), Action::Idle);
    assert_eq!(session.state(), SessionState::Faulted);
    assert_eq!(session.error(), Some(SessionError::Backend(BackendError::OpenFailed(13))));
}

#[test]
fn stop_releases_the_handle_once() {
    let mut session = polling(Backend::Inotify, 5);
    assert_eq!(session.step(Event::Stop), Action::Release(5));
    assert_eq!(session.state(), SessionState::Stopped);
    assert_eq!(session.error(), None);
    assert_eq!(session.step(Event::Stop), Action::Idle);
    assert_eq!(session.state(), SessionState::Stopped);
}

#[test]
fn stop_while_opening_has_nothing_to_release() {
    let mut session = fresh(Backend::DirectoryChanges);
    session.step(Event::Start);
    assert_eq!(session.step(Event::Stop), Action::Idle);
    assert_eq!(session.state(), SessionState::Stopped);
}

#[test]
fn ended_session_stays_as_it_is() {
    let mut stopped = polling(Backend::Inotify, 5);
    stopped.step(Event::Stop);
    let mut faulted = polling(Backend::DirectoryChanges, 6);
    faulted.step(Event::ReadFailed(5));
    for event in [
        Event::Start,
        Event::Opened(9),
        Event::OpenFailed(2),
        quiet_read(),
        Event::Read { end: DecodeEnd::RootInvalidated(RootEvent::Deleted), overflowed: true },
        Event::ReadFailed(4),
        Event::Rearmed,
        Event::RearmFailed(4),
        Event::Stop,
        Event::CallbackFailed,
    ] {
        assert_eq!(stopped.step(event), Action::Idle);
        assert_eq!(stopped.state(), SessionState::Stopped);
        assert_eq!(stopped.error(), None);
        assert_eq!(stopped.lost(), 0);
        assert_eq!(faulted.step(event), Action::Idle);
        assert_eq!(faulted.state(), SessionState::Faulted);
        assert_eq!(faulted.error(), Some(SessionError::Backend(BackendError::ReadFailed(5))));
        assert_eq!(faulted.lost(), 0);
    }
}

#[test]
fn failed_read_on_a_directory_handle_is_final() {
    let mut session = polling(Backend::DirectoryChanges, 6);
    assert_eq!(session.step(Event::ReadFailed(995)), Action::Release(6));
    assert_eq!(session.state(), SessionState::Faulted);
    assert_eq!(session.error(), Some(SessionError::Backend(BackendError::ReadFailed(995))));
}

#[test]
fn failed_read_on_inotify_registers_the_watch_again() {
    let mut session = polling(Backend::Inotify, 5);
    assert_eq!(session.step(Event::ReadFailed(4)), Action::Rearm);
    assert_eq!(session.state(), SessionState::Running);
    assert_eq!(session.error(), None);
    assert_eq!(session.step(Event::Rearmed), Action::Poll);
    assert_eq!(session.state(), SessionState::Running);
    assert_eq!(session.step(quiet_read()), Action::Poll);
}

#[test]
fn failed_rearm_faults_with_the_error_of_the_read() {
    let mut session = polling(Backend::Inotify, 5);
    assert_eq!(session.step(Event::ReadFailed(4)), Action::Rearm);
    assert_eq!(session.step(Event::RearmFailed(28)), Action::Release(5));
    assert_eq!(session.state(), SessionState::Faulted);
    assert_eq!(session.error(), Some(SessionError::Backend(BackendError::ReadFailed(4))));
}

#[test]
fn session_that_rearms_takes_no_buffer() {
    let mut session = polling(Backend::Inotify, 5);
    session.step(Event::ReadFailed(4));
    assert_eq!(session.step(quiet_read()), Action::Idle);
    assert_eq!(session.step(Event::ReadFailed(9)), Action::Idle);
    let accepted = session.accept(Decoded {
        notifications: two_notes(),
        end: DecodeEnd::Complete,
        overflowed: true,
    });
    assert_eq!(accepted.action, Action::Idle);
    assert_eq!(accepted.notifications, vec![]);
    assert_eq!(session.lost(), 0);
    assert_eq!(session.step(Event::Rearmed), Action::Poll);
}

#[test]
fn events_out_of_turn_change_nothing() {
    let mut session = polling(Backend::Inotify, 5);
    for event in [
        Event::Start,
        Event::Opened(9),
        Event::OpenFailed(2),
        Event::Rearmed,
        Event::RearmFailed(3),
    ] {
        assert_eq!(session.step(event), Action::Idle);
        assert_eq!(session.state(), SessionState::Running);
    }
    assert_eq!(session.step(Event::Stop), Action::Release(5));
}

#[test]
fn callback_failure_faults_the_session() {
    let mut session = polling(Backend::Inotify, 5);
    assert_eq!(session.step(Event::CallbackFailed), Action::Release(5));
    assert_eq!(session.state(), SessionState::Faulted);
    assert_eq!(session.error(), Some(SessionError::CallbackFailed));
}

#[test]
fn root_that_is_gone_faults_the_session() {
    let mut session = polling(Backend::Inotify, 5);
    let gone = Event::Read { end: DecodeEnd::RootInvalidated(RootEvent::Deleted), overflowed: false };
    assert_eq!(session.step(gone), Action::Release(5));
    assert_eq!(session.state(), SessionState::Faulted);
    assert_eq!(session.error(), Some(SessionError::RootInvalidated(RootEvent::Deleted)));
    let mut session = polling(Backend::Inotify, 5);
    let moved = Event::Read { end: DecodeEnd::RootInvalidated(RootEvent::Moved), overflowed: false };
    assert_eq!(session.step(moved), Action::Release(5));
    assert_eq!(session.error(), Some(SessionError::RootInvalidated(RootEvent::Moved)));
}

#[test]
fn truncated_buffer_does_not_end_the_session() {
    let mut session = polling(Backend::Inotify, 5);
    let cut = Event::Read { end: DecodeEnd::Truncated, overflowed: false };
    assert_eq!(session.step(cut), Action::Poll);
    assert_eq!(session.state(), SessionState::Running);
}

#[test]
fn lost_buffers_are_counted() {
    let mut session = polling(Backend::DirectoryChanges, 6);
    assert_eq!(session.lost(), 0);
    let lossy = Event::Read { end: DecodeEnd::Complete, overflowed: true };
    assert_eq!(session.step(lossy), Action::Poll);
    assert_eq!(session.lost(), 1);
    assert_eq!(session.step(quiet_read()), Action::Poll);
    assert_eq!(session.lost(), 1);
    assert_eq!(session.step(lossy), Action::Poll);
    assert_eq!(session.lost(), 2);
    assert_eq!(session.state(), SessionState::Running);
    let gone = Event::Read { end: DecodeEnd::RootInvalidated(RootEvent::Moved), overflowed: true };
    assert_eq!(session.step(gone), Action::Release(6));
    assert_eq!(session.lost(), 3);
}

#[test]
fn polling_session_lets_notifications_through() {
    let mut session = polling(Backend::Inotify, 5);
    let accepted = session.accept(Decoded {
        notifications: two_notes(),
        end: DecodeEnd::Complete,
        overflowed: false,
    });
    assert_eq!(accepted.action, Action::Poll);
    assert_eq!(accepted.notifications, two_notes());
    assert_eq!(session.state(), SessionState::Running);
}

#[test]
fn notifications_in_front_of_a_lost_root_still_go_through() {
    let mut session = polling(Backend::Inotify, 5);
    let accepted = session.accept(Decoded {
        notifications: two_notes(),
        end: DecodeEnd::RootInvalidated(RootEvent::Deleted),
        overflowed: false,
    });
    assert_eq!(accepted.action, Action::Release(5));
    assert_eq!(accepted.notifications, two_notes());
    assert_eq!(session.state(), SessionState::Faulted);
    assert_eq!(session.error(), Some(SessionError::RootInvalidated(RootEvent::Deleted)));
}

#[test]
fn session_that_is_over_takes_no_buffer() {
    let mut session = polling(Backend::Inotify, 5);
    session.step(Event::Stop);
    let accepted = session.accept(Decoded {
        notifications: two_notes(),
        end: DecodeEnd::Complete,
        overflowed: true,
    });
    assert_eq!(accepted.action, Action::Idle);
    assert_eq!(accepted.notifications, vec![]);
    assert_eq!(session.lost(), 0);
    let mut session = fresh(Backend::Inotify);
    let accepted = session.accept(Decoded {
        notifications: two_notes(),
        end: DecodeEnd::Complete,
        overflowed: false,
    });
    assert_eq!(accepted.action, Action::Idle);
    assert_eq!(accepted.notifications, vec![]);
    assert_eq!(session.state(), SessionState::Created);
}

#[test]
fn handle_is_released_exactly_once_over_a_long_run() {
    let events = [
        Event::Stop,
        Event::Start,
        Event::Start,
        Event::Opened(42),
        Event::Opened(43),
        quiet_read(),
        Event::ReadFailed(4),
        Event::Rearmed,
        Event::ReadFailed(4),
        Event::RearmFailed(9),
        Event::Stop,
        Event::Opened(44),
        Event::CallbackFailed,
        Event::Start,
    ];
    let mut session = fresh(Backend::Inotify);
    let mut released = Vec::new();
    for event in events {
        if let Action::Release(handle) = session.step(event) {
            released.push(handle);
        }
    }
    assert_eq!(released, vec![42]);
    assert_eq!(session.state(), SessionState::Faulted);
    assert_eq!(session.error(), Some(SessionError::Backend(BackendError::ReadFailed(4))));
}
