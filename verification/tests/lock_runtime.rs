use std::cell::RefCell;
use std::rc::Rc;

use limes::auth::AuthBackend;
use limes::config::{Config, ConfigEnv, FrontendSpec};
use limes::error::{LimesError, LimesResult};
use limes::events::{EventBus, EventSink};
use limes::frontend::FrontendMode;
use limes::lock::{DisplayBackend, LockManager, NoopDisplayBackend};
use limes::proto::{
    AuthFailure, AuthOutcome, AuthRequest, AuthSuccess, LimesEvent, LockState, SessionHandle,
    SessionSpec,
};
use limes::runtime::{wait_outcome, LockRuntime, LoginRuntime, Runtime};
use limes::session::{privilege_drop_steps, PrivilegeStep, SessionBackend};

#[derive(Clone, Default)]
struct Sink {
    events: Rc<RefCell<Vec<LimesEvent>>>,
}

impl EventSink for Sink {
    fn emit(&self, event: &LimesEvent) {
        self.events.borrow_mut().push(event.clone());
    }
}

#[derive(Clone)]
struct TestDisplay {
    lock_ok: bool,
    unlock_ok: bool,
    calls: Rc<RefCell<Vec<&'static str>>>,
}

impl DisplayBackend for TestDisplay {
    fn lock(&self) -> LimesResult<()> {
        self.calls.borrow_mut().push("lock");
        if self.lock_ok {
            Ok(())
        } else {
            Err(LimesError::Lock("compositor refused".to_owned()))
        }
    }

    fn unlock(&self) -> LimesResult<()> {
        self.calls.borrow_mut().push("unlock");
        if self.unlock_ok {
            Ok(())
        } else {
            Err(LimesError::Lock("still locked".to_owned()))
        }
    }
}

#[derive(Clone, Default)]
struct TestAuth {
    closed: Rc<RefCell<Vec<Option<String>>>>,
}

impl AuthBackend for TestAuth {
    fn authenticate(&self, request: &AuthRequest) -> AuthOutcome {
        if request.password == "secret" {
            Ok(AuthSuccess {
                username: request.username.clone(),
                uid: 1000,
                gid: 1000,
                home: Some("/home/alice".to_owned()),
                shell: Some("/bin/bash".to_owned()),
                auth_session_id: Some("pam-1".to_owned()),
            })
        } else {
            Err(AuthFailure::InvalidCredentials)
        }
    }

    fn open_session(&self, _user: &AuthSuccess) -> LimesResult<Vec<(String, String)>> {
        Ok(vec![("XDG_SESSION_ID".to_owned(), "7".to_owned())])
    }

    fn close_session(&self, auth_session_id: Option<&str>) -> LimesResult<()> {
        self.closed.borrow_mut().push(auth_session_id.map(str::to_owned));
        Ok(())
    }
}

#[derive(Clone, Default)]
struct TestSessions {
    started: Rc<RefCell<Vec<SessionSpec>>>,
    fail: bool,
}

impl SessionBackend for TestSessions {
    fn start(&self, spec: &SessionSpec) -> LimesResult<SessionHandle> {
        if self.fail {
            return Err(LimesError::Session("spawn failed".to_owned()));
        }
        self.started.borrow_mut().push(spec.clone());
        Ok(SessionHandle {
            pid: 42,
            username: spec.username.clone(),
            command: spec.command.clone(),
            auth_session_id: spec.auth_session_id.clone(),
        })
    }

    fn wait(&self, _handle: &SessionHandle) -> LimesResult<i32> {
        Ok(3)
    }

    fn terminate(&self, _handle: &SessionHandle) -> LimesResult<()> {
        Ok(())
    }
}

fn config() -> Config {
    Config::from_values(&ConfigEnv {
        auth_backend: None,
        dev_password: None,
        pam_service: None,
        login_frontend: None,
        lock_frontend: None,
        session_command: None,
        max_auth_attempts: None,
        session_path: None,
    })
    .unwrap()
}

fn display(lock_ok: bool, unlock_ok: bool) -> TestDisplay {
    TestDisplay { lock_ok, unlock_ok, calls: Rc::default() }
}

fn bus_with(sink: &Sink) -> EventBus<Sink> {
    let mut bus = EventBus::new();
    bus.subscribe(sink.clone());
    bus
}

fn state_changed(state: LockState) -> LimesEvent {
    LimesEvent::LockStateChanged { state }
}

#[test]
fn lock_then_unlock_reports_every_step() {
    let sink = Sink::default();
    let auth = TestAuth::default();
    let mut manager = LockManager::new(display(true, true), auth.clone(), bus_with(&sink));
    assert_eq!(manager.state(), Ok(LockState::Unlocked));

    assert_eq!(manager.lock_now(), Ok(()));
    assert_eq!(manager.state(), Ok(LockState::Locked));

    let request = AuthRequest::new("alice", "secret");
    let success = manager.unlock(&request).unwrap();
    assert_eq!(success.uid, 1000);
    assert_eq!(manager.state(), Ok(LockState::Unlocked));
    assert_eq!(*auth.closed.borrow(), vec![Some("pam-1".to_owned())]);

    assert_eq!(
        *sink.events.borrow(),
        vec![
            state_changed(LockState::Locking),
            state_changed(LockState::Locked),
            state_changed(LockState::Unlocking),
            LimesEvent::AuthStarted { username: "alice".to_owned() },
            LimesEvent::AuthSucceeded { username: "alice".to_owned(), uid: 1000 },
            state_changed(LockState::Unlocked),
        ]
    );
}

#[test]
fn refused_unlock_keeps_the_screen_locked() {
    let sink = Sink::default();
    let mut manager = LockManager::new(display(true, true), TestAuth::default(), bus_with(&sink));
    manager.lock_now().unwrap();
    sink.events.borrow_mut().clear();

    let outcome = manager.unlock(&AuthRequest::new("alice", "wrong"));

    assert_eq!(outcome, Err(AuthFailure::InvalidCredentials));
    assert_eq!(manager.state(), Ok(LockState::Locked));
    assert_eq!(
        *sink.events.borrow(),
        vec![
            state_changed(LockState::Unlocking),
            LimesEvent::AuthStarted { username: "alice".to_owned() },
            LimesEvent::AuthFailed {
                username: "alice".to_owned(),
                reason: "invalid credentials".to_owned(),
            },
            state_changed(LockState::Locked),
        ]
    );
}

#[test]
fn failed_display_lock_leaves_the_screen_unlocked() {
    let sink = Sink::default();
    let mut manager = LockManager::new(display(false, true), TestAuth::default(), bus_with(&sink));
    assert_eq!(manager.lock_now(), Err(LimesError::Lock("compositor refused".to_owned())));
    assert_eq!(manager.state(), Ok(LockState::Unlocked));
    assert_eq!(
        *sink.events.borrow(),
        vec![state_changed(LockState::Locking), state_changed(LockState::Unlocked)]
    );
}

#[test]
fn display_that_will_not_release_fails_the_unlock_but_closes_the_transaction() {
    let sink = Sink::default();
    let auth = TestAuth::default();
    let d = display(true, false);
    let mut manager = LockManager::new(d.clone(), auth.clone(), bus_with(&sink));
    manager.lock_now().unwrap();

    let outcome = manager.unlock(&AuthRequest::new("alice", "secret"));

    assert_eq!(outcome, Err(AuthFailure::Internal("lock error: still locked".to_owned())));
    assert_eq!(manager.state(), Ok(LockState::Locked));
    assert_eq!(*auth.closed.borrow(), vec![Some("pam-1".to_owned())]);
    assert_eq!(*d.calls.borrow(), vec!["lock", "unlock"]);
}

#[test]
fn authenticate_unlock_leaves_the_display_alone() {
    let sink = Sink::default();
    let d = display(true, true);
    let mut manager = LockManager::new(d.clone(), TestAuth::default(), bus_with(&sink));
    manager.lock_now().unwrap();

    assert!(manager.authenticate_unlock(&AuthRequest::new("alice", "secret")).is_ok());
    assert_eq!(manager.state(), Ok(LockState::Unlocked));
    assert_eq!(*d.calls.borrow(), vec!["lock"]);
}

#[test]
fn lock_runtime_launches_its_frontend_with_the_lock_mode() {
    let sink = Sink::default();
    let mut cfg = config();
    cfg.lock_frontend = Some(FrontendSpec::External { program: "locker".to_owned(), args: vec!["-v".to_owned()] });
    let mut runtime = LockRuntime::with_parts(
        cfg,
        limes::auth::NoopLockBackend,
        display(true, true),
        bus_with(&sink),
    );
    assert_eq!(runtime.lock_now(), Ok(()));
    assert_eq!(runtime.state(), Ok(LockState::Locked));
    assert_eq!(
        runtime.launch_lock_frontend(),
        Ok(vec!["locker".to_owned(), "-v".to_owned(), "lock".to_owned()])
    );
    assert!(sink.events.borrow().contains(&LimesEvent::FrontendStarted {
        mode: "lock".to_owned(),
        command: vec!["locker".to_owned(), "-v".to_owned()],
    }));
    assert_eq!(
        runtime.unlock(&AuthRequest::new("alice", "secret")),
        Err(AuthFailure::BackendUnavailable("no lock authentication backend is configured".to_owned()))
    );
    assert_eq!(runtime.state(), Ok(LockState::Locked));
}

#[test]
fn login_runtime_authenticates_and_starts_the_session() {
    let sink = Sink::default();
    let auth = TestAuth::default();
    let sessions = TestSessions::default();
    let mut runtime = LoginRuntime::with_session_backend(config(), auth.clone(), sessions.clone(), bus_with(&sink));

    assert_eq!(
        runtime.authenticate(&AuthRequest::new("alice", "nope")),
        Err(AuthFailure::InvalidCredentials)
    );
    let success = runtime.authenticate(&AuthRequest::new("alice", "secret")).unwrap();
    let handle = runtime.start_session_for(&success).unwrap();
    assert_eq!(handle.pid, 42);
    assert_eq!(handle.command, vec!["/bin/bash".to_owned()]);
    let started = sessions.started.borrow();
    assert_eq!(
        started[0].env.last().unwrap(),
        &("XDG_SESSION_ID".to_owned(), "7".to_owned())
    );
    drop(started);

    assert_eq!(runtime.wait_session(&handle), Ok(3));
    assert_eq!(*auth.closed.borrow(), vec![Some("pam-1".to_owned())]);

    let events = sink.events.borrow();
    assert_eq!(events[0], LimesEvent::AuthStarted { username: "alice".to_owned() });
    assert_eq!(
        events[1],
        LimesEvent::AuthFailed { username: "alice".to_owned(), reason: "invalid credentials".to_owned() }
    );
    assert!(events.contains(&LimesEvent::SessionStarted { username: "alice".to_owned(), pid: 42 }));
}

#[test]
fn login_runtime_refuses_an_empty_chosen_command_and_closes_after_a_failed_start() {
    let auth = TestAuth::default();
    let sessions = TestSessions { fail: true, ..TestSessions::default() };
    let mut runtime = LoginRuntime::with_session_backend(config(), auth.clone(), sessions, EventBus::<Sink>::new());
    let success = runtime.authenticate(&AuthRequest::new("alice", "secret")).unwrap();

    assert_eq!(
        runtime.start_session_for_with_command(&success, Vec::new()),
        Err(LimesError::Session("selected session command is empty".to_owned()))
    );
    assert!(auth.closed.borrow().is_empty());
    assert_eq!(
        runtime.start_session_for_with_command(&success, vec!["sway".to_owned()]),
        Err(LimesError::Session("spawn failed".to_owned()))
    );
    assert_eq!(*auth.closed.borrow(), vec![Some("pam-1".to_owned())]);
}

#[test]
fn login_runtime_without_a_frontend_command_is_a_config_error() {
    let mut runtime = LoginRuntime::with_session_backend(config(), TestAuth::default(), TestSessions::default(), EventBus::<Sink>::new());
    assert_eq!(
        runtime.launch_login_frontend(),
        Err(LimesError::Config(
            "no login frontend configured; set LIMES_LOGIN_FRONTEND or Config::login_frontend".to_owned()
        ))
    );
    assert_eq!(
        runtime.launch_frontend(
            &FrontendSpec::External { program: "greeter".to_owned(), args: Vec::new() },
            FrontendMode::Login
        ),
        Ok(vec!["greeter".to_owned(), "login".to_owned()])
    );
}

#[test]
fn runtime_shares_one_backend_between_login_and_lock() {
    let sink = Sink::default();
    let auth = TestAuth::default();
    let mut runtime = Runtime::with_parts(
        config(),
        auth.clone(),
        display(true, true),
        TestSessions::default(),
        bus_with(&sink),
    );
    assert_eq!(runtime.launch_lock_frontend(), Ok(None));
    runtime.lock_now().unwrap();
    assert!(runtime.unlock(&AuthRequest::new("alice", "secret")).is_ok());
    assert!(runtime.authenticate(&AuthRequest::new("bob", "secret")).is_ok());
    assert_eq!(runtime.config().max_auth_attempts, 3);
    assert_eq!(*auth.closed.borrow(), vec![Some("pam-1".to_owned())]);
}

#[test]
fn wait_outcome_prefers_the_wait_error() {
    let wait_err = LimesError::Session("wait failed".to_owned());
    let close_err = LimesError::Auth("close failed".to_owned());
    assert_eq!(wait_outcome(Ok(0), Ok(())), Ok(0));
    assert_eq!(wait_outcome(Err(wait_err.clone()), Err(close_err.clone())), Err(wait_err));
    assert_eq!(wait_outcome(Ok(1), Err(close_err.clone())), Err(close_err));
}

#[test]
fn noop_display_refuses_to_lock() {
    let mut manager = LockManager::new(NoopDisplayBackend, TestAuth::default(), EventBus::<Sink>::new());
    assert_eq!(
        manager.lock_now(),
        Err(LimesError::Lock("no display/session-lock backend is configured".to_owned()))
    );
    assert_eq!(manager.state(), Ok(LockState::Unlocked));
}

#[test]
fn session_launch_splits_the_command_and_keeps_the_environment() {
    use_session_launch();
}

fn use_session_launch() {
    let mut spec = SessionSpec::new("alice", 1000, 100, vec!["sway".to_owned(), "-d".to_owned()]);
    spec.env.push(("HOME".to_owned(), "/home/alice".to_owned()));
    spec.working_dir = Some("/home/alice".to_owned());
    let launch = limes::session::session_launch(&spec).unwrap();
    assert_eq!(launch.program, "sway");
    assert_eq!(launch.args, vec!["-d".to_owned()]);
    assert_eq!(launch.env, spec.env);
    assert_eq!(launch.working_dir, Some("/home/alice".to_owned()));
    assert_eq!((launch.uid, launch.gid), (1000, 100));

    let handle = limes::session::session_handle(&spec, 77);
    assert_eq!(handle.pid, 77);
    assert_eq!(handle.command, spec.command);

    let empty = SessionSpec::new("alice", 1000, 100, Vec::new());
    assert_eq!(
        limes::session::session_launch(&empty).err(),
        Some(LimesError::Session("session command is empty".to_owned()))
    );
}

#[test]
fn session_manager_reports_only_started_sessions() {
    let sink = Sink::default();
    let mut failing = limes::session::SessionManager::new(
        TestSessions { fail: true, ..TestSessions::default() },
        bus_with(&sink),
    );
    let spec = SessionSpec::new("alice", 1000, 100, vec!["sway".to_owned()]);
    assert!(failing.start(&spec).is_err());
    assert!(sink.events.borrow().is_empty());

    let mut working = limes::session::SessionManager::new(TestSessions::default(), bus_with(&sink));
    let handle = working.start(&spec).unwrap();
    assert_eq!(working.wait(&handle), Ok(3));
    assert_eq!(working.terminate(&handle), Ok(()));
    assert_eq!(
        *sink.events.borrow(),
        vec![LimesEvent::SessionStarted { username: "alice".to_owned(), pid: 42 }]
    );
}

#[test]
fn only_root_drops_privileges_and_the_user_id_goes_last() {
    use_privilege_steps();
}

fn use_privilege_steps() {
    assert_eq!(
        privilege_drop_steps(true),
        vec![PrivilegeStep::InitGroups, PrivilegeStep::SetGid, PrivilegeStep::SetUid]
    );
    assert!(privilege_drop_steps(false).is_empty());
}

#[test]
fn the_builtin_frontend_is_no_process_to_launch() {
    let mut runtime = LoginRuntime::with_session_backend(
        config(),
        TestAuth::default(),
        TestSessions::default(),
        EventBus::<Sink>::new(),
    );
    assert_eq!(
        runtime.launch_frontend(&FrontendSpec::BuiltinText, FrontendMode::Lock),
        Err(LimesError::Frontend(
            "the builtin text frontend runs inside limes and has no command to launch".to_owned()
        ))
    );
}

#[test]
fn noop_backends_refuse_unlocks_and_keep_the_screen_locked() {
    let mut manager = LockManager::with_lock_auth(
        NoopDisplayBackend,
        limes::auth::NoopLockBackend,
        EventBus::<Sink>::new(),
    );
    assert_eq!(
        manager.unlock(&AuthRequest::new("alice", "secret")),
        Err(AuthFailure::BackendUnavailable("no lock authentication backend is configured".to_owned()))
    );
    assert_eq!(manager.state(), Ok(LockState::Locked));
}

#[test]
fn every_subscribed_sink_receives_each_event_in_order() {
    let first = Sink::default();
    let second = Sink::default();
    let mut bus = EventBus::new();
    bus.subscribe(first.clone());
    bus.subscribe(second.clone());
    bus.emit(state_changed(LockState::Locking));
    bus.emit(state_changed(LockState::Locked));
    let expected = vec![state_changed(LockState::Locking), state_changed(LockState::Locked)];
    assert_eq!(*first.events.borrow(), expected);
    assert_eq!(*second.events.borrow(), expected);
}

#[test]
fn a_sink_subscribed_to_a_copy_receives_what_the_original_emits() {
    let sink = Sink::default();
    let mut bus = EventBus::new();
    let mut copy = bus.duplicate();
    copy.subscribe(sink.clone());
    bus.emit(state_changed(LockState::Locking));
    copy.emit(state_changed(LockState::Locked));
    assert_eq!(
        *sink.events.borrow(),
        vec![state_changed(LockState::Locking), state_changed(LockState::Locked)]
    );
}

#[test]
fn a_sink_subscribed_through_the_runtime_bus_hears_the_lock_side() {
    let sink = Sink::default();
    let mut runtime = LockRuntime::with_parts(
        config(),
        limes::auth::NoopLockBackend,
        display(true, true),
        EventBus::new(),
    );
    runtime.events().subscribe(sink.clone());
    assert_eq!(runtime.lock_now(), Ok(()));
    assert_eq!(
        *sink.events.borrow(),
        vec![state_changed(LockState::Locking), state_changed(LockState::Locked)]
    );
}

#[test]
fn a_sink_subscribed_through_the_login_runtime_hears_authentication() {
    let sink = Sink::default();
    let mut runtime = LoginRuntime::with_session_backend(
        config(),
        TestAuth::default(),
        TestSessions::default(),
        EventBus::new(),
    );
    runtime.events().subscribe(sink.clone());
    let _ = runtime.authenticate(&AuthRequest::new("alice", "nope"));
    assert_eq!(
        sink.events.borrow()[0],
        LimesEvent::AuthStarted { username: "alice".to_owned() }
    );
}
