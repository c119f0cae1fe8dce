use limes::cli::{
    LoginAttempts, apply_login_args, check_lock_args, chomp_line, frontend_finished, parse_command, wants_help, CliCommand,
};
use limes::config::{Config, ConfigEnv, FrontendSpec};
use limes::dirs::{desktop_file_stem, join_path_str, session_desktop_dirs, split_path_list};
use limes::display::{
    blank_surface_layout, check_lock_request, check_unlock_request, lock_start_result, surface_needs_buffer, LockSlot,
    worker_end_result, LockStart, LockWorker, SurfaceLayout, WorkerAction, WorkerEnd, WorkerEvent,
};
use limes::error::LimesError;
use limes::frontend::{frontend_exit_code, FrontendMode};
use limes::proto::AuthFailure;

fn strings(v: &[&str]) -> Vec<String> {
    v.iter().map(|w| (*w).to_owned()).collect()
}

fn config() -> Config {
    Config::from_values(&ConfigEnv {
        auth_backend: None,
        dev_password: None,
        pam_service: None,
        login_frontend: None,
        lock_frontend: None,
        session_command: None,
        max_auth_attempts: None,
        session_path: None,
    })
    .unwrap()
}

#[test]
fn commands_are_recognised() {
    assert_eq!(parse_command(&[]), Ok(CliCommand::Help));
    assert_eq!(parse_command(&strings(&["-h"])), Ok(CliCommand::Help));
    assert_eq!(parse_command(&strings(&["help", "x"])), Ok(CliCommand::Help));
    assert_eq!(
        parse_command(&strings(&["login", "--builtin"])),
        Ok(CliCommand::Login(strings(&["--builtin"])))
    );
    assert_eq!(parse_command(&strings(&["lock"])), Ok(CliCommand::Lock(Vec::new())));
    assert_eq!(
        parse_command(&strings(&["dance"])),
        Err(LimesError::Config("unknown command `dance`; try `limes --help`".to_owned()))
    );
    assert!(wants_help(&strings(&["--frontend", "x", "--help"])));
    assert!(!wants_help(&strings(&["--frontend", "x"])));
}

#[test]
fn lock_takes_no_arguments() {
    assert_eq!(check_lock_args(&[]), Ok(()));
    assert_eq!(
        check_lock_args(&strings(&["now", "please"])),
        Err(LimesError::Config("unexpected lock arguments: now please".to_owned()))
    );
}

#[test]
fn login_options_select_the_frontend() {
    let mut cfg = config();
    assert_eq!(
        apply_login_args(&mut cfg, &strings(&["--frontend", "greeter", "--", "--fullscreen", "--"])),
        Ok(())
    );
    assert_eq!(
        cfg.login_frontend,
        FrontendSpec::External { program: "greeter".to_owned(), args: strings(&["--fullscreen", "--"]) }
    );
    assert_eq!(apply_login_args(&mut cfg, &strings(&["--builtin"])), Ok(()));
    assert_eq!(cfg.login_frontend, FrontendSpec::BuiltinText);
    assert_eq!(
        apply_login_args(&mut cfg, &strings(&["--frontend"])),
        Err(LimesError::Config("--frontend requires a program path".to_owned()))
    );
    assert_eq!(
        apply_login_args(&mut cfg, &strings(&["--fast"])),
        Err(LimesError::Config("unknown login argument `--fast`; try `limes login --help`".to_owned()))
    );
    assert_eq!(cfg.max_auth_attempts, 3);
}

#[test]
fn typed_lines_lose_their_line_breaks() {
    assert_eq!(chomp_line("alice\r\n"), "alice");
    assert_eq!(chomp_line("alice"), "alice");
    assert_eq!(chomp_line("a\nb\n\n"), "a\nb");
}

#[test]
fn frontend_exit_codes_are_reported() {
    assert_eq!(frontend_finished(FrontendMode::Login, 0), Ok(()));
    assert_eq!(
        frontend_finished(FrontendMode::Lock, 2),
        Err(LimesError::Frontend("lock frontend exited with code 2".to_owned()))
    );
    assert_eq!(
        frontend_finished(FrontendMode::Login, -1),
        Err(LimesError::Frontend("login frontend exited with code -1".to_owned()))
    );
    assert_eq!(frontend_exit_code(Some(3)), 3);
    assert_eq!(frontend_exit_code(None), 1);
    assert_eq!(FrontendMode::Login.as_arg(), "login");
}

#[test]
fn blank_surfaces_take_four_bytes_a_pixel() {
    assert!(!surface_needs_buffer(0, 10));
    assert!(surface_needs_buffer(1920, 1080));
    assert_eq!(
        blank_surface_layout(1920, 1080),
        Ok(SurfaceLayout { width: 1920, height: 1080, stride: 7680, len: 8_294_400 })
    );
    assert_eq!(
        blank_surface_layout(u32::MAX, 1),
        Err(LimesError::Lock("wayland lock surface stride overflow".to_owned()))
    );
    assert_eq!(
        blank_surface_layout(65536, 65536),
        Err(LimesError::Lock("wayland lock surface buffer size overflow".to_owned()))
    );
    assert_eq!(
        blank_surface_layout(0, 0x8000_0000),
        Err(LimesError::Lock("wayland lock surface height is too large".to_owned()))
    );
    assert_eq!(
        blank_surface_layout(0x2000_0000, 1),
        Err(LimesError::Lock("wayland lock surface stride is too large".to_owned()))
    );
}

#[test]
fn lock_worker_reports_the_start_once() {
    let mut worker = LockWorker::new();
    assert_eq!(worker.on_event(WorkerEvent::Locked), WorkerAction::ReportReady(Ok(())));
    assert_eq!(worker.on_event(WorkerEvent::StartTimedOut), WorkerAction::Nothing);
    assert!(!worker.exit);
    assert_eq!(worker.on_event(WorkerEvent::UnlockRequested), WorkerAction::Unlock);
    assert!(worker.exit);
    assert_eq!(worker.result, Ok(()));

    let mut finished = LockWorker::new();
    let expected = LimesError::Lock("wayland compositor finished the session lock unexpectedly".to_owned());
    assert_eq!(finished.on_event(WorkerEvent::Finished), WorkerAction::ReportReady(Err(expected.clone())));
    assert_eq!(finished.result, Err(expected));
    assert!(finished.exit);

    let mut timed_out = LockWorker::new();
    assert_eq!(
        timed_out.on_event(WorkerEvent::StartTimedOut),
        WorkerAction::ReportReady(Err(LimesError::Lock(
            "timed out waiting for wayland compositor to confirm session lock".to_owned()
        )))
    );

    let mut failed = LockWorker::new();
    failed.on_event(WorkerEvent::Locked);
    let surface = LimesError::Lock("no shm".to_owned());
    assert_eq!(failed.on_event(WorkerEvent::SurfaceFailed(surface.clone())), WorkerAction::Nothing);
    assert_eq!(failed.result, Err(surface));
}

#[test]
fn lock_requests_are_answered_from_the_worker() {
    assert_eq!(lock_start_result(LockStart::Reported(Ok(()))), Ok(()));
    assert_eq!(
        lock_start_result(LockStart::Ended(WorkerEnd::Returned(Ok(())))),
        Err(LimesError::Lock("wayland lock worker exited before compositor confirmed lock".to_owned()))
    );
    assert_eq!(
        lock_start_result(LockStart::Ended(WorkerEnd::Panicked)),
        Err(LimesError::Lock("wayland lock worker panicked".to_owned()))
    );
    assert_eq!(
        worker_end_result(WorkerEnd::Returned(Err(LimesError::Lock("x".to_owned())))),
        Err(LimesError::Lock("x".to_owned()))
    );
    assert_eq!(
        check_lock_request(true),
        Err(LimesError::Lock("wayland session is already locked".to_owned()))
    );
    assert_eq!(check_lock_request(false), Ok(()));
    assert_eq!(
        check_unlock_request(false),
        Err(LimesError::Lock("wayland session is not locked".to_owned()))
    );
}

#[test]
fn paths_join_like_path_buffers() {
    assert_eq!(join_path_str("/home/alice", ".local/share"), "/home/alice/.local/share");
    assert_eq!(join_path_str("/usr/share/", "xsessions"), "/usr/share/xsessions");
    assert_eq!(join_path_str("", "xsessions"), "xsessions");
    assert_eq!(join_path_str("/usr", "/opt"), "/opt");
    assert_eq!(split_path_list("/a::/b"), strings(&["/a", "", "/b"]));
    assert_eq!(split_path_list(""), strings(&[""]));
}

#[test]
fn session_dirs_follow_the_xdg_variables() {
    assert_eq!(
        session_desktop_dirs(Some("/data"), Some("/home/alice"), Some("/usr/share:/data"), "alice"),
        strings(&[
            "/data/wayland-sessions",
            "/data/xsessions",
            "/usr/share/wayland-sessions",
            "/usr/share/xsessions",
        ])
    );
    assert_eq!(
        session_desktop_dirs(None, Some("/home/alice"), None, "alice"),
        strings(&[
            "/home/alice/.local/share/wayland-sessions",
            "/home/alice/.local/share/xsessions",
            "/run/current-system/sw/share/wayland-sessions",
            "/run/current-system/sw/share/xsessions",
            "/etc/profiles/per-user/alice/share/wayland-sessions",
            "/etc/profiles/per-user/alice/share/xsessions",
            "/usr/local/share/wayland-sessions",
            "/usr/local/share/xsessions",
            "/usr/share/wayland-sessions",
            "/usr/share/xsessions",
        ])
    );
    let dirs = session_desktop_dirs(None, None, None, "");
    assert_eq!(dirs[2], "/etc/profiles/per-user/share/wayland-sessions");
    assert_eq!(dirs.len(), 8);
}

#[test]
fn only_desktop_files_give_a_stem() {
    assert_eq!(desktop_file_stem("sway.desktop"), Some("sway".to_owned()));
    assert_eq!(desktop_file_stem("gnome.wayland.desktop"), Some("gnome.wayland".to_owned()));
    assert_eq!(desktop_file_stem(".desktop"), None);
    assert_eq!(desktop_file_stem("..desktop"), Some(".".to_owned()));
    assert_eq!(desktop_file_stem("notes.txt"), None);
    assert_eq!(desktop_file_stem("desktop"), None);
}

#[test]
fn builtin_login_counts_its_attempts() {
    let mut attempts = LoginAttempts::new(2);
    assert!(attempts.has_attempt());
    assert_eq!(
        attempts.record_failure(&AuthFailure::InvalidCredentials),
        "authentication failed (1/2): invalid credentials"
    );
    assert!(attempts.has_attempt());
    assert_eq!(
        attempts.record_failure(&AuthFailure::LockedOut),
        "authentication failed (2/2): account locked out"
    );
    assert!(!attempts.has_attempt());
    assert_eq!(
        attempts.exhausted(),
        LimesError::Auth("maximum authentication attempts reached".to_owned())
    );
    assert!(!LoginAttempts::new(0).has_attempt());
}

#[test]
fn refused_login_options_keep_the_builtin_choices_read_before() {
    let mut cfg = config();
    cfg.login_frontend = FrontendSpec::External { program: "greeter".to_owned(), args: Vec::new() };
    assert!(apply_login_args(&mut cfg, &strings(&["--builtin", "--bogus"])).is_err());
    assert_eq!(cfg.login_frontend, FrontendSpec::BuiltinText);

    cfg.login_frontend = FrontendSpec::External { program: "greeter".to_owned(), args: Vec::new() };
    assert!(apply_login_args(&mut cfg, &strings(&["--bogus", "--builtin"])).is_err());
    assert_eq!(
        cfg.login_frontend,
        FrontendSpec::External { program: "greeter".to_owned(), args: Vec::new() }
    );
}

#[test]
fn a_second_lock_is_refused_and_keeps_the_running_worker() {
    let mut slot: LockSlot<u32> = LockSlot::new();
    assert!(!slot.is_locked());
    assert_eq!(slot.check_lock(), Ok(()));
    slot.hold(7);
    assert_eq!(
        slot.check_lock(),
        Err(LimesError::Lock("wayland session is already locked".to_owned()))
    );
    assert!(slot.is_locked());
    assert_eq!(slot.release(), Ok(7));
    assert_eq!(
        slot.release(),
        Err(LimesError::Lock("wayland session is not locked".to_owned()))
    );
}
