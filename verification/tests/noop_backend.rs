use limes::auth::{AuthBackend, NoopLockBackend};
use limes::error::LimesError;
use limes::lock::LockAuthBackend;
use limes::proto::{AuthFailure, AuthRequest, AuthSuccess};

fn rejects_authentication() {
    let backend = NoopLockBackend;
    let request = AuthRequest::new("alice", "secret");

    let outcome = AuthBackend::authenticate(&backend, &request);

    assert_eq!(
        outcome,
        Err(AuthFailure::BackendUnavailable(
            "no lock authentication backend is configured".to_owned()
        ))
    );
}

fn usable_as_lock_auth_backend() {
    let backend: &dyn LockAuthBackend = &NoopLockBackend;
    let request = AuthRequest::new("alice", "secret");

    assert!(matches!(
        backend.authenticate(&request),
        Err(AuthFailure::BackendUnavailable(_))
    ));
    assert!(backend.close_session(Some("unused")).is_ok());
}

fn cannot_open_login_sessions() {
    let backend = NoopLockBackend;
    let success = AuthSuccess {
        username: "alice".to_owned(),
        uid: 1000,
        gid: 1000,
        home: Some("/home/alice".to_owned()),
        shell: Some("/bin/sh".to_owned()),
        auth_session_id: None,
    };

    let error = backend.open_session(&success).unwrap_err();

    assert!(matches!(error, LimesError::Auth(_)));
}

#[test]
fn auth_noop_lock_backend_rejects_authentication() {
    rejects_authentication();
}

#[test]
fn noop_noop_lock_backend_rejects_authentication() {
    rejects_authentication();
}

#[test]
fn auth_noop_lock_backend_is_usable_as_lock_auth_backend() {
    usable_as_lock_auth_backend();
}

#[test]
fn noop_noop_lock_backend_is_usable_as_lock_auth_backend() {
    usable_as_lock_auth_backend();
}

#[test]
fn auth_noop_lock_backend_cannot_open_login_sessions() {
    cannot_open_login_sessions();
}

#[test]
fn noop_noop_lock_backend_cannot_open_login_sessions() {
    cannot_open_login_sessions();
}

#[test]
fn noop_open_session_error_names_the_user() {
    let success = AuthSuccess {
        username: "bob".to_owned(),
        uid: 1,
        gid: 1,
        home: None,
        shell: None,
        auth_session_id: None,
    };
    assert_eq!(
        NoopLockBackend.open_session(&success),
        Err(LimesError::Auth(
            "noop lock backend cannot open a login session for bob".to_owned()
        ))
    );
}
