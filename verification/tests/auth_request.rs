use limes::proto::AuthRequest;

fn debug_redacts_password() {
    let request = AuthRequest::new("alice", "secret");

    let rendered = request.debug_string();

    assert!(rendered.contains("alice"));
    assert!(rendered.contains("<redacted>"));
    assert!(!rendered.contains("secret"));
}

fn clear_secret_removes_password() {
    let mut request = AuthRequest::new("alice", "secret");

    request.clear_secret();

    assert!(request.password.is_empty());
}

#[test]
fn auth_auth_request_debug_redacts_password() {
    debug_redacts_password();
}

#[test]
fn lib_auth_request_debug_redacts_password() {
    debug_redacts_password();
}

#[test]
fn auth_clear_secret_removes_password_value() {
    clear_secret_removes_password();
}

#[test]
fn lib_clear_secret_removes_password_value() {
    clear_secret_removes_password();
}

#[test]
fn debug_string_matches_the_debug_layout() {
    let mut request = AuthRequest::new("alice", "secret");
    request.tty = Some("tty1".to_owned());
    assert_eq!(
        request.debug_string(),
        "AuthRequest { username: \"alice\", password: \"<redacted>\", tty: Some(\"tty1\") }"
    );
    let plain = AuthRequest::new("bob", "x");
    assert_eq!(
        plain.debug_string(),
        "AuthRequest { username: \"bob\", password: \"<redacted>\", tty: None }"
    );
}

#[test]
fn clear_secret_keeps_username_and_tty() {
    let mut request = AuthRequest::new("alice", "secret");
    request.tty = Some("tty2".to_owned());
    request.clear_secret();
    assert_eq!(request.username, "alice");
    assert_eq!(request.tty.as_deref(), Some("tty2"));
    assert_eq!(request.password, "");
}
