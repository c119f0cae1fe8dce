use limes::auth::{
    map_auth_status, pam_error, pam_message_kind, PAM_ACCT_EXPIRED, PAM_AUTHINFO_UNAVAIL, PAM_AUTH_ERR,
    PAM_CRED_INSUFFICIENT, PAM_MAXTRIES, PAM_PERM_DENIED, PAM_SUCCESS, PAM_TEXT_INFO, PAM_USER_UNKNOWN,
};
use limes::pam::{
    effective_tty, initial_lookup_buffer, next_lookup_buffer, pam_next, parse_env_entries, success_for,
    unknown_user_failure, user_record, AuthTransactions, PamCall, PamNext, PamSessionState,
};
use limes::proto::{AuthFailure, PamMessageKind};
use limes::text::decimal_string;

fn run_flow(statuses: &[i32], has_tty: bool) -> PamNext {
    let mut call = PamCall::Start;
    for status in statuses {
        match pam_next(call, *status, has_tty) {
            PamNext::Call(next) => call = next,
            other => return other,
        }
    }
    PamNext::Call(call)
}

#[test]
fn pam_flow_sets_the_tty_only_when_one_is_given() {
    assert_eq!(pam_next(PamCall::Start, PAM_SUCCESS, true), PamNext::Call(PamCall::SetTty));
    assert_eq!(pam_next(PamCall::Start, PAM_SUCCESS, false), PamNext::Call(PamCall::Authenticate));
    assert_eq!(pam_next(PamCall::SetTty, PAM_SUCCESS, true), PamNext::Call(PamCall::Authenticate));
    assert_eq!(pam_next(PamCall::Authenticate, PAM_SUCCESS, true), PamNext::Call(PamCall::AccountManagement));
    assert_eq!(pam_next(PamCall::AccountManagement, PAM_SUCCESS, false), PamNext::LookupUser);
}

#[test]
fn pam_flow_looks_the_user_up_after_every_call_succeeded() {
    assert_eq!(run_flow(&[0, 0, 0, 0], true), PamNext::LookupUser);
    assert_eq!(run_flow(&[0, 0, 0], false), PamNext::LookupUser);
    assert_eq!(run_flow(&[0, 0, 0], true), PamNext::Call(PamCall::AccountManagement));
}

#[test]
fn pam_flow_ends_the_transaction_unless_the_start_failed() {
    assert_eq!(run_flow(&[PAM_PERM_DENIED], true), PamNext::Fail { end_transaction: false });
    assert_eq!(run_flow(&[0, PAM_AUTH_ERR], false), PamNext::Fail { end_transaction: true });
    assert_eq!(run_flow(&[0, 0, 0, PAM_ACCT_EXPIRED], true), PamNext::Fail { end_transaction: true });
}

#[test]
fn pam_statuses_map_to_renderable_failures() {
    assert_eq!(map_auth_status(PAM_AUTH_ERR, "x".to_owned()), AuthFailure::InvalidCredentials);
    assert_eq!(map_auth_status(PAM_USER_UNKNOWN, "x".to_owned()), AuthFailure::InvalidCredentials);
    assert_eq!(map_auth_status(PAM_MAXTRIES, "x".to_owned()), AuthFailure::LockedOut);
    assert_eq!(
        map_auth_status(PAM_CRED_INSUFFICIENT, "no creds".to_owned()),
        AuthFailure::BackendUnavailable("no creds".to_owned())
    );
    assert_eq!(
        map_auth_status(PAM_AUTHINFO_UNAVAIL, "down".to_owned()),
        AuthFailure::BackendUnavailable("down".to_owned())
    );
    assert_eq!(
        map_auth_status(PAM_ACCT_EXPIRED, "expired".to_owned()),
        AuthFailure::Internal("expired".to_owned())
    );
}

#[test]
fn pam_error_text_falls_back_to_the_status_number() {
    assert_eq!(pam_error(7, Some("Authentication failure".to_owned())), "Authentication failure");
    assert_eq!(pam_error(42, None), "PAM error 42");
    assert_eq!(pam_error(-3, None), "PAM error -3");
    assert_eq!(pam_error(i32::MIN, None), "PAM error -2147483648");
    assert_eq!(pam_message_kind(PAM_TEXT_INFO), Some(PamMessageKind::TextInfo));
    assert_eq!(pam_message_kind(99), None);
}

#[test]
fn blank_ttys_are_not_handed_to_pam() {
    assert_eq!(effective_tty(&None), None);
    assert_eq!(effective_tty(&Some("  ".to_owned())), None);
    assert_eq!(effective_tty(&Some("tty1".to_owned())), Some("tty1".to_owned()));
}

#[test]
fn session_state_tears_down_what_was_set_up() {
    let mut state = PamSessionState::new();
    assert!(state.needs_open());
    assert!(!state.record_credentials(PAM_CRED_INSUFFICIENT));
    assert!(state.record_credentials(PAM_SUCCESS));
    assert!(state.record_open(PAM_SUCCESS));
    assert!(!state.needs_open());
    let teardown = state.teardown();
    assert!(teardown.close_session && teardown.delete_credentials);
    assert_eq!(state.end_status(6), 6);

    let mut failed = PamSessionState::new();
    assert!(!failed.record_open(PAM_PERM_DENIED));
    assert_eq!(failed.end_status(0), PAM_PERM_DENIED);
    assert!(!failed.teardown().close_session);
}

#[test]
fn pam_environment_entries_split_at_the_first_equals_sign() {
    let items = vec!["A=1".to_owned(), "broken".to_owned(), "B=x=y".to_owned(), "C=".to_owned()];
    assert_eq!(
        parse_env_entries(&items),
        vec![
            ("A".to_owned(), "1".to_owned()),
            ("B".to_owned(), "x=y".to_owned()),
            ("C".to_owned(), String::new()),
        ]
    );
}

#[test]
fn user_records_need_a_name() {
    assert_eq!(user_record(None, 1, 1, None, None), None);
    assert_eq!(user_record(Some(String::new()), 1, 1, None, None), None);
    let record = user_record(Some("alice".to_owned()), 1000, 100, Some("/home/alice".to_owned()), None).unwrap();
    let success = success_for(record, Some("pam-3".to_owned()));
    assert_eq!(success.username, "alice");
    assert_eq!(success.gid, 100);
    assert_eq!(success.auth_session_id, Some("pam-3".to_owned()));
    assert_eq!(unknown_user_failure(), (PAM_USER_UNKNOWN, AuthFailure::InvalidCredentials));
}

#[test]
fn lookup_buffers_start_at_the_suggestion_and_double_up_to_a_mebibyte() {
    assert_eq!(initial_lookup_buffer(1024), 1024);
    assert_eq!(initial_lookup_buffer(-1), 16 * 1024);
    assert_eq!(initial_lookup_buffer(0), 16 * 1024);
    assert_eq!(next_lookup_buffer(16 * 1024), Some(32 * 1024));
    assert_eq!(next_lookup_buffer(512 * 1024), Some(1024 * 1024));
    assert_eq!(next_lookup_buffer(1024 * 1024), None);
    assert_eq!(next_lookup_buffer(usize::MAX), None);
}

#[test]
fn transactions_get_counting_ids_and_cleanup_keeps_opened_ones() {
    let mut transactions = AuthTransactions::new();
    let first = transactions.insert("first");
    let second = transactions.insert("second");
    assert_eq!(first, "pam-1");
    assert_eq!(second, "pam-2");

    assert_eq!(transactions.take("pam-1"), Some((false, "first")));
    transactions.restore(first.clone(), true, "first");
    assert_eq!(transactions.remove_pending(), vec!["second"]);
    assert_eq!(transactions.remove("pam-2"), None);
    assert_eq!(transactions.remove("pam-1"), Some("first"));
    assert_eq!(transactions.take("pam-1"), None);
}

#[test]
fn decimal_strings_spell_the_number() {
    assert_eq!(decimal_string(0), "0");
    assert_eq!(decimal_string(1907), "1907");
    assert_eq!(decimal_string(u64::MAX), "18446744073709551615");
}

#[test]
fn errors_render_with_their_category() {
    use_error_rendering();
}

fn use_error_rendering() {
    let failure = AuthFailure::BackendUnavailable("pam down".to_owned());
    let error = limes::error::LimesError::from_failure(&failure);
    assert_eq!(
        error,
        limes::error::LimesError::Auth("authentication backend unavailable: pam down".to_owned())
    );
    assert_eq!(error.message(), "auth error: authentication backend unavailable: pam down");
    assert_eq!(
        limes::error::LimesError::Unsupported("x".to_owned()).message(),
        "unsupported: x"
    );
    assert_eq!(AuthFailure::Internal("boom".to_owned()).message(), "authentication error: boom");
    assert_eq!(error.copy(), error);
}

#[test]
fn login_sessions_find_their_transaction() {
    let mut transactions = AuthTransactions::new();
    let id = transactions.insert(7u32);
    let mut user = success_for(
        user_record(Some("alice".to_owned()), 1000, 100, None, None).unwrap(),
        None,
    );
    assert_eq!(
        transactions.take_for_open(&user),
        Err(limes::error::LimesError::Auth("no PAM session id is available for alice".to_owned()))
    );
    user.auth_session_id = Some("pam-9".to_owned());
    assert_eq!(
        transactions.take_for_open(&user),
        Err(limes::error::LimesError::Auth(
            "no authenticated PAM transaction is available for alice".to_owned()
        ))
    );
    user.auth_session_id = Some(id.clone());
    assert_eq!(transactions.take_for_open(&user), Ok((false, 7)));
    transactions.restore(id.clone(), true, 7);
    assert_eq!(transactions.close(None), None);
    assert_eq!(transactions.close(Some(&id)), Some(7));
    assert_eq!(transactions.close(Some(&id)), None);
}
