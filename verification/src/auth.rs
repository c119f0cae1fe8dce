//! Authentication backends: the traits the lock and login flows call, and the
//! backend that refuses every request.
use vstd::prelude::*;

use crate::error::{is_auth_error, LimesError, LimesResult};
use crate::proto::{opt_view, AuthFailure, AuthFailureView, AuthOutcome, AuthRequest, AuthSuccess, PamMessageKind};
use crate::text::{decimal, push_char, push_decimal};

verus! {

/// Full authentication backend used by login managers.
///
/// `open_session` opens the login session before the user's desktop command
/// starts, and `close_session` closes or cleans up the opaque authentication
/// transaction returned in `AuthSuccess::auth_session_id`.
///
/// Each method's answer is one the backend's relations admit for the request
/// it was given. A backend states its relations; one that does not admits
/// every answer. The relations cannot be met without asking the backend, so a
/// result the library reports as the backend's answer is the one it gave.
pub trait AuthBackend {
    /// Whether `out` is an answer this backend gives to `request`.
    closed spec fn auth_answers(&self, request: AuthRequest, out: AuthOutcome) -> bool {
        true
    }

    /// Whether `out` is an answer this backend gives when asked to open the
    /// login session of `user`.
    closed spec fn open_answers(&self, user: AuthSuccess, out: LimesResult<Vec<(String, String)>>) -> bool {
        true
    }

    /// Whether `out` is an answer this backend gives when asked to close the
    /// transaction `auth_session_id`.
    closed spec fn close_answers(&self, auth_session_id: Option<Seq<char>>, out: LimesResult<()>) -> bool {
        true
    }

    fn authenticate(&self, request: &AuthRequest) -> (r: AuthOutcome)
        ensures
            self.auth_answers(*request, r),
    ;

    fn open_session(&self, user: &AuthSuccess) -> (r: LimesResult<Vec<(String, String)>>)
        ensures
            self.open_answers(*user, r),
    ;

    fn close_session(&self, auth_session_id: Option<&str>) -> (r: LimesResult<()>)
        ensures
            self.close_answers(opt_str_view(auth_session_id), r),
    ;
}

/// The text of an optional string slice.
pub open spec fn opt_str_view(o: Option<&str>) -> Option<Seq<char>> {
    match o {
        Some(s) => Some(s@),
        None => None,
    }
}

/// Authentication backend placeholder for tests and explicit no-backend setups.
///
/// It never authenticates anyone and cannot open login sessions; it is no
/// security backend.
#[derive(Debug, Clone, Copy, Default)]
pub struct NoopLockBackend;

impl AuthBackend for NoopLockBackend {
    open spec fn auth_answers(&self, request: AuthRequest, out: AuthOutcome) -> bool {
        out matches Err(AuthFailure::BackendUnavailable(m))
            && m@ == "no lock authentication backend is configured"@
    }

    open spec fn open_answers(&self, user: AuthSuccess, out: LimesResult<Vec<(String, String)>>) -> bool {
        out matches Err(e) && is_auth_error(
            e,
            "noop lock backend cannot open a login session for "@ + user.username@,
        )
    }

    open spec fn close_answers(&self, auth_session_id: Option<Seq<char>>, out: LimesResult<()>) -> bool {
        out is Ok
    }

    fn authenticate(&self, request: &AuthRequest) -> (r: AuthOutcome)
        ensures
            r matches Err(AuthFailure::BackendUnavailable(m))
                && m@ == "no lock authentication backend is configured"@,
    {
        Err(AuthFailure::BackendUnavailable("no lock authentication backend is configured".to_owned()))
    }

    fn open_session(&self, user: &AuthSuccess) -> (r: LimesResult<Vec<(String, String)>>)
        ensures
            r matches Err(e) && is_auth_error(
                e,
                "noop lock backend cannot open a login session for "@ + user.username@,
            ),
    {
        let mut m = "noop lock backend cannot open a login session for ".to_owned();
        m.append(user.username.as_str());
        Err(LimesError::Auth(m))
    }

    fn close_session(&self, auth_session_id: Option<&str>) -> (r: LimesResult<()>)
        ensures
            r is Ok,
    {
        Ok(())
    }
}

/// The PAM service name limes authenticates against.
pub const PAM_SERVICE: &'static str = "limes";

pub const PAM_SUCCESS: i32 = 0;
pub const PAM_BUF_ERR: i32 = 5;
pub const PAM_PERM_DENIED: i32 = 6;
pub const PAM_AUTH_ERR: i32 = 7;
pub const PAM_CRED_INSUFFICIENT: i32 = 8;
pub const PAM_AUTHINFO_UNAVAIL: i32 = 9;
pub const PAM_USER_UNKNOWN: i32 = 10;
pub const PAM_MAXTRIES: i32 = 11;
pub const PAM_NEW_AUTHTOK_REQD: i32 = 12;
pub const PAM_ACCT_EXPIRED: i32 = 13;
pub const PAM_CONV_ERR: i32 = 19;

pub const PAM_PROMPT_ECHO_OFF: i32 = 1;
pub const PAM_PROMPT_ECHO_ON: i32 = 2;
pub const PAM_ERROR_MSG: i32 = 3;
pub const PAM_TEXT_INFO: i32 = 4;

/// The decimal rendering of a signed status code.
pub open spec fn signed_decimal(n: i32) -> Seq<char> {
    if n < 0 {
        seq!['-'] + decimal((-(n as int)) as nat)
    } else {
        decimal(n as nat)
    }
}

/// What PAM's error text for `status` is, given what `pam_strerror` returned
/// (`None` when it returned no text).
pub open spec fn pam_error_text(status: i32, strerror: Option<Seq<char>>) -> Seq<char> {
    match strerror {
        Some(m) => m,
        None => "PAM error "@ + signed_decimal(status),
    }
}

/// PAM's error text for `status`: the library's own text when it gave one,
/// else `PAM error <status>`.
pub fn pam_error(status: i32, strerror: Option<String>) -> (s: String)
    ensures
        s@ == pam_error_text(status, opt_view(strerror)),
{
    match &strerror {
        Some(m) => m.clone(),
        None => {
            let mut s = "PAM error ".to_owned();
            if status < 0 {
                push_char(&mut s, '-');
                let magnitude: u64 = if status == i32::MIN {
                    2147483648
                } else {
                    (-status) as u64
                };
                assert(magnitude == -(status as int));
                push_decimal(&mut s, magnitude);
            } else {
                push_decimal(&mut s, status as u64);
            }
            assert(s@ =~= pam_error_text(status, opt_view(strerror)));
            s
        },
    }
}

/// An internal failure carrying `message`.
pub fn internal_failure(message: String) -> (f: AuthFailure)
    ensures
        f == AuthFailure::Internal(message),
{
    AuthFailure::Internal(message)
}

/// The failure category of a PAM status: wrong credentials or an unknown user
/// are invalid credentials, too many tries locks the account out, missing
/// credentials or authentication information make the backend unavailable, and
/// every other status is internal. The last two carry `pam_error`, PAM's text
/// for the status.
pub open spec fn auth_status_failure(status: i32, pam_error: Seq<char>) -> AuthFailureView {
    if status == PAM_AUTH_ERR || status == PAM_USER_UNKNOWN {
        AuthFailureView::InvalidCredentials
    } else if status == PAM_MAXTRIES {
        AuthFailureView::LockedOut
    } else if status == PAM_CRED_INSUFFICIENT || status == PAM_AUTHINFO_UNAVAIL {
        AuthFailureView::BackendUnavailable(pam_error)
    } else {
        AuthFailureView::Internal(pam_error)
    }
}

/// Maps a failed PAM status to the failure a frontend renders.
pub fn map_auth_status(status: i32, pam_error: String) -> (f: AuthFailure)
    ensures
        f@ == auth_status_failure(status, pam_error@),
{
    if status == PAM_AUTH_ERR || status == PAM_USER_UNKNOWN {
        AuthFailure::InvalidCredentials
    } else if status == PAM_MAXTRIES {
        AuthFailure::LockedOut
    } else if status == PAM_CRED_INSUFFICIENT || status == PAM_AUTHINFO_UNAVAIL {
        AuthFailure::BackendUnavailable(pam_error)
    } else {
        AuthFailure::Internal(pam_error)
    }
}

/// The message kind a PAM conversation style reports, if it is one PAM defines.
pub open spec fn message_kind(style: i32) -> Option<PamMessageKind> {
    if style == PAM_PROMPT_ECHO_ON {
        Some(PamMessageKind::PromptEchoOn)
    } else if style == PAM_PROMPT_ECHO_OFF {
        Some(PamMessageKind::PromptEchoOff)
    } else if style == PAM_TEXT_INFO {
        Some(PamMessageKind::TextInfo)
    } else if style == PAM_ERROR_MSG {
        Some(PamMessageKind::Error)
    } else {
        None
    }
}

/// The message kind of a PAM conversation style.
pub fn pam_message_kind(style: i32) -> (k: Option<PamMessageKind>)
    ensures
        k == message_kind(style),
{
    if style == PAM_PROMPT_ECHO_ON {
        Some(PamMessageKind::PromptEchoOn)
    } else if style == PAM_PROMPT_ECHO_OFF {
        Some(PamMessageKind::PromptEchoOff)
    } else if style == PAM_TEXT_INFO {
        Some(PamMessageKind::TextInfo)
    } else if style == PAM_ERROR_MSG {
        Some(PamMessageKind::Error)
    } else {
        None
    }
}

/// A shared backend authenticates as the backend it shares.
impl<T: AuthBackend> AuthBackend for std::sync::Arc<T> {
    open spec fn auth_answers(&self, request: AuthRequest, out: AuthOutcome) -> bool {
        (**self).auth_answers(request, out)
    }

    open spec fn open_answers(&self, user: AuthSuccess, out: LimesResult<Vec<(String, String)>>) -> bool {
        (**self).open_answers(user, out)
    }

    open spec fn close_answers(&self, auth_session_id: Option<Seq<char>>, out: LimesResult<()>) -> bool {
        (**self).close_answers(auth_session_id, out)
    }

    fn authenticate(&self, request: &AuthRequest) -> (r: AuthOutcome) {
        let inner: &T = &**self;
        inner.authenticate(request)
    }

    fn open_session(&self, user: &AuthSuccess) -> (r: LimesResult<Vec<(String, String)>>) {
        let inner: &T = &**self;
        inner.open_session(user)
    }

    fn close_session(&self, auth_session_id: Option<&str>) -> (r: LimesResult<()>) {
        let inner: &T = &**self;
        inner.close_session(auth_session_id)
    }
}


} // verus!
