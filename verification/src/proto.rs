//! Shared vocabulary between frontends and the backend: credentials,
//! authentication outcomes, lock states, session descriptions and events.
use vstd::prelude::*;

use crate::text::{decimal, views};

verus! {

/// The view of an optional string.
pub open spec fn opt_view(o: Option<String>) -> Option<Seq<char>> {
    match o {
        Some(s) => Some(s@),
        None => None,
    }
}

/// The view of an optional list of strings.
pub open spec fn opt_views(o: Option<Vec<String>>) -> Option<Seq<Seq<char>>> {
    match o {
        Some(v) => Some(views(v@)),
        None => None,
    }
}

/// Name for what `Debug` writes for a string: the text in double quotes with
/// the characters that need it escaped.
pub uninterp spec fn debug_quoted(s: Seq<char>) -> Seq<char>;

/// Renders `s` as `Debug` does (std's `<str as Debug>::fmt`).
#[verifier::external_body]
fn debug_quote(s: &str) -> (r: String)
    ensures
        r@ == debug_quoted(s@),
{
    format!("{:?}", s)
}

/// Credentials collected by a frontend and submitted to the backend.
#[derive(Clone, PartialEq, Eq)]
pub struct AuthRequest {
    pub username: String,
    pub password: String,
    pub tty: Option<String>,
}

/// What `AuthRequest::debug_string` renders for an optional tty.
pub open spec fn debug_tty(tty: Option<Seq<char>>) -> Seq<char> {
    match tty {
        Some(t) => "Some("@ + debug_quoted(t) + ")"@,
        None => "None"@,
    }
}

/// The diagnostic rendering of a request: the username and tty, and a fixed
/// placeholder where the password would be.
pub open spec fn auth_request_debug(username: Seq<char>, tty: Option<Seq<char>>) -> Seq<char> {
    "AuthRequest { username: "@ + debug_quoted(username) + ", password: \"<redacted>\", tty: "@
        + debug_tty(tty) + " }"@
}

/// Clears a secret string in place (zeroize's `Zeroize::zeroize` for
/// `String`): its bytes are overwritten with zeros and the string is left
/// empty.
#[verifier::external_body]
pub(crate) fn zeroize_string(s: &mut String)
    ensures
        final(s)@ == Seq::<char>::empty(),
{
    zeroize::Zeroize::zeroize(s);
}

impl AuthRequest {
    /// A request for `username` with `password` and no tty.
    pub fn new(username: &str, password: &str) -> (r: Self)
        ensures
            r.username@ == username@,
            r.password@ == password@,
            r.tty is None,
    {
        AuthRequest { username: username.to_owned(), password: password.to_owned(), tty: None }
    }

    /// Wipes the password; the username and tty stay.
    pub fn clear_secret(&mut self)
        ensures
            final(self).password@ == Seq::<char>::empty(),
            final(self).username == old(self).username,
            final(self).tty == old(self).tty,
    {
        zeroize_string(&mut self.password);
    }

    /// The diagnostic rendering of the request, which never shows the password.
    pub fn debug_string(&self) -> (s: String)
        ensures
            s@ == auth_request_debug(self.username@, opt_view(self.tty)),
    {
        let mut s = "AuthRequest { username: ".to_owned();
        let user = debug_quote(self.username.as_str());
        s.append(user.as_str());
        s.append(", password: \"<redacted>\", tty: ");
        match &self.tty {
            Some(t) => {
                s.append("Some(");
                let q = debug_quote(t.as_str());
                s.append(q.as_str());
                s.append(")");
            },
            None => {
                s.append("None");
            },
        }
        s.append(" }");
        proof {
            if self.tty is Some {
                assert(s@ =~= auth_request_debug(self.username@, opt_view(self.tty)));
            } else {
                assert(s@ =~= auth_request_debug(self.username@, opt_view(self.tty)));
            }
        }
        s
    }
}

/// Successful authentication result.
#[derive(Debug, Clone, PartialEq, Eq)]
pub struct AuthSuccess {
    pub username: String,
    pub uid: u32,
    pub gid: u32,
    pub home: Option<String>,
    pub shell: Option<String>,
    /// Opaque backend session id used to pair PAM open/close calls.
    pub auth_session_id: Option<String>,
}

/// Authentication failure categories frontends can render differently.
#[derive(Debug, Clone, PartialEq, Eq)]
pub enum AuthFailure {
    InvalidCredentials,
    LockedOut,
    BackendUnavailable(String),
    Internal(String),
}

/// A failure with its reason taken by its view.
pub enum AuthFailureView {
    InvalidCredentials,
    LockedOut,
    BackendUnavailable(Seq<char>),
    Internal(Seq<char>),
}

impl View for AuthFailure {
    type V = AuthFailureView;

    open spec fn view(&self) -> AuthFailureView {
        match self {
            AuthFailure::InvalidCredentials => AuthFailureView::InvalidCredentials,
            AuthFailure::LockedOut => AuthFailureView::LockedOut,
            AuthFailure::BackendUnavailable(r) => AuthFailureView::BackendUnavailable(r@),
            AuthFailure::Internal(r) => AuthFailureView::Internal(r@),
        }
    }
}

/// The text a failure is rendered as.
pub open spec fn failure_text(f: AuthFailure) -> Seq<char> {
    match f {
        AuthFailure::InvalidCredentials => "invalid credentials"@,
        AuthFailure::LockedOut => "account locked out"@,
        AuthFailure::BackendUnavailable(reason) => "authentication backend unavailable: "@
            + reason@,
        AuthFailure::Internal(reason) => "authentication error: "@ + reason@,
    }
}

impl AuthFailure {
    /// The text a frontend renders for this failure.
    pub fn message(&self) -> (s: String)
        ensures
            s@ == failure_text(*self),
    {
        match self {
            AuthFailure::InvalidCredentials => "invalid credentials".to_owned(),
            AuthFailure::LockedOut => "account locked out".to_owned(),
            AuthFailure::BackendUnavailable(reason) => {
                let mut s = "authentication backend unavailable: ".to_owned();
                s.append(reason.as_str());
                s
            },
            AuthFailure::Internal(reason) => {
                let mut s = "authentication error: ".to_owned();
                s.append(reason.as_str());
                s
            },
        }
    }
}

/// The result of an authentication attempt.
pub type AuthOutcome = Result<AuthSuccess, AuthFailure>;

/// PAM conversation message kinds reported by authentication backends.
#[derive(Debug, Clone, Copy, PartialEq, Eq, Structural)]
pub enum PamMessageKind {
    PromptEchoOn,
    PromptEchoOff,
    TextInfo,
    Error,
}

/// Lock state as understood by UI frontends.
#[derive(Debug, Clone, Copy, PartialEq, Eq, Structural)]
pub enum LockState {
    Unlocked,
    Locking,
    Locked,
    Unlocking,
}

/// The text a frontend renders for a lock state.
pub open spec fn lock_state_text(s: LockState) -> Seq<char> {
    match s {
        LockState::Unlocked => "unlocked"@,
        LockState::Locking => "locking"@,
        LockState::Locked => "locked"@,
        LockState::Unlocking => "unlocking"@,
    }
}

impl LockState {
    /// The text a frontend renders for this state.
    pub fn as_str(&self) -> (s: &'static str)
        ensures
            s@ == lock_state_text(*self),
    {
        match self {
            LockState::Unlocked => "unlocked",
            LockState::Locking => "locking",
            LockState::Locked => "locked",
            LockState::Unlocking => "unlocking",
        }
    }
}

/// Frontend-renderable session choice supplied by the backend.
#[derive(Debug, Clone, PartialEq, Eq)]
pub struct SessionChoice {
    pub name: String,
    /// `None` means use the backend default from `Config::session_spec_for`.
    pub command: Option<Vec<String>>,
}

impl SessionChoice {
    /// The choice that stands for the configured default session.
    pub fn default_session() -> (c: Self)
        ensures
            c.name@ == "Default session"@,
            c.command is None,
    {
        SessionChoice { name: "Default session".to_owned(), command: None }
    }

    /// The text a frontend renders for this choice: its name.
    pub fn label(&self) -> (s: String)
        ensures
            s@ == self.name@,
    {
        self.name.clone()
    }
}

/// Command and environment used to start a user session after login.
#[derive(Debug, Clone, PartialEq, Eq)]
pub struct SessionSpec {
    pub username: String,
    pub uid: u32,
    pub gid: u32,
    pub command: Vec<String>,
    pub env: Vec<(String, String)>,
    pub working_dir: Option<String>,
    pub auth_session_id: Option<String>,
}

/// The view of an environment list.
pub open spec fn env_view(env: Seq<(String, String)>) -> Seq<(Seq<char>, Seq<char>)> {
    env.map_values(|e: (String, String)| (e.0@, e.1@))
}

impl SessionSpec {
    /// A spec for `username` running `command`, with an empty environment,
    /// no working directory and no authentication session.
    pub fn new(username: &str, uid: u32, gid: u32, command: Vec<String>) -> (s: Self)
        ensures
            s.username@ == username@,
            s.uid == uid,
            s.gid == gid,
            s.command == command,
            s.env@.len() == 0,
            s.working_dir is None,
            s.auth_session_id is None,
    {
        SessionSpec {
            username: username.to_owned(),
            uid,
            gid,
            command,
            env: Vec::new(),
            working_dir: None,
            auth_session_id: None,
        }
    }
}

/// Serializable/minimal session handle.
#[derive(Debug, Clone, PartialEq, Eq)]
pub struct SessionHandle {
    pub pid: u32,
    pub username: String,
    pub command: Vec<String>,
    pub auth_session_id: Option<String>,
}

/// Events emitted by backend orchestration for logging/diagnostics/UI state.
#[derive(Debug, Clone, PartialEq, Eq)]
pub enum LimesEvent {
    LockStateChanged { state: LockState },
    AuthStarted { username: String },
    AuthSucceeded { username: String, uid: u32 },
    AuthFailed { username: String, reason: String },
    AuthPamMessage { username: String, kind: PamMessageKind, message: String },
    SessionStarted { username: String, pid: u32 },
    FrontendStarted { mode: String, command: Vec<String> },
}

/// An event with its texts taken by their views.
pub enum EventView {
    LockStateChanged { state: LockState },
    AuthStarted { username: Seq<char> },
    AuthSucceeded { username: Seq<char>, uid: u32 },
    AuthFailed { username: Seq<char>, reason: Seq<char> },
    AuthPamMessage { username: Seq<char>, kind: PamMessageKind, message: Seq<char> },
    SessionStarted { username: Seq<char>, pid: u32 },
    FrontendStarted { mode: Seq<char>, command: Seq<Seq<char>> },
}

impl View for LimesEvent {
    type V = EventView;

    open spec fn view(&self) -> EventView {
        match self {
            LimesEvent::LockStateChanged { state } => EventView::LockStateChanged { state: *state },
            LimesEvent::AuthStarted { username } => EventView::AuthStarted { username: username@ },
            LimesEvent::AuthSucceeded { username, uid } => EventView::AuthSucceeded {
                username: username@,
                uid: *uid,
            },
            LimesEvent::AuthFailed { username, reason } => EventView::AuthFailed {
                username: username@,
                reason: reason@,
            },
            LimesEvent::AuthPamMessage { username, kind, message } => EventView::AuthPamMessage {
                username: username@,
                kind: *kind,
                message: message@,
            },
            LimesEvent::SessionStarted { username, pid } => EventView::SessionStarted {
                username: username@,
                pid: *pid,
            },
            LimesEvent::FrontendStarted { mode, command } => EventView::FrontendStarted {
                mode: mode@,
                command: views(command@),
            },
        }
    }
}

/// The decimal rendering of a user or group id.
pub open spec fn id_text(id: u32) -> Seq<char> {
    decimal(id as nat)
}

} // verus!
