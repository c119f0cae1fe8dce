//! The library's error type.
use vstd::prelude::*;

use crate::proto::{failure_text, AuthFailure};

verus! {

/// Errors raised by configuration, authentication, locking, sessions and
/// frontends.
#[derive(Debug, Clone, PartialEq, Eq)]
pub enum LimesError {
    Auth(String),
    Config(String),
    Frontend(String),
    Lock(String),
    Session(String),
    Unsupported(String),
    Io(String),
}

/// Results whose error is a `LimesError`.
pub type LimesResult<T> = Result<T, LimesError>;

/// The text an error is rendered as.
pub open spec fn error_text(e: LimesError) -> Seq<char> {
    match e {
        LimesError::Auth(m) => "auth error: "@ + m@,
        LimesError::Config(m) => "config error: "@ + m@,
        LimesError::Frontend(m) => "frontend error: "@ + m@,
        LimesError::Lock(m) => "lock error: "@ + m@,
        LimesError::Session(m) => "session error: "@ + m@,
        LimesError::Unsupported(m) => "unsupported: "@ + m@,
        LimesError::Io(m) => "io error: "@ + m@,
    }
}

/// The category and message of an error, taken by their views.
pub open spec fn is_auth_error(e: LimesError, m: Seq<char>) -> bool {
    e matches LimesError::Auth(x) && x@ == m
}

pub open spec fn is_config_error(e: LimesError, m: Seq<char>) -> bool {
    e matches LimesError::Config(x) && x@ == m
}

pub open spec fn is_lock_error(e: LimesError, m: Seq<char>) -> bool {
    e matches LimesError::Lock(x) && x@ == m
}

pub open spec fn is_session_error(e: LimesError, m: Seq<char>) -> bool {
    e matches LimesError::Session(x) && x@ == m
}

fn prefixed(prefix: &str, m: &String) -> (s: String)
    ensures
        s@ == prefix@ + m@,
{
    let mut s = prefix.to_owned();
    s.append(m.as_str());
    s
}

impl LimesError {
    /// The text this error is rendered as.
    pub fn message(&self) -> (s: String)
        ensures
            s@ == error_text(*self),
    {
        match self {
            LimesError::Auth(m) => prefixed("auth error: ", m),
            LimesError::Config(m) => prefixed("config error: ", m),
            LimesError::Frontend(m) => prefixed("frontend error: ", m),
            LimesError::Lock(m) => prefixed("lock error: ", m),
            LimesError::Session(m) => prefixed("session error: ", m),
            LimesError::Unsupported(m) => prefixed("unsupported: ", m),
            LimesError::Io(m) => prefixed("io error: ", m),
        }
    }

    /// A copy of this error.
    pub fn copy(&self) -> (e: Self)
        ensures
            e == *self,
    {
        match self {
            LimesError::Auth(m) => LimesError::Auth(m.clone()),
            LimesError::Config(m) => LimesError::Config(m.clone()),
            LimesError::Frontend(m) => LimesError::Frontend(m.clone()),
            LimesError::Lock(m) => LimesError::Lock(m.clone()),
            LimesError::Session(m) => LimesError::Session(m.clone()),
            LimesError::Unsupported(m) => LimesError::Unsupported(m.clone()),
            LimesError::Io(m) => LimesError::Io(m.clone()),
        }
    }

    /// An authentication error carrying the rendered failure.
    pub fn from_failure(failure: &AuthFailure) -> (e: Self)
        ensures
            is_auth_error(e, failure_text(*failure)),
    {
        LimesError::Auth(failure.message())
    }
}

} // verus!
