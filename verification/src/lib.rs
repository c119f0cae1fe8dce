//! Login manager and screen-lock library: authentication orchestration, lock
//! state, login session launch, configuration, session discovery and backend
//! events, each stated and proved against its contract.
use vstd::prelude::*;

pub mod auth;
pub mod catalog;
pub mod cli;
pub mod config;
pub mod dirs;
pub mod display;
pub mod error;
pub mod events;
pub mod frontend;
pub mod laws;
pub mod lock;
pub mod pam;
pub mod proto;
pub mod runtime;
pub mod session;
pub mod text;

pub use auth::{AuthBackend, NoopLockBackend, PAM_SERVICE};
pub use config::{AuthBackendKind, Config, ConfigEnv, FrontendSpec};
pub use error::{LimesError, LimesResult};
pub use events::{EventBus, EventSink, StderrEventSink};
pub use frontend::{FrontendMode, FrontendRunner};
pub use lock::{DisplayBackend, LockAuthBackend, LockManager, NoopDisplayBackend};
pub use proto::{
    AuthFailure, AuthOutcome, AuthRequest, AuthSuccess, LimesEvent, LockState, PamMessageKind,
    SessionChoice, SessionHandle, SessionSpec,
};
pub use runtime::{LockRuntime, LoginRuntime, Runtime};
pub use session::{SessionBackend, SessionManager};

verus! {

} // verus!
