//! Lock state and the unlock flow: the display backend that secures the
//! screen, the authentication used to release it, and the state machine that
//! ties them together.
use vstd::prelude::*;

use crate::error::{error_text, is_lock_error, LimesError, LimesResult};
use crate::auth::opt_str_view;
use crate::events::{EventBus, EventSink};
use crate::proto::{
    failure_text, opt_view, AuthFailure, AuthOutcome, AuthRequest, AuthSuccess, EventView, LimesEvent,
    LockState,
};

verus! {

/// Narrow authentication backend used by lock flows: it authenticates an
/// unlock request and cleans up after success, and never opens a login session.
///
/// As with `AuthBackend`, each answer is one the backend's relations admit;
/// a backend that states none admits every answer.
pub trait LockAuthBackend {
    /// Whether `out` is an answer this backend gives to `request`.
    closed spec fn lock_auth_answers(&self, request: AuthRequest, out: AuthOutcome) -> bool {
        true
    }

    /// Whether `out` is an answer this backend gives when asked to close the
    /// transaction `auth_session_id`.
    closed spec fn lock_close_answers(&self, auth_session_id: Option<Seq<char>>, out: LimesResult<()>) -> bool {
        true
    }

    fn authenticate(&self, request: &AuthRequest) -> (r: AuthOutcome)
        ensures
            self.lock_auth_answers(*request, r),
    ;

    fn close_session(&self, auth_session_id: Option<&str>) -> (r: LimesResult<()>)
        ensures
            self.lock_close_answers(opt_str_view(auth_session_id), r),
    ;
}

impl LockAuthBackend for crate::auth::NoopLockBackend {
    open spec fn lock_auth_answers(&self, request: AuthRequest, out: AuthOutcome) -> bool {
        out matches Err(AuthFailure::BackendUnavailable(m))
            && m@ == "no lock authentication backend is configured"@
    }

    open spec fn lock_close_answers(&self, auth_session_id: Option<Seq<char>>, out: LimesResult<()>) -> bool {
        out is Ok
    }

    fn authenticate(&self, request: &AuthRequest) -> (r: AuthOutcome)
        ensures
            r matches Err(AuthFailure::BackendUnavailable(m))
                && m@ == "no lock authentication backend is configured"@,
    {
        crate::auth::AuthBackend::authenticate(self, request)
    }

    fn close_session(&self, auth_session_id: Option<&str>) -> (r: LimesResult<()>)
        ensures
            r is Ok,
    {
        crate::auth::AuthBackend::close_session(self, auth_session_id)
    }
}

/// A full login backend used where only the lock-side calls are needed.
pub struct AuthBackendAdapter<B> {
    pub auth: B,
}

impl<B: crate::auth::AuthBackend> LockAuthBackend for AuthBackendAdapter<B> {
    open spec fn lock_auth_answers(&self, request: AuthRequest, out: AuthOutcome) -> bool {
        self.auth.auth_answers(request, out)
    }

    open spec fn lock_close_answers(&self, auth_session_id: Option<Seq<char>>, out: LimesResult<()>) -> bool {
        self.auth.close_answers(auth_session_id, out)
    }

    fn authenticate(&self, request: &AuthRequest) -> (r: AuthOutcome) {
        self.auth.authenticate(request)
    }

    fn close_session(&self, auth_session_id: Option<&str>) -> (r: LimesResult<()>) {
        self.auth.close_session(auth_session_id)
    }
}

/// Secures and releases the display while the session is locked.
///
/// Each answer is one the backend's relations admit; a backend that states
/// none admits every answer.
pub trait DisplayBackend {
    /// Whether `out` is an answer this display gives when asked to lock.
    closed spec fn lock_answers(&self, out: LimesResult<()>) -> bool {
        true
    }

    /// Whether `out` is an answer this display gives when asked to unlock.
    closed spec fn unlock_answers(&self, out: LimesResult<()>) -> bool {
        true
    }

    fn lock(&self) -> (r: LimesResult<()>)
        ensures
            self.lock_answers(r),
    ;

    fn unlock(&self) -> (r: LimesResult<()>)
        ensures
            self.unlock_answers(r),
    ;
}

/// Placeholder display backend for setups without a session-lock backend:
/// it refuses to lock and to unlock.
#[derive(Debug, Clone, Copy, Default)]
pub struct NoopDisplayBackend;

impl DisplayBackend for NoopDisplayBackend {
    open spec fn lock_answers(&self, out: LimesResult<()>) -> bool {
        out matches Err(e) && is_lock_error(e, "no display/session-lock backend is configured"@)
    }

    open spec fn unlock_answers(&self, out: LimesResult<()>) -> bool {
        out matches Err(e) && is_lock_error(e, "no display/session-lock backend is configured"@)
    }

    fn lock(&self) -> (r: LimesResult<()>)
        ensures
            r matches Err(e) && is_lock_error(e, "no display/session-lock backend is configured"@),
    {
        Err(LimesError::Lock("no display/session-lock backend is configured".to_owned()))
    }

    fn unlock(&self) -> (r: LimesResult<()>)
        ensures
            r matches Err(e) && is_lock_error(e, "no display/session-lock backend is configured"@),
    {
        Err(LimesError::Lock("no display/session-lock backend is configured".to_owned()))
    }
}

/// The events of a lock request: entering `Locking`, then `Locked` when the
/// display locked (`locked`) and back to `Unlocked` when it did not.
pub open spec fn lock_events(locked: bool) -> Seq<EventView> {
    seq![
        EventView::LockStateChanged { state: LockState::Locking },
        EventView::LockStateChanged {
            state: if locked {
                LockState::Locked
            } else {
                LockState::Unlocked
            },
        },
    ]
}

/// The events of an unlock request by `username` whose authentication
/// succeeded as `user` with `uid`, ending in `end`.
pub open spec fn unlock_success_events(
    username: Seq<char>,
    user: Seq<char>,
    uid: u32,
    end: LockState,
) -> Seq<EventView> {
    seq![
        EventView::LockStateChanged { state: LockState::Unlocking },
        EventView::AuthStarted { username },
        EventView::AuthSucceeded { username: user, uid },
        EventView::LockStateChanged { state: end },
    ]
}

/// The events of an unlock request by `username` refused with `failure`.
pub open spec fn unlock_failure_events(username: Seq<char>, failure: AuthFailure) -> Seq<
    EventView,
> {
    seq![
        EventView::LockStateChanged { state: LockState::Unlocking },
        EventView::AuthStarted { username },
        EventView::AuthFailed { username, reason: failure_text(failure) },
        EventView::LockStateChanged { state: LockState::Locked },
    ]
}

/// Whether an unlock request by `username` that answered `r` reported what
/// it did and closed what it had to: after a successful authentication the
/// request is reported as such and the user's transaction closed; the
/// request either ends `Unlocked` with that user, or, when the display would
/// not release, `Locked` with an internal failure. A refused request is
/// reported with its failure, ends `Locked` and closes nothing.
pub open spec fn unlock_reported(
    before: Seq<EventView>,
    after: Seq<EventView>,
    closes_before: Seq<Option<Seq<char>>>,
    closes_after: Seq<Option<Seq<char>>>,
    username: Seq<char>,
    r: AuthOutcome,
) -> bool {
    match r {
        Ok(user) => after == before + unlock_success_events(
            username,
            user.username@,
            user.uid,
            LockState::Unlocked,
        ) && closes_after == closes_before.push(opt_view(user.auth_session_id)),
        Err(failure) => {
            ||| after == before + unlock_failure_events(username, failure) && closes_after
                == closes_before
            ||| (failure is Internal && exists|user: Seq<char>, uid: u32, id: Option<Seq<char>>|
                #![trigger unlock_success_events(username, user, uid, LockState::Locked), closes_before.push(id)]
                after == before + unlock_success_events(username, user, uid, LockState::Locked)
                    && closes_after == closes_before.push(id))
        },
    }
}

/// Whether an unlock authentication by `username` that answered `r` reported
/// what it did and closed what it had to, as `unlock_reported` says for a
/// display that always releases.
pub open spec fn authenticate_unlock_reported(
    before: Seq<EventView>,
    after: Seq<EventView>,
    closes_before: Seq<Option<Seq<char>>>,
    closes_after: Seq<Option<Seq<char>>>,
    username: Seq<char>,
    r: AuthOutcome,
) -> bool {
    match r {
        Ok(user) => after == before + unlock_success_events(
            username,
            user.username@,
            user.uid,
            LockState::Unlocked,
        ) && closes_after == closes_before.push(opt_view(user.auth_session_id)),
        Err(failure) => after == before + unlock_failure_events(username, failure) && closes_after
            == closes_before,
    }
}

/// Owns the lock state and drives the display and authentication backends
/// through lock and unlock requests, reporting each step as an event.
pub struct LockManager<D, A, S> {
    state: LockState,
    display: D,
    auth: A,
    events: EventBus<S>,
    closes: Ghost<Seq<Option<Seq<char>>>>,
    display_requests: Ghost<Seq<DisplayRequest>>,
}

/// A request made to the display backend.
#[derive(Debug, Clone, Copy, PartialEq, Eq, Structural)]
pub enum DisplayRequest {
    Lock,
    Unlock,
}

/// Whether an unlock request answered `r`, reported and closed what it did,
/// from what the backends answered: the authentication backend was asked
/// with `request`; its refusal is the answer, reported as such, and neither
/// the display is asked nor anything closed. After its success the
/// transaction it names is closed with the backend and the display is asked
/// to release once; the answer is the backend's success when it released,
/// else an internal failure carrying the display's error, the request ending
/// `Locked` with the success reported.
pub open spec fn unlock_answered<A: LockAuthBackend, D: DisplayBackend>(
    auth: A,
    display: D,
    request: AuthRequest,
    r: AuthOutcome,
    display_before: Seq<DisplayRequest>,
    display_after: Seq<DisplayRequest>,
    events_before: Seq<EventView>,
    events_after: Seq<EventView>,
    closes_before: Seq<Option<Seq<char>>>,
    closes_after: Seq<Option<Seq<char>>>,
) -> bool {
    exists|answer: AuthOutcome|
        #![trigger auth.lock_auth_answers(request, answer)]
        auth.lock_auth_answers(request, answer) && match answer {
            Err(f) => r == Err::<AuthSuccess, AuthFailure>(f) && display_after == display_before
                && closes_after == closes_before && events_after == events_before
                + unlock_failure_events(request.username@, f),
            Ok(s) => display_after == display_before.push(DisplayRequest::Unlock) && closes_after
                == closes_before.push(opt_view(s.auth_session_id)) && (exists|c: LimesResult<()>|
                #![trigger auth.lock_close_answers(opt_view(s.auth_session_id), c)]
                auth.lock_close_answers(opt_view(s.auth_session_id), c)) && exists|
                d: LimesResult<()>,
            |
                #![trigger display.unlock_answers(d)]
                display.unlock_answers(d) && match d {
                    Ok(()) => r == Ok::<AuthSuccess, AuthFailure>(s) && events_after
                        == events_before + unlock_success_events(
                        request.username@,
                        s.username@,
                        s.uid,
                        LockState::Unlocked,
                    ),
                    Err(e) => r matches Err(AuthFailure::Internal(m)) && m@ == error_text(e)
                        && events_after == events_before + unlock_success_events(
                        request.username@,
                        s.username@,
                        s.uid,
                        LockState::Locked,
                    ),
                },
        }
}

impl<D: DisplayBackend, B: crate::auth::AuthBackend, S: EventSink + Clone> LockManager<
    D,
    AuthBackendAdapter<B>,
    S,
> {
    /// A manager, initially unlocked, that authenticates unlock requests with
    /// a full login backend.
    pub fn new(display: D, auth: B, events: EventBus<S>) -> (m: Self)
        ensures
            m.state_spec() == LockState::Unlocked,
            m.events_spec() == events,
            m.closes().len() == 0,
            m.display_requests().len() == 0,
            m.display_spec() == display,
            m.auth_spec() == (AuthBackendAdapter { auth }),
    {
        Self::with_lock_auth(display, AuthBackendAdapter { auth }, events)
    }
}

impl<D: DisplayBackend, A: LockAuthBackend, S: EventSink + Clone> LockManager<D, A, S> {
    /// The current lock state.
    pub closed spec fn state_spec(&self) -> LockState {
        self.state
    }

    /// The bus the manager reports to.
    pub closed spec fn events_spec(&self) -> EventBus<S> {
        self.events
    }

    /// The transaction ids the manager asked the authentication backend to
    /// close, oldest first.
    pub closed spec fn closes(&self) -> Seq<Option<Seq<char>>> {
        self.closes@
    }

    /// The requests the manager made to the display backend, oldest first.
    pub closed spec fn display_requests(&self) -> Seq<DisplayRequest> {
        self.display_requests@
    }

    /// The display backend.
    pub closed spec fn display_spec(&self) -> D {
        self.display
    }

    /// The authentication backend.
    pub closed spec fn auth_spec(&self) -> A {
        self.auth
    }

    /// A manager, initially unlocked, that authenticates unlock requests with
    /// the lock-only backend `auth`.
    pub fn with_lock_auth(display: D, auth: A, events: EventBus<S>) -> (m: Self)
        ensures
            m.state_spec() == LockState::Unlocked,
            m.events_spec() == events,
            m.closes().len() == 0,
            m.display_requests().len() == 0,
            m.display_spec() == display,
            m.auth_spec() == auth,
    {
        LockManager {
            state: LockState::Unlocked,
            display,
            auth,
            events,
            closes: Ghost(Seq::empty()),
            display_requests: Ghost(Seq::empty()),
        }
    }

    /// The bus the manager reports to.
    pub fn events(&self) -> (e: &EventBus<S>)
        ensures
            *e == self.events_spec(),
    {
        &self.events
    }

    fn set_state(&mut self, state: LockState)
        ensures
            final(self).state == state,
            final(self).events.history() == old(self).events.history().push(
                EventView::LockStateChanged { state },
            ),
            final(self).closes == old(self).closes,
            final(self).display_requests == old(self).display_requests,
            final(self).display == old(self).display,
            final(self).auth == old(self).auth,
    {
        self.state = state;
        self.events.emit(LimesEvent::LockStateChanged { state });
    }

    /// Asks the display backend to lock. The state passes through `Locking`
    /// and ends `Locked` when the display locked, `Unlocked` when it did not;
    /// the display's error is returned.
    pub fn lock_now(&mut self) -> (r: LimesResult<()>)
        ensures
            final(self).state_spec() == (if r is Ok {
                LockState::Locked
            } else {
                LockState::Unlocked
            }),
            final(self).events_spec().history() == old(self).events_spec().history() + lock_events(
                r is Ok,
            ),
            final(self).closes() == old(self).closes(),
            old(self).display_spec().lock_answers(r),
            final(self).display_requests() == old(self).display_requests().push(DisplayRequest::Lock),
            final(self).display_spec() == old(self).display_spec(),
            final(self).auth_spec() == old(self).auth_spec(),
    {
        self.set_state(LockState::Locking);
        self.display_requests = Ghost(self.display_requests@.push(DisplayRequest::Lock));
        let answer = self.display.lock();
        assert(old(self).display_spec().lock_answers(answer));
        if answer.is_ok() {
            self.set_state(LockState::Locked);
            assert(self.events.history() =~= old(self).events.history() + lock_events(true));
        } else {
            self.set_state(LockState::Unlocked);
            assert(self.events.history() =~= old(self).events.history() + lock_events(false));
        }
        answer
    }

    /// Authenticates `request` and, on success, releases the display. The
    /// state passes through `Unlocking` and ends `Unlocked` exactly when the
    /// request succeeded; a refused request, or a display that would not
    /// release, leaves it `Locked`. After a successful authentication the
    /// backend's transaction is closed whatever the display did.
    pub fn unlock(&mut self, request: &AuthRequest) -> (r: AuthOutcome)
        ensures
            final(self).state_spec() == (if r is Ok {
                LockState::Unlocked
            } else {
                LockState::Locked
            }),
            unlock_reported(
                old(self).events_spec().history(),
                final(self).events_spec().history(),
                old(self).closes(),
                final(self).closes(),
                request.username@,
                r,
            ),
            unlock_answered(
                old(self).auth_spec(),
                old(self).display_spec(),
                *request,
                r,
                old(self).display_requests(),
                final(self).display_requests(),
                old(self).events_spec().history(),
                final(self).events_spec().history(),
                old(self).closes(),
                final(self).closes(),
            ),
            final(self).display_spec() == old(self).display_spec(),
            final(self).auth_spec() == old(self).auth_spec(),
    {
        self.set_state(LockState::Unlocking);
        self.events.emit(LimesEvent::AuthStarted { username: request.username.clone() });
        let outcome = self.auth.authenticate(request);
        match &outcome {
            Ok(success) => {
                self.events.emit(
                    LimesEvent::AuthSucceeded { username: success.username.clone(), uid: success.uid },
                );
                self.display_requests = Ghost(self.display_requests@.push(DisplayRequest::Unlock));
                let display_result = self.display.unlock();
                let ghost dr = display_result;
                let close_id = opt_str(&success.auth_session_id);
                let close_result = self.auth.close_session(close_id);
                assert(opt_str_view(close_id) == opt_view(success.auth_session_id));
                assert(old(self).auth_spec().lock_close_answers(
                    opt_view(success.auth_session_id),
                    close_result,
                ));
                self.closes = Ghost(self.closes@.push(opt_view(success.auth_session_id)));
                if let Err(error) = display_result {
                    self.set_state(LockState::Locked);
                    let ghost h = old(self).events.history() + unlock_success_events(
                        request.username@,
                        success.username@,
                        success.uid,
                        LockState::Locked,
                    );
                    assert(self.events.history() =~= h);
                    assert(self.events.history() == old(self).events.history()
                        + unlock_success_events(
                        request.username@,
                        success.username@,
                        success.uid,
                        LockState::Locked,
                    ) && self.closes() == old(self).closes().push(opt_view(success.auth_session_id)));
                    let msg = error.message();
                    assert(old(self).auth_spec().lock_auth_answers(*request, outcome));
                    assert(old(self).display_spec().unlock_answers(dr));
                    return Err(AuthFailure::Internal(msg));
                }
                self.set_state(LockState::Unlocked);
                assert(self.events.history() =~= old(self).events.history()
                    + unlock_success_events(
                    request.username@,
                    success.username@,
                    success.uid,
                    LockState::Unlocked,
                ));
                assert(old(self).auth_spec().lock_auth_answers(*request, outcome));
                assert(old(self).display_spec().unlock_answers(dr));
            },
            Err(reason) => {
                self.events.emit(
                    LimesEvent::AuthFailed {
                        username: request.username.clone(),
                        reason: reason.message(),
                    },
                );
                self.set_state(LockState::Locked);
                assert(self.events.history() =~= old(self).events.history()
                    + unlock_failure_events(request.username@, *reason));
                assert(old(self).auth_spec().lock_auth_answers(*request, outcome));
            },
        }
        outcome
    }

    /// Authenticates `request` without releasing the display, for frontends
    /// that own the compositor lock surface and release it themselves. The
    /// state passes through `Unlocking` and ends `Unlocked` exactly when the
    /// request succeeded, `Locked` otherwise; after a success the backend's
    /// transaction is closed.
    pub fn authenticate_unlock(&mut self, request: &AuthRequest) -> (r: AuthOutcome)
        ensures
            final(self).state_spec() == (if r is Ok {
                LockState::Unlocked
            } else {
                LockState::Locked
            }),
            authenticate_unlock_reported(
                old(self).events_spec().history(),
                final(self).events_spec().history(),
                old(self).closes(),
                final(self).closes(),
                request.username@,
                r,
            ),
            old(self).auth_spec().lock_auth_answers(*request, r),
            r matches Ok(s) ==> exists|c: LimesResult<()>|
                #![trigger old(self).auth_spec().lock_close_answers(opt_view(s.auth_session_id), c)]
                old(self).auth_spec().lock_close_answers(opt_view(s.auth_session_id), c),
            final(self).display_requests() == old(self).display_requests(),
            final(self).display_spec() == old(self).display_spec(),
            final(self).auth_spec() == old(self).auth_spec(),
    {
        self.set_state(LockState::Unlocking);
        self.events.emit(LimesEvent::AuthStarted { username: request.username.clone() });
        let outcome = self.auth.authenticate(request);
        match &outcome {
            Ok(success) => {
                self.events.emit(
                    LimesEvent::AuthSucceeded { username: success.username.clone(), uid: success.uid },
                );
                let close_id = opt_str(&success.auth_session_id);
                let close_result = self.auth.close_session(close_id);
                assert(opt_str_view(close_id) == opt_view(success.auth_session_id));
                assert(old(self).auth_spec().lock_close_answers(
                    opt_view(success.auth_session_id),
                    close_result,
                ));
                self.closes = Ghost(self.closes@.push(opt_view(success.auth_session_id)));
                self.set_state(LockState::Unlocked);
                assert(self.events.history() =~= old(self).events.history()
                    + unlock_success_events(
                    request.username@,
                    success.username@,
                    success.uid,
                    LockState::Unlocked,
                ));
            },
            Err(reason) => {
                self.events.emit(
                    LimesEvent::AuthFailed {
                        username: request.username.clone(),
                        reason: reason.message(),
                    },
                );
                self.set_state(LockState::Locked);
                assert(self.events.history() =~= old(self).events.history()
                    + unlock_failure_events(request.username@, *reason));
            },
        }
        outcome
    }

    /// The current lock state.
    pub fn state(&self) -> (r: LimesResult<LockState>)
        ensures
            r == Ok::<LockState, LimesError>(self.state_spec()),
    {
        Ok(self.state)
    }
}

/// The text inside an optional string.
pub fn opt_str(o: &Option<String>) -> (r: Option<&str>)
    ensures
        match (o, r) {
            (Some(s), Some(t)) => t@ == s@,
            (None, None) => true,
            _ => false,
        },
{
    match o {
        Some(s) => Some(s.as_str()),
        None => None,
    }
}

} // verus!
