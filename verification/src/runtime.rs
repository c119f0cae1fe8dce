//! The runtimes frontends drive: login (authenticate, start and wait for a
//! user session), lock (lock and unlock the screen), and the combined one.
use vstd::prelude::*;

use crate::auth::{opt_str_view, AuthBackend};
use crate::config::{
    default_session_path, session_command_for, session_env_for, session_path_of, Config,
    FrontendSpec,
};
use crate::error::{is_config_error, is_session_error, LimesError, LimesResult};
use crate::events::{EventBus, EventSink};
use crate::frontend::{builtin_launch_error, mode_arg, FrontendMode, FrontendRunner};
use crate::lock::{
    authenticate_unlock_reported, opt_str, unlock_answered, unlock_reported, AuthBackendAdapter,
    DisplayBackend, DisplayRequest, LockAuthBackend, LockManager,
};
use crate::proto::{
    env_view, failure_text, opt_view, opt_views, AuthOutcome, AuthRequest, AuthSuccess, EventView,
    LimesEvent, LockState, SessionHandle, SessionSpec,
};
use crate::session::{SessionBackend, SessionManager};
use crate::text::views;

verus! {

/// The events of an authentication by `username`: its start, then its
/// success with the user's name and id, or its failure with the rendered
/// reason.
pub open spec fn auth_events(username: Seq<char>, outcome: AuthOutcome) -> Seq<EventView> {
    match outcome {
        Ok(s) => seq![
            EventView::AuthStarted { username },
            EventView::AuthSucceeded { username: s.username@, uid: s.uid },
        ],
        Err(f) => seq![
            EventView::AuthStarted { username },
            EventView::AuthFailed { username, reason: failure_text(f) },
        ],
    }
}

/// Whether `s` is the session a login of `success` starts under `config`:
/// `command` in place of the configured session command when one was
/// chosen, and the session environment followed by whatever the
/// authentication backend added when it opened the login session.
pub open spec fn starts_login_session(
    config: Config,
    success: AuthSuccess,
    command: Option<Seq<Seq<char>>>,
    s: SessionSpec,
) -> bool {
    &&& s.username@ == success.username@
    &&& s.uid == success.uid
    &&& s.gid == success.gid
    &&& views(s.command@) == match command {
        Some(c) => c,
        None => session_command_for(views(config.session_command@), opt_view(success.shell)),
    }
    &&& s.auth_session_id == success.auth_session_id
    &&& opt_view(s.working_dir) == opt_view(success.home)
    &&& exists|backend_env: Seq<(Seq<char>, Seq<char>)>|
        env_view(s.env@) == session_env_for(
            success.username@,
            success.uid,
            success.gid,
            opt_view(success.home),
            opt_view(success.shell),
            session_path_of(&config),
        ) + backend_env
}

/// The transaction ids asked to be closed after a login start: one more, the
/// login's, exactly when its session was handed to the backend and did not
/// start.
pub open spec fn closes_after_start(
    closes_before: Seq<Option<Seq<char>>>,
    requests_before: Seq<SessionSpec>,
    requests_after: Seq<SessionSpec>,
    started: bool,
    success: AuthSuccess,
) -> Seq<Option<Seq<char>>> {
    if !started && requests_after.len() == requests_before.len() + 1 {
        closes_before.push(opt_view(success.auth_session_id))
    } else {
        closes_before
    }
}

/// Whether `after` is `before` with at most one more session request, and
/// that one the session a login of `success` starts.
pub open spec fn requests_one_login_session(
    before: Seq<SessionSpec>,
    after: Seq<SessionSpec>,
    config: Config,
    success: AuthSuccess,
    command: Option<Seq<Seq<char>>>,
) -> bool {
    ||| after == before
    ||| after.len() == before.len() + 1 && after.drop_last() == before && starts_login_session(
        config,
        success,
        command,
        after.last(),
    )
}

/// What the authentication backend answered when asked to open a login
/// session: the environment it adds, or its error.
pub open spec fn open_view(r: LimesResult<Vec<(String, String)>>) -> Result<
    Seq<(Seq<char>, Seq<char>)>,
    LimesError,
> {
    match r {
        Ok(env) => Ok(env_view(env@)),
        Err(e) => Err(e),
    }
}

/// Whether `s` is the session a login of `success` starts under `config`
/// once the authentication backend added `backend_env` to its environment.
pub open spec fn login_session_with_env(
    config: Config,
    success: AuthSuccess,
    command: Option<Seq<Seq<char>>>,
    backend_env: Seq<(Seq<char>, Seq<char>)>,
    s: SessionSpec,
) -> bool {
    &&& s.username@ == success.username@
    &&& s.uid == success.uid
    &&& s.gid == success.gid
    &&& views(s.command@) == match command {
        Some(c) => c,
        None => session_command_for(views(config.session_command@), opt_view(success.shell)),
    }
    &&& s.auth_session_id == success.auth_session_id
    &&& opt_view(s.working_dir) == opt_view(success.home)
    &&& env_view(s.env@) == session_env_for(
        success.username@,
        success.uid,
        success.gid,
        opt_view(success.home),
        opt_view(success.shell),
        session_path_of(&config),
    ) + backend_env
}

/// Whether a login start for `success` did what it has to, judged by the
/// logs of the backend calls: the authentication backend was asked once to
/// open the login session; its error is the start's error and nothing is
/// started; else the session built from its environment is handed to the
/// session backend, the start answers what that backend answered, and a
/// failed start asks for the transaction to be closed.
pub open spec fn login_start_reported<A: AuthBackend>(
    auth: A,
    opens_before: Seq<(AuthSuccess, Result<Seq<(Seq<char>, Seq<char>)>, LimesError>)>,
    opens_after: Seq<(AuthSuccess, Result<Seq<(Seq<char>, Seq<char>)>, LimesError>)>,
    requests_before: Seq<SessionSpec>,
    requests_after: Seq<SessionSpec>,
    results_before: Seq<LimesResult<SessionHandle>>,
    results_after: Seq<LimesResult<SessionHandle>>,
    closes_before: Seq<Option<Seq<char>>>,
    closes_after: Seq<Option<Seq<char>>>,
    config: Config,
    success: AuthSuccess,
    command: Option<Seq<Seq<char>>>,
    r: LimesResult<SessionHandle>,
) -> bool {
    &&& opens_after.len() == opens_before.len() + 1
    &&& opens_after.drop_last() == opens_before
    &&& opens_after.last().0 == success
    &&& exists|o: LimesResult<Vec<(String, String)>>|
        #![trigger auth.open_answers(success, o)]
        auth.open_answers(success, o) && opens_after.last().1 == open_view(o)
    &&& match opens_after.last().1 {
        Err(e) => {
            &&& r == Err::<SessionHandle, LimesError>(e)
            &&& requests_after == requests_before
            &&& results_after == results_before
            &&& closes_after == closes_before
        },
        Ok(env) => {
            &&& requests_after.len() == requests_before.len() + 1
            &&& requests_after.drop_last() == requests_before
            &&& login_session_with_env(config, success, command, env, requests_after.last())
            &&& results_after == results_before.push(r)
            &&& closes_after == (if r is Ok {
                closes_before
            } else {
                closes_before.push(opt_view(success.auth_session_id))
            })
            &&& r is Err ==> exists|c: LimesResult<()>|
                #![trigger auth.close_answers(opt_view(success.auth_session_id), c)]
                auth.close_answers(opt_view(success.auth_session_id), c)
        },
    }
}

/// Asks `auth` to authenticate `request` and reports the attempt.
fn authenticate_reporting<A: AuthBackend, S: EventSink + Clone>(
    auth: &A,
    events: &mut EventBus<S>,
    request: &AuthRequest,
) -> (r: AuthOutcome)
    ensures
        final(events).history() == old(events).history() + auth_events(request.username@, r),
        final(events).shared() == old(events).shared(),
        auth.auth_answers(*request, r),
{
    events.emit(LimesEvent::AuthStarted { username: request.username.clone() });
    let outcome = auth.authenticate(request);
    match &outcome {
        Ok(success) => {
            events.emit(
                LimesEvent::AuthSucceeded { username: success.username.clone(), uid: success.uid },
            );
        },
        Err(reason) => {
            events.emit(
                LimesEvent::AuthFailed { username: request.username.clone(), reason: reason.message() },
            );
        },
    }
    assert(events.history() =~= old(events).history() + auth_events(request.username@, outcome));
    outcome
}

/// The session a login starts: the configured session for `success`, with
/// `command` in place of the configured command when one is chosen, and the
/// login backend's environment after the session environment.
pub fn login_session_spec(
    config: &Config,
    success: &AuthSuccess,
    backend_env: Vec<(String, String)>,
    command: Option<Vec<String>>,
) -> (s: SessionSpec)
    ensures
        s.username@ == success.username@,
        s.uid == success.uid,
        s.gid == success.gid,
        views(s.command@) == match command {
            Some(c) => views(c@),
            None => session_command_for(views(config.session_command@), opt_view(success.shell)),
        },
        s.auth_session_id == success.auth_session_id,
        opt_view(s.working_dir) == opt_view(success.home),
        env_view(s.env@) == session_env_for(
            success.username@,
            success.uid,
            success.gid,
            opt_view(success.home),
            opt_view(success.shell),
            session_path_of(config),
        ) + env_view(backend_env@),
{
    let mut spec = config.session_spec_for(success);
    if let Some(c) = command {
        spec.command = c;
    }
    let ghost base = env_view(spec.env@);
    let mut i: usize = 0;
    while i < backend_env.len()
        invariant
            i <= backend_env@.len(),
            env_view(spec.env@) == base + env_view(backend_env@).take(i as int),
            spec.username@ == success.username@,
            spec.uid == success.uid,
            spec.gid == success.gid,
            views(spec.command@) == match command {
                Some(c) => views(c@),
                None => session_command_for(views(config.session_command@), opt_view(success.shell)),
            },
            spec.auth_session_id == success.auth_session_id,
            opt_view(spec.working_dir) == opt_view(success.home),
        decreases backend_env@.len() - i,
    {
        let ghost before = spec.env@;
        let e = &backend_env[i];
        spec.env.push((e.0.clone(), e.1.clone()));
        assert(spec.env@.drop_last() =~= before);
        assert(env_view(spec.env@) =~= env_view(before).push(
            (backend_env@[i as int].0@, backend_env@[i as int].1@),
        ));
        assert(env_view(spec.env@) =~= base + env_view(backend_env@).take(i + 1));
        i = i + 1;
    }
    assert(env_view(backend_env@).take(i as int) =~= env_view(backend_env@));
    spec
}

/// The result of waiting for a session whose authentication transaction was
/// then closed: the wait status when both succeeded, else the wait's error,
/// else the close's.
pub open spec fn waited(wait: LimesResult<i32>, close: LimesResult<()>) -> LimesResult<i32> {
    match (wait, close) {
        (Ok(status), Ok(())) => Ok(status),
        (Err(e), _) => Err(e),
        (Ok(_), Err(e)) => Err(e),
    }
}

/// The result of waiting for a session whose authentication transaction was
/// then closed; see `waited`.
pub fn wait_outcome(wait: LimesResult<i32>, close: LimesResult<()>) -> (r: LimesResult<i32>)
    ensures
        r == waited(wait, close),
{
    match (wait, close) {
        (Ok(status), Ok(())) => Ok(status),
        (Err(error), _) | (_, Err(error)) => Err(error),
    }
}

/// Login orchestration: authenticates users, opens their login session with
/// the authentication backend, starts and waits for their desktop session,
/// and launches the login frontend.
pub struct LoginRuntime<A, B, S> {
    config: Config,
    auth: A,
    sessions: SessionManager<B, S>,
    frontends: FrontendRunner<S>,
    events: EventBus<S>,
    closes: Ghost<Seq<Option<Seq<char>>>>,
    opens: Ghost<Seq<(AuthSuccess, Result<Seq<(Seq<char>, Seq<char>)>, LimesError>)>>,
}

impl<A: AuthBackend, B: SessionBackend, S: EventSink + Clone> LoginRuntime<A, B, S> {
    pub closed spec fn config_spec(&self) -> Config {
        self.config
    }

    pub closed spec fn auth_spec(&self) -> A {
        self.auth
    }

    /// The session backend.
    pub closed spec fn session_backend_spec(&self) -> B {
        self.sessions.backend_spec()
    }

    /// The bus authentications are reported to.
    pub closed spec fn events_spec(&self) -> EventBus<S> {
        self.events
    }

    /// The bus session starts are reported to.
    pub closed spec fn session_events(&self) -> EventBus<S> {
        self.sessions.events_spec()
    }

    /// The sessions handed to the session backend to start, oldest first.
    pub closed spec fn session_requests(&self) -> Seq<SessionSpec> {
        self.sessions.requests()
    }

    /// What the session backend answered to each start, oldest first.
    pub closed spec fn session_results(&self) -> Seq<LimesResult<SessionHandle>> {
        self.sessions.start_results()
    }

    /// Each login session the authentication backend was asked to open, with
    /// its answer, oldest first.
    pub closed spec fn open_requests(&self) -> Seq<
        (AuthSuccess, Result<Seq<(Seq<char>, Seq<char>)>, LimesError>),
    > {
        self.opens@
    }

    /// The transaction ids the runtime asked the authentication backend to
    /// close after a session failed to start, oldest first.
    pub closed spec fn failed_start_closes(&self) -> Seq<Option<Seq<char>>> {
        self.closes@
    }

    /// The bus frontend launches are reported to.
    pub closed spec fn frontend_events(&self) -> EventBus<S> {
        self.frontends.events_spec()
    }

    /// Whether `self` has the parts of `before`, but for what its frontend
    /// bus recorded: the configuration, the backends, the buses of
    /// authentications and sessions, the backend logs and the frontend
    /// bus's sinks.
    pub open spec fn keeps_login_parts(&self, before: Self) -> bool {
        &&& self.config_spec() == before.config_spec()
        &&& self.auth_spec() == before.auth_spec()
        &&& self.events_spec() == before.events_spec()
        &&& self.session_events() == before.session_events()
        &&& self.session_backend_spec() == before.session_backend_spec()
        &&& self.session_requests() == before.session_requests()
        &&& self.session_results() == before.session_results()
        &&& self.open_requests() == before.open_requests()
        &&& self.failed_start_closes() == before.failed_start_closes()
        &&& self.frontend_events().shared() == before.frontend_events().shared()
    }

    /// A runtime with the given parts; sessions and frontends report to the
    /// sinks of `events` as well.
    pub fn with_session_backend(config: Config, auth: A, backend: B, events: EventBus<S>) -> (r:
        Self)
        ensures
            r.config_spec() == config,
            r.auth_spec() == auth,
            r.events_spec() == events,
            r.session_events().history().len() == 0,
            r.frontend_events().history().len() == 0,
            r.session_backend_spec() == backend,
            r.session_requests().len() == 0,
            r.session_results().len() == 0,
            r.open_requests().len() == 0,
            r.failed_start_closes().len() == 0,
            r.session_events().shared() == events.shared(),
            r.frontend_events().shared() == events.shared(),
    {
        let sessions = SessionManager::new(backend, events.duplicate());
        let frontends = FrontendRunner::new(events.duplicate());
        LoginRuntime {
            config,
            auth,
            sessions,
            frontends,
            events,
            closes: Ghost(Seq::empty()),
            opens: Ghost(Seq::empty()),
        }
    }

    /// A runtime with the default session backend.
    pub fn with_parts(config: Config, auth: A, events: EventBus<S>) -> (r: Self) where
        B: Default,

        ensures
            r.config_spec() == config,
            r.auth_spec() == auth,
            r.events_spec() == events,
    {
        Self::with_session_backend(config, auth, B::default(), events)
    }

    /// The configuration.
    pub fn config(&self) -> (c: &Config)
        ensures
            *c == self.config_spec(),
    {
        &self.config
    }

    /// A copy of the runtime's bus: a sink subscribed to it receives what
    /// the runtime reports from then on.
    pub fn events(&self) -> (e: EventBus<S>)
        ensures
            e.shared() == self.events_spec().shared(),
            e.history().len() == 0,
    {
        self.events.duplicate()
    }

    /// Authenticates `request`, reporting its start and its outcome; the
    /// backend's outcome is returned.
    pub fn authenticate(&mut self, request: &AuthRequest) -> (r: AuthOutcome)
        ensures
            final(self).events_spec().history() == old(self).events_spec().history() + auth_events(
                request.username@,
                r,
            ),
            final(self).config_spec() == old(self).config_spec(),
            final(self).auth_spec() == old(self).auth_spec(),
            final(self).session_requests() == old(self).session_requests(),
            final(self).failed_start_closes() == old(self).failed_start_closes(),
            final(self).open_requests() == old(self).open_requests(),
            final(self).session_results() == old(self).session_results(),
            old(self).auth_spec().auth_answers(*request, r),
            final(self).session_events() == old(self).session_events(),
            final(self).frontend_events() == old(self).frontend_events(),
            final(self).session_backend_spec() == old(self).session_backend_spec(),
    {
        authenticate_reporting(&self.auth, &mut self.events, request)
    }

    /// Opens the login session for `success` and starts the configured
    /// session.
    pub fn start_session_for(&mut self, success: &AuthSuccess) -> (r: LimesResult<SessionHandle>)
        ensures
            final(self).config_spec() == old(self).config_spec(),
            final(self).auth_spec() == old(self).auth_spec(),
            final(self).events_spec() == old(self).events_spec(),
            r matches Ok(h) ==> final(self).session_events().history() == old(
                self,
            ).session_events().history().push(
                EventView::SessionStarted { username: h.username@, pid: h.pid },
            ),
            requests_one_login_session(
                old(self).session_requests(),
                final(self).session_requests(),
                old(self).config_spec(),
                *success,
                None,
            ),
            r is Ok ==> final(self).session_requests().len() == old(self).session_requests().len()
                + 1,
            final(self).failed_start_closes() == closes_after_start(
                old(self).failed_start_closes(),
                old(self).session_requests(),
                final(self).session_requests(),
                r is Ok,
                *success,
            ),
            login_start_reported(
                old(self).auth_spec(),
                old(self).open_requests(),
                final(self).open_requests(),
                old(self).session_requests(),
                final(self).session_requests(),
                old(self).session_results(),
                final(self).session_results(),
                old(self).failed_start_closes(),
                final(self).failed_start_closes(),
                old(self).config_spec(),
                *success,
                None,
                r,
            ),
    {
        self.start_session_for_command_override(success, None)
    }

    /// Opens the login session for `success` and starts `command`, chosen by
    /// the frontend, in place of the configured command. An empty command is
    /// refused before anything is opened.
    pub fn start_session_for_with_command(
        &mut self,
        success: &AuthSuccess,
        command: Vec<String>,
    ) -> (r: LimesResult<SessionHandle>)
        ensures
            final(self).config_spec() == old(self).config_spec(),
            final(self).auth_spec() == old(self).auth_spec(),
            final(self).events_spec() == old(self).events_spec(),
            command@.len() == 0 ==> (r matches Err(e) && is_session_error(
                e,
                "selected session command is empty"@,
            )) && final(self).session_events() == old(self).session_events()
                && final(self).session_requests() == old(self).session_requests(),
            r matches Ok(h) ==> final(self).session_events().history() == old(
                self,
            ).session_events().history().push(
                EventView::SessionStarted { username: h.username@, pid: h.pid },
            ),
            requests_one_login_session(
                old(self).session_requests(),
                final(self).session_requests(),
                old(self).config_spec(),
                *success,
                Some(views(command@)),
            ),
            r is Ok ==> final(self).session_requests().len() == old(self).session_requests().len()
                + 1,
            final(self).failed_start_closes() == closes_after_start(
                old(self).failed_start_closes(),
                old(self).session_requests(),
                final(self).session_requests(),
                r is Ok,
                *success,
            ),
            command@.len() == 0 ==> final(self).open_requests() == old(self).open_requests()
                && final(self).session_results() == old(self).session_results()
                && final(self).failed_start_closes() == old(self).failed_start_closes(),
            command@.len() > 0 ==> login_start_reported(
                old(self).auth_spec(),
                old(self).open_requests(),
                final(self).open_requests(),
                old(self).session_requests(),
                final(self).session_requests(),
                old(self).session_results(),
                final(self).session_results(),
                old(self).failed_start_closes(),
                final(self).failed_start_closes(),
                old(self).config_spec(),
                *success,
                Some(views(command@)),
                r,
            ),
    {
        if command.len() == 0 {
            return Err(LimesError::Session("selected session command is empty".to_owned()));
        }
        self.start_session_for_command_override(success, Some(command))
    }

    /// Opens the backend's login session, builds the session spec (see
    /// `login_session_spec`) and starts it; when the start fails the
    /// backend's transaction is closed again and the start's error returned.
    fn start_session_for_command_override(
        &mut self,
        success: &AuthSuccess,
        command: Option<Vec<String>>,
    ) -> (r: LimesResult<SessionHandle>)
        ensures
            final(self).config_spec() == old(self).config_spec(),
            final(self).auth_spec() == old(self).auth_spec(),
            final(self).events_spec() == old(self).events_spec(),
            r matches Ok(h) ==> final(self).session_events().history() == old(
                self,
            ).session_events().history().push(
                EventView::SessionStarted { username: h.username@, pid: h.pid },
            ),
            requests_one_login_session(
                old(self).session_requests(),
                final(self).session_requests(),
                old(self).config_spec(),
                *success,
                opt_views(command),
            ),
            r is Ok ==> final(self).session_requests().len() == old(self).session_requests().len()
                + 1,
            final(self).failed_start_closes() == closes_after_start(
                old(self).failed_start_closes(),
                old(self).session_requests(),
                final(self).session_requests(),
                r is Ok,
                *success,
            ),
            login_start_reported(
                old(self).auth_spec(),
                old(self).open_requests(),
                final(self).open_requests(),
                old(self).session_requests(),
                final(self).session_requests(),
                old(self).session_results(),
                final(self).session_results(),
                old(self).failed_start_closes(),
                final(self).failed_start_closes(),
                old(self).config_spec(),
                *success,
                opt_views(command),
                r,
            ),
    {
        let opened = self.auth.open_session(success);
        let ghost opened_answer = opened;
        assert(self.auth.open_answers(*success, opened_answer));
        self.opens = Ghost(self.opens@.push((*success, open_view(opened))));
        let backend_env = match opened {
            Ok(env) => env,
            Err(e) => {
                assert(self.opens@.drop_last() =~= old(self).opens@);
                return Err(e);
            },
        };
        let ghost extra = env_view(backend_env@);
        let ghost chosen = opt_views(command);
        let spec = login_session_spec(&self.config, success, backend_env, command);
        assert(starts_login_session(self.config, *success, chosen, spec));
        assert(login_session_with_env(self.config, *success, chosen, extra, spec));
        let ghost before = self.sessions.requests();
        let started = self.sessions.start(&spec);
        assert(self.sessions.requests().drop_last() =~= before);
        assert(self.opens@.drop_last() =~= old(self).opens@);
        match started {
            Ok(handle) => Ok(handle),
            Err(error) => {
                let close_id = opt_str(&success.auth_session_id);
                let close_result = self.auth.close_session(close_id);
                assert(opt_str_view(close_id) == opt_view(success.auth_session_id));
                assert(self.auth.close_answers(opt_view(success.auth_session_id), close_result));
                self.closes = Ghost(self.closes@.push(opt_view(success.auth_session_id)));
                Err(error)
            },
        }
    }

    /// Waits for the session, then closes its authentication transaction
    /// whatever the wait gave; see `wait_outcome` for the result.
    pub fn wait_session(&self, handle: &SessionHandle) -> (r: LimesResult<i32>)
        ensures
            exists|w: LimesResult<i32>, c: LimesResult<()>|
                #![trigger self.session_backend_spec().wait_answers(*handle, w), self.auth_spec().close_answers(opt_view(handle.auth_session_id), c)]
                self.session_backend_spec().wait_answers(*handle, w)
                    && self.auth_spec().close_answers(opt_view(handle.auth_session_id), c)
                    && r == waited(w, c),
    {
        let wait_result = self.sessions.wait(handle);
        let id = opt_str(&handle.auth_session_id);
        assert(opt_str_view(id) == opt_view(handle.auth_session_id));
        let close_result = self.auth.close_session(id);
        let ghost w = wait_result;
        let ghost c = close_result;
        let r = wait_outcome(wait_result, close_result);
        assert(self.session_backend_spec().wait_answers(*handle, w)
            && self.auth_spec().close_answers(opt_view(handle.auth_session_id), c)
            && r == waited(w, c));
        r
    }

    /// Reports the launch of frontend `spec` in `mode` and returns the command
    /// line to run; see `FrontendRunner::launch_command`.
    pub fn launch_frontend(&mut self, spec: &FrontendSpec, mode: FrontendMode) -> (r: LimesResult<
        Vec<String>,
    >)
        ensures
            final(self).config_spec() == old(self).config_spec(),
            final(self).auth_spec() == old(self).auth_spec(),
            final(self).events_spec() == old(self).events_spec(),
            final(self).session_events() == old(self).session_events(),
            final(self).keeps_login_parts(*old(self)),
            match spec {
                FrontendSpec::BuiltinText => (r matches Err(LimesError::Frontend(m)) && m@
                    == builtin_launch_error()) && final(self).frontend_events().history()
                    == old(self).frontend_events().history(),
                FrontendSpec::External { program, args } => r matches Ok(argv) && views(argv@) == (
                seq![program@] + views(args@)).push(mode_arg(mode))
                    && final(self).frontend_events().history() == old(
                    self,
                ).frontend_events().history().push(
                    EventView::FrontendStarted {
                        mode: mode_arg(mode),
                        command: seq![program@] + views(args@),
                    },
                ),
            },
    {
        self.frontends.launch_command(spec, mode)
    }

    /// The command line of the configured lock frontend, if one is configured.
    pub(crate) fn launch_configured_lock_frontend(&mut self) -> (r: LimesResult<
        Option<Vec<String>>,
    >)
        ensures
            final(self).keeps_login_parts(*old(self)),
            old(self).config_spec().lock_frontend is None ==> r == Ok::<
                Option<Vec<String>>,
                LimesError,
            >(None) && final(self).frontend_events() == old(self).frontend_events(),
            match old(self).config_spec().lock_frontend {
                Some(FrontendSpec::External { program, args }) => r matches Ok(Some(argv)) && views(
                    argv@,
                ) == (seq![program@] + views(args@)).push(mode_arg(FrontendMode::Lock)),
                Some(FrontendSpec::BuiltinText) => r matches Err(LimesError::Frontend(m)) && m@
                    == builtin_launch_error(),
                None => true,
            },
    {
        match &self.config.lock_frontend {
            Some(spec) => match self.frontends.launch_command(spec, FrontendMode::Lock) {
                Ok(argv) => Ok(Some(argv)),
                Err(e) => Err(e),
            },
            None => Ok(None),
        }
    }

    /// Reports the launch of the configured login frontend and returns the
    /// command line to run; the builtin frontend is no process to launch.
    pub fn launch_login_frontend(&mut self) -> (r: LimesResult<Vec<String>>)
        ensures
            final(self).config_spec() == old(self).config_spec(),
            final(self).keeps_login_parts(*old(self)),
            match old(self).config_spec().login_frontend {
                FrontendSpec::BuiltinText => (r matches Err(e) && is_config_error(
                    e,
                    "no login frontend configured; set LIMES_LOGIN_FRONTEND or Config::login_frontend"@,
                )) && final(self).frontend_events() == old(self).frontend_events(),
                FrontendSpec::External { program, args } => r matches Ok(argv) && views(argv@) == (
                seq![program@] + views(args@)).push(mode_arg(FrontendMode::Login))
                    && final(self).frontend_events().history() == old(
                    self,
                ).frontend_events().history().push(
                    EventView::FrontendStarted {
                        mode: mode_arg(FrontendMode::Login),
                        command: seq![program@] + views(args@),
                    },
                ),
            },
    {
        match &self.config.login_frontend {
            FrontendSpec::BuiltinText => Err(
                LimesError::Config(
                    "no login frontend configured; set LIMES_LOGIN_FRONTEND or Config::login_frontend".to_owned(),
                ),
            ),
            spec => self.frontends.launch_command(spec, FrontendMode::Login),
        }
    }
}

/// Login and screen lock together: one authentication backend serves both
/// the login flow and unlock requests.
pub struct Runtime<A, D, B, S> {
    login: LoginRuntime<A, B, S>,
    lock: LockManager<D, AuthBackendAdapter<A>, S>,
}

impl<
    A: AuthBackend + Clone,
    D: DisplayBackend,
    B: SessionBackend,
    S: EventSink + Clone,
> Runtime<A, D, B, S> {
    pub closed spec fn login_spec(&self) -> LoginRuntime<A, B, S> {
        self.login
    }

    pub closed spec fn state_spec(&self) -> LockState {
        self.lock.state_spec()
    }

    pub closed spec fn lock_events(&self) -> EventBus<S> {
        self.lock.events_spec()
    }

    /// The transactions unlock requests asked the backend to close.
    pub closed spec fn lock_closes(&self) -> Seq<Option<Seq<char>>> {
        self.lock.closes()
    }

    /// The backend unlock requests are authenticated with.
    pub closed spec fn lock_auth_spec(&self) -> AuthBackendAdapter<A> {
        self.lock.auth_spec()
    }

    /// The display backend.
    pub closed spec fn display_spec(&self) -> D {
        self.lock.display_spec()
    }

    /// The requests made to the display backend, oldest first.
    pub closed spec fn display_requests(&self) -> Seq<DisplayRequest> {
        self.lock.display_requests()
    }

    /// Whether `self` has the lock side of `before`: its state, bus, backends
    /// and logs.
    pub open spec fn keeps_lock_parts(&self, before: Self) -> bool {
        &&& self.state_spec() == before.state_spec()
        &&& self.lock_events() == before.lock_events()
        &&& self.lock_closes() == before.lock_closes()
        &&& self.lock_auth_spec() == before.lock_auth_spec()
        &&& self.display_spec() == before.display_spec()
        &&& self.display_requests() == before.display_requests()
    }

    /// A runtime, initially unlocked, with the given parts; unlock requests
    /// are authenticated by a clone of `auth`, and the lock side reports to
    /// the sinks of `events`, whose list it shares.
    pub fn with_parts(config: Config, auth: A, display: D, backend: B, events: EventBus<S>) -> (r:
        Self)
        ensures
            r.login_spec().config_spec() == config,
            r.login_spec().events_spec() == events,
            r.login_spec().auth_spec() == auth,
            r.login_spec().session_backend_spec() == backend,
            r.state_spec() == LockState::Unlocked,
            r.lock_events().history().len() == 0,
            r.display_spec() == display,
            r.display_requests().len() == 0,
            r.lock_closes().len() == 0,
            cloned::<A>(auth, r.lock_auth_spec().auth),
            r.lock_events().shared() == events.shared(),
    {
        let lock = LockManager::new(display, auth.clone(), events.duplicate());
        let login = LoginRuntime::with_session_backend(config, auth, backend, events);
        Runtime { login, lock }
    }

    /// The configuration.
    pub fn config(&self) -> (c: &Config)
        ensures
            *c == self.login_spec().config_spec(),
    {
        self.login.config()
    }

    /// A copy of the runtime's bus: a sink subscribed to it receives what
    /// the runtime reports from then on.
    pub fn events(&self) -> (e: EventBus<S>)
        ensures
            e.shared() == self.login_spec().events_spec().shared(),
            e.history().len() == 0,
    {
        self.login.events()
    }

    /// Authenticates a login request; see `LoginRuntime::authenticate`.
    pub fn authenticate(&mut self, request: &AuthRequest) -> (r: AuthOutcome)
        ensures
            final(self).login_spec().events_spec().history() == old(
                self,
            ).login_spec().events_spec().history() + auth_events(request.username@, r),
            final(self).state_spec() == old(self).state_spec(),
            old(self).login_spec().auth_spec().auth_answers(*request, r),
            final(self).keeps_lock_parts(*old(self)),
            final(self).login_spec().open_requests() == old(self).login_spec().open_requests(),
            final(self).login_spec().session_requests() == old(
                self,
            ).login_spec().session_requests(),
    {
        self.login.authenticate(request)
    }

    /// Opens the login session for `success` and starts the configured
    /// session; see `LoginRuntime::start_session_for`.
    pub fn start_session_for(&mut self, success: &AuthSuccess) -> (r: LimesResult<SessionHandle>)
        ensures
            final(self).state_spec() == old(self).state_spec(),
            r matches Ok(h) ==> final(self).login_spec().session_events().history() == old(
                self,
            ).login_spec().session_events().history().push(
                EventView::SessionStarted { username: h.username@, pid: h.pid },
            ),
            requests_one_login_session(
                old(self).login_spec().session_requests(),
                final(self).login_spec().session_requests(),
                old(self).login_spec().config_spec(),
                *success,
                None,
            ),
            r is Ok ==> final(self).login_spec().session_requests().len() == old(
                self,
            ).login_spec().session_requests().len() + 1,
            final(self).login_spec().failed_start_closes() == closes_after_start(
                old(self).login_spec().failed_start_closes(),
                old(self).login_spec().session_requests(),
                final(self).login_spec().session_requests(),
                r is Ok,
                *success,
            ),
            login_start_reported(
                old(self).login_spec().auth_spec(),
                old(self).login_spec().open_requests(),
                final(self).login_spec().open_requests(),
                old(self).login_spec().session_requests(),
                final(self).login_spec().session_requests(),
                old(self).login_spec().session_results(),
                final(self).login_spec().session_results(),
                old(self).login_spec().failed_start_closes(),
                final(self).login_spec().failed_start_closes(),
                old(self).login_spec().config_spec(),
                *success,
                None,
                r,
            ),
            final(self).keeps_lock_parts(*old(self)),
    {
        self.login.start_session_for(success)
    }

    /// Waits for the session and closes its transaction; see
    /// `LoginRuntime::wait_session`.
    pub fn wait_session(&self, handle: &SessionHandle) -> (r: LimesResult<i32>)
        ensures
            exists|w: LimesResult<i32>, c: LimesResult<()>|
                #![trigger self.login_spec().session_backend_spec().wait_answers(*handle, w), self.login_spec().auth_spec().close_answers(opt_view(handle.auth_session_id), c)]
                self.login_spec().session_backend_spec().wait_answers(*handle, w)
                    && self.login_spec().auth_spec().close_answers(
                    opt_view(handle.auth_session_id),
                    c,
                ) && r == waited(w, c),
    {
        self.login.wait_session(handle)
    }

    /// Locks the display; see `LockManager::lock_now`.
    pub fn lock_now(&mut self) -> (r: LimesResult<()>)
        ensures
            final(self).state_spec() == (if r is Ok {
                LockState::Locked
            } else {
                LockState::Unlocked
            }),
            final(self).lock_events().history() == old(self).lock_events().history()
                + crate::lock::lock_events(r is Ok),
            old(self).display_spec().lock_answers(r),
            final(self).display_requests() == old(self).display_requests().push(
                DisplayRequest::Lock,
            ),
            final(self).lock_closes() == old(self).lock_closes(),
            final(self).login_spec() == old(self).login_spec(),
    {
        self.lock.lock_now()
    }

    /// Authenticates and releases the display; see `LockManager::unlock`.
    pub fn unlock(&mut self, request: &AuthRequest) -> (r: AuthOutcome)
        ensures
            final(self).state_spec() == (if r is Ok {
                LockState::Unlocked
            } else {
                LockState::Locked
            }),
            unlock_reported(
                old(self).lock_events().history(),
                final(self).lock_events().history(),
                old(self).lock_closes(),
                final(self).lock_closes(),
                request.username@,
                r,
            ),
            unlock_answered(
                old(self).lock_auth_spec(),
                old(self).display_spec(),
                *request,
                r,
                old(self).display_requests(),
                final(self).display_requests(),
                old(self).lock_events().history(),
                final(self).lock_events().history(),
                old(self).lock_closes(),
                final(self).lock_closes(),
            ),
            final(self).login_spec() == old(self).login_spec(),
    {
        self.lock.unlock(request)
    }

    /// The command line of the configured login frontend; see
    /// `LoginRuntime::launch_login_frontend`.
    pub fn launch_login_frontend(&mut self) -> (r: LimesResult<Vec<String>>)
        ensures
            final(self).login_spec().config_spec() == old(self).login_spec().config_spec(),
            final(self).state_spec() == old(self).state_spec(),
            final(self).login_spec().keeps_login_parts(old(self).login_spec()),
            final(self).keeps_lock_parts(*old(self)),
            match old(self).login_spec().config_spec().login_frontend {
                FrontendSpec::BuiltinText => r matches Err(e) && is_config_error(
                    e,
                    "no login frontend configured; set LIMES_LOGIN_FRONTEND or Config::login_frontend"@,
                ),
                FrontendSpec::External { program, args } => r matches Ok(argv) && views(argv@) == (
                seq![program@] + views(args@)).push(mode_arg(FrontendMode::Login)),
            },
    {
        self.login.launch_login_frontend()
    }

    /// The command line of the configured lock frontend, if one is
    /// configured.
    pub fn launch_lock_frontend(&mut self) -> (r: LimesResult<Option<Vec<String>>>)
        ensures
            old(self).login_spec().config_spec().lock_frontend is None ==> r == Ok::<
                Option<Vec<String>>,
                LimesError,
            >(None) && final(self).login_spec().frontend_events() == old(
                self,
            ).login_spec().frontend_events(),
            final(self).login_spec().keeps_login_parts(old(self).login_spec()),
            final(self).keeps_lock_parts(*old(self)),
            match old(self).login_spec().config_spec().lock_frontend {
                Some(FrontendSpec::External { program, args }) => r matches Ok(Some(argv)) && views(
                    argv@,
                ) == (seq![program@] + views(args@)).push(mode_arg(FrontendMode::Lock)),
                Some(FrontendSpec::BuiltinText) => r matches Err(LimesError::Frontend(m)) && m@
                    == builtin_launch_error(),
                None => true,
            },
    {
        self.login.launch_configured_lock_frontend()
    }
}

/// Screen-lock orchestration: locks the display, authenticates unlock
/// requests, and launches the lock frontend.
pub struct LockRuntime<D, A, S> {
    config: Config,
    lock: LockManager<D, A, S>,
    frontends: FrontendRunner<S>,
    events: EventBus<S>,
}

impl<D: DisplayBackend, A: LockAuthBackend, S: EventSink + Clone> LockRuntime<D, A, S> {
    pub closed spec fn config_spec(&self) -> Config {
        self.config
    }

    /// The lock manager's state.
    pub closed spec fn state_spec(&self) -> LockState {
        self.lock.state_spec()
    }

    /// The bus lock and unlock requests are reported to.
    pub closed spec fn lock_events(&self) -> EventBus<S> {
        self.lock.events_spec()
    }

    /// The transactions unlock requests asked the backend to close.
    pub closed spec fn lock_closes(&self) -> Seq<Option<Seq<char>>> {
        self.lock.closes()
    }

    /// The bus frontend launches are reported to.
    pub closed spec fn frontend_events(&self) -> EventBus<S> {
        self.frontends.events_spec()
    }

    pub closed spec fn events_spec(&self) -> EventBus<S> {
        self.events
    }

    /// The backend unlock requests are authenticated with.
    pub closed spec fn auth_spec(&self) -> A {
        self.lock.auth_spec()
    }

    /// The display backend.
    pub closed spec fn display_spec(&self) -> D {
        self.lock.display_spec()
    }

    /// The requests made to the display backend, oldest first.
    pub closed spec fn display_requests(&self) -> Seq<DisplayRequest> {
        self.lock.display_requests()
    }

    /// Whether `self` has the lock side of `before`: its state, bus, backends
    /// and logs.
    pub open spec fn keeps_lock_parts(&self, before: Self) -> bool {
        &&& self.state_spec() == before.state_spec()
        &&& self.lock_events() == before.lock_events()
        &&& self.lock_closes() == before.lock_closes()
        &&& self.auth_spec() == before.auth_spec()
        &&& self.display_spec() == before.display_spec()
        &&& self.display_requests() == before.display_requests()
    }

    /// A runtime, initially unlocked, with the given parts; the lock manager
    /// and the frontends report to the sinks of `events`, whose list they
    /// share.
    pub fn with_parts(config: Config, auth: A, display: D, events: EventBus<S>) -> (r: Self)
        ensures
            r.config_spec() == config,
            r.state_spec() == LockState::Unlocked,
            r.events_spec() == events,
            r.lock_events().history().len() == 0,
            r.frontend_events().history().len() == 0,
            r.auth_spec() == auth,
            r.display_spec() == display,
            r.display_requests().len() == 0,
            r.lock_closes().len() == 0,
            r.lock_events().shared() == events.shared(),
            r.frontend_events().shared() == events.shared(),
    {
        let lock = LockManager::with_lock_auth(display, auth, events.duplicate());
        let frontends = FrontendRunner::new(events.duplicate());
        LockRuntime { config, lock, frontends, events }
    }

    /// The configuration.
    pub fn config(&self) -> (c: &Config)
        ensures
            *c == self.config_spec(),
    {
        &self.config
    }

    /// A copy of the runtime's bus: a sink subscribed to it receives what
    /// the runtime reports from then on.
    pub fn events(&self) -> (e: EventBus<S>)
        ensures
            e.shared() == self.events_spec().shared(),
            e.history().len() == 0,
    {
        self.events.duplicate()
    }

    /// The current lock state.
    pub fn state(&self) -> (r: LimesResult<LockState>)
        ensures
            r == Ok::<LockState, LimesError>(self.state_spec()),
    {
        self.lock.state()
    }

    /// Locks the display; see `LockManager::lock_now`.
    pub fn lock_now(&mut self) -> (r: LimesResult<()>)
        ensures
            final(self).state_spec() == (if r is Ok {
                LockState::Locked
            } else {
                LockState::Unlocked
            }),
            final(self).lock_events().history() == old(self).lock_events().history()
                + crate::lock::lock_events(r is Ok),
            final(self).config_spec() == old(self).config_spec(),
            old(self).display_spec().lock_answers(r),
            final(self).display_requests() == old(self).display_requests().push(
                DisplayRequest::Lock,
            ),
            final(self).lock_closes() == old(self).lock_closes(),
            final(self).frontend_events() == old(self).frontend_events(),
            final(self).events_spec() == old(self).events_spec(),
    {
        self.lock.lock_now()
    }

    /// Authenticates and releases the display; see `LockManager::unlock`.
    pub fn unlock(&mut self, request: &AuthRequest) -> (r: AuthOutcome)
        ensures
            final(self).state_spec() == (if r is Ok {
                LockState::Unlocked
            } else {
                LockState::Locked
            }),
            unlock_reported(
                old(self).lock_events().history(),
                final(self).lock_events().history(),
                old(self).lock_closes(),
                final(self).lock_closes(),
                request.username@,
                r,
            ),
            final(self).config_spec() == old(self).config_spec(),
            unlock_answered(
                old(self).auth_spec(),
                old(self).display_spec(),
                *request,
                r,
                old(self).display_requests(),
                final(self).display_requests(),
                old(self).lock_events().history(),
                final(self).lock_events().history(),
                old(self).lock_closes(),
                final(self).lock_closes(),
            ),
            final(self).frontend_events() == old(self).frontend_events(),
            final(self).events_spec() == old(self).events_spec(),
    {
        self.lock.unlock(request)
    }

    /// Authenticates an unlock request without releasing the display, for
    /// frontends that own the compositor lock surface and release it after
    /// a success; see `LockManager::authenticate_unlock`.
    pub fn authenticate_unlock(&mut self, request: &AuthRequest) -> (r: AuthOutcome)
        ensures
            final(self).state_spec() == (if r is Ok {
                LockState::Unlocked
            } else {
                LockState::Locked
            }),
            authenticate_unlock_reported(
                old(self).lock_events().history(),
                final(self).lock_events().history(),
                old(self).lock_closes(),
                final(self).lock_closes(),
                request.username@,
                r,
            ),
            final(self).config_spec() == old(self).config_spec(),
            old(self).auth_spec().lock_auth_answers(*request, r),
            r matches Ok(s) ==> exists|c: LimesResult<()>|
                #![trigger old(self).auth_spec().lock_close_answers(opt_view(s.auth_session_id), c)]
                old(self).auth_spec().lock_close_answers(opt_view(s.auth_session_id), c),
            final(self).display_requests() == old(self).display_requests(),
            final(self).frontend_events() == old(self).frontend_events(),
            final(self).events_spec() == old(self).events_spec(),
    {
        self.lock.authenticate_unlock(request)
    }

    /// Reports the launch of the configured lock frontend and returns the
    /// command line to run. Without a lock frontend there is nothing to launch.
    pub fn launch_lock_frontend(&mut self) -> (r: LimesResult<Vec<String>>)
        ensures
            final(self).config_spec() == old(self).config_spec(),
            final(self).state_spec() == old(self).state_spec(),
            final(self).keeps_lock_parts(*old(self)),
            final(self).events_spec() == old(self).events_spec(),
            final(self).frontend_events().shared() == old(self).frontend_events().shared(),
            match old(self).config_spec().lock_frontend {
                None => (r matches Err(e) && is_config_error(
                    e,
                    "no lock frontend configured; set LIMES_LOCK_FRONTEND or Config::lock_frontend"@,
                )) && final(self).frontend_events() == old(self).frontend_events(),
                Some(FrontendSpec::BuiltinText) => r matches Err(LimesError::Frontend(m)) && m@
                    == builtin_launch_error(),
                Some(FrontendSpec::External { program, args }) => r matches Ok(argv) && views(
                    argv@,
                ) == (seq![program@] + views(args@)).push(mode_arg(FrontendMode::Lock)),
            },
    {
        match &self.config.lock_frontend {
            None => Err(
                LimesError::Config(
                    "no lock frontend configured; set LIMES_LOCK_FRONTEND or Config::lock_frontend".to_owned(),
                ),
            ),
            Some(spec) => self.frontends.launch_command(spec, FrontendMode::Lock),
        }
    }
}

} // verus!
