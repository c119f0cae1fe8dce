//! Login sessions: the backend that starts and waits for them, the manager
//! that reports them, and what a start needs from a session spec.
use vstd::prelude::*;

use crate::error::{is_session_error, LimesError, LimesResult};
use crate::events::{EventBus, EventSink};
use crate::proto::{env_view, opt_view, EventView, LimesEvent, SessionHandle, SessionSpec};
use crate::text::views;

verus! {

/// Starts user sessions, waits for them and terminates them.
///
/// Each answer is one the backend's relations admit for what it was given; a
/// backend that states none admits every answer.
pub trait SessionBackend {
    /// Whether `out` is an answer this backend gives when asked to start `spec`.
    closed spec fn start_answers(&self, spec: SessionSpec, out: LimesResult<SessionHandle>) -> bool {
        true
    }

    /// Whether `out` is an answer this backend gives when asked to wait for
    /// the session `handle`.
    closed spec fn wait_answers(&self, handle: SessionHandle, out: LimesResult<i32>) -> bool {
        true
    }

    /// Whether `out` is an answer this backend gives when asked to terminate
    /// the session `handle`.
    closed spec fn terminate_answers(&self, handle: SessionHandle, out: LimesResult<()>) -> bool {
        true
    }

    fn start(&self, spec: &SessionSpec) -> (r: LimesResult<SessionHandle>)
        ensures
            self.start_answers(*spec, r),
    ;

    fn wait(&self, handle: &SessionHandle) -> (r: LimesResult<i32>)
        ensures
            self.wait_answers(*handle, r),
    ;

    fn terminate(&self, handle: &SessionHandle) -> (r: LimesResult<()>)
        ensures
            self.terminate_answers(*handle, r),
    ;
}

/// What starting a session runs: the program and its arguments, with exactly
/// the spec's environment, in its working directory, as its user.
pub struct SessionLaunch {
    pub program: String,
    pub args: Vec<String>,
    pub env: Vec<(String, String)>,
    pub working_dir: Option<String>,
    pub username: String,
    pub uid: u32,
    pub gid: u32,
}

/// The launch a spec describes: its command's first word is the program and
/// the rest are the arguments; a spec without a command cannot be started.
pub fn session_launch(spec: &SessionSpec) -> (r: LimesResult<SessionLaunch>)
    ensures
        spec.command@.len() == 0 ==> (r matches Err(e) && is_session_error(
            e,
            "session command is empty"@,
        )),
        spec.command@.len() > 0 ==> (r matches Ok(l) && l.program@ == spec.command@[0]@ && views(
            l.args@,
        ) == views(spec.command@).drop_first() && env_view(l.env@) == env_view(spec.env@)
            && opt_view(l.working_dir) == opt_view(spec.working_dir) && l.username@
            == spec.username@ && l.uid == spec.uid && l.gid == spec.gid),
{
    if spec.command.len() == 0 {
        return Err(LimesError::Session("session command is empty".to_owned()));
    }
    let mut args: Vec<String> = Vec::new();
    let mut i: usize = 1;
    while i < spec.command.len()
        invariant
            1 <= i <= spec.command@.len(),
            views(args@) == views(spec.command@).subrange(1, i as int),
        decreases spec.command@.len() - i,
    {
        let ghost before = args@;
        let w = spec.command[i].clone();
        proof {
            crate::text::lemma_views_push(before, w);
        }
        args.push(w);
        assert(views(args@) =~= views(spec.command@).subrange(1, i + 1));
        i = i + 1;
    }
    assert(views(spec.command@).drop_first() =~= views(spec.command@).subrange(1, i as int));
    let env = copy_env(&spec.env);
    Ok(
        SessionLaunch {
            program: spec.command[0].clone(),
            args,
            env,
            working_dir: spec.working_dir.clone(),
            username: spec.username.clone(),
            uid: spec.uid,
            gid: spec.gid,
        },
    )
}

/// One step of switching a session process to its user.
#[derive(Debug, Clone, Copy, PartialEq, Eq, Structural)]
pub enum PrivilegeStep {
    /// Set the supplementary groups of the user (`initgroups`).
    InitGroups,
    /// Set the group id (`setgid`).
    SetGid,
    /// Set the user id (`setuid`).
    SetUid,
}

/// The steps a session process takes before running its program: as root it
/// takes the user's groups, then the group id, then the user id, the user id
/// last so that the earlier steps still have the rights they need, stopping
/// at the first that fails; a process not running as root changes nothing.
pub fn privilege_drop_steps(running_as_root: bool) -> (steps: Vec<PrivilegeStep>)
    ensures
        running_as_root ==> steps@ == seq![
            PrivilegeStep::InitGroups,
            PrivilegeStep::SetGid,
            PrivilegeStep::SetUid,
        ],
        !running_as_root ==> steps@.len() == 0,
{
    let mut steps: Vec<PrivilegeStep> = Vec::new();
    if running_as_root {
        steps.push(PrivilegeStep::InitGroups);
        steps.push(PrivilegeStep::SetGid);
        steps.push(PrivilegeStep::SetUid);
    }
    steps
}

/// A copy of an environment list.
pub fn copy_env(env: &Vec<(String, String)>) -> (out: Vec<(String, String)>)
    ensures
        env_view(out@) == env_view(env@),
{
    let mut out: Vec<(String, String)> = Vec::new();
    let mut i: usize = 0;
    while i < env.len()
        invariant
            i <= env@.len(),
            env_view(out@) == env_view(env@).take(i as int),
        decreases env@.len() - i,
    {
        let ghost before = out@;
        let e = &env[i];
        out.push((e.0.clone(), e.1.clone()));
        assert(out@.drop_last() =~= before);
        assert(env_view(out@) =~= env_view(before).push((env@[i as int].0@, env@[i as int].1@)));
        assert(env_view(out@) =~= env_view(env@).take(i + 1));
        i = i + 1;
    }
    assert(env_view(env@).take(i as int) =~= env_view(env@));
    out
}

/// The handle of the session started from `spec` as process `pid`.
pub fn session_handle(spec: &SessionSpec, pid: u32) -> (h: SessionHandle)
    ensures
        h.pid == pid,
        h.username == spec.username,
        h.command@ == spec.command@,
        h.auth_session_id == spec.auth_session_id,
{
    let command = spec.command.clone();
    assert(command@ =~= spec.command@);
    SessionHandle {
        pid,
        username: spec.username.clone(),
        command,
        auth_session_id: spec.auth_session_id.clone(),
    }
}

/// Starts sessions through a backend and reports each start.
pub struct SessionManager<B, S> {
    backend: B,
    events: EventBus<S>,
    requests: Ghost<Seq<SessionSpec>>,
    results: Ghost<Seq<LimesResult<SessionHandle>>>,
}

impl<B: SessionBackend, S: EventSink + Clone> SessionManager<B, S> {
    pub closed spec fn events_spec(&self) -> EventBus<S> {
        self.events
    }

    pub closed spec fn backend_spec(&self) -> B {
        self.backend
    }

    /// The specs handed to the backend to start, oldest first.
    pub closed spec fn requests(&self) -> Seq<SessionSpec> {
        self.requests@
    }

    /// What the backend answered to each start, oldest first.
    pub closed spec fn start_results(&self) -> Seq<LimesResult<SessionHandle>> {
        self.results@
    }

    /// A manager starting sessions with `backend` and reporting to `events`.
    pub fn new(backend: B, events: EventBus<S>) -> (m: Self)
        ensures
            m.backend_spec() == backend,
            m.events_spec() == events,
            m.requests().len() == 0,
            m.start_results().len() == 0,
    {
        SessionManager {
            backend,
            events,
            requests: Ghost(Seq::empty()),
            results: Ghost(Seq::empty()),
        }
    }

    /// Hands `spec` to the backend to start and returns the backend's answer;
    /// a started session is reported with its user and process id, a failed
    /// start reports nothing.
    pub fn start(&mut self, spec: &SessionSpec) -> (r: LimesResult<SessionHandle>)
        ensures
            final(self).backend_spec() == old(self).backend_spec(),
            final(self).requests() == old(self).requests().push(*spec),
            final(self).start_results() == old(self).start_results().push(r),
            old(self).backend_spec().start_answers(*spec, r),
            match r {
                Ok(h) => final(self).events_spec().history() == old(self).events_spec().history().push(
                    EventView::SessionStarted { username: h.username@, pid: h.pid },
                ),
                Err(_) => final(self).events_spec().history() == old(self).events_spec().history(),
            },
    {
        self.requests = Ghost(self.requests@.push(*spec));
        let result = self.backend.start(spec);
        self.results = Ghost(self.results@.push(result));
        match result {
            Ok(handle) => {
                self.events.emit(
                    LimesEvent::SessionStarted { username: handle.username.clone(), pid: handle.pid },
                );
                Ok(handle)
            },
            Err(e) => Err(e),
        }
    }

    /// Waits for the session to end and returns the backend's answer, its
    /// wait status.
    pub fn wait(&self, handle: &SessionHandle) -> (r: LimesResult<i32>)
        ensures
            self.backend_spec().wait_answers(*handle, r),
    {
        self.backend.wait(handle)
    }

    /// Terminates the session and returns the backend's answer.
    pub fn terminate(&self, handle: &SessionHandle) -> (r: LimesResult<()>)
        ensures
            self.backend_spec().terminate_answers(*handle, r),
    {
        self.backend.terminate(handle)
    }
}

} // verus!
