//! Frontends: the processes that render the login and lock user interfaces.
use vstd::prelude::*;

use crate::config::FrontendSpec;
use crate::error::{LimesError, LimesResult};
use crate::events::{EventBus, EventSink};
use crate::proto::{EventView, LimesEvent};
use crate::text::views;

verus! {

/// Which user interface a frontend is asked to show.
#[derive(Debug, Clone, Copy, PartialEq, Eq, Structural)]
pub enum FrontendMode {
    Login,
    Lock,
}

/// The argument naming a mode.
pub open spec fn mode_arg(mode: FrontendMode) -> Seq<char> {
    match mode {
        FrontendMode::Login => "login"@,
        FrontendMode::Lock => "lock"@,
    }
}

impl FrontendMode {
    /// The argument a frontend is given to select this mode.
    pub fn as_arg(self) -> (s: &'static str)
        ensures
            s@ == mode_arg(self),
    {
        match self {
            FrontendMode::Login => "login",
            FrontendMode::Lock => "lock",
        }
    }
}

/// Prepares frontend launches and reports them.
pub struct FrontendRunner<S> {
    events: EventBus<S>,
}

impl<S: EventSink + Clone> FrontendRunner<S> {
    pub closed spec fn events_spec(&self) -> EventBus<S> {
        self.events
    }

    /// A runner reporting to `events`.
    pub fn new(events: EventBus<S>) -> (r: Self)
        ensures
            r.events_spec() == events,
    {
        FrontendRunner { events }
    }

    /// Reports the start of the frontend `spec` in `mode` and returns the
    /// command line to run: the frontend's own, then the mode argument. The
    /// builtin text frontend runs inside the `limes` program and has no
    /// command line to run.
    pub fn launch_command(&mut self, spec: &FrontendSpec, mode: FrontendMode) -> (r: LimesResult<
        Vec<String>,
    >)
        ensures
            final(self).events_spec().shared() == old(self).events_spec().shared(),
            match spec {
                FrontendSpec::BuiltinText => (r matches Err(LimesError::Frontend(m)) && m@
                    == builtin_launch_error()) && final(self).events_spec() == old(
                    self,
                ).events_spec(),
                FrontendSpec::External { program, args } => r matches Ok(argv) && views(argv@) == (
                seq![program@] + views(args@)).push(mode_arg(mode))
                    && final(self).events_spec().history() == old(self).events_spec().history().push(
                    EventView::FrontendStarted {
                        mode: mode_arg(mode),
                        command: seq![program@] + views(args@),
                    },
                ),
            },
    {
        match spec.command_line() {
            None => Err(
                LimesError::Frontend(
                    "the builtin text frontend runs inside limes and has no command to launch".to_owned(),
                ),
            ),
            Some(rendered) => {
                let mut argv = rendered.clone();
                let ghost shown = views(rendered@);
                self.events.emit(
                    LimesEvent::FrontendStarted { mode: mode.as_arg().to_owned(), command: rendered },
                );
                let ghost before = argv@;
                argv.push(mode.as_arg().to_owned());
                assert(argv@.drop_last() == before);
                assert(views(before) =~= shown);
                assert(views(argv@) =~= shown.push(mode_arg(mode)));
                Ok(argv)
            },
        }
    }
}

/// Why the builtin frontend cannot be launched as a process.
pub open spec fn builtin_launch_error() -> Seq<char> {
    "the builtin text frontend runs inside limes and has no command to launch"@
}

/// The exit code a frontend's end is reported as: its own code, or 1 when it
/// ended without one (killed by a signal).
pub fn frontend_exit_code(code: Option<i32>) -> (c: i32)
    ensures
        c == match code {
            Some(n) => n,
            None => 1,
        },
{
    match code {
        Some(n) => n,
        None => 1,
    }
}

} // verus!
