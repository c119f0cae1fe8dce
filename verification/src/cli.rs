//! The command line of the `limes` program: its commands, the login
//! options, and the reading of typed lines.
use vstd::prelude::*;

use crate::auth::signed_decimal;
use crate::config::{Config, FrontendSpec, FrontendView};
use crate::error::{is_auth_error, is_config_error, LimesError, LimesResult};
use crate::proto::{failure_text, AuthFailure};
use crate::frontend::{mode_arg, FrontendMode};
use crate::text::{decimal, push_char, push_decimal, str_eq, views};

verus! {

/// What the `limes` command line asks for.
#[derive(Debug, PartialEq, Eq)]
pub enum CliCommand {
    /// `limes login ARGS...`
    Login(Vec<String>),
    /// `limes lock ARGS...`
    Lock(Vec<String>),
    /// `limes help`, `--help`, `-h`, or no command.
    Help,
}

/// Whether `a` asks for help.
pub open spec fn is_help_flag(a: Seq<char>) -> bool {
    a == "--help"@ || a == "-h"@
}

fn is_help_arg(a: &String) -> (b: bool)
    ensures
        b == is_help_flag(a@),
{
    str_eq(a.as_str(), "--help") || str_eq(a.as_str(), "-h")
}

/// The strings `args[from..]`.
fn tail(args: &[String], from: usize) -> (out: Vec<String>)
    requires
        from <= args@.len(),
    ensures
        views(out@) == views(args@).skip(from as int),
{
    let mut out: Vec<String> = Vec::new();
    let mut i = from;
    while i < args.len()
        invariant
            from <= i <= args@.len(),
            views(out@) == views(args@).subrange(from as int, i as int),
        decreases args@.len() - i,
    {
        let ghost before = out@;
        let w = args[i].clone();
        proof {
            crate::text::lemma_views_push(before, w);
        }
        out.push(w);
        assert(views(out@) =~= views(args@).subrange(from as int, i + 1));
        i = i + 1;
    }
    assert(views(args@).skip(from as int) =~= views(args@).subrange(from as int, i as int));
    out
}

/// The command the program's arguments (without the program name) ask for;
/// an unknown command is a configuration error.
pub fn parse_command(args: &[String]) -> (r: LimesResult<CliCommand>)
    ensures
        args@.len() == 0 ==> r == Ok::<CliCommand, LimesError>(CliCommand::Help),
        args@.len() > 0 ==> {
            let first = args@[0]@;
            if first == "login"@ {
                r matches Ok(CliCommand::Login(rest)) && views(rest@) == views(args@).drop_first()
            } else if first == "lock"@ {
                r matches Ok(CliCommand::Lock(rest)) && views(rest@) == views(args@).drop_first()
            } else if first == "help"@ || is_help_flag(first) {
                r == Ok::<CliCommand, LimesError>(CliCommand::Help)
            } else {
                r matches Err(e) && is_config_error(
                    e,
                    "unknown command `"@ + first + "`; try `limes --help`"@,
                )
            }
        },
{
    if args.len() == 0 {
        return Ok(CliCommand::Help);
    }
    let first = &args[0];
    if str_eq(first.as_str(), "login") {
        Ok(CliCommand::Login(tail(args, 1)))
    } else if str_eq(first.as_str(), "lock") {
        Ok(CliCommand::Lock(tail(args, 1)))
    } else if str_eq(first.as_str(), "help") || is_help_arg(first) {
        Ok(CliCommand::Help)
    } else {
        let mut m = "unknown command `".to_owned();
        m.append(first.as_str());
        m.append("`; try `limes --help`");
        Err(LimesError::Config(m))
    }
}

/// Whether any argument asks for help.
pub fn wants_help(args: &[String]) -> (b: bool)
    ensures
        b == exists|i: int| 0 <= i < args@.len() && is_help_flag(#[trigger] args@[i]@),
{
    let mut i: usize = 0;
    while i < args.len()
        invariant
            i <= args@.len(),
            forall|j: int| 0 <= j < i ==> !is_help_flag(#[trigger] args@[j]@),
        decreases args@.len() - i,
    {
        if is_help_arg(&args[i]) {
            return true;
        }
        i = i + 1;
    }
    false
}

/// `ws` joined with single spaces.
pub open spec fn join_spaced(ws: Seq<Seq<char>>) -> Seq<char>
    decreases ws.len(),
{
    if ws.len() == 0 {
        seq![]
    } else if ws.len() == 1 {
        ws[0]
    } else {
        join_spaced(ws.drop_last()) + seq![' '] + ws.last()
    }
}

/// `limes lock` takes no arguments: any is a configuration error naming
/// them.
pub fn check_lock_args(args: &[String]) -> (r: LimesResult<()>)
    ensures
        args@.len() == 0 ==> r is Ok,
        args@.len() > 0 ==> (r matches Err(e) && is_config_error(
            e,
            "unexpected lock arguments: "@ + join_spaced(views(args@)),
        )),
{
    if args.len() == 0 {
        return Ok(());
    }
    let mut m = "unexpected lock arguments: ".to_owned();
    let ghost prefix = m@;
    m.append(args[0].as_str());
    let mut i: usize = 1;
    assert(views(args@).take(1).drop_last().len() == 0);
    assert(join_spaced(views(args@).take(1)) == args@[0]@);
    while i < args.len()
        invariant
            1 <= i <= args@.len(),
            prefix == "unexpected lock arguments: "@,
            m@ == prefix + join_spaced(views(args@).take(i as int)),
        decreases args@.len() - i,
    {
        push_char(&mut m, ' ');
        m.append(args[i].as_str());
        assert(views(args@).take(i + 1).drop_last() =~= views(args@).take(i as int));
        assert(m@ =~= prefix + join_spaced(views(args@).take(i + 1)));
        i = i + 1;
    }
    assert(views(args@).take(i as int) =~= views(args@));
    Err(LimesError::Config(m))
}

/// The login frontend a `limes login` option list selects: `--builtin`
/// selects the builtin frontend and reading goes on; `--frontend PROGRAM`
/// selects that program with the remaining arguments (after one leading
/// `--`) and ends the reading; anything else is an error.
pub open spec fn login_args_effect(args: Seq<Seq<char>>, current: FrontendView) -> Result<
    FrontendView,
    Seq<char>,
>
    decreases args.len(),
{
    if args.len() == 0 {
        Ok(current)
    } else if args[0] == "--builtin"@ {
        login_args_effect(args.drop_first(), FrontendView::BuiltinText)
    } else if args[0] == "--frontend"@ {
        if args.len() < 2 {
            Err("--frontend requires a program path"@)
        } else {
            let rest = args.skip(2);
            let fargs = if rest.len() > 0 && rest[0] == "--"@ {
                rest.drop_first()
            } else {
                rest
            };
            Ok(FrontendView::External(args[1], fargs))
        }
    } else {
        Err("unknown login argument `"@ + args[0] + "`; try `limes login --help`"@)
    }
}

/// The frontend the leading `--builtin` options of `args` leave selected:
/// what stays when a later option is refused.
pub open spec fn login_args_kept(args: Seq<Seq<char>>, current: FrontendView) -> FrontendView
    decreases args.len(),
{
    if args.len() > 0 && args[0] == "--builtin"@ {
        login_args_kept(args.drop_first(), FrontendView::BuiltinText)
    } else {
        current
    }
}

/// Applies the `limes login` options to `config`. The frontend selected so
/// far stays when an option is refused.
pub fn apply_login_args(config: &mut Config, args: &[String]) -> (r: LimesResult<()>)
    ensures
        final(config).auth_backend == old(config).auth_backend,
        final(config).pam_service == old(config).pam_service,
        final(config).lock_frontend == old(config).lock_frontend,
        final(config).session_command == old(config).session_command,
        final(config).max_auth_attempts == old(config).max_auth_attempts,
        final(config).session_path == old(config).session_path,
        match login_args_effect(views(args@), old(config).login_frontend@) {
            Ok(f) => r is Ok && final(config).login_frontend@ == f,
            Err(m) => (r matches Err(e) && is_config_error(e, m)) && final(config).login_frontend@
                == login_args_kept(views(args@), old(config).login_frontend@),
        },
{
    let mut i: usize = 0;
    assert(views(args@).skip(0) =~= views(args@));
    while i < args.len()
        invariant
            i <= args@.len(),
            config.auth_backend == old(config).auth_backend,
            config.pam_service == old(config).pam_service,
            config.lock_frontend == old(config).lock_frontend,
            config.session_command == old(config).session_command,
            config.max_auth_attempts == old(config).max_auth_attempts,
            config.session_path == old(config).session_path,
            login_args_effect(views(args@), old(config).login_frontend@) == login_args_effect(
                views(args@).skip(i as int),
                config.login_frontend@,
            ),
            login_args_kept(views(args@), old(config).login_frontend@) == login_args_kept(
                views(args@).skip(i as int),
                config.login_frontend@,
            ),
        decreases args@.len() - i,
    {
        let ghost rest = views(args@).skip(i as int);
        assert(rest[0] == args@[i as int]@);
        assert(rest.drop_first() =~= views(args@).skip(i + 1));
        if str_eq(args[i].as_str(), "--builtin") {
            config.login_frontend = FrontendSpec::BuiltinText;
            i = i + 1;
        } else if str_eq(args[i].as_str(), "--frontend") {
            if i + 1 >= args.len() {
                return Err(LimesError::Config("--frontend requires a program path".to_owned()));
            }
            assert(rest[1] == args@[i + 1]@);
            assert(rest.skip(2) =~= views(args@).skip(i + 2));
            let program = args[i + 1].clone();
            let mut frontend_args = tail(args, i + 2);
            if frontend_args.len() > 0 && str_eq(frontend_args[0].as_str(), "--") {
                let ghost all = frontend_args@;
                frontend_args.remove(0);
                assert(views(frontend_args@) =~= views(all).drop_first());
            }
            config.login_frontend = FrontendSpec::external(program, frontend_args);
            return Ok(());
        } else {
            let mut m = "unknown login argument `".to_owned();
            m.append(args[i].as_str());
            m.append("`; try `limes login --help`");
            return Err(LimesError::Config(m));
        }
    }
    Ok(())
}

/// `line` without its trailing line-break characters (`\n` and `\r`).
pub open spec fn chomp(line: Seq<char>) -> Seq<char>
    decreases line.len(),
{
    if line.len() > 0 && (line.last() == '\n' || line.last() == '\r') {
        chomp(line.drop_last())
    } else {
        line
    }
}

/// Removes the trailing line-break characters of a line read from a terminal.
pub fn chomp_line(line: &str) -> (s: String)
    ensures
        s@ == chomp(line@),
{
    let v = crate::text::chars_of(line);
    let mut end = v.len();
    assert(v@.subrange(0, end as int) =~= v@);
    while end > 0 && (v[end - 1] == '\n' || v[end - 1] == '\r')
        invariant
            v@ == line@,
            end <= v@.len(),
            chomp(line@) == chomp(v@.subrange(0, end as int)),
        decreases end,
    {
        assert(v@.subrange(0, end as int).drop_last() =~= v@.subrange(0, end - 1));
        end = end - 1;
    }
    crate::text::string_of_range(&v, 0, end)
}

/// How a launched frontend's end is reported: exit code 0 is success, any
/// other code a frontend error naming the mode and the code.
pub fn frontend_finished(mode: FrontendMode, code: i32) -> (r: LimesResult<()>)
    ensures
        code == 0 ==> r is Ok,
        code != 0 ==> (r matches Err(LimesError::Frontend(m)) && m@ == mode_arg(mode)
            + " frontend exited with code "@ + signed_decimal(code)),
{
    if code == 0 {
        return Ok(());
    }
    let mut m = mode.as_arg().to_owned();
    m.append(" frontend exited with code ");
    let ghost prefix = m@;
    if code < 0 {
        push_char(&mut m, '-');
        let magnitude: u64 = if code == i32::MIN {
            2147483648
        } else {
            (-code) as u64
        };
        assert(magnitude == -(code as int));
        push_decimal(&mut m, magnitude);
    } else {
        push_decimal(&mut m, code as u64);
    }
    assert(m@ =~= prefix + signed_decimal(code));
    Err(LimesError::Frontend(m))
}

/// The attempts of the builtin login, numbered from 1 up to the configured
/// limit.
pub struct LoginAttempts {
    attempt: u16,
    max: u8,
}

/// The line reported for refused attempt `attempt` of `max`.
pub open spec fn failure_line(attempt: nat, max: nat, reason: AuthFailure) -> Seq<char> {
    "authentication failed ("@ + decimal(attempt) + "/"@ + decimal(max) + "): "@ + failure_text(
        reason,
    )
}

impl LoginAttempts {
    /// The attempt under way.
    pub closed spec fn attempt_spec(&self) -> nat {
        self.attempt as nat
    }

    /// The limit of attempts.
    pub closed spec fn max_spec(&self) -> nat {
        self.max as nat
    }

    /// The first of at most `max` attempts.
    pub fn new(max: u8) -> (a: Self)
        ensures
            a.attempt_spec() == 1,
            a.max_spec() == max,
    {
        LoginAttempts { attempt: 1, max }
    }

    /// Whether an attempt is left.
    pub fn has_attempt(&self) -> (b: bool)
        ensures
            b == (self.attempt_spec() <= self.max_spec()),
    {
        self.attempt <= self.max as u16
    }

    /// Records that the attempt under way was refused for `reason`, moves on
    /// to the next one, and gives the line reported for the refusal.
    pub fn record_failure(&mut self, reason: &AuthFailure) -> (line: String)
        requires
            old(self).attempt_spec() <= old(self).max_spec(),
        ensures
            line@ == failure_line(old(self).attempt_spec(), old(self).max_spec(), *reason),
            final(self).attempt_spec() == old(self).attempt_spec() + 1,
            final(self).max_spec() == old(self).max_spec(),
    {
        let mut line = "authentication failed (".to_owned();
        push_decimal(&mut line, self.attempt as u64);
        push_char(&mut line, '/');
        push_decimal(&mut line, self.max as u64);
        line.append("): ");
        let text = reason.message();
        line.append(text.as_str());
        proof {
            reveal_strlit("/");
            assert(line@ =~= failure_line(old(self).attempt_spec(), old(self).max_spec(), *reason));
        }
        self.attempt = self.attempt + 1;
        line
    }

    /// The error once every attempt was refused.
    pub fn exhausted(&self) -> (e: LimesError)
        ensures
            is_auth_error(e, "maximum authentication attempts reached"@),
    {
        LimesError::Auth("maximum authentication attempts reached".to_owned())
    }
}

} // verus!
