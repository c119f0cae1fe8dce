//! Configuration: which authentication backend to use, which frontends to
//! launch, and what a login session runs, read from the `LIMES_*` settings.
use vstd::prelude::*;

use crate::error::{is_config_error, LimesError, LimesResult};
use crate::proto::{env_view, id_text, opt_view, AuthSuccess, SessionSpec};
use crate::text::{
    is_blank_str, parse_u8, parse_u8_spec, push_decimal, split_words_str, str_eq, trim, views,
    words,
};

verus! {

/// The authentication backend a runtime is built with.
#[derive(Debug, Clone, PartialEq, Eq)]
pub enum AuthBackendKind {
    /// Production target backed by Linux-PAM.
    Pam,
    /// Explicit development backend, accepting one fixed password.
    DevPassword { password: String },
    /// Refuses every request.
    DenyAll,
}

/// How a frontend is started.
#[derive(Debug, Clone, PartialEq, Eq)]
pub enum FrontendSpec {
    /// The minimal text frontend built into the `limes` program.
    BuiltinText,
    /// Any executable, started with these arguments.
    External { program: String, args: Vec<String> },
}

impl FrontendSpec {
    /// An external frontend running `program` with `args`.
    pub fn external(program: String, args: Vec<String>) -> (s: Self)
        ensures
            s == (FrontendSpec::External { program, args }),
    {
        FrontendSpec::External { program, args }
    }

    /// The frontend's command line, program first; none for the builtin one.
    pub fn command_line(&self) -> (c: Option<Vec<String>>)
        ensures
            match self {
                FrontendSpec::BuiltinText => c is None,
                FrontendSpec::External { program, args } => c matches Some(v) && views(v@)
                    == seq![program@] + views(args@),
            },
    {
        match self {
            FrontendSpec::BuiltinText => None,
            FrontendSpec::External { program, args } => {
                let mut command: Vec<String> = Vec::new();
                command.push(program.clone());
                let mut i: usize = 0;
                while i < args.len()
                    invariant
                        i <= args@.len(),
                        views(command@) == seq![program@] + views(args@.take(i as int)),
                    decreases args@.len() - i,
                {
                    let ghost before = command@;
                    command.push(args[i].clone());
                    assert(views(command@) =~= views(before).push(args@[i as int]@));
                    assert(views(args@.take(i + 1)) =~= views(args@.take(i as int)).push(
                        args@[i as int]@,
                    ));
                    i = i + 1;
                }
                assert(args@.take(i as int) =~= args@);
                Some(command)
            },
        }
    }
}

/// Everything the library is configured with.
#[derive(Debug, Clone)]
pub struct Config {
    pub auth_backend: AuthBackendKind,
    pub pam_service: String,
    pub login_frontend: FrontendSpec,
    pub lock_frontend: Option<FrontendSpec>,
    pub session_command: Vec<String>,
    pub max_auth_attempts: u8,
    /// The search path login sessions get; the standard one when `None`.
    pub session_path: Option<String>,
}

/// The `LIMES_*` settings a configuration is read from, each as the process
/// environment gave it (`None` when unset).
pub struct ConfigEnv {
    /// `LIMES_AUTH_BACKEND`
    pub auth_backend: Option<String>,
    /// `LIMES_DEV_PASSWORD`
    pub dev_password: Option<String>,
    /// `LIMES_PAM_SERVICE`
    pub pam_service: Option<String>,
    /// `LIMES_LOGIN_FRONTEND`
    pub login_frontend: Option<String>,
    /// `LIMES_LOCK_FRONTEND`
    pub lock_frontend: Option<String>,
    /// `LIMES_SESSION_COMMAND`
    pub session_command: Option<String>,
    /// `LIMES_MAX_AUTH_ATTEMPTS`
    pub max_auth_attempts: Option<String>,
    /// `LIMES_SESSION_PATH`
    pub session_path: Option<String>,
}

/// The frontend a command line describes: its first word is the program,
/// the rest its arguments; a command without words is refused.
pub open spec fn external_command(value: Seq<char>) -> Option<(Seq<char>, Seq<Seq<char>>)> {
    let w = words(value);
    if w.len() == 0 {
        None
    } else {
        Some((w[0], w.drop_first()))
    }
}

/// Whether `spec` is the external frontend `program` with `args`.
pub open spec fn is_external(spec: FrontendSpec, program: Seq<char>, args: Seq<Seq<char>>) -> bool {
    spec matches FrontendSpec::External { program: p, args: a } && p@ == program && views(a@)
        == args
}

/// Parses a frontend command line from the environment.
pub fn parse_external_command(value: &str) -> (r: LimesResult<FrontendSpec>)
    ensures
        match external_command(value@) {
            Some((program, args)) => r matches Ok(spec) && is_external(spec, program, args),
            None => r matches Err(e) && is_config_error(e, "empty frontend command"@),
        },
{
    let mut words = split_words_str(value);
    if words.len() == 0 {
        return Err(LimesError::Config("empty frontend command".to_owned()));
    }
    let ghost all = words@;
    let program = words.remove(0);
    assert(views(words@) =~= views(all).drop_first());
    Ok(FrontendSpec::external(program, words))
}

/// Splits an environment-provided command at whitespace.
pub fn split_words(value: &str) -> (w: Vec<String>)
    ensures
        views(w@) == words(value@),
{
    split_words_str(value)
}

/// The authentication backend a `LIMES_AUTH_BACKEND` value selects, or the
/// message of the configuration error it raises.
pub open spec fn auth_backend_choice(
    value: Option<Seq<char>>,
    dev_password: Option<Seq<char>>,
) -> Result<AuthBackendView, Seq<char>> {
    match value {
        None => Ok(AuthBackendView::Pam),
        Some(v) => if v == "pam"@ {
            Ok(AuthBackendView::Pam)
        } else if v == "deny"@ {
            Ok(AuthBackendView::DenyAll)
        } else if v == "dev"@ {
            match dev_password {
                Some(p) => Ok(AuthBackendView::DevPassword(p)),
                None => Err("LIMES_AUTH_BACKEND=dev requires LIMES_DEV_PASSWORD"@),
            }
        } else {
            Err("unknown LIMES_AUTH_BACKEND `"@ + v + "`; expected pam, dev, or deny"@)
        },
    }
}

/// An authentication backend kind with its password taken by its view.
pub enum AuthBackendView {
    Pam,
    DevPassword(Seq<char>),
    DenyAll,
}

impl View for AuthBackendKind {
    type V = AuthBackendView;

    open spec fn view(&self) -> AuthBackendView {
        match self {
            AuthBackendKind::Pam => AuthBackendView::Pam,
            AuthBackendKind::DevPassword { password } => AuthBackendView::DevPassword(password@),
            AuthBackendKind::DenyAll => AuthBackendView::DenyAll,
        }
    }
}

/// A frontend spec with its texts taken by their views.
pub enum FrontendView {
    BuiltinText,
    External(Seq<char>, Seq<Seq<char>>),
}

impl View for FrontendSpec {
    type V = FrontendView;

    open spec fn view(&self) -> FrontendView {
        match self {
            FrontendSpec::BuiltinText => FrontendView::BuiltinText,
            FrontendSpec::External { program, args } => FrontendView::External(
                program@,
                views(args@),
            ),
        }
    }
}

/// The login frontend a `LIMES_LOGIN_FRONTEND` value selects: the builtin
/// one when unset, blank, `builtin` or `text`, else the command it holds.
pub open spec fn login_frontend_choice(value: Option<Seq<char>>) -> Result<FrontendView, Seq<char>> {
    match value {
        None => Ok(FrontendView::BuiltinText),
        Some(v) => if trim(v).len() == 0 || v == "builtin"@ || v == "text"@ {
            Ok(FrontendView::BuiltinText)
        } else {
            match external_command(v) {
                Some((p, a)) => Ok(FrontendView::External(p, a)),
                None => Err("empty frontend command"@),
            }
        },
    }
}

/// The lock frontend a `LIMES_LOCK_FRONTEND` value selects: none when unset
/// or blank, else the command it holds.
pub open spec fn lock_frontend_choice(value: Option<Seq<char>>) -> Result<
    Option<FrontendView>,
    Seq<char>,
> {
    match value {
        None => Ok(None),
        Some(v) => if trim(v).len() == 0 {
            Ok(None)
        } else {
            match external_command(v) {
                Some((p, a)) => Ok(Some(FrontendView::External(p, a))),
                None => Err("empty frontend command"@),
            }
        },
    }
}

/// The session command a `LIMES_SESSION_COMMAND` value gives: its words, or
/// none when unset or blank.
pub open spec fn session_command_choice(value: Option<Seq<char>>) -> Seq<Seq<char>> {
    match value {
        Some(v) => if trim(v).len() == 0 {
            seq![]
        } else {
            words(v)
        },
        None => seq![],
    }
}

/// The attempt limit a `LIMES_MAX_AUTH_ATTEMPTS` value gives: the number it
/// spells, 3 when it spells none, and at least 1.
pub open spec fn max_attempts_choice(value: Option<Seq<char>>) -> u8 {
    let n: u8 = match value {
        Some(v) => match parse_u8_spec(v) {
            Some(n) => n,
            None => 3,
        },
        None => 3,
    };
    if n < 1 {
        1
    } else {
        n
    }
}

pub open spec fn opt_frontend_view(o: Option<FrontendSpec>) -> Option<FrontendView> {
    match o {
        Some(f) => Some(f@),
        None => None,
    }
}

/// Whether `trim(v)` is empty exactly when `v` is blank.
proof fn lemma_blank_trim(v: Seq<char>)
    ensures
        crate::text::is_blank(v) <==> trim(v).len() == 0,
{
    lemma_trim_start_blank(v);
    lemma_trim_end_keeps_nonspace_start(crate::text::trim_start(v));
}

proof fn lemma_trim_start_blank(v: Seq<char>)
    ensures
        crate::text::is_blank(v) <==> crate::text::trim_start(v).len() == 0,
        crate::text::trim_start(v).len() > 0 ==> !crate::text::is_space(
            crate::text::trim_start(v)[0],
        ),
    decreases v.len(),
{
    if v.len() > 0 {
        lemma_trim_start_blank(v.drop_first());
        if crate::text::is_space(v[0]) {
            if crate::text::is_blank(v.drop_first()) {
                assert forall|i: int| 0 <= i < v.len() implies crate::text::is_space(
                    #[trigger] v[i],
                ) by {
                    if i > 0 {
                        assert(v[i] == v.drop_first()[i - 1]);
                    }
                }
            } else {
                let k = choose|k: int|
                    0 <= k < v.drop_first().len() && !crate::text::is_space(
                        #[trigger] v.drop_first()[k],
                    );
                assert(v[k + 1] == v.drop_first()[k]);
            }
        }
    }
}

proof fn lemma_trim_end_keeps_nonspace_start(v: Seq<char>)
    requires
        v.len() > 0 ==> !crate::text::is_space(v[0]),
    ensures
        crate::text::trim_end(v).len() == 0 <==> v.len() == 0,
    decreases v.len(),
{
    if v.len() > 1 {
        assert(v.drop_last()[0] == v[0]);
        lemma_trim_end_keeps_nonspace_start(v.drop_last());
    }
}

fn is_blank_value(v: &String) -> (b: bool)
    ensures
        b == (trim(v@).len() == 0),
{
    proof {
        lemma_blank_trim(v@);
    }
    is_blank_str(v.as_str())
}

impl Config {
    /// Reads the configuration from the `LIMES_*` settings. An unknown
    /// backend, the development backend without its password, and an empty
    /// frontend command are configuration errors, reported in that order.
    pub fn from_values(env: &ConfigEnv) -> (r: LimesResult<Config>)
        ensures
            match auth_backend_choice(opt_view(env.auth_backend), opt_view(env.dev_password)) {
                Err(m) => r matches Err(e) && is_config_error(e, m),
                Ok(backend) => match login_frontend_choice(opt_view(env.login_frontend)) {
                    Err(m) => r matches Err(e) && is_config_error(e, m),
                    Ok(login) => match lock_frontend_choice(opt_view(env.lock_frontend)) {
                        Err(m) => r matches Err(e) && is_config_error(e, m),
                        Ok(lock) => r matches Ok(c) && c.auth_backend@ == backend
                            && c.pam_service@ == (match env.pam_service {
                            Some(s) => s@,
                            None => "limes"@,
                        }) && c.login_frontend@ == login && opt_frontend_view(c.lock_frontend)
                            == lock && views(c.session_command@) == session_command_choice(
                            opt_view(env.session_command),
                        ) && c.max_auth_attempts == max_attempts_choice(
                            opt_view(env.max_auth_attempts),
                        ) && c.session_path == env.session_path,
                    },
                },
            },
    {
        let auth_backend = match &env.auth_backend {
            None => AuthBackendKind::Pam,
            Some(v) => {
                if str_eq(v.as_str(), "pam") {
                    AuthBackendKind::Pam
                } else if str_eq(v.as_str(), "deny") {
                    AuthBackendKind::DenyAll
                } else if str_eq(v.as_str(), "dev") {
                    match &env.dev_password {
                        Some(p) => AuthBackendKind::DevPassword { password: p.clone() },
                        None => {
                            return Err(
                                LimesError::Config(
                                    "LIMES_AUTH_BACKEND=dev requires LIMES_DEV_PASSWORD".to_owned(),
                                ),
                            );
                        },
                    }
                } else {
                    let mut m = "unknown LIMES_AUTH_BACKEND `".to_owned();
                    m.append(v.as_str());
                    m.append("`; expected pam, dev, or deny");
                    return Err(LimesError::Config(m));
                }
            },
        };
        let pam_service = match &env.pam_service {
            Some(s) => s.clone(),
            None => "limes".to_owned(),
        };
        let login_frontend = match &env.login_frontend {
            None => FrontendSpec::BuiltinText,
            Some(v) => {
                if is_blank_value(v) || str_eq(v.as_str(), "builtin") || str_eq(
                    v.as_str(),
                    "text",
                ) {
                    FrontendSpec::BuiltinText
                } else {
                    parse_external_command(v.as_str())?
                }
            },
        };
        let lock_frontend = match &env.lock_frontend {
            None => None,
            Some(v) => {
                if is_blank_value(v) {
                    None
                } else {
                    Some(parse_external_command(v.as_str())?)
                }
            },
        };
        let session_command = match &env.session_command {
            Some(v) => {
                if is_blank_value(v) {
                    Vec::new()
                } else {
                    split_words(v.as_str())
                }
            },
            None => Vec::new(),
        };
        assert(views(session_command@) =~= session_command_choice(opt_view(env.session_command)));
        let parsed: u8 = match &env.max_auth_attempts {
            Some(v) => match parse_u8(v.as_str()) {
                Some(n) => n,
                None => 3,
            },
            None => 3,
        };
        let max_auth_attempts = if parsed < 1 {
            1
        } else {
            parsed
        };
        Ok(
            Config {
                auth_backend,
                pam_service,
                login_frontend,
                lock_frontend,
                session_command,
                max_auth_attempts,
                session_path: env.session_path.clone(),
            },
        )
    }
}

/// The search path a session gets when none is configured.
pub open spec fn default_session_path() -> Seq<char> {
    "/usr/local/bin:/usr/bin:/bin:/usr/local/sbin:/usr/sbin:/sbin"@
}

/// The search path a configuration gives login sessions.
pub open spec fn session_path_of(c: &Config) -> Seq<char> {
    match c.session_path {
        Some(p) => p@,
        None => default_session_path(),
    }
}

/// The environment a login session starts with: the user's names and ids,
/// its home (as `HOME` and `PWD`) and shell when known, and the search path.
pub open spec fn session_env_for(
    user: Seq<char>,
    uid: u32,
    gid: u32,
    home: Option<Seq<char>>,
    shell: Option<Seq<char>>,
    path: Seq<char>,
) -> Seq<(Seq<char>, Seq<char>)> {
    seq![("USER"@, user), ("LOGNAME"@, user), ("UID"@, id_text(uid)), ("GID"@, id_text(gid))]
        + (match home {
        Some(h) => seq![("HOME"@, h), ("PWD"@, h)],
        None => seq![],
    }) + (match shell {
        Some(s) => seq![("SHELL"@, s)],
        None => seq![],
    }) + seq![("PATH"@, path)]
}

/// The command a login session runs: the configured one, or else the user's
/// shell unless it is blank, or else `/bin/sh`.
pub open spec fn session_command_for(configured: Seq<Seq<char>>, shell: Option<Seq<char>>) -> Seq<
    Seq<char>,
> {
    if configured.len() == 0 {
        seq![
            match shell {
                Some(s) => if trim(s).len() > 0 {
                    s
                } else {
                    "/bin/sh"@
                },
                None => "/bin/sh"@,
            },
        ]
    } else {
        configured
    }
}

fn push_env(env: &mut Vec<(String, String)>, key: &str, value: String)
    ensures
        env_view(final(env)@) == env_view(old(env)@).push((key@, value@)),
{
    let ghost before = env@;
    env.push((key.to_owned(), value));
    assert(env_view(env@) =~= env_view(before).push((key@, value@)));
}

impl Config {
    /// The session a successful login starts: the configured command (or
    /// the user's shell), the user's ids, the authentication session to pair
    /// with, the home as working directory, and the session environment with
    /// the configured search path when one is set.
    pub fn session_spec_for(&self, success: &AuthSuccess) -> (s: SessionSpec)
        ensures
            s.username@ == success.username@,
            s.uid == success.uid,
            s.gid == success.gid,
            views(s.command@) == session_command_for(
                views(self.session_command@),
                opt_view(success.shell),
            ),
            s.auth_session_id == success.auth_session_id,
            opt_view(s.working_dir) == opt_view(success.home),
            env_view(s.env@) == session_env_for(
                success.username@,
                success.uid,
                success.gid,
                opt_view(success.home),
                opt_view(success.shell),
                session_path_of(self),
            ),
    {
        let command = if self.session_command.len() == 0 {
            let program = match &success.shell {
                Some(shell) => if is_blank_value(shell) {
                    "/bin/sh".to_owned()
                } else {
                    shell.clone()
                },
                None => "/bin/sh".to_owned(),
            };
            let mut c: Vec<String> = Vec::new();
            c.push(program);
            assert(views(c@) =~= session_command_for(
                views(self.session_command@),
                opt_view(success.shell),
            ));
            c
        } else {
            self.session_command.clone()
        };
        let mut spec = SessionSpec::new(success.username.as_str(), success.uid, success.gid, command);
        spec.auth_session_id = success.auth_session_id.clone();
        let mut env: Vec<(String, String)> = Vec::new();
        push_env(&mut env, "USER", success.username.clone());
        push_env(&mut env, "LOGNAME", success.username.clone());
        let mut uid = String::new();
        push_decimal(&mut uid, success.uid as u64);
        push_env(&mut env, "UID", uid);
        let mut gid = String::new();
        push_decimal(&mut gid, success.gid as u64);
        push_env(&mut env, "GID", gid);
        let ghost base = env_view(env@);
        if let Some(home) = &success.home {
            push_env(&mut env, "HOME", home.clone());
            push_env(&mut env, "PWD", home.clone());
            spec.working_dir = Some(home.clone());
        }
        let ghost with_home = env_view(env@);
        if let Some(shell) = &success.shell {
            push_env(&mut env, "SHELL", shell.clone());
        }
        let ghost with_shell = env_view(env@);
        let path = match &self.session_path {
            Some(p) => p.clone(),
            None => "/usr/local/bin:/usr/bin:/bin:/usr/local/sbin:/usr/sbin:/sbin".to_owned(),
        };
        push_env(&mut env, "PATH", path);
        proof {
            let home_part = match opt_view(success.home) {
                Some(h) => seq![("HOME"@, h), ("PWD"@, h)],
                None => Seq::<(Seq<char>, Seq<char>)>::empty(),
            };
            let shell_part = match opt_view(success.shell) {
                Some(sh) => seq![("SHELL"@, sh)],
                None => Seq::<(Seq<char>, Seq<char>)>::empty(),
            };
            assert(with_home =~= base + home_part);
            assert(with_shell =~= base + home_part + shell_part);
        }
        assert(env_view(env@) =~= session_env_for(
            success.username@,
            success.uid,
            success.gid,
            opt_view(success.home),
            opt_view(success.shell),
            session_path_of(self),
        ));
        spec.env = env;
        spec
    }
}

} // verus!
