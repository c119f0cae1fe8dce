use limes::config::{parse_external_command, split_words, AuthBackendKind, Config, ConfigEnv, FrontendSpec};
use limes::error::LimesError;
use limes::proto::AuthSuccess;

fn empty_env() -> ConfigEnv {
    ConfigEnv {
        auth_backend: None,
        dev_password: None,
        pam_service: None,
        login_frontend: None,
        lock_frontend: None,
        session_command: None,
        max_auth_attempts: None,
        session_path: None,
    }
}

fn s(v: &str) -> Option<String> {
    Some(v.to_owned())
}

fn strings(v: &[&str]) -> Vec<String> {
    v.iter().map(|w| (*w).to_owned()).collect()
}

#[test]
fn defaults_use_pam_and_the_builtin_frontend() {
    let config = Config::from_values(&empty_env()).unwrap();
    assert_eq!(config.auth_backend, AuthBackendKind::Pam);
    assert_eq!(config.pam_service, "limes");
    assert_eq!(config.login_frontend, FrontendSpec::BuiltinText);
    assert_eq!(config.lock_frontend, None);
    assert!(config.session_command.is_empty());
    assert_eq!(config.max_auth_attempts, 3);
    assert_eq!(config.session_path, None);
}

#[test]
fn backend_names_select_their_backends() {
    let mut env = empty_env();
    env.auth_backend = s("deny");
    assert_eq!(Config::from_values(&env).unwrap().auth_backend, AuthBackendKind::DenyAll);

    env.auth_backend = s("pam");
    assert_eq!(Config::from_values(&env).unwrap().auth_backend, AuthBackendKind::Pam);

    env.auth_backend = s("dev");
    env.dev_password = s("hunter2");
    assert_eq!(
        Config::from_values(&env).unwrap().auth_backend,
        AuthBackendKind::DevPassword { password: "hunter2".to_owned() }
    );
}

#[test]
fn dev_backend_without_password_is_a_config_error() {
    let mut env = empty_env();
    env.auth_backend = s("dev");
    assert_eq!(
        Config::from_values(&env).unwrap_err(),
        LimesError::Config("LIMES_AUTH_BACKEND=dev requires LIMES_DEV_PASSWORD".to_owned())
    );
}

#[test]
fn unknown_backend_is_a_config_error() {
    let mut env = empty_env();
    env.auth_backend = s("ldap");
    assert_eq!(
        Config::from_values(&env).unwrap_err(),
        LimesError::Config("unknown LIMES_AUTH_BACKEND `ldap`; expected pam, dev, or deny".to_owned())
    );
}

#[test]
fn frontends_are_read_from_their_command_lines() {
    let mut env = empty_env();
    env.login_frontend = s("  greeter --big  ");
    env.lock_frontend = s("locker");
    let config = Config::from_values(&env).unwrap();
    assert_eq!(
        config.login_frontend,
        FrontendSpec::External { program: "greeter".to_owned(), args: strings(&["--big"]) }
    );
    assert_eq!(
        config.lock_frontend,
        Some(FrontendSpec::External { program: "locker".to_owned(), args: Vec::new() })
    );

    env.login_frontend = s("text");
    env.lock_frontend = s("   ");
    let config = Config::from_values(&env).unwrap();
    assert_eq!(config.login_frontend, FrontendSpec::BuiltinText);
    assert_eq!(config.lock_frontend, None);

    env.login_frontend = s("builtin");
    assert_eq!(Config::from_values(&env).unwrap().login_frontend, FrontendSpec::BuiltinText);
}

#[test]
fn max_attempts_parse_like_u8_and_stay_positive() {
    let mut env = empty_env();
    for (value, expected) in [("5", 5u8), ("+7", 7), ("0", 1), ("300", 3), ("-1", 3), (" 4", 3), ("255", 255), ("", 3)] {
        env.max_auth_attempts = s(value);
        assert_eq!(Config::from_values(&env).unwrap().max_auth_attempts, expected, "{value}");
    }
}

#[test]
fn session_command_and_service_are_taken_as_given() {
    let mut env = empty_env();
    env.session_command = s(" sway  --unsupported-gpu ");
    env.pam_service = s("login");
    let config = Config::from_values(&env).unwrap();
    assert_eq!(config.session_command, strings(&["sway", "--unsupported-gpu"]));
    assert_eq!(config.pam_service, "login");
}

#[test]
fn parse_external_command_refuses_empty_commands() {
    assert_eq!(
        parse_external_command("   "),
        Err(LimesError::Config("empty frontend command".to_owned()))
    );
    assert_eq!(
        parse_external_command("a b\tc"),
        Ok(FrontendSpec::External { program: "a".to_owned(), args: strings(&["b", "c"]) })
    );
    assert_eq!(split_words("  x  y "), strings(&["x", "y"]));
}

fn success(shell: Option<&str>, home: Option<&str>) -> AuthSuccess {
    AuthSuccess {
        username: "alice".to_owned(),
        uid: 1000,
        gid: 100,
        home: home.map(str::to_owned),
        shell: shell.map(str::to_owned),
        auth_session_id: Some("pam-1".to_owned()),
    }
}

#[test]
fn session_spec_runs_the_shell_with_the_user_environment() {
    let config = Config::from_values(&empty_env()).unwrap();
    let spec = config.session_spec_for(&success(Some("/bin/zsh"), Some("/home/alice")));
    assert_eq!(spec.username, "alice");
    assert_eq!(spec.uid, 1000);
    assert_eq!(spec.gid, 100);
    assert_eq!(spec.command, strings(&["/bin/zsh"]));
    assert_eq!(spec.working_dir, Some("/home/alice".to_owned()));
    assert_eq!(spec.auth_session_id, Some("pam-1".to_owned()));
    let env: Vec<(String, String)> = [
        ("USER", "alice"),
        ("LOGNAME", "alice"),
        ("UID", "1000"),
        ("GID", "100"),
        ("HOME", "/home/alice"),
        ("PWD", "/home/alice"),
        ("SHELL", "/bin/zsh"),
        ("PATH", "/usr/local/bin:/usr/bin:/bin:/usr/local/sbin:/usr/sbin:/sbin"),
    ]
    .iter()
    .map(|(k, v)| ((*k).to_owned(), (*v).to_owned()))
    .collect();
    assert_eq!(spec.env, env);
}

#[test]
fn session_spec_falls_back_to_bin_sh_and_uses_the_configured_command() {
    let mut env = empty_env();
    env.session_path = s("/opt/bin");
    let config = Config::from_values(&env).unwrap();
    let spec = config.session_spec_for(&success(Some("   "), None));
    assert_eq!(spec.command, strings(&["/bin/sh"]));
    assert_eq!(spec.working_dir, None);
    assert_eq!(spec.env.last().unwrap(), &("PATH".to_owned(), "/opt/bin".to_owned()));
    assert!(spec.env.iter().any(|(k, v)| k == "SHELL" && v == "   "));

    env.session_command = s("startplasma-wayland");
    let config = Config::from_values(&env).unwrap();
    let spec = config.session_spec_for(&success(None, None));
    assert_eq!(spec.command, strings(&["startplasma-wayland"]));
    assert_eq!(spec.env.len(), 5);
}
