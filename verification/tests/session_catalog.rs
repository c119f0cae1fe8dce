use limes::catalog::{
    clean_desktop_exec_word, collect_sessions, parse_desktop_exec, parse_desktop_session_content,
    parse_session_entry, push_session, split_desktop_words,
};
use limes::proto::SessionChoice;

#[test]
fn parse_desktop_exec_keeps_quoted_words_together() {
    let command = parse_desktop_exec(r#"env FOO="bar baz" start-session"#).unwrap();

    assert_eq!(
        command,
        vec![
            "env".to_owned(),
            "FOO=bar baz".to_owned(),
            "start-session".to_owned()
        ]
    );
}

#[test]
fn parse_desktop_exec_removes_field_codes() {
    let command = parse_desktop_exec("start-session %f --literal %%").unwrap();

    assert_eq!(
        command,
        vec![
            "start-session".to_owned(),
            "--literal".to_owned(),
            "%".to_owned()
        ]
    );
}

#[test]
fn parse_session_entry_splits_simple_env_commands() {
    let choice = parse_session_entry("Test=/usr/bin/start --flag").unwrap();

    assert_eq!(choice.name, "Test");
    assert_eq!(
        choice.command,
        Some(vec!["/usr/bin/start".to_owned(), "--flag".to_owned()])
    );
}

#[test]
fn parse_session_entry_rejects_missing_command() {
    assert!(parse_session_entry("Test=").is_none());
}

#[test]
fn parse_session_entry_trims_and_needs_a_name() {
    let choice = parse_session_entry("  Lab Shell = /bin/sh -l  ").unwrap();
    assert_eq!(choice.name, "Lab Shell");
    assert_eq!(choice.command, Some(vec!["/bin/sh".to_owned(), "-l".to_owned()]));
    assert!(parse_session_entry(" =sway").is_none());
    assert!(parse_session_entry("no separator").is_none());
    assert!(parse_session_entry("   ").is_none());
    let first_equals = parse_session_entry("A=b=c d").unwrap();
    assert_eq!(first_equals.name, "A");
    assert_eq!(first_equals.command, Some(vec!["b=c".to_owned(), "d".to_owned()]));
}

#[test]
fn desktop_words_honour_escapes_and_quotes() {
    assert_eq!(
        split_desktop_words(r#"a\ b "c d" \"e"#),
        vec!["a b".to_owned(), "c d".to_owned(), "\"e".to_owned()]
    );
    assert!(split_desktop_words("   ").is_empty());
    assert_eq!(split_desktop_words(r#""""#), Vec::<String>::new());
}

#[test]
fn field_codes_are_removed_or_expanded() {
    assert_eq!(clean_desktop_exec_word("%F"), None);
    assert_eq!(clean_desktop_exec_word("%k"), None);
    assert_eq!(clean_desktop_exec_word("%%"), Some("%".to_owned()));
    assert_eq!(clean_desktop_exec_word("a%"), Some("a%".to_owned()));
    assert_eq!(clean_desktop_exec_word("x%zy"), Some("xy".to_owned()));
    assert_eq!(clean_desktop_exec_word("%q"), None);
    assert_eq!(parse_desktop_exec("%f %U"), None);
}

#[test]
fn desktop_content_is_read_from_its_entry_group() {
    let content = "# comment\n[Other]\nName=Wrong\n[Desktop Entry]\nName = Sway \nExec=sway --unsupported-gpu %U\nTryExec=sway\n";
    let session = parse_desktop_session_content(content, Some("sway")).unwrap();
    assert_eq!(session.name, "Sway");
    assert_eq!(session.command, vec!["sway".to_owned(), "--unsupported-gpu".to_owned()]);
    assert_eq!(session.try_exec.as_deref(), Some("sway"));
    let choice = session.into_choice(true, true).unwrap();
    assert_eq!(choice.name, "Sway");
}

#[test]
fn desktop_content_falls_back_to_the_file_stem() {
    let content = "[Desktop Entry]\r\nExec=startplasma-wayland\r\n";
    let session = parse_desktop_session_content(content, Some("plasma")).unwrap();
    assert_eq!(session.name, "plasma");
    let unnamed = parse_desktop_session_content(content, None).unwrap();
    assert_eq!(unnamed.name, "Session");
}

#[test]
fn hidden_or_commandless_entries_are_skipped() {
    assert!(parse_desktop_session_content("[Desktop Entry]\nExec=x\nHidden=TRUE\n", None).is_none());
    assert!(parse_desktop_session_content("[Desktop Entry]\nExec=x\nNoDisplay=true", None).is_none());
    assert!(parse_desktop_session_content("[Desktop Entry]\nName=x\n", None).is_none());
    assert!(parse_desktop_session_content("Exec=x\n", None).is_none());
    assert!(parse_desktop_session_content("[Desktop Entry]\nExec=x\nHidden=false\n", None).is_some());
}

#[test]
fn unavailable_programs_drop_the_session() {
    let content = "[Desktop Entry]\nName=S\nExec=s\nTryExec=t\n";
    let s = || parse_desktop_session_content(content, None).unwrap();
    assert!(s().into_choice(false, true).is_none());
    assert!(s().into_choice(true, false).is_none());
    assert!(s().into_choice(true, true).is_some());
    let no_try = parse_desktop_session_content("[Desktop Entry]\nExec=s\n", None).unwrap();
    assert!(no_try.into_choice(false, true).is_some());
}

#[test]
fn push_session_keeps_names_unique() {
    let mut sessions = Vec::new();
    push_session(&mut sessions, parse_session_entry("A=a").unwrap());
    push_session(&mut sessions, parse_session_entry("B=b").unwrap());
    push_session(&mut sessions, parse_session_entry("A=other").unwrap());
    assert_eq!(sessions.len(), 2);
    assert_eq!(sessions[0].command, Some(vec!["a".to_owned()]));
}

#[test]
fn catalog_merges_lists_and_falls_back_to_the_default() {
    let desktop = vec![SessionChoice {
        name: "Sway".to_owned(),
        command: Some(vec!["sway".to_owned()]),
    }];
    let lists = vec!["Lab Shell=/bin/sh;Sway=other;;Bad".to_owned(), "X=x".to_owned()];
    let sessions = collect_sessions(desktop, &lists);
    let names: Vec<&str> = sessions.iter().map(|s| s.name.as_str()).collect();
    assert_eq!(names, vec!["Sway", "Lab Shell", "X"]);
    assert_eq!(sessions[0].command, Some(vec!["sway".to_owned()]));

    let empty = collect_sessions(Vec::new(), &vec![";".to_owned()]);
    assert_eq!(empty, vec![SessionChoice::default_session()]);
}

#[test]
fn choices_and_states_render_as_text() {
    let choice = limes::proto::SessionChoice::default_session();
    assert_eq!(choice.label(), "Default session");
    assert_eq!(choice.command, None);
    assert_eq!(limes::proto::LockState::Unlocking.as_str(), "unlocking");
    assert_eq!(limes::proto::LockState::Locked.as_str(), "locked");
}
