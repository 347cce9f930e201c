use jev_cli::config::{
    config_file_path, config_path_in, file_choice, load_config_file, permissions_warning,
    user_config_path_from, FileChoice,
};
use jev_cli::env::FileRead;

fn missing() -> FileRead {
    FileRead::Missing {
        reason: "No such file or directory (os error 2)".to_owned(),
    }
}

#[test]
fn config_path_joins_home() {
    assert_eq!(config_path_in("/home/u"), "/home/u/.jevcli/jev.conf");
}

#[test]
fn config_path_join_edge_cases() {
    assert_eq!(config_path_in("/home/u/"), "/home/u/.jevcli/jev.conf");
    assert_eq!(config_path_in(""), ".jevcli/jev.conf");
    assert_eq!(
        user_config_path_from(None, Some("/profiles/me")),
        Some("/profiles/me/.jevcli/jev.conf".to_owned())
    );
    assert_eq!(
        user_config_path_from(Some("/home/a"), Some("/profiles/me")),
        Some("/home/a/.jevcli/jev.conf".to_owned())
    );
    assert_eq!(user_config_path_from(None, None), None);
    assert_eq!(
        config_file_path(Some("/etc/x.conf"), Some("/home/a"), None),
        Some("/etc/x.conf".to_owned())
    );
    assert_eq!(config_file_path(None, None, None), None);
}

#[test]
fn config_explicit_missing_file_errors() {
    assert!(load_config_file("/definitely/not/here.conf", true, missing(), None).is_err());
}

#[test]
fn missing_default_config_loads_nothing() {
    let (vars, outcome) = load_config_file("/home/u/.jevcli/jev.conf", false, missing(), None)
        .unwrap();
    assert!(vars.is_empty());
    assert!(outcome.warnings.is_empty());
}

#[test]
fn loads_allowlisted_and_ignores_the_rest() {
    let (vars, _) = load_config_file(
        "allowlist",
        true,
        FileRead::Contents(
            b"TYPESAFE_BASE_URL=https://evil.example\nTYPESAFE_DEFAULT_MODEL=jev-x\n".to_vec(),
        ),
        None,
    )
    .unwrap();
    assert_eq!(
        vars,
        vec![("TYPESAFE_DEFAULT_MODEL".to_owned(), "jev-x".to_owned())]
    );
}

#[test]
fn warns_on_loose_permissions_only() {
    let path = "/tmp/jev-cli-config-test-perms";
    let contents = || FileRead::Contents(b"UNRELATED_SETTING=1\n".to_vec());

    let (vars, outcome) = load_config_file(path, true, contents(), Some(0o100644)).unwrap();
    assert!(vars.is_empty());
    assert_eq!(outcome.warnings.len(), 1);
    assert!(outcome.warnings[0].contains("chmod 600"), "{outcome:?}");

    let (_, outcome) = load_config_file(path, true, contents(), Some(0o100600)).unwrap();
    assert!(outcome.warnings.is_empty(), "{outcome:?}");
}

#[test]
fn permissions_warning_text() {
    assert_eq!(
        permissions_warning("/h/.jevcli/jev.conf", Some(0o100640)).as_deref(),
        Some(
            "/h/.jevcli/jev.conf: permissions 0640 are too open for a file holding an API key; \
             run: chmod 600 /h/.jevcli/jev.conf"
        )
    );
    assert_eq!(
        permissions_warning("f", Some(0o104777)).as_deref(),
        Some("f: permissions 0777 are too open for a file holding an API key; run: chmod 600 f")
    );
    assert_eq!(permissions_warning("f", Some(0o100700)), None);
    assert_eq!(permissions_warning("f", Some(0o100400)), None);
    assert_eq!(permissions_warning("f", None), None);
}

#[test]
fn unreadable_config_is_an_error_even_by_default() {
    let err = load_config_file(
        "/home/u/.jevcli/jev.conf",
        false,
        FileRead::Failed {
            reason: "Permission denied (os error 13)".to_owned(),
        },
        None,
    )
    .unwrap_err();
    assert_eq!(
        err.message(),
        "invalid input: cannot load /home/u/.jevcli/jev.conf: Permission denied (os error 13)"
    );
}

#[test]
fn file_flags_select_default_explicit_or_none() {
    assert_eq!(file_choice(None), FileChoice::Default);
    assert_eq!(file_choice(Some("none")), FileChoice::Disabled);
    assert_eq!(
        file_choice(Some("./my.env")),
        FileChoice::Explicit("./my.env".to_owned())
    );
    assert_eq!(file_choice(Some("None")), FileChoice::Explicit("None".to_owned()));
}
