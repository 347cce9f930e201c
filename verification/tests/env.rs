use jev_cli::env::{
    allowlisted, apply_missing, env_file_path, load_env_file, parse_allowlisted, DotenvFailure,
    FileRead,
};
use jev_cli::CliError;

fn missing() -> FileRead {
    FileRead::Missing {
        reason: "No such file or directory (os error 2)".to_owned(),
    }
}

fn pair(k: &str, v: &str) -> (String, String) {
    (k.to_owned(), v.to_owned())
}

#[test]
fn missing_default_file_is_not_an_error() {
    assert_eq!(env_file_path(None), ".env");
    let result = load_env_file(None, missing());
    assert!(result.is_ok());
    assert!(result.unwrap().is_empty());
}

#[test]
fn env_explicit_missing_file_errors() {
    let result = load_env_file(Some("/definitely/not/here.env"), missing());
    assert!(result.is_err());
    assert_eq!(
        result.unwrap_err().message(),
        "invalid input: cannot load /definitely/not/here.env: No such file or directory (os error 2)"
    );
}

#[test]
fn parse_errors_never_echo_line_content() {
    let secret = "apikey_lonesecret_no_equals_sign";
    let err = load_env_file(
        Some("/tmp/jev-cli-env-test-broken-secret"),
        FileRead::Contents(format!("{secret}\n").into_bytes()),
    )
    .unwrap_err();
    let msg = err.message();
    assert!(!msg.contains(secret), "secret leaked into error: {msg}");
    assert!(msg.contains("line index"), "{msg}");
}

#[test]
fn malformed_line_reports_its_index_only() {
    let err = parse_allowlisted("f.env", b"TYPESAFE_API_KEY=\"unterminated\n").unwrap_err();
    match err {
        CliError::Usage(m) => {
            assert!(m.starts_with("f.env: malformed line at line index "), "{m}");
            assert!(m.ends_with("(line content suppressed: the file may hold credentials)"), "{m}");
            assert!(!m.contains("unterminated"), "{m}");
        }
        other => panic!("unexpected {other:?}"),
    }
}

#[test]
fn loads_variables_without_overriding_existing() {
    let vars = load_env_file(
        Some("basic"),
        FileRead::Contents(b"TYPESAFE_DEFAULT_MODEL=\"jev-from-file\"\n# comment\n".to_vec()),
    )
    .unwrap();
    assert_eq!(vars, vec![pair("TYPESAFE_DEFAULT_MODEL", "jev-from-file")]);

    // Set in the real environment: the environment wins, nothing is applied.
    let present = vec!["TYPESAFE_DEFAULT_MODEL".to_owned()];
    assert!(apply_missing(&vars, &present).is_empty());

    // Unset: the file value loads.
    assert_eq!(
        apply_missing(&vars, &Vec::new()),
        vec![pair("TYPESAFE_DEFAULT_MODEL", "jev-from-file")]
    );
}

#[test]
fn first_assignment_in_a_file_wins() {
    let vars = vec![
        pair("TYPESAFE_API_KEY", "first"),
        pair("TYPESAFE_DEFAULT_MODEL", "m"),
        pair("TYPESAFE_API_KEY", "second"),
    ];
    assert_eq!(
        apply_missing(&vars, &Vec::new()),
        vec![pair("TYPESAFE_API_KEY", "first"), pair("TYPESAFE_DEFAULT_MODEL", "m")]
    );
    assert_eq!(
        apply_missing(&vars, &vec!["TYPESAFE_API_KEY".to_owned()]),
        vec![pair("TYPESAFE_DEFAULT_MODEL", "m")]
    );
}

#[test]
fn base_url_cannot_be_set_from_env_file() {
    let vars = load_env_file(
        Some("allowlist"),
        FileRead::Contents(
            b"TYPESAFE_BASE_URL=https://evil.example\nTYPESAFE_API_KEY=planted-key\n".to_vec(),
        ),
    )
    .unwrap();
    assert!(vars.iter().all(|(k, _)| k != "TYPESAFE_BASE_URL"));
    assert_eq!(vars, vec![pair("TYPESAFE_API_KEY", "planted-key")]);
}

#[test]
fn unreadable_default_env_file_is_an_error() {
    let err = load_env_file(
        None,
        FileRead::Failed {
            reason: "Is a directory (os error 21)".to_owned(),
        },
    )
    .unwrap_err();
    assert_eq!(
        err.message(),
        "invalid input: cannot load .env: Is a directory (os error 21)"
    );
}

#[test]
fn env_wins_over_dotenv_which_wins_over_config() {
    // The real environment sets the model; .env sets the key; the user
    // config sets both. Loading .env first, then the config, each filling
    // only unset variables.
    let mut environment: Vec<(String, String)> = vec![pair("TYPESAFE_DEFAULT_MODEL", "from-env")];
    let present_keys = |environment: &Vec<(String, String)>, vars: &Vec<(String, String)>| {
        vars.iter()
            .filter(|(k, _)| environment.iter().any(|(e, _)| e == k))
            .map(|(k, _)| k.clone())
            .collect::<Vec<String>>()
    };

    let dotenv = load_env_file(
        None,
        FileRead::Contents(b"TYPESAFE_API_KEY=from-dotenv\n".to_vec()),
    )
    .unwrap();
    let present = present_keys(&environment, &dotenv);
    environment.extend(apply_missing(&dotenv, &present));

    let (config_vars, _) = jev_cli::config::load_config_file(
        "/home/u/.jevcli/jev.conf",
        false,
        FileRead::Contents(
            b"TYPESAFE_API_KEY=from-config\nTYPESAFE_DEFAULT_MODEL=from-config\n".to_vec(),
        ),
        Some(0o100600),
    )
    .unwrap();
    let present = present_keys(&environment, &config_vars);
    environment.extend(apply_missing(&config_vars, &present));

    assert_eq!(
        environment,
        vec![
            pair("TYPESAFE_DEFAULT_MODEL", "from-env"),
            pair("TYPESAFE_API_KEY", "from-dotenv"),
        ]
    );
}

#[test]
fn allowlisted_keeps_allowed_keys_and_stops_at_the_first_failure() {
    let ok = allowlisted(
        "p",
        vec![
            Ok(pair("OTHER", "x")),
            Ok(pair("TYPESAFE_API_KEY", "k")),
            Ok(pair("TYPESAFE_BASE_URL", "https://evil.example")),
        ],
    )
    .unwrap();
    assert_eq!(ok, vec![pair("TYPESAFE_API_KEY", "k")]);

    let err = allowlisted(
        "p",
        vec![
            Ok(pair("TYPESAFE_API_KEY", "k")),
            Err(DotenvFailure::LineParse { index: 7 }),
            Err(DotenvFailure::Other {
                text: "later".to_owned(),
            }),
        ],
    )
    .unwrap_err();
    assert_eq!(
        err.message(),
        "invalid input: p: malformed line at line index 7 \
         (line content suppressed: the file may hold credentials)"
    );

    let err = allowlisted(
        "p",
        vec![Err(DotenvFailure::Other {
            text: "stream did not contain valid UTF-8".to_owned(),
        })],
    )
    .unwrap_err();
    assert_eq!(
        err.message(),
        "invalid input: cannot load p: stream did not contain valid UTF-8"
    );
}

#[test]
fn parse_keeps_allowlisted_assignments_in_file_order() {
    let vars = parse_allowlisted(
        "f.env",
        b"TYPESAFE_BASE_URL=http://evil.example\nTYPESAFE_API_KEY=k\nOTHER=1\nTYPESAFE_DEFAULT_MODEL=m\n",
    )
    .unwrap();
    assert_eq!(
        vars,
        vec![pair("TYPESAFE_API_KEY", "k"), pair("TYPESAFE_DEFAULT_MODEL", "m")]
    );
}

#[test]
fn parse_reports_the_first_malformed_line_by_index() {
    let err = parse_allowlisted("f.env", b"TYPESAFE_API_KEY=k\nbroken\nalso=\"open\n").unwrap_err();
    assert_eq!(
        err.message(),
        "invalid input: f.env: malformed line at line index 6 \
         (line content suppressed: the file may hold credentials)"
    );
}

#[test]
fn parse_reports_undecodable_contents_as_cannot_load() {
    let err = parse_allowlisted("f.env", b"TYPESAFE_API_KEY=\xff\xfe\n").unwrap_err();
    match err {
        CliError::Usage(m) => assert!(m.starts_with("cannot load f.env: "), "{m}"),
        other => panic!("unexpected {other:?}"),
    }
}

#[test]
fn parse_with_a_reference_keeps_the_allowlisted_keys() {
    let vars = parse_allowlisted(
        "f.env",
        b"TYPESAFE_DEFAULT_MODEL=jev-latest\nTYPESAFE_API_KEY=${TYPESAFE_DEFAULT_MODEL}-key\nOTHER=$HOME\n",
    )
    .unwrap();
    let keys: Vec<&str> = vars.iter().map(|(k, _)| k.as_str()).collect();
    assert_eq!(keys, ["TYPESAFE_DEFAULT_MODEL", "TYPESAFE_API_KEY"]);
}
