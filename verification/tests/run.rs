use jev_cli::run::{
    choose_model, parse_option_specs, validate_question, OptionSpec, ScoreOptions,
};
use jev_cli::{CliError, OutputFormat, StateInput};

#[test]
fn option_specs_parse_names_and_descriptions() {
    let specs = parse_option_specs(&[
        "retry".to_owned(),
        "fallback=Use the cached response".to_owned(),
        "abort=".to_owned(), // empty description means none
        "explain=Split on the FIRST '=' only: a=b".to_owned(),
    ])
    .unwrap();
    assert_eq!(
        specs,
        vec![
            OptionSpec {
                name: "retry".into(),
                description: None
            },
            OptionSpec {
                name: "fallback".into(),
                description: Some("Use the cached response".into())
            },
            OptionSpec {
                name: "abort".into(),
                description: None
            },
            OptionSpec {
                name: "explain".into(),
                description: Some("Split on the FIRST '=' only: a=b".into())
            },
        ]
    );
}

#[test]
fn option_specs_reject_too_few_empty_and_duplicate() {
    assert!(parse_option_specs(&["only".to_owned()]).is_err());
    assert!(parse_option_specs(&["a".to_owned(), "  ".to_owned()]).is_err());
    assert!(parse_option_specs(&["a".to_owned(), "a=again".to_owned()]).is_err());
    assert!(parse_option_specs(&["=no-name".to_owned(), "b".to_owned()]).is_err());
}

fn usage_message(e: CliError) -> String {
    match e {
        CliError::Usage(m) => m,
        other => panic!("expected a usage error, got {:?}", other),
    }
}

#[test]
fn option_spec_errors_name_the_problem() {
    let too_few = parse_option_specs(&["only".to_owned()]).unwrap_err();
    assert_eq!(usage_message(too_few), "choose needs at least two --option values");
    let dup = parse_option_specs(&[" a ".to_owned(), "b".to_owned(), "a=again".to_owned()])
        .unwrap_err();
    assert_eq!(usage_message(dup), "duplicate option \"a\"");
    let empty = parse_option_specs(&["a".to_owned(), " = x".to_owned()]).unwrap_err();
    assert_eq!(
        usage_message(empty),
        "option names must not be empty (use --option NAME or --option NAME=DESCRIPTION)"
    );
    // The first problem in order is the one reported.
    let first = parse_option_specs(&["a".to_owned(), "a".to_owned(), "".to_owned()]).unwrap_err();
    assert!(usage_message(first).starts_with("duplicate option"));
}

#[test]
fn option_specs_trim_unicode_whitespace() {
    let specs =
        parse_option_specs(&["\u{a0}retry\t=\u{3000}soon \n".to_owned(), "x".to_owned()]).unwrap();
    assert_eq!(specs[0].name, "retry");
    assert_eq!(specs[0].description.as_deref(), Some("soon"));
    assert_eq!(specs[1].description, None);
}

#[test]
fn predict_requires_a_question() {
    assert!(validate_question("   ").is_err());
    assert!(validate_question("Will it work?").is_ok());
}

fn score_opts(question: &str, levels: &[&str]) -> ScoreOptions {
    ScoreOptions {
        question: question.into(),
        levels: levels.iter().map(|l| l.to_string()).collect(),
        state: StateInput::default(),
        format: OutputFormat::Json,
        model: None,
    }
}

#[test]
fn score_options_validate() {
    assert!(score_opts("How risky?", &["low", "high"]).validate().is_ok());
    assert_eq!(
        usage_message(score_opts(" ", &["low", "high"]).validate().unwrap_err()),
        "--question must not be empty"
    );
    assert_eq!(
        usage_message(score_opts("q", &["only"]).validate().unwrap_err()),
        "score needs at least two --level values, ordered lowest to highest"
    );
    assert_eq!(
        usage_message(score_opts("q", &["low", "  "]).validate().unwrap_err()),
        "--level values must not be empty"
    );
}

#[test]
fn model_flag_wins_over_document_and_default() {
    assert_eq!(choose_model(Some("cli-model"), Some("doc-model"), "jev-latest"), "cli-model");
    assert_eq!(choose_model(None, Some("doc-model"), "jev-latest"), "doc-model");
    assert_eq!(choose_model(None, None, "jev-latest"), "jev-latest");
}

#[test]
fn exit_codes_are_distinct() {
    assert_eq!(jev_cli::EXIT_OK, 0);
    assert_eq!(jev_cli::EXIT_NOT_MET, 1);
    assert_eq!(jev_cli::EXIT_ERROR, 2);
}

#[test]
fn predict_question_carries_criteria_only_when_given() {
    let plain = jev_cli::run::predict_question("Will it work?", None, None);
    assert_eq!(
        serde_json::to_string(&plain).unwrap(),
        r#"{"type":"noul","instructions":"Will it work?"}"#
    );
    let hinted = jev_cli::run::predict_question("Will it work?", Some("ships".into()), None);
    assert_eq!(
        serde_json::to_string(&hinted).unwrap(),
        r#"{"type":"noul","instructions":"Will it work?","criteria":{"true":"ships"}}"#
    );
}

#[test]
fn choice_question_keeps_option_order() {
    let specs = parse_option_specs(&[
        "retry=Retry with backoff".to_owned(),
        "abort".to_owned(),
        "fallback=Use the cache".to_owned(),
    ])
    .unwrap();
    let q = jev_cli::run::choice_question("Which approach?", &specs);
    let v = serde_json::to_value(&q).unwrap();
    assert_eq!(v["type"], "choice");
    assert_eq!(v["instructions"], "Which approach?");
    let names: Vec<_> = v["criteria"].as_object().unwrap().keys().cloned().collect();
    assert_eq!(names, ["retry", "abort", "fallback"]);
    assert_eq!(v["criteria"]["abort"], serde_json::Value::Null);
    assert_eq!(v["criteria"]["retry"], "Retry with backoff");
}

#[test]
fn choice_options_keep_names_and_descriptions_in_order() {
    let specs = parse_option_specs(&["retry=Retry with backoff".to_owned(), "abort".to_owned()])
        .unwrap();
    assert_eq!(
        jev_cli::run::choice_options(&specs),
        vec![
            ("retry".to_owned(), Some("Retry with backoff".to_owned())),
            ("abort".to_owned(), None)
        ]
    );
}

#[test]
fn score_question_keeps_levels_in_order() {
    let q = jev_cli::run::score_question("How risky?", &vec!["low".to_owned(), "high".to_owned()]);
    assert_eq!(
        serde_json::to_string(&q).unwrap(),
        r#"{"type":"score","instructions":"How risky?","criteria":["low","high"]}"#
    );
}

#[test]
fn client_builder_for_sets_only_the_given_model() {
    let with = format!("{:?}", jev_cli::run::client_builder_for(Some("jev-x")));
    assert!(with.contains("model: Some(\"jev-x\")"), "{with}");
    let without = format!("{:?}", jev_cli::run::client_builder_for(None));
    assert!(without.contains("model: None"), "{without}");
}

#[test]
fn choice_question_holds_a_repeated_name_once_with_its_last_description() {
    let specs = vec![
        OptionSpec { name: "a".to_owned(), description: Some("first".to_owned()) },
        OptionSpec { name: "b".to_owned(), description: None },
        OptionSpec { name: "a".to_owned(), description: Some("last".to_owned()) },
    ];
    let q = jev_cli::run::choice_question("Pick", &specs);
    assert_eq!(
        serde_json::to_string(&q).unwrap(),
        r#"{"type":"choice","instructions":"Pick","criteria":{"a":"last","b":null}}"#
    );
}
