use jev_cli::output::{models_output, models_text, ModelCard};
use jev_cli::OutputFormat;
use jev_sdk::ListModelsResponse;

#[test]
fn models_text_is_tab_separated_lines() {
    let resp = ListModelsResponse {
        models: vec![jev_sdk::ModelCard {
            name: "jev-latest".into(),
            description: "The model".into(),
            release_date: "2026-01-01T00:00:00Z".into(),
        }],
    };
    assert_eq!(
        models_output(OutputFormat::Text, &resp),
        "jev-latest\t2026-01-01T00:00:00Z\tThe model\n"
    );
}

#[test]
fn models_json_is_the_response_document() {
    let resp = ListModelsResponse {
        models: vec![
            jev_sdk::ModelCard {
                name: "mock-jev".into(),
                description: "Mock model for tests".into(),
                release_date: "2026-01-01T00:00:00Z".into(),
            },
            jev_sdk::ModelCard {
                name: "mock-jev-small".into(),
                description: "Smaller mock".into(),
                release_date: "2025-06-01T00:00:00Z".into(),
            },
        ],
    };
    let out = models_output(OutputFormat::Json, &resp);
    assert!(out.ends_with('\n'));
    let v: serde_json::Value = serde_json::from_str(&out).unwrap();
    assert_eq!(v["models"][0]["name"], "mock-jev");
    assert_eq!(v["models"].as_array().unwrap().len(), 2);
    let text = models_output(OutputFormat::Text, &resp);
    assert!(text.starts_with("mock-jev\t2026-01-01"));
    assert_eq!(text.lines().count(), 2);
}

#[test]
fn models_text_of_no_models_is_empty() {
    assert_eq!(models_text(&Vec::new()), "");
    let cards = vec![ModelCard {
        name: "a".into(),
        description: "d".into(),
        release_date: "r".into(),
    }];
    assert_eq!(models_text(&cards), "a\tr\td\n");
}

#[test]
fn format_names() {
    assert_eq!(OutputFormat::Json.name(), "json");
    assert_eq!(OutputFormat::Text.name(), "text");
}

#[test]
fn models_json_is_the_pretty_models_document() {
    let resp = ListModelsResponse {
        models: vec![
            jev_sdk::ModelCard {
                name: "mock-jev".into(),
                description: "d".into(),
                release_date: "2026-01-01T00:00:00Z".into(),
            },
            jev_sdk::ModelCard {
                name: "other".into(),
                description: "e".into(),
                release_date: "2026-02-01T00:00:00Z".into(),
            },
        ],
    };
    let out = models_output(OutputFormat::Json, &resp);
    assert_eq!(
        out,
        "{\n  \"models\": [\n    {\n      \"name\": \"mock-jev\",\n      \"description\": \"d\",\n      \"release_date\": \"2026-01-01T00:00:00Z\"\n    },\n    {\n      \"name\": \"other\",\n      \"description\": \"e\",\n      \"release_date\": \"2026-02-01T00:00:00Z\"\n    }\n  ]\n}\n"
    );
    let v: serde_json::Value = serde_json::from_str(&out).unwrap();
    assert_eq!(v["models"][0]["name"], "mock-jev");
    assert_eq!(v["models"].as_array().unwrap().len(), 2);
}

#[test]
fn pretty_appends_a_newline_and_falls_back_to_null() {
    assert_eq!(jev_cli::output::pretty(Some("{}".to_owned())), "{}\n");
    assert_eq!(jev_cli::output::pretty(None), "null\n");
}

#[test]
fn ask_output_from_renders_or_reports_the_serialize_error() {
    assert_eq!(
        jev_cli::output::ask_output_from(Ok("{\"a\": 1}".to_owned())).unwrap(),
        "{\"a\": 1}\n"
    );
    let err = serde_json::from_str::<u8>("x").unwrap_err();
    match jev_cli::output::ask_output_from(Err(err)) {
        Err(jev_cli::CliError::Unexpected(m)) => {
            assert!(m.starts_with("failed to serialize response: "), "{m}")
        }
        other => panic!("unexpected {other:?}"),
    }
}

#[test]
fn ask_output_renders_the_whole_response() {
    let response = jev_sdk::SystemOneResponse {
        model: "jev-latest".to_owned(),
        answers: Default::default(),
        usage: jev_sdk::Usage { input_tokens: 10, output_tokens: 4 },
    };
    let out = jev_cli::output::ask_output(&response).unwrap();
    assert_eq!(
        out,
        "{\n  \"model\": \"jev-latest\",\n  \"answers\": {},\n  \"usage\": {\n    \"input_tokens\": 10,\n    \"output_tokens\": 4\n  }\n}\n"
    );
    let v: serde_json::Value = serde_json::from_str(&out).unwrap();
    assert_eq!(v["model"], "jev-latest");
    assert_eq!(v["usage"]["input_tokens"], 10);
}
