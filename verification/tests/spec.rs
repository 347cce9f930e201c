use jev_cli::spec::AskRequest;

#[test]
fn parses_a_full_document() {
    let raw = r#"{
        "state": {"task": "deploy v2"},
        "questions": {
            "ok": {"type": "noul", "instructions": "Will it work?"},
            "how": {"type": "choice", "instructions": "Which?",
                    "criteria": {"a": null, "b": "the other"}},
            "risk": {"type": "score", "instructions": "How risky?",
                     "criteria": ["low", "high"]}
        },
        "model": "jev-latest"
    }"#;
    let req = AskRequest::parse(raw).unwrap();
    assert_eq!(req.questions.len(), 3);
    assert_eq!(req.model.as_deref(), Some("jev-latest"));
    // Order preserved, and every question converts to a typed value.
    let typed = req.typed_questions().unwrap();
    let ids: Vec<_> = typed.iter().map(|(id, _)| id.as_str()).collect();
    assert_eq!(ids, ["ok", "how", "risk"]);
}

#[test]
fn rejects_unknown_top_level_fields() {
    let raw = r#"{"state": "s", "question": {}, "questions": {"q": {"type": "noul", "instructions": "i"}}}"#;
    let err = AskRequest::parse(raw).unwrap_err();
    assert!(err.message().contains("question"), "{}", err.message());
}

#[test]
fn rejects_empty_questions_and_empty_ids() {
    let no_questions = r#"{"state": "s", "questions": {}}"#;
    assert!(AskRequest::parse(no_questions).is_err());

    let empty_id = r#"{"state": "s", "questions": {" ": {"type": "noul", "instructions": "i"}}}"#;
    assert!(AskRequest::parse(empty_id).is_err());
}

#[test]
fn rejects_malformed_questions_with_context() {
    let raw = r#"{"state": "s", "questions": {"risk": {"type": "scor", "instructions": "i"}}}"#;
    let err = AskRequest::parse(raw).unwrap_err();
    let msg = err.message();
    assert!(msg.contains("risk"), "{msg}");
}

#[test]
fn rejects_missing_state() {
    let raw = r#"{"questions": {"q": {"type": "noul", "instructions": "i"}}}"#;
    assert!(AskRequest::parse(raw).is_err());
}

#[test]
fn document_shape_errors() {
    assert!(AskRequest::parse("not json").is_err());
    assert!(AskRequest::parse(r#"["s", {}]"#).is_err());
    assert!(AskRequest::parse(r#"{"state": "s"}"#).is_err());
    assert!(AskRequest::parse(r#"{"state": "s", "questions": []}"#).is_err());
    let bad_model = r#"{"state": "s", "questions": {"q": {"type": "noul", "instructions": "i"}}, "model": 3}"#;
    assert!(AskRequest::parse(bad_model).is_err());
    let blank_model = r#"{"state": "s", "questions": {"q": {"type": "noul", "instructions": "i"}}, "model": " "}"#;
    assert_eq!(
        AskRequest::parse(blank_model).unwrap_err().message(),
        "invalid input: \"model\" must not be empty"
    );
    let null_model = r#"{"state": "s", "questions": {"q": {"type": "noul", "instructions": "i"}}, "model": null}"#;
    assert_eq!(AskRequest::parse(null_model).unwrap().model, None);
}

#[test]
fn invalid_question_error_quotes_the_id() {
    let raw = r#"{"state": "s", "questions": {"ok": {"type": "noul", "instructions": "i"}, "risk": {"type": "scor"}}}"#;
    let msg = AskRequest::parse(raw).unwrap_err().message();
    assert!(
        msg.starts_with("invalid input: question \"risk\" is not a valid question: "),
        "{msg}"
    );
}

#[test]
fn validate_with_reports_the_first_bad_question() {
    let req = AskRequest::parse(
        r#"{"state": "s", "questions": {"a": {"type": "noul", "instructions": "i"}, "b": {"type": "noul", "instructions": "j"}}, "model": "m"}"#,
    )
    .unwrap();
    assert!(req.validate_with(&vec![None, None]).is_ok());
    assert_eq!(
        req.validate_with(&vec![None, Some("bad shape".to_owned())])
            .unwrap_err()
            .message(),
        "invalid input: question \"b\" is not a valid question: bad shape"
    );
    assert_eq!(
        req.validate_with(&vec![Some("first".to_owned()), Some("second".to_owned())])
            .unwrap_err()
            .message(),
        "invalid input: question \"a\" is not a valid question: first"
    );
}

#[test]
fn unknown_field_error_names_the_field() {
    let raw = r#"{"state": "s", "question": {}, "questions": {"q": {"type": "noul", "instructions": "i"}}}"#;
    assert_eq!(
        AskRequest::parse(raw).unwrap_err().message(),
        "invalid input: request document is not valid: unknown field `question`, expected one of `state`, `questions`, `model`"
    );
}

#[test]
fn missing_fields_are_named() {
    assert_eq!(
        AskRequest::parse(r#"{"questions": {"q": {"type": "noul", "instructions": "i"}}}"#)
            .unwrap_err()
            .message(),
        "invalid input: request document is not valid: missing field `state`"
    );
    assert_eq!(
        AskRequest::parse(r#"{"state": "s"}"#).unwrap_err().message(),
        "invalid input: request document is not valid: missing field `questions`"
    );
}

#[test]
fn parsed_questions_keep_ids_texts_and_state() {
    let req = AskRequest::parse(
        r#"{"state": {"task": "deploy v2"}, "questions": {"ok": {"type": "noul", "instructions": "Will it work?"}}, "model": "jev-latest"}"#,
    )
    .unwrap();
    assert_eq!(
        req.questions,
        vec![(
            "ok".to_owned(),
            r#"{"type":"noul","instructions":"Will it work?"}"#.to_owned()
        )]
    );
    assert_eq!(req.state, r#"{"task":"deploy v2"}"#);
    assert!(req.validate().is_ok());
}

#[test]
fn typed_questions_report_the_first_undecodable_question() {
    let req = AskRequest {
        state: "null".to_owned(),
        questions: vec![
            ("ok".to_owned(), r#"{"type":"noul","instructions":"i"}"#.to_owned()),
            ("bad".to_owned(), r#"{"type":"scor"}"#.to_owned()),
        ],
        model: None,
    };
    let msg = req.typed_questions().unwrap_err().message();
    assert!(msg.starts_with("invalid input: question \"bad\": "), "{msg}");
}

#[test]
fn typed_questions_keep_each_question_under_its_id() {
    let req = AskRequest::parse(
        r#"{"state": "s", "questions": {"a": {"type": "noul", "instructions": "first"}, "b": {"type": "score", "instructions": "second", "criteria": ["lo", "hi"]}}}"#,
    )
    .unwrap();
    let typed = req.typed_questions().unwrap();
    assert_eq!(typed[0].0, "a");
    assert_eq!(
        serde_json::to_string(&typed[0].1).unwrap(),
        r#"{"type":"noul","instructions":"first"}"#
    );
    assert_eq!(typed[1].0, "b");
    assert_eq!(
        serde_json::to_string(&typed[1].1).unwrap(),
        r#"{"type":"score","instructions":"second","criteria":["lo","hi"]}"#
    );
}
