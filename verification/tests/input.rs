use jev_cli::input::{decode_limited, non_empty, text_from_source, StateInput, StateSource};
use jev_cli::{CliError, MAX_STATE_BYTES};

#[test]
fn read_limited_accepts_up_to_the_cap() {
    let data: &[u8] = b"hello world";
    let text = decode_limited(data.to_vec(), data.len() as u64).unwrap();
    assert_eq!(text, "hello world");
}

#[test]
fn read_limited_errors_past_the_cap() {
    let data: &[u8] = b"hello world";
    let err = decode_limited(data.to_vec(), 5).unwrap_err();
    assert!(matches!(err, CliError::Usage(_)));
    assert!(err.message().contains("limit"), "{}", err.message());
    assert_eq!(err.message(), "invalid input: input exceeds the 5-byte limit");
}

#[test]
fn read_limited_rejects_non_utf8() {
    let data: &[u8] = &[0xff, 0xfe, 0x00];
    assert!(decode_limited(data.to_vec(), 1024).is_err());
}

#[test]
fn read_limited_decodes_multibyte_text() {
    let text = decode_limited("héllo ✓".as_bytes().to_vec(), 64).unwrap();
    assert_eq!(text, "héllo ✓");
}

#[test]
fn resolve_requires_exactly_one_source() {
    let err = StateInput::default().resolve().unwrap_err();
    assert!(err.message().contains("no state"), "{}", err.message());
    let both = StateInput {
        state: Some("a".into()),
        state_json: Some(r#"{"b":1}"#.into()),
        state_file: None,
    };
    assert!(both.resolve().is_err());
}

#[test]
fn resolve_inline_text_and_json() {
    let text = StateInput {
        state: Some("the situation".into()),
        ..Default::default()
    };
    match text.resolve().unwrap() {
        StateSource::Text(s) => assert_eq!(s, "the situation"),
        other => panic!("unexpected {other:?}"),
    }

    let json = StateInput {
        state_json: Some(r#"{"task":"deploy","risk":"low"}"#.into()),
        ..Default::default()
    };
    match json.resolve().unwrap() {
        StateSource::Json(t) => {
            assert_eq!(t, r#"{"task":"deploy","risk":"low"}"#);
            let v: serde_json::Value = serde_json::from_str(&t).unwrap();
            assert_eq!(v["task"], "deploy");
        }
        other => panic!("unexpected {other:?}"),
    }
}

#[test]
fn resolve_rejects_empty_and_invalid() {
    let empty = StateInput {
        state: Some("   ".into()),
        ..Default::default()
    };
    assert!(empty.resolve().is_err());

    let bad_json = StateInput {
        state_json: Some("{nope".into()),
        ..Default::default()
    };
    let err = bad_json.resolve().unwrap_err();
    assert!(err.message().starts_with("invalid input: --state-json is not valid JSON: "));

    let blank_json_string = StateInput {
        state_json: Some(r#""  ""#.into()),
        ..Default::default()
    };
    assert!(blank_json_string.resolve().is_err());
}

#[test]
fn resolve_reads_files() {
    let input = StateInput {
        state_file: Some("/tmp/jev-cli-input-test-state.txt".into()),
        ..Default::default()
    };
    match input.resolve().unwrap() {
        StateSource::File(p) => assert_eq!(p, "/tmp/jev-cli-input-test-state.txt"),
        other => panic!("unexpected {other:?}"),
    }
    assert_eq!(
        text_from_source(b"file state".to_vec(), MAX_STATE_BYTES, "state").unwrap(),
        "file state"
    );
}

#[test]
fn state_file_size_cap_and_blank_source() {
    // A file past the cap is an error, not a truncation.
    let err = text_from_source(b"0123456789abcdef0".to_vec(), 16, "state").unwrap_err();
    assert!(err.message().contains("limit"), "{}", err.message());
    assert!(text_from_source(b"0123456789abcdef".to_vec(), 16, "state").is_ok());
    let err = text_from_source(b" \n\t".to_vec(), 16, "request document").unwrap_err();
    assert_eq!(err.message(), "invalid input: request document is empty");
}

#[test]
fn non_empty_names_the_input() {
    assert_eq!(non_empty("x", "--state").unwrap(), "x");
    let err = non_empty("\u{2003}", "--state").unwrap_err();
    assert_eq!(
        err.message(),
        "invalid input: --state is empty; the state must describe the situation to evaluate"
    );
}

#[test]
fn resolve_json_keeps_the_compact_document() {
    let json = StateInput {
        state_json: Some(" [1, 2,\n 3] ".into()),
        ..Default::default()
    };
    match json.resolve().unwrap() {
        StateSource::Json(t) => assert_eq!(t, "[1,2,3]"),
        other => panic!("unexpected {other:?}"),
    }
    let number = StateInput {
        state_json: Some("42".into()),
        ..Default::default()
    };
    match number.resolve().unwrap() {
        StateSource::Json(t) => assert_eq!(t, "42"),
        other => panic!("unexpected {other:?}"),
    }
}
