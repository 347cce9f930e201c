use jev_cli::{build_client, CliError};

#[test]
fn messages_carry_the_kind() {
    assert_eq!(CliError::Usage("x".into()).message(), "invalid input: x");
    assert_eq!(
        CliError::Unexpected("y".into()).message(),
        "unexpected API response: y"
    );
    let io = CliError::from(std::io::Error::new(std::io::ErrorKind::Other, "boom"));
    assert_eq!(io.message(), "io error: boom");
}

#[test]
fn client_without_a_usable_key_is_an_sdk_error() {
    // A blank explicit model falls back to the default; the build fails
    // only on configuration (missing key or bad base URL), never panics.
    match build_client(Some("jev-latest")) {
        Ok(client) => assert_eq!(client.model(), "jev-latest"),
        Err(e) => {
            assert!(matches!(e, CliError::Jev(_)));
            assert!(e.message().starts_with("typesafe API error: "));
        }
    }
}

#[test]
fn sdk_error_message_carries_the_sdk_text() {
    let e = CliError::Jev(jev_sdk::Error::Config("missing API key".to_owned()));
    assert_eq!(
        e.message(),
        "typesafe API error: configuration error: missing API key"
    );
}
