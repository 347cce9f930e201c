//! Errors returned by jev-cli.
use vstd::prelude::*;

use crate::text::concat_str;

verus! {

/// Errors returned by this crate.
#[derive(Debug)]
pub enum CliError {
    /// The TypeSafe API client failed.
    Jev(jev_sdk::Error),
    /// A local IO operation failed.
    Io(std::io::Error),
    /// A command-line or configuration value is invalid.
    Usage(String),
    /// The API responded successfully but with an unexpected shape.
    Unexpected(String),
}

/// What `jev_sdk::Error`'s `Display` renders (its variant's prefix and
/// the message it carries; for an API error, the status and message).
pub uninterp spec fn jev_error_display(e: jev_sdk::Error) -> Seq<char>;

/// The text that `jev_sdk::Error`'s `Display` renders.
#[verifier::external_body]
fn jev_error_text(e: &jev_sdk::Error) -> (r: String)
    ensures
        r@ == jev_error_display(*e),
{
    e.to_string()
}

/// The text that `std::io::Error`'s `Display` renders. Nothing is claimed of
/// the text: for an OS error it is the C library's message for the code,
/// which depends on the locale.
#[verifier::external_body]
fn io_error_text(e: &std::io::Error) -> String {
    e.to_string()
}

/// Whether `r` is a usage error with exactly the message `m`.
pub open spec fn is_usage(r: CliError, m: Seq<char>) -> bool {
    r matches CliError::Usage(s) && s@ == m
}

impl CliError {
    /// The human-readable message for this error (what `Display` would show).
    pub fn message(&self) -> (r: String)
        ensures
            match self {
                CliError::Jev(e) => r@ == "typesafe API error: "@ + jev_error_display(*e),
                CliError::Io(_) => exists|t: Seq<char>| r@ == "io error: "@ + t,
                CliError::Usage(m) => r@ == "invalid input: "@ + m@,
                CliError::Unexpected(m) => r@ == "unexpected API response: "@ + m@,
            },
    {
        match self {
            CliError::Jev(e) => {
                let t = jev_error_text(e);
                concat_str("typesafe API error: ", t.as_str())
            },
            CliError::Io(e) => {
                let t = io_error_text(e);
                concat_str("io error: ", t.as_str())
            },
            CliError::Usage(m) => concat_str("invalid input: ", m.as_str()),
            CliError::Unexpected(m) => concat_str("unexpected API response: ", m.as_str()),
        }
    }
}

impl From<jev_sdk::Error> for CliError {
    fn from(e: jev_sdk::Error) -> (r: CliError) {
        CliError::Jev(e)
    }
}

impl vstd::std_specs::convert::FromSpecImpl<jev_sdk::Error> for CliError {
    open spec fn obeys_from_spec() -> bool {
        true
    }

    open spec fn from_spec(e: jev_sdk::Error) -> CliError {
        CliError::Jev(e)
    }
}

impl From<std::io::Error> for CliError {
    fn from(e: std::io::Error) -> (r: CliError) {
        CliError::Io(e)
    }
}

impl vstd::std_specs::convert::FromSpecImpl<std::io::Error> for CliError {
    open spec fn obeys_from_spec() -> bool {
        true
    }

    open spec fn from_spec(e: std::io::Error) -> CliError {
        CliError::Io(e)
    }
}

} // verus!
