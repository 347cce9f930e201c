//! Resolving the evaluation *state* from command-line input.
//!
//! The state can be supplied as inline text (`--state`), inline JSON
//! (`--state-json`), or a file (`--state-file`, `-` for stdin). Reads are
//! bounded: anything past the cap is an error, not a silent truncation.
use vstd::prelude::*;
use vstd::utf8::{decode_utf8, valid_utf8};

use crate::error::{is_usage, CliError};
use crate::json::{
    json_compact_text, json_document_error, json_string_value, parse_json_compact,
    parse_json_string,
};
use crate::text::{concat_str, decimal, is_blank, push_decimal, push_str, str_is_blank};

verus! {

/// States larger than this are refused (16 MiB).
pub const MAX_STATE_BYTES: u64 = 16 * 1024 * 1024;

/// How the state was supplied on the command line. Exactly one source must
/// be set.
#[derive(Debug, Clone, Default)]
pub struct StateInput {
    /// Inline plain-text state (`--state`).
    pub state: Option<String>,
    /// Inline JSON state (`--state-json`).
    pub state_json: Option<String>,
    /// State read from a file, `-` for stdin (`--state-file`).
    pub state_file: Option<String>,
}

/// A resolved state source.
#[derive(Debug)]
pub enum StateSource {
    /// Plain text, sent as a JSON string.
    Text(String),
    /// A JSON value, as the compact text of the parsed document.
    Json(String),
    /// A file to read (`-` for stdin); its text is the state.
    File(String),
}

/// The usage error for a blank state.
pub open spec fn empty_state_message(what: Seq<char>) -> Seq<char> {
    what + " is empty; the state must describe the situation to evaluate"@
}

/// The usage error when no state source is given.
pub open spec fn no_state_message() -> Seq<char> {
    "no state provided: pass --state, --state-json, or --state-file (\"-\" reads stdin)"@
}

/// The usage error when several state sources are given.
pub open spec fn several_states_message() -> Seq<char> {
    "choose exactly one of --state, --state-json, or --state-file"@
}

/// Refuse empty states: evaluating nothing is always a mistake.
pub fn non_empty<'a>(text: &'a str, what: &str) -> (r: Result<&'a str, CliError>)
    ensures
        !is_blank(text@) ==> (r matches Ok(t) && t@ == text@),
        is_blank(text@) ==> (r matches Err(e) && is_usage(e, empty_state_message(what@))),
{
    if str_is_blank(text) {
        let m = concat_str(what, " is empty; the state must describe the situation to evaluate");
        return Err(CliError::Usage(m));
    }
    Ok(text)
}

impl StateInput {
    /// Resolve the state source. A file source is returned as the path to
    /// read; its text (see [`text_from_source`]) is the state.
    pub fn resolve(&self) -> (r: Result<StateSource, CliError>)
        ensures
            match (self.state, self.state_json, self.state_file) {
                (Some(t), None, None) => if is_blank(t@) {
                    r matches Err(e) && is_usage(e, empty_state_message("--state"@))
                } else {
                    r matches Ok(StateSource::Text(s)) && s@ == t@
                },
                (None, Some(j), None) => {
                    &&& json_compact_text(j@) is None ==> (r matches Err(e) && is_usage(
                        e,
                        "--state-json is not valid JSON: "@ + json_document_error(j@),
                    ))
                    &&& json_compact_text(j@) matches Some(c) ==> if json_string_value(j@) matches Some(s) && is_blank(
                        s,
                    ) {
                        r matches Err(e) && is_usage(e, empty_state_message("--state-json"@))
                    } else {
                        r matches Ok(StateSource::Json(t)) && t@ == c
                    }
                },
                (None, None, Some(p)) => r matches Ok(StateSource::File(q)) && q@ == p@,
                (None, None, None) => r matches Err(e) && is_usage(e, no_state_message()),
                _ => r matches Err(e) && is_usage(e, several_states_message()),
            },
    {
        match (&self.state, &self.state_json, &self.state_file) {
            (Some(text), None, None) => {
                let t = non_empty(text.as_str(), "--state")?;
                Ok(StateSource::Text(t.to_owned()))
            },
            (None, Some(raw), None) => {
                match parse_json_compact(raw.as_str()) {
                    Err(text) => {
                        let m = concat_str("--state-json is not valid JSON: ", text.as_str());
                        assert(m@ == "--state-json is not valid JSON: "@ + text@);
                        Err(CliError::Usage(m))
                    },
                    Ok(compact) => {
                        if let Some(s) = parse_json_string(raw.as_str()) {
                            non_empty(s.as_str(), "--state-json")?;
                        }
                        Ok(StateSource::Json(compact))
                    },
                }
            },
            (None, None, Some(path)) => Ok(StateSource::File(path.clone())),
            (None, None, None) => Err(
                CliError::Usage(
                    "no state provided: pass --state, --state-json, or --state-file (\"-\" reads stdin)".to_owned(),
                ),
            ),
            _ => Err(
                CliError::Usage(
                    "choose exactly one of --state, --state-json, or --state-file".to_owned(),
                ),
            ),
        }
    }
}

/// The usage error for input past the byte cap.
pub open spec fn limit_message(limit: u64) -> Seq<char> {
    "input exceeds the "@ + decimal(limit as nat) + "-byte limit"@
}

/// The usage error for bytes that are not UTF-8.
pub open spec fn not_utf8_message() -> Seq<char> {
    "input is not valid UTF-8 text"@
}

/// `String::from_utf8`: the decoded text exactly when the bytes are valid
/// UTF-8, as std documents.
#[verifier::external_body]
fn string_from_utf8(bytes: Vec<u8>) -> (r: Option<String>)
    ensures
        r is Some <==> valid_utf8(bytes@),
        r matches Some(s) ==> s@ == decode_utf8(bytes@),
{
    String::from_utf8(bytes).ok()
}

/// Decode what a capped read produced (the reader reads at most
/// `limit + 1` bytes): more than `limit` bytes is an error, and the bytes
/// must be UTF-8.
pub fn decode_limited(buf: Vec<u8>, limit: u64) -> (r: Result<String, CliError>)
    ensures
        buf.len() > limit ==> (r matches Err(e) && is_usage(e, limit_message(limit))),
        buf.len() <= limit && !valid_utf8(buf@) ==> (r matches Err(e) && is_usage(
            e,
            not_utf8_message(),
        )),
        buf.len() <= limit && valid_utf8(buf@) ==> (r matches Ok(s) && s@ == decode_utf8(buf@)),
{
    if buf.len() as u64 > limit {
        let mut m = "input exceeds the ".to_owned();
        push_decimal(&mut m, limit);
        push_str(&mut m, "-byte limit");
        return Err(CliError::Usage(m));
    }
    match string_from_utf8(buf) {
        Some(s) => Ok(s),
        None => Err(CliError::Usage("input is not valid UTF-8 text".to_owned())),
    }
}

/// The usage error for a blank input source.
pub open spec fn empty_source_message(what: Seq<char>) -> Seq<char> {
    what + " is empty"@
}

/// The text of a source (file or stdin) read with a cap of `limit` bytes;
/// `what` names the input in errors ("state", "request document", ...).
pub fn text_from_source(buf: Vec<u8>, limit: u64, what: &str) -> (r: Result<String, CliError>)
    ensures
        buf.len() > limit ==> (r matches Err(e) && is_usage(e, limit_message(limit))),
        buf.len() <= limit && !valid_utf8(buf@) ==> (r matches Err(e) && is_usage(
            e,
            not_utf8_message(),
        )),
        buf.len() <= limit && valid_utf8(buf@) ==> if is_blank(decode_utf8(buf@)) {
            r matches Err(e) && is_usage(e, empty_source_message(what@))
        } else {
            r matches Ok(s) && s@ == decode_utf8(buf@)
        },
{
    let text = decode_limited(buf, limit)?;
    if str_is_blank(text.as_str()) {
        return Err(CliError::Usage(concat_str(what, " is empty")));
    }
    Ok(text)
}

} // verus!
