//! The few serde_json calls the library makes on plain text.
use vstd::prelude::*;

verus! {

/// The compact JSON text (`serde_json::Value`'s `Display`) of the document
/// that `text` holds, as `serde_json::from_str::<serde_json::Value>` parses
/// it; `None` when `text` is not one well-formed JSON document.
pub uninterp spec fn json_compact_text(text: Seq<char>) -> Option<Seq<char>>;

/// The message (`serde_json::Error`'s `Display`) of the error that
/// `serde_json::from_str::<serde_json::Value>` reports for `text`, when it
/// is not one well-formed JSON document.
pub uninterp spec fn json_document_error(text: Seq<char>) -> Seq<char>;

/// Parse a JSON document with `serde_json::from_str::<serde_json::Value>`
/// and render the value compactly; the error's message when it is not one
/// well-formed JSON document.
#[verifier::external_body]
pub(crate) fn parse_json_compact(text: &str) -> (r: Result<String, String>)
    ensures
        r is Ok <==> json_compact_text(text@) is Some,
        r matches Ok(t) ==> json_compact_text(text@) == Some(t@),
        r matches Err(m) ==> m@ == json_document_error(text@),
{
    serde_json::from_str::<serde_json::Value>(text).map(|v| v.to_string()).map_err(|e| e.to_string())
}

/// The content of the JSON string that `text` holds: `Some` exactly when
/// `text` is one well-formed JSON document that is a string.
pub uninterp spec fn json_string_value(text: Seq<char>) -> Option<Seq<char>>;

/// Parse a JSON document as a string with `serde_json::from_str::<String>`:
/// its content when the document is a JSON string, else `None`.
#[verifier::external_body]
pub(crate) fn parse_json_string(text: &str) -> (r: Option<String>)
    ensures
        match r {
            Some(s) => json_string_value(text@) == Some(s@),
            None => json_string_value(text@) is None,
        },
{
    serde_json::from_str::<String>(text).ok()
}

/// The text that `serde_json::Error`'s `Display` renders. Nothing is claimed
/// of it.
#[verifier::external_body]
pub(crate) fn json_error_text(e: &serde_json::Error) -> String {
    e.to_string()
}

/// The members, in document order, of the JSON object that `text` holds,
/// each value as `serde_json::Value`'s `Display` renders it (compact JSON);
/// `None` when `text` is not one well-formed JSON object. A key given more
/// than once keeps its first position and its last value.
pub uninterp spec fn json_object_members(text: Seq<char>) -> Option<Seq<(Seq<char>, Seq<char>)>>;

/// The view of a parsed member as its key and its value's compact text.
pub open spec fn member_view(m: (String, String)) -> (Seq<char>, Seq<char>) {
    (m.0@, m.1@)
}

/// The message (`serde_json::Error`'s `Display`) of the error that
/// `serde_json::from_str::<serde_json::Map<..>>` reports for `text`, when it
/// is not one well-formed JSON object.
pub uninterp spec fn json_object_error(text: Seq<char>) -> Seq<char>;

/// Parse a JSON object with `serde_json::from_str::<serde_json::Map<..>>`,
/// handing out its members in document order (serde_json keeps insertion
/// order with its `preserve_order` feature), each with its value's compact
/// text. Keys are distinct: a map holds each key once.
#[verifier::external_body]
pub(crate) fn parse_json_members(text: &str) -> (r: Result<Vec<(String, String)>, String>)
    ensures
        r is Ok <==> json_object_members(text@) is Some,
        r matches Ok(ms) ==> ms@.map_values(|m: (String, String)| member_view(m))
            == json_object_members(text@)->0,
        r matches Ok(ms) ==> forall|i: int, j: int|
            0 <= i < j < ms.len() ==> (#[trigger] ms@[i]).0@ != (#[trigger] ms@[j]).0@,
        r matches Err(m) ==> m@ == json_object_error(text@),
{
    serde_json::from_str::<serde_json::Map<String, serde_json::Value>>(text)
        .map(|m| m.into_iter().map(|(k, v)| (k, v.to_string())).collect())
        .map_err(|e| e.to_string())
}

/// The message of the error that decoding the JSON document `text` into a
/// typed SDK question reports (`serde_json::from_str::<Value>`, then
/// `serde_json::from_value::<jev_sdk::Question>`); `None` when it decodes.
pub uninterp spec fn question_decode_error(text: Seq<char>) -> Option<Seq<char>>;

/// The wire form of a typed SDK question: `serde_json::to_string` of it.
/// A choice question's criteria are an `IndexMap`, written in insertion
/// order, so the text is a function of what the question holds.
pub uninterp spec fn question_wire(q: jev_sdk::Question) -> Seq<char>;

/// The wire form (see [`question_wire`]) of the typed SDK question that
/// the JSON document `text` decodes into.
pub uninterp spec fn decoded_question_wire(text: Seq<char>) -> Seq<char>;

/// Decode the JSON document `text` into a typed SDK question: parse it as a
/// `serde_json::Value`, then `serde_json::from_value`. An error is handed
/// out as its `Display` text. The question itself is not named (a choice
/// question holds a map seeded with a fresh `RandomState`); its wire form
/// is.
#[verifier::external_body]
pub(crate) fn decode_question(text: &str) -> (r: Result<jev_sdk::Question, String>)
    ensures
        match r {
            Ok(_) => question_decode_error(text@) is None,
            Err(m) => question_decode_error(text@) == Some(m@),
        },
        r is Ok ==> question_wire(r->Ok_0) == decoded_question_wire(text@),
{
    serde_json::from_str::<serde_json::Value>(text)
        .and_then(serde_json::from_value::<jev_sdk::Question>)
        .map_err(|e| e.to_string())
}

} // verus!
