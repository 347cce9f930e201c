//! Output formats.
use vstd::prelude::*;

use crate::error::CliError;
use crate::json::json_error_text;
use crate::run::opt_view;
use crate::text::{concat_str, push_char, push_str};

verus! {

/// Output format (`--format`).
#[derive(Debug, Clone, Copy, PartialEq, Eq, Structural)]
pub enum OutputFormat {
    /// A full JSON document (default; what agents should parse).
    Json,
    /// Just the primary answer value on one line (for shell capture).
    Text,
}

impl OutputFormat {
    /// The flag value naming this format: `json` or `text`.
    pub fn name(&self) -> (r: String)
        ensures
            r@ == (match self {
                OutputFormat::Json => "json"@,
                OutputFormat::Text => "text"@,
            }),
    {
        match self {
            OutputFormat::Json => "json".to_owned(),
            OutputFormat::Text => "text".to_owned(),
        }
    }
}


/// A model available to the account, as plain text fields.
#[derive(Debug, Clone, PartialEq, Eq)]
pub struct ModelCard {
    /// The model name to pass as `model` in requests.
    pub name: String,
    /// A human-readable description of the model.
    pub description: String,
    /// RFC 3339 release timestamp.
    pub release_date: String,
}

/// The view of a model card: name, description, release date.
pub open spec fn card_view(c: ModelCard) -> (Seq<char>, Seq<char>, Seq<char>) {
    (c.name@, c.description@, c.release_date@)
}

/// The models a `list_models` response holds, in order, each as name,
/// description and release date.
pub uninterp spec fn listed_models(r: jev_sdk::ListModelsResponse) -> Seq<
    (Seq<char>, Seq<char>, Seq<char>),
>;

/// The models of a `list_models` response, as plain values in order.
#[verifier::external_body]
fn model_cards(r: &jev_sdk::ListModelsResponse) -> (cards: Vec<ModelCard>)
    ensures
        cards@.map_values(|c: ModelCard| card_view(c)) == listed_models(*r),
{
    r.models.iter().map(|m| ModelCard {
        name: m.name.clone(),
        description: m.description.clone(),
        release_date: m.release_date.clone(),
    }).collect()
}

/// One text line per model: `name <TAB> release_date <TAB> description`.
pub open spec fn models_text_of(models: Seq<(Seq<char>, Seq<char>, Seq<char>)>) -> Seq<char>
    decreases models.len(),
{
    if models.len() == 0 {
        seq![]
    } else {
        let m = models.last();
        models_text_of(models.drop_last()) + m.0 + seq!['\t'] + m.2 + seq!['\t'] + m.1 + seq![
            '\n',
        ]
    }
}

/// One line per model, each from that same model: no model renders as
/// nothing, and the text for the first `i + 1` models is the text for the
/// first `i` followed by model `i`'s name, a tab, its release date, a tab,
/// its description and a newline.
pub proof fn law_models_text_lines(models: Seq<(Seq<char>, Seq<char>, Seq<char>)>, i: int)
    requires
        0 <= i < models.len(),
    ensures
        models_text_of(Seq::<(Seq<char>, Seq<char>, Seq<char>)>::empty()) == Seq::<char>::empty(),
        models_text_of(models.take(i + 1)) == models_text_of(models.take(i)) + models[i].0
            + seq!['\t'] + models[i].2 + seq!['\t'] + models[i].1 + seq!['\n'],
        models_text_of(models.take(models.len() as int)) == models_text_of(models),
{
    assert(models.take(i + 1).drop_last() =~= models.take(i));
    assert(models.take(i + 1).last() == models[i]);
    assert(models.take(models.len() as int) =~= models);
}

/// Render models as tab-separated lines (see [`models_text_of`]).
pub fn models_text(cards: &Vec<ModelCard>) -> (r: String)
    ensures
        r@ == models_text_of(cards@.map_values(|c: ModelCard| card_view(c))),
{
    let ghost views = cards@.map_values(|c: ModelCard| card_view(c));
    let mut out = String::new();
    let n = cards.len();
    let mut i: usize = 0;
    while i < n
        invariant
            i <= n,
            n == cards.len(),
            views == cards@.map_values(|c: ModelCard| card_view(c)),
            out@ == models_text_of(views.take(i as int)),
        decreases n - i,
    {
        let c = &cards[i];
        push_str(&mut out, c.name.as_str());
        push_char(&mut out, '\t');
        push_str(&mut out, c.release_date.as_str());
        push_char(&mut out, '\t');
        push_str(&mut out, c.description.as_str());
        push_char(&mut out, '\n');
        assert(views.take(i + 1).drop_last() =~= views.take(i as int));
        assert(views.take(i + 1).last() == card_view(*c));
        assert(out@ =~= models_text_of(views.take(i + 1)));
        i = i + 1;
    }
    assert(views.take(n as int) =~= views);
    out
}

/// The pretty-printed JSON document (`serde_json::to_string_pretty`) of a
/// `list_models` response holding `models`; `None` if serialization fails.
pub uninterp spec fn models_json_text(models: Seq<(Seq<char>, Seq<char>, Seq<char>)>) -> Option<
    Seq<char>,
>;

/// `serde_json::to_string_pretty` of a `list_models` response: its text is
/// a function of the models it lists (the response has no other field).
#[verifier::external_body]
fn models_pretty_json(r: &jev_sdk::ListModelsResponse) -> (t: Option<String>)
    ensures
        opt_view(t) == models_json_text(listed_models(*r)),
{
    serde_json::to_string_pretty(r).ok()
}

/// What [`pretty`] prints for a rendered document: the text, or `null`
/// for a document that could not be rendered, and a newline.
pub open spec fn pretty_of(text: Option<Seq<char>>) -> Seq<char> {
    match text {
        Some(t) => t + "\n"@,
        None => "null\n"@,
    }
}

/// A rendered JSON document and a newline; a document that could not be
/// rendered (`None`) prints as `null`.
pub fn pretty(text: Option<String>) -> (r: String)
    ensures
        r@ == pretty_of(opt_view(text)),
{
    match text {
        Some(t) => {
            let mut out = t;
            push_str(&mut out, "\n");
            out
        },
        None => "null\n".to_owned(),
    }
}

/// Render a `models` response: tab-separated lines for `text`, the
/// response as pretty JSON for `json`.
pub fn models_output(format: OutputFormat, response: &jev_sdk::ListModelsResponse) -> (r: String)
    ensures
        format == OutputFormat::Text ==> r@ == models_text_of(listed_models(*response)),
        format == OutputFormat::Json ==> r@ == pretty_of(models_json_text(listed_models(*response))),
{
    match format {
        OutputFormat::Text => {
            let cards = model_cards(response);
            models_text(&cards)
        },
        OutputFormat::Json => pretty(models_pretty_json(response)),
    }
}

/// The message of the error for a response that could not be serialized.
pub open spec fn serialize_failure_message(text: Seq<char>) -> Seq<char> {
    "failed to serialize response: "@ + text
}

/// The pretty-printed JSON document (`serde_json::to_string_pretty`) of a
/// `system_one` response: its model, its answers in their `IndexMap`'s
/// insertion order, and its usage.
pub uninterp spec fn response_json_text(r: jev_sdk::SystemOneResponse) -> Seq<char>;

/// `serde_json::to_string_pretty` of a `system_one` response. It succeeds:
/// the response's `Serialize` impls are derived, every map key is a
/// `String`, and serde_json writes a non-finite float as `null`. Its maps
/// are `IndexMap`s, written in insertion order, so the text is a function
/// of the response.
#[verifier::external_body]
fn response_pretty_json(r: &jev_sdk::SystemOneResponse) -> (t: Result<String, serde_json::Error>)
    ensures
        t is Ok,
        t->Ok_0@ == response_json_text(*r),
{
    serde_json::to_string_pretty(r)
}

/// The `ask` output for the outcome of rendering the response: the document
/// and a newline, or an unexpected-response error carrying serde's message.
pub fn ask_output_from(rendered: Result<String, serde_json::Error>) -> (r: Result<String, CliError>)
    ensures
        match rendered {
            Ok(t) => r matches Ok(s) && s@ == pretty_of(Some(t@)),
            Err(_) => r matches Err(CliError::Unexpected(m)) && exists|t: Seq<char>|
                m@ == serialize_failure_message(t),
        },
{
    match rendered {
        Ok(t) => Ok(pretty(Some(t))),
        Err(e) => {
            let text = json_error_text(&e);
            let m = concat_str("failed to serialize response: ", text.as_str());
            assert(m@ == serialize_failure_message(text@));
            Err(CliError::Unexpected(m))
        },
    }
}

/// Render an `ask` response: the full response document, always JSON (see
/// [`ask_output_from`]).
pub fn ask_output(response: &jev_sdk::SystemOneResponse) -> (r: Result<String, CliError>)
    ensures
        r matches Ok(s) && s@ == response_json_text(*response) + "\n"@,
{
    ask_output_from(response_pretty_json(response))
}

} // verus!
