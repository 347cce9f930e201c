//! Command options and the decisions that come before any network work.
use vstd::prelude::*;

use crate::error::{is_usage, CliError};
use crate::env::opt_str_view;
use crate::input::StateInput;
use crate::output::OutputFormat;
use crate::text::{
    chars_of, concat_str, debug_quoted, debug_str, is_blank, split_once, split_once_chars,
    str_is_blank, string_of, trim, trim_chars,
};

verus! {

/// The command succeeded.
pub const EXIT_OK: u8 = 0;

/// `predict`/`choose`: the answer fell below `--threshold` /
/// `--min-confidence`. The answer still prints; only the code differs.
pub const EXIT_NOT_MET: u8 = 1;

/// Tool, input, or API error. Nothing is printed to stdout.
pub const EXIT_ERROR: u8 = 2;

/// What a run produced: text for stdout and the exit code to exit with.
#[derive(Debug)]
pub struct Outcome {
    /// Text to print to stdout (already newline-terminated).
    pub stdout: String,
    /// Process exit code (`0` ok, `1` gate not met).
    pub code: u8,
}

/// A parsed `--option` value.
#[derive(Debug, Clone, PartialEq, Eq)]
pub struct OptionSpec {
    /// The option name (what the answer's `choice` will be).
    pub name: String,
    /// An optional description sharpening the option's meaning.
    pub description: Option<String>,
}

/// The view of an optional string.
pub open spec fn opt_view(o: Option<String>) -> Option<Seq<char>> {
    match o {
        Some(s) => Some(s@),
        None => None,
    }
}

/// The name an `--option` spec `name[=description]` declares: the trimmed
/// text before the first `=` (or the whole trimmed spec without one).
pub open spec fn option_name(raw: Seq<char>) -> Seq<char> {
    match split_once(raw, '=') {
        Some((n, _)) => trim(n),
        None => trim(raw),
    }
}

/// The description an `--option` spec declares: the trimmed text after the
/// first `=`, absent when there is no `=` or the text is blank.
pub open spec fn option_description(raw: Seq<char>) -> Option<Seq<char>> {
    match split_once(raw, '=') {
        Some((_, d)) => if trim(d).len() == 0 {
            None
        } else {
            Some(trim(d))
        },
        None => None,
    }
}

/// The names declared by a list of option specs.
pub open spec fn option_names(raw: Seq<String>) -> Seq<Seq<char>> {
    raw.map_values(|s: String| option_name(s@))
}

/// Spec `i` is acceptable: its name is non-empty and no earlier spec
/// declared the same name.
pub open spec fn option_ok_at(names: Seq<Seq<char>>, i: int) -> bool {
    &&& names[i].len() > 0
    &&& forall|j: int| 0 <= j < i ==> names[j] != names[i]
}

/// Spec `k` is the first unacceptable one.
pub open spec fn first_bad_option(names: Seq<Seq<char>>, k: int) -> bool {
    &&& 0 <= k < names.len()
    &&& !option_ok_at(names, k)
    &&& forall|i: int| 0 <= i < k ==> option_ok_at(names, i)
}

/// The usage error for too few `--option` values.
pub open spec fn too_few_options_message() -> Seq<char> {
    "choose needs at least two --option values"@
}

/// The usage error for an option spec with an empty name.
pub open spec fn empty_option_name_message() -> Seq<char> {
    "option names must not be empty (use --option NAME or --option NAME=DESCRIPTION)"@
}

/// The usage error for a repeated option name.
pub open spec fn duplicate_option_message(name: Seq<char>) -> Seq<char> {
    "duplicate option "@ + debug_str(name)
}

/// Parse one `name[=description]` option spec (names are not checked here).
fn parse_one_option(raw: &String) -> (r: OptionSpec)
    ensures
        r.name@ == option_name(raw@),
        opt_view(r.description) == option_description(raw@),
{
    let chars = chars_of(raw.as_str());
    match split_once_chars(&chars, '=') {
        Some((n, d)) => {
            let name = trim_chars(&n);
            let desc = trim_chars(&d);
            let description = if desc.len() == 0 {
                None
            } else {
                Some(string_of(&desc))
            };
            OptionSpec { name: string_of(&name), description }
        },
        None => {
            let name = trim_chars(&chars);
            OptionSpec { name: string_of(&name), description: None }
        },
    }
}

/// Parse `name[=description]` option specs: at least two, non-empty,
/// de-duplicated. `=` splits on the first occurrence; an empty description
/// after `=` is treated as absent.
pub fn parse_option_specs(raw: &[String]) -> (r: Result<Vec<OptionSpec>, CliError>)
    ensures
        raw.len() < 2 ==> (r matches Err(e) && is_usage(e, too_few_options_message())),
        raw.len() >= 2 ==> match r {
            Ok(specs) => {
                &&& specs.len() == raw.len()
                &&& forall|i: int|
                    0 <= i < raw.len() ==> option_ok_at(option_names(raw@), i)
                &&& forall|i: int| 0 <= i < raw.len() ==> (#[trigger] option_name(raw@[i]@)).len() > 0
                &&& forall|i: int, j: int|
                    0 <= i < j < raw.len() ==> #[trigger] option_name(raw@[i]@) != #[trigger] option_name(
                        raw@[j]@,
                    )
                &&& forall|i: int|
                    0 <= i < raw.len() ==> (#[trigger] specs@[i]).name@ == option_name(raw@[i]@)
                        && opt_view(specs@[i].description) == option_description(raw@[i]@)
            },
            Err(e) => exists|k: int|
                {
                    &&& #[trigger] first_bad_option(option_names(raw@), k)
                    &&& if option_name(raw@[k]@).len() == 0 {
                        is_usage(e, empty_option_name_message())
                    } else {
                        is_usage(e, duplicate_option_message(option_name(raw@[k]@)))
                    }
                },
        },
{
    if raw.len() < 2 {
        return Err(CliError::Usage("choose needs at least two --option values".to_owned()));
    }
    let ghost names = option_names(raw@);
    let mut specs: Vec<OptionSpec> = Vec::new();
    let n = raw.len();
    let mut i: usize = 0;
    while i < n
        invariant
            i <= n,
            n == raw.len(),
            n >= 2,
            names == option_names(raw@),
            specs.len() == i,
            forall|k: int| 0 <= k < i ==> option_ok_at(names, k),
            forall|k: int|
                0 <= k < i ==> (#[trigger] specs@[k]).name@ == names[k] && opt_view(
                    specs@[k].description,
                ) == option_description(raw@[k]@),
        decreases n - i,
    {
        let spec = parse_one_option(&raw[i]);
        assert(names[i as int] == option_name(raw@[i as int]@));
        if spec.name.as_str().is_empty() {
            assert(first_bad_option(names, i as int));
            return Err(
                CliError::Usage(
                    "option names must not be empty (use --option NAME or --option NAME=DESCRIPTION)".to_owned(),
                ),
            );
        }
        let mut j: usize = 0;
        while j < i
            invariant
                j <= i < n,
                specs.len() == i,
                n == raw.len(),
                names == option_names(raw@),
                spec.name@ == names[i as int],
                names[i as int].len() > 0,
                forall|k: int| 0 <= k < i ==> option_ok_at(names, k),
                forall|k: int| 0 <= k < i ==> (#[trigger] specs@[k]).name@ == names[k],
                forall|k: int| 0 <= k < j ==> names[k] != names[i as int],
            decreases i - j,
        {
            if specs[j].name == spec.name {
                assert(!option_ok_at(names, i as int));
                assert(first_bad_option(names, i as int));
                let quoted = debug_quoted(spec.name.as_str());
                let msg = concat_str("duplicate option ", quoted.as_str());
                assert(option_name(raw@[i as int]@).len() != 0);
                assert(msg@ == duplicate_option_message(option_name(raw@[i as int]@)));
                return Err(CliError::Usage(msg));
            }
            j = j + 1;
        }
        assert(option_ok_at(names, i as int));
        specs.push(spec);
        i = i + 1;
    }
    proof {
        assert forall|a: int, b: int| 0 <= a < b < raw.len() implies #[trigger] option_name(raw@[a]@)
            != #[trigger] option_name(raw@[b]@) by {
            assert(option_ok_at(names, b));
            assert(names[a] == option_name(raw@[a]@));
            assert(names[b] == option_name(raw@[b]@));
        }
        assert forall|a: int| 0 <= a < raw.len() implies (#[trigger] option_name(raw@[a]@)).len() > 0 by {
            assert(option_ok_at(names, a));
            assert(names[a] == option_name(raw@[a]@));
        }
    }
    Ok(specs)
}

/// Option specs are accepted exactly when their names are non-empty and
/// pairwise distinct: every spec is acceptable if and only if no name is
/// empty and no two specs, wherever they stand, declare the same name.
pub proof fn law_option_names_distinct(names: Seq<Seq<char>>)
    ensures
        (forall|i: int| 0 <= i < names.len() ==> option_ok_at(names, i)) <==> (forall|i: int|
            0 <= i < names.len() ==> (#[trigger] names[i]).len() > 0) && (forall|i: int, j: int|
            0 <= i < j < names.len() ==> #[trigger] names[i] != #[trigger] names[j]),
{
    if forall|i: int| 0 <= i < names.len() ==> option_ok_at(names, i) {
        assert forall|i: int, j: int| 0 <= i < j < names.len() implies #[trigger] names[i]
            != #[trigger] names[j] by {
            assert(option_ok_at(names, j));
        }
        assert forall|i: int| 0 <= i < names.len() implies (#[trigger] names[i]).len() > 0 by {
            assert(option_ok_at(names, i));
        }
    }
}

/// The usage error for a blank `--question`.
pub open spec fn empty_question_message() -> Seq<char> {
    "--question must not be empty"@
}

/// Check that a question is not blank.
pub fn validate_question(question: &str) -> (r: Result<(), CliError>)
    ensures
        r is Ok <==> !is_blank(question@),
        r matches Err(e) ==> is_usage(e, empty_question_message()),
{
    if str_is_blank(question) {
        return Err(CliError::Usage("--question must not be empty".to_owned()));
    }
    Ok(())
}

/// `jev-cli score`: rate the state against ordered rubric levels.
#[derive(Debug)]
pub struct ScoreOptions {
    /// What to rate.
    pub question: String,
    /// Ordered level descriptions, lowest first (at least two).
    pub levels: Vec<String>,
    /// The situation to evaluate.
    pub state: StateInput,
    /// Output format.
    pub format: OutputFormat,
    /// Model override.
    pub model: Option<String>,
}

/// The usage error for fewer than two `--level` values.
pub open spec fn too_few_levels_message() -> Seq<char> {
    "score needs at least two --level values, ordered lowest to highest"@
}

/// The usage error for a blank `--level` value.
pub open spec fn empty_level_message() -> Seq<char> {
    "--level values must not be empty"@
}

impl ScoreOptions {
    /// Check local inputs before any network or credential work.
    pub fn validate(&self) -> (r: Result<(), CliError>)
        ensures
            is_blank(self.question@) ==> (r matches Err(e) && is_usage(e, empty_question_message())),
            !is_blank(self.question@) && self.levels.len() < 2 ==> (r matches Err(e) && is_usage(
                e,
                too_few_levels_message(),
            )),
            !is_blank(self.question@) && self.levels.len() >= 2 ==> {
                &&& r is Ok <==> forall|i: int|
                    0 <= i < self.levels.len() ==> !is_blank(#[trigger] self.levels@[i]@)
                &&& r matches Err(e) ==> is_usage(e, empty_level_message())
            },
    {
        validate_question(self.question.as_str())?;
        if self.levels.len() < 2 {
            return Err(
                CliError::Usage(
                    "score needs at least two --level values, ordered lowest to highest".to_owned(),
                ),
            );
        }
        let n = self.levels.len();
        let mut i: usize = 0;
        while i < n
            invariant
                i <= n,
                n == self.levels.len(),
                n >= 2,
                !is_blank(self.question@),
                forall|k: int| 0 <= k < i ==> !is_blank(#[trigger] self.levels@[k]@),
            decreases n - i,
        {
            if str_is_blank(self.levels[i].as_str()) {
                return Err(CliError::Usage("--level values must not be empty".to_owned()));
            }
            i = i + 1;
        }
        Ok(())
    }
}

/// `jev-cli ask`: a full request document (arbitrary typed questions) from
/// a JSON file or stdin.
#[derive(Debug)]
pub struct AskOptions {
    /// Path to the request document; `-` reads stdin.
    pub request: String,
    /// Output format (note: `ask` always emits a full JSON document).
    pub format: OutputFormat,
    /// Model override; wins over the document's `"model"`.
    pub model: Option<String>,
}

/// The model a request is sent with: a `--model` flag wins over the
/// request document's `"model"`, which wins over the client's default.
pub open spec fn chosen_model(
    flag: Option<Seq<char>>,
    document: Option<Seq<char>>,
    client_default: Seq<char>,
) -> Seq<char> {
    match flag {
        Some(m) => m,
        None => match document {
            Some(m) => m,
            None => client_default,
        },
    }
}

/// Pick the model to send a request with (see [`chosen_model`]).
pub fn choose_model(flag: Option<&str>, document: Option<&str>, client_default: &str) -> (r: String)
    ensures
        r@ == chosen_model(
            match flag {
                Some(m) => Some(m@),
                None => None,
            },
            match document {
                Some(m) => Some(m@),
                None => None,
            },
            client_default@,
        ),
{
    match flag {
        Some(m) => m.to_owned(),
        None => match document {
            Some(m) => m.to_owned(),
            None => client_default.to_owned(),
        },
    }
}


/// The SDK client builder whose only explicit setting is the default model
/// `model` (no setting at all for `None`): `TypeSafeClient::builder()`,
/// then `ClientBuilder::model` when a model is given.
pub uninterp spec fn builder_of(model: Option<Seq<char>>) -> jev_sdk::ClientBuilder;

/// `TypeSafeClient::builder()`: a builder with no explicit settings.
#[verifier::external_body]
fn client_builder() -> (r: jev_sdk::ClientBuilder)
    ensures
        r == builder_of(None),
{
    jev_sdk::TypeSafeClient::builder()
}

/// `ClientBuilder::model`: set the client's default model explicitly. On a
/// builder with no other explicit setting, the result is the one that sets
/// just this model.
#[verifier::external_body]
fn builder_with_model(builder: jev_sdk::ClientBuilder, model: &str) -> (r: jev_sdk::ClientBuilder)
    ensures
        (exists|o: Option<Seq<char>>| builder == builder_of(o)) ==> r == builder_of(Some(model@)),
{
    builder.model(model)
}

/// The builder that [`build_client`] builds from: `--model`, when given,
/// set as the client's default model, and nothing else.
pub fn client_builder_for(model: Option<&str>) -> (r: jev_sdk::ClientBuilder)
    ensures
        r == builder_of(opt_str_view(model)),
{
    let builder = client_builder();
    match model {
        Some(m) => builder_with_model(builder, m),
        None => builder,
    }
}

/// The default model of an SDK client: what `TypeSafeClient::model()`
/// returns.
pub uninterp spec fn client_model(c: jev_sdk::TypeSafeClient) -> Seq<char>;

/// `ClientBuilder::build`. Whether it succeeds is not claimed: it reads the
/// API key, base URL and default model from the process environment. An
/// explicit model that is not blank wins over the environment (`resolve`
/// keeps an explicit value unless it trims to nothing), so a client built
/// from a builder whose only setting is such a model has that model.
#[verifier::external_body]
fn build_from(builder: jev_sdk::ClientBuilder) -> (r: Result<jev_sdk::TypeSafeClient, jev_sdk::Error>)
    ensures
        r is Ok ==> forall|m: Seq<char>|
            #![trigger builder_of(Some(m))]
            builder == builder_of(Some(m)) && !is_blank(m) ==> client_model(r->Ok_0) == m,
{
    builder.build()
}

/// Build the API client, honoring `--model` over `TYPESAFE_DEFAULT_MODEL`:
/// a client built with a non-blank `--model` has that default model.
pub fn build_client(model: Option<&str>) -> (r: Result<jev_sdk::TypeSafeClient, CliError>)
    ensures
        r matches Err(e) ==> e is Jev,
        model matches Some(m) ==> (!is_blank(m@) ==> (r matches Ok(c) ==> client_model(c) == m@)),
{
    match build_from(client_builder_for(model)) {
        Ok(client) => Ok(client),
        Err(e) => Err(CliError::Jev(e)),
    }
}

/// The yes/no question `Question::Noul(Noul { instructions, criteria })`
/// with string instructions; `criteria` holds the optional descriptions of
/// "yes" and "no" when the question carries `NoulCriteria` at all.
pub uninterp spec fn noul_question_of(
    instructions: Seq<char>,
    criteria: Option<(Option<Seq<char>>, Option<Seq<char>>)>,
) -> jev_sdk::Question;

/// `Question::from(Noul::new(instructions))`: a yes/no question without
/// criteria.
#[verifier::external_body]
fn noul_question(instructions: &str) -> (r: jev_sdk::Question)
    ensures
        r == noul_question_of(instructions@, None),
{
    jev_sdk::Question::from(jev_sdk::Noul::new(instructions))
}

/// `Question::from(Noul::new(instructions).criteria(NoulCriteria { yes, no }))`:
/// a yes/no question with descriptions of its outcomes.
#[verifier::external_body]
fn noul_question_with_criteria(
    instructions: &str,
    yes: Option<String>,
    no: Option<String>,
) -> (r: jev_sdk::Question)
    ensures
        r == noul_question_of(instructions@, Some((opt_view(yes), opt_view(no)))),
{
    jev_sdk::Question::from(
        jev_sdk::Noul::new(instructions).criteria(jev_sdk::NoulCriteria { yes, no }),
    )
}

/// The `predict` question: criteria are attached only when `--yes` or
/// `--no` was given.
pub fn predict_question(question: &str, yes: Option<String>, no: Option<String>) -> (r:
    jev_sdk::Question)
    ensures
        r == noul_question_of(
            question@,
            if yes is Some || no is Some {
                Some((opt_view(yes), opt_view(no)))
            } else {
                None
            },
        ),
{
    if yes.is_some() || no.is_some() {
        noul_question_with_criteria(question, yes, no)
    } else {
        noul_question(question)
    }
}

/// The view of an option as a name and optional description.
pub open spec fn option_view(o: (String, Option<String>)) -> (Seq<char>, Option<Seq<char>>) {
    (o.0@, opt_view(o.1))
}

/// The criteria a choice question holds (its `IndexMap` of option name to
/// optional description), in the map's order; empty for other questions.
pub uninterp spec fn choice_criteria(q: jev_sdk::Question) -> Seq<(Seq<char>, Option<Seq<char>>)>;

/// The instructions of a choice question, when they are a JSON string.
pub uninterp spec fn choice_instructions(q: jev_sdk::Question) -> Option<Seq<char>>;

/// The keys of a list of options.
pub open spec fn option_names_of(opts: Seq<(Seq<char>, Option<Seq<char>>)>) -> Seq<Seq<char>> {
    opts.map_values(|o: (Seq<char>, Option<Seq<char>>)| o.0)
}

/// What collecting `opts` into an `IndexMap` holds: each name at the place
/// of its first occurrence, with the description of its last.
pub open spec fn collected_options(opts: Seq<(Seq<char>, Option<Seq<char>>)>) -> Seq<
    (Seq<char>, Option<Seq<char>>),
>
    decreases opts.len(),
{
    if opts.len() == 0 {
        seq![]
    } else {
        let r = collected_options(opts.drop_last());
        let o = opts.last();
        if option_names_of(r).contains(o.0) {
            r.update(option_names_of(r).index_of(o.0), o)
        } else {
            r.push(o)
        }
    }
}

/// Options with distinct names are held exactly as given: a choice question
/// built from the specs that `parse_option_specs` accepts (whose names are
/// distinct) offers those options, in order.
pub proof fn law_distinct_options_kept(opts: Seq<(Seq<char>, Option<Seq<char>>)>)
    requires
        forall|i: int, j: int| 0 <= i < j < opts.len() ==> (#[trigger] opts[i]).0 != (#[trigger] opts[j]).0,
    ensures
        collected_options(opts) == opts,
    decreases opts.len(),
{
    if opts.len() > 0 {
        let pre = opts.drop_last();
        assert forall|i: int, j: int| 0 <= i < j < pre.len() implies (#[trigger] pre[i]).0 != (#[trigger] pre[j]).0 by {
            assert(pre[i] == opts[i]);
            assert(pre[j] == opts[j]);
        }
        law_distinct_options_kept(pre);
        let last = opts.last();
        if option_names_of(pre).contains(last.0) {
            let u = choose|u: int| 0 <= u < option_names_of(pre).len() && option_names_of(pre)[u] == last.0;
            assert(opts[u] == pre[u]);
            assert(opts[opts.len() - 1] == last);
        }
        assert(pre.push(last) =~= opts);
    }
}

/// `Question::from(Choice::new(instructions, options))`: a choice among the
/// given `(name, description)` options. `Choice::new` collects them into an
/// `IndexMap` (seeded with a fresh `RandomState`, so the question itself is
/// not named): the criteria are the options as an `IndexMap` holds them, in
/// insertion order.
#[verifier::external_body]
fn choice_question_from(instructions: &str, options: Vec<(String, Option<String>)>) -> (r:
    jev_sdk::Question)
    ensures
        choice_instructions(r) == Some(instructions@),
        choice_criteria(r) == collected_options(
            options@.map_values(|o: (String, Option<String>)| option_view(o)),
        ),
{
    jev_sdk::Question::from(jev_sdk::Choice::new(instructions, options))
}

/// The view of a parsed option spec as a name and optional description.
pub open spec fn spec_view(o: OptionSpec) -> (Seq<char>, Option<Seq<char>>) {
    (o.name@, opt_view(o.description))
}

/// The `(name, description)` options a `choose` question offers: one per
/// parsed spec, in order.
pub fn choice_options(specs: &Vec<OptionSpec>) -> (r: Vec<(String, Option<String>)>)
    ensures
        r@.map_values(|o: (String, Option<String>)| option_view(o)) == specs@.map_values(
            |o: OptionSpec| spec_view(o),
        ),
{
    let ghost views = specs@.map_values(|o: OptionSpec| spec_view(o));
    let mut options: Vec<(String, Option<String>)> = Vec::new();
    let n = specs.len();
    let mut i: usize = 0;
    while i < n
        invariant
            i <= n,
            n == specs.len(),
            views == specs@.map_values(|o: OptionSpec| spec_view(o)),
            options.len() == i,
            options@.map_values(|o: (String, Option<String>)| option_view(o)) == views.take(
                i as int,
            ),
        decreases n - i,
    {
        let name = specs[i].name.clone();
        let description = match &specs[i].description {
            Some(d) => Some(d.clone()),
            None => None,
        };
        assert(opt_view(description) == opt_view(specs@[i as int].description));
        assert(name@ == specs@[i as int].name@);
        let ghost before = options@;
        options.push((name, description));
        assert(options@.drop_last() == before);
        assert(option_view(options@[i as int]) == views[i as int]);
        assert(options@.map_values(|o: (String, Option<String>)| option_view(o)) =~= views.take(
            i + 1,
        ));
        i = i + 1;
    }
    assert(views.take(n as int) =~= views);
    options
}

/// The `choose` question: a choice among [`choice_options`] of `specs`,
/// which the question holds as an `IndexMap` does (see
/// [`collected_options`]).
pub fn choice_question(question: &str, specs: &Vec<OptionSpec>) -> (r: jev_sdk::Question)
    ensures
        choice_instructions(r) == Some(question@),
        choice_criteria(r) == collected_options(specs@.map_values(|o: OptionSpec| spec_view(o))),
{
    choice_question_from(question, choice_options(specs))
}

/// The score question `Question::Score(Score { instructions, criteria })`
/// with string instructions and the given level descriptions, lowest first.
pub uninterp spec fn score_question_of(instructions: Seq<char>, levels: Seq<Seq<char>>) -> jev_sdk::Question;

/// `Question::from(Score::new(instructions, levels))`: a score question over
/// the given levels, in order.
#[verifier::external_body]
fn score_question_from(instructions: &str, levels: Vec<String>) -> (r: jev_sdk::Question)
    ensures
        r == score_question_of(instructions@, levels@.map_values(|l: String| l@)),
{
    jev_sdk::Question::from(jev_sdk::Score::new(instructions, levels))
}

/// The `score` question: rate against `levels`, lowest first.
pub fn score_question(question: &str, levels: &Vec<String>) -> (r: jev_sdk::Question)
    ensures
        r == score_question_of(question@, levels@.map_values(|l: String| l@)),
{
    let mut copy: Vec<String> = Vec::new();
    let n = levels.len();
    let mut i: usize = 0;
    while i < n
        invariant
            i <= n,
            n == levels.len(),
            copy.len() == i,
            forall|j: int| 0 <= j < i ==> (#[trigger] copy@[j])@ == levels@[j]@,
        decreases n - i,
    {
        let level = levels[i].clone();
        copy.push(level);
        i = i + 1;
    }
    assert(copy@.map_values(|l: String| l@) =~= levels@.map_values(|l: String| l@));
    score_question_from(question, copy)
}

} // verus!
