//! The JSON request document accepted by `jev-cli ask`:
//! `{"state": <any JSON>, "questions": {"<id>": <question>, ...}, "model"?}`.
//! Unknown fields are rejected so typos surface as errors.
use vstd::prelude::*;

use crate::error::{is_usage, CliError};
use crate::json::{
    decode_question, json_object_error, json_object_members, json_string_value, member_view,
    parse_json_members, parse_json_string, question_decode_error, question_wire,
    decoded_question_wire,
};
use crate::run::opt_view;
use crate::text::{concat_str, debug_quoted, debug_str, is_blank, push_str, str_is_blank};

verus! {

/// Request documents larger than this are refused (16 MiB).
pub const MAX_REQUEST_BYTES: u64 = 16 * 1024 * 1024;

/// A full System One request.
#[derive(Debug)]
pub struct AskRequest {
    /// The situation to evaluate: any JSON value, as compact JSON text.
    pub state: String,
    /// Question id and question (the API's wire shape, as compact JSON
    /// text), in document order.
    pub questions: Vec<(String, String)>,
    /// Optional per-request model override.
    pub model: Option<String>,
}

/// A document member or question as plain values: key and JSON text.
pub type Member = (Seq<char>, Seq<char>);

/// The view of the questions: ids and JSON texts.
pub open spec fn questions_view(q: Seq<(String, String)>) -> Seq<Member> {
    q.map_values(|e: (String, String)| (e.0@, e.1@))
}

/// The ids of the questions.
pub open spec fn question_ids(q: Seq<Member>) -> Seq<Seq<char>> {
    q.map_values(|e: Member| e.0)
}

/// For each question, the error decoding it reports (`None` when it
/// decodes).
pub open spec fn question_errors(q: Seq<Member>) -> Seq<Option<Seq<char>>> {
    q.map_values(|e: Member| question_decode_error(e.1))
}

/// The view of a list of optional strings.
pub open spec fn opt_strings_view(v: Seq<Option<String>>) -> Seq<Option<Seq<char>>> {
    v.map_values(|o: Option<String>| opt_view(o))
}

/// The prefix of every error about the document's shape.
pub open spec fn invalid_document_prefix() -> Seq<char> {
    "request document is not valid: "@
}

/// The error for a `questions` field that is not an object.
pub open spec fn questions_type_message() -> Seq<char> {
    "request document is not valid: invalid type for `questions`: expected a map of question ids to questions"@
}

/// The error for a `model` field that is neither a string nor null.
pub open spec fn model_type_message() -> Seq<char> {
    "request document is not valid: invalid type for `model`: expected a string or null"@
}

/// The error for an unknown field.
pub open spec fn unknown_field_message(key: Seq<char>) -> Seq<char> {
    "request document is not valid: unknown field `"@ + key
        + "`, expected one of `state`, `questions`, `model`"@
}

/// The error for a missing field.
pub open spec fn missing_field_message(key: Seq<char>) -> Seq<char> {
    "request document is not valid: missing field `"@ + key + "`"@
}

/// A member is acceptable: a known field whose value has the right type
/// (`questions` an object, `model` a string or null).
pub open spec fn member_ok(m: Member) -> bool {
    if m.0 == "state"@ {
        true
    } else if m.0 == "questions"@ {
        json_object_members(m.1) is Some
    } else if m.0 == "model"@ {
        m.1 == "null"@ || json_string_value(m.1) is Some
    } else {
        false
    }
}

/// The error for an unacceptable member.
pub open spec fn member_error(m: Member) -> Seq<char> {
    if m.0 == "questions"@ {
        questions_type_message()
    } else if m.0 == "model"@ {
        model_type_message()
    } else {
        unknown_field_message(m.0)
    }
}

/// Member `k` is the first unacceptable one.
pub open spec fn first_bad_member(ms: Seq<Member>, k: int) -> bool {
    &&& 0 <= k < ms.len()
    &&& !member_ok(ms[k])
    &&& forall|j: int| 0 <= j < k ==> member_ok(ms[j])
}

/// The text of the last member named `key`, if any.
pub open spec fn member_value(ms: Seq<Member>, key: Seq<char>) -> Option<Seq<char>>
    decreases ms.len(),
{
    if ms.len() == 0 {
        None
    } else if ms.last().0 == key {
        Some(ms.last().1)
    } else {
        member_value(ms.drop_last(), key)
    }
}

/// What is wrong with the document's members, if anything: the first
/// unacceptable member, else a missing `state`, else missing `questions`.
pub open spec fn document_error(ms: Seq<Member>) -> Option<Seq<char>> {
    if exists|k: int| first_bad_member(ms, k) {
        Some(member_error(ms[choose|k: int| first_bad_member(ms, k)]))
    } else if member_value(ms, "state"@) is None {
        Some(missing_field_message("state"@))
    } else if member_value(ms, "questions"@) is None {
        Some(missing_field_message("questions"@))
    } else {
        None
    }
}

/// The questions a document with members `ms` asks.
pub open spec fn requested_questions(ms: Seq<Member>) -> Seq<Member> {
    json_object_members(member_value(ms, "questions"@)->0)->0
}

/// The model a model field's text names: none for `null`.
pub open spec fn model_of(text: Seq<char>) -> Option<Seq<char>> {
    if text == "null"@ {
        None
    } else {
        json_string_value(text)
    }
}

/// The model a document with members `ms` asks for.
pub open spec fn requested_model(ms: Seq<Member>) -> Option<Seq<char>> {
    match member_value(ms, "model"@) {
        Some(t) => model_of(t),
        None => None,
    }
}

/// Question `i` is acceptable: its id is not blank and it decoded.
pub open spec fn question_ok_at(ids: Seq<Seq<char>>, errors: Seq<Option<Seq<char>>>, i: int) -> bool {
    !is_blank(ids[i]) && errors[i] is None
}

/// Question `k` is the first unacceptable one.
pub open spec fn first_bad_question(
    ids: Seq<Seq<char>>,
    errors: Seq<Option<Seq<char>>>,
    k: int,
) -> bool {
    &&& 0 <= k < ids.len()
    &&& !question_ok_at(ids, errors, k)
    &&& forall|i: int| 0 <= i < k ==> question_ok_at(ids, errors, i)
}

/// The usage error for a document without questions.
pub open spec fn no_questions_message() -> Seq<char> {
    "request has no questions: \"questions\" must map at least one id to a question"@
}

/// The usage error for a blank question id.
pub open spec fn empty_id_message() -> Seq<char> {
    "question ids must not be empty"@
}

/// The usage error for a question that does not decode.
pub open spec fn invalid_question_message(id: Seq<char>, error: Seq<char>) -> Seq<char> {
    "question "@ + debug_str(id) + " is not a valid question: "@ + error
}

/// The usage error for a blank model.
pub open spec fn empty_model_message() -> Seq<char> {
    "\"model\" must not be empty"@
}

/// What validation reports for questions with these ids and decode errors
/// and this model: `None` when the request is valid (at least one question,
/// no blank id, every question decodes, no blank model), else the message
/// of the first problem.
pub open spec fn validation_error(
    ids: Seq<Seq<char>>,
    errs: Seq<Option<Seq<char>>>,
    model: Option<Seq<char>>,
) -> Option<Seq<char>> {
    if ids.len() == 0 {
        Some(no_questions_message())
    } else if exists|k: int| first_bad_question(ids, errs, k) {
        let k = choose|k: int| first_bad_question(ids, errs, k);
        if is_blank(ids[k]) {
            Some(empty_id_message())
        } else {
            Some(invalid_question_message(ids[k], errs[k]->0))
        }
    } else if model matches Some(m) && is_blank(m) {
        Some(empty_model_message())
    } else {
        None
    }
}

/// What parsing the document `raw` gives: a usage error for a document that
/// is not one JSON object, for a shape problem (see [`document_error`]) and
/// for a request that fails validation; otherwise the request with the
/// document's state, its questions in order, and its model.
pub open spec fn parsed_request(raw: Seq<char>, r: Result<AskRequest, CliError>) -> bool {
    match json_object_members(raw) {
        None => r matches Err(e) && is_usage(e, invalid_document_prefix() + json_object_error(raw)),
        Some(ms) => match document_error(ms) {
            Some(m) => r matches Err(e) && is_usage(e, m),
            None => {
                let qs = requested_questions(ms);
                let model = requested_model(ms);
                match validation_error(question_ids(qs), question_errors(qs), model) {
                    Some(m) => r matches Err(e) && is_usage(e, m),
                    None => r matches Ok(req) && req.state@ == member_value(ms, "state"@)->0
                        && questions_view(req.questions@) == qs && opt_view(req.model) == model,
                }
            },
        },
    }
}

/// The first unacceptable question is unique.
proof fn lemma_first_bad_question_unique(
    ids: Seq<Seq<char>>,
    errs: Seq<Option<Seq<char>>>,
    j: int,
    k: int,
)
    requires
        first_bad_question(ids, errs, j),
        first_bad_question(ids, errs, k),
    ensures
        j == k,
{
    if j < k {
        assert(question_ok_at(ids, errs, j));
    } else if k < j {
        assert(question_ok_at(ids, errs, k));
    }
}

/// The first unacceptable member is unique.
proof fn lemma_first_bad_member_unique(ms: Seq<Member>, j: int, k: int)
    requires
        first_bad_member(ms, j),
        first_bad_member(ms, k),
    ensures
        j == k,
{
    if j < k {
        assert(member_ok(ms[j]));
    } else if k < j {
        assert(member_ok(ms[k]));
    }
}

/// No two questions share an id.
pub open spec fn distinct_ids(qs: Seq<Member>) -> bool {
    forall|i: int, j: int| 0 <= i < j < qs.len() ==> (#[trigger] qs[i]).0 != (#[trigger] qs[j]).0
}

/// The questions held in the JSON object `text`, each as id and compact
/// JSON text; `None` when `text` is not one JSON object.
fn question_members(text: &str) -> (r: Option<Vec<(String, String)>>)
    ensures
        match json_object_members(text@) {
            None => r is None,
            Some(qs) => r matches Some(q) && questions_view(q@) == qs,
        },
        r matches Some(q) ==> distinct_ids(questions_view(q@)),
{
    match parse_json_members(text) {
        Err(_) => None,
        Ok(ms) => {
            let ghost views = ms@.map_values(|m: (String, String)| member_view(m));
            let mut out: Vec<(String, String)> = Vec::new();
            let n = ms.len();
            let mut i: usize = 0;
            while i < n
                invariant
                    i <= n,
                    n == ms.len(),
                    views == ms@.map_values(|m: (String, String)| member_view(m)),
                    out.len() == i,
                    forall|j: int| 0 <= j < i ==> questions_view(out@)[j] == views[j],
                decreases n - i,
            {
                let id = ms[i].0.clone();
                let text = ms[i].1.clone();
                let ghost before = out@;
                out.push((id, text));
                proof {
                    assert forall|j: int| 0 <= j < i + 1 implies questions_view(out@)[j] == views[j] by {
                        if j < i {
                            assert(out@[j] == before[j]);
                        }
                    }
                }
                i = i + 1;
            }
            assert(questions_view(out@) =~= views);
            assert forall|a: int, b: int| 0 <= a < b < views.len() implies (#[trigger] views[a]).0 != (#[trigger] views[b]).0 by {
                assert(views[a] == member_view(ms@[a]));
                assert(views[b] == member_view(ms@[b]));
            }
            Some(out)
        },
    }
}



impl AskRequest {
    /// Parse and validate a request document (see [`parsed_request`]).
    pub fn parse(raw: &str) -> (r: Result<AskRequest, CliError>)
        ensures
            parsed_request(raw@, r),
            r matches Ok(req) ==> distinct_ids(questions_view(req.questions@)),
    {
        let members = match parse_json_members(raw) {
            Ok(members) => members,
            Err(text) => {
                let m = concat_str("request document is not valid: ", text.as_str());
                assert(m@ == invalid_document_prefix() + text@);
                return Err(CliError::Usage(m));
            },
        };
        let ghost ms = members@.map_values(|m: (String, String)| member_view(m));
        proof {
            reveal_strlit("state");
            reveal_strlit("questions");
            reveal_strlit("model");
            assert("state"@ != "questions"@) by {
                assert("state"@.len() != "questions"@.len());
            }
            assert("state"@ != "model"@) by {
                assert("state"@[0] != "model"@[0]);
            }
            assert("questions"@ != "model"@) by {
                assert("questions"@.len() != "model"@.len());
            }
        }
        let n = members.len();
        let mut i: usize = 0;
        let mut has_state = false;
        let mut state_at: usize = 0;
        let mut questions: Option<Vec<(String, String)>> = None;
        let mut model: Option<Option<String>> = None;
        while i < n
            invariant
                i <= n,
                n == members.len(),
                ms == members@.map_values(|m: (String, String)| member_view(m)),
                json_object_members(raw@) == Some(ms),
                "state"@ != "questions"@,
                "state"@ != "model"@,
                "questions"@ != "model"@,
                forall|k: int| 0 <= k < i ==> member_ok(#[trigger] ms[k]),
                has_state == member_value(ms.take(i as int), "state"@) is Some,
                has_state ==> state_at < i && ms[state_at as int].1 == member_value(
                    ms.take(i as int),
                    "state"@,
                )->0,
                match member_value(ms.take(i as int), "questions"@) {
                    None => questions is None,
                    Some(t) => questions matches Some(q) && questions_view(q@)
                        == json_object_members(t)->0,
                },
                questions matches Some(q) ==> distinct_ids(questions_view(q@)),
                match member_value(ms.take(i as int), "model"@) {
                    None => model is None,
                    Some(t) => model matches Some(mo) && opt_view(mo) == model_of(t),
                },
            decreases n - i,
        {
            let key = &members[i].0;
            let text = &members[i].1;
            assert(ms[i as int] == (key@, text@));
            assert(ms.take(i + 1).drop_last() =~= ms.take(i as int));
            assert(ms.take(i + 1).last() == ms[i as int]);
            if *key == "state".to_owned() {
                has_state = true;
                state_at = i;
            } else if *key == "questions".to_owned() {
                match question_members(text.as_str()) {
                    Some(q) => {
                        questions = Some(q);
                    },
                    None => {
                        assert(first_bad_member(ms, i as int));
                        return Err(
                            CliError::Usage(
                                "request document is not valid: invalid type for `questions`: expected a map of question ids to questions".to_owned(),
                            ),
                        );
                    },
                }
            } else if *key == "model".to_owned() {
                if *text == "null".to_owned() {
                    model = Some(None);
                } else {
                    match parse_json_string(text.as_str()) {
                        Some(s) => {
                            model = Some(Some(s));
                        },
                        None => {
                            assert(first_bad_member(ms, i as int));
                            return Err(
                                CliError::Usage(
                                    "request document is not valid: invalid type for `model`: expected a string or null".to_owned(),
                                ),
                            );
                        },
                    }
                }
            } else {
                assert(first_bad_member(ms, i as int));
                let mut m = "request document is not valid: unknown field `".to_owned();
                push_str(&mut m, key.as_str());
                push_str(&mut m, "`, expected one of `state`, `questions`, `model`");
                return Err(CliError::Usage(m));
            }
            i = i + 1;
        }
        assert(ms.take(n as int) =~= ms);
        proof {
            assert forall|k: int| !first_bad_member(ms, k) by {
                if 0 <= k < n {
                    assert(member_ok(ms[k]));
                }
            }
        }
        proof {
            reveal_strlit("request document is not valid: missing field `");
            reveal_strlit("`");
            reveal_strlit("request document is not valid: missing field `state`");
            reveal_strlit("request document is not valid: missing field `questions`");
            assert(missing_field_message("state"@) =~= "request document is not valid: missing field `state`"@);
            assert(missing_field_message("questions"@) =~= "request document is not valid: missing field `questions`"@);
        }
        if !has_state {
            return Err(
                CliError::Usage("request document is not valid: missing field `state`".to_owned()),
            );
        }
        let questions = match questions {
            Some(q) => q,
            None => {
                return Err(
                    CliError::Usage(
                        "request document is not valid: missing field `questions`".to_owned(),
                    ),
                );
            },
        };
        let model = match model {
            Some(m) => m,
            None => None,
        };
        let state = members[state_at].1.clone();
        let request = AskRequest { state, questions, model };
        match request.validate() {
            Ok(()) => Ok(request),
            Err(e) => Err(e),
        }
    }

    /// Validate the request given, for each question in order, the error
    /// text of decoding it into a typed SDK question (`None` when it
    /// decoded); see [`validation_error`].
    pub fn validate_with(&self, decode_errors: &Vec<Option<String>>) -> (r: Result<(), CliError>)
        requires
            decode_errors.len() == self.questions.len(),
        ensures
            match validation_error(
                question_ids(questions_view(self.questions@)),
                opt_strings_view(decode_errors@),
                opt_view(self.model),
            ) {
                None => r is Ok,
                Some(m) => r matches Err(e) && is_usage(e, m),
            },
    {
        let ghost ids = question_ids(questions_view(self.questions@));
        let ghost errs = opt_strings_view(decode_errors@);
        let n = self.questions.len();
        if n == 0 {
            return Err(
                CliError::Usage(
                    "request has no questions: \"questions\" must map at least one id to a question".to_owned(),
                ),
            );
        }
        let mut i: usize = 0;
        while i < n
            invariant
                i <= n,
                n == self.questions.len(),
                n == decode_errors.len(),
                ids == question_ids(questions_view(self.questions@)),
                errs == opt_strings_view(decode_errors@),
                forall|k: int| 0 <= k < i ==> question_ok_at(ids, errs, k),
            decreases n - i,
        {
            let id = &self.questions[i].0;
            assert(ids[i as int] == id@);
            if str_is_blank(id.as_str()) {
                assert(first_bad_question(ids, errs, i as int));
                proof {
                    let k = choose|k: int| first_bad_question(ids, errs, k);
                    lemma_first_bad_question_unique(ids, errs, k, i as int);
                }
                return Err(CliError::Usage("question ids must not be empty".to_owned()));
            }
            if let Some(err) = &decode_errors[i] {
                assert(errs[i as int] == Some(err@));
                assert(first_bad_question(ids, errs, i as int));
                proof {
                    let k = choose|k: int| first_bad_question(ids, errs, k);
                    lemma_first_bad_question_unique(ids, errs, k, i as int);
                }
                let quoted = debug_quoted(id.as_str());
                let mut m = concat_str("question ", quoted.as_str());
                push_str(&mut m, " is not a valid question: ");
                push_str(&mut m, err.as_str());
                assert(m@ == invalid_question_message(ids[i as int], errs[i as int]->0));
                return Err(CliError::Usage(m));
            }
            assert(errs[i as int] is None);
            i = i + 1;
        }
        proof {
            assert forall|k: int| !first_bad_question(ids, errs, k) by {
                if 0 <= k < n {
                    assert(question_ok_at(ids, errs, k));
                }
            }
        }
        if let Some(model) = &self.model {
            if str_is_blank(model.as_str()) {
                return Err(CliError::Usage("\"model\" must not be empty".to_owned()));
            }
        }
        Ok(())
    }

    /// Validate the request: at least one question, non-blank ids, every
    /// question decodes into a typed SDK question, non-blank model (see
    /// [`validation_error`]).
    pub fn validate(&self) -> (r: Result<(), CliError>)
        ensures
            match validation_error(
                question_ids(questions_view(self.questions@)),
                question_errors(questions_view(self.questions@)),
                opt_view(self.model),
            ) {
                None => r is Ok,
                Some(m) => r matches Err(e) && is_usage(e, m),
            },
    {
        let ghost qs = questions_view(self.questions@);
        let mut errors: Vec<Option<String>> = Vec::new();
        let n = self.questions.len();
        let mut i: usize = 0;
        while i < n
            invariant
                i <= n,
                n == self.questions.len(),
                qs == questions_view(self.questions@),
                errors.len() == i,
                forall|j: int| 0 <= j < i ==> (#[trigger] opt_strings_view(errors@)[j]) == question_errors(qs)[j],
            decreases n - i,
        {
            let ghost before = errors@;
            assert(qs[i as int] == (self.questions@[i as int].0@, self.questions@[i as int].1@));
            assert(question_errors(qs)[i as int] == question_decode_error(qs[i as int].1));
            match decode_question(self.questions[i].1.as_str()) {
                Ok(_) => {
                    errors.push(None);
                    assert(opt_strings_view(errors@)[i as int] == question_errors(qs)[i as int]);
                },
                Err(m) => {
                    errors.push(Some(m));
                    assert(opt_strings_view(errors@)[i as int] == question_errors(qs)[i as int]);
                },
            }
            proof {
                assert forall|j: int| 0 <= j < i + 1 implies (#[trigger] opt_strings_view(errors@)[j]) == question_errors(qs)[j] by {
                    if j < i {
                        assert(errors@[j] == before[j]);
                        assert(opt_strings_view(before)[j] == question_errors(qs)[j]);
                    }
                }
            }
            i = i + 1;
        }
        assert(opt_strings_view(errors@) =~= question_errors(qs));
        self.validate_with(&errors)
    }

    /// The questions as typed SDK values, in document order; the first
    /// question that does not decode fails (see [`typed_questions_error`]).
    pub fn typed_questions(&self) -> (r: Result<Vec<(String, jev_sdk::Question)>, CliError>)
        ensures
            match typed_questions_error(questions_view(self.questions@)) {
                None => r matches Ok(v) && v@.map_values(|e: (String, jev_sdk::Question)| e.0@)
                    == question_ids(questions_view(self.questions@)) && forall|i: int|
                    0 <= i < v.len() ==> question_wire((#[trigger] v@[i]).1)
                        == decoded_question_wire(self.questions@[i].1@),
                Some(m) => r matches Err(e) && is_usage(e, m),
            },
    {
        let ghost qs = questions_view(self.questions@);
        let mut out: Vec<(String, jev_sdk::Question)> = Vec::new();
        let n = self.questions.len();
        let mut i: usize = 0;
        while i < n
            invariant
                i <= n,
                n == self.questions.len(),
                qs == questions_view(self.questions@),
                out.len() == i,
                forall|j: int| 0 <= j < i ==> question_decode_error(#[trigger] qs[j].1) is None,
                out@.map_values(|e: (String, jev_sdk::Question)| e.0@) == question_ids(qs).take(
                    i as int,
                ),
                forall|j: int|
                    0 <= j < i ==> question_wire((#[trigger] out@[j]).1) == decoded_question_wire(
                        self.questions@[j].1@,
                    ),
            decreases n - i,
        {
            let id = &self.questions[i].0;
            assert(qs[i as int] == (id@, self.questions@[i as int].1@));
            match decode_question(self.questions[i].1.as_str()) {
                Ok(q) => {
                    let ghost before = out@;
                    out.push((id.clone(), q));
                    assert(out@.drop_last() == before);
                    assert forall|j: int| 0 <= j < i + 1 implies question_wire((#[trigger] out@[j]).1)
                        == decoded_question_wire(self.questions@[j].1@) by {
                        if j < i {
                            assert(out@[j] == before[j]);
                        }
                    }
                    assert(out@.map_values(|e: (String, jev_sdk::Question)| e.0@) =~= question_ids(
                        qs,
                    ).take(i + 1));
                },
                Err(err) => {
                    assert(first_undecodable(qs, i as int));
                    proof {
                        let k = choose|k: int| first_undecodable(qs, k);
                        if k < i {
                            assert(question_decode_error(qs[k].1) is None);
                        } else if i < k {
                            assert(question_decode_error(qs[i as int].1) is None);
                        }
                    }
                    let quoted = debug_quoted(id.as_str());
                    let mut m = concat_str("question ", quoted.as_str());
                    push_str(&mut m, ": ");
                    push_str(&mut m, err.as_str());
                    assert(m@ == typed_question_message(qs[i as int].0, err@));
                    return Err(CliError::Usage(m));
                },
            }
            i = i + 1;
        }
        proof {
            assert forall|k: int| !first_undecodable(qs, k) by {
                if 0 <= k < n {
                    assert(question_decode_error(qs[k].1) is None);
                }
            }
        }
        assert(question_ids(qs).take(n as int) =~= question_ids(qs));
        Ok(out)
    }
}

/// Question `k` is the first that does not decode.
pub open spec fn first_undecodable(qs: Seq<Member>, k: int) -> bool {
    &&& 0 <= k < qs.len()
    &&& question_decode_error(qs[k].1) is Some
    &&& forall|j: int| 0 <= j < k ==> question_decode_error(qs[j].1) is None
}

/// The error for a question that does not decode into a typed value.
pub open spec fn typed_question_message(id: Seq<char>, error: Seq<char>) -> Seq<char> {
    "question "@ + debug_str(id) + ": "@ + error
}

/// What converting the questions to typed values reports: `None` when all
/// decode, else the message for the first that does not.
pub open spec fn typed_questions_error(qs: Seq<Member>) -> Option<Seq<char>> {
    if exists|k: int| first_undecodable(qs, k) {
        let k = choose|k: int| first_undecodable(qs, k);
        Some(typed_question_message(qs[k].0, question_decode_error(qs[k].1)->0))
    } else {
        None
    }
}

} // verus!
