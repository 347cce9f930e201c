//! `.env`-style file loading: parsing down to an allowlist, rendering parse
//! errors without file contents, and filling only unset variables.
use vstd::prelude::*;

use crate::error::{is_usage, CliError};
use crate::text::{concat_str, decimal, push_decimal, push_str};

verus! {

/// Default file looked up when no explicit path is given.
pub const DEFAULT_ENV_FILE: &'static str = ".env";

/// The variables a file (`.env`, `jev.conf`) may set: the API key and the
/// model choice, never transport settings such as `TYPESAFE_BASE_URL`.
pub open spec fn is_allowed_file_var(key: Seq<char>) -> bool {
    key == "TYPESAFE_API_KEY"@ || key == "TYPESAFE_DEFAULT_MODEL"@
}

/// Whether a file may set `key`.
pub fn allowed_file_var(key: &String) -> (r: bool)
    ensures
        r == is_allowed_file_var(key@),
{
    let api_key = "TYPESAFE_API_KEY".to_owned();
    let model = "TYPESAFE_DEFAULT_MODEL".to_owned();
    *key == api_key || *key == model
}

/// Why a dotenv-style file could not be parsed.
#[derive(Debug)]
pub enum DotenvFailure {
    /// A malformed line; `index` is where in the line parsing failed.
    LineParse { index: usize },
    /// Any other failure (reading, decoding), with its rendered text.
    Other { text: String },
}

/// What a failed parse reports. A malformed line is reported by its index
/// only: the line itself may hold a credential and is never echoed.
pub open spec fn dotenv_failure_message(path: Seq<char>, failure: DotenvFailure) -> Seq<char> {
    match failure {
        DotenvFailure::LineParse { index } => path + ": malformed line at line index "@ + decimal(
            index as nat,
        ) + " (line content suppressed: the file may hold credentials)"@,
        DotenvFailure::Other { text } => "cannot load "@ + path + ": "@ + text@,
    }
}

/// Render a parse failure for `path` without echoing file contents.
pub fn sanitize_dotenv_error(path: &str, failure: &DotenvFailure) -> (r: CliError)
    ensures
        is_usage(r, dotenv_failure_message(path@, *failure)),
{
    match failure {
        DotenvFailure::LineParse { index } => {
            let mut m = path.to_owned();
            push_str(&mut m, ": malformed line at line index ");
            push_decimal(&mut m, *index as u64);
            push_str(&mut m, " (line content suppressed: the file may hold credentials)");
            CliError::Usage(m)
        },
        DotenvFailure::Other { text } => {
            let mut m = concat_str("cannot load ", path);
            push_str(&mut m, ": ");
            push_str(&mut m, text.as_str());
            CliError::Usage(m)
        },
    }
}

/// The view of a key/value pair.
pub open spec fn pair_view(p: (String, String)) -> (Seq<char>, Seq<char>) {
    (p.0@, p.1@)
}

/// The view of a list of key/value pairs.
pub open spec fn pairs_view(v: Seq<(String, String)>) -> Seq<(Seq<char>, Seq<char>)> {
    v.map_values(|p: (String, String)| pair_view(p))
}

/// The allowlisted assignments among parsed items, in file order.
pub open spec fn allowed_vars(items: Seq<Result<(String, String), DotenvFailure>>) -> Seq<
    (Seq<char>, Seq<char>),
>
    decreases items.len(),
{
    if items.len() == 0 {
        seq![]
    } else {
        let r = allowed_vars(items.drop_last());
        match items.last() {
            Ok(p) => if is_allowed_file_var(p.0@) {
                r.push(pair_view(p))
            } else {
                r
            },
            Err(_) => r,
        }
    }
}

/// Item `k` is the first failed one.
pub open spec fn first_failure(items: Seq<Result<(String, String), DotenvFailure>>, k: int) -> bool {
    &&& 0 <= k < items.len()
    &&& items[k] is Err
    &&& forall|j: int| 0 <= j < k ==> items[j] is Ok
}

/// Keep the allowlisted assignments among the items a dotenv parser
/// produced; the first failed item, if any, fails the whole file.
pub fn allowlisted(path: &str, items: Vec<Result<(String, String), DotenvFailure>>) -> (r: Result<
    Vec<(String, String)>,
    CliError,
>)
    ensures
        (exists|k: int| first_failure(items@, k)) ==> exists|k: int|
            #[trigger] first_failure(items@, k) && (r matches Err(e) && is_usage(
                e,
                dotenv_failure_message(path@, items@[k]->Err_0),
            )),
        !(exists|k: int| first_failure(items@, k)) ==> (r matches Ok(v) && pairs_view(v@)
            == allowed_vars(items@)),
        r matches Ok(v) ==> forall|i: int|
            0 <= i < v.len() ==> is_allowed_file_var((#[trigger] v@[i]).0@),
{
    let mut vars: Vec<(String, String)> = Vec::new();
    let n = items.len();
    let mut i: usize = 0;
    while i < n
        invariant
            i <= n,
            n == items.len(),
            forall|j: int| 0 <= j < i ==> items@[j] is Ok,
            pairs_view(vars@) == allowed_vars(items@.take(i as int)),
            forall|j: int| 0 <= j < vars.len() ==> is_allowed_file_var((#[trigger] vars@[j]).0@),
        decreases n - i,
    {
        assert(items@.take(i + 1).drop_last() =~= items@.take(i as int));
        match &items[i] {
            Ok(p) => {
                if allowed_file_var(&p.0) {
                    let pair = (p.0.clone(), p.1.clone());
                    vars.push(pair);
                    assert(pairs_view(vars@) =~= allowed_vars(items@.take(i + 1)));
                } else {
                    assert(allowed_vars(items@.take(i + 1)) == allowed_vars(items@.take(i as int)));
                }
            },
            Err(f) => {
                assert(first_failure(items@, i as int));
                return Err(sanitize_dotenv_error(path, f));
            },
        }
        i = i + 1;
    }
    assert(items@.take(n as int) =~= items@);
    Ok(vars)
}


/// A parsed item seen as plain values: an assignment, or for a failure the
/// line index of a malformed line (`None` for any other failure).
pub type DotenvEntry = Result<(Seq<char>, Seq<char>), Option<usize>>;

/// What `dotenvy::from_read_iter` yields for `contents`, in order, when the
/// process environment sets none of the names that a `$NAME` reference in
/// them expands: each assignment as key and value, or for a failed item the
/// line index that a `LineParse` error reports (`None` for any other
/// error).
pub uninterp spec fn dotenv_entries(contents: Seq<u8>) -> Seq<Result<(Seq<char>, Seq<char>), Option<usize>>>;

/// The view of an item as `dotenv_items` hands it out.
pub open spec fn raw_item_view(item: Result<(String, String), (Option<usize>, dotenvy::Error)>) -> DotenvEntry {
    match item {
        Ok(p) => Ok(pair_view(p)),
        Err(e) => Err(e.0),
    }
}

/// The view of the items `dotenv_items` hands out.
pub open spec fn raw_items_view(items: Seq<Result<(String, String), (Option<usize>, dotenvy::Error)>>) -> Seq<
    DotenvEntry,
> {
    items.map_values(|item: Result<(String, String), (Option<usize>, dotenvy::Error)>| raw_item_view(item))
}

/// An entry's shape: the key of an assignment, or a failure as it is.
pub open spec fn entry_shape(e: DotenvEntry) -> Result<Seq<char>, Option<usize>> {
    match e {
        Ok(p) => Ok(p.0),
        Err(f) => Err(f),
    }
}

/// The shapes of a list of entries.
pub open spec fn shapes(es: Seq<DotenvEntry>) -> Seq<Result<Seq<char>, Option<usize>>> {
    es.map_values(|e: DotenvEntry| entry_shape(e))
}

/// The number of leading entries that are assignments (up to the first
/// failure).
pub open spec fn ok_prefix_len(es: Seq<DotenvEntry>) -> int {
    if exists|k: int| first_failed_entry(es, k) {
        choose|k: int| first_failed_entry(es, k)
    } else {
        es.len() as int
    }
}

/// The first `j` bytes of `contents` are whole lines (nothing, or ending
/// with a newline) that hold no `$`.
pub open spec fn ref_free_lines(contents: Seq<u8>, j: int) -> bool {
    &&& 0 <= j <= contents.len()
    &&& !contents.take(j).contains(36u8)
    &&& (j == 0 || contents[j - 1] == 10u8)
}

/// `items` start with the leading assignments of `es`.
pub open spec fn starts_with_assignments_of(items: Seq<DotenvEntry>, es: Seq<DotenvEntry>) -> bool {
    &&& ok_prefix_len(es) <= items.len()
    &&& items.take(ok_prefix_len(es)) == es.take(ok_prefix_len(es))
}

/// The items `dotenvy::from_read_iter` yields for `contents`, each failure
/// paired with the line index that a `LineParse` error carries (`None` for
/// the other variants). dotenvy reads the process environment only to
/// expand a `$NAME` reference, and an expansion only changes a value: so
/// the items' keys and failures are those of `dotenv_entries(contents)`
/// whatever the environment holds, and for contents without a `$` the items
/// are `dotenv_entries(contents)` itself. dotenvy reads line by line, so
/// whole lines at the start that hold no `$` yield, up to their first
/// failure, the same assignments as they would alone.
#[verifier::external_body]
fn dotenv_items(contents: &[u8]) -> (r: Vec<Result<(String, String), (Option<usize>, dotenvy::Error)>>)
    ensures
        shapes(raw_items_view(r@)) == shapes(dotenv_entries(contents@)),
        !contents@.contains(36u8) ==> raw_items_view(r@) == dotenv_entries(contents@),
        forall|j: int|
            #[trigger] ref_free_lines(contents@, j) ==> starts_with_assignments_of(
                raw_items_view(r@),
                dotenv_entries(contents@.take(j)),
            ),
{
    let mut out = Vec::new();
    for item in dotenvy::from_read_iter(contents) {
        out.push(item.map_err(|e| {
            let line = match &e {
                dotenvy::Error::LineParse(_, index) => Some(*index),
                _ => None,
            };
            (line, e)
        }));
    }
    out
}

/// The text that `dotenvy::Error`'s `Display` renders. Nothing is claimed
/// of it (for a malformed line it holds the line, so it is only used for the
/// other variants).
#[verifier::external_body]
fn dotenv_error_text(e: &dotenvy::Error) -> String {
    e.to_string()
}

/// Classify a failed item of [`dotenv_items`] by the line index it reports:
/// a malformed line keeps only its index, any other failure its rendered
/// text.
fn classify_dotenv_error(e: &(Option<usize>, dotenvy::Error)) -> (r: DotenvFailure)
    ensures
        match e.0 {
            Some(index) => r == (DotenvFailure::LineParse { index }),
            None => r is Other,
        },
{
    match e.0 {
        Some(index) => DotenvFailure::LineParse { index },
        None => DotenvFailure::Other { text: dotenv_error_text(&e.1) },
    }
}

/// The view of a classified item: an assignment, or the line index of a
/// malformed line (`None` for any other failure).
pub open spec fn failure_item_view(item: Result<(String, String), DotenvFailure>) -> DotenvEntry {
    match item {
        Ok(p) => Ok(pair_view(p)),
        Err(DotenvFailure::LineParse { index }) => Err(Some(index)),
        Err(DotenvFailure::Other { .. }) => Err(None),
    }
}

/// The allowlisted assignments among parsed entries, in file order.
pub open spec fn allowed_entries(es: Seq<DotenvEntry>) -> Seq<(Seq<char>, Seq<char>)>
    decreases es.len(),
{
    if es.len() == 0 {
        seq![]
    } else {
        let r = allowed_entries(es.drop_last());
        match es.last() {
            Ok(p) => if is_allowed_file_var(p.0) {
                r.push(p)
            } else {
                r
            },
            Err(_) => r,
        }
    }
}

/// Entry `k` is the first failed one.
pub open spec fn first_failed_entry(es: Seq<DotenvEntry>, k: int) -> bool {
    &&& 0 <= k < es.len()
    &&& es[k] is Err
    &&& forall|j: int| 0 <= j < k ==> es[j] is Ok
}

/// What parsing a file at `path` whose entries have the keys and failures of
/// `es` returns: the first failed entry fails the whole file (a malformed
/// line reported by its index alone, any other failure as "cannot load");
/// without one, assignments to the allowlisted keys, in file order.
pub open spec fn parsed_keys_as(
    path: Seq<char>,
    es: Seq<DotenvEntry>,
    r: Result<Vec<(String, String)>, CliError>,
) -> bool {
    if exists|k: int| first_failed_entry(es, k) {
        let k = choose|k: int| first_failed_entry(es, k);
        match es[k] {
            Err(Some(index)) => r matches Err(e) && is_usage(
                e,
                dotenv_failure_message(path, DotenvFailure::LineParse { index }),
            ),
            _ => r matches Err(e) && exists|t: Seq<char>| is_usage(e, cannot_load_message(path, t)),
        }
    } else {
        r matches Ok(v) && keys_of(pairs_view(v@)) == keys_of(allowed_entries(es))
    }
}

/// What parsing a file at `path` whose entries are `es` returns: as
/// [`parsed_keys_as`], with the allowlisted assignments themselves, keys and
/// values, in file order.
pub open spec fn parsed_as(
    path: Seq<char>,
    es: Seq<DotenvEntry>,
    r: Result<Vec<(String, String)>, CliError>,
) -> bool {
    &&& parsed_keys_as(path, es, r)
    &&& r matches Ok(v) ==> pairs_view(v@) == allowed_entries(es)
}

/// Classified items with the same keys and failures as `es` keep
/// assignments to the same allowlisted keys.
proof fn lemma_allowed_keys(items: Seq<Result<(String, String), DotenvFailure>>, es: Seq<DotenvEntry>)
    requires
        items.len() == es.len(),
        forall|j: int|
            0 <= j < items.len() ==> entry_shape(failure_item_view(#[trigger] items[j])) == entry_shape(
                es[j],
            ),
    ensures
        keys_of(allowed_vars(items)) == keys_of(allowed_entries(es)),
    decreases items.len(),
{
    if items.len() > 0 {
        let pre = items.drop_last();
        let epre = es.drop_last();
        assert forall|j: int| 0 <= j < pre.len() implies entry_shape(
            failure_item_view(#[trigger] pre[j]),
        ) == entry_shape(epre[j]) by {
            assert(pre[j] == items[j]);
        }
        lemma_allowed_keys(pre, epre);
        assert(entry_shape(failure_item_view(items[items.len() - 1])) == entry_shape(
            es[es.len() - 1],
        ));
        let r1 = allowed_vars(pre);
        let r2 = allowed_entries(epre);
        match items.last() {
            Ok(p) => {
                assert(keys_of(r1.push(pair_view(p))) =~= keys_of(r1).push(p.0@));
                let q = es.last()->Ok_0;
                assert(keys_of(r2.push(q)) =~= keys_of(r2).push(q.0));
            },
            Err(_) => {},
        }
    }
}

/// Classified items with the same views as `es` keep the same allowlisted
/// assignments.
proof fn lemma_allowed_vars_entries(items: Seq<Result<(String, String), DotenvFailure>>, es: Seq<DotenvEntry>)
    requires
        items.len() == es.len(),
        forall|j: int| 0 <= j < items.len() ==> failure_item_view(#[trigger] items[j]) == es[j],
    ensures
        allowed_vars(items) == allowed_entries(es),
    decreases items.len(),
{
    if items.len() > 0 {
        let pre = items.drop_last();
        let epre = es.drop_last();
        assert forall|j: int| 0 <= j < pre.len() implies failure_item_view(#[trigger] pre[j]) == epre[j] by {
            assert(pre[j] == items[j]);
        }
        lemma_allowed_vars_entries(pre, epre);
        assert(failure_item_view(items[items.len() - 1]) == es[es.len() - 1]);
    }
}



/// The allowlisted assignments among the first `m` entries come first
/// among those of all the entries.
proof fn lemma_allowed_entries_take(es: Seq<DotenvEntry>, m: int)
    requires
        0 <= m <= es.len(),
    ensures
        allowed_entries(es.take(m)).len() <= allowed_entries(es).len(),
        allowed_entries(es).take(allowed_entries(es.take(m)).len() as int) == allowed_entries(
            es.take(m),
        ),
    decreases es.len(),
{
    if m == es.len() {
        assert(es.take(m) =~= es);
        assert(allowed_entries(es).take(allowed_entries(es).len() as int) =~= allowed_entries(es));
    } else {
        let pre = es.drop_last();
        assert(pre.take(m) =~= es.take(m));
        lemma_allowed_entries_take(pre, m);
        let a = allowed_entries(pre);
        let b = allowed_entries(es.take(m));
        match es.last() {
            Ok(p) => if is_allowed_file_var(p.0) {
                assert(a.push(p).take(b.len() as int) =~= a.take(b.len() as int));
            },
            Err(_) => {},
        }
    }
}

/// The allowlisted assignments that `parse_allowlisted` returns begin with
/// those of the reference-free whole lines that start the file, values and
/// all.
pub open spec fn keeps_leading_values(
    contents: Seq<u8>,
    r: Result<Vec<(String, String)>, CliError>,
) -> bool {
    forall|j: int|
        #[trigger] ref_free_lines(contents, j) ==> (r matches Ok(v) ==> {
            let lead = allowed_entries(
                dotenv_entries(contents.take(j)).take(ok_prefix_len(dotenv_entries(contents.take(j)))),
            );
            &&& lead.len() <= v.len()
            &&& pairs_view(v@).take(lead.len() as int) == lead
        })
}

/// Parse a dotenv-style file's bytes down to the allowlisted assignments,
/// without touching the process environment. Errors never echo file
/// contents.
pub fn parse_allowlisted(path: &str, contents: &[u8]) -> (r: Result<Vec<(String, String)>, CliError>)
    ensures
        r matches Ok(v) ==> forall|i: int|
            0 <= i < v.len() ==> is_allowed_file_var((#[trigger] v@[i]).0@),
        r matches Err(e) ==> e is Usage,
        parsed_keys_as(path@, dotenv_entries(contents@), r),
        !contents@.contains(36u8) ==> parsed_as(path@, dotenv_entries(contents@), r),
        keeps_leading_values(contents@, r),
{
    let raw = dotenv_items(contents);
    let mut items: Vec<Result<(String, String), DotenvFailure>> = Vec::new();
    let n = raw.len();
    let mut i: usize = 0;
    while i < n
        invariant
            i <= n,
            n == raw.len(),
            items.len() == i,
            forall|j: int| 0 <= j < i ==> failure_item_view(#[trigger] items@[j]) == raw_item_view(raw@[j]),
        decreases n - i,
    {
        match &raw[i] {
            Ok(p) => items.push(Ok((p.0.clone(), p.1.clone()))),
            Err(e) => items.push(Err(classify_dotenv_error(e))),
        }
        i = i + 1;
    }
    let r = allowlisted(path, items);
    proof {
        if r is Err {
            let k = choose|k: int| first_failure(items@, k);
            assert(first_failure(items@, k));
        }
        let es = dotenv_entries(contents@);
        assert(shapes(raw_items_view(raw@)).len() == raw@.len());
        assert(items@.len() == es.len());
        assert forall|j: int| 0 <= j < items@.len() implies entry_shape(
            failure_item_view(#[trigger] items@[j]),
        ) == entry_shape(es[j]) by {
            assert(raw_items_view(raw@)[j] == raw_item_view(raw@[j]));
            assert(shapes(raw_items_view(raw@))[j] == entry_shape(raw_items_view(raw@)[j]));
            assert(shapes(es)[j] == entry_shape(es[j]));
        }
        lemma_allowed_keys(items@, es);
        if exists|k: int| first_failed_entry(es, k) {
            let k = choose|k: int| first_failed_entry(es, k);
            assert(first_failure(items@, k)) by {
                assert(entry_shape(failure_item_view(items@[k])) == entry_shape(es[k]));
                assert forall|j: int| 0 <= j < k implies items@[j] is Ok by {
                    assert(entry_shape(failure_item_view(items@[j])) == entry_shape(es[j]));
                }
            }
            let w = choose|w: int|
                #[trigger] first_failure(items@, w) && (r matches Err(e) && is_usage(
                    e,
                    dotenv_failure_message(path@, items@[w]->Err_0),
                ));
            if w < k {
                assert(entry_shape(failure_item_view(items@[w])) == entry_shape(es[w]));
            } else if k < w {
                assert(items@[k] is Ok);
            }
            assert(w == k);
            assert(entry_shape(failure_item_view(items@[k])) == entry_shape(es[k]));
            match items@[k]->Err_0 {
                DotenvFailure::LineParse { index } => {},
                DotenvFailure::Other { text } => {
                    assert(dotenv_failure_message(path@, items@[k]->Err_0) == cannot_load_message(
                        path@,
                        text@,
                    ));
                },
            }
        } else {
            assert(!exists|k: int| first_failure(items@, k)) by {
                if exists|k: int| first_failure(items@, k) {
                    let k = choose|k: int| first_failure(items@, k);
                    assert(entry_shape(failure_item_view(items@[k])) == entry_shape(es[k]));
                    assert forall|j: int| 0 <= j < k implies es[j] is Ok by {
                        assert(entry_shape(failure_item_view(items@[j])) == entry_shape(es[j]));
                    }
                    assert(first_failed_entry(es, k));
                }
            }
        }
        let rv = raw_items_view(raw@);
        assert forall|j: int| 0 <= j < items@.len() implies failure_item_view(#[trigger] items@[j]) == rv[j] by {
            assert(rv[j] == raw_item_view(raw@[j]));
        }
        lemma_allowed_vars_entries(items@, rv);
        assert forall|j: int| #[trigger] ref_free_lines(contents@, j) implies (r matches Ok(v) ==> {
            let lead = allowed_entries(
                dotenv_entries(contents@.take(j)).take(ok_prefix_len(dotenv_entries(contents@.take(j)))),
            );
            &&& lead.len() <= v.len()
            &&& pairs_view(v@).take(lead.len() as int) == lead
        }) by {
            let ep = dotenv_entries(contents@.take(j));
            let m = ok_prefix_len(ep);
            assert(starts_with_assignments_of(rv, ep));
            if m < 0 {
                let k = choose|k: int| first_failed_entry(ep, k);
                assert(first_failed_entry(ep, k));
            }
            lemma_allowed_entries_take(rv, m);
            assert(rv.take(m) == ep.take(m));
        }
        if !contents@.contains(36u8) {
            assert(raw_items_view(raw@) == es);
            assert forall|j: int| 0 <= j < items@.len() implies failure_item_view(#[trigger] items@[j]) == es[j] by {
                assert(raw_items_view(raw@)[j] == raw_item_view(raw@[j]));
            }
            lemma_allowed_vars_entries(items@, es);
        }
    }
    r
}

/// The environment after loading `vars` without overriding: each
/// assignment is applied, in order, only when its key is not already set.
/// (So the real environment wins, and within a file the first occurrence
/// wins.)
pub open spec fn fill_missing(env: Map<Seq<char>, Seq<char>>, vars: Seq<(Seq<char>, Seq<char>)>) -> Map<
    Seq<char>,
    Seq<char>,
>
    decreases vars.len(),
{
    if vars.len() == 0 {
        env
    } else {
        let e = fill_missing(env, vars.drop_last());
        if e.dom().contains(vars.last().0) {
            e
        } else {
            e.insert(vars.last().0, vars.last().1)
        }
    }
}

/// The environment after setting each assignment in order.
pub open spec fn set_all(env: Map<Seq<char>, Seq<char>>, assigns: Seq<(Seq<char>, Seq<char>)>) -> Map<
    Seq<char>,
    Seq<char>,
>
    decreases assigns.len(),
{
    if assigns.len() == 0 {
        env
    } else {
        set_all(env, assigns.drop_last()).insert(assigns.last().0, assigns.last().1)
    }
}

/// The keys of a list of assignments.
pub open spec fn keys_of(vars: Seq<(Seq<char>, Seq<char>)>) -> Seq<Seq<char>> {
    vars.map_values(|p: (Seq<char>, Seq<char>)| p.0)
}

/// The assignments that loading `vars` performs when the keys in `present`
/// are already set: those whose key is neither set nor assigned earlier in
/// the file.
pub open spec fn missing_vars(vars: Seq<(Seq<char>, Seq<char>)>, present: Seq<Seq<char>>) -> Seq<
    (Seq<char>, Seq<char>),
>
    decreases vars.len(),
{
    if vars.len() == 0 {
        seq![]
    } else {
        let r = missing_vars(vars.drop_last(), present);
        if present.contains(vars.last().0) || keys_of(vars.drop_last()).contains(vars.last().0) {
            r
        } else {
            r.push(vars.last())
        }
    }
}

/// The view of a list of strings.
pub open spec fn strings_view(v: Seq<String>) -> Seq<Seq<char>> {
    v.map_values(|s: String| s@)
}

/// The assignments to perform so that loading `vars` never overrides a
/// variable that is already set; `present` lists the keys already set.
/// Applying them in order yields `fill_missing` (see
/// `lemma_missing_vars_fill_missing`).
pub fn apply_missing(vars: &Vec<(String, String)>, present: &Vec<String>) -> (r: Vec<(String, String)>)
    ensures
        pairs_view(r@) == missing_vars(pairs_view(vars@), strings_view(present@)),
{
    let ghost vs = pairs_view(vars@);
    let ghost ps = strings_view(present@);
    let mut out: Vec<(String, String)> = Vec::new();
    let n = vars.len();
    let mut i: usize = 0;
    while i < n
        invariant
            i <= n,
            n == vars.len(),
            vs == pairs_view(vars@),
            ps == strings_view(present@),
            pairs_view(out@) == missing_vars(vs.take(i as int), ps),
        decreases n - i,
    {
        let key = &vars[i].0;
        let mut seen = false;
        let m = present.len();
        let mut j: usize = 0;
        while j < m && !seen
            invariant
                j <= m,
                m == present.len(),
                ps == strings_view(present@),
                seen ==> ps.contains(key@),
                !seen ==> forall|t: int| 0 <= t < j ==> ps[t] != key@,
            decreases m - j + (if seen { 0int } else { 1int }),
        {
            if present[j] == *key {
                assert(ps[j as int] == key@);
                seen = true;
            } else {
                j = j + 1;
            }
        }
        let mut t: usize = 0;
        while t < i && !seen
            invariant
                t <= i < n,
                n == vars.len(),
                vs == pairs_view(vars@),
                seen ==> ps.contains(key@) || keys_of(vs.take(i as int)).contains(key@),
                !seen ==> !ps.contains(key@),
                !seen ==> forall|u: int| 0 <= u < t ==> keys_of(vs.take(i as int))[u] != key@,
            decreases i - t + (if seen { 0int } else { 1int }),
        {
            if vars[t].0 == *key {
                assert(keys_of(vs.take(i as int))[t as int] == key@);
                seen = true;
            } else {
                t = t + 1;
            }
        }
        proof {
            let pre = vs.take(i as int);
            let cur = vs.take(i + 1);
            assert(cur.drop_last() =~= pre);
            assert(cur.last() == vs[i as int]);
            assert(vs[i as int].0 == key@);
            if !seen {
                assert(!keys_of(pre).contains(key@)) by {
                    if keys_of(pre).contains(key@) {
                        let u = choose|u: int| 0 <= u < keys_of(pre).len() && keys_of(pre)[u] == key@;
                        assert(keys_of(pre)[u] != key@);
                    }
                }
            }
        }
        if !seen {
            let pair = (vars[i].0.clone(), vars[i].1.clone());
            out.push(pair);
            assert(pairs_view(out@) =~= missing_vars(vs.take(i + 1), ps));
        } else {
            assert(missing_vars(vs.take(i + 1), ps) == missing_vars(vs.take(i as int), ps));
        }
        i = i + 1;
    }
    assert(vs.take(n as int) =~= vs);
    out
}


/// The value the first assignment to `k` in `vars` gives it, if any.
pub open spec fn first_value(vars: Seq<(Seq<char>, Seq<char>)>, k: Seq<char>) -> Option<Seq<char>>
    decreases vars.len(),
{
    if vars.len() == 0 {
        None
    } else {
        match first_value(vars.drop_last(), k) {
            Some(v) => Some(v),
            None => if vars.last().0 == k {
                Some(vars.last().1)
            } else {
                None
            },
        }
    }
}

proof fn lemma_first_value_some_iff_key(vars: Seq<(Seq<char>, Seq<char>)>, k: Seq<char>)
    ensures
        (first_value(vars, k) is Some) == keys_of(vars).contains(k),
    decreases vars.len(),
{
    if vars.len() > 0 {
        let pre = vars.drop_last();
        lemma_first_value_some_iff_key(pre, k);
        assert(keys_of(vars) =~= keys_of(pre).push(vars.last().0));
        if keys_of(pre).contains(k) {
            let u = choose|u: int| 0 <= u < keys_of(pre).len() && keys_of(pre)[u] == k;
            assert(keys_of(vars)[u] == k);
        }
        if keys_of(vars).contains(k) && !keys_of(pre).contains(k) {
            let u = choose|u: int| 0 <= u < keys_of(vars).len() && keys_of(vars)[u] == k;
            if u < pre.len() {
                assert(keys_of(pre)[u] == k);
            }
        }
        if vars.last().0 == k {
            assert(keys_of(vars)[vars.len() - 1] == k);
        }
    }
}

/// Loading without overriding: a variable already in the environment keeps
/// its value; an unset one takes the value of its first assignment in the
/// file; one the file does not assign stays unset.
pub proof fn law_environment_wins_then_first_assignment(
    env: Map<Seq<char>, Seq<char>>,
    vars: Seq<(Seq<char>, Seq<char>)>,
    k: Seq<char>,
)
    ensures
        env.dom().contains(k) ==> fill_missing(env, vars).dom().contains(k) && fill_missing(
            env,
            vars,
        )[k] == env[k],
        !env.dom().contains(k) ==> match first_value(vars, k) {
            Some(v) => fill_missing(env, vars).dom().contains(k) && fill_missing(env, vars)[k] == v,
            None => !fill_missing(env, vars).dom().contains(k),
        },
    decreases vars.len(),
{
    if vars.len() > 0 {
        law_environment_wins_then_first_assignment(env, vars.drop_last(), k);
    }
}

/// Which keys loading sets: those already set plus those the file assigns.
proof fn lemma_fill_missing_dom(
    env: Map<Seq<char>, Seq<char>>,
    vars: Seq<(Seq<char>, Seq<char>)>,
    k: Seq<char>,
)
    ensures
        fill_missing(env, vars).dom().contains(k) == (env.dom().contains(k) || keys_of(
            vars,
        ).contains(k)),
{
    law_environment_wins_then_first_assignment(env, vars, k);
    lemma_first_value_some_iff_key(vars, k);
}

/// Setting the assignments that `apply_missing` returns, in order, has the
/// same effect as loading the file without overriding, provided `present`
/// tells exactly which of the file's keys are already set.
pub proof fn lemma_missing_vars_fill_missing(
    env: Map<Seq<char>, Seq<char>>,
    vars: Seq<(Seq<char>, Seq<char>)>,
    present: Seq<Seq<char>>,
)
    requires
        forall|i: int|
            0 <= i < vars.len() ==> present.contains((#[trigger] vars[i]).0) == env.dom().contains(
                vars[i].0,
            ),
    ensures
        set_all(env, missing_vars(vars, present)) == fill_missing(env, vars),
    decreases vars.len(),
{
    if vars.len() > 0 {
        let pre = vars.drop_last();
        let (k, v) = vars.last();
        assert forall|i: int| 0 <= i < pre.len() implies present.contains((#[trigger] pre[i]).0)
            == env.dom().contains(pre[i].0) by {
            assert(pre[i] == vars[i]);
        }
        lemma_missing_vars_fill_missing(env, pre, present);
        lemma_fill_missing_dom(env, pre, k);
        assert(vars[vars.len() - 1] == vars.last());
        let r = missing_vars(pre, present);
        if present.contains(k) || keys_of(pre).contains(k) {
            assert(missing_vars(vars, present) == r);
            assert(fill_missing(env, pre).dom().contains(k));
        } else {
            assert(missing_vars(vars, present) == r.push((k, v)));
            assert(r.push((k, v)).drop_last() =~= r);
            assert(!fill_missing(env, pre).dom().contains(k));
        }
    }
}

/// Every assignment that loading performs comes from the file itself.
proof fn lemma_missing_vars_from_file(
    vars: Seq<(Seq<char>, Seq<char>)>,
    present: Seq<Seq<char>>,
    i: int,
)
    requires
        0 <= i < missing_vars(vars, present).len(),
    ensures
        vars.contains(missing_vars(vars, present)[i]),
    decreases vars.len(),
{
    let pre = vars.drop_last();
    let r = missing_vars(pre, present);
    if i < r.len() {
        lemma_missing_vars_from_file(pre, present, i);
        let j = choose|j: int| 0 <= j < pre.len() && pre[j] == r[i];
        assert(vars[j] == pre[j]);
    } else {
        assert(vars[vars.len() - 1] == vars.last());
    }
}

/// Files never set transport: when a file's assignments are allowlisted
/// (as `parse_allowlisted` guarantees), loading it only ever sets
/// `TYPESAFE_API_KEY` or `TYPESAFE_DEFAULT_MODEL`, never
/// `TYPESAFE_BASE_URL`.
pub proof fn law_files_never_set_transport(
    vars: Seq<(Seq<char>, Seq<char>)>,
    present: Seq<Seq<char>>,
)
    requires
        forall|i: int| 0 <= i < vars.len() ==> is_allowed_file_var((#[trigger] vars[i]).0),
    ensures
        forall|i: int|
            0 <= i < missing_vars(vars, present).len() ==> {
                &&& is_allowed_file_var((#[trigger] missing_vars(vars, present)[i]).0)
                &&& missing_vars(vars, present)[i].0 != "TYPESAFE_BASE_URL"@
            },
{
    assert forall|i: int| 0 <= i < missing_vars(vars, present).len() implies {
        &&& is_allowed_file_var((#[trigger] missing_vars(vars, present)[i]).0)
        &&& missing_vars(vars, present)[i].0 != "TYPESAFE_BASE_URL"@
    } by {
        lemma_missing_vars_from_file(vars, present, i);
        let j = choose|j: int| 0 <= j < vars.len() && vars[j] == missing_vars(vars, present)[i];
        assert(is_allowed_file_var(vars[j].0));
        reveal_strlit("TYPESAFE_BASE_URL");
        reveal_strlit("TYPESAFE_API_KEY");
        reveal_strlit("TYPESAFE_DEFAULT_MODEL");
        assert("TYPESAFE_BASE_URL"@[9] != "TYPESAFE_API_KEY"@[9]);
        assert("TYPESAFE_BASE_URL"@.len() != "TYPESAFE_DEFAULT_MODEL"@.len());
    }
}

/// Every key that `allowed_entries` keeps is allowlisted.
proof fn lemma_allowed_entries_allowed(es: Seq<DotenvEntry>, i: int)
    requires
        0 <= i < allowed_entries(es).len(),
    ensures
        is_allowed_file_var(allowed_entries(es)[i].0),
    decreases es.len(),
{
    let r = allowed_entries(es.drop_last());
    if i < r.len() {
        lemma_allowed_entries_allowed(es.drop_last(), i);
    }
}

/// Assignments to the keys that `allowed_entries` keeps are to allowlisted
/// keys.
proof fn lemma_same_keys_allowed(vars: Seq<(Seq<char>, Seq<char>)>, es: Seq<DotenvEntry>, k: Seq<char>)
    requires
        keys_of(vars) == keys_of(allowed_entries(es)),
        keys_of(vars).contains(k),
    ensures
        is_allowed_file_var(k),
{
    let u = choose|u: int| 0 <= u < keys_of(vars).len() && keys_of(vars)[u] == k;
    assert(keys_of(allowed_entries(es))[u] == k);
    lemma_allowed_entries_allowed(es, u);
}

/// Loading a file into the environment. Let `vars` be what
/// [`parse_allowlisted`] returns for contents that parse without a failed
/// line: their keys are those of `allowed_entries(dotenv_entries(..))`
/// whatever the environment holds, and for contents without a `$` they are
/// those assignments themselves. Applying the assignments that
/// [`apply_missing`] picks from them (given `present`, the keys already set)
/// leaves a variable that was set unchanged, gives an unset variable its
/// first value in `vars` (leaving it unset when the file does not assign
/// it), and never sets a variable off the allowlist, `TYPESAFE_BASE_URL`
/// among them.
pub proof fn law_loading_a_file(
    env: Map<Seq<char>, Seq<char>>,
    contents: Seq<u8>,
    vars: Seq<(Seq<char>, Seq<char>)>,
    present: Seq<Seq<char>>,
    k: Seq<char>,
)
    requires
        !exists|j: int| first_failed_entry(dotenv_entries(contents), j),
        keys_of(vars) == keys_of(allowed_entries(dotenv_entries(contents))),
        forall|i: int|
            0 <= i < vars.len() ==> present.contains((#[trigger] vars[i]).0) == env.dom().contains(
                vars[i].0,
            ),
    ensures
        ({
            let after = set_all(env, missing_vars(vars, present));
            if env.dom().contains(k) {
                after.dom().contains(k) && after[k] == env[k]
            } else if is_allowed_file_var(k) {
                match first_value(vars, k) {
                    Some(v) => after.dom().contains(k) && after[k] == v,
                    None => !after.dom().contains(k),
                }
            } else {
                !after.dom().contains(k)
            }
        }),
{
    lemma_missing_vars_fill_missing(env, vars, present);
    law_environment_wins_then_first_assignment(env, vars, k);
    if !is_allowed_file_var(k) {
        lemma_first_value_some_iff_key(vars, k);
        if keys_of(vars).contains(k) {
            lemma_same_keys_allowed(vars, dotenv_entries(contents), k);
        }
    }
}

/// Precedence of the sources as the program loads them: the project
/// `.env` (assignments `d`, as `parse_allowlisted` returns them for
/// `dotenv_contents`) is applied first and the user config (`c`, for
/// `config_contents`) second, each through [`apply_missing`] with
/// `present` listing its keys that are already set. Then a variable set in
/// the real environment keeps its value; an unset allowlisted variable takes
/// its first value in `.env`, else its first value in the config file, else
/// stays unset; and no other variable is ever set. That is: user config <
/// `.env` < real environment.
pub proof fn law_file_precedence(
    env: Map<Seq<char>, Seq<char>>,
    dotenv_contents: Seq<u8>,
    d: Seq<(Seq<char>, Seq<char>)>,
    dotenv_present: Seq<Seq<char>>,
    config_contents: Seq<u8>,
    c: Seq<(Seq<char>, Seq<char>)>,
    config_present: Seq<Seq<char>>,
    k: Seq<char>,
)
    requires
        !exists|j: int| first_failed_entry(dotenv_entries(dotenv_contents), j),
        !exists|j: int| first_failed_entry(dotenv_entries(config_contents), j),
        keys_of(d) == keys_of(allowed_entries(dotenv_entries(dotenv_contents))),
        keys_of(c) == keys_of(allowed_entries(dotenv_entries(config_contents))),
        forall|i: int|
            0 <= i < d.len() ==> dotenv_present.contains((#[trigger] d[i]).0) == env.dom().contains(
                d[i].0,
            ),
        forall|i: int|
            0 <= i < c.len() ==> config_present.contains((#[trigger] c[i]).0) == set_all(
                env,
                missing_vars(d, dotenv_present),
            ).dom().contains(c[i].0),
    ensures
        ({
            let loaded = set_all(
                set_all(env, missing_vars(d, dotenv_present)),
                missing_vars(c, config_present),
            );
            if env.dom().contains(k) {
                loaded.dom().contains(k) && loaded[k] == env[k]
            } else if !is_allowed_file_var(k) {
                !loaded.dom().contains(k)
            } else if first_value(d, k) is Some {
                loaded.dom().contains(k) && loaded[k] == first_value(d, k)->0
            } else if first_value(c, k) is Some {
                loaded.dom().contains(k) && loaded[k] == first_value(c, k)->0
            } else {
                !loaded.dom().contains(k)
            }
        }),
{
    lemma_missing_vars_fill_missing(env, d, dotenv_present);
    let env1 = set_all(env, missing_vars(d, dotenv_present));
    lemma_missing_vars_fill_missing(env1, c, config_present);
    law_configuration_precedence(env, d, c, k);
    if !is_allowed_file_var(k) {
        lemma_first_value_some_iff_key(d, k);
        lemma_first_value_some_iff_key(c, k);
        if keys_of(d).contains(k) {
            lemma_same_keys_allowed(d, dotenv_entries(dotenv_contents), k);
        }
        if keys_of(c).contains(k) {
            lemma_same_keys_allowed(c, dotenv_entries(config_contents), k);
        }
    }
}

/// Loading assignments whose keys are all set already changes nothing.
proof fn lemma_fill_missing_all_set(env: Map<Seq<char>, Seq<char>>, vars: Seq<(Seq<char>, Seq<char>)>)
    requires
        forall|i: int| 0 <= i < vars.len() ==> env.dom().contains((#[trigger] vars[i]).0),
    ensures
        fill_missing(env, vars) == env,
    decreases vars.len(),
{
    if vars.len() > 0 {
        let pre = vars.drop_last();
        assert forall|i: int| 0 <= i < pre.len() implies env.dom().contains((#[trigger] pre[i]).0) by {
            assert(pre[i] == vars[i]);
        }
        lemma_fill_missing_all_set(env, pre);
        assert(vars[vars.len() - 1] == vars.last());
    }
}

/// Loading an unchanged file again gives the same outcome: two results that
/// both meet [`parsed_keys_as`] for the same entries both succeed or both
/// fail, with assignments to the same keys, and a malformed line fails both
/// with the same message.
pub proof fn law_reload_same_outcome(
    path: Seq<char>,
    es: Seq<DotenvEntry>,
    r1: Result<Vec<(String, String)>, CliError>,
    r2: Result<Vec<(String, String)>, CliError>,
)
    requires
        parsed_keys_as(path, es, r1),
        parsed_keys_as(path, es, r2),
    ensures
        r1 is Ok <==> r2 is Ok,
        r1 is Ok ==> keys_of(pairs_view(r1->Ok_0@)) == keys_of(pairs_view(r2->Ok_0@)),
        (exists|k: int| first_failed_entry(es, k) && es[k] matches Err(Some(_))) ==> (r1 matches Err(
            CliError::Usage(m1),
        ) && r2 matches Err(CliError::Usage(m2)) && m1@ == m2@),
{
    if exists|k: int| first_failed_entry(es, k) && es[k] matches Err(Some(_)) {
        let k = choose|k: int| first_failed_entry(es, k) && es[k] matches Err(Some(_));
        let c = choose|k: int| first_failed_entry(es, k);
        if c < k {
            assert(es[c] is Ok);
        } else if k < c {
            assert(es[k] is Ok);
        }
    }
}

/// Loading an unchanged file again changes nothing: once the assignments
/// `v1` of a first load are applied through [`apply_missing`], applying
/// those of a second load `v2` (the same keys: a file's keys do not depend
/// on the environment) leaves the environment as the first load left it.
/// `p1` and `p2` list the keys already set before each load.
pub proof fn law_reload_changes_nothing(
    env: Map<Seq<char>, Seq<char>>,
    v1: Seq<(Seq<char>, Seq<char>)>,
    p1: Seq<Seq<char>>,
    v2: Seq<(Seq<char>, Seq<char>)>,
    p2: Seq<Seq<char>>,
)
    requires
        keys_of(v1) == keys_of(v2),
        forall|i: int|
            0 <= i < v1.len() ==> p1.contains((#[trigger] v1[i]).0) == env.dom().contains(v1[i].0),
        forall|i: int|
            0 <= i < v2.len() ==> p2.contains((#[trigger] v2[i]).0) == set_all(
                env,
                missing_vars(v1, p1),
            ).dom().contains(v2[i].0),
    ensures
        set_all(set_all(env, missing_vars(v1, p1)), missing_vars(v2, p2)) == set_all(
            env,
            missing_vars(v1, p1),
        ),
{
    lemma_missing_vars_fill_missing(env, v1, p1);
    let env1 = set_all(env, missing_vars(v1, p1));
    lemma_missing_vars_fill_missing(env1, v2, p2);
    assert forall|i: int| 0 <= i < v2.len() implies env1.dom().contains((#[trigger] v2[i]).0) by {
        assert(keys_of(v2)[i] == v2[i].0);
        assert(keys_of(v1).contains(v2[i].0));
        lemma_fill_missing_dom(env, v1, v2[i].0);
    }
    lemma_fill_missing_all_set(env1, v2);
}

/// Precedence of the configuration sources, lowest first: the user config
/// file < the project `.env` < the real environment. The `.env` file is
/// loaded first and the config file second, each filling only unset
/// variables; a variable then holds its environment value if it had one,
/// else its first `.env` value, else its first config value.
pub proof fn law_configuration_precedence(
    env: Map<Seq<char>, Seq<char>>,
    dotenv_vars: Seq<(Seq<char>, Seq<char>)>,
    config_vars: Seq<(Seq<char>, Seq<char>)>,
    k: Seq<char>,
)
    ensures
        ({
            let loaded = fill_missing(fill_missing(env, dotenv_vars), config_vars);
            if env.dom().contains(k) {
                loaded.dom().contains(k) && loaded[k] == env[k]
            } else if first_value(dotenv_vars, k) is Some {
                loaded.dom().contains(k) && loaded[k] == first_value(dotenv_vars, k)->0
            } else if first_value(config_vars, k) is Some {
                loaded.dom().contains(k) && loaded[k] == first_value(config_vars, k)->0
            } else {
                !loaded.dom().contains(k)
            }
        }),
{
    law_environment_wins_then_first_assignment(env, dotenv_vars, k);
    law_environment_wins_then_first_assignment(fill_missing(env, dotenv_vars), config_vars, k);
}


/// What reading a file produced.
#[derive(Debug)]
pub enum FileRead {
    /// There is no file at the path; `reason` is the IO error's text.
    Missing { reason: String },
    /// The file could not be read; `reason` is the IO error's text.
    Failed { reason: String },
    /// The file's contents.
    Contents(Vec<u8>),
}

/// The error for a file that could not be read.
pub open spec fn cannot_load_message(path: Seq<char>, reason: Seq<char>) -> Seq<char> {
    "cannot load "@ + path + ": "@ + reason
}

/// The file `load_env_file` reads: the given path, or `.env` in the
/// current directory.
pub open spec fn env_file_path_of(path: Option<Seq<char>>) -> Seq<char> {
    match path {
        Some(p) => p,
        None => DEFAULT_ENV_FILE@,
    }
}

/// The view of an optional string slice.
pub open spec fn opt_str_view(o: Option<&str>) -> Option<Seq<char>> {
    match o {
        Some(s) => Some(s@),
        None => None,
    }
}

/// The file `load_env_file` reads for `path` (see [`env_file_path_of`]).
pub fn env_file_path(path: Option<&str>) -> (r: String)
    ensures
        r@ == env_file_path_of(opt_str_view(path)),
{
    match path {
        Some(p) => p.to_owned(),
        None => DEFAULT_ENV_FILE.to_owned(),
    }
}

/// Load environment variables from a `.env`-style file, given what reading
/// [`env_file_path`] produced; returns the allowlisted assignments (apply
/// them with [`apply_missing`], which never overrides the real
/// environment).
///
/// * `None` means `.env` in the current directory; a missing default file
///   is not an error and loads nothing.
/// * `Some(path)` is strict: any failure (missing file, parse error) is an
///   error.
pub fn load_env_file(path: Option<&str>, read: FileRead) -> (r: Result<Vec<(String, String)>, CliError>)
    ensures
        read is Missing && path is None ==> (r matches Ok(v) && v.len() == 0),
        read is Missing && path is Some ==> (r matches Err(e) && is_usage(
            e,
            cannot_load_message(env_file_path_of(opt_str_view(path)), read->Missing_reason@),
        )),
        read is Failed ==> (r matches Err(e) && is_usage(
            e,
            cannot_load_message(env_file_path_of(opt_str_view(path)), read->Failed_reason@),
        )),
        read is Contents ==> {
            &&& r matches Ok(v) ==> forall|i: int|
                0 <= i < v.len() ==> is_allowed_file_var((#[trigger] v@[i]).0@)
            &&& r matches Err(e) ==> e is Usage
        },
        read matches FileRead::Contents(b) ==> parsed_keys_as(
            env_file_path_of(opt_str_view(path)),
            dotenv_entries(b@),
            r,
        ),
        read matches FileRead::Contents(b) ==> keeps_leading_values(b@, r),
        read matches FileRead::Contents(b) ==> !b@.contains(36u8) ==> parsed_as(
            env_file_path_of(opt_str_view(path)),
            dotenv_entries(b@),
            r,
        ),
{
    let file = env_file_path(path);
    match read {
        FileRead::Missing { reason } => {
            if path.is_none() {
                return Ok(Vec::new());
            }
            let mut m = concat_str("cannot load ", file.as_str());
            push_str(&mut m, ": ");
            push_str(&mut m, reason.as_str());
            Err(CliError::Usage(m))
        },
        FileRead::Failed { reason } => {
            let mut m = concat_str("cannot load ", file.as_str());
            push_str(&mut m, ": ");
            push_str(&mut m, reason.as_str());
            Err(CliError::Usage(m))
        },
        FileRead::Contents(bytes) => parse_allowlisted(file.as_str(), bytes.as_slice()),
    }
}

} // verus!
