//! User-level configuration: `~/.jevcli/jev.conf`.
//!
//! Same dotenv-style `KEY=value` format and the same allowlist as `.env`;
//! files only fill variables that are not already set, and the project
//! `.env` is loaded before the user config.
use vstd::prelude::*;

use crate::env::{
    cannot_load_message, dotenv_entries, is_allowed_file_var, opt_str_view, parse_allowlisted,
    keeps_leading_values, parsed_as, parsed_keys_as, FileRead,
};
use crate::error::{is_usage, CliError};
use crate::run::opt_view;
use crate::text::{chars_of, concat_str, octal4, push_char, push_octal4, push_str};

verus! {

/// The directory inside the user's home that holds the config file.
pub const DEFAULT_CONFIG_DIR: &'static str = ".jevcli";

/// The config file name.
pub const DEFAULT_CONFIG_NAME: &'static str = "jev.conf";

/// `base` joined with the relative component `comp`, as a Unix
/// `Path::join` does: a `/` goes between them unless `base` is empty or
/// already ends with one.
pub open spec fn path_join(base: Seq<char>, comp: Seq<char>) -> Seq<char> {
    if base.len() == 0 {
        comp
    } else if base.last() == '/' {
        base + comp
    } else {
        base + "/"@ + comp
    }
}

/// Join a relative component onto a path (see [`path_join`]).
pub fn join_path(base: &str, comp: &str) -> (r: String)
    ensures
        r@ == path_join(base@, comp@),
{
    let mut r = base.to_owned();
    if base.is_empty() {
        return comp.to_owned();
    }
    let chars = chars_of(base);
    if chars[chars.len() - 1] != '/' {
        push_char(&mut r, '/');
        proof {
            assert("/"@ =~= seq!['/']) by {
                reveal_strlit("/");
            }
        }
    }
    push_str(&mut r, comp);
    r
}

/// The config path under a home directory: `<home>/.jevcli/jev.conf`.
pub open spec fn config_path_of(home: Seq<char>) -> Seq<char> {
    path_join(path_join(home, DEFAULT_CONFIG_DIR@), DEFAULT_CONFIG_NAME@)
}

/// `<home>/.jevcli/jev.conf`.
pub fn config_path_in(home: &str) -> (r: String)
    ensures
        r@ == config_path_of(home@),
{
    let dir = join_path(home, DEFAULT_CONFIG_DIR);
    join_path(dir.as_str(), DEFAULT_CONFIG_NAME)
}

/// The default config path given the `HOME` and `USERPROFILE` variables:
/// `$HOME/.jevcli/jev.conf`, falling back to `%USERPROFILE%`; `None` when
/// neither is set.
pub open spec fn default_config_path(home: Option<Seq<char>>, user_profile: Option<Seq<char>>) -> Option<
    Seq<char>,
> {
    match home {
        Some(h) => Some(config_path_of(h)),
        None => match user_profile {
            Some(u) => Some(config_path_of(u)),
            None => None,
        },
    }
}

/// The config file is `.jevcli/jev.conf` under the home directory: for a
/// home without a trailing `/`, the path is the home, then
/// `/.jevcli/jev.conf`.
pub proof fn law_config_path_under_home(home: Seq<char>)
    requires
        home.len() > 0,
        home.last() != '/',
    ensures
        config_path_of(home) == home + "/.jevcli/jev.conf"@,
{
    reveal_strlit(".jevcli");
    reveal_strlit("jev.conf");
    reveal_strlit("/");
    reveal_strlit("/.jevcli/jev.conf");
    let dir = home + "/"@ + ".jevcli"@;
    assert(dir.last() == 'i');
    assert(config_path_of(home) =~= home + "/.jevcli/jev.conf"@);
}

/// `HOME` wins: whenever it is set the config file lies under it, whatever
/// `USERPROFILE` holds; `USERPROFILE` is used only when `HOME` is unset;
/// and there is no default file only when neither is set.
pub proof fn law_home_then_user_profile(home: Option<Seq<char>>, user_profile: Option<Seq<char>>)
    ensures
        home matches Some(h) ==> default_config_path(home, user_profile) == Some(config_path_of(h)),
        home is None ==> default_config_path(home, user_profile) == match user_profile {
            Some(u) => Some(config_path_of(u)),
            None => None,
        },
        default_config_path(home, user_profile) is None <==> (home is None && user_profile is None),
{
}

/// The default config path (see [`default_config_path`]).
pub fn user_config_path_from(home: Option<&str>, user_profile: Option<&str>) -> (r: Option<String>)
    ensures
        opt_view(r) == default_config_path(opt_str_view(home), opt_str_view(user_profile)),
        home matches Some(h) ==> (r matches Some(p) && p@ == config_path_of(h@)),
        home is None ==> (user_profile matches Some(u) ==> (r matches Some(p) && p@
            == config_path_of(u@))),
        r is None <==> (home is None && user_profile is None),
{
    match home {
        Some(h) => Some(config_path_in(h)),
        None => match user_profile {
            Some(u) => Some(config_path_in(u)),
            None => None,
        },
    }
}

/// The config file to load: the given path, else the default one; `None`
/// when no home directory is known (nothing to load, not an error).
pub fn config_file_path(path: Option<&str>, home: Option<&str>, user_profile: Option<&str>) -> (r:
    Option<String>)
    ensures
        opt_view(r) == match path {
            Some(p) => Some(p@),
            None => default_config_path(opt_str_view(home), opt_str_view(user_profile)),
        },
        path is None ==> (home matches Some(h) ==> (r matches Some(q) && q@ == config_path_of(h@))),
{
    match path {
        Some(p) => Some(p.to_owned()),
        None => user_config_path_from(home, user_profile),
    }
}


/// Which file a `--env-file` / `--config-file` flag selects.
#[derive(Debug, PartialEq, Eq)]
pub enum FileChoice {
    /// `none`: load no file at all.
    Disabled,
    /// No flag: the default file; a missing one is fine and a broken one
    /// only warns.
    Default,
    /// An explicit path: any failure is an error.
    Explicit(String),
}

/// The file a `--env-file` / `--config-file` flag selects: `none` disables
/// loading, no flag means the default file, anything else is an explicit
/// path.
pub fn file_choice(flag: Option<&str>) -> (r: FileChoice)
    ensures
        match flag {
            None => r == FileChoice::Default,
            Some(f) => if f@ == "none"@ {
                r == FileChoice::Disabled
            } else {
                r matches FileChoice::Explicit(p) && p@ == f@
            },
        },
{
    match flag {
        None => FileChoice::Default,
        Some(f) => {
            let given = f.to_owned();
            if given == "none".to_owned() {
                FileChoice::Disabled
            } else {
                FileChoice::Explicit(given)
            }
        },
    }
}

/// What happened during a load. Only ever carries diagnostics, never loaded
/// values.
#[derive(Debug)]
pub struct LoadOutcome {
    /// Non-fatal problems worth surfacing on stderr (e.g. loose
    /// permissions).
    pub warnings: Vec<String>,
}

impl Default for LoadOutcome {
    fn default() -> (r: LoadOutcome)
        ensures
            r.warnings.len() == 0,
    {
        LoadOutcome { warnings: Vec::new() }
    }
}

/// The permission bits of a file mode.
pub open spec fn permission_bits(mode: u32) -> u32 {
    mode & 0o777
}

/// The warning for a credential file that group or others may access: any
/// of the `0o077` bits set. `None` when the mode is unknown or tight.
pub open spec fn permissions_warning_of(path: Seq<char>, mode: Option<u32>) -> Option<Seq<char>> {
    match mode {
        Some(m) => if permission_bits(m) & 0o077 == 0 {
            None
        } else {
            Some(
                path + ": permissions "@ + octal4(permission_bits(m) as nat)
                    + " are too open for a file holding an API key; run: chmod 600 "@ + path,
            )
        },
        None => None,
    }
}

/// Warn when a credential file is readable by group or others; `mode` is
/// the file's Unix mode, `None` where it is unknown.
pub fn permissions_warning(path: &str, mode: Option<u32>) -> (r: Option<String>)
    ensures
        opt_view(r) == permissions_warning_of(path@, mode),
{
    match mode {
        None => None,
        Some(m) => {
            let bits = m & 0o777;
            if bits & 0o077 == 0 {
                return None;
            }
            assert(m & 0o777 <= 0o777) by (bit_vector);
            let mut w = path.to_owned();
            push_str(&mut w, ": permissions ");
            push_octal4(&mut w, bits);
            push_str(&mut w, " are too open for a file holding an API key; run: chmod 600 ");
            push_str(&mut w, path);
            Some(w)
        },
    }
}

/// The assignments part of what [`load_config_file`] returns.
pub open spec fn assignments_of(r: Result<(Vec<(String, String)>, LoadOutcome), CliError>) -> Result<
    Vec<(String, String)>,
    CliError,
> {
    match r {
        Ok((v, _)) => Ok(v),
        Err(e) => Err(e),
    }
}

/// Load the user config file, given what reading it produced; returns the
/// allowlisted assignments (apply them with `env::apply_missing`) and the
/// diagnostics.
///
/// * A missing file that was not asked for explicitly loads nothing.
/// * An explicitly given file is strict: any failure is an error.
///
/// `mode` is the file's Unix mode (`None` where unknown), used only for the
/// permissions warning.
pub fn load_config_file(path: &str, explicit: bool, read: FileRead, mode: Option<u32>) -> (r: Result<
    (Vec<(String, String)>, LoadOutcome),
    CliError,
>)
    ensures
        read is Missing && !explicit ==> (r matches Ok((v, o)) && v.len() == 0 && o.warnings.len()
            == 0),
        read is Missing && explicit ==> (r matches Err(e) && is_usage(
            e,
            cannot_load_message(path@, read->Missing_reason@),
        )),
        read is Failed ==> (r matches Err(e) && is_usage(
            e,
            cannot_load_message(path@, read->Failed_reason@),
        )),
        read is Contents ==> {
            &&& r matches Ok((v, o)) ==> {
                &&& forall|i: int| 0 <= i < v.len() ==> is_allowed_file_var((#[trigger] v@[i]).0@)
                &&& o.warnings@.map_values(|w: String| w@) == match permissions_warning_of(
                    path@,
                    mode,
                ) {
                    Some(w) => seq![w],
                    None => Seq::<Seq<char>>::empty(),
                }
            }
            &&& r matches Err(e) ==> e is Usage
        },
        read matches FileRead::Contents(b) ==> parsed_keys_as(
            path@,
            dotenv_entries(b@),
            assignments_of(r),
        ),
        read matches FileRead::Contents(b) ==> keeps_leading_values(b@, assignments_of(r)),
        read matches FileRead::Contents(b) ==> !b@.contains(36u8) ==> parsed_as(
            path@,
            dotenv_entries(b@),
            assignments_of(r),
        ),
{
    match read {
        FileRead::Missing { reason } => {
            if !explicit {
                return Ok((Vec::new(), LoadOutcome::default()));
            }
            let mut m = concat_str("cannot load ", path);
            push_str(&mut m, ": ");
            push_str(&mut m, reason.as_str());
            Err(CliError::Usage(m))
        },
        FileRead::Failed { reason } => {
            let mut m = concat_str("cannot load ", path);
            push_str(&mut m, ": ");
            push_str(&mut m, reason.as_str());
            Err(CliError::Usage(m))
        },
        FileRead::Contents(bytes) => {
            let vars = match parse_allowlisted(path, bytes.as_slice()) {
                Ok(vars) => vars,
                Err(e) => return Err(e),
            };
            let mut outcome = LoadOutcome::default();
            if let Some(warning) = permissions_warning(path, mode) {
                outcome.warnings.push(warning);
            }
            assert(outcome.warnings@.map_values(|w: String| w@) =~= match permissions_warning_of(
                path@,
                mode,
            ) {
                Some(w) => seq![w],
                None => Seq::<Seq<char>>::empty(),
            });
            Ok((vars, outcome))
        },
    }
}

} // verus!
