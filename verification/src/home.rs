//! Where the configuration directory is: the decisions of the lookup, apart
//! from reading the environment and the file system.
//!
//! For the `codex` executable the directory comes from `CODEX_HOME`, else it
//! is `~/.codex`. For the `growcli` executable it comes from `GROWCLI_HOME`,
//! then `CODEX_HOME`, else it is `~/.growcli`. A directory named by a variable
//! must exist and be a directory.

use vstd::prelude::*;
use vstd::string::StringExecFns;
use crate::text::chars_eq;
use crate::text::chars_of;

verus! {

/// The kind of an I/O error (`std::io::ErrorKind`), carried through unread.
#[verifier::external_type_specification]
#[verifier::external_body]
pub struct ExIoErrorKind(std::io::ErrorKind);

/// The `Debug` rendering of a string: quoted, with special characters escaped.
pub uninterp spec fn debug_str(s: Seq<char>) -> Seq<char>;

/// Renders `s` as `format!("{:?}", s)` does.
/// Claims: the result is the `Debug` rendering of `s`, which depends on `s` alone.
#[verifier::external_body]
fn debug_quoted(s: &str) -> (r: String)
    ensures
        r@ == debug_str(s@),
{
    format!("{:?}", s)
}

/// Where to look for the configuration directory.
#[derive(Debug, Clone, PartialEq)]
pub enum HomeChoice {
    /// The directory an environment variable names.
    Override { env_name: String, path: String },
    /// The directory of this name in the user's home directory.
    Default { dir_name: String },
}

/// The mathematical form of a `HomeChoice`.
pub enum HomeChoiceView {
    Override { env_name: Seq<char>, path: Seq<char> },
    Default { dir_name: Seq<char> },
}

impl View for HomeChoice {
    type V = HomeChoiceView;

    open spec fn view(&self) -> HomeChoiceView {
        match self {
            HomeChoice::Override { env_name, path } => HomeChoiceView::Override {
                env_name: env_name@,
                path: path@,
            },
            HomeChoice::Default { dir_name } => HomeChoiceView::Default { dir_name: dir_name@ },
        }
    }
}

/// The characters of an optional string slice.
pub open spec fn opt_str(o: Option<&str>) -> Option<Seq<char>> {
    match o {
        Some(s) => Some(s@),
        None => None,
    }
}

/// Whether the program runs as `growcli`: the file stem of its path is `growcli`.
pub open spec fn is_growcli(argv0_stem: Option<Seq<char>>) -> bool {
    argv0_stem == Some("growcli"@)
}

/// Where to look: `growcli` takes `GROWCLI_HOME`, then `CODEX_HOME`, else
/// `.growcli`; any other program takes `CODEX_HOME`, else `.codex`.
pub open spec fn home_choice_spec(
    growcli_home: Option<Seq<char>>,
    codex_home: Option<Seq<char>>,
    argv0_stem: Option<Seq<char>>,
) -> HomeChoiceView {
    if is_growcli(argv0_stem) {
        match growcli_home {
            Some(p) => HomeChoiceView::Override { env_name: "GROWCLI_HOME"@, path: p },
            None => match codex_home {
                Some(p) => HomeChoiceView::Override { env_name: "CODEX_HOME"@, path: p },
                None => HomeChoiceView::Default { dir_name: ".growcli"@ },
            },
        }
    } else {
        match codex_home {
            Some(p) => HomeChoiceView::Override { env_name: "CODEX_HOME"@, path: p },
            None => HomeChoiceView::Default { dir_name: ".codex"@ },
        }
    }
}

/// An environment value as the lookup uses it: an empty value counts as unset.
pub fn home_env_value(raw: Option<String>) -> (r: Option<String>)
    ensures
        match raw {
            Some(v) => if v@.len() == 0 {
                r is None
            } else {
                r matches Some(w) && w@ == v@
            },
            None => r is None,
        },
{
    match raw {
        Some(v) => {
            if v.as_str().is_empty() {
                None
            } else {
                Some(v)
            }
        },
        None => None,
    }
}

/// Where to look for the configuration directory, given the values of
/// `GROWCLI_HOME` and `CODEX_HOME` (unset or non-empty) and the file stem of
/// the program's path.
pub fn choose_home(
    growcli_home_env: Option<&str>,
    codex_home_env: Option<&str>,
    argv0_stem: Option<&str>,
) -> (c: HomeChoice)
    ensures
        c@ == home_choice_spec(opt_str(growcli_home_env), opt_str(codex_home_env), opt_str(argv0_stem)),
{
    let growcli = match argv0_stem {
        Some(stem) => {
            let a = chars_of(stem);
            let b = chars_of("growcli");
            chars_eq(&a, &b)
        },
        None => false,
    };
    if growcli {
        match growcli_home_env {
            Some(p) => HomeChoice::Override { env_name: "GROWCLI_HOME".to_owned(), path: p.to_owned() },
            None => match codex_home_env {
                Some(p) => HomeChoice::Override { env_name: "CODEX_HOME".to_owned(), path: p.to_owned() },
                None => HomeChoice::Default { dir_name: ".growcli".to_owned() },
            },
        }
    } else {
        match codex_home_env {
            Some(p) => HomeChoice::Override { env_name: "CODEX_HOME".to_owned(), path: p.to_owned() },
            None => HomeChoice::Default { dir_name: ".codex".to_owned() },
        }
    }
}

/// What reading the metadata of a named directory found.
#[derive(Debug)]
pub enum MetadataProbe {
    /// Nothing is at the path.
    NotFound,
    /// Reading failed otherwise, with this kind and message.
    Failed { kind: std::io::ErrorKind, detail: String },
    /// Something is there; whether it is a directory.
    Found { is_dir: bool },
}

/// Why the configuration directory could not be determined.
#[derive(Debug)]
pub enum HomeError {
    /// The variable names a path where nothing is.
    Missing { env_name: String, path: String },
    /// Reading what the variable names failed.
    Unreadable { env_name: String, path: String, kind: std::io::ErrorKind, detail: String },
    /// The variable names something that is not a directory.
    NotADirectory { env_name: String, path: String },
    /// The directory could not be made canonical.
    CanonicalizeFailed { env_name: String, path: String, kind: std::io::ErrorKind, detail: String },
    /// There is no home directory to default to.
    NoHomeDirectory,
}

/// The message of an error.
pub open spec fn home_error_message(e: HomeError) -> Seq<char> {
    match e {
        HomeError::Missing { env_name, path } => env_name@ + " points to "@ + debug_str(path@)
            + ", but that path does not exist"@,
        HomeError::Unreadable { env_name, path, detail, .. } => "failed to read "@ + env_name@ + " "@
            + debug_str(path@) + ": "@ + detail@,
        HomeError::NotADirectory { env_name, path } => env_name@ + " points to "@ + debug_str(path@)
            + ", but that path is not a directory"@,
        HomeError::CanonicalizeFailed { env_name, path, detail, .. } => "failed to canonicalize "@
            + env_name@ + " "@ + debug_str(path@) + ": "@ + detail@,
        HomeError::NoHomeDirectory => "Could not find home directory"@,
    }
}

/// The kind of I/O error a home error is reported as.
#[derive(Debug, Clone, Copy, PartialEq, Eq)]
pub enum HomeErrorKind {
    NotFound,
    InvalidInput,
    /// The kind of the underlying I/O error, passed on.
    Passed(std::io::ErrorKind),
}

/// The kind each error is reported as: nothing at the path or no home
/// directory is `NotFound`, something other than a directory is
/// `InvalidInput`, and a failed read or canonicalization keeps the kind of
/// its own error.
pub open spec fn home_error_kind(e: HomeError) -> HomeErrorKind {
    match e {
        HomeError::Missing { .. } => HomeErrorKind::NotFound,
        HomeError::Unreadable { kind, .. } => HomeErrorKind::Passed(kind),
        HomeError::NotADirectory { .. } => HomeErrorKind::InvalidInput,
        HomeError::CanonicalizeFailed { kind, .. } => HomeErrorKind::Passed(kind),
        HomeError::NoHomeDirectory => HomeErrorKind::NotFound,
    }
}

impl HomeError {
    /// The kind of I/O error this error is reported as.
    pub fn kind(&self) -> (k: HomeErrorKind)
        ensures
            k == home_error_kind(*self),
    {
        match self {
            HomeError::Missing { .. } => HomeErrorKind::NotFound,
            HomeError::Unreadable { kind, .. } => HomeErrorKind::Passed(*kind),
            HomeError::NotADirectory { .. } => HomeErrorKind::InvalidInput,
            HomeError::CanonicalizeFailed { kind, .. } => HomeErrorKind::Passed(*kind),
            HomeError::NoHomeDirectory => HomeErrorKind::NotFound,
        }
    }

    /// The message of the error.
    pub fn message(&self) -> (m: String)
        ensures
            m@ == home_error_message(*self),
    {
        match self {
            HomeError::Missing { env_name, path } => {
                let mut m = env_name.clone();
                m.append(" points to ");
                let q = debug_quoted(path.as_str());
                m.append(q.as_str());
                m.append(", but that path does not exist");
                m
            },
            HomeError::Unreadable { env_name, path, detail, .. } => {
                let mut m = "failed to read ".to_owned();
                m.append(env_name.as_str());
                m.append(" ");
                let q = debug_quoted(path.as_str());
                m.append(q.as_str());
                m.append(": ");
                m.append(detail.as_str());
                m
            },
            HomeError::NotADirectory { env_name, path } => {
                let mut m = env_name.clone();
                m.append(" points to ");
                let q = debug_quoted(path.as_str());
                m.append(q.as_str());
                m.append(", but that path is not a directory");
                m
            },
            HomeError::CanonicalizeFailed { env_name, path, detail, .. } => {
                let mut m = "failed to canonicalize ".to_owned();
                m.append(env_name.as_str());
                m.append(" ");
                let q = debug_quoted(path.as_str());
                m.append(q.as_str());
                m.append(": ");
                m.append(detail.as_str());
                m
            },
            HomeError::NoHomeDirectory => "Could not find home directory".to_owned(),
        }
    }
}

/// The outcome of looking up the default directory: with no home directory
/// it is an error, otherwise it is not checked at all.
pub fn check_home_dir_found(found: bool) -> (r: Result<(), HomeError>)
    ensures
        found ==> r is Ok,
        !found ==> r matches Err(HomeError::NoHomeDirectory),
{
    if found {
        Ok(())
    } else {
        Err(HomeError::NoHomeDirectory)
    }
}

/// The outcome of checking a directory named by `env_name`: it must exist and
/// be a directory.
pub fn check_home_metadata(env_name: &str, path: &str, probe: MetadataProbe) -> (r: Result<(), HomeError>)
    ensures
        match probe {
            MetadataProbe::NotFound => r matches Err(HomeError::Missing { env_name: e, path: p })
                && e@ == env_name@ && p@ == path@,
            MetadataProbe::Failed { kind, detail } => r matches Err(
                HomeError::Unreadable { env_name: e, path: p, kind: k, detail: d },
            ) && e@ == env_name@ && p@ == path@ && k == kind && d@ == detail@,
            MetadataProbe::Found { is_dir } => if is_dir {
                r is Ok
            } else {
                r matches Err(HomeError::NotADirectory { env_name: e, path: p }) && e@ == env_name@
                    && p@ == path@
            },
        },
{
    match probe {
        MetadataProbe::NotFound => Err(
            HomeError::Missing { env_name: env_name.to_owned(), path: path.to_owned() },
        ),
        MetadataProbe::Failed { kind, detail } => Err(
            HomeError::Unreadable { env_name: env_name.to_owned(), path: path.to_owned(), kind, detail },
        ),
        MetadataProbe::Found { is_dir } => {
            if is_dir {
                Ok(())
            } else {
                Err(HomeError::NotADirectory { env_name: env_name.to_owned(), path: path.to_owned() })
            }
        },
    }
}

/// For `growcli`, a set `GROWCLI_HOME` wins over `CODEX_HOME`.
pub proof fn law_growcli_prefers_growcli_home(
    growcli_home: Seq<char>,
    codex_home: Option<Seq<char>>,
)
    ensures
        home_choice_spec(Some(growcli_home), codex_home, Some("growcli"@)) == (HomeChoiceView::Override {
            env_name: "GROWCLI_HOME"@,
            path: growcli_home,
        }),
{
}

/// Any program other than `growcli` ignores `GROWCLI_HOME`.
pub proof fn law_codex_ignores_growcli_home(
    growcli_home: Option<Seq<char>>,
    codex_home: Option<Seq<char>>,
    argv0_stem: Option<Seq<char>>,
)
    requires
        !is_growcli(argv0_stem),
    ensures
        home_choice_spec(growcli_home, codex_home, argv0_stem) == home_choice_spec(None, codex_home, argv0_stem),
{
}

} // verus!
