//! Project configuration: where the compose files are and what the project
//! is called, by the priority chain of the compose specification (command
//! line, then environment, then the working directory).

use vstd::prelude::*;
use std::path::PathBuf;
use crate::strs::{to_chars, push_char, push_str};
use crate::args::views;
use crate::error::ComposeError;

verus! {

#[verifier::external_type_specification]
#[verifier::external_body]
pub struct ExPathBuf(std::path::PathBuf);

/// The default compose file names, in the order they are looked for.
pub open spec fn default_compose_file_name(i: int) -> Seq<char> {
    if i == 0 {
        "compose.yaml"@
    } else if i == 1 {
        "compose.yml"@
    } else if i == 2 {
        "docker-compose.yaml"@
    } else {
        "docker-compose.yml"@
    }
}

/// The `i`-th default compose file name (`i < 4`).
pub fn default_compose_file(i: usize) -> (r: &'static str)
    requires
        i < 4,
    ensures
        r@ == default_compose_file_name(i as int),
{
    if i == 0 {
        "compose.yaml"
    } else if i == 1 {
        "compose.yml"
    } else if i == 2 {
        "docker-compose.yaml"
    } else {
        "docker-compose.yml"
    }
}

/// The raw project inputs of the command line: compose files (`-f`),
/// project name (`-p`) and environment files (`--env-file`).
#[derive(Debug, Clone, Default)]
pub struct ProjectConfig {
    pub compose_files: Vec<PathBuf>,
    pub project_name: Option<String>,
    pub env_files: Vec<PathBuf>,
}

impl ProjectConfig {
    /// Stores the command-line inputs as given; nothing is resolved yet.
    pub fn new(compose_files: Vec<PathBuf>, project_name: Option<String>, env_files: Vec<PathBuf>) -> (r: Self)
        ensures
            r.compose_files == compose_files,
            r.project_name == project_name,
            r.env_files == env_files,
    {
        ProjectConfig { compose_files, project_name, env_files }
    }
}

/// The message when no default compose file is in `dir`.
pub open spec fn no_file_message(dir: Seq<char>) -> Seq<char> {
    "No compose file found in '"@ + dir
        + "' (tried: compose.yaml, compose.yml, docker-compose.yaml, docker-compose.yml)"@
}

/// The text of the path `dir` joined with the relative file name `name`.
pub uninterp spec fn joined_path(dir: Seq<char>, name: Seq<char>) -> Seq<char>;

/// `std::path::Path::join` of `dir` and `name`, as text (both are UTF-8, so
/// the text is exact); the contract names the result.
#[verifier::external_body]
fn join_path(dir: &str, name: &str) -> (r: String)
    ensures
        r@ == joined_path(dir@, name@),
{
    std::path::Path::new(dir).join(name).to_string_lossy().into_owned()
}

/// The path of the first default compose file found in directory `dir`,
/// where `present[i]` tells whether the `i`-th default file exists there.
pub fn find_default_compose_file(dir: &str, present: &Vec<bool>) -> (r: Result<Vec<String>, ComposeError>)
    requires
        present@.len() == 4,
    ensures
        match r {
            Ok(v) => v@.len() == 1 && exists|i: int|
                0 <= i < 4 && present@[i] && (forall|j: int| 0 <= j < i ==> !present@[j])
                    && v@[0]@ == joined_path(dir@, #[trigger] default_compose_file_name(i)),
            Err(e) => (forall|i: int| 0 <= i < 4 ==> !present@[i]) && (e matches ComposeError::FileNotFound {
                path,
            } && path@ == no_file_message(dir@)),
        },
{
    let mut i: usize = 0;
    while i < 4
        invariant
            i <= 4,
            present@.len() == 4,
            forall|j: int| 0 <= j < i ==> !present@[j],
        decreases 4 - i,
    {
        if present[i] {
            let mut v: Vec<String> = Vec::new();
            v.push(join_path(dir, default_compose_file(i)));
            assert(v@[0]@ == joined_path(dir@, default_compose_file_name(i as int)));
            return Ok(v);
        }
        i = i + 1;
    }
    let mut path = "No compose file found in '".to_owned();
    push_str(&mut path, dir);
    push_str(&mut path, "' (tried: compose.yaml, compose.yml, docker-compose.yaml, docker-compose.yml)");
    Err(ComposeError::FileNotFound { path })
}

/// Where the compose files are taken from: listed files (to be checked
/// for existence), or the search for a default file.
#[derive(Debug, Clone, PartialEq, Eq)]
pub enum ComposeFileChoice {
    Listed(Vec<String>),
    SearchDefault,
}

/// The separator of `COMPOSE_FILE` on the operating system `os`.
pub fn compose_file_separator(os: &str) -> (c: char)
    ensures
        c == if os@ == "windows"@ { ';' } else { ':' },
{
    if crate::strs::str_eq(os, "windows") {
        ';'
    } else {
        ':'
    }
}

/// The compose files by the priority chain: the command-line files when
/// there are any, else the non-empty entries of `COMPOSE_FILE` (split at
/// `sep`) when there are any, else the default file search.
pub fn compose_file_choice(cli_files: &Vec<String>, compose_file_var: Option<&str>, sep: char) -> (r: ComposeFileChoice)
    ensures
        cli_files@.len() > 0 ==> (r matches ComposeFileChoice::Listed(l) && l@ == cli_files@),
        cli_files@.len() == 0 ==> match compose_file_var {
            Some(v) => if split_nonempty(v@, sep).len() > 0 {
                r matches ComposeFileChoice::Listed(l) && views(l@) == split_nonempty(v@, sep)
            } else {
                r == ComposeFileChoice::SearchDefault
            },
            None => r == ComposeFileChoice::SearchDefault,
        },
{
    if cli_files.len() > 0 {
        return ComposeFileChoice::Listed(crate::strs::clone_strings(cli_files));
    }
    match compose_file_var {
        Some(v) => {
            let l = compose_file_list(v, sep);
            if l.len() > 0 {
                ComposeFileChoice::Listed(l)
            } else {
                ComposeFileChoice::SearchDefault
            }
        },
        None => ComposeFileChoice::SearchDefault,
    }
}

/// The project name: the command-line name unless empty, else the
/// `COMPOSE_PROJECT_NAME` value unless empty, else the name of the
/// project directory, else `project`.
pub fn resolve_project_name(cli_name: Option<&str>, env_name: Option<&str>, dir_name: Option<&str>) -> (r: String)
    ensures
        r@ == if cli_name matches Some(c) && c@.len() > 0 {
            cli_name->0@
        } else if env_name matches Some(e) && e@.len() > 0 {
            env_name->0@
        } else {
            match dir_name {
                Some(d) => d@,
                None => "project"@,
            }
        },
{
    if let Some(c) = cli_name {
        if to_chars(c).len() > 0 {
            return c.to_owned();
        }
    }
    if let Some(e) = env_name {
        if to_chars(e).len() > 0 {
            return e.to_owned();
        }
    }
    match dir_name {
        Some(d) => d.to_owned(),
        None => "project".to_owned(),
    }
}

/// The pieces read so far from `s` split at `sep`, and the piece being
/// read; empty pieces are dropped.
pub open spec fn sep_scan(s: Seq<char>, sep: char) -> (Seq<Seq<char>>, Seq<char>)
    decreases s.len(),
{
    if s.len() == 0 {
        (Seq::empty(), Seq::empty())
    } else {
        let (pieces, cur) = sep_scan(s.drop_last(), sep);
        if s.last() == sep {
            if cur.len() > 0 {
                (pieces.push(cur), Seq::empty())
            } else {
                (pieces, cur)
            }
        } else {
            (pieces, cur.push(s.last()))
        }
    }
}

/// The non-empty pieces of `s` split at `sep`.
pub open spec fn split_nonempty(s: Seq<char>, sep: char) -> Seq<Seq<char>> {
    let (pieces, cur) = sep_scan(s, sep);
    if cur.len() > 0 {
        pieces.push(cur)
    } else {
        pieces
    }
}

/// The paths listed in a `COMPOSE_FILE` value: its non-empty pieces
/// between separators `sep` (`:` on POSIX, `;` on Windows).
pub fn compose_file_list(value: &str, sep: char) -> (r: Vec<String>)
    ensures
        views(r@) == split_nonempty(value@, sep),
{
    let v = to_chars(value);
    let mut pieces: Vec<String> = Vec::new();
    let mut cur = String::new();
    let mut nonempty = false;
    let mut i: usize = 0;
    assert(v@.take(0) =~= Seq::<char>::empty());
    assert(views(pieces@) =~= Seq::<Seq<char>>::empty());
    while i < v.len()
        invariant
            i <= v@.len(),
            v@ == value@,
            (views(pieces@), cur@) == sep_scan(v@.take(i as int), sep),
            nonempty == (cur@.len() > 0),
        decreases v@.len() - i,
    {
        let c = v[i];
        assert(v@.take(i + 1).drop_last() =~= v@.take(i as int));
        assert(v@.take(i + 1).last() == c);
        if c == sep {
            if nonempty {
                let ghost before = pieces@;
                pieces.push(cur);
                assert(views(pieces@) =~= views(before).push(sep_scan(v@.take(i as int), sep).1));
                cur = String::new();
                nonempty = false;
            }
        } else {
            push_char(&mut cur, c);
            nonempty = true;
        }
        i = i + 1;
    }
    assert(v@.take(v@.len() as int) =~= v@);
    if nonempty {
        let ghost before = pieces@;
        pieces.push(cur);
        assert(views(pieces@) =~= views(before).push(sep_scan(v@, sep).1));
    }
    pieces
}

/// Every listed file must exist (`present[i]` tells whether `paths[i]`
/// does); the first that does not is reported.
pub fn check_files_exist(paths: &Vec<String>, present: &Vec<bool>) -> (r: Result<(), ComposeError>)
    requires
        present@.len() == paths@.len(),
    ensures
        r is Ok <==> forall|i: int| 0 <= i < paths@.len() ==> present@[i],
        r matches Err(e) ==> exists|i: int|
            0 <= i < paths@.len() && !present@[i] && (forall|j: int| 0 <= j < i ==> present@[j]) && (
            e matches ComposeError::FileNotFound { path } && path@ == (#[trigger] paths@[i])@),
{
    let mut i: usize = 0;
    while i < paths.len()
        invariant
            i <= paths@.len(),
            present@.len() == paths@.len(),
            forall|j: int| 0 <= j < i ==> present@[j],
        decreases paths@.len() - i,
    {
        if !present[i] {
            let e = ComposeError::FileNotFound { path: paths[i].clone() };
            assert(paths@[i as int]@ == paths[i as int]@);
            return Err(e);
        }
        i = i + 1;
    }
    Ok(())
}

/// The name `Project::load` gives a project: the command-line name when one
/// is given, else `COMPOSE_PROJECT_NAME` from the environment, else the
/// name of the working directory.
pub fn choose_project_name(cli_name: Option<&str>, from_env: Option<&str>, dir_name: &str) -> (r: String)
    ensures
        r@ == match cli_name {
            Some(c) => c@,
            None => match from_env {
                Some(e) => e@,
                None => dir_name@,
            },
        },
{
    match cli_name {
        Some(c) => c.to_owned(),
        None => match from_env {
            Some(e) => e.to_owned(),
            None => dir_name.to_owned(),
        },
    }
}

} // verus!
