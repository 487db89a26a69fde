//! The command line: its one optional argument, and where the todo file is
//! when none is given.
use vstd::prelude::*;

verus! {

/// The parsed command line: the path of a todo file, if one was given.
#[derive(Clone, Debug, PartialEq, Eq)]
pub struct Cli {
    pub todo_path: Option<String>,
}

/// Why the command line was not parsed: the text `clap` prints for it (usage,
/// help or version text), and the exit status it calls for (0 after help or
/// version, 2 after a usage error).
#[derive(Clone, Debug, PartialEq, Eq)]
pub struct CliError {
    pub message: String,
    pub exit_code: i32,
}

/// The value of the path argument, or why the command line was not parsed.
pub type ParseResult = Result<Option<String>, CliError>;

/// A command line that names no todo file.
pub open spec fn no_path() -> Result<Option<Seq<char>>, (Seq<char>, int)> {
    Ok(None)
}

/// A command line that names the todo file `p`.
pub open spec fn given_path(p: Seq<char>) -> Result<Option<Seq<char>>, (Seq<char>, int)> {
    Ok(Some(p))
}

/// The views of a list of strings.
pub open spec fn strs_view(v: Seq<String>) -> Seq<Seq<char>> {
    Seq::new(v.len(), |i: int| v[i]@)
}

/// What `clap` makes of `args` for a command named `name` (with the given
/// descriptions) that takes one optional positional argument `id`, shown as
/// `value_name`, read as a path: the argument's value if given, or the text and
/// exit status of the error.
pub uninterp spec fn clap_todo_path(
    args: Seq<Seq<char>>,
    name: Seq<char>,
    about: Seq<char>,
    long_about: Seq<char>,
    id: Seq<char>,
    value_name: Seq<char>,
    help: Seq<char>,
) -> Result<Option<Seq<char>>, (Seq<char>, int)>;

/// The view of a parse result.
pub open spec fn parse_view(r: Result<Option<String>, CliError>) -> Result<Option<Seq<char>>, (Seq<char>, int)> {
    match r {
        Ok(Some(p)) => Ok(Some(p@)),
        Ok(None) => Ok(None),
        Err(e) => Err((e.message@, e.exit_code as int)),
    }
}

/// `clap::Command::try_get_matches_from` on a command built with
/// `Command::new(name).about(about).long_about(long_about)` and one
/// `Arg::new(id).value_name(value_name).help(help)` read by
/// `PathBufValueParser`; the value is taken back with `ArgMatches::get_one`
/// and an error to its `Display` text and `exit_code`. The contract names the
/// result and states what `clap` documents of a lone positional argument: with
/// only the program name there is no value, and a second argument that is not
/// empty and does not start with `-` is the value. It states the exit status
/// `Error::exit_code` gives, 0 or 2, as part of the named result only. The
/// argument's id is not `help`: `clap` adds an argument of that id itself,
/// and two arguments with one id stop the call in its debug checks.
#[verifier::external_body]
fn clap_parse(args: &Vec<String>, name: &'static str, about: &'static str, long_about: &'static str, id: &'static str, value_name: &'static str, help: &'static str) -> (r: ParseResult)
    requires
        id@ != "help"@,
    ensures
        parse_view(r) == clap_todo_path(strs_view(args@), name@, about@, long_about@, id@, value_name@, help@),
        args@.len() == 1 ==> parse_view(r) == no_path(),
        args@.len() == 2 && args@[1]@.len() > 0 && args@[1]@[0] != '-' ==> parse_view(r) == given_path(args@[1]@),
{
    let arg = clap::Arg::new(id).value_name(value_name).help(help).value_parser(
        clap::builder::PathBufValueParser::new(),
    );
    let cmd = clap::Command::new(name).about(about).long_about(long_about).arg(arg);
    match cmd.try_get_matches_from(args.iter()) {
        Ok(m) => match m.get_one::<std::path::PathBuf>(id) {
            Some(p) => Ok(Some(p.to_string_lossy().into_owned())),
            None => Ok(None),
        },
        Err(e) => Err(CliError { message: e.to_string(), exit_code: e.exit_code() }),
    }
}

/// What the command line of this program parses to (see `clap_todo_path`).
pub open spec fn cli_parse(args: Seq<Seq<char>>) -> Result<Option<Seq<char>>, (Seq<char>, int)> {
    clap_todo_path(
        args,
        "grc"@,
        "A terminal-based todo manager backed by a plain Markdown file."@,
        "Site of Grace - a TUI for managing your tasks in a simple Markdown file.\n\nThe todo file is resolved in this order:\n1. PATH argument\n2. GRC_TODO_PATH environment variable\n3. ~/.todo.md"@,
        "todo_path"@,
        "PATH"@,
        "Path to a specific todo Markdown file"@,
    )
}

/// The view of a parsed command line.
pub open spec fn cli_view(r: Result<Cli, CliError>) -> Result<Option<Seq<char>>, (Seq<char>, int)> {
    match r {
        Ok(c) => match c.todo_path {
            Some(p) => Ok(Some(p@)),
            None => Ok(None),
        },
        Err(e) => Err((e.message@, e.exit_code as int)),
    }
}

impl Cli {
    /// Parses a command line (the program name first): its one optional
    /// argument is the path of a todo file.
    pub fn try_parse_from(args: &Vec<String>) -> (r: Result<Cli, CliError>)
        ensures
            cli_view(r) == cli_parse(strs_view(args@)),
            args@.len() == 1 ==> cli_view(r) == no_path(),
            args@.len() == 2 && args@[1]@.len() > 0 && args@[1]@[0] != '-' ==> cli_view(r) == given_path(
                args@[1]@,
            ),
    {
        proof {
            reveal_strlit("todo_path");
            reveal_strlit("help");
            assert("todo_path"@[0] != "help"@[0]);
        }
        let parsed = clap_parse(
            args,
            "grc",
            "A terminal-based todo manager backed by a plain Markdown file.",
            "Site of Grace - a TUI for managing your tasks in a simple Markdown file.\n\nThe todo file is resolved in this order:\n1. PATH argument\n2. GRC_TODO_PATH environment variable\n3. ~/.todo.md",
            "todo_path",
            "PATH",
            "Path to a specific todo Markdown file",
        );
        match parsed {
            Ok(todo_path) => Ok(Cli { todo_path }),
            Err(e) => Err(e),
        }
    }
}

/// What `Path::join` gives for a base path and a name, as text.
pub uninterp spec fn path_join(base: Seq<char>, name: Seq<char>) -> Seq<char>;

/// `std::path::Path::join` of a base path and a name, read from text and taken
/// back as text (`to_string_lossy`, which keeps text that was valid UTF-8).
/// The contract names the result only: how the two are joined (the separator,
/// a name that replaces the base) depends on the target's path rules, which
/// it leaves unsaid.
#[verifier::external_body]
fn join_path(base: &str, name: &str) -> (r: String)
    ensures
        r@ == path_join(base@, name@),
{
    std::path::Path::new(base).join(name).to_string_lossy().into_owned()
}

/// Why no todo file path could be found.
#[derive(Clone, Copy, Debug, PartialEq, Eq, Structural)]
pub enum PathError {
    /// Neither the todo path variable nor a home directory is set.
    HomeNotFound,
}

impl PathError {
    /// The message shown for the error.
    pub fn message(&self) -> (r: String)
        ensures
            r@ == "Could not find your system's HOME directory. Please set GRC_TODO_PATH."@,
    {
        "Could not find your system's HOME directory. Please set GRC_TODO_PATH.".to_owned()
    }
}

/// The name of the todo file in a home directory.
pub open spec fn todo_file_name() -> Seq<char> {
    ".todo.md"@
}

/// Where the todo file is, from the values of the variables `GRC_TODO_PATH`,
/// `HOME` and `USERPROFILE` (none where unset): the first names the file, the
/// others a directory that holds `.todo.md`.
pub open spec fn resolved_path(
    todo_path: Option<Seq<char>>,
    home: Option<Seq<char>>,
    userprofile: Option<Seq<char>>,
) -> Option<Seq<char>> {
    match todo_path {
        Some(p) => Some(p),
        None => match home {
            Some(h) => Some(path_join(h, todo_file_name())),
            None => match userprofile {
                Some(u) => Some(path_join(u, todo_file_name())),
                None => None,
            },
        },
    }
}

/// The view of an optional borrowed text.
pub open spec fn opt_text(s: Option<&str>) -> Option<Seq<char>> {
    match s {
        Some(x) => Some(x@),
        None => None,
    }
}

/// Finds the todo file (see `resolved_path`), given the values of the
/// variables `GRC_TODO_PATH`, `HOME` and `USERPROFILE`.
pub fn resolve_todo_path_with_env(
    todo_path: Option<&str>,
    home: Option<&str>,
    userprofile: Option<&str>,
) -> (r: Result<String, PathError>)
    ensures
        match r {
            Ok(p) => resolved_path(opt_text(todo_path), opt_text(home), opt_text(userprofile)) == Some(p@),
            Err(e) => resolved_path(opt_text(todo_path), opt_text(home), opt_text(userprofile)) is None
                && e == PathError::HomeNotFound,
        },
{
    if let Some(p) = todo_path {
        return Ok(p.to_owned());
    }
    let dir = match home {
        Some(h) => h,
        None => match userprofile {
            Some(u) => u,
            None => return Err(PathError::HomeNotFound),
        },
    };
    let name = ".todo.md";
    assert(name@ == todo_file_name());
    Ok(join_path(dir, name))
}

} // verus!
