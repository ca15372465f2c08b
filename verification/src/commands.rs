//! What the program is asked to do, and which project a url names.
use vstd::prelude::*;
use crate::patterns::{pattern_is_found, regex_is_valid, regex_matches};
use crate::project::ProjectTypes;
use crate::text::str_equals;

verus! {

/// The regex that recognises a GitHub address.
pub const GITHUB_PATTERN: &'static str = "github.com";

/// What the program is asked to do.
#[derive(PartialEq, Eq, Debug, Clone)]
pub enum Command {
    /// Print how to use the program.
    Help,
    /// Start tracking the project at this address.
    AddProject(String),
    /// Track the projects that this GitHub user has starred.
    GithubImport(String),
    /// Check every tracked project for a new release.
    Watch,
}

/// Whether the option asked for needs an argument after it.
pub open spec fn needs_argument(args: Seq<String>) -> bool {
    args.len() > 1 && (args[1]@ == "add-project"@ || args[1]@ == "github-import"@)
}

/// What the command line `args` (the program's name first) asks for.
pub open spec fn command_of(args: Seq<String>) -> Command {
    if args.len() <= 1 {
        Command::Help
    } else if args[1]@ == "add-project"@ {
        Command::AddProject(args[2])
    } else if args[1]@ == "github-import"@ {
        Command::GithubImport(args[2])
    } else if args[1]@ == "watch"@ {
        Command::Watch
    } else {
        Command::Help
    }
}

/// Whether the option asked for lacks the argument it needs.
pub fn argument_is_missing(args: &Vec<String>) -> (b: bool)
    ensures
        b == (needs_argument(args@) && args@.len() <= 2),
{
    args.len() == 2 && (str_equals(args[1].as_str(), "add-project") || str_equals(
        args[1].as_str(),
        "github-import",
    ))
}

/// Reads the command line.
pub fn parse_command(args: &Vec<String>) -> (c: Command)
    requires
        needs_argument(args@) ==> args@.len() > 2,
    ensures
        c == command_of(args@),
{
    if args.len() <= 1 {
        Command::Help
    } else if str_equals(args[1].as_str(), "add-project") {
        Command::AddProject(args[2].clone())
    } else if str_equals(args[1].as_str(), "github-import") {
        Command::GithubImport(args[2].clone())
    } else if str_equals(args[1].as_str(), "watch") {
        Command::Watch
    } else {
        Command::Help
    }
}

/// The regex of the GitHub address could not be built.
#[derive(PartialEq, Eq, Debug, Clone, Copy)]
pub struct InvalidPattern;

/// The kind of project at `url`: GitHub when the GitHub regex matches in
/// it, none otherwise.
pub fn match_project(url: &str) -> (r: Result<Option<ProjectTypes>, InvalidPattern>)
    ensures
        r is Err <==> !regex_is_valid(GITHUB_PATTERN@),
        r matches Ok(t) ==> (t is Some <==> regex_matches(GITHUB_PATTERN@, url@)) && (t matches Some(
            k,
        ) ==> k == ProjectTypes::GITHUB),
{
    match pattern_is_found(GITHUB_PATTERN, url) {
        Some(true) => Ok(Some(ProjectTypes::GITHUB)),
        Some(false) => Ok(None),
        None => Err(InvalidPattern),
    }
}

/// The argument of an option is the word right after it, whatever words
/// follow: `add-project <url>` adds the project at `<url>` and
/// `github-import <username>` imports the stars of `<username>`.
pub proof fn lemma_option_argument_follows_it(program: String, option: String, argument: String, rest: Seq<String>)
    ensures
        option@ == "add-project"@ ==> command_of(seq![program, option, argument] + rest)
            == Command::AddProject(argument),
        option@ == "github-import"@ ==> command_of(seq![program, option, argument] + rest)
            == Command::GithubImport(argument),
        option@ == "watch"@ ==> command_of(seq![program, option] + rest) == Command::Watch,
{
    reveal_strlit("add-project");
    reveal_strlit("github-import");
    reveal_strlit("watch");
    let args = seq![program, option, argument] + rest;
    assert(args[1] == option);
    assert(args[2] == argument);
    assert("add-project"@.len() == 11);
    assert("github-import"@.len() == 13);
    assert("watch"@.len() == 5);
    let short = seq![program, option] + rest;
    assert(short[1] == option);
}

} // verus!
