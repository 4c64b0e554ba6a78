//! The arguments of the builtin commands: how each command declares them, and what a parse of
//! a list of arguments against such a declaration gives.

use crate::text::views;
use vstd::prelude::*;
use vstd::string::*;

verus! {

/// The declaration of `exit`: an optional exit code.
pub const EXIT_USAGE: &'static str = "[code] 'Exit code to return to parent program.'";

/// The declaration of `cd`: an optional directory.
pub const CD_USAGE: &'static str = "[directory] 'Directory to change to.'";

/// The declaration of `pushd`: an optional directory.
pub const PUSHD_USAGE: &'static str = "[directory] 'Directory to change to.'";

/// The declaration of `dirs`: the flag `-v`.
pub const DIRS_USAGE: &'static str =
    "[verbose] -v 'Verbose mode shows directory stack in list form.'";

/// The declaration of `export`: any number of variables.
pub const EXPORT_USAGE: &'static str =
    "[vars]... 'Variable with optional value input as: variable or variable=value'";

/// The declaration of `unset`: any number of variables.
pub const UNSET_USAGE: &'static str = "[vars]... 'Variable name.'";

/// The declaration of `history`: the flags `-c` and `-w`.
pub const HISTORY_USAGE: &'static str =
    "-c, --clear 'Clear the history of the current session (not what is saved on disk).'\n-w, --write 'Writes history to disk.'";

/// The declaration of `hash`: the flag `-r` and an optional command.
pub const HASH_USAGE: &'static str =
    "-r, --rehash 'Detects commands from $PATH from scratch.'\n[command] 'Checks if command is known. Exit code is 0 for success and 1 otherwise.'";

/// The declaration of `set`: the flags `-x`, `-e` and `-v`, the option `-o`, and up to two
/// words, of which the first is an option to unset.
pub const SET_USAGE: &'static str =
    "[xtrace] -x 'Prints commands and their arguments when executed.'\n[errexit] -e 'Exit shell if a command yields non-zero exit code.'\n[verbose] -v... 'Sets verbosity level. Can be used multiple times.'\n-o, --option [name] 'Sets option given option name: xtrace, errexit, verbose, emacs, vi, ignoreeof'\n[unset] 'Unsets option NAME, like +x to unset xtrace. Can also be used via +option name'\n[unset-name] 'Name of the option to unset after +o or +option'";

/// Whether `usage` is the declaration of the builtin command `name`.
pub open spec fn builtin_usage(name: Seq<char>, usage: Seq<char>) -> bool {
    ||| name == "exit"@ && usage == EXIT_USAGE@
    ||| name == "cd"@ && usage == CD_USAGE@
    ||| name == "pushd"@ && usage == PUSHD_USAGE@
    ||| name == "dirs"@ && usage == DIRS_USAGE@
    ||| name == "export"@ && usage == EXPORT_USAGE@
    ||| name == "unset"@ && usage == UNSET_USAGE@
    ||| name == "history"@ && usage == HISTORY_USAGE@
    ||| name == "hash"@ && usage == HASH_USAGE@
    ||| name == "set"@ && usage == SET_USAGE@
}

/// What a parse found of one declared argument: how often it was given, and its first value.
pub struct ArgMatch {
    /// The number of times the argument was given.
    pub count: u64,
    /// The first value that was given for it.
    pub value: Option<String>,
}

/// A parse: what was found of each argument asked for, or the message of the error.
pub type Parsed = Result<Vec<ArgMatch>, String>;

/// What a parse found of one argument, as plain values.
pub struct MatchView {
    /// The number of times the argument was given.
    pub count: u64,
    /// The first value that was given for it.
    pub value: Option<Seq<char>>,
}

impl View for ArgMatch {
    type V = MatchView;

    open spec fn view(&self) -> MatchView {
        MatchView {
            count: self.count,
            value: match self.value {
                Some(s) => Some(s@),
                None => None,
            },
        }
    }
}

/// What was found of each argument, as plain values.
pub open spec fn match_views(v: Seq<ArgMatch>) -> Seq<MatchView> {
    Seq::new(v.len(), |i: int| v[i]@)
}

/// A parse as plain values: what was found of each argument, or nothing where the arguments
/// do not fit the declaration.
pub open spec fn parsed_view(p: Parsed) -> Option<Seq<MatchView>> {
    match p {
        Ok(v) => Some(match_views(v@)),
        Err(_) => None,
    }
}

/// What clap finds when the command `name`, declared by the usage text `usage`, is given the
/// arguments `args`: for each name of `names` the number of occurrences and the first value
/// of the argument of that name, or nothing where clap refuses the arguments.
pub uninterp spec fn clap_matches(
    name: Seq<char>,
    usage: Seq<char>,
    names: Seq<Seq<char>>,
    args: Seq<Seq<char>>,
) -> Option<Seq<MatchView>>;

/// Builds a `clap::App` named `name` from the usage text `usage`, one argument per line, with
/// the settings `NoBinaryName` and `DisableVersion`, and calls `App::get_matches_from_safe`
/// on `args`. Where clap accepts the arguments, the result holds for each name of `names`
/// what `ArgMatches::occurrences_of` and `ArgMatches::value_of` give; where it refuses them,
/// also to show its help, the result is the message of clap's error. Which of the two comes,
/// and what is found, depends on the arguments of the call alone; of the message nothing is
/// claimed. The usage texts are held to those of the builtin commands, which clap reads
/// without complaint.
#[verifier::external_body]
pub(crate) fn clap_parse(name: &str, usage: &str, names: &Vec<String>, args: &Vec<String>) -> (r:
    Parsed)
    requires
        builtin_usage(name@, usage@),
    ensures
        parsed_view(r) == clap_matches(name@, usage@, views(names@), views(args@)),
        r matches Ok(v) ==> v.len() == names.len(),
{
    let app = clap::App::new(name)
        .setting(clap::AppSettings::NoBinaryName)
        .setting(clap::AppSettings::DisableVersion)
        .args_from_usage(usage);
    match app.get_matches_from_safe(args) {
        Ok(m) => Ok(
            names.iter().map(
                |n| ArgMatch { count: m.occurrences_of(n), value: m.value_of(n).map(String::from) },
            ).collect(),
        ),
        Err(e) => Err(e.message),
    }
}

/// The first value of the argument of index `i` in the parse `m`, if the parse has one.
pub open spec fn value_of(m: Option<Seq<MatchView>>, i: int) -> Option<Seq<char>> {
    match m {
        Some(v) => if 0 <= i < v.len() {
            v[i].value
        } else {
            None
        },
        None => None,
    }
}

/// How often the argument of index `i` was given in the parse `m`.
pub open spec fn count_of(m: Option<Seq<MatchView>>, i: int) -> u64 {
    match m {
        Some(v) => if 0 <= i < v.len() {
            v[i].count
        } else {
            0
        },
        None => 0,
    }
}

/// The first value of the argument of index `i` in a parse.
pub fn take_value(parsed: &Parsed, i: usize) -> (r: Option<String>)
    ensures
        match r {
            Some(s) => value_of(parsed_view(*parsed), i as int) == Some(s@),
            None => value_of(parsed_view(*parsed), i as int).is_none(),
        },
{
    match parsed {
        Ok(v) => {
            if i < v.len() {
                match &v[i].value {
                    Some(s) => Some(s.clone()),
                    None => None,
                }
            } else {
                None
            }
        },
        Err(_) => None,
    }
}

/// How often the argument of index `i` was given in a parse.
pub fn take_count(parsed: &Parsed, i: usize) -> (r: u64)
    ensures
        r == count_of(parsed_view(*parsed), i as int),
{
    match parsed {
        Ok(v) => {
            if i < v.len() {
                v[i].count
            } else {
                0
            }
        },
        Err(_) => 0,
    }
}

/// The message of the error of a parse, if it failed.
pub fn take_message(parsed: Parsed) -> (r: Option<String>)
    ensures
        r.is_some() == parsed_view(parsed).is_none(),
        parsed matches Err(message) ==> r == Some(message),
{
    match parsed {
        Ok(_) => None,
        Err(message) => Some(message),
    }
}

/// The list of the given names.
pub fn name_list(names: &[&str]) -> (r: Vec<String>)
    ensures
        r.len() == names.len(),
        forall|i: int| 0 <= i < r.len() ==> (#[trigger] r@[i])@ == names@[i]@,
{
    let mut r: Vec<String> = Vec::new();
    let mut i: usize = 0;
    while i < names.len()
        invariant
            i <= names.len(),
            r.len() == i,
            forall|j: int| 0 <= j < i ==> (#[trigger] r@[j])@ == names@[j]@,
        decreases names.len() - i,
    {
        r.push(names[i].to_owned());
        i += 1;
    }
    r
}

} // verus!
