//! `export`: gives variables of the environment their values, or shows the environment.

use crate::args::{
    clap_matches, clap_parse, name_list, parsed_view, take_message, MatchView, Parsed, EXPORT_USAGE,
};
use crate::command::{line, CommandAliases, Outcome, Step};
use crate::context::{ContextData, ContextView};
use crate::env::listing;
use crate::text::{find_char, first_index, lines_text, range_string, to_chars, views};
use vstd::prelude::*;
use vstd::string::*;

verus! {

/// The name that the word `word` assigns to: what stands before its first `=`, or all of it.
pub open spec fn assigned_name(word: Seq<char>) -> Seq<char> {
    match first_index(word, '=') {
        Some(i) => word.subrange(0, i),
        None => word,
    }
}

/// The value that the word `word` assigns: what stands behind its first `=`, or nothing.
pub open spec fn assigned_value(word: Seq<char>) -> Seq<char> {
    match first_index(word, '=') {
        Some(i) => word.subrange(i + 1, word.len() as int),
        None => Seq::empty(),
    }
}

/// The environment `env` after each of the words `args[i..]` in turn has given its name its
/// value.
pub open spec fn exported_from(env: Map<Seq<char>, Seq<char>>, args: Seq<Seq<char>>, i: int) -> Map<
    Seq<char>,
    Seq<char>,
>
    decreases args.len() - i,
{
    if i < 0 || i >= args.len() {
        env
    } else {
        exported_from(env.insert(assigned_name(args[i]), assigned_value(args[i])), args, i + 1)
    }
}

/// Splits a word at its first `=` into the name and the value that it assigns.
pub fn split_assignment(word: &str) -> (r: (String, String))
    ensures
        r.0@ == assigned_name(word@),
        r.1@ == assigned_value(word@),
{
    let t = to_chars(word);
    match find_char(&t, '=') {
        Some(i) => (range_string(&t, 0, i), range_string(&t, i + 1, t.len())),
        None => (word.to_owned(), String::new()),
    }
}

/// The command that gives variables their values.
pub struct ExportCommand {
    /// The arguments as they were given: words of the form `NAME` or `NAME=value`.
    pub args: Vec<String>,
    /// The message for arguments that do not fit, if they do not.
    pub usage: Option<String>,
}

impl ExportCommand {
    /// What the parse of the arguments `args` finds.
    pub open spec fn found(args: Seq<Seq<char>>) -> Option<Seq<MatchView>> {
        clap_matches("export"@, EXPORT_USAGE@, seq!["vars"@], args)
    }

    /// Whether the command is the one that `args` give, where `m` is what the parse of the
    /// arguments found.
    pub open spec fn made_from(&self, args: Seq<Seq<char>>, m: Option<Seq<MatchView>>) -> bool {
        &&& views(self.args@) == args
        &&& self.usage.is_some() == m.is_none()
    }

    /// What executing the command gives: a refusal where its arguments do not fit; without
    /// arguments the environment is shown, a line `NAME=value` for each variable, in the
    /// order of the names; else each argument gives its name its value, the empty one where
    /// the argument has no `=`.
    pub open spec fn step(&self, state: ContextView) -> Step {
        match self.usage {
            Some(message) => Step { state, result: Ok(false), output: message@ + "\n"@ },
            None => if self.args@.len() == 0 {
                Step { state, result: Ok(true), output: lines_text(listing(state.env)) }
            } else {
                Step {
                    state: ContextView {
                        env: exported_from(state.env, views(self.args@), 0),
                        ..state
                    },
                    result: Ok(true),
                    output: Seq::empty(),
                }
            },
        }
    }

    /// The command for the arguments `args`, of which `parsed` is the parse.
    pub fn from_matches(args: Vec<String>, parsed: Parsed) -> (r: ExportCommand)
        ensures
            r.made_from(views(args@), parsed_view(parsed)),
            parsed matches Err(message) ==> r.usage == Some(message),
    {
        ExportCommand { args, usage: take_message(parsed) }
    }

    /// The command for the arguments `args`.
    pub fn new(args: Vec<String>) -> (r: ExportCommand)
        ensures
            r.made_from(views(args@), Self::found(views(args@))),
    {
        let names = name_list(&["vars"]);
        assert(views(names@) =~= seq!["vars"@]);
        let parsed = clap_parse("export", EXPORT_USAGE, &names, &args);
        ExportCommand::from_matches(args, parsed)
    }

    /// Shows the environment, or gives the variables their values.
    pub fn execute(&mut self, ctx: &mut ContextData) -> (o: Outcome)
        requires
            old(ctx).wf(),
        ensures
            final(ctx).wf(),
            final(ctx)@ == old(self).step(old(ctx)@).state,
            o.result == old(self).step(old(ctx)@).result,
            o.output@ == old(self).step(old(ctx)@).output,
            *final(self) == *old(self),
    {
        match &self.usage {
            Some(message) => {
                return Outcome { result: Ok(false), output: line(message.as_str()) };
            },
            None => {},
        }
        if self.args.len() == 0 {
            return Outcome { result: Ok(true), output: ctx.env.print() };
        }
        let ghost args = views(self.args@);
        let mut i: usize = 0;
        while i < self.args.len()
            invariant
                i <= self.args.len(),
                args == views(self.args@),
                ctx.wf(),
                exported_from(ctx@.env, args, i as int) == exported_from(old(ctx)@.env, args, 0),
                ctx@ == (ContextView { env: ctx@.env, ..old(ctx)@ }),
            decreases self.args.len() - i,
        {
            let (name, value) = split_assignment(self.args[i].as_str());
            ctx.env.insert(name, value);
            i += 1;
        }
        Outcome { result: Ok(true), output: String::new() }
    }
}

impl CommandAliases for ExportCommand {
    fn aliases() -> (r: Vec<String>)
        ensures
            views(r@) == seq!["export"@],
    {
        let mut r: Vec<String> = Vec::new();
        r.push("export".to_owned());
        assert(views(r@) =~= seq!["export"@]);
        r
    }
}

} // verus!
