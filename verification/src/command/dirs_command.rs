//! `dirs`: shows the directory stack.

use crate::args::{
    clap_matches, clap_parse, count_of, name_list, parsed_view, take_count, take_message, MatchView,
    Parsed, DIRS_USAGE,
};
use crate::command::{line, CommandAliases, Outcome, Step};
use crate::context::{stack_text, ContextData, ContextView};
use crate::text::views;
use vstd::prelude::*;
use vstd::string::*;

verus! {

/// The command that shows the directory stack.
pub struct DirsCommand {
    /// The arguments as they were given.
    pub args: Vec<String>,
    /// Whether the stack is shown as a list, one directory per line.
    pub verbose: bool,
    /// The message for arguments that do not fit, if they do not.
    pub usage: Option<String>,
}

impl DirsCommand {
    /// What the parse of the arguments `args` finds.
    pub open spec fn found(args: Seq<Seq<char>>) -> Option<Seq<MatchView>> {
        clap_matches("dirs"@, DIRS_USAGE@, seq!["verbose"@], args)
    }

    /// Whether the command is the one that `args` give, where `m` is what the parse of the
    /// arguments found: the list form is asked for by the flag `-v`.
    pub open spec fn made_from(&self, args: Seq<Seq<char>>, m: Option<Seq<MatchView>>) -> bool {
        &&& views(self.args@) == args
        &&& self.verbose == (count_of(m, 0) > 0)
        &&& self.usage.is_some() == m.is_none()
    }

    /// What executing the command gives: a refusal where its arguments do not fit; else the
    /// stack is shown, on one line or as a list, and an empty stack is told of.
    pub open spec fn step(&self, state: ContextView) -> Step {
        match self.usage {
            Some(message) => Step { state, result: Ok(false), output: message@ + "\n"@ },
            None => Step {
                state,
                result: Ok(true),
                output: if state.dir_stack.len() == 0 {
                    "Directory stack is empty"@ + "\n"@
                } else {
                    stack_text(state.dir_stack, !self.verbose)
                },
            },
        }
    }

    /// The command for the arguments `args`, of which `parsed` is the parse.
    pub fn from_matches(args: Vec<String>, parsed: Parsed) -> (r: DirsCommand)
        ensures
            r.made_from(views(args@), parsed_view(parsed)),
            parsed matches Err(message) ==> r.usage == Some(message),
    {
        let verbose = take_count(&parsed, 0) > 0;
        DirsCommand { args, verbose, usage: take_message(parsed) }
    }

    /// The command for the arguments `args`.
    pub fn new(args: Vec<String>) -> (r: DirsCommand)
        ensures
            r.made_from(views(args@), Self::found(views(args@))),
    {
        let names = name_list(&["verbose"]);
        assert(views(names@) =~= seq!["verbose"@]);
        let parsed = clap_parse("dirs", DIRS_USAGE, &names, &args);
        DirsCommand::from_matches(args, parsed)
    }

    /// Shows the directory stack.
    pub fn execute(&mut self, ctx: &mut ContextData) -> (o: Outcome)
        ensures
            *final(ctx) == *old(ctx),
            o.result == old(self).step(old(ctx)@).result,
            o.output@ == old(self).step(old(ctx)@).output,
            *final(self) == *old(self),
    {
        match &self.usage {
            Some(message) => Outcome { result: Ok(false), output: line(message.as_str()) },
            None => {
                if ctx.dir_stack.len() == 0 {
                    Outcome { result: Ok(true), output: line("Directory stack is empty") }
                } else {
                    Outcome { result: Ok(true), output: ctx.print_dir_stack(!self.verbose) }
                }
            },
        }
    }
}

impl CommandAliases for DirsCommand {
    fn aliases() -> (r: Vec<String>)
        ensures
            views(r@) == seq!["dirs"@],
    {
        let mut r: Vec<String> = Vec::new();
        r.push("dirs".to_owned());
        assert(views(r@) =~= seq!["dirs"@]);
        r
    }
}

} // verus!
