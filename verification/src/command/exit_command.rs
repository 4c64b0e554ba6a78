//! `exit`: ends the shell with an exit code.

use crate::args::{
    clap_matches, clap_parse, name_list, parsed_view, take_message, take_value, value_of, MatchView,
    Parsed, EXIT_USAGE,
};
use crate::command::{line, CommandAliases, Outcome, Step};
use crate::context::{ContextData, ContextView};
use crate::num::{parse_i32, parsed_i32};
use crate::text::views;
use vstd::prelude::*;
use vstd::string::*;

verus! {

/// The command that ends the shell with an exit code.
pub struct ExitCommand {
    /// The exit code that was given, or zero.
    pub code: i32,
    /// The arguments as they were given.
    pub args: Vec<String>,
    /// The message for arguments that do not fit, if they do not.
    pub usage: Option<String>,
}

/// The message for an exit code that is no integer.
pub open spec fn no_integer() -> Seq<char> {
    "Exit code must be an integer!"@
}

impl ExitCommand {
    /// What the parse of the arguments `args` finds.
    pub open spec fn found(args: Seq<Seq<char>>) -> Option<Seq<MatchView>> {
        clap_matches("exit"@, EXIT_USAGE@, seq!["code"@], args)
    }

    /// Whether the command is the one that `args` give, where `m` is what the parse of the
    /// arguments found: the exit code is the one given, which has to be a 32-bit integer, or
    /// zero where none was given or the arguments do not fit.
    pub open spec fn made_from(&self, args: Seq<Seq<char>>, m: Option<Seq<MatchView>>) -> bool {
        &&& views(self.args@) == args
        &&& match m {
            None => self.code == 0 && self.usage.is_some(),
            Some(_) => match value_of(m, 0) {
                None => self.code == 0 && self.usage.is_none(),
                Some(text) => match parsed_i32(text) {
                    Some(code) => self.code == code && self.usage.is_none(),
                    None => self.code == 0 && (self.usage matches Some(message) && message@
                        == no_integer()),
                },
            },
        }
    }

    /// The exit code that the shell ends with: the one given; without any argument the one
    /// that the variable `?` holds, if it holds one.
    pub open spec fn final_code(&self, state: ContextView) -> int {
        if self.args@.len() == 0 && state.env.contains_key("?"@) {
            match parsed_i32(state.env["?"@]) {
                Some(code) => code,
                None => self.code as int,
            }
        } else {
            self.code as int
        }
    }

    /// What executing the command gives: a refusal where its arguments do not fit, else the
    /// end of the shell with the exit code.
    pub open spec fn step(&self, state: ContextView) -> Step {
        match self.usage {
            Some(message) => Step { state, result: Ok(false), output: message@ + "\n"@ },
            None => Step {
                state,
                result: Err(self.final_code(state) as i32),
                output: Seq::empty(),
            },
        }
    }

    /// The command for the arguments `args`, of which `parsed` is the parse.
    pub fn from_matches(args: Vec<String>, parsed: Parsed) -> (r: ExitCommand)
        ensures
            r.made_from(views(args@), parsed_view(parsed)),
            parsed matches Err(message) ==> r.usage == Some(message),
    {
        match take_value(&parsed, 0) {
            Some(text) => match parse_i32(text.as_str()) {
                Some(code) => ExitCommand { code, args, usage: None },
                None => ExitCommand {
                    code: 0,
                    args,
                    usage: Some("Exit code must be an integer!".to_owned()),
                },
            },
            None => ExitCommand { code: 0, args, usage: take_message(parsed) },
        }
    }

    /// The command for the arguments `args`.
    pub fn new(args: Vec<String>) -> (r: ExitCommand)
        ensures
            r.made_from(views(args@), Self::found(views(args@))),
    {
        let names = name_list(&["code"]);
        assert(views(names@) =~= seq!["code"@]);
        let parsed = clap_parse("exit", EXIT_USAGE, &names, &args);
        ExitCommand::from_matches(args, parsed)
    }

    /// Ends the shell, unless the arguments do not fit. The command keeps the exit code that
    /// it ended the shell with.
    pub fn execute(&mut self, ctx: &mut ContextData) -> (o: Outcome)
        requires
            old(ctx).wf(),
        ensures
            *final(ctx) == *old(ctx),
            o.result == old(self).step(old(ctx)@).result,
            o.output@ == old(self).step(old(ctx)@).output,
            final(self).args == old(self).args,
            final(self).usage == old(self).usage,
            final(self).code == (if old(self).usage.is_none() {
                old(self).final_code(old(ctx)@)
            } else {
                old(self).code as int
            }),
    {
        match &self.usage {
            Some(message) => {
                return Outcome { result: Ok(false), output: line(message.as_str()) };
            },
            None => {},
        }
        if self.args.len() == 0 {
            match ctx.env.get("?") {
                Some(text) => match parse_i32(text.as_str()) {
                    Some(code) => {
                        self.code = code;
                    },
                    None => {},
                },
                None => {},
            }
        }
        Outcome { result: Err(self.code), output: String::new() }
    }
}

impl CommandAliases for ExitCommand {
    fn aliases() -> (r: Vec<String>)
        ensures
            views(r@) == seq!["exit"@],
    {
        let mut r: Vec<String> = Vec::new();
        r.push("exit".to_owned());
        assert(views(r@) =~= seq!["exit"@]);
        r
    }
}

} // verus!
