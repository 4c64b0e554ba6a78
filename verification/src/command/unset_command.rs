//! `unset`: takes variables out of the environment.

use crate::args::{
    clap_matches, clap_parse, name_list, parsed_view, take_message, MatchView, Parsed, UNSET_USAGE,
};
use crate::command::{line, CommandAliases, Outcome, Step};
use crate::context::{ContextData, ContextView};
use crate::text::views;
use vstd::prelude::*;
use vstd::string::*;

verus! {

/// The environment `env` without the variables `args[i..]`.
pub open spec fn unset_from(env: Map<Seq<char>, Seq<char>>, args: Seq<Seq<char>>, i: int) -> Map<
    Seq<char>,
    Seq<char>,
>
    decreases args.len() - i,
{
    if i < 0 || i >= args.len() {
        env
    } else {
        unset_from(env.remove(args[i]), args, i + 1)
    }
}

/// The command that takes variables out of the environment.
pub struct UnsetCommand {
    /// The arguments as they were given: the names of the variables.
    pub args: Vec<String>,
    /// The message for arguments that do not fit, if they do not.
    pub usage: Option<String>,
}

impl UnsetCommand {
    /// What the parse of the arguments `args` finds.
    pub open spec fn found(args: Seq<Seq<char>>) -> Option<Seq<MatchView>> {
        clap_matches("unset"@, UNSET_USAGE@, seq!["vars"@], args)
    }

    /// Whether the command is the one that `args` give, where `m` is what the parse of the
    /// arguments found.
    pub open spec fn made_from(&self, args: Seq<Seq<char>>, m: Option<Seq<MatchView>>) -> bool {
        &&& views(self.args@) == args
        &&& self.usage.is_some() == m.is_none()
    }

    /// What executing the command gives: a refusal where its arguments do not fit; else each
    /// variable that is named leaves the environment.
    pub open spec fn step(&self, state: ContextView) -> Step {
        match self.usage {
            Some(message) => Step { state, result: Ok(false), output: message@ + "\n"@ },
            None => Step {
                state: ContextView { env: unset_from(state.env, views(self.args@), 0), ..state },
                result: Ok(true),
                output: Seq::empty(),
            },
        }
    }

    /// The command for the arguments `args`, of which `parsed` is the parse.
    pub fn from_matches(args: Vec<String>, parsed: Parsed) -> (r: UnsetCommand)
        ensures
            r.made_from(views(args@), parsed_view(parsed)),
            parsed matches Err(message) ==> r.usage == Some(message),
    {
        UnsetCommand { args, usage: take_message(parsed) }
    }

    /// The command for the arguments `args`.
    pub fn new(args: Vec<String>) -> (r: UnsetCommand)
        ensures
            r.made_from(views(args@), Self::found(views(args@))),
    {
        let names = name_list(&["vars"]);
        assert(views(names@) =~= seq!["vars"@]);
        let parsed = clap_parse("unset", UNSET_USAGE, &names, &args);
        UnsetCommand::from_matches(args, parsed)
    }

    /// Takes the variables out of the environment.
    pub fn execute(&mut self, ctx: &mut ContextData) -> (o: Outcome)
        requires
            old(ctx).wf(),
        ensures
            final(ctx).wf(),
            final(ctx)@ == old(self).step(old(ctx)@).state,
            o.result == old(self).step(old(ctx)@).result,
            o.output@ == old(self).step(old(ctx)@).output,
            *final(self) == *old(self),
    {
        match &self.usage {
            Some(message) => {
                return Outcome { result: Ok(false), output: line(message.as_str()) };
            },
            None => {},
        }
        let ghost args = views(self.args@);
        let mut i: usize = 0;
        while i < self.args.len()
            invariant
                i <= self.args.len(),
                args == views(self.args@),
                ctx.wf(),
                unset_from(ctx@.env, args, i as int) == unset_from(old(ctx)@.env, args, 0),
                ctx@ == (ContextView { env: ctx@.env, ..old(ctx)@ }),
            decreases self.args.len() - i,
        {
            ctx.env.remove(self.args[i].as_str());
            i += 1;
        }
        Outcome { result: Ok(true), output: String::new() }
    }
}

impl CommandAliases for UnsetCommand {
    fn aliases() -> (r: Vec<String>)
        ensures
            views(r@) == seq!["unset"@],
    {
        let mut r: Vec<String> = Vec::new();
        r.push("unset".to_owned());
        assert(views(r@) =~= seq!["unset"@]);
        r
    }
}

} // verus!
