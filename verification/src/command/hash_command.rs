//! `hash`: tells whether a command is known, or looks anew for the programs of the search
//! path.

use crate::args::{
    clap_matches, clap_parse, count_of, name_list, parsed_view, take_count, take_message,
    take_value, value_of, MatchView, Parsed, HASH_USAGE,
};
use crate::command::rehash_command::{rehashed, scan_dirs, scan_request, take_found};
use crate::command::{line, CommandAliases, Outcome, Reply, ReplyView, Request, RequestView, Step};
use crate::context::{ContextData, ContextView};
use crate::text::views;
use vstd::prelude::*;
use vstd::string::*;

verus! {

/// The command that tells whether a command is known.
pub struct HashCommand {
    /// The arguments as they were given.
    pub args: Vec<String>,
    /// Whether to look anew for the programs of the search path.
    pub rehash: bool,
    /// The command to look up, if one was given.
    pub command: Option<String>,
    /// The message for arguments that do not fit, if they do not.
    pub usage: Option<String>,
}

impl HashCommand {
    /// What the parse of the arguments `args` finds.
    pub open spec fn found(args: Seq<Seq<char>>) -> Option<Seq<MatchView>> {
        clap_matches("hash"@, HASH_USAGE@, seq!["rehash"@, "command"@], args)
    }

    /// Whether the command is the one that `args` give, where `m` is what the parse of the
    /// arguments found: the flag `-r` asks for a new look, a word names the command to look
    /// up.
    pub open spec fn made_from(&self, args: Seq<Seq<char>>, m: Option<Seq<MatchView>>) -> bool {
        &&& views(self.args@) == args
        &&& self.rehash == (count_of(m, 0) > 0)
        &&& match self.command {
            Some(name) => value_of(m, 1) == Some(name@),
            None => value_of(m, 1).is_none(),
        }
        &&& self.usage.is_some() == m.is_none()
    }

    /// What the command asks for: a look into the directories of the search path, where it
    /// is to look anew.
    pub open spec fn wanted(&self, state: ContextView) -> RequestView {
        if self.usage.is_none() && self.rehash {
            RequestView::Scan(scan_dirs(state))
        } else {
            RequestView::Nothing
        }
    }

    /// What executing the command gives: a refusal where its arguments do not fit. With `-r`
    /// the known commands are those that were found. Else, with a command to look up, the
    /// variable `?` becomes `0` where it is known and `1` where it is not, and the command
    /// succeeds where it is known. Else nothing happens.
    pub open spec fn step(&self, state: ContextView, reply: ReplyView) -> Step {
        match self.usage {
            Some(message) => Step { state, result: Ok(false), output: message@ + "\n"@ },
            None => if self.rehash {
                Step {
                    state: ContextView { commands: rehashed(reply), ..state },
                    result: Ok(true),
                    output: Seq::empty(),
                }
            } else {
                match self.command {
                    Some(name) => {
                        let known = state.commands.contains(name@);
                        Step {
                            state: ContextView {
                                env: state.env.insert(
                                    "?"@,
                                    if known {
                                        "0"@
                                    } else {
                                        "1"@
                                    },
                                ),
                                ..state
                            },
                            result: Ok(known),
                            output: Seq::empty(),
                        }
                    },
                    None => Step { state, result: Ok(true), output: Seq::empty() },
                }
            },
        }
    }

    /// The command for the arguments `args`, of which `parsed` is the parse.
    pub fn from_matches(args: Vec<String>, parsed: Parsed) -> (r: HashCommand)
        ensures
            r.made_from(views(args@), parsed_view(parsed)),
            parsed matches Err(message) ==> r.usage == Some(message),
    {
        let rehash = take_count(&parsed, 0) > 0;
        let command = take_value(&parsed, 1);
        HashCommand { args, rehash, command, usage: take_message(parsed) }
    }

    /// The command for the arguments `args`.
    pub fn new(args: Vec<String>) -> (r: HashCommand)
        ensures
            r.made_from(views(args@), Self::found(views(args@))),
    {
        let names = name_list(&["rehash", "command"]);
        assert(views(names@) =~= seq!["rehash"@, "command"@]);
        let parsed = clap_parse("hash", HASH_USAGE, &names, &args);
        HashCommand::from_matches(args, parsed)
    }

    /// Asks for the look into the directories, where the command is to look anew.
    pub fn request(&self, ctx: &ContextData) -> (r: Request)
        requires
            ctx.wf(),
        ensures
            r@ == self.wanted(ctx@),
    {
        if self.usage.is_none() && self.rehash {
            scan_request(ctx)
        } else {
            Request::Nothing
        }
    }

    /// Looks the command up, or takes the names that were found as the known commands.
    pub fn execute(&mut self, ctx: &mut ContextData, reply: &Reply) -> (o: Outcome)
        requires
            old(ctx).wf(),
        ensures
            final(ctx).wf(),
            final(ctx)@ == old(self).step(old(ctx)@, reply@).state,
            o.result == old(self).step(old(ctx)@, reply@).result,
            o.output@ == old(self).step(old(ctx)@, reply@).output,
            *final(self) == *old(self),
    {
        match &self.usage {
            Some(message) => {
                return Outcome { result: Ok(false), output: line(message.as_str()) };
            },
            None => {},
        }
        if self.rehash {
            take_found(ctx, reply);
            return Outcome { result: Ok(true), output: String::new() };
        }
        match &self.command {
            Some(name) => {
                let known = ctx.commands.contains(name.as_str());
                if known {
                    ctx.env.insert("?".to_owned(), "0".to_owned());
                } else {
                    ctx.env.insert("?".to_owned(), "1".to_owned());
                }
                Outcome { result: Ok(known), output: String::new() }
            },
            None => Outcome { result: Ok(true), output: String::new() },
        }
    }
}

impl CommandAliases for HashCommand {
    fn aliases() -> (r: Vec<String>)
        ensures
            views(r@) == seq!["hash"@],
    {
        let mut r: Vec<String> = Vec::new();
        r.push("hash".to_owned());
        assert(views(r@) =~= seq!["hash"@]);
        r
    }
}

} // verus!
