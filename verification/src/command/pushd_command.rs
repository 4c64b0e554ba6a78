//! `pushd`: changes the working directory and pushes the one it leaves onto the directory
//! stack.

use crate::args::{
    clap_matches, clap_parse, name_list, parsed_view, take_message, take_value, value_of, MatchView,
    Parsed, PUSHD_USAGE,
};
use crate::command::cd_command::{change_dir, dir_step, target};
use crate::command::{line, CommandAliases, Outcome, Reply, ReplyView, Request, RequestView, Step};
use crate::context::{ContextData, ContextView};
use crate::text::{str_eq, views};
use vstd::prelude::*;
use vstd::string::*;

verus! {

/// The command that changes the working directory and pushes the one it leaves.
pub struct PushdCommand {
    /// The directory to change to, if one was given.
    pub path: Option<String>,
    /// The arguments as they were given.
    pub args: Vec<String>,
    /// The message for arguments that do not fit, if they do not.
    pub usage: Option<String>,
}

/// The path that an optional string gives, `~` where there is none.
pub open spec fn path_or_home(path: Option<String>) -> Seq<char> {
    match path {
        Some(dir) => dir@,
        None => "~"@,
    }
}

impl PushdCommand {
    /// What the parse of the arguments `args` finds.
    pub open spec fn found(args: Seq<Seq<char>>) -> Option<Seq<MatchView>> {
        clap_matches("pushd"@, PUSHD_USAGE@, seq!["directory"@], args)
    }

    /// Whether the command is the one that `args` give, where `m` is what the parse of the
    /// arguments found.
    pub open spec fn made_from(&self, args: Seq<Seq<char>>, m: Option<Seq<MatchView>>) -> bool {
        &&& views(self.args@) == args
        &&& match self.path {
            Some(dir) => value_of(m, 0) == Some(dir@),
            None => value_of(m, 0).is_none(),
        }
        &&& self.usage.is_some() == m.is_none()
    }

    /// What the command asks for: to change to its directory, or to the home directory where
    /// it has none, unless its arguments do not fit.
    pub open spec fn wanted(&self, state: ContextView) -> RequestView {
        if self.usage.is_some() {
            RequestView::Nothing
        } else {
            RequestView::ChangeDir(target(path_or_home(self.path), state.home_dir))
        }
    }

    /// What executing the command gives: a refusal where its arguments do not fit, else what
    /// the change of directory gives, the directory left being pushed.
    pub open spec fn step(&self, state: ContextView, reply: ReplyView) -> Step {
        match self.usage {
            Some(message) => Step { state, result: Ok(false), output: message@ + "\n"@ },
            None => dir_step(
                state,
                true,
                target(path_or_home(self.path), state.home_dir),
                reply,
            ),
        }
    }

    /// The command for the arguments `args`, of which `parsed` is the parse.
    pub fn from_matches(args: Vec<String>, parsed: Parsed) -> (r: PushdCommand)
        ensures
            r.made_from(views(args@), parsed_view(parsed)),
            parsed matches Err(message) ==> r.usage == Some(message),
    {
        let path = take_value(&parsed, 0);
        PushdCommand { path, args, usage: take_message(parsed) }
    }

    /// The command for the arguments `args`.
    pub fn new(args: Vec<String>) -> (r: PushdCommand)
        ensures
            r.made_from(views(args@), Self::found(views(args@))),
    {
        let names = name_list(&["directory"]);
        assert(views(names@) =~= seq!["directory"@]);
        let parsed = clap_parse("pushd", PUSHD_USAGE, &names, &args);
        PushdCommand::from_matches(args, parsed)
    }

    /// The directory that the command changes to in a session with the home directory
    /// `home`.
    pub fn directory(&self, home: &str) -> (r: String)
        ensures
            r@ == target(path_or_home(self.path), home@),
    {
        match &self.path {
            Some(dir) => {
                if str_eq(dir.as_str(), "~") {
                    home.to_owned()
                } else {
                    dir.clone()
                }
            },
            None => home.to_owned(),
        }
    }

    /// Asks for the change of directory.
    pub fn request(&self, ctx: &ContextData) -> (r: Request)
        ensures
            r@ == self.wanted(ctx@),
    {
        match &self.usage {
            Some(_) => Request::Nothing,
            None => Request::ChangeDir(self.directory(ctx.home_dir.as_str())),
        }
    }

    /// Takes note of the change of directory.
    pub fn execute(&mut self, ctx: &mut ContextData, reply: &Reply) -> (o: Outcome)
        requires
            old(ctx).wf(),
        ensures
            final(ctx).wf(),
            final(ctx)@ == old(self).step(old(ctx)@, reply@).state,
            o.result == old(self).step(old(ctx)@, reply@).result,
            o.output@ == old(self).step(old(ctx)@, reply@).output,
            *final(self) == *old(self),
    {
        match &self.usage {
            Some(message) => Outcome { result: Ok(false), output: line(message.as_str()) },
            None => {
                let dir = self.directory(ctx.home_dir.as_str());
                change_dir(ctx, true, dir.as_str(), reply)
            },
        }
    }
}

impl CommandAliases for PushdCommand {
    fn aliases() -> (r: Vec<String>)
        ensures
            views(r@) == seq!["pushd"@],
    {
        let mut r: Vec<String> = Vec::new();
        r.push("pushd".to_owned());
        assert(views(r@) =~= seq!["pushd"@]);
        r
    }
}

} // verus!
