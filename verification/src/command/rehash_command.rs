//! `rehash`: looks anew for the programs in the directories of the search path.

use crate::command::{CommandAliases, Outcome, Reply, ReplyView, Request, RequestView, Step};
use crate::context::{ContextData, ContextView};
use crate::path_commands::{path_dirs, search_dirs};
use crate::text::views;
use vstd::prelude::*;
use vstd::string::*;

verus! {

/// The directories of the search path of the session: those that the variable `PATH` names,
/// none where it has no value.
pub open spec fn scan_dirs(state: ContextView) -> Seq<Seq<char>> {
    if state.env.contains_key("PATH"@) {
        search_dirs(state.env["PATH"@])
    } else {
        Seq::empty()
    }
}

/// The known commands after a new look: the names that were found, none where the answer
/// brings no names.
pub open spec fn rehashed(reply: ReplyView) -> Set<Seq<char>> {
    match reply {
        ReplyView::Found(names) => names.to_set(),
        _ => Set::empty(),
    }
}

/// Asks for a look into the directories of the search path.
pub fn scan_request(ctx: &ContextData) -> (r: Request)
    requires
        ctx.wf(),
    ensures
        r@ == RequestView::Scan(scan_dirs(ctx@)),
{
    match ctx.env.get("PATH") {
        Some(path) => Request::Scan(path_dirs(path.as_str())),
        None => {
            let dirs: Vec<String> = Vec::new();
            assert(views(dirs@) =~= Seq::empty());
            Request::Scan(dirs)
        },
    }
}

/// Forgets the known commands and takes those that the answer brings.
pub fn take_found(ctx: &mut ContextData, reply: &Reply)
    requires
        old(ctx).wf(),
    ensures
        final(ctx).wf(),
        final(ctx)@ == (ContextView { commands: rehashed(reply@), ..old(ctx)@ }),
{
    match reply {
        Reply::Found(names) => {
            ctx.commands.rehash(crate::command::general_command::clone_strings(names));
        },
        _ => {
            ctx.commands.clear();
        },
    }
}

/// The command that looks anew for the programs of the search path.
pub struct RehashCommand;

impl RehashCommand {
    /// What the command asks for: a look into the directories of the search path.
    pub open spec fn wanted(state: ContextView) -> RequestView {
        RequestView::Scan(scan_dirs(state))
    }

    /// What executing the command gives: the known commands are those that were found.
    pub open spec fn step(state: ContextView, reply: ReplyView) -> Step {
        Step {
            state: ContextView { commands: rehashed(reply), ..state },
            result: Ok(true),
            output: Seq::empty(),
        }
    }

    /// Asks for the look into the directories.
    pub fn request(&self, ctx: &ContextData) -> (r: Request)
        requires
            ctx.wf(),
        ensures
            r@ == Self::wanted(ctx@),
    {
        scan_request(ctx)
    }

    /// Takes the names that were found as the known commands.
    pub fn execute(&mut self, ctx: &mut ContextData, reply: &Reply) -> (o: Outcome)
        requires
            old(ctx).wf(),
        ensures
            final(ctx).wf(),
            final(ctx)@ == Self::step(old(ctx)@, reply@).state,
            o.result == Self::step(old(ctx)@, reply@).result,
            o.output@ == Self::step(old(ctx)@, reply@).output,
    {
        take_found(ctx, reply);
        Outcome { result: Ok(true), output: String::new() }
    }
}

impl CommandAliases for RehashCommand {
    fn aliases() -> (r: Vec<String>)
        ensures
            views(r@) == seq!["rehash"@],
    {
        let mut r: Vec<String> = Vec::new();
        r.push("rehash".to_owned());
        assert(views(r@) =~= seq!["rehash"@]);
        r
    }
}

} // verus!
