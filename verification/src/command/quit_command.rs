//! `quit`: ends the shell.

use crate::command::{CommandAliases, Outcome, Step};
use crate::context::{ContextData, ContextView};
use crate::text::views;
use vstd::prelude::*;
use vstd::string::*;

verus! {

/// The command that ends the shell with the exit code zero.
pub struct QuitCommand;

impl QuitCommand {
    /// What executing the command gives: the shell ends with the exit code zero.
    pub open spec fn step(state: ContextView) -> Step {
        Step { state, result: Err(0), output: Seq::empty() }
    }

    /// Ends the shell with the exit code zero.
    pub fn execute(&mut self, ctx: &mut ContextData) -> (o: Outcome)
        ensures
            *final(ctx) == *old(ctx),
            o.result == Err::<bool, i32>(0),
            o.output@ == Seq::<char>::empty(),
    {
        Outcome { result: Err(0), output: String::new() }
    }
}

impl CommandAliases for QuitCommand {
    fn aliases() -> (r: Vec<String>)
        ensures
            views(r@) == seq!["quit"@],
    {
        let mut r: Vec<String> = Vec::new();
        r.push("quit".to_owned());
        assert(views(r@) =~= seq!["quit"@]);
        r
    }
}

} // verus!
