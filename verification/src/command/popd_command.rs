//! `popd`: takes the top off the directory stack and changes to it.

use crate::command::cd_command::not_changed;
use crate::command::{line, CommandAliases, Outcome, Reply, ReplyView, Request, RequestView, Step};
use crate::context::{stack_text, ContextData, ContextView};
use crate::text::views;
use vstd::prelude::*;
use vstd::string::*;

verus! {

/// The command that takes the top off the directory stack and changes to it.
pub struct PopdCommand;

impl PopdCommand {
    /// What the command asks for: to change to the top of the directory stack, if the stack
    /// has one.
    pub open spec fn wanted(state: ContextView) -> RequestView {
        if state.dir_stack.len() == 0 {
            RequestView::Nothing
        } else {
            RequestView::ChangeDir(state.dir_stack.last())
        }
    }

    /// What executing the command gives. An empty stack is told of, and nothing changes. Else
    /// the top leaves the stack; after a change of directory the one left becomes the value
    /// of `OLDPWD`; and the stack that remains is shown.
    pub open spec fn step(state: ContextView, reply: ReplyView) -> Step {
        if state.dir_stack.len() == 0 {
            Step { state, result: Ok(true), output: "Directory stack is empty"@ + "\n"@ }
        } else {
            let stack = state.dir_stack.drop_last();
            Step {
                state: ContextView {
                    env: match reply {
                        ReplyView::Moved(from) => state.env.insert("OLDPWD"@, from),
                        _ => state.env,
                    },
                    dir_stack: stack,
                    ..state
                },
                result: Ok(true),
                output: (match reply {
                    ReplyView::Failed(message) => not_changed(state.dir_stack.last(), message),
                    _ => Seq::empty(),
                }) + stack_text(stack, true),
            }
        }
    }

    /// Asks for the change of directory.
    pub fn request(&self, ctx: &ContextData) -> (r: Request)
        ensures
            r@ == Self::wanted(ctx@),
    {
        let n: usize = ctx.dir_stack.len();
        if n == 0 {
            Request::Nothing
        } else {
            Request::ChangeDir(ctx.dir_stack[n - 1].clone())
        }
    }

    /// Takes the top off the stack, and takes note of the change of directory.
    pub fn execute(&mut self, ctx: &mut ContextData, reply: &Reply) -> (o: Outcome)
        requires
            old(ctx).wf(),
        ensures
            final(ctx).wf(),
            final(ctx)@ == Self::step(old(ctx)@, reply@).state,
            o.result == Self::step(old(ctx)@, reply@).result,
            o.output@ == Self::step(old(ctx)@, reply@).output,
    {
        let ghost stack = views(ctx.dir_stack@);
        match ctx.dir_stack.pop() {
            None => Outcome { result: Ok(true), output: line("Directory stack is empty") },
            Some(top) => {
                assert(views(ctx.dir_stack@) =~= stack.drop_last());
                assert(top@ == stack.last());
                let mut output = String::new();
                match reply {
                    Reply::Moved(from) => {
                        ctx.env.insert("OLDPWD".to_owned(), from.clone());
                    },
                    Reply::Failed(message) => {
                        output.append("Could not change to ");
                        output.append(top.as_str());
                        output.append(": ");
                        output.append(message.as_str());
                        output.append("\n");
                    },
                    _ => {},
                }
                let shown = ctx.print_dir_stack(true);
                output.append(shown.as_str());
                Outcome { result: Ok(true), output }
            },
        }
    }
}

impl CommandAliases for PopdCommand {
    fn aliases() -> (r: Vec<String>)
        ensures
            views(r@) == seq!["popd"@],
    {
        let mut r: Vec<String> = Vec::new();
        r.push("popd".to_owned());
        assert(views(r@) =~= seq!["popd"@]);
        r
    }
}

} // verus!
