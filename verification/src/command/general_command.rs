//! A program outside the shell, started with arguments.

use crate::command::{line, Outcome, Reply, ReplyView, Request, RequestView, Step};
use crate::context::{ContextData, ContextView};
use crate::env::entries;
use crate::num::{i32_string, signed_decimal};
use crate::text::views;
use vstd::prelude::*;
use vstd::string::*;

verus! {

/// The command that starts a program and waits for its end.
pub struct GeneralCommand {
    /// The program to start.
    pub program: String,
    /// The arguments to start it with.
    pub args: Vec<String>,
}

impl GeneralCommand {
    /// The command that starts `program` with `args`.
    pub fn new(program: String, args: Vec<String>) -> (r: GeneralCommand)
        ensures
            r.program == program,
            r.args == args,
    {
        GeneralCommand { program, args }
    }

    /// What the command asks for: to start the program with the arguments in the environment
    /// of the session.
    pub open spec fn wanted(&self, state: ContextView) -> RequestView {
        RequestView::Spawn {
            program: self.program@,
            args: views(self.args@),
            env: entries(state.env),
        }
    }

    /// What executing the command gives, once the program has ended or could not be started.
    /// The exit code becomes the value of `?`. After a failure the shell goes on, unless it
    /// is to end on failures: then it ends with the exit code of the program, or with 1
    /// where the program did not start.
    pub open spec fn step(state: ContextView, reply: ReplyView) -> Step {
        match reply {
            ReplyView::Exited { code, success } => Step {
                state: ContextView {
                    env: state.env.insert("?"@, signed_decimal(code as int)),
                    ..state
                },
                result: if state.errexit && !success {
                    Err(code)
                } else {
                    Ok(success)
                },
                output: Seq::empty(),
            },
            ReplyView::Failed(message) => Step {
                state,
                result: if state.errexit {
                    Err(1)
                } else {
                    Ok(false)
                },
                output: message + "\n"@,
            },
            _ => Step { state, result: Ok(false), output: Seq::empty() },
        }
    }

    /// Asks for the program to be started.
    pub fn request(&self, ctx: &ContextData) -> (r: Request)
        requires
            ctx.wf(),
        ensures
            r@ == self.wanted(ctx@),
    {
        Request::Spawn {
            program: self.program.clone(),
            args: clone_strings(&self.args),
            env: ctx.env.pairs(),
        }
    }

    /// Takes note of how the program ended.
    pub fn execute(&mut self, ctx: &mut ContextData, reply: &Reply) -> (o: Outcome)
        requires
            old(ctx).wf(),
        ensures
            final(ctx).wf(),
            final(ctx)@ == Self::step(old(ctx)@, reply@).state,
            o.result == Self::step(old(ctx)@, reply@).result,
            o.output@ == Self::step(old(ctx)@, reply@).output,
            *final(self) == *old(self),
    {
        match reply {
            Reply::Exited { code, success } => {
                ctx.env.insert("?".to_owned(), i32_string(*code));
                if ctx.errexit && !*success {
                    Outcome { result: Err(*code), output: String::new() }
                } else {
                    Outcome { result: Ok(*success), output: String::new() }
                }
            },
            Reply::Failed(message) => {
                if ctx.errexit {
                    Outcome { result: Err(1), output: line(message.as_str()) }
                } else {
                    Outcome { result: Ok(false), output: line(message.as_str()) }
                }
            },
            _ => Outcome { result: Ok(false), output: String::new() },
        }
    }
}

/// A copy of a list of strings.
pub fn clone_strings(v: &Vec<String>) -> (r: Vec<String>)
    ensures
        r@ == v@,
{
    let mut r: Vec<String> = Vec::new();
    let mut i: usize = 0;
    while i < v.len()
        invariant
            i <= v.len(),
            r@ == v@.subrange(0, i as int),
        decreases v.len() - i,
    {
        r.push(v[i].clone());
        i += 1;
    }
    assert(v@.subrange(0, v.len() as int) == v@);
    r
}

} // verus!
