//! `cd`: changes the working directory.

use crate::args::{
    clap_matches, clap_parse, name_list, parsed_view, take_message, take_value, value_of, MatchView,
    Parsed, CD_USAGE,
};
use crate::command::{line, CommandAliases, Outcome, Reply, ReplyView, Request, RequestView, Step};
use crate::context::{stack_text, ContextData, ContextView};
use crate::text::{str_eq, views};
use vstd::prelude::*;
use vstd::string::*;

verus! {

/// The directory that `path` stands for: the home directory for `~`, else itself.
pub open spec fn target(path: Seq<char>, home: Seq<char>) -> Seq<char> {
    if path == "~"@ {
        home
    } else {
        path
    }
}

/// The line that tells of a directory that could not be changed to.
pub open spec fn not_changed(dir: Seq<char>, message: Seq<char>) -> Seq<char> {
    "Could not change to "@ + dir + ": "@ + message + "\n"@
}

/// The stack after `dir` was pushed onto it, which leaves it as it is where `dir` is its top
/// already.
pub open spec fn pushed(stack: Seq<Seq<char>>, dir: Seq<char>) -> Seq<Seq<char>> {
    if stack.len() > 0 && stack.last() == dir {
        stack
    } else {
        stack.push(dir)
    }
}

/// Whether no directory stands twice in a row in the stack.
pub open spec fn no_repeat(stack: Seq<Seq<char>>) -> bool {
    forall|i: int| 0 <= i < stack.len() - 1 ==> stack[i] != #[trigger] stack[i + 1]
}

/// Pushing the directory that is the top of the stack leaves the stack as it is: so pushing
/// a directory a second time changes nothing, and not the length of the stack.
pub proof fn lemma_pushed_twice(stack: Seq<Seq<char>>, dir: Seq<char>)
    ensures
        pushed(pushed(stack, dir), dir) == pushed(stack, dir),
        pushed(pushed(stack, dir), dir).len() == pushed(stack, dir).len(),
        pushed(stack, dir).len() > 0 && pushed(stack, dir).last() == dir,
        stack.len() > 0 && stack.last() == dir ==> pushed(stack, dir) == stack,
{
}

/// Pushing never brings a directory twice in a row into the stack, and taking the top off
/// does not either.
pub proof fn lemma_pushed_no_repeat(stack: Seq<Seq<char>>, dir: Seq<char>)
    requires
        no_repeat(stack),
    ensures
        no_repeat(pushed(stack, dir)),
        stack.len() > 0 ==> no_repeat(stack.drop_last()),
{
    let p = pushed(stack, dir);
    assert forall|i: int| 0 <= i < p.len() - 1 implies p[i] != #[trigger] p[i + 1] by {
        if i + 1 < stack.len() {
            assert(stack[i] != stack[i + 1]);
        }
    }
    if stack.len() > 0 {
        let q = stack.drop_last();
        assert forall|i: int| 0 <= i < q.len() - 1 implies q[i] != #[trigger] q[i + 1] by {
            assert(stack[i] != stack[i + 1]);
        }
    }
}

/// A second change of directory that leaves the same directory does not push it again.
pub proof fn lemma_dir_step_twice(
    state: ContextView,
    dir: Seq<char>,
    next: Seq<char>,
    from: Seq<char>,
)
    ensures
        ({
            let once = dir_step(state, true, dir, ReplyView::Moved(from)).state;
            let twice = dir_step(once, true, next, ReplyView::Moved(from)).state;
            twice.dir_stack == once.dir_stack
        }),
{
    lemma_pushed_twice(state.dir_stack, from);
}

/// What a change of directory to `dir` gives, once the answer to the request is there. After
/// a change the directory left becomes the value of `OLDPWD`, and with `push` it is pushed
/// onto the directory stack, unless it is the top of it already. With `push` the stack is
/// shown in any case.
pub open spec fn dir_step(state: ContextView, push: bool, dir: Seq<char>, reply: ReplyView) -> Step {
    match reply {
        ReplyView::Moved(from) => {
            let stack = if push {
                pushed(state.dir_stack, from)
            } else {
                state.dir_stack
            };
            Step {
                state: ContextView {
                    env: state.env.insert("OLDPWD"@, from),
                    dir_stack: stack,
                    ..state
                },
                result: Ok(true),
                output: if push {
                    stack_text(stack, true)
                } else {
                    Seq::empty()
                },
            }
        },
        ReplyView::Failed(message) => Step {
            state,
            result: Ok(true),
            output: not_changed(dir, message) + (if push {
                stack_text(state.dir_stack, true)
            } else {
                Seq::empty()
            }),
        },
        _ => Step {
            state,
            result: Ok(true),
            output: if push {
                stack_text(state.dir_stack, true)
            } else {
                Seq::empty()
            },
        },
    }
}

/// Takes note of a change of directory to `dir`, given the answer to the request.
pub fn change_dir(ctx: &mut ContextData, push: bool, dir: &str, reply: &Reply) -> (o: Outcome)
    requires
        old(ctx).wf(),
    ensures
        final(ctx).wf(),
        final(ctx)@ == dir_step(old(ctx)@, push, dir@, reply@).state,
        o.result == dir_step(old(ctx)@, push, dir@, reply@).result,
        o.output@ == dir_step(old(ctx)@, push, dir@, reply@).output,
{
    let mut output = String::new();
    match reply {
        Reply::Moved(from) => {
            ctx.env.insert("OLDPWD".to_owned(), from.clone());
            if push {
                let n: usize = ctx.dir_stack.len();
                let ghost stack = views(ctx.dir_stack@);
                if n == 0 || !str_eq(ctx.dir_stack[n - 1].as_str(), from.as_str()) {
                    ctx.dir_stack.push(from.clone());
                    assert(views(ctx.dir_stack@) =~= stack.push(from@));
                }
            }
        },
        Reply::Failed(message) => {
            output.append("Could not change to ");
            output.append(dir);
            output.append(": ");
            output.append(message.as_str());
            output.append("\n");
        },
        _ => {},
    }
    if push {
        let shown = ctx.print_dir_stack(true);
        output.append(shown.as_str());
    }
    Outcome { result: Ok(true), output }
}

/// The command that changes the working directory.
pub struct CdCommand {
    /// The directory to change to; `~` stands for the home directory.
    pub path: String,
    /// The name under which the command was called: `cd`, or `pushd`, which also pushes the
    /// directory that is left onto the directory stack.
    pub program: String,
    /// The arguments as they were given.
    pub args: Vec<String>,
    /// The message for arguments that do not fit, if they do not.
    pub usage: Option<String>,
}

impl CdCommand {
    /// What the parse of the arguments `args` finds.
    pub open spec fn found(args: Seq<Seq<char>>) -> Option<Seq<MatchView>> {
        clap_matches("cd"@, CD_USAGE@, seq!["directory"@], args)
    }

    /// Whether the command is the one that `program` and `args` give, where `m` is what the
    /// parse of the arguments found: the directory is the one given, or `~`.
    pub open spec fn made_from(
        &self,
        program: Seq<char>,
        args: Seq<Seq<char>>,
        m: Option<Seq<MatchView>>,
    ) -> bool {
        &&& self.program@ == program
        &&& views(self.args@) == args
        &&& self.path@ == match value_of(m, 0) {
            Some(dir) => dir,
            None => "~"@,
        }
        &&& self.usage.is_some() == m.is_none()
    }

    /// Whether the command pushes the directory that it leaves.
    pub open spec fn pushes(&self) -> bool {
        self.program@ == "pushd"@
    }

    /// What the command asks for: to change to its directory, unless its arguments do not
    /// fit.
    pub open spec fn wanted(&self, state: ContextView) -> RequestView {
        if self.usage.is_some() {
            RequestView::Nothing
        } else {
            RequestView::ChangeDir(target(self.path@, state.home_dir))
        }
    }

    /// What executing the command gives: a refusal where its arguments do not fit, else what
    /// the change of directory gives.
    pub open spec fn step(&self, state: ContextView, reply: ReplyView) -> Step {
        match self.usage {
            Some(message) => Step { state, result: Ok(false), output: message@ + "\n"@ },
            None => dir_step(state, self.pushes(), target(self.path@, state.home_dir), reply),
        }
    }

    /// The command for the arguments `args`, of which `parsed` is the parse.
    pub fn from_matches(program: String, args: Vec<String>, parsed: Parsed) -> (r: CdCommand)
        ensures
            r.made_from(program@, views(args@), parsed_view(parsed)),
            parsed matches Err(message) ==> r.usage == Some(message),
    {
        let path = match take_value(&parsed, 0) {
            Some(dir) => dir,
            None => "~".to_owned(),
        };
        CdCommand { path, program, args, usage: take_message(parsed) }
    }

    /// The command for the arguments `args`. Without arguments the directory is `~`.
    pub fn new(program: String, args: Vec<String>) -> (r: CdCommand)
        ensures
            r.made_from(program@, views(args@), Self::found(views(args@))),
    {
        let names = name_list(&["directory"]);
        assert(views(names@) =~= seq!["directory"@]);
        let parsed = clap_parse("cd", CD_USAGE, &names, &args);
        CdCommand::from_matches(program, args, parsed)
    }

    /// The directory that the command changes to in a session with the home directory
    /// `home`.
    pub fn directory(&self, home: &str) -> (r: String)
        ensures
            r@ == target(self.path@, home@),
    {
        if str_eq(self.path.as_str(), "~") {
            home.to_owned()
        } else {
            self.path.clone()
        }
    }

    /// Asks for the change of directory.
    pub fn request(&self, ctx: &ContextData) -> (r: Request)
        ensures
            r@ == self.wanted(ctx@),
    {
        match &self.usage {
            Some(_) => Request::Nothing,
            None => Request::ChangeDir(self.directory(ctx.home_dir.as_str())),
        }
    }

    /// Takes note of the change of directory.
    pub fn execute(&mut self, ctx: &mut ContextData, reply: &Reply) -> (o: Outcome)
        requires
            old(ctx).wf(),
        ensures
            final(ctx).wf(),
            final(ctx)@ == old(self).step(old(ctx)@, reply@).state,
            o.result == old(self).step(old(ctx)@, reply@).result,
            o.output@ == old(self).step(old(ctx)@, reply@).output,
            *final(self) == *old(self),
    {
        match &self.usage {
            Some(message) => Outcome { result: Ok(false), output: line(message.as_str()) },
            None => {
                let dir = self.directory(ctx.home_dir.as_str());
                let push = str_eq(self.program.as_str(), "pushd");
                change_dir(ctx, push, dir.as_str(), reply)
            },
        }
    }
}

impl CommandAliases for CdCommand {
    fn aliases() -> (r: Vec<String>)
        ensures
            views(r@) == seq!["cd"@],
    {
        let mut r: Vec<String> = Vec::new();
        r.push("cd".to_owned());
        assert(views(r@) =~= seq!["cd"@]);
        r
    }
}

} // verus!
