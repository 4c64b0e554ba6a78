//! The commands of the shell: what each asks of the world outside the session, and what it
//! does to the session once it has the answer.

use crate::command::cd_command::CdCommand;
use crate::command::dirs_command::DirsCommand;
use crate::command::exit_command::ExitCommand;
use crate::command::export_command::ExportCommand;
use crate::command::general_command::GeneralCommand;
use crate::command::hash_command::HashCommand;
use crate::command::history_command::HistoryCommand;
use crate::command::popd_command::PopdCommand;
use crate::command::pushd_command::PushdCommand;
use crate::command::quit_command::QuitCommand;
use crate::command::rehash_command::RehashCommand;
use crate::command::set_command::SetCommand;
use crate::command::unset_command::UnsetCommand;
use crate::config::EditMode;
use crate::context::{ContextData, ContextView};
use crate::env::pair_views;
use crate::prompt::{error_text, PromptError};
use crate::text::{str_eq, views};
use vstd::prelude::*;
use vstd::string::*;

pub mod cd_command;
pub mod dirs_command;
pub mod exit_command;
pub mod export_command;
pub mod general_command;
pub mod hash_command;
pub mod history_command;
pub mod popd_command;
pub mod pushd_command;
pub mod quit_command;
pub mod rehash_command;
pub mod set_command;
pub mod unset_command;

verus! {

/// What `history` does with the lines that the session has read.
#[derive(Clone, Copy, Debug, PartialEq, Eq, Structural)]
pub enum HistoryAction {
    /// Shows them.
    List,
    /// Forgets them.
    Clear,
    /// Writes them to disk.
    Write,
}

/// What a command asks the shell to do outside the session state before the command is
/// executed.
pub enum Request {
    /// Nothing.
    Nothing,
    /// To change the working directory to the given one, unless that is, made canonical, the
    /// working directory already. The answer is `Moved`, `Stayed` or `Failed`.
    ChangeDir(String),
    /// To start the program with the arguments, in the given environment and no other, and to
    /// wait for its end. The answer is `Exited`, `Failed` or `Lost`.
    Spawn { program: String, args: Vec<String>, env: Vec<(String, String)> },
    /// To look into the given directories for programs. The answer is `Found`.
    Scan(Vec<String>),
    /// To do the given thing with the history. The answer to `List` is `Lines`.
    History(HistoryAction),
    /// To switch the line editor to the given key bindings.
    EditMode(EditMode),
}

/// A request as plain values.
pub enum RequestView {
    Nothing,
    ChangeDir(Seq<char>),
    Spawn { program: Seq<char>, args: Seq<Seq<char>>, env: Seq<(Seq<char>, Seq<char>)> },
    Scan(Seq<Seq<char>>),
    History(HistoryAction),
    EditMode(EditMode),
}

impl View for Request {
    type V = RequestView;

    open spec fn view(&self) -> RequestView {
        match self {
            Request::Nothing => RequestView::Nothing,
            Request::ChangeDir(dir) => RequestView::ChangeDir(dir@),
            Request::Spawn { program, args, env } => RequestView::Spawn {
                program: program@,
                args: views(args@),
                env: pair_views(env@),
            },
            Request::Scan(dirs) => RequestView::Scan(views(dirs@)),
            Request::History(action) => RequestView::History(*action),
            Request::EditMode(mode) => RequestView::EditMode(*mode),
        }
    }
}

/// What the shell answers to a request.
pub enum Reply {
    /// Nothing was asked, or nothing is to be said.
    Nothing,
    /// The working directory was changed; it was the given one before.
    Moved(String),
    /// The working directory was the one asked for already.
    Stayed,
    /// The directory could not be changed to, or the program not be started, with the message
    /// of the error.
    Failed(String),
    /// The program ended, with the given exit code, or zero where it has none, and with or
    /// without success.
    Exited { code: i32, success: bool },
    /// The program was started, but its end could not be waited for.
    Lost,
    /// The names of the programs that were found.
    Found(Vec<String>),
    /// The lines of the history, the oldest first.
    Lines(Vec<String>),
}

/// An answer as plain values.
pub enum ReplyView {
    Nothing,
    Moved(Seq<char>),
    Stayed,
    Failed(Seq<char>),
    Exited { code: i32, success: bool },
    Lost,
    Found(Seq<Seq<char>>),
    Lines(Seq<Seq<char>>),
}

impl View for Reply {
    type V = ReplyView;

    open spec fn view(&self) -> ReplyView {
        match self {
            Reply::Nothing => ReplyView::Nothing,
            Reply::Moved(from) => ReplyView::Moved(from@),
            Reply::Stayed => ReplyView::Stayed,
            Reply::Failed(message) => ReplyView::Failed(message@),
            Reply::Exited { code, success } => ReplyView::Exited { code: *code, success: *success },
            Reply::Lost => ReplyView::Lost,
            Reply::Found(names) => ReplyView::Found(views(names@)),
            Reply::Lines(lines) => ReplyView::Lines(views(lines@)),
        }
    }
}

/// What executing a command gave.
pub struct Outcome {
    /// `Ok(true)` after success, `Ok(false)` after a failure that the shell survives, and
    /// `Err` with the exit code where the shell is to end.
    pub result: Result<bool, i32>,
    /// What the command prints.
    pub output: String,
}

/// What executing a command gives, as plain values: the state of the session afterwards, the
/// result and what is printed.
pub struct Step {
    pub state: ContextView,
    pub result: Result<bool, i32>,
    pub output: Seq<char>,
}

/// The text `message` as a line.
pub fn line(message: &str) -> (r: String)
    ensures
        r@ == message@ + "\n"@,
{
    let mut r = message.to_owned();
    r.append("\n");
    r
}

/// A command names itself: the words by which the shell knows it.
pub trait CommandAliases {
    /// The name of the command and the other words that stand for it.
    fn aliases() -> Vec<String>;
}

/// A command of the shell: one of its builtin commands, or a program outside of it.
pub enum Command {
    /// `cd`: changes the working directory.
    Cd(CdCommand),
    /// `dirs`: shows the directory stack.
    Dirs(DirsCommand),
    /// `exit`: ends the shell with an exit code.
    Exit(ExitCommand),
    /// `export`: gives variables their values, or shows the environment.
    Export(ExportCommand),
    /// Any other name: a program outside the shell.
    General(GeneralCommand),
    /// `hash`: tells whether a command is known.
    Hash(HashCommand),
    /// `history`, `hist` or `h`: shows, forgets or saves the history.
    History(HistoryCommand),
    /// `popd`: changes to the top of the directory stack.
    Popd(PopdCommand),
    /// `pushd`: changes the working directory and pushes the one it leaves.
    Pushd(PushdCommand),
    /// `quit`: ends the shell.
    Quit(QuitCommand),
    /// `rehash`: looks anew for the programs of the search path.
    Rehash(RehashCommand),
    /// `set`: sets and unsets options.
    SetOptions(SetCommand),
    /// `unset`: takes variables out of the environment.
    Unset(UnsetCommand),
}

/// The names of the builtin commands, in the order of the commands.
pub open spec fn builtin_names() -> Seq<Seq<char>> {
    seq![
        "cd"@,
        "dirs"@,
        "exit"@,
        "export"@,
        "hash"@,
        "h"@,
        "hist"@,
        "history"@,
        "popd"@,
        "pushd"@,
        "quit"@,
        "rehash"@,
        "set"@,
        "unset"@,
    ]
}

/// Whether `command` is the command that the program `program` with the arguments `args`
/// stands for: the builtin command of that name, made from the arguments, or the call of the
/// program outside the shell where no builtin command has the name.
pub open spec fn made_by(command: Command, program: Seq<char>, args: Seq<Seq<char>>) -> bool {
    if program == "cd"@ {
        command matches Command::Cd(c) && c.made_from(program, args, CdCommand::found(args))
    } else if program == "dirs"@ {
        command matches Command::Dirs(c) && c.made_from(args, DirsCommand::found(args))
    } else if program == "exit"@ {
        command matches Command::Exit(c) && c.made_from(args, ExitCommand::found(args))
    } else if program == "export"@ {
        command matches Command::Export(c) && c.made_from(args, ExportCommand::found(args))
    } else if program == "hash"@ {
        command matches Command::Hash(c) && c.made_from(args, HashCommand::found(args))
    } else if program == "history"@ || program == "hist"@ || program == "h"@ {
        command matches Command::History(c) && c.made_from(args, HistoryCommand::found(args))
    } else if program == "popd"@ {
        command is Popd
    } else if program == "pushd"@ {
        command matches Command::Pushd(c) && c.made_from(args, PushdCommand::found(args))
    } else if program == "quit"@ {
        command is Quit
    } else if program == "rehash"@ {
        command is Rehash
    } else if program == "set"@ {
        command matches Command::SetOptions(c) && c.made_from(args, SetCommand::found(args))
    } else if program == "unset"@ {
        command matches Command::Unset(c) && c.made_from(args, UnsetCommand::found(args))
    } else {
        command matches Command::General(c) && c.program@ == program && views(c.args@) == args
    }
}

/// Appends the strings of `part` to `list`.
pub fn extend(list: &mut Vec<String>, part: Vec<String>)
    ensures
        views(final(list)@) == views(old(list)@) + views(part@),
{
    let mut part = part;
    let ghost added = part@;
    list.append(&mut part);
    assert(views(list@) =~= views(old(list)@) + views(added));
}

/// The names of the builtin commands of the shell: the names and aliases of the commands, in
/// the order of the commands.
pub fn builtins() -> (r: Vec<String>)
    ensures
        views(r@) == builtin_names(),
{
    let mut r: Vec<String> = Vec::new();
    assert(views(r@) =~= Seq::<Seq<char>>::empty());
    extend(&mut r, CdCommand::aliases());
    extend(&mut r, DirsCommand::aliases());
    extend(&mut r, ExitCommand::aliases());
    extend(&mut r, ExportCommand::aliases());
    assert(views(r@) =~= seq!["cd"@, "dirs"@, "exit"@, "export"@]);
    extend(&mut r, HashCommand::aliases());
    extend(&mut r, HistoryCommand::aliases());
    assert(views(r@) =~= seq![
        "cd"@,
        "dirs"@,
        "exit"@,
        "export"@,
        "hash"@,
        "h"@,
        "hist"@,
        "history"@,
    ]);
    extend(&mut r, PopdCommand::aliases());
    extend(&mut r, PushdCommand::aliases());
    extend(&mut r, QuitCommand::aliases());
    assert(views(r@) =~= seq![
        "cd"@,
        "dirs"@,
        "exit"@,
        "export"@,
        "hash"@,
        "h"@,
        "hist"@,
        "history"@,
        "popd"@,
        "pushd"@,
        "quit"@,
    ]);
    extend(&mut r, RehashCommand::aliases());
    extend(&mut r, SetCommand::aliases());
    extend(&mut r, UnsetCommand::aliases());
    assert(views(r@) =~= builtin_names());
    r
}

/// The command that the program `program` with the arguments `args` stands for.
pub fn parse(program: String, args: Vec<String>) -> (r: Command)
    ensures
        made_by(r, program@, views(args@)),
{
    let name = program.as_str();
    if str_eq(name, "cd") {
        Command::Cd(CdCommand::new(program, args))
    } else if str_eq(name, "dirs") {
        Command::Dirs(DirsCommand::new(args))
    } else if str_eq(name, "exit") {
        Command::Exit(ExitCommand::new(args))
    } else if str_eq(name, "export") {
        Command::Export(ExportCommand::new(args))
    } else if str_eq(name, "hash") {
        Command::Hash(HashCommand::new(args))
    } else if str_eq(name, "history") || str_eq(name, "hist") || str_eq(name, "h") {
        Command::History(HistoryCommand::new(args))
    } else if str_eq(name, "popd") {
        Command::Popd(PopdCommand)
    } else if str_eq(name, "pushd") {
        Command::Pushd(PushdCommand::new(args))
    } else if str_eq(name, "quit") {
        Command::Quit(QuitCommand)
    } else if str_eq(name, "rehash") {
        Command::Rehash(RehashCommand)
    } else if str_eq(name, "set") {
        Command::SetOptions(SetCommand::new(args))
    } else if str_eq(name, "unset") {
        Command::Unset(UnsetCommand::new(args))
    } else {
        Command::General(GeneralCommand::new(program, args))
    }
}

impl Command {
    /// What the command asks the shell to do before it is executed.
    pub open spec fn wanted(&self, state: ContextView) -> RequestView {
        match self {
            Command::Cd(c) => c.wanted(state),
            Command::General(c) => c.wanted(state),
            Command::Hash(c) => c.wanted(state),
            Command::History(c) => c.wanted(),
            Command::Popd(_) => PopdCommand::wanted(state),
            Command::Pushd(c) => c.wanted(state),
            Command::Rehash(_) => RehashCommand::wanted(state),
            Command::SetOptions(c) => c.wanted(),
            _ => RequestView::Nothing,
        }
    }

    /// What executing the command gives in the state `state`, where `reply` is the answer to
    /// what the command asked for.
    pub open spec fn step(&self, state: ContextView, reply: ReplyView) -> Step {
        match self {
            Command::Cd(c) => c.step(state, reply),
            Command::Dirs(c) => c.step(state),
            Command::Exit(c) => c.step(state),
            Command::Export(c) => c.step(state),
            Command::General(_) => GeneralCommand::step(state, reply),
            Command::Hash(c) => c.step(state, reply),
            Command::History(c) => c.step(state, reply),
            Command::Popd(_) => PopdCommand::step(state, reply),
            Command::Pushd(c) => c.step(state, reply),
            Command::Quit(_) => QuitCommand::step(state),
            Command::Rehash(_) => RehashCommand::step(state, reply),
            Command::SetOptions(c) => c.step(state),
            Command::Unset(c) => c.step(state),
        }
    }

    /// Asks for what the command needs from outside the session.
    pub fn request(&self, ctx: &ContextData) -> (r: Request)
        requires
            ctx.wf(),
        ensures
            r@ == self.wanted(ctx@),
    {
        match self {
            Command::Cd(c) => c.request(ctx),
            Command::General(c) => c.request(ctx),
            Command::Hash(c) => c.request(ctx),
            Command::History(c) => c.request(ctx),
            Command::Popd(c) => c.request(ctx),
            Command::Pushd(c) => c.request(ctx),
            Command::Rehash(c) => c.request(ctx),
            Command::SetOptions(c) => c.request(ctx),
            _ => Request::Nothing,
        }
    }

    /// Executes the command on the session, given the answer to what it asked for:
    /// `Ok(true)` after success, `Ok(false)` after a failure that the shell survives, `Err`
    /// with the exit code where the shell is to end.
    pub fn execute(&mut self, ctx: &mut ContextData, reply: &Reply) -> (o: Outcome)
        requires
            old(ctx).wf(),
        ensures
            final(ctx).wf(),
            final(ctx)@ == old(self).step(old(ctx)@, reply@).state,
            o.result == old(self).step(old(ctx)@, reply@).result,
            o.output@ == old(self).step(old(ctx)@, reply@).output,
    {
        match self {
            Command::Cd(c) => c.execute(ctx, reply),
            Command::Dirs(c) => c.execute(ctx),
            Command::Exit(c) => c.execute(ctx),
            Command::Export(c) => c.execute(ctx),
            Command::General(c) => c.execute(ctx, reply),
            Command::Hash(c) => c.execute(ctx, reply),
            Command::History(c) => c.execute(ctx, reply),
            Command::Popd(c) => c.execute(ctx, reply),
            Command::Pushd(c) => c.execute(ctx, reply),
            Command::Quit(c) => c.execute(ctx),
            Command::Rehash(c) => c.execute(ctx, reply),
            Command::SetOptions(c) => c.execute(ctx),
            Command::Unset(c) => c.execute(ctx),
        }
    }
}

/// No command brings a directory twice in a row into the directory stack.
pub proof fn lemma_step_no_repeat(command: Command, state: ContextView, reply: ReplyView)
    requires
        crate::command::cd_command::no_repeat(state.dir_stack),
    ensures
        crate::command::cd_command::no_repeat(command.step(state, reply).state.dir_stack),
{
    match reply {
        ReplyView::Moved(from) => {
            crate::command::cd_command::lemma_pushed_no_repeat(state.dir_stack, from);
        },
        _ => {},
    }
    crate::command::cd_command::lemma_pushed_no_repeat(state.dir_stack, Seq::empty());
}

/// What a line gives that was read: the step of its command, or, where it gave none, no
/// change; the shell ends with the exit code of the step, and with zero at the end of the
/// input unless it is to go on there; what is shown for an error is printed.
pub open spec fn line_step(
    line: Result<Command, PromptError>,
    state: ContextView,
    reply: ReplyView,
) -> (ContextView, Option<i32>, Seq<char>) {
    match line {
        Ok(command) => {
            let step = command.step(state, reply);
            (
                step.state,
                match step.result {
                    Ok(_) => None,
                    Err(code) => Some(code),
                },
                step.output,
            )
        },
        Err(error) => (
            state,
            if error is Eof && !state.ignoreeof {
                Some(0)
            } else {
                None
            },
            error_text(error),
        ),
    }
}

/// What the shell is asked to do for a line that was read.
pub fn request(cmd: &Result<Command, PromptError>, ctx: &ContextData) -> (r: Request)
    requires
        ctx.wf(),
    ensures
        r@ == (match cmd {
            Ok(command) => command.wanted(ctx@),
            Err(_) => RequestView::Nothing,
        }),
{
    match cmd {
        Ok(command) => command.request(ctx),
        Err(_) => Request::Nothing,
    }
}

/// Executes what a line gave, and tells the exit code where the shell is to end, and what is
/// to be printed.
pub fn execute(cmd: Result<Command, PromptError>, ctx: &mut ContextData, reply: &Reply) -> (r: (
    Option<i32>,
    String,
))
    requires
        old(ctx).wf(),
    ensures
        final(ctx).wf(),
        final(ctx)@ == line_step(cmd, old(ctx)@, reply@).0,
        r.0 == line_step(cmd, old(ctx)@, reply@).1,
        r.1@ == line_step(cmd, old(ctx)@, reply@).2,
{
    match cmd {
        Ok(mut command) => {
            let o = command.execute(ctx, reply);
            match o.result {
                Ok(_) => (None, o.output),
                Err(code) => (Some(code), o.output),
            }
        },
        Err(error) => {
            match error {
                PromptError::Eof(_) => {
                    if ctx.ignoreeof {
                        (None, String::new())
                    } else {
                        (Some(0), String::new())
                    }
                },
                PromptError::NoCommand(_) => (None, String::new()),
                PromptError::CommandArgsSplit(e) => (None, line(e.message().as_str())),
                PromptError::Interrupted => (None, line("^C")),
            }
        },
    }
}

} // verus!
