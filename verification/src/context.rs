//! The state of a session.

use crate::config::{default_config, Config, ConfigView};
use crate::env::Env;
use crate::num::{decimal, push_decimal};
use crate::path_commands::PathCommands;
use crate::text::views;
use vstd::prelude::*;
use vstd::string::*;

verus! {

/// The state of a session: what the commands of the shell read and change.
pub struct ContextData {
    /// The verbosity level; above zero each line is echoed as it is read.
    pub verbose: u64,
    /// The configuration that the session started with.
    pub config: Config,
    /// The environment, which is handed to the programs that the shell starts.
    pub env: Env,
    /// The commands that were found in the directories of the search path.
    pub commands: PathCommands,
    /// Whether each command is shown, fully expanded, before it runs (`set -x`).
    pub xtrace: bool,
    /// Whether the shell ends when a program comes back with a failure (`set -e`).
    pub errexit: bool,
    /// Whether the shell goes on when its input ends.
    pub ignoreeof: bool,
    /// The directories that `pushd` left; the last one is the top of the stack.
    pub dir_stack: Vec<String>,
    /// The home directory of the user, or the empty string where none is known.
    pub home_dir: String,
}

/// The state of a session as plain values.
pub struct ContextView {
    /// The verbosity level.
    pub verbose: u64,
    /// The configuration.
    pub config: ConfigView,
    /// The environment: variable to value.
    pub env: Map<Seq<char>, Seq<char>>,
    /// The known commands.
    pub commands: Set<Seq<char>>,
    /// Whether each command is shown before it runs.
    pub xtrace: bool,
    /// Whether the shell ends when a program fails.
    pub errexit: bool,
    /// Whether the shell goes on when its input ends.
    pub ignoreeof: bool,
    /// The directory stack, its top last.
    pub dir_stack: Seq<Seq<char>>,
    /// The home directory of the user.
    pub home_dir: Seq<char>,
}

impl View for ContextData {
    type V = ContextView;

    open spec fn view(&self) -> ContextView {
        ContextView {
            verbose: self.verbose,
            config: self.config@,
            env: self.env@,
            commands: self.commands@,
            xtrace: self.xtrace,
            errexit: self.errexit,
            ignoreeof: self.ignoreeof,
            dir_stack: views(self.dir_stack@),
            home_dir: self.home_dir@,
        }
    }
}

/// The line of the directory stack `stack` that shows its entry `num`, counted from the top.
/// In the short form the entries stand on one line, the top in brackets where it is not
/// alone; in the long form each entry has its line, with its number before it.
pub open spec fn stack_entry(stack: Seq<Seq<char>>, short: bool, num: int) -> Seq<char> {
    let dir = stack[stack.len() - 1 - num];
    if short {
        if num == stack.len() - 1 {
            dir + "\n"@
        } else if num == 0 {
            "["@ + dir + "] "@
        } else {
            dir + " "@
        }
    } else if num == 0 {
        decimal(0) + ">\t"@ + dir + "\n"@
    } else {
        decimal(num as nat) + " \t"@ + dir + "\n"@
    }
}

/// The lines of the directory stack from its entry `num` on, counted from the top.
pub open spec fn stack_text_from(stack: Seq<Seq<char>>, short: bool, num: int) -> Seq<char>
    decreases stack.len() - num,
{
    if num < 0 || num >= stack.len() {
        Seq::empty()
    } else {
        stack_entry(stack, short, num) + stack_text_from(stack, short, num + 1)
    }
}

/// What the directory stack looks like when it is shown, its top first; nothing where it is
/// empty.
pub open spec fn stack_text(stack: Seq<Seq<char>>, short: bool) -> Seq<char> {
    stack_text_from(stack, short, 0)
}

/// The state of a session that was given nothing.
pub open spec fn default_context() -> ContextView {
    ContextView {
        verbose: 0,
        config: default_config(),
        env: Map::empty(),
        commands: Set::empty(),
        xtrace: false,
        errexit: false,
        ignoreeof: false,
        dir_stack: Seq::empty(),
        home_dir: Seq::empty(),
    }
}

impl ContextData {
    /// The collections of the state are well formed.
    pub open spec fn wf(&self) -> bool {
        self.config.wf() && self.env.wf() && self.commands.wf()
    }

    /// The state of a session that begins: the given verbosity, configuration, environment,
    /// known commands and home directory, no option set and an empty directory stack.
    pub fn new(
        verbose: u64,
        config: Config,
        env: Env,
        commands: PathCommands,
        home_dir: String,
    ) -> (r: ContextData)
        requires
            config.wf(),
            env.wf(),
            commands.wf(),
        ensures
            r.wf(),
            r@ == (ContextView {
                verbose,
                config: config@,
                env: env@,
                commands: commands@,
                xtrace: false,
                errexit: false,
                ignoreeof: false,
                dir_stack: Seq::empty(),
                home_dir: home_dir@,
            }),
    {
        let r = ContextData {
            verbose,
            config,
            env,
            commands,
            xtrace: false,
            errexit: false,
            ignoreeof: false,
            dir_stack: Vec::new(),
            home_dir,
        };
        assert(views(r.dir_stack@) =~= Seq::empty());
        r
    }

    /// What showing the directory stack prints, in the short form, all on one line, or in
    /// the long form, as a list.
    pub fn print_dir_stack(&self, short: bool) -> (r: String)
        ensures
            r@ == stack_text(self@.dir_stack, short),
    {
        let ghost stack = views(self.dir_stack@);
        let len: usize = self.dir_stack.len();
        let mut r = String::new();
        let mut num: usize = 0;
        while num < len
            invariant
                num <= len,
                len == self.dir_stack.len(),
                stack == views(self.dir_stack@),
                r@ + stack_text_from(stack, short, num as int) == stack_text(stack, short),
            decreases len - num,
        {
            let ghost before = r@;
            let dir = &self.dir_stack[len - 1 - num];
            assert(dir@ == stack[stack.len() - 1 - num]);
            if short {
                if num == len - 1 {
                    r.append(dir.as_str());
                    r.append("\n");
                } else if num == 0 {
                    r.append("[");
                    r.append(dir.as_str());
                    r.append("] ");
                } else {
                    r.append(dir.as_str());
                    r.append(" ");
                }
            } else {
                push_decimal(&mut r, num as u64);
                if num == 0 {
                    r.append(">\t");
                } else {
                    r.append(" \t");
                }
                r.append(dir.as_str());
                r.append("\n");
            }
            assert(r@ == before + stack_entry(stack, short, num as int));
            num += 1;
        }
        assert(r@ + Seq::<char>::empty() == r@);
        r
    }

    /// What showing the directory stack prints in the short form.
    pub fn print_short_dir_stack(&self) -> (r: String)
        ensures
            r@ == stack_text(self@.dir_stack, true),
    {
        self.print_dir_stack(true)
    }
}

impl Default for ContextData {
    /// The state of a session that was given nothing.
    fn default() -> (r: ContextData)
        ensures
            r.wf(),
            r@ == default_context(),
    {
        let r = ContextData {
            verbose: 0,
            config: Config::default(),
            env: Env::default(),
            commands: PathCommands::default(),
            xtrace: false,
            errexit: false,
            ignoreeof: false,
            dir_stack: Vec::new(),
            home_dir: String::new(),
        };
        assert(views(r.dir_stack@) =~= Seq::empty());
        r
    }
}

} // verus!
