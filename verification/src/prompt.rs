//! The command line: from a line of input to the command that it stands for.

use crate::command::export_command::{assigned_name, assigned_value, split_assignment};
use crate::command::general_command::clone_strings;
use crate::command::{made_by, parse, Command};
use crate::context::{ContextData, ContextView};
use crate::string_map::StringMap;
use crate::string_set::StringSet;
use crate::subst::substitution;
use crate::text::{
    chars_string, find_char, first_index, has_char, join, joined, lemma_first_index_from,
    split_words, to_chars, trim, trimmed, views, words,
};
use crate::util::{expand_glob, expansion};
use vstd::prelude::*;
use vstd::string::*;

verus! {

/// The input has ended.
#[derive(Clone, Copy, Debug, PartialEq, Eq, Structural)]
pub struct EofError;

/// The line holds no command: it is blank, or nothing is left of it after substitution.
#[derive(Clone, Copy, Debug, PartialEq, Eq, Structural)]
pub struct NoCommandError;

/// The arguments of the line cannot be split: a quotation is not closed, or the line ends
/// with a backslash that escapes nothing.
#[derive(Clone, Copy, Debug, PartialEq, Eq, Structural)]
pub struct CommandArgsSplitError;

/// Why a line gave no command.
#[derive(Clone, Copy, Debug, PartialEq, Eq, Structural)]
pub enum PromptError {
    /// The input has ended.
    Eof(EofError),
    /// The line holds no command.
    NoCommand(NoCommandError),
    /// The arguments of the line cannot be split.
    CommandArgsSplit(CommandArgsSplitError),
    /// The line was interrupted while it was typed.
    Interrupted,
}

impl EofError {
    /// What is shown for the error: a line feed, so that the next prompt begins a line.
    pub fn message(&self) -> (r: String)
        ensures
            r@ == "\n"@,
    {
        "\n".to_owned()
    }
}

impl NoCommandError {
    /// What is shown for the error: nothing.
    pub fn message(&self) -> (r: String)
        ensures
            r@ == Seq::<char>::empty(),
    {
        String::new()
    }
}

/// What is shown for arguments that cannot be split.
pub open spec fn split_failure() -> Seq<char> {
    "Syntax error: failed to parse arguments\nPossible unmatching quote or unescaped sequence"@
}

impl CommandArgsSplitError {
    /// What is shown for the error.
    pub fn message(&self) -> (r: String)
        ensures
            r@ == split_failure(),
    {
        "Syntax error: failed to parse arguments\nPossible unmatching quote or unescaped sequence".to_owned()
    }
}

/// What is shown for an error: nothing for a line without command and for the end of the
/// input, `^C` for an interrupted line, and for arguments that cannot be split what is wrong
/// with them.
pub open spec fn error_text(error: PromptError) -> Seq<char> {
    match error {
        PromptError::Eof(_) => Seq::empty(),
        PromptError::NoCommand(_) => Seq::empty(),
        PromptError::CommandArgsSplit(_) => split_failure() + "\n"@,
        PromptError::Interrupted => "^C"@ + "\n"@,
    }
}

/// The words of `line` as a shell of the POSIX kind splits them: at blanks, tabs and line
/// feeds outside of quotations, single and double quotes and backslashes taken off as such a
/// shell takes them off, and what follows a `#` at the beginning of a word left out up to the
/// end of its line; nothing where the line ends inside a quotation or with a backslash that
/// escapes nothing.
pub uninterp spec fn shlex_words(line: Seq<char>) -> Option<Seq<Seq<char>>>;

/// Calls `shlex::split`, which splits a line into words as a POSIX shell does and gives
/// nothing for a line that ends inside a quotation or behind an unescaped backslash. The
/// result depends on the line alone.
#[verifier::external_body]
pub(crate) fn shlex_split(line: &str) -> (r: Option<Vec<String>>)
    ensures
        match r {
            Some(w) => shlex_words(line@) == Some(views(w@)),
            None => shlex_words(line@).is_none(),
        },
{
    shlex::split(line)
}

/// What is to be undone before the next line, as plain values.
pub struct PendingView {
    /// Variables that get their earlier value back, with that value.
    pub restore: Map<Seq<char>, Seq<char>>,
    /// Variables that leave the environment.
    pub delete: Set<Seq<char>>,
}

/// Nothing to undo.
pub open spec fn nothing_pending() -> PendingView {
    PendingView { restore: Map::empty(), delete: Set::empty() }
}

/// The command line of a session. It remembers what the assignments at the head of the last
/// line did to the environment, to undo it before the next line.
pub struct Prompt {
    /// Variables that get their earlier value back before the next line.
    restore_env: StringMap,
    /// Variables that leave the environment before the next line.
    delete_env: StringSet,
}

impl View for Prompt {
    type V = PendingView;

    closed spec fn view(&self) -> PendingView {
        PendingView { restore: self.restore_env@, delete: self.delete_env@ }
    }
}

/// What reading a line gives: the environment afterwards, what is to be undone before the
/// next line, and the words of the command, none where the line holds no command.
pub struct Reading {
    pub env: Map<Seq<char>, Seq<char>>,
    pub pending: PendingView,
    pub words: Seq<Seq<char>>,
}

/// What is to be undone after the variable `k` was assigned to in the environment `env`: a
/// variable that had a value gets it back, one that had none leaves again.
pub open spec fn noted(env: Map<Seq<char>, Seq<char>>, pending: PendingView, k: Seq<char>) -> PendingView {
    if env.contains_key(k) {
        PendingView { restore: pending.restore.insert(k, env[k]), ..pending }
    } else {
        PendingView { delete: pending.delete.insert(k), ..pending }
    }
}

/// Whether `word` is an assignment: whether it holds `=`.
pub open spec fn is_assignment(word: Seq<char>) -> bool {
    first_index(word, '=').is_some()
}

/// What the words `ws[i..]` give. While `leading`, a word that is an assignment gives its
/// variable its value, is noted to be undone, and leaves the line. The first word that is no
/// assignment ends that: it and all words behind it stay, with the variables of the
/// environment, as it then is, substituted in them.
pub open spec fn scanned(
    env: Map<Seq<char>, Seq<char>>,
    pending: PendingView,
    ws: Seq<Seq<char>>,
    i: int,
    leading: bool,
) -> Reading
    decreases ws.len() - i,
{
    if i < 0 || i >= ws.len() {
        Reading { env, pending, words: Seq::empty() }
    } else if leading && is_assignment(ws[i]) {
        let k = assigned_name(ws[i]);
        scanned(env.insert(k, assigned_value(ws[i])), noted(env, pending, k), ws, i + 1, true)
    } else {
        let rest = scanned(env, pending, ws, i + 1, false);
        Reading { words: seq![substitution(env, ws[i])] + rest.words, ..rest }
    }
}

/// The words `ws` with the first of them replaced by the words that it is an alias of, if it
/// is one.
pub open spec fn aliased(aliases: Map<Seq<char>, Seq<char>>, ws: Seq<Seq<char>>) -> Seq<Seq<char>> {
    if ws.len() > 0 && aliases.contains_key(ws[0]) {
        words(aliases[ws[0]]) + ws.subrange(1, ws.len() as int)
    } else {
        ws
    }
}

/// The path `rest` seen from the directory `base`: `rest` itself where it begins at the root
/// or `base` is empty, else `base`, a `/` where `base` does not end with one, and `rest`.
pub open spec fn path_joined(base: Seq<char>, rest: Seq<char>) -> Seq<char> {
    if rest.len() > 0 && rest[0] == '/' {
        rest
    } else if base.len() == 0 {
        rest
    } else if base.last() == '/' {
        base + rest
    } else {
        base + "/"@ + rest
    }
}

/// The word `word` with a `~` or `~/` at its beginning replaced by the home directory.
pub open spec fn tilde_expanded(home: Seq<char>, word: Seq<char>) -> Seq<char> {
    if word.len() > 0 && word[0] == '~' {
        if word.len() > 1 && word[1] == '/' {
            path_joined(home, word.subrange(2, word.len() as int))
        } else {
            path_joined(home, word.subrange(1, word.len() as int))
        }
    } else {
        word
    }
}

/// The words `ws`, each with a `~` at its beginning replaced by the home directory.
pub open spec fn home_expanded(home: Seq<char>, ws: Seq<Seq<char>>) -> Seq<Seq<char>> {
    Seq::new(ws.len(), |i: int| tilde_expanded(home, ws[i]))
}

/// The environment `env` after what is pending was undone: the variables to restore have
/// their earlier values, and the variables to delete are gone.
pub open spec fn undone(env: Map<Seq<char>, Seq<char>>, pending: PendingView) -> Map<
    Seq<char>,
    Seq<char>,
> {
    env.union_prefer_right(pending.restore).remove_keys(pending.delete)
}

/// What reading the line `input` gives in the state `state`, with `pending` to be undone
/// first. The line is trimmed; a blank line holds no command. The variables of the
/// environment are substituted in the line, and it is split into words at white space. The
/// assignments at the head of the line take effect and are noted. In what is left the first
/// word is replaced where it is an alias, and `~` at the beginning of a word becomes the home
/// directory.
pub open spec fn read_line(state: ContextView, pending: PendingView, input: Seq<char>) -> Reading {
    let env = undone(state.env, pending);
    let line = trimmed(input);
    if line.len() == 0 {
        Reading { env, pending: nothing_pending(), words: Seq::empty() }
    } else {
        let scan = scanned(env, nothing_pending(), words(substitution(env, line)), 0, true);
        Reading {
            words: home_expanded(state.home_dir, aliased(state.config.aliases, scan.words)),
            ..scan
        }
    }
}

/// Whether the assignments at the head of the words `ws[i..]` give values to variables that
/// differ from each other and from those of `seen`.
pub open spec fn fresh_heads(ws: Seq<Seq<char>>, i: int, seen: Set<Seq<char>>) -> bool
    decreases ws.len() - i,
{
    if i < 0 || i >= ws.len() || !is_assignment(ws[i]) {
        true
    } else {
        !seen.contains(assigned_name(ws[i])) && fresh_heads(
            ws,
            i + 1,
            seen.insert(assigned_name(ws[i])),
        )
    }
}

proof fn lemma_scanned_undone(
    env: Map<Seq<char>, Seq<char>>,
    pending: PendingView,
    ws: Seq<Seq<char>>,
    i: int,
    leading: bool,
)
    requires
        0 <= i,
        leading ==> fresh_heads(ws, i, pending.restore.dom() + pending.delete),
    ensures
        undone(
            scanned(env, pending, ws, i, leading).env,
            scanned(env, pending, ws, i, leading).pending,
        ) == undone(env, pending),
    decreases ws.len() - i,
{
    if i < ws.len() {
        if leading && is_assignment(ws[i]) {
            let k = assigned_name(ws[i]);
            let next_env = env.insert(k, assigned_value(ws[i]));
            let next = noted(env, pending, k);
            assert(next.restore.dom() + next.delete =~= (pending.restore.dom() + pending.delete).insert(
                k,
            ));
            lemma_scanned_undone(next_env, next, ws, i + 1, true);
            assert(undone(next_env, next) =~= undone(env, pending));
        } else {
            lemma_scanned_undone(env, pending, ws, i + 1, false);
        }
    }
}

/// What the assignments at the head of a line do to the environment is undone before the
/// next line, where they give values to variables that differ from each other: undoing what
/// is pending after the line gives the environment that the line began with, which is the
/// one in which what was pending before was undone.
pub proof fn lemma_assignments_undone(state: ContextView, pending: PendingView, input: Seq<char>)
    requires
        fresh_heads(
            words(substitution(undone(state.env, pending), trimmed(input))),
            0,
            Set::empty(),
        ),
    ensures
        undone(
            read_line(state, pending, input).env,
            read_line(state, pending, input).pending,
        ) == undone(state.env, pending),
{
    let env = undone(state.env, pending);
    let none = nothing_pending();
    assert(none.restore.dom() + none.delete =~= Set::<Seq<char>>::empty());
    assert(undone(env, none) =~= env);
    if trimmed(input).len() > 0 {
        lemma_scanned_undone(env, none, words(substitution(env, trimmed(input))), 0, true);
    }
}

/// The environment that a session begins with mirrors its options in the variable `-`, as
/// long as the session begins without showing calls and without ending on failures.
pub proof fn lemma_first_env_mirrored(state: ContextView)
    requires
        !state.xtrace,
        !state.errexit,
    ensures
        crate::command::set_command::mirrored(ContextView { env: first_env(state), ..state }),
{
    crate::command::set_command::lemma_letters();
    let value = first_env(state)["-"@];
    crate::text::lemma_contains_one(value, 'x');
    crate::text::lemma_contains_one(value, 'e');
    crate::text::lemma_contains_one(value, 'v');
    if state.verbose > 0 {
        assert(value[0] == 'v');
    }
}

/// The words `ws[i..]`, each that holds `*` replaced by what it stands for: the paths that
/// were found for it, which are `found[i]`, or itself where there are none.
pub open spec fn globbed_from(ws: Seq<Seq<char>>, found: Seq<Seq<Seq<char>>>, i: int) -> Seq<
    Seq<char>,
>
    decreases ws.len() - i,
{
    if i < 0 || i >= ws.len() {
        Seq::empty()
    } else if has_char(ws[i], '*') {
        expansion(
            ws[i],
            if i < found.len() {
                found[i]
            } else {
                Seq::empty()
            },
        ) + globbed_from(ws, found, i + 1)
    } else {
        seq![ws[i]] + globbed_from(ws, found, i + 1)
    }
}

/// The words `ws` with the file patterns among them expanded.
pub open spec fn globbed(ws: Seq<Seq<char>>, found: Seq<Seq<Seq<char>>>) -> Seq<Seq<char>> {
    globbed_from(ws, found, 0)
}

/// The character sequences of lists of strings.
pub open spec fn list_views(v: Seq<Vec<String>>) -> Seq<Seq<Seq<char>>> {
    Seq::new(v.len(), |i: int| views(v[i]@))
}

/// A program and its arguments.
pub struct Invocation {
    pub program: Seq<char>,
    pub args: Seq<Seq<char>>,
}

/// What the words `ws` of a line call, where `split` is what splitting the line of the
/// arguments gave and `is_dir` tells whether the first word names a directory. The first word
/// is the program, the split words are its arguments. A line of one word that names a
/// directory stands for `cd` with that directory, where the configuration allows it. There is
/// no command without words, and none where the arguments could not be split.
pub open spec fn invoked(
    state: ContextView,
    ws: Seq<Seq<char>>,
    split: Option<Seq<Seq<char>>>,
    is_dir: bool,
) -> Result<Invocation, PromptError> {
    if ws.len() == 0 {
        Err(PromptError::NoCommand(NoCommandError))
    } else {
        match split {
            None => Err(PromptError::CommandArgsSplit(CommandArgsSplitError)),
            Some(args) => if state.config.auto_cd && args.len() == 0 && is_dir {
                Ok(Invocation { program: "cd"@, args: seq![ws[0]] })
            } else {
                Ok(Invocation { program: ws[0], args })
            },
        }
    }
}

/// The line of the arguments of the words `ws`: all but the first, with a blank between them.
pub open spec fn args_line(ws: Seq<Seq<char>>) -> Seq<char> {
    joined(ws.subrange(1, ws.len() as int), " "@)
}

/// The line that shows the call of `program` with `args` before it runs.
pub open spec fn trace_text(program: Seq<char>, args: Seq<Seq<char>>) -> Seq<char> {
    "+carapace> "@ + program + " "@ + joined(args, " "@) + "\n"@
}

/// A command, and the line that shows it before it runs, if it is to be shown.
pub struct Built {
    /// The command.
    pub command: Command,
    /// What is to be printed before the command runs.
    pub trace: String,
}

/// Whether `built` is what the call `call` gives in the state `state`: the command that the
/// program stands for, and the line that shows the call where calls are to be shown.
pub open spec fn built_from(built: Built, state: ContextView, call: Invocation) -> bool {
    &&& made_by(built.command, call.program, call.args)
    &&& built.trace@ == (if state.xtrace {
        trace_text(call.program, call.args)
    } else {
        Seq::empty()
    })
}

/// The environment that a session begins with: the one it inherits, the variables of the
/// configuration with the inherited ones substituted in their values, `?` with the value `0`,
/// and `-` with the value `v` where the session is verbose and with the empty value where it
/// is not.
pub open spec fn first_env(state: ContextView) -> Map<Seq<char>, Seq<char>> {
    state.env.union_prefer_right(
        Map::new(
            |k: Seq<char>| state.config.env.contains_key(k),
            |k: Seq<char>| substitution(state.env, state.config.env[k]),
        ),
    ).insert("?"@, "0"@).insert(
        "-"@,
        if state.verbose > 0 {
            "v"@
        } else {
            Seq::empty()
        },
    )
}

/// Joins the path `rest` to the directory `base`.
pub fn join_path(base: &Vec<char>, rest: &Vec<char>, from: usize) -> (r: String)
    requires
        from <= rest.len(),
    ensures
        r@ == path_joined(base@, rest@.subrange(from as int, rest.len() as int)),
{
    let ghost tail = rest@.subrange(from as int, rest.len() as int);
    let mut r = String::new();
    if from < rest.len() && rest[from] == '/' {
        assert(tail[0] == rest@[from as int]);
    } else if base.len() == 0 {
    } else {
        crate::text::push_range(&mut r, base, 0, base.len());
        assert(base@.subrange(0, base.len() as int) == base@);
        if base[base.len() - 1] != '/' {
            r.append("/");
        }
    }
    crate::text::push_range(&mut r, rest, from, rest.len());
    r
}

/// Replaces a `~` or `~/` at the beginning of `word` by the home directory.
pub fn expand_tilde(home: &Vec<char>, word: &str) -> (r: String)
    ensures
        r@ == tilde_expanded(home@, word@),
{
    let t = to_chars(word);
    if t.len() > 0 && t[0] == '~' {
        if t.len() > 1 && t[1] == '/' {
            join_path(home, &t, 2)
        } else {
            join_path(home, &t, 1)
        }
    } else {
        word.to_owned()
    }
}

impl Prompt {
    /// Both collections of the command line are well formed.
    pub closed spec fn wf(&self) -> bool {
        self.restore_env.wf() && self.delete_env.wf()
    }

    /// The command line of a session that begins: it gives the environment of the session its
    /// first variables, and has nothing to undo.
    pub fn new(ctx: &mut ContextData) -> (r: Prompt)
        requires
            old(ctx).wf(),
        ensures
            r.wf(),
            r@ == nothing_pending(),
            final(ctx).wf(),
            final(ctx)@ == (ContextView { env: first_env(old(ctx)@), ..old(ctx)@ }),
    {
        let mut p = Prompt::create();
        p.setup_env(ctx);
        p
    }

    /// A command line that has nothing to undo.
    pub fn create() -> (r: Prompt)
        ensures
            r.wf(),
            r@ == nothing_pending(),
    {
        Prompt { restore_env: StringMap::new(), delete_env: StringSet::new() }
    }

    /// The variables that get their earlier value back before the next line.
    pub fn restore_env(&self) -> (r: &StringMap)
        requires
            self.wf(),
        ensures
            r.wf(),
            r@ == self@.restore,
    {
        &self.restore_env
    }

    /// The variables that leave the environment before the next line.
    pub fn delete_env(&self) -> (r: &StringSet)
        requires
            self.wf(),
        ensures
            r.wf(),
            r@ == self@.delete,
    {
        &self.delete_env
    }

    /// Gives the environment of the session its first variables.
    pub fn setup_env(&mut self, ctx: &mut ContextData)
        requires
            old(ctx).wf(),
        ensures
            *final(self) == *old(self),
            final(ctx).wf(),
            final(ctx)@ == (ContextView { env: first_env(old(ctx)@), ..old(ctx)@ }),
    {
        let mut seeds = StringMap::new();
        let n: usize = ctx.config.env.len();
        let ghost keys = ctx.config.env.keys();
        proof {
            ctx.config.env.lemma_view();
        }
        let mut i: usize = 0;
        while i < n
            invariant
                i <= n,
                n == keys.len(),
                keys == ctx.config.env.keys(),
                ctx.wf(),
                *ctx == *old(ctx),
                seeds.wf(),
                seeds@ == Map::new(
                    |k: Seq<char>| keys.subrange(0, i as int).contains(k),
                    |k: Seq<char>| substitution(ctx@.env, ctx@.config.env[k]),
                ),
            decreases n - i,
        {
            let key = ctx.config.env.key_at(i);
            let value = ctx.env.replace_vars(ctx.config.env.value_at(i).as_str());
            proof {
                ctx.config.env.lemma_view();
                assert(ctx@.config.env[keys[i as int]] == ctx.config.env.values()[i as int]);
                assert(keys.subrange(0, i + 1) == keys.subrange(0, i as int).push(keys[i as int]));
            }
            let ghost before = seeds@;
            let ghost k0 = keys[i as int];
            let ghost v0 = substitution(ctx@.env, ctx@.config.env[k0]);
            assert(key@ == k0 && value@ == v0);
            seeds.insert(key.clone(), value);
            assert(seeds@ == before.insert(k0, v0));
            proof {
                let next = Map::new(
                    |k: Seq<char>| keys.subrange(0, i + 1).contains(k),
                    |k: Seq<char>| substitution(ctx@.env, ctx@.config.env[k]),
                );
                assert forall|k: Seq<char>| seeds@.contains_key(k) <==> next.contains_key(k) by {
                    if keys.subrange(0, i + 1).contains(k) {
                        let j = keys.subrange(0, i + 1).index_of(k);
                        if j < i {
                            assert(keys.subrange(0, i as int)[j] == k);
                        }
                    }
                    if keys.subrange(0, i as int).contains(k) {
                        let j = keys.subrange(0, i as int).index_of(k);
                        assert(keys.subrange(0, i + 1)[j] == k);
                    }
                    assert(keys.subrange(0, i + 1)[i as int] == keys[i as int]);
                }
                assert forall|k: Seq<char>| seeds@.contains_key(k) implies seeds@[k] == next[k] by {
                    assert(next.contains_key(k));
                    assert(next[k] == substitution(ctx@.env, ctx@.config.env[k]));
                    if k != k0 {
                        assert(before.contains_key(k));
                        assert(before[k] == substitution(ctx@.env, ctx@.config.env[k]));
                    }
                }
                assert(seeds@ =~= next);
            }
            i += 1;
        }
        proof {
            assert(keys.subrange(0, n as int) == keys);
            assert(seeds@ =~= Map::new(
                |k: Seq<char>| ctx@.config.env.contains_key(k),
                |k: Seq<char>| substitution(ctx@.env, ctx@.config.env[k]),
            ));
        }
        ctx.env.insert_all(&seeds);
        ctx.env.insert("?".to_owned(), "0".to_owned());
        if ctx.verbose > 0 {
            ctx.env.insert("-".to_owned(), "v".to_owned());
        } else {
            ctx.env.insert("-".to_owned(), String::new());
        }
    }

    /// The line that is echoed as `input` is read: the trimmed line, where the session is
    /// verbose and the line is not blank.
    pub fn echo(ctx: &ContextData, input: &str) -> (r: Option<String>)
        ensures
            match r {
                Some(line) => ctx.verbose > 0 && line@ == trimmed(input@) && line@.len() > 0,
                None => ctx.verbose == 0 || trimmed(input@).len() == 0,
            },
    {
        if ctx.verbose == 0 {
            return None;
        }
        let line = trim(&to_chars(input));
        if line.len() == 0 {
            None
        } else {
            Some(chars_string(&line))
        }
    }

    /// Undoes what the assignments at the head of the last line did to the environment.
    pub fn restore(&mut self, ctx: &mut ContextData)
        requires
            old(self).wf(),
            old(ctx).wf(),
        ensures
            final(self).wf(),
            final(self)@ == nothing_pending(),
            final(ctx).wf(),
            final(ctx)@ == (ContextView { env: undone(old(ctx)@.env, old(self)@), ..old(ctx)@ }),
    {
        ctx.env.insert_all(&self.restore_env);
        ctx.env.remove_all(&self.delete_env);
        self.restore_env.clear();
        self.delete_env.clear();
    }

    /// Reads the line `input`: undoes what is pending, substitutes the variables, lets the
    /// assignments at the head of the line take effect, and gives the words of the command
    /// that is left, the alias and the home directory replaced. The file patterns among the
    /// words are not expanded yet. A line that leaves no word holds no command.
    pub fn parse_command(&mut self, ctx: &mut ContextData, input: &str) -> (r: Result<
        Vec<String>,
        PromptError,
    >)
        requires
            old(self).wf(),
            old(ctx).wf(),
        ensures
            final(self).wf(),
            final(ctx).wf(),
            final(ctx)@ == (ContextView {
                env: read_line(old(ctx)@, old(self)@, input@).env,
                ..old(ctx)@
            }),
            final(self)@ == read_line(old(ctx)@, old(self)@, input@).pending,
            match r {
                Ok(ws) => views(ws@) == read_line(old(ctx)@, old(self)@, input@).words && ws.len()
                    > 0,
                Err(e) => e == PromptError::NoCommand(NoCommandError) && read_line(
                    old(ctx)@,
                    old(self)@,
                    input@,
                ).words.len() == 0,
            },
    {
        self.restore(ctx);
        let ghost env0 = ctx@.env;
        let line = trim(&to_chars(input));
        if line.len() == 0 {
            return Err(PromptError::NoCommand(NoCommandError));
        }
        let line = ctx.env.replace_vars(chars_string(&line).as_str());
        let ws = split_words(&to_chars(line.as_str()));
        let ghost all = views(ws@);
        let ghost goal = scanned(env0, nothing_pending(), all, 0, true);
        let mut kept: Vec<String> = Vec::new();
        let mut leading = true;
        let mut i: usize = 0;
        assert(views(kept@) =~= Seq::<Seq<char>>::empty());
        while i < ws.len()
            invariant
                i <= ws.len(),
                all == views(ws@),
                self.wf(),
                ctx.wf(),
                ctx@ == (ContextView { env: ctx@.env, ..old(ctx)@ }),
                scanned(ctx@.env, self@, all, i as int, leading).env == goal.env,
                scanned(ctx@.env, self@, all, i as int, leading).pending == goal.pending,
                views(kept@) + scanned(ctx@.env, self@, all, i as int, leading).words
                    == goal.words,
            decreases ws.len() - i,
        {
            let word = &ws[i];
            let t = to_chars(word.as_str());
            let assigns = find_char(&t, '=').is_some();
            if leading && assigns {
                let (k, v) = split_assignment(word.as_str());
                match ctx.env.get(k.as_str()) {
                    Some(earlier) => {
                        self.restore_env.insert(k.clone(), earlier.clone());
                    },
                    None => {
                        self.delete_env.insert(k.clone());
                    },
                }
                ctx.env.insert(k, v);
            } else {
                leading = false;
                let ghost before = views(kept@);
                let word = ctx.env.replace_vars(word.as_str());
                kept.push(word);
                assert(views(kept@) =~= before + seq![substitution(ctx@.env, all[i as int])]);
            }
            i += 1;
        }
        assert(views(kept@) + Seq::<Seq<char>>::empty() =~= views(kept@));
        // The first word may be an alias.
        let mut named: Vec<String> = Vec::new();
        let mut rest_from: usize = 0;
        if kept.len() > 0 {
            match ctx.config.aliases.get(kept[0].as_str()) {
                Some(meaning) => {
                    named = split_words(&to_chars(meaning.as_str()));
                    rest_from = 1;
                },
                None => {},
            }
        }
        let ghost head = views(named@);
        let mut j: usize = rest_from;
        while j < kept.len()
            invariant
                rest_from <= j <= kept.len(),
                views(named@) == head + views(kept@).subrange(rest_from as int, j as int),
            decreases kept.len() - j,
        {
            let ghost before = views(named@);
            named.push(kept[j].clone());
            assert(views(named@) =~= before + seq![kept@[j as int]@]);
            j += 1;
        }
        assert(views(named@) =~= aliased(ctx@.config.aliases, views(kept@)));
        // A tilde at the beginning of a word stands for the home directory.
        let home = to_chars(ctx.home_dir.as_str());
        let mut r: Vec<String> = Vec::new();
        let mut k: usize = 0;
        while k < named.len()
            invariant
                k <= named.len(),
                home@ == ctx@.home_dir,
                r.len() == k,
                forall|q: int|
                    0 <= q < k ==> (#[trigger] r@[q])@ == tilde_expanded(home@, named@[q]@),
            decreases named.len() - k,
        {
            r.push(expand_tilde(&home, named[k].as_str()));
            k += 1;
        }
        assert(views(r@) =~= home_expanded(ctx@.home_dir, views(named@)));
        if r.len() == 0 {
            Err(PromptError::NoCommand(NoCommandError))
        } else {
            Ok(r)
        }
    }

    /// Whether `word` is a file pattern: whether it holds `*`.
    pub fn is_glob(word: &str) -> (r: bool)
        ensures
            r == has_char(word@, '*'),
    {
        let t = to_chars(word);
        proof {
            lemma_first_index_from(t@, '*', 0);
        }
        match find_char(&t, '*') {
            Some(i) => true,
            None => false,
        }
    }

    /// Expands the file patterns among `words`: a word that holds `*` is replaced by the
    /// paths that were found for it, which `found` holds at the index of the word, and stays
    /// where none were found.
    pub fn expand_globs(words: &Vec<String>, found: &Vec<Vec<String>>) -> (r: Vec<String>)
        ensures
            views(r@) == globbed(views(words@), list_views(found@)),
            words.len() > 0 ==> r.len() > 0,
    {
        let ghost ws = views(words@);
        let ghost fs = list_views(found@);
        let mut r: Vec<String> = Vec::new();
        let mut i: usize = 0;
        assert(views(r@) =~= Seq::<Seq<char>>::empty());
        while i < words.len()
            invariant
                i <= words.len(),
                ws == views(words@),
                fs == list_views(found@),
                views(r@) + globbed_from(ws, fs, i as int) == globbed(ws, fs),
                i > 0 ==> r.len() > 0,
            decreases words.len() - i,
        {
            let ghost before = views(r@);
            if Prompt::is_glob(words[i].as_str()) {
                let paths = if i < found.len() {
                    clone_strings(&found[i])
                } else {
                    Vec::new()
                };
                assert(views(paths@) =~= (if i < fs.len() {
                    fs[i as int]
                } else {
                    Seq::empty()
                }));
                let expanded = expand_glob(words[i].as_str(), paths);
                let mut j: usize = 0;
                while j < expanded.len()
                    invariant
                        j <= expanded.len(),
                        views(r@) == before + views(expanded@).subrange(0, j as int),
                    decreases expanded.len() - j,
                {
                    let ghost sofar = views(r@);
                    r.push(expanded[j].clone());
                    assert(views(r@) =~= sofar + seq![expanded@[j as int]@]);
                    j += 1;
                }
                assert(views(expanded@).subrange(0, expanded.len() as int) == views(expanded@));
            } else {
                r.push(words[i].clone());
                assert(views(r@) =~= before + seq![ws[i as int]]);
            }
            i += 1;
        }
        assert(views(r@) + Seq::<Seq<char>>::empty() =~= views(r@));
        r
    }

    /// The command that the words `words` stand for, where `split` is what splitting the
    /// line of the arguments gave, and `is_dir` tells whether the first word names a
    /// directory.
    pub fn resolve(
        ctx: &ContextData,
        words: Vec<String>,
        split: Option<Vec<String>>,
        is_dir: bool,
    ) -> (r: Result<Built, PromptError>)
        ensures
            match (
                r,
                invoked(
                    ctx@,
                    views(words@),
                    match split {
                        Some(w) => Some(views(w@)),
                        None => None,
                    },
                    is_dir,
                ),
            ) {
                (Ok(built), Ok(call)) => built_from(built, ctx@, call),
                (Err(e), Err(f)) => e == f,
                _ => false,
            },
    {
        if words.len() == 0 {
            return Err(PromptError::NoCommand(NoCommandError));
        }
        let mut args = match split {
            None => {
                return Err(PromptError::CommandArgsSplit(CommandArgsSplitError));
            },
            Some(args) => args,
        };
        let mut program = words[0].clone();
        if ctx.config.auto_cd && args.len() == 0 && is_dir {
            args.push(program);
            assert(views(args@) =~= seq![words@[0]@]);
            program = "cd".to_owned();
        }
        let mut trace = String::new();
        if ctx.xtrace {
            trace.append("+carapace> ");
            trace.append(program.as_str());
            trace.append(" ");
            trace.append(join(&args, " ").as_str());
            trace.append("\n");
        }
        Ok(Built { command: parse(program, args), trace })
    }

    /// The command that the words `words` of a line stand for, the file patterns among them
    /// expanded already; `is_dir` tells whether the first word names a directory. The
    /// arguments, joined by blanks, are split again as a POSIX shell splits a line, which
    /// takes the quotes off them.
    pub fn build_command(ctx: &ContextData, words: Vec<String>, is_dir: bool) -> (r: Result<
        Built,
        PromptError,
    >)
        ensures
            match (r, invoked(ctx@, views(words@), shlex_words(args_line(views(words@))), is_dir)) {
                (Ok(built), Ok(call)) => built_from(built, ctx@, call),
                (Err(e), Err(f)) => e == f,
                _ => false,
            },
    {
        let mut rest: Vec<String> = Vec::new();
        let mut i: usize = 1;
        assert(views(rest@) =~= Seq::<Seq<char>>::empty());
        while i < words.len()
            invariant
                1 <= i,
                words.len() >= 1 ==> i <= words.len(),
                words.len() >= 1 ==> views(rest@) == views(words@).subrange(1, i as int),
                words.len() == 0 ==> views(rest@) == Seq::<Seq<char>>::empty(),
            decreases words.len() - i,
        {
            let ghost before = views(rest@);
            rest.push(words[i].clone());
            assert(views(rest@) =~= before + seq![words@[i as int]@]);
            i += 1;
        }
        if words.len() == 0 {
            return Err(PromptError::NoCommand(NoCommandError));
        }
        let split = shlex_split(join(&rest, " ").as_str());
        Prompt::resolve(ctx, words, split, is_dir)
    }
}

} // verus!
