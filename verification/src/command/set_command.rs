//! `set`: sets and unsets the options of the shell.

use crate::args::{
    clap_matches, clap_parse, count_of, name_list, parsed_view, take_count, take_value, value_of,
    MatchView, Parsed, SET_USAGE,
};
use crate::command::{line, CommandAliases, Outcome, Request, RequestView, Step};
use crate::config::EditMode;
use crate::context::{ContextData, ContextView};
use crate::env::{appended, replaced_in, value_or_empty};
use crate::text::{
    contains_sub, lemma_contains_one, lemma_has_char_push, lemma_removed, range_string,
    replaced, str_eq, to_chars, views,
};
use vstd::prelude::*;
use vstd::string::*;

verus! {

/// What a `set` command does.
pub enum SetAction {
    /// Refuses arguments that do not fit, with the message.
    Usage(String),
    /// Sets or unsets the option of the given letter: `x`, `e` or `v`.
    Toggle { option: String, enable: bool },
    /// Sets the verbosity to the given level.
    Verbose(u64),
    /// Switches the line editor to the given key bindings.
    Mode(EditMode),
    /// Makes the shell go on, or not, when its input ends.
    IgnoreEof(bool),
    /// Refuses what was asked for, with the message.
    Reject(String),
    /// Nothing.
    Nothing,
}

/// What a `set` command does, as plain values.
pub enum SetActionView {
    Usage(Seq<char>),
    Toggle { option: Seq<char>, enable: bool },
    Verbose(u64),
    Mode(EditMode),
    IgnoreEof(bool),
    Reject(Seq<char>),
    Nothing,
}

impl View for SetAction {
    type V = SetActionView;

    open spec fn view(&self) -> SetActionView {
        match self {
            SetAction::Usage(message) => SetActionView::Usage(message@),
            SetAction::Toggle { option, enable } => SetActionView::Toggle {
                option: option@,
                enable: *enable,
            },
            SetAction::Verbose(level) => SetActionView::Verbose(*level),
            SetAction::Mode(mode) => SetActionView::Mode(*mode),
            SetAction::IgnoreEof(on) => SetActionView::IgnoreEof(*on),
            SetAction::Reject(message) => SetActionView::Reject(message@),
            SetAction::Nothing => SetActionView::Nothing,
        }
    }
}

/// The message for an option name that the shell does not know.
pub open spec fn unknown_name(name: Seq<char>) -> Seq<char> {
    "Unknown option name: "@ + name
}

/// The message for an option letter that the shell does not know.
pub open spec fn unknown_option(option: Seq<char>) -> Seq<char> {
    "Unknown option: "@ + option
}

/// The message for an edit mode that was to be unset.
pub open spec fn cannot_unset(name: Seq<char>) -> Seq<char> {
    "Cannot unset "@ + name + " edit mode! Choice must be set explicitly."@
}

/// The message for `+o` or `+option` without a name behind it.
pub open spec fn name_required(word: Seq<char>) -> Seq<char> {
    "Option name required after "@ + word + "!"@
}

/// The message for a word that is to unset an option and does not begin with `+`, or is
/// nothing but `+`.
pub open spec fn plus_required() -> Seq<char> {
    "Argument to unset must start with '+' with a non-empty string following, Like '+x'."@
}

/// What the option of the name `name` asks for when it is set (`enable`) or unset.
pub open spec fn named(name: Seq<char>, enable: bool) -> SetActionView {
    if name == "xtrace"@ {
        SetActionView::Toggle { option: "x"@, enable }
    } else if name == "errexit"@ {
        SetActionView::Toggle { option: "e"@, enable }
    } else if name == "verbose"@ {
        SetActionView::Toggle { option: "v"@, enable }
    } else if name == "emacs"@ {
        if enable {
            SetActionView::Mode(EditMode::Emacs)
        } else {
            SetActionView::Reject(cannot_unset(name))
        }
    } else if name == "vi"@ {
        if enable {
            SetActionView::Mode(EditMode::Vi)
        } else {
            SetActionView::Reject(cannot_unset(name))
        }
    } else if name == "ignoreeof"@ {
        SetActionView::IgnoreEof(enable)
    } else {
        SetActionView::Reject(unknown_name(name))
    }
}

/// What the word `word` asks for that is to unset an option, with the word `name` behind it,
/// if there is one: `+o` and `+option` unset the option of the name `name`; any other word
/// has to be a `+` with the letter of the option behind it.
pub open spec fn unset_by(word: Seq<char>, name: Option<Seq<char>>) -> SetActionView {
    if word == "+o"@ || word == "+option"@ {
        match name {
            Some(name) => named(name, false),
            None => SetActionView::Reject(name_required(word)),
        }
    } else if word.len() <= 1 || word[0] != '+' {
        SetActionView::Reject(plus_required())
    } else {
        SetActionView::Toggle { option: word.subrange(1, word.len() as int), enable: false }
    }
}

/// What a `set` command does whose arguments fit, where `m` is what their parse found of the
/// flags `-x`, `-e` and `-v`, of the option `-o`, and of the two words: the first of these that
/// was given decides.
pub open spec fn chosen(m: Option<Seq<MatchView>>) -> SetActionView {
    if count_of(m, 0) > 0 {
        SetActionView::Toggle { option: "x"@, enable: true }
    } else if count_of(m, 1) > 0 {
        SetActionView::Toggle { option: "e"@, enable: true }
    } else if count_of(m, 2) > 0 {
        SetActionView::Verbose(count_of(m, 2))
    } else {
        match value_of(m, 3) {
            Some(name) => named(name, true),
            None => match value_of(m, 4) {
                Some(word) => unset_by(word, value_of(m, 5)),
                None => SetActionView::Nothing,
            },
        }
    }
}

/// What setting (`enable`) or unsetting the option of the letter `option` gives. The letters
/// are `x`, `e` and `v`; any other is refused. The letter enters or leaves the value of the
/// variable `-`, and the option of the session follows: the verbosity becomes 1 or 0.
pub open spec fn toggled(state: ContextView, option: Seq<char>, enable: bool) -> Step {
    if option == "x"@ || option == "e"@ || option == "v"@ {
        let env = if enable {
            appended(state.env, "-"@, option)
        } else {
            replaced_in(state.env, "-"@, option, Seq::empty())
        };
        Step {
            state: ContextView {
                env,
                xtrace: if option == "x"@ {
                    enable
                } else {
                    state.xtrace
                },
                errexit: if option == "e"@ {
                    enable
                } else {
                    state.errexit
                },
                verbose: if option == "v"@ {
                    if enable {
                        1
                    } else {
                        0
                    }
                } else {
                    state.verbose
                },
                ..state
            },
            result: Ok(true),
            output: Seq::empty(),
        }
    } else {
        Step { state, result: Ok(false), output: unknown_option(option) + "\n"@ }
    }
}

/// Whether the value of the variable `-` holds the letter `option`.
pub open spec fn flagged(state: ContextView, option: Seq<char>) -> bool {
    contains_sub(value_or_empty(state.env, "-"@), option)
}

/// Whether the variable `-` mirrors the options of the session: its value holds `x` exactly
/// where calls are shown, `e` exactly where the shell ends on failures, and `v` exactly where
/// the session is verbose.
pub open spec fn mirrored(state: ContextView) -> bool {
    &&& flagged(state, "x"@) == state.xtrace
    &&& flagged(state, "e"@) == state.errexit
    &&& flagged(state, "v"@) == (state.verbose > 0)
}

/// Whether the option of the letter `option` is set in the session.
pub open spec fn option_set(state: ContextView, option: Seq<char>) -> bool {
    if option == "x"@ {
        state.xtrace
    } else if option == "e"@ {
        state.errexit
    } else {
        state.verbose > 0
    }
}

/// Whether `option` is the letter of an option: `x`, `e` or `v`.
pub open spec fn is_letter(option: Seq<char>) -> bool {
    option == "x"@ || option == "e"@ || option == "v"@
}

/// The three letters are strings of one character, each of another.
pub proof fn lemma_letters()
    ensures
        "x"@ == seq!['x'],
        "e"@ == seq!['e'],
        "v"@ == seq!['v'],
{
    reveal_strlit("x");
    reveal_strlit("e");
    reveal_strlit("v");
    assert("x"@ =~= seq!['x']);
    assert("e"@ =~= seq!['e']);
    assert("v"@ =~= seq!['v']);
}

/// Setting or unsetting an option moves the option and its letter in the value of `-`
/// together: afterwards the letter stands in the value exactly where the option is set, and
/// of the other two letters and options nothing has changed.
pub proof fn lemma_toggled(state: ContextView, option: Seq<char>, enable: bool, other: Seq<char>)
    requires
        is_letter(option),
        is_letter(other),
    ensures
        toggled(state, option, enable).result == Ok::<bool, i32>(true),
        flagged(toggled(state, option, enable).state, option) == enable,
        option_set(toggled(state, option, enable).state, option) == enable,
        other != option ==> flagged(toggled(state, option, enable).state, other) == flagged(
            state,
            other,
        ),
        other != option ==> option_set(toggled(state, option, enable).state, other) == option_set(
            state,
            other,
        ),
{
    lemma_letters();
    let after = toggled(state, option, enable).state;
    let before = value_or_empty(state.env, "-"@);
    let c = option[0];
    let d = other[0];
    assert(option =~= seq![c]);
    assert(other =~= seq![d]);
    assert(other != option ==> d != c);
    lemma_contains_one(before, c);
    lemma_contains_one(before, d);
    let now = value_or_empty(after.env, "-"@);
    lemma_contains_one(now, c);
    lemma_contains_one(now, d);
    if enable {
        if !contains_sub(before, option) {
            assert(now == before + seq![c]);
            lemma_has_char_push(before, c, c);
            lemma_has_char_push(before, c, d);
        }
    } else {
        if contains_sub(before, option) {
            assert(now == replaced(before, seq![c], Seq::empty()));
            lemma_removed(before, c, c);
            lemma_removed(before, c, d);
        }
    }
}

/// Where the variable `-` mirrors the options, it still does after an option was set or
/// unset.
pub proof fn lemma_toggled_mirrored(state: ContextView, option: Seq<char>, enable: bool)
    requires
        mirrored(state),
    ensures
        mirrored(toggled(state, option, enable).state),
{
    if is_letter(option) {
        lemma_letters();
        lemma_toggled(state, option, enable, "x"@);
        lemma_toggled(state, option, enable, "e"@);
        lemma_toggled(state, option, enable, "v"@);
    }
}

/// Where the variable `-` mirrors the options, it still does after the verbosity was set to
/// a level above zero.
pub proof fn lemma_verbose_mirrored(state: ContextView, level: u64)
    requires
        mirrored(state),
        level > 0,
    ensures
        mirrored(acted(state, SetActionView::Verbose(level)).state),
{
    lemma_letters();
    let before = value_or_empty(state.env, "-"@);
    let after = acted(state, SetActionView::Verbose(level)).state;
    let now = value_or_empty(after.env, "-"@);
    lemma_contains_one(before, 'v');
    lemma_contains_one(before, 'x');
    lemma_contains_one(before, 'e');
    lemma_contains_one(now, 'v');
    lemma_contains_one(now, 'x');
    lemma_contains_one(now, 'e');
    if !contains_sub(before, "v"@) {
        assert(now == before + seq!['v']);
        lemma_has_char_push(before, 'v', 'v');
        lemma_has_char_push(before, 'v', 'x');
        lemma_has_char_push(before, 'v', 'e');
    }
}

/// Where the variable `-` mirrors the options, it still does after a `set` command was
/// executed, whatever its arguments ask for.
pub proof fn lemma_chosen_mirrored(state: ContextView, m: Option<Seq<MatchView>>)
    requires
        mirrored(state),
    ensures
        mirrored(acted(state, chosen(m)).state),
{
    let action = chosen(m);
    match action {
        SetActionView::Toggle { option, enable } => {
            lemma_toggled_mirrored(state, option, enable);
        },
        SetActionView::Verbose(level) => {
            lemma_verbose_mirrored(state, level);
        },
        SetActionView::IgnoreEof(on) => {
            assert(acted(state, action).state.env == state.env);
        },
        _ => {
            assert(acted(state, action).state == state);
        },
    }
}

/// Setting the option `x` and unsetting it again: first the value of `-` holds `x` and calls
/// are shown, then neither. Where the value of `-` was empty or missing, it is `x` and then
/// empty.
pub proof fn lemma_set_then_unset(state: ContextView)
    ensures
        ({
            let on = toggled(state, "x"@, true).state;
            let off = toggled(on, "x"@, false).state;
            &&& on.xtrace
            &&& flagged(on, "x"@)
            &&& !off.xtrace
            &&& !flagged(off, "x"@)
            &&& off.env.contains_key("-"@)
            &&& value_or_empty(state.env, "-"@).len() == 0 ==> on.env["-"@] == "x"@ && off.env["-"@]
                == Seq::<char>::empty()
        }),
{
    lemma_letters();
    lemma_toggled(state, "x"@, true, "x"@);
    let on = toggled(state, "x"@, true).state;
    lemma_toggled(on, "x"@, false, "x"@);
    let before = value_or_empty(state.env, "-"@);
    if before.len() == 0 {
        lemma_contains_one(before, 'x');
        assert(on.env["-"@] =~= seq!['x']);
        let t = seq!['x'];
        assert(crate::text::occurs_at(t, t, 0)) by {
            assert(t.subrange(0, 1) =~= t);
        }
        assert(crate::text::replaced_from(t, t, Seq::empty(), 1) =~= Seq::<char>::empty());
        assert(replaced(t, t, Seq::empty()) =~= Seq::<char>::empty());
    }
}

/// What the action `action` gives when it is carried out.
pub open spec fn acted(state: ContextView, action: SetActionView) -> Step {
    match action {
        SetActionView::Usage(message) => Step { state, result: Ok(false), output: message + "\n"@ },
        SetActionView::Toggle { option, enable } => toggled(state, option, enable),
        SetActionView::Verbose(level) => Step {
            state: ContextView {
                env: appended(state.env, "-"@, "v"@),
                verbose: level,
                ..state
            },
            result: Ok(true),
            output: Seq::empty(),
        },
        SetActionView::Mode(_) => Step { state, result: Ok(true), output: Seq::empty() },
        SetActionView::IgnoreEof(on) => Step {
            state: ContextView { ignoreeof: on, ..state },
            result: Ok(true),
            output: Seq::empty(),
        },
        SetActionView::Reject(message) => Step {
            state,
            result: Ok(false),
            output: message + "\n"@,
        },
        SetActionView::Nothing => Step { state, result: Ok(true), output: Seq::empty() },
    }
}

/// What the option of the name `name` asks for when it is set or unset.
pub fn option_named(name: &str, enable: bool) -> (r: SetAction)
    ensures
        r@ == named(name@, enable),
{
    if str_eq(name, "xtrace") {
        SetAction::Toggle { option: "x".to_owned(), enable }
    } else if str_eq(name, "errexit") {
        SetAction::Toggle { option: "e".to_owned(), enable }
    } else if str_eq(name, "verbose") {
        SetAction::Toggle { option: "v".to_owned(), enable }
    } else if str_eq(name, "emacs") || str_eq(name, "vi") {
        if enable {
            if str_eq(name, "emacs") {
                SetAction::Mode(EditMode::Emacs)
            } else {
                SetAction::Mode(EditMode::Vi)
            }
        } else {
            let mut message = "Cannot unset ".to_owned();
            message.append(name);
            message.append(" edit mode! Choice must be set explicitly.");
            SetAction::Reject(message)
        }
    } else if str_eq(name, "ignoreeof") {
        SetAction::IgnoreEof(enable)
    } else {
        let mut message = "Unknown option name: ".to_owned();
        message.append(name);
        SetAction::Reject(message)
    }
}

/// What the word `word` asks for that is to unset an option, with the word `name` behind it.
pub fn option_unset(word: &str, name: Option<String>) -> (r: SetAction)
    ensures
        r@ == unset_by(
            word@,
            match name {
                Some(n) => Some(n@),
                None => None,
            },
        ),
{
    if str_eq(word, "+o") || str_eq(word, "+option") {
        match name {
            Some(n) => option_named(n.as_str(), false),
            None => {
                let mut message = "Option name required after ".to_owned();
                message.append(word);
                message.append("!");
                SetAction::Reject(message)
            },
        }
    } else {
        let t = to_chars(word);
        if t.len() <= 1 || t[0] != '+' {
            SetAction::Reject(
                "Argument to unset must start with '+' with a non-empty string following, Like '+x'.".to_owned(),
            )
        } else {
            SetAction::Toggle { option: range_string(&t, 1, t.len()), enable: false }
        }
    }
}

/// The command that sets and unsets options.
pub struct SetCommand {
    /// The arguments as they were given.
    pub args: Vec<String>,
    /// What the arguments ask for.
    pub action: SetAction,
}

impl SetCommand {
    /// What the parse of the arguments `args` finds.
    pub open spec fn found(args: Seq<Seq<char>>) -> Option<Seq<MatchView>> {
        clap_matches("set"@, SET_USAGE@, seq!["xtrace"@, "errexit"@, "verbose"@, "option"@, "unset"@, "unset-name"@], args)
    }

    /// Whether the command is the one that `args` give, where `m` is what the parse of the
    /// arguments found.
    pub open spec fn made_from(&self, args: Seq<Seq<char>>, m: Option<Seq<MatchView>>) -> bool {
        &&& views(self.args@) == args
        &&& match m {
            Some(_) => self.action@ == chosen(m),
            None => self.action is Usage,
        }
    }

    /// What the command asks for: to switch the line editor, where it sets an edit mode.
    pub open spec fn wanted(&self) -> RequestView {
        match self.action {
            SetAction::Mode(mode) => RequestView::EditMode(mode),
            _ => RequestView::Nothing,
        }
    }

    /// What executing the command gives.
    pub open spec fn step(&self, state: ContextView) -> Step {
        acted(state, self.action@)
    }

    /// The command for the arguments `args`, of which `parsed` is the parse.
    pub fn from_matches(args: Vec<String>, parsed: Parsed) -> (r: SetCommand)
        ensures
            r.made_from(views(args@), parsed_view(parsed)),
            parsed matches Err(message) ==> r.action == SetAction::Usage(message),
    {
        let action = if take_count(&parsed, 0) > 0 {
            SetAction::Toggle { option: "x".to_owned(), enable: true }
        } else if take_count(&parsed, 1) > 0 {
            SetAction::Toggle { option: "e".to_owned(), enable: true }
        } else if take_count(&parsed, 2) > 0 {
            SetAction::Verbose(take_count(&parsed, 2))
        } else {
            match take_value(&parsed, 3) {
                Some(name) => option_named(name.as_str(), true),
                None => match take_value(&parsed, 4) {
                    Some(word) => option_unset(word.as_str(), take_value(&parsed, 5)),
                    None => match parsed {
                        Ok(_) => SetAction::Nothing,
                        Err(message) => SetAction::Usage(message),
                    },
                },
            }
        };
        SetCommand { args, action }
    }

    /// The command for the arguments `args`.
    pub fn new(args: Vec<String>) -> (r: SetCommand)
        ensures
            r.made_from(views(args@), Self::found(views(args@))),
    {
        let names = name_list(&["xtrace", "errexit", "verbose", "option", "unset", "unset-name"]);
        assert(views(names@) =~= seq![
            "xtrace"@,
            "errexit"@,
            "verbose"@,
            "option"@,
            "unset"@,
            "unset-name"@,
        ]);
        let parsed = clap_parse("set", SET_USAGE, &names, &args);
        SetCommand::from_matches(args, parsed)
    }

    /// Sets or unsets the option of the letter `opt`: the letter enters or leaves the value
    /// of the variable `-`, and the option of the session follows.
    pub fn set(opt: &str, enable: bool, ctx: &mut ContextData) -> (o: Outcome)
        requires
            old(ctx).wf(),
        ensures
            final(ctx).wf(),
            final(ctx)@ == toggled(old(ctx)@, opt@, enable).state,
            o.result == toggled(old(ctx)@, opt@, enable).result,
            o.output@ == toggled(old(ctx)@, opt@, enable).output,
    {
        let is_x = str_eq(opt, "x");
        let is_e = str_eq(opt, "e");
        let is_v = str_eq(opt, "v");
        if is_x || is_e || is_v {
            if enable {
                ctx.env.append("-", opt.to_owned());
            } else {
                ctx.env.replace("-", opt.to_owned(), String::new());
            }
            if is_x {
                ctx.xtrace = enable;
            } else if is_e {
                ctx.errexit = enable;
            } else {
                ctx.verbose = if enable {
                    1
                } else {
                    0
                };
            }
            proof {
                reveal_strlit("x");
                reveal_strlit("e");
                reveal_strlit("v");
                assert("x"@[0] == 'x' && "e"@[0] == 'e' && "v"@[0] == 'v');
            }
            Outcome { result: Ok(true), output: String::new() }
        } else {
            let mut message = "Unknown option: ".to_owned();
            message.append(opt);
            Outcome { result: Ok(false), output: line(message.as_str()) }
        }
    }

    /// Asks for the line editor to be switched, where the command sets an edit mode.
    pub fn request(&self, ctx: &ContextData) -> (r: Request)
        ensures
            r@ == self.wanted(),
    {
        match &self.action {
            SetAction::Mode(mode) => Request::EditMode(*mode),
            _ => Request::Nothing,
        }
    }

    /// Carries out what the arguments ask for.
    pub fn execute(&mut self, ctx: &mut ContextData) -> (o: Outcome)
        requires
            old(ctx).wf(),
        ensures
            final(ctx).wf(),
            final(ctx)@ == old(self).step(old(ctx)@).state,
            o.result == old(self).step(old(ctx)@).result,
            o.output@ == old(self).step(old(ctx)@).output,
            *final(self) == *old(self),
    {
        match &self.action {
            SetAction::Usage(message) => Outcome {
                result: Ok(false),
                output: line(message.as_str()),
            },
            SetAction::Toggle { option, enable } => SetCommand::set(option.as_str(), *enable, ctx),
            SetAction::Verbose(level) => {
                ctx.env.append("-", "v".to_owned());
                ctx.verbose = *level;
                Outcome { result: Ok(true), output: String::new() }
            },
            SetAction::Mode(_) => Outcome { result: Ok(true), output: String::new() },
            SetAction::IgnoreEof(on) => {
                ctx.ignoreeof = *on;
                Outcome { result: Ok(true), output: String::new() }
            },
            SetAction::Reject(message) => Outcome {
                result: Ok(false),
                output: line(message.as_str()),
            },
            SetAction::Nothing => Outcome { result: Ok(true), output: String::new() },
        }
    }
}

impl CommandAliases for SetCommand {
    fn aliases() -> (r: Vec<String>)
        ensures
            views(r@) == seq!["set"@],
    {
        let mut r: Vec<String> = Vec::new();
        r.push("set".to_owned());
        assert(views(r@) =~= seq!["set"@]);
        r
    }
}

} // verus!
