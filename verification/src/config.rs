//! The configuration of the shell.

use crate::string_map::StringMap;
use crate::text::str_eq;
use vstd::prelude::*;

verus! {

/// The key bindings of the line editor.
#[derive(Clone, Copy, Debug, PartialEq, Eq, Structural)]
pub enum EditMode {
    /// Key bindings as in Emacs.
    Emacs,
    /// Key bindings as in vi.
    Vi,
}

/// How the line editor shows the candidates of a completion.
#[derive(Clone, Copy, Debug, PartialEq, Eq, Structural)]
pub enum CompletionType {
    /// All candidates at once, in a list.
    List,
    /// One candidate after the other.
    Circular,
}

/// The edit mode that the word `name` stands for: `vi` for vi, any other for Emacs.
pub open spec fn edit_mode_named(name: Seq<char>) -> EditMode {
    if name == "vi"@ {
        EditMode::Vi
    } else {
        EditMode::Emacs
    }
}

/// The completion type that the word `name` stands for: `circular` for one candidate after
/// the other, any other for the list.
pub open spec fn completion_type_named(name: Seq<char>) -> CompletionType {
    if name == "circular"@ {
        CompletionType::Circular
    } else {
        CompletionType::List
    }
}

impl EditMode {
    /// The edit mode that the word `name` stands for.
    pub fn from_name(name: &str) -> (r: EditMode)
        ensures
            r == edit_mode_named(name@),
    {
        if str_eq(name, "vi") {
            EditMode::Vi
        } else {
            EditMode::Emacs
        }
    }

    /// The word that stands for the edit mode: `emacs` or `vi`.
    pub fn name(&self) -> (r: &'static str)
        ensures
            r@ == (match self {
                EditMode::Emacs => "emacs"@,
                EditMode::Vi => "vi"@,
            }),
    {
        match self {
            EditMode::Emacs => "emacs",
            EditMode::Vi => "vi",
        }
    }
}

impl CompletionType {
    /// The completion type that the word `name` stands for.
    pub fn from_name(name: &str) -> (r: CompletionType)
        ensures
            r == completion_type_named(name@),
    {
        if str_eq(name, "circular") {
            CompletionType::Circular
        } else {
            CompletionType::List
        }
    }

    /// The word that stands for the completion type: `list` or `circular`.
    pub fn name(&self) -> (r: &'static str)
        ensures
            r@ == (match self {
                CompletionType::List => "list"@,
                CompletionType::Circular => "circular"@,
            }),
    {
        match self {
            CompletionType::List => "list",
            CompletionType::Circular => "circular",
        }
    }
}

/// The configuration that a session starts with.
pub struct Config {
    /// The number of lines that the history keeps at most.
    pub max_history_size: usize,
    /// The key bindings of the line editor.
    pub edit_mode: EditMode,
    /// How the line editor shows the candidates of a completion.
    pub completion_type: CompletionType,
    /// Whether a line that only names a directory changes to it.
    pub auto_cd: bool,
    /// Alias to the words that stand for it.
    pub aliases: StringMap,
    /// Variables that the session's environment starts with, beside those it inherits.
    pub env: StringMap,
}

/// A configuration as plain values.
pub struct ConfigView {
    /// The number of lines that the history keeps at most.
    pub max_history_size: usize,
    /// The key bindings of the line editor.
    pub edit_mode: EditMode,
    /// How the line editor shows the candidates of a completion.
    pub completion_type: CompletionType,
    /// Whether a line that only names a directory changes to it.
    pub auto_cd: bool,
    /// Alias to the words that stand for it.
    pub aliases: Map<Seq<char>, Seq<char>>,
    /// Variables that the session's environment starts with.
    pub env: Map<Seq<char>, Seq<char>>,
}

impl View for Config {
    type V = ConfigView;

    open spec fn view(&self) -> ConfigView {
        ConfigView {
            max_history_size: self.max_history_size,
            edit_mode: self.edit_mode,
            completion_type: self.completion_type,
            auto_cd: self.auto_cd,
            aliases: self.aliases@,
            env: self.env@,
        }
    }
}

/// The configuration of a session that was given none.
pub open spec fn default_config() -> ConfigView {
    ConfigView {
        max_history_size: 1000,
        edit_mode: EditMode::Emacs,
        completion_type: CompletionType::List,
        auto_cd: true,
        aliases: Map::empty(),
        env: Map::empty(),
    }
}

impl Config {
    /// Both maps of the configuration are well formed.
    pub open spec fn wf(&self) -> bool {
        self.aliases.wf() && self.env.wf()
    }
}

impl Default for Config {
    /// A history of 1000 lines, Emacs key bindings, completion by list, changing to a
    /// directory that is named alone, no aliases and no variables.
    fn default() -> (r: Config)
        ensures
            r.wf(),
            r@ == default_config(),
    {
        Config {
            max_history_size: 1000,
            edit_mode: EditMode::Emacs,
            completion_type: CompletionType::List,
            auto_cd: true,
            aliases: StringMap::new(),
            env: StringMap::new(),
        }
    }
}

} // verus!
