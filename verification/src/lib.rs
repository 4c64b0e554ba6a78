//! The core of an interactive command shell: the expansion pipeline that turns a line of input
//! into a command, and the builtin commands that read and change the session state.
//!
//! The library keeps the state of a session ([`context::ContextData`]) and never touches the
//! world outside of it. A line goes through [`prompt::Prompt`]: `parse_command` undoes the
//! assignments of the line before, substitutes variables, takes the assignments at the head
//! of the line, the alias and the home directory; `expand_globs` puts the paths in place of
//! the file patterns, once the caller has looked for them; `build_command` splits the
//! arguments at their quotes and finds the command. A [`command::Command`] says with
//! `request` what it needs from outside (a change of directory, a program to run, a look
//! into the search path), and `execute` takes the answer and does to the session what the
//! command is there for. What is to be printed comes back as text.

pub mod args;
pub mod chars;
pub mod command;
pub mod completion;
pub mod config;
pub mod context;
pub mod env;
pub mod num;
pub mod order;
pub mod path_commands;
pub mod prompt;
pub mod scan;
pub mod string_map;
pub mod string_set;
pub mod subst;
pub mod text;
pub mod util;
