//! `history`: shows, forgets or saves the lines that the session has read.

use crate::args::{
    clap_matches, clap_parse, count_of, name_list, parsed_view, take_count, take_message, MatchView,
    Parsed, HISTORY_USAGE,
};
use crate::command::{
    line, CommandAliases, HistoryAction, Outcome, Reply, ReplyView, Request, RequestView, Step,
};
use crate::context::{ContextData, ContextView};
use crate::num::{decimal, u64_string};
use crate::text::views;
use vstd::prelude::*;
use vstd::string::*;

verus! {

/// The text `t` with blanks before it that fill it up to `width` characters.
pub open spec fn right_aligned(t: Seq<char>, width: nat) -> Seq<char> {
    if t.len() >= width {
        t
    } else {
        Seq::new((width - t.len()) as nat, |i: int| ' ') + t
    }
}

/// The line of the history that shows the entry `text` of number `num`.
pub open spec fn numbered(num: nat, text: Seq<char>) -> Seq<char> {
    right_aligned(decimal(num), 4) + ": "@ + text + "\n"@
}

/// The lines of the history from the entry of index `i` on, each with its number; the
/// numbers begin with one.
pub open spec fn numbered_from(lines: Seq<Seq<char>>, i: int) -> Seq<char>
    decreases lines.len() - i,
{
    if i < 0 || i >= lines.len() {
        Seq::empty()
    } else {
        numbered((i + 1) as nat, lines[i]) + numbered_from(lines, i + 1)
    }
}

/// What showing the history prints.
pub open spec fn history_text(lines: Seq<Seq<char>>) -> Seq<char> {
    numbered_from(lines, 0)
}

/// What showing the history prints: each line with its number, right aligned in four
/// columns.
pub fn show_history(lines: &Vec<String>) -> (r: String)
    ensures
        r@ == history_text(views(lines@)),
{
    let mut r = String::new();
    let mut i: usize = 0;
    while i < lines.len()
        invariant
            i <= lines.len(),
            r@ + numbered_from(views(lines@), i as int) == history_text(views(lines@)),
        decreases lines.len() - i,
    {
        let ghost before = r@;
        let num = u64_string(i as u64 + 1);
        let len: usize = num.as_str().unicode_len();
        let mut entry = String::new();
        let mut pad: usize = 0;
        while len < 4 && pad < 4 - len
            invariant
                len == num@.len(),
                len < 4 ==> pad <= 4 - len,
                len >= 4 ==> pad == 0,
                entry@ == Seq::new(pad as nat, |k: int| ' '),
            decreases 4 - pad,
        {
            entry.append(" ");
            proof {
                reveal_strlit(" ");
                assert(entry@ =~= Seq::new((pad + 1) as nat, |k: int| ' '));
            }
            pad += 1;
        }
        entry.append(num.as_str());
        assert(entry@ =~= right_aligned(num@, 4));
        entry.append(": ");
        entry.append(lines[i].as_str());
        entry.append("\n");
        assert(entry@ == numbered((i + 1) as nat, lines@[i as int]@));
        r.append(entry.as_str());
        i += 1;
    }
    assert(r@ + Seq::<char>::empty() == r@);
    r
}

/// The command that shows, forgets or saves the history.
pub struct HistoryCommand {
    /// The arguments as they were given.
    pub vars: Vec<String>,
    /// What to do with the history.
    pub action: HistoryAction,
    /// The message for arguments that do not fit, if they do not.
    pub usage: Option<String>,
}

impl HistoryCommand {
    /// What the parse of the arguments `args` finds.
    pub open spec fn found(args: Seq<Seq<char>>) -> Option<Seq<MatchView>> {
        clap_matches("history"@, HISTORY_USAGE@, seq!["clear"@, "write"@], args)
    }

    /// Whether the command is the one that `args` give, where `m` is what the parse of the
    /// arguments found: `-c` forgets the history, else `-w` saves it, else it is shown.
    pub open spec fn made_from(&self, args: Seq<Seq<char>>, m: Option<Seq<MatchView>>) -> bool {
        &&& views(self.vars@) == args
        &&& self.action == (if count_of(m, 0) > 0 {
            HistoryAction::Clear
        } else if count_of(m, 1) > 0 {
            HistoryAction::Write
        } else {
            HistoryAction::List
        })
        &&& self.usage.is_some() == m.is_none()
    }

    /// What the command asks for: what it is to do with the history.
    pub open spec fn wanted(&self) -> RequestView {
        if self.usage.is_some() {
            RequestView::Nothing
        } else {
            RequestView::History(self.action)
        }
    }

    /// What executing the command gives: a refusal where its arguments do not fit; else the
    /// lines of the history are shown, if they were asked for and came.
    pub open spec fn step(&self, state: ContextView, reply: ReplyView) -> Step {
        match self.usage {
            Some(message) => Step { state, result: Ok(false), output: message@ + "\n"@ },
            None => Step {
                state,
                result: Ok(true),
                output: match reply {
                    ReplyView::Lines(lines) => if self.action == HistoryAction::List {
                        history_text(lines)
                    } else {
                        Seq::empty()
                    },
                    _ => Seq::empty(),
                },
            },
        }
    }

    /// The command for the arguments `args`, of which `parsed` is the parse.
    pub fn from_matches(args: Vec<String>, parsed: Parsed) -> (r: HistoryCommand)
        ensures
            r.made_from(views(args@), parsed_view(parsed)),
            parsed matches Err(message) ==> r.usage == Some(message),
    {
        let action = if take_count(&parsed, 0) > 0 {
            HistoryAction::Clear
        } else if take_count(&parsed, 1) > 0 {
            HistoryAction::Write
        } else {
            HistoryAction::List
        };
        HistoryCommand { vars: args, action, usage: take_message(parsed) }
    }

    /// The command for the arguments `args`.
    pub fn new(args: Vec<String>) -> (r: HistoryCommand)
        ensures
            r.made_from(views(args@), Self::found(views(args@))),
    {
        let names = name_list(&["clear", "write"]);
        assert(views(names@) =~= seq!["clear"@, "write"@]);
        let parsed = clap_parse("history", HISTORY_USAGE, &names, &args);
        HistoryCommand::from_matches(args, parsed)
    }

    /// Asks for what is to be done with the history.
    pub fn request(&self, ctx: &ContextData) -> (r: Request)
        ensures
            r@ == self.wanted(),
    {
        match &self.usage {
            Some(_) => Request::Nothing,
            None => Request::History(self.action),
        }
    }

    /// Shows the lines of the history, if they were asked for.
    pub fn execute(&mut self, ctx: &mut ContextData, reply: &Reply) -> (o: Outcome)
        ensures
            *final(ctx) == *old(ctx),
            o.result == old(self).step(old(ctx)@, reply@).result,
            o.output@ == old(self).step(old(ctx)@, reply@).output,
            *final(self) == *old(self),
    {
        match &self.usage {
            Some(message) => {
                return Outcome { result: Ok(false), output: line(message.as_str()) };
            },
            None => {},
        }
        match reply {
            Reply::Lines(lines) => {
                if self.action == HistoryAction::List {
                    Outcome { result: Ok(true), output: show_history(lines) }
                } else {
                    Outcome { result: Ok(true), output: String::new() }
                }
            },
            _ => Outcome { result: Ok(true), output: String::new() },
        }
    }
}

impl CommandAliases for HistoryCommand {
    fn aliases() -> (r: Vec<String>)
        ensures
            views(r@) == seq!["h"@, "hist"@, "history"@],
    {
        let mut r: Vec<String> = Vec::new();
        r.push("h".to_owned());
        r.push("hist".to_owned());
        r.push("history".to_owned());
        assert(views(r@) =~= seq!["h"@, "hist"@, "history"@]);
        r
    }
}

} // verus!
