//! Candidates for the completion of a line that is being typed.

use crate::command::{builtin_names, builtins};
use crate::context::{ContextData, ContextView};
use crate::env::{unfinished_variable_at, Env};
use crate::scan::{byte_index, byte_len, char_width, lemma_byte_index_monotone, lemma_byte_index_step};
use crate::string_map::{ordered_keys, StringMap};
use crate::string_set::ordered_names;
use crate::text::{joined, matches_at, occurs_at, range_string, str_eq, to_chars, views};
use crate::scan::{within_first_word, TokenKind};
use crate::util::{expansion, glob_at_pos, in_first_word, partial_env_var_at_pos, token_text};
use vstd::prelude::*;
use vstd::string::*;

verus! {

/// A candidate for a completion.
pub struct Pair {
    /// What is shown for the candidate.
    pub display: String,
    /// What is put into the line where the candidate is taken.
    pub replacement: String,
}

/// A candidate as plain values.
pub struct PairView {
    pub display: Seq<char>,
    pub replacement: Seq<char>,
}

impl View for Pair {
    type V = PairView;

    open spec fn view(&self) -> PairView {
        PairView { display: self.display@, replacement: self.replacement@ }
    }
}

/// Candidates as plain values.
pub open spec fn pair_list(v: Seq<Pair>) -> Seq<PairView> {
    Seq::new(v.len(), |i: int| v[i]@)
}

/// The list `list` with those of `extra[i..]` appended that it does not hold yet.
pub open spec fn merged_from(list: Seq<Seq<char>>, extra: Seq<Seq<char>>, i: int) -> Seq<Seq<char>>
    decreases extra.len() - i,
{
    if i < 0 || i >= extra.len() {
        list
    } else if list.contains(extra[i]) {
        merged_from(list, extra, i + 1)
    } else {
        merged_from(list.push(extra[i]), extra, i + 1)
    }
}

/// The names that can begin a line: the builtin commands, the aliases, and the known
/// commands, none of them twice.
pub open spec fn command_names(state: ContextView) -> Seq<Seq<char>> {
    merged_from(
        merged_from(builtin_names(), ordered_keys(state.config.aliases), 0),
        ordered_names(state.commands),
        0,
    )
}

/// Whether `t` begins with `p`.
pub open spec fn begins_with(t: Seq<char>, p: Seq<char>) -> bool {
    occurs_at(t, p, 0)
}

/// The candidates among `names[i..]` for the completion of `typed`: each name that begins
/// with it, to be completed by what is left of the name.
pub open spec fn completions_from(names: Seq<Seq<char>>, typed: Seq<char>, i: int) -> Seq<PairView>
    decreases names.len() - i,
{
    if i < 0 || i >= names.len() {
        Seq::empty()
    } else if begins_with(names[i], typed) {
        seq![
            PairView {
                display: names[i],
                replacement: names[i].subrange(typed.len() as int, names[i].len() as int),
            },
        ] + completions_from(names, typed, i + 1)
    } else {
        completions_from(names, typed, i + 1)
    }
}

/// The index of the character that begins at the byte position `pos` of `t`, or the length of
/// `t` for the position behind the text: the first index from `i` on whose byte position is
/// not below `pos`.
pub open spec fn boundary_from(t: Seq<char>, pos: int, i: int) -> int
    decreases t.len() - i,
{
    if 0 <= i < t.len() && byte_index(t, i) < pos {
        boundary_from(t, pos, i + 1)
    } else {
        i
    }
}

/// What was typed of a line up to the byte position `pos`.
pub open spec fn typed_before(t: Seq<char>, pos: int) -> Seq<char> {
    t.subrange(0, boundary_from(t, pos, 0))
}

/// The candidate that takes the place of a variable reference that is being typed, for the
/// variable `name`: the bare reference `$name` where it begins with what was typed; else
/// the bracketed reference `${name}` where `${name` begins with what was typed and that does
/// not end with `}`.
pub open spec fn variable_candidate(name: Seq<char>, typed: Seq<char>) -> Option<PairView> {
    let bare = "$"@ + name;
    let open = "${"@ + name;
    if begins_with(bare, typed) {
        Some(
            PairView {
                display: bare,
                replacement: bare.subrange(typed.len() as int, bare.len() as int),
            },
        )
    } else if begins_with(open, typed) && !(typed.len() > 0 && typed.last() == '}') {
        Some(
            PairView {
                display: open + "}"@,
                replacement: open.subrange(typed.len() as int, open.len() as int) + "}"@,
            },
        )
    } else {
        None
    }
}

/// The candidates for the variables `names[i..]`.
pub open spec fn variable_candidates_from(names: Seq<Seq<char>>, typed: Seq<char>, i: int) -> Seq<
    PairView,
>
    decreases names.len() - i,
{
    if i < 0 || i >= names.len() {
        Seq::empty()
    } else {
        (match variable_candidate(names[i], typed) {
            Some(pair) => seq![pair],
            None => Seq::empty(),
        }) + variable_candidates_from(names, typed, i + 1)
    }
}

/// The candidate that takes the place of the file pattern `word`, given the paths `found`
/// that match it: the paths, with blanks between them; none where nothing matches.
pub open spec fn pattern_candidate(word: Seq<char>, found: Seq<Seq<char>>) -> Option<PairView> {
    let paths = joined(expansion(word, found), " "@);
    if word.len() == 0 || paths.len() == 0 || paths == word {
        None
    } else {
        Some(PairView { display: paths, replacement: paths })
    }
}

/// Appends to `list` those of `extra` that it does not hold yet.
pub fn merge_names(list: &mut Vec<String>, extra: &Vec<String>)
    ensures
        views(final(list)@) == merged_from(views(old(list)@), views(extra@), 0),
{
    let mut i: usize = 0;
    while i < extra.len()
        invariant
            i <= extra.len(),
            merged_from(views(list@), views(extra@), i as int) == merged_from(
                views(old(list)@),
                views(extra@),
                0,
            ),
        decreases extra.len() - i,
    {
        let mut held = false;
        let mut j: usize = 0;
        while j < list.len() && !held
            invariant
                j <= list.len(),
                i < extra.len(),
                held ==> views(list@).contains(extra@[i as int]@),
                !held ==> forall|k: int| 0 <= k < j ==> views(list@)[k] != extra@[i as int]@,
            decreases list.len() - j + (if held { 0int } else { 1int }),
        {
            if str_eq(list[j].as_str(), extra[i].as_str()) {
                held = true;
                assert(views(list@)[j as int] == extra@[i as int]@);
            } else {
                j += 1;
            }
        }
        if !held {
            let ghost before = views(list@);
            list.push(extra[i].clone());
            assert(views(list@) =~= before.push(extra@[i as int]@));
        }
        i += 1;
    }
}

/// The names of a map, in ascending order.
pub fn map_names(map: &StringMap) -> (r: Vec<String>)
    requires
        map.wf(),
    ensures
        views(r@) == ordered_keys(map@),
{
    let n: usize = map.len();
    let mut r: Vec<String> = Vec::new();
    let mut i: usize = 0;
    while i < n
        invariant
            i <= n,
            n == ordered_keys(map@).len(),
            n == map.keys().len(),
            map.wf(),
            r.len() == i,
            forall|j: int| 0 <= j < i ==> (#[trigger] r@[j])@ == ordered_keys(map@)[j],
        decreases n - i,
    {
        r.push(map.key_at(i).clone());
        i += 1;
    }
    assert(views(r@) =~= ordered_keys(map@));
    r
}

/// What was typed of `line` before the byte position `pos`.
pub fn typed_part(line: &Vec<char>, pos: usize) -> (r: Vec<char>)
    requires
        byte_len(line@) <= usize::MAX,
    ensures
        r@ == typed_before(line@, pos as int),
{
    let mut i: usize = 0;
    let mut at: usize = 0;
    proof {
        assert(line@.subrange(0, 0) == Seq::<char>::empty());
    }
    while i < line.len() && at < pos
        invariant
            i <= line.len(),
            byte_len(line@) <= usize::MAX,
            at == byte_index(line@, i as int),
            boundary_from(line@, pos as int, 0) == boundary_from(line@, pos as int, i as int),
        decreases line.len() - i,
    {
        proof {
            lemma_byte_index_step(line@, i as int);
            lemma_byte_index_monotone(line@, i + 1, line.len() as int);
        }
        at += char_width(line[i]);
        i += 1;
    }
    let mut r: Vec<char> = Vec::new();
    let mut j: usize = 0;
    while j < i
        invariant
            j <= i <= line.len(),
            r@ == line@.subrange(0, j as int),
        decreases i - j,
    {
        r.push(line[j]);
        j += 1;
    }
    r
}

/// The candidates among `names` for the completion of `typed`.
pub fn complete_names(names: &Vec<String>, typed: &Vec<char>) -> (r: Vec<Pair>)
    ensures
        pair_list(r@) == completions_from(views(names@), typed@, 0),
{
    let mut r: Vec<Pair> = Vec::new();
    let mut i: usize = 0;
    assert(pair_list(r@) =~= Seq::<PairView>::empty());
    while i < names.len()
        invariant
            i <= names.len(),
            pair_list(r@) + completions_from(views(names@), typed@, i as int) == completions_from(
                views(names@),
                typed@,
                0,
            ),
        decreases names.len() - i,
    {
        let name = to_chars(names[i].as_str());
        if matches_at(&name, typed, 0) {
            let ghost before = pair_list(r@);
            let pair = Pair {
                display: names[i].clone(),
                replacement: range_string(&name, typed.len(), name.len()),
            };
            r.push(pair);
            assert(pair_list(r@) =~= before + seq![pair@]);
        }
        i += 1;
    }
    assert(pair_list(r@) + Seq::<PairView>::empty() =~= pair_list(r@));
    r
}

/// The candidates for the first word of a line, of which the part before the byte position
/// `pos` was typed: each name that can begin a line and begins with what was typed.
pub fn command_completer(ctx: &ContextData, line: &str, pos: usize) -> (r: Vec<Pair>)
    requires
        ctx.wf(),
    ensures
        pair_list(r@) == completions_from(command_names(ctx@), typed_before(line@, pos as int), 0),
{
    let mut names = builtins();
    merge_names(&mut names, &map_names(&ctx.config.aliases));
    merge_names(&mut names, ctx.commands.as_ref());
    let t = to_chars(line);
    let bytes = line.as_bytes();
    let n: usize = bytes.len();
    assert(byte_len(t@) == n);
    let typed = typed_part(&t, pos);
    complete_names(&names, &typed)
}

/// The candidate for the variable `name` where `typed` was typed of a reference.
pub fn complete_variable(name: &str, typed: &Vec<char>) -> (r: Option<Pair>)
    ensures
        match r {
            Some(pair) => variable_candidate(name@, typed@) == Some(pair@),
            None => variable_candidate(name@, typed@).is_none(),
        },
{
    let mut bare = "$".to_owned();
    bare.append(name);
    let mut open = "${".to_owned();
    open.append(name);
    let b = to_chars(bare.as_str());
    let o = to_chars(open.as_str());
    if matches_at(&b, typed, 0) {
        Some(Pair { display: bare, replacement: range_string(&b, typed.len(), b.len()) })
    } else if matches_at(&o, typed, 0) && !(typed.len() > 0 && typed[typed.len() - 1] == '}') {
        let mut replacement = range_string(&o, typed.len(), o.len());
        replacement.append("}");
        open.append("}");
        Some(Pair { display: open, replacement })
    } else {
        None
    }
}

/// The candidates for a variable reference that is being typed at the byte position `pos` of
/// `line`: one for each variable of the environment whose reference begins with what was
/// typed of it; nothing where no reference stands at the position.
pub fn env_var_completer(env: &Env, line: &str, pos: usize) -> (r: Option<Vec<Pair>>)
    requires
        env.wf(),
        pos <= byte_len(line@),
    ensures
        match r {
            Some(pairs) => unfinished_variable_at(pos as int, line@).len() > 0 && pair_list(pairs@)
                == variable_candidates_from(
                ordered_keys(env@),
                unfinished_variable_at(pos as int, line@),
                0,
            ),
            None => unfinished_variable_at(pos as int, line@).len() == 0,
        },
{
    let word = partial_env_var_at_pos(pos, line);
    let typed = to_chars(word.as_str());
    if typed.len() == 0 {
        return None;
    }
    let names = map_names(env.as_ref());
    let mut r: Vec<Pair> = Vec::new();
    let mut i: usize = 0;
    assert(pair_list(r@) =~= Seq::<PairView>::empty());
    while i < names.len()
        invariant
            i <= names.len(),
            pair_list(r@) + variable_candidates_from(views(names@), typed@, i as int)
                == variable_candidates_from(views(names@), typed@, 0),
        decreases names.len() - i,
    {
        let ghost before = pair_list(r@);
        match complete_variable(names[i].as_str(), &typed) {
            Some(pair) => {
                r.push(pair);
                assert(pair_list(r@) =~= before + seq![pair@]);
            },
            None => {
                assert(before + Seq::<PairView>::empty() =~= before);
            },
        }
        i += 1;
    }
    assert(pair_list(r@) + Seq::<PairView>::empty() =~= pair_list(r@));
    Some(r)
}

/// The candidate for the file pattern `word`, given the paths `found` that match it.
pub fn file_glob_completer(word: &str, found: Vec<String>) -> (r: Option<Pair>)
    ensures
        match r {
            Some(pair) => pattern_candidate(word@, views(found@)) == Some(pair@),
            None => pattern_candidate(word@, views(found@)).is_none(),
        },
{
    if word.unicode_len() == 0 {
        return None;
    }
    let paths = crate::text::join(&crate::util::expand_glob(word, found), " ");
    if paths.as_str().unicode_len() == 0 || str_eq(paths.as_str(), word) {
        None
    } else {
        Some(Pair { display: paths.clone(), replacement: paths })
    }
}

/// What is proposed for the completion of a line.
pub enum Proposal {
    /// Candidates that take the place of what was typed from the given byte position on.
    Candidates(usize, Vec<Pair>),
    /// The paths that match the given file pattern, which are to be looked for.
    Pattern(String),
    /// The names of files, which the line editor completes by itself.
    Files,
}

/// What is proposed for the completion of a line, as plain values.
pub enum ProposalView {
    Candidates(usize, Seq<PairView>),
    Pattern(Seq<char>),
    Files,
}

impl View for Proposal {
    type V = ProposalView;

    open spec fn view(&self) -> ProposalView {
        match self {
            Proposal::Candidates(start, pairs) => ProposalView::Candidates(*start, pair_list(pairs@)),
            Proposal::Pattern(word) => ProposalView::Pattern(word@),
            Proposal::Files => ProposalView::Files,
        }
    }
}

/// What is proposed for the completion of `line` at the byte position `pos`: in the first
/// word the names that can begin a line, if any begins with what was typed; else, at a
/// variable reference, the variables; else, at a file pattern, its paths; else file names.
pub open spec fn proposed(state: ContextView, line: Seq<char>, pos: usize) -> ProposalView {
    let names = completions_from(command_names(state), typed_before(line, pos as int), 0);
    let reference = unfinished_variable_at(pos as int, line);
    let pattern = token_text(pos as int, line, TokenKind::Pattern);
    if within_first_word(pos as int, line) && names.len() > 0 {
        ProposalView::Candidates(pos, names)
    } else if reference.len() > 0 {
        ProposalView::Candidates(
            pos,
            variable_candidates_from(ordered_keys(state.env), reference, 0),
        )
    } else if pattern.len() > 0 {
        ProposalView::Pattern(pattern)
    } else {
        ProposalView::Files
    }
}

/// Where the candidate for a file pattern begins that ends at the byte position `pos`, and
/// the candidate; nothing where the pattern does not end there.
pub open spec fn pattern_proposed(word: Seq<char>, pos: usize, found: Seq<Seq<char>>) -> Option<
    (usize, PairView),
> {
    match pattern_candidate(word, found) {
        Some(pair) => if byte_len(word) <= pos {
            Some(((pos - byte_len(word)) as usize, pair))
        } else {
            None
        },
        None => None,
    }
}

/// Proposes what completes `line` at the byte position `pos`.
pub fn propose(ctx: &ContextData, line: &str, pos: usize) -> (r: Proposal)
    requires
        ctx.wf(),
        pos <= byte_len(line@),
    ensures
        r@ == proposed(ctx@, line@, pos),
{
    if in_first_word(pos, line) {
        let names = command_completer(ctx, line, pos);
        if names.len() > 0 {
            return Proposal::Candidates(pos, names);
        }
    }
    match env_var_completer(&ctx.env, line, pos) {
        Some(pairs) => Proposal::Candidates(pos, pairs),
        None => {
            let word = glob_at_pos(pos, line);
            if word.as_str().unicode_len() > 0 {
                Proposal::Pattern(word)
            } else {
                Proposal::Files
            }
        },
    }
}

/// Proposes the paths `found` for the file pattern `word` that ends at the byte position
/// `pos`.
pub fn propose_paths(word: &str, pos: usize, found: Vec<String>) -> (r: Option<(usize, Pair)>)
    ensures
        match r {
            Some((start, pair)) => pattern_proposed(word@, pos, views(found@)) == Some(
                (start, pair@),
            ),
            None => pattern_proposed(word@, pos, views(found@)).is_none(),
        },
{
    let bytes = word.as_bytes();
    let n: usize = bytes.len();
    assert(byte_len(word@) == n);
    match file_glob_completer(word, found) {
        Some(pair) => if n <= pos {
            Some((pos - n, pair))
        } else {
            None
        },
        None => None,
    }
}

} // verus!
