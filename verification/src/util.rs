//! Helpers on lines of text and on maps of strings.

use crate::env::{
    append_to_key, appended, find_variable, replace_in_key, replaced_in, unfinished_variable_at,
    variable_at,
};
use crate::scan::{before_first_space, byte_len, token_at, token_or_empty, within_first_word, TokenKind};
use crate::string_map::StringMap;
use crate::subst::{substitute, substitution};
use crate::text::{has_char, views};
use vstd::prelude::*;
use vstd::string::*;

verus! {

/// The token of `kind` at the byte position `pos` of `t`, or nothing.
pub open spec fn token_text(pos: int, t: Seq<char>, kind: TokenKind) -> Seq<char> {
    match token_at(t, kind, pos) {
        Some(s) => s,
        None => Seq::empty(),
    }
}

/// What a file pattern stands for: the paths that it matches, or itself where it matches none.
pub open spec fn expansion(input: Seq<char>, found: Seq<Seq<char>>) -> Seq<Seq<char>> {
    if found.len() == 0 {
        seq![input]
    } else {
        found
    }
}

/// Whether the byte position `pos` lies in the first word of `text`: before its first white
/// space, or anywhere where it has none.
pub fn in_first_word(pos: usize, text: &str) -> (r: bool)
    ensures
        r == within_first_word(pos as int, text@),
{
    before_first_space(pos, text)
}

/// The word at the byte position `pos` of `text`: the first run of word characters that holds
/// the position or ends at it, or the empty string.
pub fn word_at_pos(pos: usize, text: &str) -> (r: String)
    requires
        pos <= byte_len(text@),
    ensures
        r@ == token_text(pos as int, text@, TokenKind::Word),
{
    token_or_empty(pos, text, TokenKind::Word)
}

/// The file pattern at the byte position `pos` of `text`: the first run of path characters
/// and `*` with at least one `*` that holds the position or ends at it, or the empty string.
pub fn glob_at_pos(pos: usize, text: &str) -> (r: String)
    requires
        pos <= byte_len(text@),
    ensures
        r@ == token_text(pos as int, text@, TokenKind::Pattern),
{
    token_or_empty(pos, text, TokenKind::Pattern)
}

/// The variable reference at the byte position `pos` of `text`, or the empty string.
pub fn env_var_at_pos(pos: usize, text: &str) -> (r: String)
    requires
        pos <= byte_len(text@),
    ensures
        r@ == variable_at(pos as int, text@),
{
    find_variable(pos, text, TokenKind::Bracketed)
}

/// The variable reference at the byte position `pos` of `text`, which may be an unfinished
/// bracketed one, or the empty string.
pub fn partial_env_var_at_pos(pos: usize, text: &str) -> (r: String)
    requires
        pos <= byte_len(text@),
    ensures
        r@ == unfinished_variable_at(pos as int, text@),
{
    find_variable(pos, text, TokenKind::Unfinished)
}

/// Replaces the variable references in `data` by the values that `map` gives: `${NAME}`
/// wherever it stands, `$NAME` where the whole reference names the variable.
pub fn replace_vars(data: &str, map: &StringMap) -> (r: String)
    requires
        map.wf(),
    ensures
        r@ == substitution(map@, data@),
        !has_char(data@, '$') ==> r@ == data@,
{
    substitute(data, map)
}

/// The paths that the file pattern `input` stands for, given the paths `found` that match it:
/// those paths, or the pattern itself where there is none.
pub fn expand_glob(input: &str, found: Vec<String>) -> (r: Vec<String>)
    ensures
        views(r@) == expansion(input@, views(found@)),
        r.len() >= 1,
{
    if found.len() == 0 {
        let mut r: Vec<String> = Vec::new();
        r.push(input.to_owned());
        assert(views(r@) == seq![input@]);
        r
    } else {
        found
    }
}

/// Appends `append` to the value of `key` in `map`, unless that value holds it already. A key
/// without a value gets the empty one first.
pub fn append_value_for_key(append: &str, key: &str, map: &mut StringMap)
    requires
        old(map).wf(),
    ensures
        final(map).wf(),
        final(map)@ == appended(old(map)@, key@, append@),
{
    append_to_key(map, key, append);
}

/// Replaces every `replace` in the value of `key` in `map` by `with`. A key without a value
/// gets the empty one first.
pub fn replace_value_for_key(replace: &str, with: &str, key: &str, map: &mut StringMap)
    requires
        old(map).wf(),
    ensures
        final(map).wf(),
        final(map)@ == replaced_in(old(map)@, key@, replace@, with@),
{
    replace_in_key(map, key, replace, with);
}

} // verus!
