//! Character classes used by the scanners of the shell.

use vstd::prelude::*;

verus! {

/// Whether `c` is a word character in the sense of the regular expression class `\w`
/// (Unicode `Alphabetic`, `Join_Control`, `Decimal_Number`, `Mark`, `Connector_Punctuation`).
pub uninterp spec fn word_char(c: char) -> bool;

/// Calls `regex_syntax::try_is_word_character`, which looks `c` up in the table from which the
/// class `\w` of regular expressions is made, and answers an error, which never comes with
/// the Unicode tables that this crate is built with, by `false`. The result depends on `c`
/// alone.
#[verifier::external_body]
pub(crate) fn is_word_char(c: char) -> (r: bool)
    ensures
        r == word_char(c),
{
    match regex_syntax::try_is_word_character(c) {
        Ok(found) => found,
        Err(_) => false,
    }
}

/// Whether `c` has the Unicode `White_Space` property.
pub open spec fn is_whitespace(c: char) -> bool {
    let u = c as u32;
    (0x09 <= u <= 0x0d) || u == 0x20 || u == 0x85 || u == 0xa0 || u == 0x1680 || (0x2000 <= u
        <= 0x200a) || u == 0x2028 || u == 0x2029 || u == 0x202f || u == 0x205f || u == 0x3000
}

/// Whether `c` may follow the `$` of a variable reference: a word character or one of
/// `? - # ! $ _ @ *`.
pub open spec fn name_char(c: char) -> bool {
    word_char(c) || c == '?' || c == '-' || c == '#' || c == '!' || c == '$' || c == '_' || c
        == '@' || c == '*'
}

/// Whether `c` may stand in a file pattern beside `*`: a word character or one of `. \ /`.
pub open spec fn path_char(c: char) -> bool {
    word_char(c) || c == '.' || c == '\\' || c == '/'
}

/// The character classes that the scanners take runs of.
#[derive(Clone, Copy, PartialEq, Eq, Structural)]
pub enum CharClass {
    /// Characters with the `White_Space` property.
    Space,
    /// All other characters.
    Visible,
    /// Word characters.
    Word,
    /// Characters of a variable name.
    Name,
    /// Characters of a file pattern, `*` included.
    Pattern,
}

/// Whether `c` belongs to `class`.
pub open spec fn in_class(class: CharClass, c: char) -> bool {
    match class {
        CharClass::Space => is_whitespace(c),
        CharClass::Visible => !is_whitespace(c),
        CharClass::Word => word_char(c),
        CharClass::Name => name_char(c),
        CharClass::Pattern => path_char(c) || c == '*',
    }
}

/// Tests a character for the Unicode `White_Space` property.
pub fn char_is_whitespace(c: char) -> (r: bool)
    ensures
        r == is_whitespace(c),
{
    let u: u32 = c as u32;
    (0x09 <= u && u <= 0x0d) || u == 0x20 || u == 0x85 || u == 0xa0 || u == 0x1680 || (0x2000 <= u
        && u <= 0x200a) || u == 0x2028 || u == 0x2029 || u == 0x202f || u == 0x205f || u == 0x3000
}

/// Tests whether `c` belongs to `class`.
pub fn char_in_class(class: CharClass, c: char) -> (r: bool)
    ensures
        r == in_class(class, c),
{
    match class {
        CharClass::Space => char_is_whitespace(c),
        CharClass::Visible => !char_is_whitespace(c),
        CharClass::Word => is_word_char(c),
        CharClass::Name => is_word_char(c) || c == '?' || c == '-' || c == '#' || c == '!' || c
            == '$' || c == '_' || c == '@' || c == '*',
        CharClass::Pattern => is_word_char(c) || c == '.' || c == '\\' || c == '/' || c == '*',
    }
}

/// The end of the longest run of characters of `class` that starts at `i`: the first index
/// from `i` on whose character is outside the class, or the length of `t`.
pub open spec fn run_end(t: Seq<char>, class: CharClass, i: int) -> int
    decreases t.len() - i,
{
    if 0 <= i < t.len() && in_class(class, t[i]) {
        run_end(t, class, i + 1)
    } else {
        i
    }
}

/// A run ends at or after its start, inside the text, on a character outside the class, and
/// holds characters of the class only.
pub proof fn lemma_run_end(t: Seq<char>, class: CharClass, i: int)
    requires
        0 <= i <= t.len(),
    ensures
        i <= run_end(t, class, i) <= t.len(),
        run_end(t, class, i) < t.len() ==> !in_class(class, t[run_end(t, class, i)]),
        forall|j: int| i <= j < run_end(t, class, i) ==> in_class(class, #[trigger] t[j]),
    decreases t.len() - i,
{
    if i < t.len() && in_class(class, t[i]) {
        lemma_run_end(t, class, i + 1);
    }
}

/// Finds the end of the run of `class` that starts at `i`.
pub fn scan_run(t: &Vec<char>, class: CharClass, i: usize) -> (e: usize)
    requires
        i <= t.len(),
    ensures
        e == run_end(t@, class, i as int),
        i <= e <= t.len(),
{
    let mut e: usize = i;
    while e < t.len() && char_in_class(class, t[e])
        invariant
            i <= e <= t.len(),
            run_end(t@, class, i as int) == run_end(t@, class, e as int),
        decreases t.len() - e,
    {
        e += 1;
    }
    e
}

} // verus!
