//! Tokens in a line of text, and the token that stands at a byte position.

use crate::chars::{
    char_in_class, char_is_whitespace, in_class, lemma_run_end, run_end, scan_run, CharClass,
};
use crate::text::{range_string, to_chars};
use vstd::prelude::*;
use vstd::string::*;
use vstd::utf8::*;

verus! {

/// The number of bytes that the UTF-8 encoding of `c` takes.
pub open spec fn utf8_width(c: char) -> nat {
    let u = c as u32;
    if u < 0x80 {
        1
    } else if u < 0x800 {
        2
    } else if u < 0x10000 {
        3
    } else {
        4
    }
}

/// The number of bytes that the UTF-8 encoding of `t` takes.
pub open spec fn byte_len(t: Seq<char>) -> nat {
    encode_utf8(t).len()
}

/// The byte position at which the character of index `i` begins in the UTF-8 encoding of `t`.
pub open spec fn byte_index(t: Seq<char>, i: int) -> nat {
    byte_len(t.subrange(0, i))
}

proof fn lemma_encode_push(s: Seq<char>, c: char)
    ensures
        encode_utf8(s.push(c)) == encode_utf8(s) + encode_scalar(c as u32),
    decreases s.len(),
{
    if s.len() == 0 {
        assert(s.push(c).drop_first() == Seq::<char>::empty());
        assert(encode_utf8(s.push(c)) == encode_scalar(c as u32) + encode_utf8(
            Seq::<char>::empty(),
        ));
        assert(encode_utf8(s.push(c)) =~= encode_utf8(s) + encode_scalar(c as u32));
    } else {
        assert(s.push(c).drop_first() == s.drop_first().push(c));
        lemma_encode_push(s.drop_first(), c);
        assert(encode_utf8(s.push(c)) =~= encode_utf8(s) + encode_scalar(c as u32));
    }
}

/// The byte position of a character is that of the one before it plus the width of that one.
pub proof fn lemma_byte_index_step(t: Seq<char>, i: int)
    requires
        0 <= i < t.len(),
    ensures
        byte_index(t, i + 1) == byte_index(t, i) + utf8_width(t[i]),
        byte_index(t, 0) == 0,
{
    assert(t.subrange(0, i + 1) == t.subrange(0, i).push(t[i]));
    lemma_encode_push(t.subrange(0, i), t[i]);
    char_is_scalar(t[i]);
    assert(t.subrange(0, 0) == Seq::<char>::empty());
}

/// Byte positions grow with the index, up to the length of the encoding.
pub proof fn lemma_byte_index_monotone(t: Seq<char>, i: int, j: int)
    requires
        0 <= i <= j <= t.len(),
    ensures
        byte_index(t, i) <= byte_index(t, j) <= byte_len(t),
        j - i <= byte_index(t, j) - byte_index(t, i),
    decreases t.len() - i,
{
    if i < j {
        lemma_byte_index_step(t, i);
        lemma_byte_index_monotone(t, i + 1, j);
    } else if j < t.len() {
        lemma_byte_index_step(t, j);
        lemma_byte_index_monotone(t, j + 1, t.len() as int);
    } else {
        assert(t.subrange(0, t.len() as int) == t);
    }
}

/// The number of bytes that the UTF-8 encoding of `c` takes.
pub fn char_width(c: char) -> (w: usize)
    ensures
        w == utf8_width(c),
        1 <= w <= 4,
{
    let u: u32 = c as u32;
    if u < 0x80 {
        1
    } else if u < 0x800 {
        2
    } else if u < 0x10000 {
        3
    } else {
        4
    }
}

/// The kinds of token that are looked for in a line.
#[derive(Clone, Copy, PartialEq, Eq, Structural)]
pub enum TokenKind {
    /// A run of word characters.
    Word,
    /// A bare variable reference: `$` and the run of name characters behind it.
    Variable,
    /// A bracketed variable reference: `${`, a run of at least one name character, and `}`.
    Bracketed,
    /// A bracketed variable reference that may be unfinished: `${`, a run of name characters,
    /// and `}` if it follows.
    Unfinished,
    /// A file pattern: a run of path characters and `*` that holds at least one `*`.
    Pattern,
}

/// Whether `t` holds `*` at an index from `i` up to `e`.
pub open spec fn star_in(t: Seq<char>, i: int, e: int) -> bool {
    exists|j: int| i <= j < e && j < t.len() && t[j] == '*'
}

/// Where the token of `kind` that begins at `i` ends, if one begins there.
pub open spec fn token_end(t: Seq<char>, kind: TokenKind, i: int) -> Option<int> {
    if i < 0 || i >= t.len() {
        None
    } else {
        match kind {
            TokenKind::Word => if in_class(CharClass::Word, t[i]) {
                Some(run_end(t, CharClass::Word, i))
            } else {
                None
            },
            TokenKind::Variable => if t[i] == '$' {
                Some(run_end(t, CharClass::Name, i + 1))
            } else {
                None
            },
            TokenKind::Bracketed => {
                let e = run_end(t, CharClass::Name, i + 2);
                if t[i] == '$' && i + 1 < t.len() && t[i + 1] == '{' && i + 2 < e < t.len() && t[e]
                    == '}' {
                    Some(e + 1)
                } else {
                    None
                }
            },
            TokenKind::Unfinished => {
                let e = run_end(t, CharClass::Name, i + 2);
                if t[i] == '$' && i + 1 < t.len() && t[i + 1] == '{' {
                    if e < t.len() && t[e] == '}' {
                        Some(e + 1)
                    } else {
                        Some(e)
                    }
                } else {
                    None
                }
            },
            TokenKind::Pattern => {
                let e = run_end(t, CharClass::Pattern, i);
                if star_in(t, i, e) {
                    Some(e)
                } else {
                    None
                }
            },
        }
    }
}

/// A token ends behind its beginning and inside the text.
pub proof fn lemma_token_end(t: Seq<char>, kind: TokenKind, i: int)
    ensures
        token_end(t, kind, i) matches Some(e) ==> 0 <= i < e <= t.len(),
{
    if 0 <= i < t.len() {
        lemma_run_end(t, CharClass::Word, i);
        lemma_run_end(t, CharClass::Name, i + 1);
        lemma_run_end(t, CharClass::Pattern, i);
        if i + 2 <= t.len() {
            lemma_run_end(t, CharClass::Name, i + 2);
        }
    }
}

/// The first token of `kind` from index `i` on whose bytes, the position just behind them
/// included, hold the byte position `pos`. Tokens are taken from the left and do not overlap.
pub open spec fn token_at_from(t: Seq<char>, kind: TokenKind, pos: int, i: int) -> Option<
    (int, int),
>
    decreases t.len() - i,
{
    if i < 0 || i >= t.len() {
        None
    } else {
        match token_end(t, kind, i) {
            Some(e) => {
                proof {
                    lemma_token_end(t, kind, i);
                }
                if byte_index(t, i) <= pos <= byte_index(t, e) {
                    Some((i, e))
                } else {
                    token_at_from(t, kind, pos, e)
                }
            },
            None => token_at_from(t, kind, pos, i + 1),
        }
    }
}

/// The characters of the first token of `kind` in `t` that holds the byte position `pos`.
pub open spec fn token_at(t: Seq<char>, kind: TokenKind, pos: int) -> Option<Seq<char>> {
    match token_at_from(t, kind, pos, 0) {
        Some((i, e)) => Some(t.subrange(i, e)),
        None => None,
    }
}

/// A token that is found holds at least one character.
pub proof fn lemma_token_at_nonempty(t: Seq<char>, kind: TokenKind, pos: int)
    ensures
        token_at(t, kind, pos) matches Some(s) ==> s.len() > 0,
{
    lemma_token_at_from(t, kind, pos, 0);
}

proof fn lemma_token_at_from(t: Seq<char>, kind: TokenKind, pos: int, i: int)
    requires
        0 <= i,
    ensures
        token_at_from(t, kind, pos, i) matches Some((s, e)) ==> i <= s < e <= t.len(),
    decreases t.len() - i,
{
    if i < t.len() {
        lemma_token_end(t, kind, i);
        match token_end(t, kind, i) {
            Some(e) => {
                if !(byte_index(t, i) <= pos <= byte_index(t, e)) {
                    lemma_token_at_from(t, kind, pos, e);
                }
            },
            None => {
                lemma_token_at_from(t, kind, pos, i + 1);
            },
        }
    }
}

/// Finds where the token of `kind` that begins at `i` ends.
pub fn scan_token(t: &Vec<char>, kind: TokenKind, i: usize) -> (r: Option<usize>)
    requires
        i < t.len(),
    ensures
        match r {
            Some(e) => token_end(t@, kind, i as int) == Some(e as int) && i < e <= t.len(),
            None => token_end(t@, kind, i as int).is_none(),
        },
{
    proof {
        lemma_token_end(t@, kind, i as int);
    }
    match kind {
        TokenKind::Word => {
            if char_in_class(CharClass::Word, t[i]) {
                Some(scan_run(t, CharClass::Word, i))
            } else {
                None
            }
        },
        TokenKind::Variable => {
            if t[i] == '$' {
                Some(scan_run(t, CharClass::Name, i + 1))
            } else {
                None
            }
        },
        TokenKind::Bracketed => {
            if t[i] == '$' && i + 1 < t.len() && t[i + 1] == '{' {
                let e = scan_run(t, CharClass::Name, i + 2);
                if i + 2 < e && e < t.len() && t[e] == '}' {
                    Some(e + 1)
                } else {
                    None
                }
            } else {
                None
            }
        },
        TokenKind::Unfinished => {
            if t[i] == '$' && i + 1 < t.len() && t[i + 1] == '{' {
                let e = scan_run(t, CharClass::Name, i + 2);
                if e < t.len() && t[e] == '}' {
                    Some(e + 1)
                } else {
                    Some(e)
                }
            } else {
                None
            }
        },
        TokenKind::Pattern => {
            let e = scan_run(t, CharClass::Pattern, i);
            let mut j: usize = i;
            while j < e
                invariant
                    i <= j <= e <= t.len(),
                    kind == TokenKind::Pattern,
                    e == run_end(t@, CharClass::Pattern, i as int),
                    !star_in(t@, i as int, j as int),
                decreases e - j,
            {
                if t[j] == '*' {
                    assert(star_in(t@, i as int, e as int)) by {
                        assert(i <= j < e && j < t.len() && t@[j as int] == '*');
                    }
                    return Some(e);
                }
                j += 1;
            }
            None
        },
    }
}

/// Finds the first token of `kind` in `t` that holds the byte position `pos`.
pub fn find_token(t: &Vec<char>, kind: TokenKind, pos: usize) -> (r: Option<String>)
    requires
        byte_len(t@) <= usize::MAX,
    ensures
        match r {
            Some(s) => token_at(t@, kind, pos as int) == Some(s@),
            None => token_at(t@, kind, pos as int).is_none(),
        },
{
    let mut i: usize = 0;
    let mut at: usize = 0;
    proof {
        assert(t@.subrange(0, 0) == Seq::<char>::empty());
    }
    while i < t.len()
        invariant
            i <= t.len(),
            byte_len(t@) <= usize::MAX,
            at == byte_index(t@, i as int),
            token_at_from(t@, kind, pos as int, i as int) == token_at_from(
                t@,
                kind,
                pos as int,
                0,
            ),
        decreases t.len() - i,
    {
        match scan_token(t, kind, i) {
            Some(e) => {
                let mut end: usize = at;
                let mut j: usize = i;
                while j < e
                    invariant
                        i <= j <= e <= t.len(),
                        byte_len(t@) <= usize::MAX,
                        end == byte_index(t@, j as int),
                    decreases e - j,
                {
                    proof {
                        lemma_byte_index_step(t@, j as int);
                        lemma_byte_index_monotone(t@, j + 1, t.len() as int);
                    }
                    end += char_width(t[j]);
                    j += 1;
                }
                if at <= pos && pos <= end {
                    return Some(range_string(t, i, e));
                }
                i = e;
                at = end;
            },
            None => {
                proof {
                    lemma_byte_index_step(t@, i as int);
                    lemma_byte_index_monotone(t@, i + 1, t.len() as int);
                }
                at += char_width(t[i]);
                i += 1;
            },
        }
    }
    None
}

/// The token of `kind` at the byte position `pos` of `text`, or the empty string.
pub fn token_or_empty(pos: usize, text: &str, kind: TokenKind) -> (r: String)
    ensures
        r@ == match token_at(text@, kind, pos as int) {
            Some(s) => s,
            None => Seq::empty(),
        },
{
    let t = to_chars(text);
    let bytes = text.as_bytes();
    let n: usize = bytes.len();
    assert(byte_len(t@) == n);
    match find_token(&t, kind, pos) {
        Some(s) => s,
        None => String::new(),
    }
}

/// The index of the first white space character of `t` from `i` on, or the length of `t`.
pub open spec fn first_space_from(t: Seq<char>, i: int) -> int {
    run_end(t, CharClass::Visible, i)
}

/// Whether the byte position `pos` lies before the first white space of `t`; it does wherever
/// `t` has no white space.
pub open spec fn within_first_word(pos: int, t: Seq<char>) -> bool {
    let w = first_space_from(t, 0);
    w < t.len() ==> pos < byte_index(t, w)
}

/// Tests whether the byte position `pos` lies before the first white space of `text`.
pub fn before_first_space(pos: usize, text: &str) -> (r: bool)
    ensures
        r == within_first_word(pos as int, text@),
{
    let t = to_chars(text);
    let bytes = text.as_bytes();
    let n: usize = bytes.len();
    assert(byte_len(t@) == n);
    let mut i: usize = 0;
    let mut at: usize = 0;
    proof {
        assert(t@.subrange(0, 0) == Seq::<char>::empty());
    }
    while i < t.len() && !char_is_whitespace(t[i])
        invariant
            i <= t.len(),
            byte_len(t@) <= usize::MAX,
            at == byte_index(t@, i as int),
            first_space_from(t@, 0) == first_space_from(t@, i as int),
        decreases t.len() - i,
    {
        proof {
            lemma_byte_index_step(t@, i as int);
            lemma_byte_index_monotone(t@, i + 1, t.len() as int);
        }
        at += char_width(t[i]);
        i += 1;
    }
    if i < t.len() {
        pos < at
    } else {
        true
    }
}

} // verus!
