//! Strings as sequences of characters: conversion, search, replacement, splitting and joining.

use crate::chars::{char_is_whitespace, is_whitespace, lemma_run_end, run_end, scan_run, CharClass};
use vstd::prelude::*;
use vstd::std_specs::iter::IteratorSpec;
use vstd::string::*;

verus! {

/// `String::push` appends one character to the end of the string.
pub assume_specification[ String::push ](s: &mut String, c: char)
    ensures
        final(s)@ == old(s)@.push(c),
;

/// The character sequences of a sequence of strings.
pub open spec fn views(v: Seq<String>) -> Seq<Seq<char>> {
    Seq::new(v.len(), |i: int| v[i]@)
}

/// The characters of a string.
pub fn to_chars(s: &str) -> (v: Vec<char>)
    ensures
        v@ == s@,
{
    broadcast use vstd::string::group_string_axioms;

    let n: usize = s.unicode_len();
    let mut v: Vec<char> = Vec::new();
    let mut rest = s.chars();
    let mut i: usize = 0;
    while i < n
        invariant
            i <= n,
            n == s@.len(),
            v.len() == i,
            v@ + rest.remaining() == s@,
        decreases n - i,
    {
        let ghost before = rest.remaining();
        assert(before.len() == n - i);
        match rest.next() {
            Some(c) => {
                v.push(c);
                assert(before == seq![c] + rest.remaining());
            },
            None => {},
        }
        i += 1;
    }
    assert(rest.remaining().len() == 0);
    assert(v@ + Seq::<char>::empty() == v@);
    v
}

/// Appends the characters `t[from..to]` to `out`.
pub fn push_range(out: &mut String, t: &Vec<char>, from: usize, to: usize)
    requires
        from <= to <= t.len(),
    ensures
        final(out)@ == old(out)@ + t@.subrange(from as int, to as int),
{
    let mut i: usize = from;
    while i < to
        invariant
            from <= i <= to <= t.len(),
            out@ == old(out)@ + t@.subrange(from as int, i as int),
        decreases to - i,
    {
        out.push(t[i]);
        i += 1;
    }
}

/// The string made of the characters `t[from..to]`.
pub fn range_string(t: &Vec<char>, from: usize, to: usize) -> (s: String)
    requires
        from <= to <= t.len(),
    ensures
        s@ == t@.subrange(from as int, to as int),
{
    let mut s = String::new();
    push_range(&mut s, t, from, to);
    s
}

/// The string made of the characters of `t`.
pub fn chars_string(t: &Vec<char>) -> (s: String)
    ensures
        s@ == t@,
{
    let s = range_string(t, 0, t.len());
    assert(t@.subrange(0, t.len() as int) == t@);
    s
}

/// Whether two strings hold the same characters.
pub fn str_eq(a: &str, b: &str) -> (r: bool)
    ensures
        r == (a@ == b@),
{
    let x = a.to_owned();
    let y = b.to_owned();
    x == y
}

/// Whether `t` holds the character `c`.
pub open spec fn has_char(t: Seq<char>, c: char) -> bool {
    exists|i: int| 0 <= i < t.len() && t[i] == c
}

/// Whether `p` stands in `t` at index `i`.
pub open spec fn occurs_at(t: Seq<char>, p: Seq<char>, i: int) -> bool {
    0 <= i && i + p.len() <= t.len() && t.subrange(i, i + p.len()) == p
}

/// Whether `p` stands somewhere in `t`.
pub open spec fn contains_sub(t: Seq<char>, p: Seq<char>) -> bool {
    exists|i: int| occurs_at(t, p, i)
}

/// Tests whether `p` stands in `t` at index `i`.
pub fn matches_at(t: &Vec<char>, p: &Vec<char>, i: usize) -> (r: bool)
    ensures
        r == occurs_at(t@, p@, i as int),
{
    if i > t.len() || p.len() > t.len() - i {
        return false;
    }
    let mut j: usize = 0;
    while j < p.len()
        invariant
            j <= p.len(),
            i + p.len() <= t.len(),
            t@.subrange(i as int, i + j) == p@.subrange(0, j as int),
        decreases p.len() - j,
    {
        if t[i + j] != p[j] {
            assert(t@.subrange(i as int, i + p.len())[j as int] != p@[j as int]);
            return false;
        }
        assert(t@.subrange(i as int, i + j + 1) == t@.subrange(i as int, i + j).push(t@[i + j]));
        assert(p@.subrange(0, j + 1) == p@.subrange(0, j as int).push(p@[j as int]));
        j += 1;
    }
    assert(p@.subrange(0, p.len() as int) == p@);
    true
}

/// Tests whether `p` stands somewhere in `t`.
pub fn contains_chars(t: &Vec<char>, p: &Vec<char>) -> (r: bool)
    ensures
        r == contains_sub(t@, p@),
{
    let mut i: usize = 0;
    while i < t.len()
        invariant
            i <= t.len(),
            forall|k: int| 0 <= k < i ==> !occurs_at(t@, p@, k),
        decreases t.len() - i,
    {
        if matches_at(t, p, i) {
            return true;
        }
        i += 1;
    }
    matches_at(t, p, i)
}

/// What replacing every occurrence of `p` in `t[i..]` by `w` gives, the occurrences taken from
/// the left and not overlapping. An empty `p` occurs before every character and at the end.
pub open spec fn replaced_from(t: Seq<char>, p: Seq<char>, w: Seq<char>, i: int) -> Seq<char>
    decreases t.len() - i,
{
    if i < 0 || i >= t.len() {
        if p.len() == 0 && i == t.len() {
            w
        } else {
            Seq::empty()
        }
    } else if p.len() == 0 {
        w + seq![t[i]] + replaced_from(t, p, w, i + 1)
    } else if occurs_at(t, p, i) {
        w + replaced_from(t, p, w, i + p.len())
    } else {
        seq![t[i]] + replaced_from(t, p, w, i + 1)
    }
}

/// What replacing every occurrence of `p` in `t` by `w` gives.
pub open spec fn replaced(t: Seq<char>, p: Seq<char>, w: Seq<char>) -> Seq<char> {
    replaced_from(t, p, w, 0)
}

/// A text holds a string of one character exactly where it holds the character.
pub proof fn lemma_contains_one(t: Seq<char>, c: char)
    ensures
        contains_sub(t, seq![c]) <==> has_char(t, c),
{
    if has_char(t, c) {
        let i = choose|i: int| 0 <= i < t.len() && t[i] == c;
        assert(t.subrange(i, i + 1) =~= seq![c]);
        assert(occurs_at(t, seq![c], i));
    }
    if contains_sub(t, seq![c]) {
        let i = choose|i: int| occurs_at(t, seq![c], i);
        assert(t.subrange(i, i + 1)[0] == c);
        assert(t[i] == c);
    }
}

/// A text with a character appended holds that character and those it held.
pub proof fn lemma_has_char_push(t: Seq<char>, c: char, d: char)
    ensures
        has_char(t + seq![c], d) <==> (has_char(t, d) || d == c),
{
    let u = t + seq![c];
    if has_char(t, d) {
        let i = choose|i: int| 0 <= i < t.len() && t[i] == d;
        assert(u[i] == d);
    }
    if d == c {
        assert(u[t.len() as int] == c);
    }
    if has_char(u, d) {
        let i = choose|i: int| 0 <= i < u.len() && u[i] == d;
        if i < t.len() {
            assert(t[i] == d);
        }
    }
}

proof fn lemma_removed_from(t: Seq<char>, c: char, d: char, i: int)
    requires
        0 <= i <= t.len(),
    ensures
        has_char(replaced_from(t, seq![c], Seq::empty(), i), d) <==> (d != c && exists|j: int|
            i <= j < t.len() && t[j] == d),
    decreases t.len() - i,
{
    let r = replaced_from(t, seq![c], Seq::empty(), i);
    if i < t.len() {
        lemma_removed_from(t, c, d, i + 1);
        let rest = replaced_from(t, seq![c], Seq::empty(), i + 1);
        if occurs_at(t, seq![c], i) {
            assert(t.subrange(i, i + 1)[0] == c);
            assert(r =~= rest);
            if d != c && (exists|j: int| i <= j < t.len() && t[j] == d) {
                let j = choose|j: int| i <= j < t.len() && t[j] == d;
                assert(i + 1 <= j < t.len() && t[j] == d);
            }
        } else {
            assert(t[i] != c) by {
                if t[i] == c {
                    assert(t.subrange(i, i + 1) =~= seq![c]);
                }
            }
            assert(r =~= seq![t[i]] + rest);
            if has_char(r, d) {
                let k = choose|k: int| 0 <= k < r.len() && r[k] == d;
                if k > 0 {
                    assert(rest[k - 1] == d);
                }
            }
            if d != c && (exists|j: int| i <= j < t.len() && t[j] == d) {
                let j = choose|j: int| i <= j < t.len() && t[j] == d;
                if j == i {
                    assert(r[0] == d);
                } else {
                    assert(i + 1 <= j < t.len() && t[j] == d);
                    let k = choose|k: int| 0 <= k < rest.len() && rest[k] == d;
                    assert(r[k + 1] == d);
                }
            }
        }
    }
}

/// A text from which every occurrence of a character was taken out holds the other
/// characters that it held, and no others.
pub proof fn lemma_removed(t: Seq<char>, c: char, d: char)
    ensures
        has_char(replaced(t, seq![c], Seq::empty()), d) <==> (d != c && has_char(t, d)),
{
    lemma_removed_from(t, c, d, 0);
}

/// Replaces every occurrence of `p` in `t` by `w`.
pub fn replace_chars(t: &Vec<char>, p: &Vec<char>, w: &Vec<char>) -> (r: Vec<char>)
    ensures
        r@ == replaced(t@, p@, w@),
{
    let mut r: Vec<char> = Vec::new();
    let mut i: usize = 0;
    while i < t.len()
        invariant
            i <= t.len(),
            r@ + replaced_from(t@, p@, w@, i as int) == replaced(t@, p@, w@),
        decreases t.len() - i,
    {
        let ghost before = r@;
        if p.len() == 0 {
            append_chars(&mut r, w);
            r.push(t[i]);
            assert(r@ == before + (w@ + seq![t@[i as int]]));
            i += 1;
        } else if matches_at(t, p, i) {
            append_chars(&mut r, w);
            i += p.len();
        } else {
            r.push(t[i]);
            assert(r@ == before + seq![t@[i as int]]);
            i += 1;
        }
    }
    if p.len() == 0 {
        append_chars(&mut r, w);
    } else {
        assert(r@ + Seq::<char>::empty() == r@);
    }
    r
}

/// Appends the characters of `w` to `out`.
pub fn append_chars(out: &mut Vec<char>, w: &Vec<char>)
    ensures
        final(out)@ == old(out)@ + w@,
{
    let mut j: usize = 0;
    while j < w.len()
        invariant
            j <= w.len(),
            out@ == old(out)@ + w@.subrange(0, j as int),
        decreases w.len() - j,
    {
        out.push(w[j]);
        j += 1;
    }
    assert(w@.subrange(0, w.len() as int) == w@);
}

/// The index of the first `c` in `t` from `i` on, or the length of `t`.
pub open spec fn first_index_from(t: Seq<char>, c: char, i: int) -> int
    decreases t.len() - i,
{
    if 0 <= i < t.len() && t[i] != c {
        first_index_from(t, c, i + 1)
    } else {
        i
    }
}

/// The index of the first `c` in `t`, if there is one.
pub open spec fn first_index(t: Seq<char>, c: char) -> Option<int> {
    if first_index_from(t, c, 0) < t.len() {
        Some(first_index_from(t, c, 0))
    } else {
        None
    }
}

/// The first `c` stands at the index found, and not before it.
pub proof fn lemma_first_index_from(t: Seq<char>, c: char, i: int)
    requires
        0 <= i <= t.len(),
    ensures
        i <= first_index_from(t, c, i) <= t.len(),
        first_index_from(t, c, i) < t.len() ==> t[first_index_from(t, c, i)] == c,
        forall|j: int| i <= j < first_index_from(t, c, i) ==> #[trigger] t[j] != c,
    decreases t.len() - i,
{
    if i < t.len() && t[i] != c {
        lemma_first_index_from(t, c, i + 1);
    }
}

/// Finds the first `c` in `t`.
pub fn find_char(t: &Vec<char>, c: char) -> (r: Option<usize>)
    ensures
        match r {
            Some(i) => first_index(t@, c) == Some(i as int) && i < t.len(),
            None => first_index(t@, c).is_none(),
        },
{
    let mut i: usize = 0;
    while i < t.len()
        invariant
            i <= t.len(),
            first_index_from(t@, c, 0) == first_index_from(t@, c, i as int),
        decreases t.len() - i,
    {
        if t[i] == c {
            return Some(i);
        }
        i += 1;
    }
    None
}

/// The words of `t[i..]`: the longest runs of characters that are not white space.
pub open spec fn words_from(t: Seq<char>, i: int) -> Seq<Seq<char>>
    decreases t.len() - i,
{
    if i < 0 || i >= t.len() {
        Seq::empty()
    } else if is_whitespace(t[i]) {
        words_from(t, i + 1)
    } else {
        proof {
            lemma_run_end(t, CharClass::Visible, i + 1);
        }
        let e = run_end(t, CharClass::Visible, i);
        seq![t.subrange(i, e)] + words_from(t, e)
    }
}

/// The words of `t`, split at white space.
pub open spec fn words(t: Seq<char>) -> Seq<Seq<char>> {
    words_from(t, 0)
}

/// Splits a string at white space into its words.
pub fn split_words(t: &Vec<char>) -> (r: Vec<String>)
    ensures
        views(r@) == words(t@),
{
    let mut r: Vec<String> = Vec::new();
    let mut i: usize = 0;
    while i < t.len()
        invariant
            i <= t.len(),
            views(r@) + words_from(t@, i as int) == words(t@),
        decreases t.len() - i,
    {
        if char_is_whitespace(t[i]) {
            i += 1;
        } else {
            proof {
                lemma_run_end(t@, CharClass::Visible, i as int + 1);
            }
            let e = scan_run(t, CharClass::Visible, i);
            let word = range_string(t, i, e);
            let ghost before = views(r@);
            r.push(word);
            assert(views(r@) == before + seq![t@.subrange(i as int, e as int)]);
            i = e;
        }
    }
    assert(views(r@) + Seq::<Seq<char>>::empty() == views(r@));
    r
}

/// Where the last character among the first `n` of `t` that is no white space ends: the index
/// behind it, or zero where there is none.
pub open spec fn visible_end(t: Seq<char>, n: int) -> int
    decreases n,
{
    if n <= 0 || n > t.len() {
        0
    } else if is_whitespace(t[n - 1]) {
        visible_end(t, n - 1)
    } else {
        n
    }
}

/// `t` without the white space at its beginning and at its end.
pub open spec fn trimmed(t: Seq<char>) -> Seq<char> {
    let from = run_end(t, CharClass::Space, 0);
    let to = visible_end(t, t.len() as int);
    if from >= to {
        Seq::empty()
    } else {
        t.subrange(from, to)
    }
}

/// Takes the white space off the beginning and the end of a string.
pub fn trim(t: &Vec<char>) -> (r: Vec<char>)
    ensures
        r@ == trimmed(t@),
{
    let from = scan_run(t, CharClass::Space, 0);
    let mut to: usize = t.len();
    while to > 0 && char_is_whitespace(t[to - 1])
        invariant
            to <= t.len(),
            visible_end(t@, t.len() as int) == visible_end(t@, to as int),
        decreases to,
    {
        to -= 1;
    }
    let mut r: Vec<char> = Vec::new();
    if from < to {
        let mut i: usize = from;
        while i < to
            invariant
                from <= i <= to <= t.len(),
                r@ == t@.subrange(from as int, i as int),
            decreases to - i,
        {
            r.push(t[i]);
            i += 1;
        }
    }
    r
}

/// The strings of `lines[i..]`, each followed by a line feed.
pub open spec fn lines_text_from(lines: Seq<Seq<char>>, i: int) -> Seq<char>
    decreases lines.len() - i,
{
    if i < 0 || i >= lines.len() {
        Seq::empty()
    } else {
        lines[i] + "\n"@ + lines_text_from(lines, i + 1)
    }
}

/// The text that holds each of `lines` as a line.
pub open spec fn lines_text(lines: Seq<Seq<char>>) -> Seq<char> {
    lines_text_from(lines, 0)
}

/// The text that holds each of `lines` as a line.
pub fn lines_string(lines: &Vec<String>) -> (r: String)
    ensures
        r@ == lines_text(views(lines@)),
{
    let mut r = String::new();
    let mut i: usize = 0;
    while i < lines.len()
        invariant
            i <= lines.len(),
            r@ + lines_text_from(views(lines@), i as int) == lines_text(views(lines@)),
        decreases lines.len() - i,
    {
        let ghost before = r@;
        r.append(lines[i].as_str());
        r.append("\n");
        assert(r@ == before + (lines@[i as int]@ + "\n"@));
        i += 1;
    }
    assert(r@ + Seq::<char>::empty() == r@);
    r
}

/// The strings of `w[i..]`, each after the first preceded by `sep`.
pub open spec fn joined_from(w: Seq<Seq<char>>, sep: Seq<char>, i: int) -> Seq<char>
    decreases w.len() - i,
{
    if i < 0 || i >= w.len() {
        Seq::empty()
    } else if i == 0 {
        w[i] + joined_from(w, sep, i + 1)
    } else {
        sep + w[i] + joined_from(w, sep, i + 1)
    }
}

/// The strings of `w` with `sep` between them.
pub open spec fn joined(w: Seq<Seq<char>>, sep: Seq<char>) -> Seq<char> {
    joined_from(w, sep, 0)
}

/// Joins strings with a separator between them.
pub fn join(w: &Vec<String>, sep: &str) -> (r: String)
    ensures
        r@ == joined(views(w@), sep@),
{
    let mut r = String::new();
    let mut i: usize = 0;
    while i < w.len()
        invariant
            i <= w.len(),
            r@ + joined_from(views(w@), sep@, i as int) == joined(views(w@), sep@),
        decreases w.len() - i,
    {
        let ghost before = r@;
        if i > 0 {
            r.append(sep);
        }
        r.append(w[i].as_str());
        assert(r@ == before + ((if i > 0 { sep@ } else { Seq::empty() }) + w@[i as int]@));
        i += 1;
    }
    assert(r@ + Seq::<char>::empty() == r@);
    r
}

} // verus!
