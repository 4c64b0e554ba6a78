//! The environment of the session: variables and their values.

use crate::scan::{byte_len, token_at, token_or_empty, TokenKind};
use crate::string_map::StringMap;
use crate::string_set::StringSet;
use crate::string_map::{ordered_keys, ordered_values};
use crate::subst::{substitute, substitution};
use crate::text::{
    chars_string, contains_chars, contains_sub, has_char, lines_string, lines_text, replace_chars,
    replaced, to_chars, views,
};
use vstd::prelude::*;
use vstd::string::*;

verus! {

/// The variables of the session, each with its value.
pub struct Env {
    vars: StringMap,
}

impl View for Env {
    type V = Map<Seq<char>, Seq<char>>;

    closed spec fn view(&self) -> Map<Seq<char>, Seq<char>> {
        self.vars@
    }
}

/// The map that a sequence of pairs gives when each pair in turn sets its key to its value.
pub open spec fn pairs_map(pairs: Seq<(Seq<char>, Seq<char>)>) -> Map<Seq<char>, Seq<char>>
    decreases pairs.len(),
{
    if pairs.len() == 0 {
        Map::empty()
    } else {
        pairs_map(pairs.drop_last()).insert(pairs.last().0, pairs.last().1)
    }
}

/// The character sequences of a sequence of pairs of strings.
pub open spec fn pair_views(pairs: Seq<(String, String)>) -> Seq<(Seq<char>, Seq<char>)> {
    Seq::new(pairs.len(), |i: int| (pairs[i].0@, pairs[i].1@))
}

/// The value of `key` in `m`, or the empty string where it has none.
pub open spec fn value_or_empty(m: Map<Seq<char>, Seq<char>>, key: Seq<char>) -> Seq<char> {
    if m.contains_key(key) {
        m[key]
    } else {
        Seq::empty()
    }
}

/// `m` after `value` was appended to the value of `key`, unless that value holds `value`
/// already. A key without a value counts as one with the empty value, and gets it.
pub open spec fn appended(m: Map<Seq<char>, Seq<char>>, key: Seq<char>, value: Seq<char>) -> Map<
    Seq<char>,
    Seq<char>,
> {
    let old = value_or_empty(m, key);
    m.insert(
        key,
        if contains_sub(old, value) {
            old
        } else {
            old + value
        },
    )
}

/// `m` after every `from` in the value of `key` was replaced by `to`. A key without a value
/// counts as one with the empty value, and gets it.
pub open spec fn replaced_in(
    m: Map<Seq<char>, Seq<char>>,
    key: Seq<char>,
    from: Seq<char>,
    to: Seq<char>,
) -> Map<Seq<char>, Seq<char>> {
    let old = value_or_empty(m, key);
    m.insert(
        key,
        if contains_sub(old, from) {
            replaced(old, from, to)
        } else {
            old
        },
    )
}

/// The variable reference at the byte position `pos` of `t`: the first bracketed reference
/// `${NAME}` that holds the position, else the first bare reference `$NAME` that does, else
/// nothing.
pub open spec fn variable_at(pos: int, t: Seq<char>) -> Seq<char> {
    match token_at(t, TokenKind::Bracketed, pos) {
        Some(s) => s,
        None => match token_at(t, TokenKind::Variable, pos) {
            Some(s) => s,
            None => Seq::empty(),
        },
    }
}

/// As `variable_at`, but a bracketed reference may lack its name or its closing bracket.
pub open spec fn unfinished_variable_at(pos: int, t: Seq<char>) -> Seq<char> {
    match token_at(t, TokenKind::Unfinished, pos) {
        Some(s) => s,
        None => match token_at(t, TokenKind::Variable, pos) {
            Some(s) => s,
            None => Seq::empty(),
        },
    }
}

/// The line `key=value`.
pub open spec fn assignment(key: Seq<char>, value: Seq<char>) -> Seq<char> {
    key + seq!['='] + value
}

/// The entries of `m` as pairs of key and value, in the ascending order of the keys.
pub open spec fn entries(m: Map<Seq<char>, Seq<char>>) -> Seq<(Seq<char>, Seq<char>)> {
    Seq::new(ordered_keys(m).len(), |i: int| (ordered_keys(m)[i], ordered_values(m)[i]))
}

/// The entries of `m` as lines `key=value`, in the ascending order of the keys.
pub open spec fn listing(m: Map<Seq<char>, Seq<char>>) -> Seq<Seq<char>> {
    Seq::new(
        ordered_keys(m).len(),
        |i: int| assignment(ordered_keys(m)[i], ordered_values(m)[i]),
    )
}

/// Appends `value` to the value of `key` in `map`, unless that value holds it already.
pub fn append_to_key(map: &mut StringMap, key: &str, value: &str)
    requires
        old(map).wf(),
    ensures
        final(map).wf(),
        final(map)@ == appended(old(map)@, key@, value@),
{
    let old_value: String = match map.get(key) {
        Some(v) => v.clone(),
        None => String::new(),
    };
    let o = to_chars(old_value.as_str());
    let a = to_chars(value);
    if contains_chars(&o, &a) {
        map.insert(key.to_owned(), old_value);
    } else {
        map.insert(key.to_owned(), old_value.concat(value));
    }
}

/// Replaces every `from` in the value of `key` in `map` by `to`.
pub fn replace_in_key(map: &mut StringMap, key: &str, from: &str, to: &str)
    requires
        old(map).wf(),
    ensures
        final(map).wf(),
        final(map)@ == replaced_in(old(map)@, key@, from@, to@),
{
    let old_value: String = match map.get(key) {
        Some(v) => v.clone(),
        None => String::new(),
    };
    let o = to_chars(old_value.as_str());
    let f = to_chars(from);
    if contains_chars(&o, &f) {
        let w = to_chars(to);
        let n = replace_chars(&o, &f, &w);
        map.insert(key.to_owned(), chars_string(&n));
    } else {
        map.insert(key.to_owned(), old_value);
    }
}

impl Env {
    /// The names ascend, and each has its value.
    pub closed spec fn wf(&self) -> bool {
        self.vars.wf()
    }

    /// The environment that holds the given variables; of two values for one name the later
    /// one stays.
    pub fn new(vars: Vec<(String, String)>) -> (r: Env)
        ensures
            r.wf(),
            r@ == pairs_map(pair_views(vars@)),
    {
        let mut map = StringMap::new();
        let mut i: usize = 0;
        while i < vars.len()
            invariant
                i <= vars.len(),
                map.wf(),
                map@ == pairs_map(pair_views(vars@).subrange(0, i as int)),
            decreases vars.len() - i,
        {
            proof {
                let p = pair_views(vars@);
                assert(p.subrange(0, i + 1).drop_last() == p.subrange(0, i as int));
            }
            map.insert(vars[i].0.clone(), vars[i].1.clone());
            i += 1;
        }
        assert(pair_views(vars@).subrange(0, vars.len() as int) == pair_views(vars@));
        Env { vars: map }
    }

    /// Gives the variable `key` the value `value`.
    pub fn insert(&mut self, key: String, value: String)
        requires
            old(self).wf(),
        ensures
            final(self).wf(),
            final(self)@ == old(self)@.insert(key@, value@),
    {
        self.vars.insert(key, value);
    }

    /// Takes the variable `key` out of the environment.
    pub fn remove(&mut self, key: &str)
        requires
            old(self).wf(),
        ensures
            final(self).wf(),
            final(self)@ == old(self)@.remove(key@),
    {
        self.vars.remove(key);
    }

    /// The value of the variable `key`, if it has one.
    pub fn get(&self, key: &str) -> (r: Option<&String>)
        requires
            self.wf(),
        ensures
            match r {
                Some(v) => self@.contains_key(key@) && self@[key@] == v@,
                None => !self@.contains_key(key@),
            },
    {
        self.vars.get(key)
    }

    /// Whether the variable `key` has a value.
    pub fn contains_key(&self, key: &str) -> (r: bool)
        requires
            self.wf(),
        ensures
            r == self@.contains_key(key@),
    {
        self.vars.contains_key(key)
    }

    /// Appends `value` to the value of `key`, unless that value holds `value` already. A key
    /// without a value gets the empty one first.
    pub fn append(&mut self, key: &str, value: String)
        requires
            old(self).wf(),
        ensures
            final(self).wf(),
            final(self)@ == appended(old(self)@, key@, value@),
    {
        append_to_key(&mut self.vars, key, value.as_str());
    }

    /// Replaces every `old_value` in the value of `key` by `new_value`. A key without a value
    /// gets the empty one first.
    pub fn replace(&mut self, key: &str, old_value: String, new_value: String)
        requires
            old(self).wf(),
        ensures
            final(self).wf(),
            final(self)@ == replaced_in(old(self)@, key@, old_value@, new_value@),
    {
        replace_in_key(&mut self.vars, key, old_value.as_str(), new_value.as_str());
    }

    /// The variables as lines `NAME=value`, in the order of their names.
    pub fn lines(&self) -> (r: Vec<String>)
        requires
            self.wf(),
        ensures
            views(r@) == listing(self@),
    {
        proof {
            self.vars.lemma_ordered();
        }
        let n: usize = self.vars.len();
        let mut r: Vec<String> = Vec::new();
        let mut i: usize = 0;
        while i < n
            invariant
                i <= n,
                n == self.vars.keys().len(),
                self.vars.wf(),
                r.len() == i,
                forall|j: int|
                    0 <= j < i ==> (#[trigger] r@[j])@ == assignment(
                        self.vars.keys()[j],
                        self.vars.values()[j],
                    ),
            decreases n - i,
        {
            let mut line = self.vars.key_at(i).clone();
            line.push('=');
            line.append(self.vars.value_at(i).as_str());
            r.push(line);
            i += 1;
        }
        assert(views(r@) =~= listing(self@));
        r
    }

    /// Gives each variable of `other` the value that it has there.
    pub fn insert_all(&mut self, other: &StringMap)
        requires
            old(self).wf(),
            other.wf(),
        ensures
            final(self).wf(),
            final(self)@ == old(self)@.union_prefer_right(other@),
    {
        proof {
            other.lemma_view();
        }
        let ghost keys = other.keys();
        let n: usize = other.len();
        let mut i: usize = 0;
        while i < n
            invariant
                i <= n,
                n == keys.len(),
                keys == other.keys(),
                other.wf(),
                self.wf(),
                self@ == old(self)@.union_prefer_right(
                    other@.restrict(keys.subrange(0, i as int).to_set()),
                ),
            decreases n - i,
        {
            let ghost before = self@;
            self.vars.insert(other.key_at(i).clone(), other.value_at(i).clone());
            proof {
                other.lemma_view();
                let k = keys[i as int];
                let done = keys.subrange(0, i as int).to_set();
                let next = keys.subrange(0, i + 1).to_set();
                assert(keys.subrange(0, i + 1) == keys.subrange(0, i as int).push(k));
                assert(next =~= done.insert(k)) by {
                    assert forall|q: Seq<char>| next.contains(q) <==> done.insert(k).contains(
                        q,
                    ) by {
                        if keys.subrange(0, i + 1).contains(q) {
                            let j = keys.subrange(0, i + 1).index_of(q);
                            if j < i {
                                assert(keys.subrange(0, i as int)[j] == q);
                            }
                        }
                        if keys.subrange(0, i as int).contains(q) {
                            let j = keys.subrange(0, i as int).index_of(q);
                            assert(keys.subrange(0, i + 1)[j] == q);
                        }
                        assert(keys.subrange(0, i + 1)[i as int] == k);
                    }
                }
                assert(self@ =~= old(self)@.union_prefer_right(other@.restrict(next)));
            }
            i += 1;
        }
        proof {
            assert(keys.subrange(0, n as int) == keys);
            assert(other@.restrict(keys.to_set()) =~= other@);
        }
    }

    /// Takes each variable that `names` holds out of the environment.
    pub fn remove_all(&mut self, names: &StringSet)
        requires
            old(self).wf(),
            names.wf(),
        ensures
            final(self).wf(),
            final(self)@ == old(self)@.remove_keys(names@),
    {
        proof {
            names.lemma_names();
        }
        let list = names.as_ref();
        let ghost all = views(list@);
        let mut i: usize = 0;
        while i < list.len()
            invariant
                i <= list.len(),
                all == views(list@),
                self.wf(),
                self@ == old(self)@.remove_keys(all.subrange(0, i as int).to_set()),
            decreases list.len() - i,
        {
            self.vars.remove(list[i].as_str());
            proof {
                let k = all[i as int];
                let done = all.subrange(0, i as int).to_set();
                let next = all.subrange(0, i + 1).to_set();
                assert(all.subrange(0, i + 1) == all.subrange(0, i as int).push(k));
                assert(next =~= done.insert(k)) by {
                    assert forall|q: Seq<char>| next.contains(q) <==> done.insert(k).contains(
                        q,
                    ) by {
                        if all.subrange(0, i + 1).contains(q) {
                            let j = all.subrange(0, i + 1).index_of(q);
                            if j < i {
                                assert(all.subrange(0, i as int)[j] == q);
                            }
                        }
                        if all.subrange(0, i as int).contains(q) {
                            let j = all.subrange(0, i as int).index_of(q);
                            assert(all.subrange(0, i + 1)[j] == q);
                        }
                        assert(all.subrange(0, i + 1)[i as int] == k);
                    }
                }
                assert(self@ =~= old(self)@.remove_keys(next));
            }
            i += 1;
        }
        proof {
            assert(all.subrange(0, list.len() as int) == all);
            assert(old(self)@.remove_keys(Set::<Seq<char>>::empty()) =~= old(self)@);
        }
    }

    /// The variables with their values, in the order of their names.
    pub fn pairs(&self) -> (r: Vec<(String, String)>)
        requires
            self.wf(),
        ensures
            pair_views(r@) == entries(self@),
    {
        proof {
            self.vars.lemma_ordered();
        }
        let n: usize = self.vars.len();
        let mut r: Vec<(String, String)> = Vec::new();
        let mut i: usize = 0;
        while i < n
            invariant
                i <= n,
                n == self.vars.keys().len(),
                self.vars.wf(),
                r.len() == i,
                forall|j: int|
                    0 <= j < i ==> (#[trigger] r@[j]).0@ == self.vars.keys()[j] && r@[j].1@
                        == self.vars.values()[j],
            decreases n - i,
        {
            r.push((self.vars.key_at(i).clone(), self.vars.value_at(i).clone()));
            i += 1;
        }
        assert(pair_views(r@) =~= entries(self@));
        r
    }

    /// What showing the environment prints: a line `NAME=value` for each variable, in the
    /// order of the names.
    pub fn print(&self) -> (r: String)
        requires
            self.wf(),
        ensures
            r@ == lines_text(listing(self@)),
    {
        lines_string(&self.lines())
    }

    /// Replaces the variable references in `data` by the values of the variables: `${NAME}`
    /// wherever it stands, `$NAME` where the whole reference names the variable. References
    /// to names without a value stay. Variables with longer names are substituted first, and
    /// those with names of one length in the order of the names.
    pub fn replace_vars(&self, data: &str) -> (r: String)
        requires
            self.wf(),
        ensures
            r@ == substitution(self@, data@),
            !has_char(data@, '$') ==> r@ == data@,
    {
        substitute(data, &self.vars)
    }

    /// The variable reference at the byte position `pos` of `text`, or the empty string.
    pub fn var_at_pos(pos: usize, text: &str) -> (r: String)
        requires
            pos <= byte_len(text@),
        ensures
            r@ == variable_at(pos as int, text@),
    {
        find_variable(pos, text, TokenKind::Bracketed)
    }

    /// The variable reference at the byte position `pos` of `text`, which may be an unfinished
    /// bracketed one, or the empty string.
    pub fn partial_var_at_pos(pos: usize, text: &str) -> (r: String)
        requires
            pos <= byte_len(text@),
        ensures
            r@ == unfinished_variable_at(pos as int, text@),
    {
        find_variable(pos, text, TokenKind::Unfinished)
    }

    /// The variables as a map of strings.
    pub fn as_ref(&self) -> (r: &StringMap)
        requires
            self.wf(),
        ensures
            r.wf(),
            r@ == self@,
    {
        &self.vars
    }
}

/// The first token of kind `bracket` at the byte position `pos` of `text`, else the first bare
/// variable reference there, else the empty string.
pub fn find_variable(pos: usize, text: &str, bracket: TokenKind) -> (r: String)
    ensures
        r@ == match token_at(text@, bracket, pos as int) {
            Some(s) => s,
            None => match token_at(text@, TokenKind::Variable, pos as int) {
                Some(s) => s,
                None => Seq::empty(),
            },
        },
{
    let first = token_or_empty(pos, text, bracket);
    if first.as_str().unicode_len() > 0 {
        proof {
            assert(token_at(text@, bracket, pos as int) is Some);
        }
        first
    } else {
        proof {
            crate::scan::lemma_token_at_nonempty(text@, bracket, pos as int);
        }
        token_or_empty(pos, text, TokenKind::Variable)
    }
}

impl Default for Env {
    /// The environment without variables.
    fn default() -> (r: Env)
        ensures
            r.wf(),
            r@ == Map::<Seq<char>, Seq<char>>::empty(),
    {
        Env { vars: StringMap::new() }
    }
}

} // verus!
