//! The names of the programs that were found in the directories of the search path.

use crate::order::ascending;
use crate::string_set::{ordered_names, StringSet};
use crate::text::{range_string, to_chars, views};
use vstd::prelude::*;
use vstd::string::*;

verus! {

/// The known commands: a set of program names.
pub struct PathCommands {
    commands: StringSet,
}

impl View for PathCommands {
    type V = Set<Seq<char>>;

    closed spec fn view(&self) -> Set<Seq<char>> {
        self.commands@
    }
}

/// The pieces of `t[i..]` between the separators `sep`, without the empty ones.
pub open spec fn pieces_from(t: Seq<char>, sep: char, i: int) -> Seq<Seq<char>>
    decreases t.len() - i,
{
    if i < 0 || i >= t.len() {
        Seq::empty()
    } else if t[i] == sep {
        pieces_from(t, sep, i + 1)
    } else {
        proof {
            crate::text::lemma_first_index_from(t, sep, i + 1);
        }
        let e = crate::text::first_index_from(t, sep, i);
        seq![t.subrange(i, e)] + pieces_from(t, sep, e)
    }
}

/// The directories that a search path names: its pieces between `:`, without the empty ones.
pub open spec fn search_dirs(path: Seq<char>) -> Seq<Seq<char>> {
    pieces_from(path, ':', 0)
}

/// Splits a search path at `:` into the directories that it names.
pub fn path_dirs(path: &str) -> (r: Vec<String>)
    ensures
        views(r@) == search_dirs(path@),
{
    let t = to_chars(path);
    let mut r: Vec<String> = Vec::new();
    let mut i: usize = 0;
    while i < t.len()
        invariant
            i <= t.len(),
            views(r@) + pieces_from(t@, ':', i as int) == search_dirs(t@),
        decreases t.len() - i,
    {
        if t[i] == ':' {
            i += 1;
        } else {
            let mut e: usize = i + 1;
            while e < t.len() && t[e] != ':'
                invariant
                    i < e <= t.len(),
                    crate::text::first_index_from(t@, ':', i as int)
                        == crate::text::first_index_from(t@, ':', e as int),
                decreases t.len() - e,
            {
                e += 1;
            }
            let ghost before = views(r@);
            r.push(range_string(&t, i, e));
            assert(views(r@) == before + seq![t@.subrange(i as int, e as int)]);
            i = e;
        }
    }
    assert(views(r@) + Seq::<Seq<char>>::empty() == views(r@));
    r
}

impl PathCommands {
    /// The names, in ascending order.
    pub closed spec fn names(&self) -> Seq<Seq<char>> {
        self.commands.names()
    }

    /// The names ascend.
    pub closed spec fn wf(&self) -> bool {
        self.commands.wf()
    }

    /// The set holds each name once.
    pub proof fn lemma_names(&self)
        requires
            self.wf(),
        ensures
            self.names().no_duplicates(),
            self@ == self.names().to_set(),
            self@.finite(),
            self@.len() == self.names().len(),
    {
        self.commands.lemma_names();
    }

    /// The set of the names that were found in the directories of the search path.
    pub fn new(found: Vec<String>) -> (r: PathCommands)
        ensures
            r.wf(),
            r@ == views(found@).to_set(),
    {
        let mut pc = PathCommands { commands: StringSet::new() };
        pc.rehash(found);
        pc
    }

    /// Forgets all names and takes those that were found in the directories of the search
    /// path.
    pub fn rehash(&mut self, found: Vec<String>)
        ensures
            final(self).wf(),
            final(self)@ == views(found@).to_set(),
    {
        self.commands.refill(found);
    }

    /// The number of names.
    pub fn len(&self) -> (n: usize)
        requires
            self.wf(),
        ensures
            n == self@.len(),
    {
        self.commands.len()
    }

    /// Whether the set holds no name.
    pub fn is_empty(&self) -> (r: bool)
        requires
            self.wf(),
        ensures
            r == (self@.len() == 0),
            r == (self@ == Set::<Seq<char>>::empty()),
    {
        self.commands.is_empty()
    }

    /// Puts the name `value` into the set.
    pub fn insert(&mut self, value: String)
        requires
            old(self).wf(),
        ensures
            final(self).wf(),
            final(self)@ == old(self)@.insert(value@),
    {
        self.commands.insert(value);
    }

    /// Takes every name out of the set.
    pub fn clear(&mut self)
        ensures
            final(self).wf(),
            final(self)@ == Set::<Seq<char>>::empty(),
    {
        self.commands.clear();
    }

    /// Whether the set holds the name `value`.
    pub fn contains(&self, value: &str) -> (r: bool)
        requires
            self.wf(),
        ensures
            r == self@.contains(value@),
    {
        self.commands.contains(value)
    }

    /// The names, in ascending order.
    pub fn as_ref(&self) -> (r: &Vec<String>)
        requires
            self.wf(),
        ensures
            views(r@) == self.names(),
            views(r@) == ordered_names(self@),
            ascending(views(r@)),
    {
        self.commands.as_ref()
    }
}

impl Default for PathCommands {
    /// The set without names.
    fn default() -> (r: PathCommands)
        ensures
            r.wf(),
            r@ == Set::<Seq<char>>::empty(),
    {
        PathCommands { commands: StringSet::new() }
    }
}

} // verus!
