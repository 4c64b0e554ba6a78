//! A set of strings, kept in the order of the strings.

use crate::order::{ascending, before, lemma_ascending_distinct, lemma_located, locate};
use crate::text::views;
use vstd::prelude::*;
use vstd::string::*;

verus! {

/// A finite set of strings, held in ascending order.
pub struct StringSet {
    items: Vec<String>,
}

impl View for StringSet {
    type V = Set<Seq<char>>;

    closed spec fn view(&self) -> Set<Seq<char>> {
        self.names().to_set()
    }
}

/// The strings of `s` in ascending order.
pub open spec fn ordered_names(s: Set<Seq<char>>) -> Seq<Seq<char>> {
    choose|names: Seq<Seq<char>>| has_names(s, names)
}

/// Whether `names` holds the strings of `s`, each once, in ascending order.
pub open spec fn has_names(s: Set<Seq<char>>, names: Seq<Seq<char>>) -> bool {
    ascending(names) && forall|k: Seq<char>| names.contains(k) <==> s.contains(k)
}

/// The set of the first `i` strings of `found`.
pub open spec fn found_set(found: Seq<Seq<char>>, i: int) -> Set<Seq<char>> {
    Set::new(|name: Seq<char>| exists|j: int| 0 <= j < i && j < found.len() && found[j] == name)
}

impl StringSet {
    /// The strings, in ascending order.
    pub closed spec fn names(&self) -> Seq<Seq<char>> {
        views(self.items@)
    }

    /// The strings ascend.
    pub closed spec fn wf(&self) -> bool {
        ascending(self.names())
    }

    /// The set holds each string once.
    pub proof fn lemma_names(&self)
        requires
            self.wf(),
        ensures
            self.names().no_duplicates(),
            self@ == self.names().to_set(),
            self@.finite(),
            self@.len() == self.names().len(),
    {
        lemma_ascending_distinct(self.names());
        self.names().unique_seq_to_set();
        vstd::seq_lib::seq_to_set_is_finite(self.names());
    }

    /// The strings are those of the set, in ascending order.
    pub proof fn lemma_ordered(&self)
        requires
            self.wf(),
        ensures
            self.names() == ordered_names(self@),
    {
        assert(has_names(self@, self.names()));
        crate::string_map::lemma_same_keys(self.names(), ordered_names(self@));
    }

    /// The set without strings.
    pub fn new() -> (r: StringSet)
        ensures
            r.wf(),
            r@ == Set::<Seq<char>>::empty(),
    {
        let r = StringSet { items: Vec::new() };
        assert(r@ =~= Set::<Seq<char>>::empty());
        r
    }

    /// Forgets all strings and takes those of `found`.
    pub fn refill(&mut self, found: Vec<String>)
        ensures
            final(self).wf(),
            final(self)@ == views(found@).to_set(),
    {
        self.clear();
        let mut i: usize = 0;
        while i < found.len()
            invariant
                i <= found.len(),
                self.wf(),
                self@ == found_set(views(found@), i as int),
            decreases found.len() - i,
        {
            self.insert(found[i].clone());
            proof {
                let f = views(found@);
                assert(f[i as int] == found@[i as int]@);
                assert(found_set(f, i as int).insert(f[i as int]) =~= found_set(f, i + 1));
            }
            i += 1;
        }
        proof {
            let f = views(found@);
            assert(found_set(f, found.len() as int) =~= f.to_set());
        }
    }

    /// The number of strings.
    pub fn len(&self) -> (n: usize)
        requires
            self.wf(),
        ensures
            n == self@.len(),
    {
        proof {
            self.lemma_names();
        }
        self.items.len()
    }

    /// Whether the set holds no string.
    pub fn is_empty(&self) -> (r: bool)
        requires
            self.wf(),
        ensures
            r == (self@.len() == 0),
            r == (self@ == Set::<Seq<char>>::empty()),
    {
        proof {
            self.lemma_names();
            if self.names().len() > 0 {
                assert(self@.contains(self.names()[0]));
            } else {
                assert(self@ =~= Set::<Seq<char>>::empty());
            }
        }
        self.items.len() == 0
    }

    /// Puts `value` into the set.
    pub fn insert(&mut self, value: String)
        requires
            old(self).wf(),
        ensures
            final(self).wf(),
            final(self)@ == old(self)@.insert(value@),
    {
        let (i, found) = locate(&self.items, value.as_str());
        proof {
            lemma_located(self.names(), value@, i as int, found);
        }
        if !found {
            self.items.insert(i, value);
            proof {
                let on = old(self).names();
                let nn = self.names();
                assert(nn == on.insert(i as int, value@));
                assert forall|a: int, b: int| 0 <= a < b < nn.len() implies before(
                    nn[a],
                    nn[b],
                ) by {
                    if a < i && b > i {
                        assert(before(on[a], on[b - 1]));
                    } else if a < i && b < i {
                        assert(before(on[a], on[b]));
                    } else if a > i {
                        assert(before(on[a - 1], on[b - 1]));
                    }
                }
                assert(self@ =~= old(self)@.insert(value@)) by {
                    assert forall|k: Seq<char>| nn.contains(k) <==> (on.contains(k) || k
                        == value@) by {
                        if on.contains(k) {
                            let j = on.index_of(k);
                            assert(nn[if j < i { j } else { j + 1 }] == k);
                        }
                        if nn.contains(k) && k != value@ {
                            let j = nn.index_of(k);
                            assert(on[if j < i { j } else { j - 1 }] == k);
                        }
                        assert(nn[i as int] == value@);
                    }
                }
            }
        } else {
            assert(self@ =~= old(self)@.insert(value@));
        }
    }

    /// Takes every string out of the set.
    pub fn clear(&mut self)
        ensures
            final(self).wf(),
            final(self)@ == Set::<Seq<char>>::empty(),
    {
        self.items.clear();
        assert(self@ =~= Set::<Seq<char>>::empty());
    }

    /// Whether the set holds `value`.
    pub fn contains(&self, value: &str) -> (r: bool)
        requires
            self.wf(),
        ensures
            r == self@.contains(value@),
    {
        let (i, found) = locate(&self.items, value);
        proof {
            lemma_located(self.names(), value@, i as int, found);
        }
        found
    }

    /// The strings, in ascending order.
    pub fn as_ref(&self) -> (r: &Vec<String>)
        requires
            self.wf(),
        ensures
            views(r@) == self.names(),
            views(r@) == ordered_names(self@),
            ascending(views(r@)),
            views(r@).to_set() == self@,
    {
        proof {
            self.lemma_ordered();
        }
        &self.items
    }
}

impl Default for StringSet {
    /// The set without strings.
    fn default() -> (r: StringSet)
        ensures
            r.wf(),
            r@ == Set::<Seq<char>>::empty(),
    {
        let r = StringSet { items: Vec::new() };
        assert(r@ =~= Set::<Seq<char>>::empty());
        r
    }
}

} // verus!
