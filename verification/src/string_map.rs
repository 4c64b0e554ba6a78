//! A map from strings to strings, kept in the order of its keys.

use crate::order::{ascending, before, lemma_ascending_distinct, lemma_located, locate};
use crate::text::views;
use vstd::prelude::*;

verus! {

/// A finite map from strings to strings. Its entries are held in the order of their keys, so
/// equal maps hold equal sequences of entries.
pub struct StringMap {
    keys: Vec<String>,
    values: Vec<String>,
}

/// The map that holds `values[i]` under `keys[i]`.
pub open spec fn map_of(keys: Seq<Seq<char>>, values: Seq<Seq<char>>) -> Map<Seq<char>, Seq<char>> {
    Map::new(|k: Seq<char>| keys.contains(k), |k: Seq<char>| values[keys.index_of(k)])
}

/// The keys of `m` in ascending order.
pub open spec fn ordered_keys(m: Map<Seq<char>, Seq<char>>) -> Seq<Seq<char>> {
    choose|keys: Seq<Seq<char>>| has_keys(m, keys)
}

/// Whether `keys` holds the keys of `m`, each once, in ascending order.
pub open spec fn has_keys(m: Map<Seq<char>, Seq<char>>, keys: Seq<Seq<char>>) -> bool {
    ascending(keys) && forall|k: Seq<char>| keys.contains(k) <==> m.contains_key(k)
}

/// The values of `m` in the ascending order of their keys.
pub open spec fn ordered_values(m: Map<Seq<char>, Seq<char>>) -> Seq<Seq<char>> {
    Seq::new(ordered_keys(m).len(), |i: int| m[ordered_keys(m)[i]])
}

/// In a sequence without duplicates an item is found where it stands.
pub proof fn lemma_index_of(keys: Seq<Seq<char>>, i: int)
    requires
        keys.no_duplicates(),
        0 <= i < keys.len(),
    ensures
        keys.contains(keys[i]),
        keys.index_of(keys[i]) == i,
{
    assert(keys.contains(keys[i]));
}

impl View for StringMap {
    type V = Map<Seq<char>, Seq<char>>;

    closed spec fn view(&self) -> Map<Seq<char>, Seq<char>> {
        map_of(self.keys(), self.values())
    }
}

impl StringMap {
    /// The keys, in their order.
    pub closed spec fn keys(&self) -> Seq<Seq<char>> {
        views(self.keys@)
    }

    /// The values, each at the index of its key.
    pub closed spec fn values(&self) -> Seq<Seq<char>> {
        views(self.values@)
    }

    /// The keys ascend, and each has its value.
    pub open spec fn wf(&self) -> bool {
        ascending(self.keys()) && self.values().len() == self.keys().len()
    }

    /// The map is the one that holds each value under its key.
    pub proof fn lemma_view(&self)
        requires
            self.wf(),
        ensures
            self@ == map_of(self.keys(), self.values()),
            self.keys().no_duplicates(),
            self@.dom().finite(),
            self@.len() == self.keys().len(),
            forall|i: int|
                0 <= i < self.keys().len() ==> self@.contains_key(#[trigger] self.keys()[i])
                    && self@[self.keys()[i]] == self.values()[i],
    {
        let keys = self.keys();
        lemma_ascending_distinct(keys);
        assert forall|i: int| 0 <= i < keys.len() implies self@.contains_key(#[trigger] keys[i])
            && self@[keys[i]] == self.values()[i] by {
            lemma_index_of(keys, i);
        }
        assert(self@.dom() =~= keys.to_set());
        keys.unique_seq_to_set();
        vstd::seq_lib::seq_to_set_is_finite(keys);
    }

    /// The keys and values are those of the map, in the ascending order of the keys.
    pub proof fn lemma_ordered(&self)
        requires
            self.wf(),
        ensures
            self.keys() == ordered_keys(self@),
            self.values() == ordered_values(self@),
    {
        self.lemma_view();
        assert(has_keys(self@, self.keys()));
        lemma_same_keys(self.keys(), ordered_keys(self@));
        assert(self.values() =~= ordered_values(self@));
    }

    /// Equal maps hold the same keys and values in the same order.
    pub proof fn lemma_same_entries(&self, other: &StringMap)
        requires
            self.wf(),
            other.wf(),
            self@ == other@,
        ensures
            self.keys() == other.keys(),
            self.values() == other.values(),
    {
        self.lemma_view();
        other.lemma_view();
        lemma_same_keys(self.keys(), other.keys());
        assert(self.values() =~= other.values()) by {
            assert forall|i: int| 0 <= i < self.values().len() implies self.values()[i]
                == other.values()[i] by {
                assert(self@[self.keys()[i]] == self.values()[i]);
                assert(other@[other.keys()[i]] == other.values()[i]);
            }
        }
    }

    /// The map without entries.
    pub fn new() -> (r: StringMap)
        ensures
            r.wf(),
            r@ == Map::<Seq<char>, Seq<char>>::empty(),
            r.keys().len() == 0,
    {
        let r = StringMap { keys: Vec::new(), values: Vec::new() };
        assert(r@ =~= Map::<Seq<char>, Seq<char>>::empty());
        r
    }

    /// The number of entries.
    pub fn len(&self) -> (n: usize)
        requires
            self.wf(),
        ensures
            n == self@.len(),
            n == self.keys().len(),
            n == ordered_keys(self@).len(),
    {
        proof {
            self.lemma_view();
            self.lemma_ordered();
        }
        self.keys.len()
    }

    /// Whether the map has no entry.
    pub fn is_empty(&self) -> (r: bool)
        requires
            self.wf(),
        ensures
            r == (self@.len() == 0),
            r == (self@ == Map::<Seq<char>, Seq<char>>::empty()),
    {
        proof {
            self.lemma_view();
            if self.keys().len() == 0 {
                assert(self@ =~= Map::<Seq<char>, Seq<char>>::empty());
            }
        }
        self.keys.len() == 0
    }

    /// The key at index `i` in the order of the keys.
    pub fn key_at(&self, i: usize) -> (k: &String)
        requires
            self.wf(),
            i < self.keys().len(),
        ensures
            k@ == self.keys()[i as int],
            k@ == ordered_keys(self@)[i as int],
    {
        proof {
            self.lemma_ordered();
        }
        &self.keys[i]
    }

    /// The value of the key at index `i`.
    pub fn value_at(&self, i: usize) -> (v: &String)
        requires
            self.wf(),
            i < self.keys().len(),
        ensures
            v@ == self.values()[i as int],
            v@ == ordered_values(self@)[i as int],
    {
        proof {
            self.lemma_ordered();
        }
        &self.values[i]
    }

    /// Whether `key` has a value.
    pub fn contains_key(&self, key: &str) -> (r: bool)
        requires
            self.wf(),
        ensures
            r == self@.contains_key(key@),
    {
        let (i, found) = locate(&self.keys, key);
        proof {
            lemma_located(self.keys(), key@, i as int, found);
        }
        found
    }

    /// The value of `key`, if it has one.
    pub fn get(&self, key: &str) -> (r: Option<&String>)
        requires
            self.wf(),
        ensures
            match r {
                Some(v) => self@.contains_key(key@) && self@[key@] == v@,
                None => !self@.contains_key(key@),
            },
    {
        let (i, found) = locate(&self.keys, key);
        proof {
            lemma_located(self.keys(), key@, i as int, found);
        }
        if found {
            Some(&self.values[i])
        } else {
            None
        }
    }

    /// Gives `key` the value `value`, in place of the one it had, if any.
    pub fn insert(&mut self, key: String, value: String)
        requires
            old(self).wf(),
        ensures
            final(self).wf(),
            final(self)@ == old(self)@.insert(key@, value@),
    {
        let (i, found) = locate(&self.keys, key.as_str());
        proof {
            lemma_located(self.keys(), key@, i as int, found);
            old(self).lemma_view();
        }
        if found {
            self.values.set(i, value);
            proof {
                assert(self.values() == old(self).values().update(i as int, value@));
                self.lemma_view();
                assert(self@ =~= old(self)@.insert(key@, value@)) by {
                    assert forall|k: Seq<char>| self.keys().contains(k) implies #[trigger] self@[k]
                        == old(self)@.insert(key@, value@)[k] by {
                        let j = self.keys().index_of(k);
                        assert(self.keys()[j] == k);
                    }
                }
            }
        } else {
            self.keys.insert(i, key);
            self.values.insert(i, value);
            proof {
                let ok = old(self).keys();
                let ov = old(self).values();
                assert(self.keys() == ok.insert(i as int, key@));
                assert(self.values() == ov.insert(i as int, value@));
                let nk = self.keys();
                assert forall|a: int, b: int| 0 <= a < b < nk.len() implies before(
                    nk[a],
                    nk[b],
                ) by {
                    if a < i && b > i {
                        assert(before(ok[a], ok[b - 1]));
                    } else if a < i && b < i {
                        assert(before(ok[a], ok[b]));
                    } else if a > i {
                        assert(before(ok[a - 1], ok[b - 1]));
                    }
                }
                self.lemma_view();
                assert(self@ =~= old(self)@.insert(key@, value@)) by {
                    assert forall|k: Seq<char>|
                        self@.contains_key(k) <==> old(self)@.insert(key@, value@).contains_key(
                            k,
                        ) by {
                        if ok.contains(k) {
                            let j = ok.index_of(k);
                            assert(nk[if j < i { j } else { j + 1 }] == k);
                        }
                        if nk.contains(k) && k != key@ {
                            let j = nk.index_of(k);
                            assert(ok[if j < i { j } else { j - 1 }] == k);
                        }
                        assert(nk[i as int] == key@);
                    }
                    assert forall|k: Seq<char>| self@.contains_key(k) implies #[trigger] self@[k]
                        == old(self)@.insert(key@, value@)[k] by {
                        let j = nk.index_of(k);
                        assert(nk[j] == k);
                        if j == i {
                        } else {
                            let oj = if j < i { j } else { j - 1 };
                            assert(ok[oj] == k);
                            assert(old(self)@[ok[oj]] == ov[oj]);
                        }
                    }
                }
            }
        }
    }

    /// Takes `key` and its value out of the map.
    pub fn remove(&mut self, key: &str)
        requires
            old(self).wf(),
        ensures
            final(self).wf(),
            final(self)@ == old(self)@.remove(key@),
    {
        let (i, found) = locate(&self.keys, key);
        proof {
            lemma_located(self.keys(), key@, i as int, found);
            old(self).lemma_view();
        }
        if found {
            self.keys.remove(i);
            self.values.remove(i);
            proof {
                let ok = old(self).keys();
                let ov = old(self).values();
                assert(self.keys() == ok.remove(i as int));
                assert(self.values() == ov.remove(i as int));
                let nk = self.keys();
                assert forall|a: int, b: int| 0 <= a < b < nk.len() implies before(
                    nk[a],
                    nk[b],
                ) by {
                    assert(before(ok[if a < i { a } else { a + 1 }], ok[if b < i { b } else { b + 1 }]));
                }
                self.lemma_view();
                assert(self@ =~= old(self)@.remove(key@)) by {
                    assert forall|k: Seq<char>|
                        self@.contains_key(k) <==> old(self)@.remove(key@).contains_key(k) by {
                        if nk.contains(k) {
                            let j = nk.index_of(k);
                            let oj = if j < i { j } else { j + 1 };
                            assert(ok[oj] == k);
                            lemma_index_of(ok, oj);
                        }
                        if ok.contains(k) && k != key@ {
                            let j = ok.index_of(k);
                            assert(nk[if j < i { j } else { j - 1 }] == k);
                        }
                    }
                    assert forall|k: Seq<char>| self@.contains_key(k) implies #[trigger] self@[k]
                        == old(self)@.remove(key@)[k] by {
                        let j = nk.index_of(k);
                        let oj = if j < i { j } else { j + 1 };
                        assert(ok[oj] == k);
                        assert(old(self)@[ok[oj]] == ov[oj]);
                    }
                }
            }
        } else {
            assert(self@ =~= old(self)@.remove(key@));
        }
    }

    /// Takes every entry out of the map.
    pub fn clear(&mut self)
        ensures
            final(self).wf(),
            final(self)@ == Map::<Seq<char>, Seq<char>>::empty(),
    {
        self.keys.clear();
        self.values.clear();
        assert(self@ =~= Map::<Seq<char>, Seq<char>>::empty());
    }
}

/// Two ascending sequences with the same items are equal.
pub proof fn lemma_same_keys(a: Seq<Seq<char>>, b: Seq<Seq<char>>)
    requires
        ascending(a),
        ascending(b),
        forall|k: Seq<char>| a.contains(k) <==> b.contains(k),
    ensures
        a == b,
    decreases a.len(),
{
    lemma_ascending_distinct(a);
    lemma_ascending_distinct(b);
    if a.len() == 0 {
        if b.len() > 0 {
            assert(b.contains(b[0]));
        }
        assert(a =~= b);
    } else {
        assert(a.contains(a[0]));
        assert(b.len() > 0);
        assert(b.contains(b[0]));
        // the first items agree: each is the least of the common items
        let ia = a.index_of(b[0]);
        let ib = b.index_of(a[0]);
        crate::order::lemma_before_irreflexive(a[0]);
        if a[0] != b[0] {
            assert(ia > 0);
            assert(ib > 0);
            assert(before(a[0], a[ia]));
            assert(before(b[0], b[ib]));
            crate::order::lemma_before_asymmetric(a[0], b[0]);
        }
        let ra = a.drop_first();
        let rb = b.drop_first();
        assert forall|k: Seq<char>| ra.contains(k) <==> rb.contains(k) by {
            if ra.contains(k) {
                let j = ra.index_of(k);
                assert(a[j + 1] == k);
                assert(a.contains(k));
                let jb = b.index_of(k);
                assert(jb != 0);
                assert(rb[jb - 1] == k);
            }
            if rb.contains(k) {
                let j = rb.index_of(k);
                assert(b[j + 1] == k);
                assert(b.contains(k));
                let ja = a.index_of(k);
                assert(ja != 0);
                assert(ra[ja - 1] == k);
            }
        }
        assert(ascending(ra)) by {
            assert forall|i: int, j: int| 0 <= i < j < ra.len() implies before(ra[i], ra[j]) by {
                assert(before(a[i + 1], a[j + 1]));
            }
        }
        assert(ascending(rb)) by {
            assert forall|i: int, j: int| 0 <= i < j < rb.len() implies before(rb[i], rb[j]) by {
                assert(before(b[i + 1], b[j + 1]));
            }
        }
        lemma_same_keys(ra, rb);
        assert(a =~= seq![a[0]] + ra);
        assert(b =~= seq![b[0]] + rb);
    }
}

} // verus!
