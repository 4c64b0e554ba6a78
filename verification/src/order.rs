//! The order of strings by their characters, and vectors of strings kept in that order.

use crate::text::{to_chars, views};
use vstd::prelude::*;

verus! {

/// Whether `a[i..]` comes before `b[i..]`: at the first index from `i` on where the two differ,
/// `a` has ended or holds the smaller character.
pub open spec fn before_from(a: Seq<char>, b: Seq<char>, i: int) -> bool
    decreases a.len() - i,
{
    if i < 0 || i >= b.len() {
        false
    } else if i >= a.len() {
        true
    } else if a[i] == b[i] {
        before_from(a, b, i + 1)
    } else {
        (a[i] as u32) < (b[i] as u32)
    }
}

/// Whether `a` comes before `b` in the order of strings: character by character, a prefix
/// before what extends it.
pub open spec fn before(a: Seq<char>, b: Seq<char>) -> bool {
    before_from(a, b, 0)
}

/// Whether each string of `keys` comes before all that follow it.
pub open spec fn ascending(keys: Seq<Seq<char>>) -> bool {
    forall|i: int, j: int| 0 <= i < j < keys.len() ==> before(keys[i], keys[j])
}

proof fn lemma_before_from_irreflexive(a: Seq<char>, i: int)
    requires
        0 <= i,
    ensures
        !before_from(a, a, i),
    decreases a.len() - i,
{
    if i < a.len() {
        lemma_before_from_irreflexive(a, i + 1);
    }
}

proof fn lemma_before_from_transitive(a: Seq<char>, b: Seq<char>, c: Seq<char>, i: int)
    requires
        0 <= i,
        before_from(a, b, i),
        before_from(b, c, i),
    ensures
        before_from(a, c, i),
    decreases a.len() - i,
{
    if i < a.len() && a[i] == b[i] && b[i] == c[i] {
        lemma_before_from_transitive(a, b, c, i + 1);
    }
}

proof fn lemma_before_from_total(a: Seq<char>, b: Seq<char>, i: int)
    requires
        0 <= i <= a.len(),
        i <= b.len(),
        a.subrange(0, i) == b.subrange(0, i),
        a != b,
    ensures
        before_from(a, b, i) || before_from(b, a, i),
    decreases a.len() - i,
{
    if i < a.len() && i < b.len() && a[i] == b[i] {
        assert(a.subrange(0, i + 1) == a.subrange(0, i).push(a[i]));
        assert(b.subrange(0, i + 1) == b.subrange(0, i).push(b[i]));
        lemma_before_from_total(a, b, i + 1);
    } else if i == a.len() && i == b.len() {
        assert(a == a.subrange(0, i));
        assert(b == b.subrange(0, i));
    } else if i < a.len() && i < b.len() {
        vstd::utf8::char_u32_cast(a[i], a[i] as u32);
        vstd::utf8::char_u32_cast(b[i], b[i] as u32);
    }
}

/// No string comes before itself.
pub proof fn lemma_before_irreflexive(a: Seq<char>)
    ensures
        !before(a, a),
{
    lemma_before_from_irreflexive(a, 0);
}

/// The order is transitive.
pub proof fn lemma_before_transitive(a: Seq<char>, b: Seq<char>, c: Seq<char>)
    requires
        before(a, b),
        before(b, c),
    ensures
        before(a, c),
{
    lemma_before_from_transitive(a, b, c, 0);
}

/// Of two different strings one comes before the other.
pub proof fn lemma_before_total(a: Seq<char>, b: Seq<char>)
    requires
        a != b,
    ensures
        before(a, b) || before(b, a),
{
    assert(a.subrange(0, 0) == b.subrange(0, 0));
    lemma_before_from_total(a, b, 0);
}

/// Of two strings at most one comes before the other.
pub proof fn lemma_before_asymmetric(a: Seq<char>, b: Seq<char>)
    requires
        before(a, b),
    ensures
        !before(b, a),
{
    if before(b, a) {
        lemma_before_transitive(a, b, a);
        lemma_before_irreflexive(a);
    }
}

/// Tests whether `a` comes before `b`.
pub fn chars_before(a: &Vec<char>, b: &Vec<char>) -> (r: bool)
    ensures
        r == before(a@, b@),
{
    let mut i: usize = 0;
    while i < a.len() && i < b.len()
        invariant
            i <= a.len(),
            i <= b.len(),
            before(a@, b@) == before_from(a@, b@, i as int),
        decreases a.len() - i,
    {
        if a[i] != b[i] {
            return (a[i] as u32) < (b[i] as u32);
        }
        i += 1;
    }
    i < b.len()
}

/// Where `k` stands or would stand among ascending keys: the index of the first key that does
/// not come before `k`, and whether that key is `k` itself.
pub fn locate(keys: &Vec<String>, k: &str) -> (r: (usize, bool))
    requires
        ascending(views(keys@)),
    ensures
        r.0 <= keys.len(),
        forall|j: int| 0 <= j < r.0 ==> before(#[trigger] keys@[j]@, k@),
        r.1 ==> r.0 < keys.len() && keys@[r.0 as int]@ == k@,
        !r.1 ==> forall|j: int| r.0 <= j < keys.len() ==> before(k@, #[trigger] keys@[j]@),
{
    let kc = to_chars(k);
    let mut i: usize = 0;
    while i < keys.len()
        invariant
            i <= keys.len(),
            kc@ == k@,
            ascending(views(keys@)),
            forall|j: int| 0 <= j < i ==> before(#[trigger] keys@[j]@, k@),
        decreases keys.len() - i,
    {
        let cur = to_chars(keys[i].as_str());
        if !chars_before(&cur, &kc) {
            let same = !chars_before(&kc, &cur);
            proof {
                if same {
                    if cur@ != kc@ {
                        lemma_before_total(cur@, kc@);
                    }
                } else {
                    assert forall|j: int| i <= j < keys.len() implies before(
                        k@,
                        #[trigger] keys@[j]@,
                    ) by {
                        if j > i {
                            assert(before(views(keys@)[i as int], views(keys@)[j]));
                            lemma_before_transitive(k@, keys@[i as int]@, keys@[j]@);
                        }
                    }
                }
            }
            return (i, same);
        }
        i += 1;
    }
    (i, false)
}

/// Among ascending keys, `k` is found exactly when it is one of them.
pub proof fn lemma_located(keys: Seq<Seq<char>>, k: Seq<char>, i: int, found: bool)
    requires
        ascending(keys),
        0 <= i <= keys.len(),
        forall|j: int| 0 <= j < i ==> before(#[trigger] keys[j], k),
        found ==> i < keys.len() && keys[i] == k,
        !found ==> forall|j: int| i <= j < keys.len() ==> before(k, #[trigger] keys[j]),
    ensures
        found <==> keys.contains(k),
        found ==> keys.index_of(k) == i,
{
    if found {
        assert(keys[i] == k);
        let w = keys.index_of(k);
        if w != i {
            lemma_before_irreflexive(k);
            if w < i {
                assert(before(keys[w], keys[i]));
            } else {
                assert(before(keys[i], keys[w]));
            }
        }
    } else if keys.contains(k) {
        let w = keys.index_of(k);
        lemma_before_irreflexive(k);
    }
}

/// Ascending keys are pairwise different.
pub proof fn lemma_ascending_distinct(keys: Seq<Seq<char>>)
    requires
        ascending(keys),
    ensures
        keys.no_duplicates(),
{
    assert forall|i: int, j: int| 0 <= i < keys.len() && 0 <= j < keys.len() && i != j implies keys[i]
        != keys[j] by {
        lemma_before_irreflexive(keys[i]);
        if i < j {
            assert(before(keys[i], keys[j]));
        } else {
            assert(before(keys[j], keys[i]));
        }
    }
}

} // verus!
