//! Substitution of variable references, `${NAME}` and `$NAME`, by the values of a map.

use crate::chars::{lemma_run_end, name_char, run_end, scan_run, CharClass};
use crate::string_map::{ordered_keys, ordered_values, StringMap};
use crate::text::{
    append_chars, chars_string, has_char, matches_at, occurs_at, replace_chars, replaced,
    replaced_from, to_chars,
};
use vstd::prelude::*;
use vstd::string::*;

verus! {

/// The bracketed reference to the variable `k`: `${k}`.
pub open spec fn bracketed(k: Seq<char>) -> Seq<char> {
    seq!['$', '{'] + k + seq!['}']
}

/// What `t[i..]` becomes when each bare reference that names exactly `k` is replaced by `v`.
/// A bare reference is a `$` with the longest run of name characters behind it; one that names
/// anything but `k` stays as it is.
pub open spec fn bare_replaced_from(t: Seq<char>, k: Seq<char>, v: Seq<char>, i: int) -> Seq<char>
    decreases t.len() - i,
{
    if i < 0 || i >= t.len() {
        Seq::empty()
    } else if t[i] == '$' {
        proof {
            lemma_run_end(t, CharClass::Name, i + 1);
        }
        let e = run_end(t, CharClass::Name, i + 1);
        (if t.subrange(i + 1, e) == k {
            v
        } else {
            t.subrange(i, e)
        }) + bare_replaced_from(t, k, v, e)
    } else {
        seq![t[i]] + bare_replaced_from(t, k, v, i + 1)
    }
}

/// What `t` becomes when each bare reference `$k` is replaced by `v`.
pub open spec fn bare_replaced(t: Seq<char>, k: Seq<char>, v: Seq<char>) -> Seq<char> {
    bare_replaced_from(t, k, v, 0)
}

/// What `t` becomes when the variable `k` with the value `v` is substituted: first every
/// `${k}`, wherever it stands, then every bare reference that is exactly `$k`.
pub open spec fn substituted_one(t: Seq<char>, k: Seq<char>, v: Seq<char>) -> Seq<char> {
    bare_replaced(replaced(t, bracketed(k), v), k, v)
}

/// What `t` becomes when the variables of `o` are substituted one after the other.
pub open spec fn substituted_by(t: Seq<char>, o: Seq<(Seq<char>, Seq<char>)>) -> Seq<char>
    decreases o.len(),
{
    if o.len() == 0 {
        t
    } else {
        substituted_by(substituted_one(t, o[0].0, o[0].1), o.drop_first())
    }
}

/// The entries from index `i` on whose key has `n` characters, in their order.
pub open spec fn of_key_len_from(keys: Seq<Seq<char>>, values: Seq<Seq<char>>, n: nat, i: int) -> Seq<
    (Seq<char>, Seq<char>),
>
    decreases keys.len() - i,
{
    if i < 0 || i >= keys.len() {
        Seq::empty()
    } else if keys[i].len() == n {
        seq![(keys[i], values[i])] + of_key_len_from(keys, values, n, i + 1)
    } else {
        of_key_len_from(keys, values, n, i + 1)
    }
}

/// The entries whose key has at most `n` characters, those with longer keys first, and those
/// with keys of one length in the order they have.
pub open spec fn longest_first_from(keys: Seq<Seq<char>>, values: Seq<Seq<char>>, n: nat) -> Seq<
    (Seq<char>, Seq<char>),
>
    decreases n,
{
    of_key_len_from(keys, values, n, 0) + (if n == 0 {
        Seq::empty()
    } else {
        longest_first_from(keys, values, (n - 1) as nat)
    })
}

/// The length of the longest key among the first `i`.
pub open spec fn max_len(keys: Seq<Seq<char>>, i: int) -> nat
    decreases i,
{
    if i <= 0 || i > keys.len() {
        0
    } else if keys[i - 1].len() > max_len(keys, i - 1) {
        keys[i - 1].len()
    } else {
        max_len(keys, i - 1)
    }
}

/// All entries, those with longer keys first.
pub open spec fn longest_first(keys: Seq<Seq<char>>, values: Seq<Seq<char>>) -> Seq<
    (Seq<char>, Seq<char>),
> {
    longest_first_from(keys, values, max_len(keys, keys.len() as int))
}

/// What `t` becomes when the variables of a map are substituted, the map given by its keys in
/// ascending order and their values: a variable with a longer name before one with a shorter
/// name, and variables with names of one length in the order of the names.
pub open spec fn substituted(t: Seq<char>, keys: Seq<Seq<char>>, values: Seq<Seq<char>>) -> Seq<
    char,
> {
    substituted_by(t, longest_first(keys, values))
}

/// What `t` becomes when the variables of the map `m` are substituted: a variable with a
/// longer name before one with a shorter name, and variables with names of one length in the
/// order of the names.
pub open spec fn substitution(m: Map<Seq<char>, Seq<char>>, t: Seq<char>) -> Seq<char> {
    substituted(t, ordered_keys(m), ordered_values(m))
}

proof fn lemma_replaced_without_dollar(t: Seq<char>, k: Seq<char>, v: Seq<char>, i: int)
    requires
        !has_char(t, '$'),
        0 <= i <= t.len(),
    ensures
        replaced_from(t, bracketed(k), v, i) == t.subrange(i, t.len() as int),
    decreases t.len() - i,
{
    let p = bracketed(k);
    if i < t.len() {
        assert(p[0] == '$');
        if occurs_at(t, p, i) {
            assert(t.subrange(i, i + p.len())[0] == p[0]);
            assert(t[i] == '$');
        }
        lemma_replaced_without_dollar(t, k, v, i + 1);
        assert(t.subrange(i, t.len() as int) == seq![t[i]] + t.subrange(i + 1, t.len() as int));
    } else {
        assert(t.subrange(i, t.len() as int) == Seq::<char>::empty());
    }
}

proof fn lemma_bare_without_dollar(t: Seq<char>, k: Seq<char>, v: Seq<char>, i: int)
    requires
        !has_char(t, '$'),
        0 <= i <= t.len(),
    ensures
        bare_replaced_from(t, k, v, i) == t.subrange(i, t.len() as int),
    decreases t.len() - i,
{
    if i < t.len() {
        lemma_bare_without_dollar(t, k, v, i + 1);
        assert(t.subrange(i, t.len() as int) == seq![t[i]] + t.subrange(i + 1, t.len() as int));
    } else {
        assert(t.subrange(i, t.len() as int) == Seq::<char>::empty());
    }
}

proof fn lemma_by_without_dollar(t: Seq<char>, o: Seq<(Seq<char>, Seq<char>)>)
    requires
        !has_char(t, '$'),
    ensures
        substituted_by(t, o) == t,
    decreases o.len(),
{
    if o.len() > 0 {
        lemma_replaced_without_dollar(t, o[0].0, o[0].1, 0);
        lemma_bare_without_dollar(t, o[0].0, o[0].1, 0);
        assert(t.subrange(0, t.len() as int) == t);
        lemma_by_without_dollar(t, o.drop_first());
    }
}

/// A text without `$` is left as it is, whatever the variables are.
pub proof fn lemma_substituted_without_dollar(
    t: Seq<char>,
    keys: Seq<Seq<char>>,
    values: Seq<Seq<char>>,
)
    requires
        !has_char(t, '$'),
    ensures
        substituted(t, keys, values) == t,
{
    lemma_by_without_dollar(t, longest_first(keys, values));
}

/// Substitution leaves a text without `$` as it is: in it nothing refers to a variable.
pub proof fn lemma_substitution_without_dollar(m: Map<Seq<char>, Seq<char>>, t: Seq<char>)
    requires
        !has_char(t, '$'),
    ensures
        substitution(m, t) == t,
{
    lemma_substituted_without_dollar(t, ordered_keys(m), ordered_values(m));
}

proof fn lemma_replaced_shift(a: Seq<char>, b: Seq<char>, p: Seq<char>, w: Seq<char>, i: int)
    requires
        0 <= i <= b.len(),
    ensures
        replaced_from(a + b, p, w, a.len() + i) == replaced_from(b, p, w, i),
    decreases b.len() - i,
{
    let t = a + b;
    if i < b.len() {
        assert(t[a.len() + i] == b[i]);
        if p.len() == 0 {
            lemma_replaced_shift(a, b, p, w, i + 1);
        } else {
            if i + p.len() <= b.len() {
                assert(t.subrange(a.len() + i, a.len() + i + p.len()) =~= b.subrange(
                    i,
                    i + p.len(),
                ));
            }
            if occurs_at(b, p, i) {
                lemma_replaced_shift(a, b, p, w, i + p.len());
            } else {
                lemma_replaced_shift(a, b, p, w, i + 1);
            }
        }
    }
}

/// The bracketed form always wins: a text that begins with `${k}` has it replaced by the
/// value, whatever stands behind it.
pub proof fn lemma_bracketed_wins(k: Seq<char>, v: Seq<char>, rest: Seq<char>)
    ensures
        replaced(bracketed(k) + rest, bracketed(k), v) == v + replaced(rest, bracketed(k), v),
{
    let p = bracketed(k);
    let t = p + rest;
    assert(t.subrange(0, p.len() as int) =~= p);
    assert(occurs_at(t, p, 0));
    lemma_replaced_shift(p, rest, p, v, 0);
}

proof fn lemma_name_run(t: Seq<char>, i: int)
    requires
        0 <= i <= t.len(),
        forall|j: int| i <= j < t.len() ==> name_char(#[trigger] t[j]),
    ensures
        run_end(t, CharClass::Name, i) == t.len(),
    decreases t.len() - i,
{
    if i < t.len() {
        lemma_name_run(t, i + 1);
    }
}

/// The bare form needs the whole name: a reference `$name`, made of `$` and characters of
/// names, is replaced by the value of the variable `k` where `name` is `k`, and stays as it
/// is where it is any other name, also one that `k` begins.
pub proof fn lemma_bare_needs_whole_name(name: Seq<char>, k: Seq<char>, v: Seq<char>)
    requires
        forall|j: int| 0 <= j < name.len() ==> name_char(#[trigger] name[j]),
    ensures
        bare_replaced(seq!['$'] + name, k, v) == (if name == k {
            v
        } else {
            seq!['$'] + name
        }),
{
    let t = seq!['$'] + name;
    assert forall|j: int| 1 <= j < t.len() implies name_char(#[trigger] t[j]) by {
        assert(t[j] == name[j - 1]);
    }
    lemma_name_run(t, 1);
    assert(t.subrange(1, t.len() as int) =~= name);
    assert(t.subrange(0, t.len() as int) =~= t);
    assert(bare_replaced_from(t, k, v, t.len() as int) =~= Seq::<char>::empty());
    assert(bare_replaced(t, k, v) =~= (if name == k {
        v
    } else {
        t
    }));
}

/// Replaces each bare reference `$k` in `t` by `v`.
pub fn replace_bare(t: &Vec<char>, k: &Vec<char>, v: &Vec<char>) -> (r: Vec<char>)
    ensures
        r@ == bare_replaced(t@, k@, v@),
{
    let mut r: Vec<char> = Vec::new();
    let mut i: usize = 0;
    while i < t.len()
        invariant
            i <= t.len(),
            r@ + bare_replaced_from(t@, k@, v@, i as int) == bare_replaced(t@, k@, v@),
        decreases t.len() - i,
    {
        let ghost before = r@;
        if t[i] == '$' {
            let e = scan_run(t, CharClass::Name, i + 1);
            let named = e - (i + 1) == k.len() && matches_at(t, k, i + 1);
            assert(named == (t@.subrange(i + 1, e as int) == k@));
            if named {
                append_chars(&mut r, v);
            } else {
                let mut j: usize = i;
                while j < e
                    invariant
                        i <= j <= e <= t.len(),
                        r@ == before + t@.subrange(i as int, j as int),
                    decreases e - j,
                {
                    r.push(t[j]);
                    j += 1;
                }
            }
            i = e;
        } else {
            r.push(t[i]);
            assert(r@ == before + seq![t@[i as int]]);
            i += 1;
        }
    }
    assert(r@ + Seq::<char>::empty() == r@);
    r
}

/// Substitutes the variable `k` with the value `v` in `t`.
pub fn substitute_one(t: &Vec<char>, k: &Vec<char>, v: &Vec<char>) -> (r: Vec<char>)
    ensures
        r@ == substituted_one(t@, k@, v@),
{
    let mut p: Vec<char> = Vec::new();
    p.push('$');
    p.push('{');
    append_chars(&mut p, k);
    p.push('}');
    assert(p@ == bracketed(k@));
    let step = replace_chars(t, &p, v);
    replace_bare(&step, k, v)
}

/// Substitutes the variables of `map` in `data`: `${NAME}` wherever it stands, `$NAME` where
/// the whole reference names the variable. Variables with longer names are substituted first.
pub fn substitute(data: &str, map: &StringMap) -> (r: String)
    requires
        map.wf(),
    ensures
        r@ == substitution(map@, data@),
        !has_char(data@, '$') ==> r@ == data@,
{
    proof {
        map.lemma_ordered();
    }
    let ghost keys = map.keys();
    let ghost values = map.values();
    let count: usize = map.len();
    let mut longest: usize = 0;
    let mut i: usize = 0;
    while i < count
        invariant
            i <= count,
            count == keys.len(),
            map.wf(),
            keys == map.keys(),
            longest == max_len(keys, i as int),
        decreases count - i,
    {
        let n: usize = map.key_at(i).as_str().unicode_len();
        if n > longest {
            longest = n;
        }
        i += 1;
    }
    let mut t = to_chars(data);
    let mut n: usize = longest;
    loop
        invariant_except_break
            n <= longest,
            count == keys.len(),
            map.wf(),
            keys == map.keys(),
            values == map.values(),
            substituted_by(t@, longest_first_from(keys, values, n as nat)) == substituted(
                data@,
                keys,
                values,
            ),
        ensures
            t@ == substituted(data@, keys, values),
        decreases n,
    {
        let ghost rest = if n == 0 {
            Seq::empty()
        } else {
            longest_first_from(keys, values, (n - 1) as nat)
        };
        let mut j: usize = 0;
        while j < count
            invariant
                j <= count,
                count == keys.len(),
                map.wf(),
                keys == map.keys(),
                values == map.values(),
                substituted_by(t@, of_key_len_from(keys, values, n as nat, j as int) + rest)
                    == substituted(data@, keys, values),
            decreases count - j,
        {
            let key = map.key_at(j);
            if key.as_str().unicode_len() == n {
                let k = to_chars(key.as_str());
                let v = to_chars(map.value_at(j).as_str());
                proof {
                    let o = of_key_len_from(keys, values, n as nat, j as int) + rest;
                    assert(o[0] == (keys[j as int], values[j as int]));
                    assert(o.drop_first() == of_key_len_from(keys, values, n as nat, j + 1)
                        + rest);
                }
                t = substitute_one(&t, &k, &v);
            }
            j += 1;
        }
        assert(of_key_len_from(keys, values, n as nat, count as int) + rest == rest);
        if n == 0 {
            break;
        }
        n -= 1;
    }
    proof {
        if !has_char(data@, '$') {
            lemma_substituted_without_dollar(data@, keys, values);
        }
    }
    chars_string(&t)
}

} // verus!
