use vstd::prelude::*;

use crate::text::{chars_of, str_eq, strings_view};

verus! {

// ---------------------------------------------------------------------------
// The order of names: character by character, by code point, a proper prefix
// first. It is the order of `str`, whose bytes are UTF-8, which keeps the order
// of code points.

/// `a` comes strictly before `b`.
pub open spec fn text_lt(a: Seq<char>, b: Seq<char>) -> bool
    decreases a.len(),
{
    if a.len() == 0 {
        b.len() > 0
    } else if b.len() == 0 {
        false
    } else if a[0] != b[0] {
        (a[0] as int) < (b[0] as int)
    } else {
        text_lt(a.drop_first(), b.drop_first())
    }
}

/// No name comes before itself.
pub proof fn lemma_text_lt_irreflexive(a: Seq<char>)
    ensures
        !text_lt(a, a),
    decreases a.len(),
{
    if a.len() > 0 {
        lemma_text_lt_irreflexive(a.drop_first());
    }
}

/// The order is transitive.
pub proof fn lemma_text_lt_transitive(a: Seq<char>, b: Seq<char>, c: Seq<char>)
    requires
        text_lt(a, b),
        text_lt(b, c),
    ensures
        text_lt(a, c),
    decreases a.len(),
{
    if a.len() > 0 && b.len() > 0 && c.len() > 0 && a[0] == b[0] && b[0] == c[0] {
        lemma_text_lt_transitive(a.drop_first(), b.drop_first(), c.drop_first());
    }
}

/// Of two different names, one comes before the other.
pub proof fn lemma_text_lt_total(a: Seq<char>, b: Seq<char>)
    requires
        a != b,
    ensures
        text_lt(a, b) || text_lt(b, a),
    decreases a.len(),
{
    if a.len() > 0 && b.len() > 0 {
        if a[0] == b[0] {
            assert(a =~= seq![a[0]] + a.drop_first());
            assert(b =~= seq![b[0]] + b.drop_first());
            lemma_text_lt_total(a.drop_first(), b.drop_first());
        }
    } else if a.len() == 0 && b.len() == 0 {
        assert(a =~= b);
    }
}

/// No two names come each before the other.
pub proof fn lemma_text_lt_asymmetric(a: Seq<char>, b: Seq<char>)
    ensures
        !(text_lt(a, b) && text_lt(b, a)),
{
    if text_lt(a, b) && text_lt(b, a) {
        lemma_text_lt_transitive(a, b, a);
        lemma_text_lt_irreflexive(a);
    }
}

/// Whether `a` comes strictly before `b`.
pub fn text_less(a: &str, b: &str) -> (r: bool)
    ensures
        r == text_lt(a@, b@),
{
    let x = chars_of(a);
    let y = chars_of(b);
    let mut i: usize = 0;
    assert(a@.skip(0) =~= a@);
    assert(b@.skip(0) =~= b@);
    while i < x.len() && i < y.len()
        invariant
            x@ == a@,
            y@ == b@,
            i <= x@.len(),
            i <= y@.len(),
            text_lt(a@, b@) == text_lt(a@.skip(i as int), b@.skip(i as int)),
        decreases x.len() - i,
    {
        let c = x[i];
        let d = y[i];
        assert(a@.skip(i as int)[0] == c);
        assert(b@.skip(i as int)[0] == d);
        if c != d {
            return c < d;
        }
        assert(a@.skip(i as int).drop_first() =~= a@.skip(i + 1));
        assert(b@.skip(i as int).drop_first() =~= b@.skip(i + 1));
        i = i + 1;
    }
    i < y.len()
}

/// The names of `s` in order: each no later than the next.
pub open spec fn texts_sorted(s: Seq<Seq<char>>) -> bool {
    forall|i: int, j: int| 0 <= i < j < s.len() ==> !text_lt(#[trigger] s[j], #[trigger] s[i])
}

/// The names of `s` in strictly increasing order (so none twice).
pub open spec fn texts_strictly_sorted(s: Seq<Seq<char>>) -> bool {
    forall|i: int, j: int| 0 <= i < j < s.len() ==> text_lt(#[trigger] s[i], #[trigger] s[j])
}

/// Inserting `x` where every name before it is smaller and the one after it
/// larger keeps a strictly increasing sequence strictly increasing.
pub proof fn lemma_insert_strictly_sorted(s: Seq<Seq<char>>, p: int, x: Seq<char>)
    requires
        texts_strictly_sorted(s),
        0 <= p <= s.len(),
        forall|k: int| 0 <= k < p ==> text_lt(#[trigger] s[k], x),
        p < s.len() ==> text_lt(x, s[p]),
    ensures
        texts_strictly_sorted(s.insert(p, x)),
{
    let t = s.insert(p, x);
    assert forall|i: int, j: int| 0 <= i < j < t.len() implies text_lt(#[trigger] t[i], #[trigger] t[j]) by {
        if j < p {
            assert(t[i] == s[i] && t[j] == s[j]);
        } else if j == p {
            assert(t[i] == s[i]);
        } else if i == p {
            assert(t[j] == s[j - 1]);
            if j - 1 > p {
                lemma_text_lt_transitive(x, s[p], s[j - 1]);
            }
        } else if i < p {
            assert(t[i] == s[i] && t[j] == s[j - 1]);
        } else {
            assert(t[i] == s[i - 1] && t[j] == s[j - 1]);
        }
    }
}

/// Inserting `x` after every name no larger than it and before the larger ones
/// keeps a sorted sequence sorted.
pub proof fn lemma_insert_sorted(s: Seq<Seq<char>>, p: int, x: Seq<char>)
    requires
        texts_sorted(s),
        0 <= p <= s.len(),
        forall|k: int| 0 <= k < p ==> !text_lt(x, #[trigger] s[k]),
        p < s.len() ==> text_lt(x, s[p]),
    ensures
        texts_sorted(s.insert(p, x)),
{
    let t = s.insert(p, x);
    assert forall|i: int, j: int| 0 <= i < j < t.len() implies !text_lt(#[trigger] t[j], #[trigger] t[i]) by {
        if j < p {
            assert(t[i] == s[i] && t[j] == s[j]);
        } else if j == p {
            assert(t[i] == s[i]);
        } else if i == p {
            assert(t[j] == s[j - 1]);
            if text_lt(s[j - 1], x) {
                lemma_text_lt_transitive(s[j - 1], x, s[p]);
                if j - 1 == p {
                    lemma_text_lt_irreflexive(s[p]);
                }
            }
        } else if i < p {
            assert(t[i] == s[i] && t[j] == s[j - 1]);
        } else {
            assert(t[i] == s[i - 1] && t[j] == s[j - 1]);
        }
    }
}

/// The elements of `s` with `x` inserted anywhere are those of `s` and `x`.
pub proof fn lemma_insert_to_set<A>(s: Seq<A>, p: int, x: A)
    requires
        0 <= p <= s.len(),
    ensures
        s.insert(p, x).to_set() =~= s.to_set().insert(x),
{
    let t = s.insert(p, x);
    assert forall|e: A| t.to_set().contains(e) <==> s.to_set().insert(x).contains(e) by {
        if t.contains(e) {
            let k = choose|k: int| 0 <= k < t.len() && t[k] == e;
            if k < p {
                assert(s[k] == e);
            } else if k > p {
                assert(s[k - 1] == e);
            }
        }
        if s.contains(e) {
            let k = choose|k: int| 0 <= k < s.len() && s[k] == e;
            if k < p {
                assert(t[k] == e);
            } else {
                assert(t[k + 1] == e);
            }
        }
        assert(t[p] == x);
    }
}

/// Inserting `x` anywhere adds one `x` to the multiset of elements.
pub proof fn lemma_insert_to_multiset<A>(s: Seq<A>, p: int, x: A)
    requires
        0 <= p <= s.len(),
    ensures
        s.insert(p, x).to_multiset() =~= s.to_multiset().insert(x),
{
    broadcast use vstd::seq_lib::group_to_multiset_ensures;

    let t = s.insert(p, x);
    assert(t.remove(p) =~= s);
    assert(t[p] == x);
    assert(t.to_multiset().count(x) > 0);
}

/// The names of `v`, sorted, each once.
pub fn sort_unique_strings(v: Vec<String>) -> (r: Vec<String>)
    ensures
        texts_strictly_sorted(strings_view(r@)),
        strings_view(r@).to_set() == strings_view(v@).to_set(),
{
    let mut r: Vec<String> = Vec::new();
    let mut i: usize = 0;
    assert(strings_view(v@.take(0)).to_set() =~= strings_view(r@).to_set());
    while i < v.len()
        invariant
            i <= v@.len(),
            texts_strictly_sorted(strings_view(r@)),
            strings_view(r@).to_set() == strings_view(v@.take(i as int)).to_set(),
        decreases v.len() - i,
    {
        let ghost before = strings_view(r@);
        let x = &v[i];
        let mut p: usize = 0;
        while p < r.len() && text_less(r[p].as_str(), x.as_str())
            invariant
                p <= r@.len(),
                before == strings_view(r@),
                forall|k: int| 0 <= k < p ==> text_lt(#[trigger] before[k], x@),
            decreases r.len() - p,
        {
            p = p + 1;
        }
        assert(strings_view(v@.take(i + 1)) =~= strings_view(v@.take(i as int)).push(x@));
        if p < r.len() && str_eq(r[p].as_str(), x.as_str()) {
            assert(before[p as int] == x@);
            proof {
                let prev = strings_view(v@.take(i as int));
                assert(prev.insert(prev.len() as int, x@) =~= prev.push(x@));
                lemma_insert_to_set(prev, prev.len() as int, x@);
            }
            assert(before.to_set().contains(x@));
            assert(before.to_set().insert(x@) =~= before.to_set());
        } else {
            if p < r.len() {
                proof { lemma_text_lt_total(before[p as int], x@); }
            }
            r.insert(p, x.clone());
            assert(strings_view(r@) =~= before.insert(p as int, x@));
            proof { lemma_insert_strictly_sorted(before, p as int, x@); }
            proof { lemma_insert_to_set(before, p as int, x@); }
            proof {
                let prev = strings_view(v@.take(i as int));
                assert(prev.insert(prev.len() as int, x@) =~= prev.push(x@));
                lemma_insert_to_set(prev, prev.len() as int, x@);
            }
        }
        i = i + 1;
    }
    assert(v@.take(v@.len() as int) =~= v@);
    r
}

/// The names of `v`, sorted.
pub fn sort_strings(v: Vec<String>) -> (r: Vec<String>)
    ensures
        texts_sorted(strings_view(r@)),
        strings_view(r@).to_multiset() == strings_view(v@).to_multiset(),
{
    let mut r: Vec<String> = Vec::new();
    let mut i: usize = 0;
    assert(strings_view(v@.take(0)) =~= strings_view(r@));
    while i < v.len()
        invariant
            i <= v@.len(),
            texts_sorted(strings_view(r@)),
            strings_view(r@).to_multiset() == strings_view(v@.take(i as int)).to_multiset(),
        decreases v.len() - i,
    {
        let ghost before = strings_view(r@);
        let x = &v[i];
        let mut p: usize = 0;
        while p < r.len() && !text_less(x.as_str(), r[p].as_str())
            invariant
                p <= r@.len(),
                before == strings_view(r@),
                forall|k: int| 0 <= k < p ==> !text_lt(x@, #[trigger] before[k]),
            decreases r.len() - p,
        {
            p = p + 1;
        }
        r.insert(p, x.clone());
        assert(strings_view(r@) =~= before.insert(p as int, x@));
        proof { lemma_insert_sorted(before, p as int, x@); }
        proof { lemma_insert_to_multiset(before, p as int, x@); }
        assert(strings_view(v@.take(i + 1)) =~= strings_view(v@.take(i as int)).push(x@));
        proof {
            broadcast use vstd::seq_lib::group_to_multiset_ensures;
        }
        i = i + 1;
    }
    assert(v@.take(v@.len() as int) =~= v@);
    r
}

// ---------------------------------------------------------------------------
// Entries keyed by a name

/// The names of the entries of `s`, in order.
pub open spec fn names_of<T>(s: Seq<(String, T)>) -> Seq<Seq<char>> {
    s.map_values(|e: (String, T)| e.0@)
}

/// The entries of `s` named `k`, in order.
pub open spec fn named<T>(s: Seq<(String, T)>, k: Seq<char>) -> Seq<(String, T)>
    decreases s.len(),
{
    if s.len() == 0 {
        Seq::empty()
    } else {
        let rest = named(s.drop_last(), k);
        if s.last().0@ == k {
            rest.push(s.last())
        } else {
            rest
        }
    }
}

/// Picking the entries named `k` goes part by part.
pub proof fn lemma_named_concat<T>(a: Seq<(String, T)>, b: Seq<(String, T)>, k: Seq<char>)
    ensures
        named(a + b, k) == named(a, k) + named(b, k),
    decreases b.len(),
{
    if b.len() == 0 {
        assert(a + b =~= a);
        assert(named(b, k) =~= Seq::<(String, T)>::empty());
        assert(named(a, k) + named(b, k) =~= named(a, k));
    } else {
        lemma_named_concat(a, b.drop_last(), k);
        assert((a + b).drop_last() =~= a + b.drop_last());
        assert((a + b).last() == b.last());
        if b.last().0@ == k {
            assert(named(a, k) + named(b, k) =~= (named(a, k) + named(b.drop_last(), k)).push(b.last()));
        }
    }
}

/// No entry is named `k` exactly when picking them gives nothing.
pub proof fn lemma_named_empty<T>(s: Seq<(String, T)>, k: Seq<char>)
    ensures
        named(s, k).len() == 0 <==> !names_of(s).contains(k),
    decreases s.len(),
{
    if s.len() > 0 {
        let d = s.drop_last();
        lemma_named_empty(d, k);
        let n = s.len() - 1;
        assert(names_of(s).len() == s.len());
        assert(names_of(s)[n] == s.last().0@);
        assert forall|j: int| 0 <= j < n implies names_of(s)[j] == #[trigger] names_of(d)[j] by {}
        if s.last().0@ == k {
            assert(names_of(s).contains(k));
        } else {
            if names_of(d).contains(k) {
                let j = choose|j: int| 0 <= j < names_of(d).len() && names_of(d)[j] == k;
                assert(names_of(s)[j] == k);
            }
            if names_of(s).contains(k) {
                let j = choose|j: int| 0 <= j < names_of(s).len() && names_of(s)[j] == k;
                assert(j < n);
                assert(names_of(d)[j] == k);
            }
        }
    } else {
        assert(!names_of(s).contains(k));
    }
}

/// The entries named `k` of a single entry.
pub proof fn lemma_named_single<T>(x: (String, T), k: Seq<char>)
    ensures
        named(seq![x], k) == (if x.0@ == k { seq![x] } else { Seq::<(String, T)>::empty() }),
{
    reveal_with_fuel(named, 2);
    assert(seq![x].drop_last() =~= Seq::<(String, T)>::empty());
    assert(seq![x].last() == x);
    assert(Seq::<(String, T)>::empty().push(x) =~= seq![x]);
}

/// Splitting `s` around `x` inserted at `p`.
pub proof fn lemma_named_insert<T>(s: Seq<(String, T)>, p: int, x: (String, T), k: Seq<char>)
    requires
        0 <= p <= s.len(),
    ensures
        named(s.insert(p, x), k) == named(s.take(p), k) + (if x.0@ == k { seq![x] } else {
            Seq::<(String, T)>::empty()
        }) + named(s.skip(p), k),
        named(s, k) == named(s.take(p), k) + named(s.skip(p), k),
{
    assert(s.insert(p, x) =~= s.take(p) + seq![x] + s.skip(p));
    assert(s =~= s.take(p) + s.skip(p));
    lemma_named_concat(s.take(p) + seq![x], s.skip(p), k);
    lemma_named_concat(s.take(p), seq![x], k);
    lemma_named_concat(s.take(p), s.skip(p), k);
    lemma_named_single(x, k);
}

/// The entries named `k` among the first `i + 1`.
pub proof fn lemma_named_take_step<T>(v: Seq<(String, T)>, i: int, k: Seq<char>)
    requires
        0 <= i < v.len(),
    ensures
        named(v.take(i + 1), k) == (if v[i].0@ == k { named(v.take(i), k).push(v[i]) } else {
            named(v.take(i), k)
        }),
{
    assert(v.take(i + 1).drop_last() =~= v.take(i));
    assert(v.take(i + 1).last() == v[i]);
}

/// The entries of `v` ordered by name; entries of one name keep their order.
pub fn sort_by_name<T>(v: Vec<(String, T)>) -> (r: Vec<(String, T)>)
    ensures
        texts_sorted(names_of(r@)),
        forall|k: Seq<char>| #[trigger] named(r@, k) == named(v@, k),
{
    let mut v = v;
    let mut rev: Vec<(String, T)> = Vec::new();
    let ghost orig = v@;
    while v.len() > 0
        invariant
            rev@.len() + v@.len() == orig.len(),
            v@ =~= orig.take(v@.len() as int),
            forall|j: int| 0 <= j < rev@.len() ==> #[trigger] rev@[j] == orig[orig.len() - 1 - j],
        decreases v.len(),
    {
        let x = v.pop().unwrap();
        rev.push(x);
    }
    let mut r: Vec<(String, T)> = Vec::new();
    let ghost n = orig.len();
    assert forall|k: Seq<char>| #[trigger] named(r@, k) == named(orig.take(0), k) by {
        assert(orig.take(0) =~= Seq::<(String, T)>::empty());
    }
    while rev.len() > 0
        invariant
            n == orig.len(),
            rev@.len() <= n,
            forall|j: int| 0 <= j < rev@.len() ==> #[trigger] rev@[j] == orig[n - 1 - j],
            texts_sorted(names_of(r@)),
            forall|k: Seq<char>| #[trigger] named(r@, k) == named(orig.take(n - rev@.len()), k),
        decreases rev.len(),
    {
        let ghost i: int = n - rev@.len();
        let x = rev.pop().unwrap();
        assert(x == orig[i]);
        let ghost before = r@;
        let mut p: usize = 0;
        while p < r.len() && !text_less(x.0.as_str(), r[p].0.as_str())
            invariant
                p <= r@.len(),
                before == r@,
                forall|q: int| 0 <= q < p ==> !text_lt(x.0@, #[trigger] names_of(before)[q]),
            decreases r.len() - p,
        {
            p = p + 1;
        }
        let ghost kx = x.0@;
        r.insert(p, x);
        proof {
            let pi = p as int;
            assert(names_of(r@) =~= names_of(before).insert(pi, kx));
            lemma_insert_sorted(names_of(before), pi, kx);
            assert forall|k: Seq<char>| #[trigger] named(r@, k) == named(orig.take(i + 1), k) by {
                lemma_named_insert(before, pi, x, k);
                lemma_named_take_step(orig, i, k);
                if k == kx {
                    assert forall|q: int| 0 <= q < before.skip(pi).len() implies names_of(before.skip(pi))[q] != k by {
                        assert(names_of(before.skip(pi))[q] == names_of(before)[pi + q]);
                        if q > 0 {
                            assert(!text_lt(names_of(before)[pi + q], names_of(before)[pi]));
                            if names_of(before)[pi + q] == kx {
                                lemma_text_lt_irreflexive(kx);
                            }
                        } else {
                            lemma_text_lt_irreflexive(kx);
                        }
                        if names_of(before)[pi + q] == kx && q > 0 {
                            lemma_text_lt_irreflexive(kx);
                        }
                    }
                    lemma_named_empty(before.skip(pi), k);
                    assert(named(before.skip(pi), k) =~= Seq::<(String, T)>::empty());
                    assert(named(r@, k) =~= named(before, k).push(x));
                } else {
                    assert(named(r@, k) =~= named(before, k));
                }
            }
        }
    }
    assert(orig.take(n as int) =~= orig);
    r
}

/// The first element of `s` alone, or nothing where `s` is empty.
pub open spec fn first_only<A>(s: Seq<A>) -> Seq<A> {
    if s.len() == 0 {
        Seq::empty()
    } else {
        seq![s[0]]
    }
}

/// The first entry of each name in `v`, ordered by name.
pub fn sort_unique_by_name<T>(v: Vec<(String, T)>) -> (r: Vec<(String, T)>)
    ensures
        texts_strictly_sorted(names_of(r@)),
        forall|k: Seq<char>| #[trigger] named(r@, k) == first_only(named(v@, k)),
{
    let mut v = v;
    let mut rev: Vec<(String, T)> = Vec::new();
    let ghost orig = v@;
    while v.len() > 0
        invariant
            rev@.len() + v@.len() == orig.len(),
            v@ =~= orig.take(v@.len() as int),
            forall|j: int| 0 <= j < rev@.len() ==> #[trigger] rev@[j] == orig[orig.len() - 1 - j],
        decreases v.len(),
    {
        let x = v.pop().unwrap();
        rev.push(x);
    }
    let mut r: Vec<(String, T)> = Vec::new();
    let ghost n = orig.len();
    assert forall|k: Seq<char>| #[trigger] named(r@, k) == first_only(named(orig.take(0), k)) by {
        assert(orig.take(0).len() == 0);
        assert(named(orig.take(0), k).len() == 0);
        assert(first_only(named(orig.take(0), k)) =~= Seq::<(String, T)>::empty());
    }
    while rev.len() > 0
        invariant
            n == orig.len(),
            rev@.len() <= n,
            forall|j: int| 0 <= j < rev@.len() ==> #[trigger] rev@[j] == orig[n - 1 - j],
            texts_strictly_sorted(names_of(r@)),
            forall|k: Seq<char>| #[trigger] named(r@, k) == first_only(named(orig.take(n - rev@.len()), k)),
        decreases rev.len(),
    {
        let ghost i: int = n - rev@.len();
        let x = rev.pop().unwrap();
        assert(x == orig[i]);
        let ghost before = r@;
        let ghost kx = x.0@;
        let mut p: usize = 0;
        while p < r.len() && text_less(r[p].0.as_str(), x.0.as_str())
            invariant
                p <= r@.len(),
                before == r@,
                kx == x.0@,
                forall|q: int| 0 <= q < p ==> text_lt(#[trigger] names_of(before)[q], kx),
            decreases r.len() - p,
        {
            assert(names_of(before)[p as int] == r@[p as int].0@);
            p = p + 1;
        }
        if p < r.len() && str_eq(r[p].0.as_str(), x.0.as_str()) {
            proof {
                assert(names_of(before)[p as int] == kx);
                lemma_named_empty(before, kx);
                assert(named(before, kx).len() > 0);
                assert(first_only(named(orig.take(i), kx)).len() > 0);
                assert forall|k: Seq<char>| #[trigger] named(r@, k) == first_only(named(orig.take(i + 1), k)) by {
                    lemma_named_take_step(orig, i, k);
                    if k == kx {
                        assert(first_only(named(orig.take(i + 1), k)) =~= first_only(named(orig.take(i), k)));
                    }
                }
            }
        } else {
            let ghost pi = p as int;
            proof {
                if p < r.len() {
                    lemma_text_lt_total(names_of(before)[pi], kx);
                }
                assert forall|q: int| 0 <= q < names_of(before).len() implies names_of(before)[q] != kx by {
                    if q < pi {
                        lemma_text_lt_irreflexive(kx);
                    } else {
                        if q > pi {
                            assert(text_lt(names_of(before)[pi], names_of(before)[q]));
                            lemma_text_lt_transitive(kx, names_of(before)[pi], names_of(before)[q]);
                        }
                        lemma_text_lt_irreflexive(kx);
                    }
                }
                lemma_named_empty(before, kx);
            }
            r.insert(p, x);
            proof {
                assert(names_of(r@) =~= names_of(before).insert(pi, kx));
                lemma_insert_strictly_sorted(names_of(before), pi, kx);
                assert forall|k: Seq<char>| #[trigger] named(r@, k) == first_only(named(orig.take(i + 1), k)) by {
                    lemma_named_insert(before, pi, x, k);
                    lemma_named_take_step(orig, i, k);
                    if k == kx {
                        assert(named(before, kx).len() == 0);
                        assert(first_only(named(orig.take(i), kx)).len() == 0);
                        assert(named(orig.take(i), kx).len() == 0);
                        assert(named(before.take(pi), k).len() == 0);
                        assert(named(before.skip(pi), k).len() == 0);
                        assert(named(r@, k) =~= seq![x]);
                        assert(named(orig.take(i + 1), k) =~= seq![x]);
                    } else {
                        assert(named(r@, k) =~= named(before, k));
                    }
                }
            }
        }
    }
    assert(orig.take(n as int) =~= orig);
    r
}

/// Sequences with the same elements, counted, have the same elements.
pub proof fn lemma_multiset_to_set<A>(s: Seq<A>, t: Seq<A>)
    requires
        s.to_multiset() == t.to_multiset(),
    ensures
        s.to_set() == t.to_set(),
{
    broadcast use vstd::seq_lib::group_to_multiset_ensures;

    assert forall|x: A| s.to_set().contains(x) <==> t.to_set().contains(x) by {
        assert(s.contains(x) <==> s.to_multiset().count(x) > 0);
        assert(t.contains(x) <==> t.to_multiset().count(x) > 0);
    }
    assert(s.to_set() =~= t.to_set());
}

} // verus!
