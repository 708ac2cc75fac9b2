use vstd::prelude::*;

verus! {

/// `p` is a prefix of `s`.
pub open spec fn has_prefix(s: Seq<char>, p: Seq<char>) -> bool {
    p.len() <= s.len() && s.subrange(0, p.len() as int) == p
}

/// What is left of `s` once the prefix `p` is removed (meaningful when `has_prefix(s, p)`).
pub open spec fn after_prefix(s: Seq<char>, p: Seq<char>) -> Seq<char> {
    s.subrange(p.len() as int, s.len() as int)
}

/// `s` without the prefix `p` when it has it, else `s` unchanged
/// (`strip_prefix(p).unwrap_or(s)`).
pub open spec fn strip_or_keep(s: Seq<char>, p: Seq<char>) -> Seq<char> {
    if has_prefix(s, p) { after_prefix(s, p) } else { s }
}

/// The views of a sequence of strings.
pub open spec fn strings_view(v: Seq<String>) -> Seq<Seq<char>> {
    v.map_values(|s: String| s@)
}

/// `s` split at the first occurrence of `c`: the part before it and the part after it.
pub open spec fn is_split_at_first(s: Seq<char>, c: char, before: Seq<char>, after: Seq<char>) -> bool {
    &&& s == before + seq![c] + after
    &&& !before.contains(c)
}

/// `s` split at the last occurrence of `c`.
pub open spec fn is_split_at_last(s: Seq<char>, c: char, before: Seq<char>, after: Seq<char>) -> bool {
    &&& s == before + seq![c] + after
    &&& !after.contains(c)
}

/// The part of `s` before the first `c` (all of `s` when there is none).
pub open spec fn before_first(s: Seq<char>, c: char) -> Seq<char>
    decreases s.len(),
{
    if s.len() == 0 {
        s
    } else if s[0] == c {
        Seq::empty()
    } else {
        seq![s[0]] + before_first(s.drop_first(), c)
    }
}

/// The part of `s` after the first `c` (empty when there is none).
pub open spec fn after_first(s: Seq<char>, c: char) -> Seq<char>
    decreases s.len(),
{
    if s.len() == 0 {
        s
    } else if s[0] == c {
        s.drop_first()
    } else {
        after_first(s.drop_first(), c)
    }
}

/// The part of `s` before the last `c` (empty when there is none).
pub open spec fn before_last(s: Seq<char>, c: char) -> Seq<char>
    decreases s.len(),
{
    if s.len() == 0 {
        s
    } else if s.last() == c {
        s.drop_last()
    } else {
        before_last(s.drop_last(), c)
    }
}

/// The part of `s` after the last `c` (all of `s` when there is none).
pub open spec fn after_last(s: Seq<char>, c: char) -> Seq<char>
    decreases s.len(),
{
    if s.len() == 0 {
        s
    } else if s.last() == c {
        Seq::empty()
    } else {
        after_last(s.drop_last(), c) + seq![s.last()]
    }
}

/// A split at the first `c` is the one `before_first` and `after_first` describe.
pub proof fn lemma_split_first(s: Seq<char>, c: char, a: Seq<char>, b: Seq<char>)
    requires
        is_split_at_first(s, c, a, b),
    ensures
        a == before_first(s, c),
        b == after_first(s, c),
    decreases a.len(),
{
    if a.len() == 0 {
        assert(s[0] == c);
        assert(s.drop_first() =~= b);
    } else {
        assert(s[0] == a[0]);
        assert(s[0] != c) by {
            assert(a.contains(a[0]));
        }
        let a2 = a.drop_first();
        assert(s.drop_first() =~= a2 + seq![c] + b);
        assert(!a2.contains(c)) by {
            if a2.contains(c) {
                let k = choose|k: int| 0 <= k < a2.len() && a2[k] == c;
                assert(a[k + 1] == c);
            }
        }
        lemma_split_first(s.drop_first(), c, a2, b);
        assert(a =~= seq![s[0]] + a2);
    }
}

/// A split at the last `c` is the one `before_last` and `after_last` describe.
pub proof fn lemma_split_last(s: Seq<char>, c: char, a: Seq<char>, b: Seq<char>)
    requires
        is_split_at_last(s, c, a, b),
    ensures
        a == before_last(s, c),
        b == after_last(s, c),
    decreases b.len(),
{
    if b.len() == 0 {
        assert(s.last() == c);
        assert(s.drop_last() =~= a);
    } else {
        assert(s.last() == b.last());
        assert(s.last() != c) by {
            assert(b.contains(b.last()));
        }
        let b2 = b.drop_last();
        assert(s.drop_last() =~= a + seq![c] + b2);
        assert(!b2.contains(c)) by {
            if b2.contains(c) {
                let k = choose|k: int| 0 <= k < b2.len() && b2[k] == c;
                assert(b[k] == c);
            }
        }
        lemma_split_last(s.drop_last(), c, a, b2);
        assert(b =~= b2 + seq![s.last()]);
    }
}

/// Without `c` in `s`, `before_first` is all of it and `after_last` too.
pub proof fn lemma_no_split(s: Seq<char>, c: char)
    requires
        !s.contains(c),
    ensures
        before_first(s, c) == s,
        after_last(s, c) == s,
    decreases s.len(),
{
    if s.len() > 0 {
        assert(s[0] != c);
        assert(s.last() != c) by {
            assert(s[s.len() - 1] == s.last());
        }
        assert(!s.drop_first().contains(c)) by {
            if s.drop_first().contains(c) {
                let k = choose|k: int| 0 <= k < s.drop_first().len() && s.drop_first()[k] == c;
                assert(s[k + 1] == c);
            }
        }
        assert(!s.drop_last().contains(c)) by {
            if s.drop_last().contains(c) {
                let k = choose|k: int| 0 <= k < s.drop_last().len() && s.drop_last()[k] == c;
                assert(s[k] == c);
            }
        }
        lemma_no_split(s.drop_first(), c);
        lemma_no_split(s.drop_last(), c);
        assert(s =~= seq![s[0]] + s.drop_first());
        assert(s =~= s.drop_last() + seq![s.last()]);
    }
}

/// Appends one character to a `String` (std's `String::push`).
#[verifier::external_body]
pub(crate) fn push_char(s: &mut String, c: char)
    ensures
        final(s)@ == old(s)@.push(c),
{
    s.push(c);
}

/// The characters of a string slice, in order.
pub fn chars_of(s: &str) -> (v: Vec<char>)
    ensures
        v@ == s@,
{
    let n = s.unicode_len();
    let mut v: Vec<char> = Vec::new();
    let mut i: usize = 0;
    while i < n
        invariant
            n == s@.len(),
            i <= n,
            v@ == s@.subrange(0, i as int),
        decreases n - i,
    {
        let c = s.get_char(i);
        v.push(c);
        i = i + 1;
    }
    v
}

/// A `String` holding exactly the characters of `v[from..to]`.
pub fn string_of_range(v: &Vec<char>, from: usize, to: usize) -> (s: String)
    requires
        from <= to <= v@.len(),
    ensures
        s@ == v@.subrange(from as int, to as int),
{
    let mut s = String::new();
    let mut i: usize = from;
    while i < to
        invariant
            from <= i <= to <= v@.len(),
            s@ == v@.subrange(from as int, i as int),
        decreases to - i,
    {
        push_char(&mut s, v[i]);
        i = i + 1;
    }
    s
}

/// A `String` holding exactly the characters of `v`.
pub fn string_of(v: &Vec<char>) -> (s: String)
    ensures
        s@ == v@,
{
    string_of_range(v, 0, v.len())
}

/// An owned copy of a string slice.
pub fn owned(s: &str) -> (r: String)
    ensures
        r@ == s@,
{
    s.to_owned()
}

/// Equality of two string slices, character by character.
pub fn str_eq(a: &str, b: &str) -> (r: bool)
    ensures
        r == (a@ == b@),
{
    let x = a.to_owned();
    let y = b.to_owned();
    x == y
}

/// `a` followed by `b`.
pub fn concat2(a: &str, b: &str) -> (r: String)
    ensures
        r@ == a@ + b@,
{
    let mut r = a.to_owned();
    r.append(b);
    r
}

/// `a`, `b` and `c` one after another.
pub fn concat3(a: &str, b: &str, c: &str) -> (r: String)
    ensures
        r@ == a@ + b@ + c@,
{
    let mut r = a.to_owned();
    r.append(b);
    r.append(c);
    r
}

/// Whether `c` occurs in `s`.
pub fn contains_char(s: &str, c: char) -> (r: bool)
    ensures
        r == s@.contains(c),
{
    let v = chars_of(s);
    let mut i: usize = 0;
    while i < v.len()
        invariant
            v@ == s@,
            i <= v@.len(),
            forall|j: int| 0 <= j < i ==> v@[j] != c,
        decreases v.len() - i,
    {
        if v[i] == c {
            assert(s@[i as int] == c);
            return true;
        }
        i = i + 1;
    }
    false
}

/// Whether `p` is a prefix of `v[from..]`.
pub fn chars_have_prefix_at(v: &Vec<char>, from: usize, p: &Vec<char>) -> (r: bool)
    requires
        from <= v@.len(),
    ensures
        r == has_prefix(v@.subrange(from as int, v@.len() as int), p@),
{
    let ghost rest = v@.subrange(from as int, v@.len() as int);
    if p.len() > v.len() - from {
        return false;
    }
    let mut i: usize = 0;
    while i < p.len()
        invariant
            from + p@.len() <= v@.len(),
            v@.len() <= usize::MAX,
            rest == v@.subrange(from as int, v@.len() as int),
            i <= p@.len(),
            forall|j: int| 0 <= j < i ==> rest[j] == p@[j],
        decreases p.len() - i,
    {
        if v[from + i] != p[i] {
            assert(rest.subrange(0, p@.len() as int)[i as int] != p@[i as int]);
            return false;
        }
        i = i + 1;
    }
    assert(rest.subrange(0, p@.len() as int) =~= p@);
    true
}

/// `s` without the prefix `p`, or `None` when `s` does not start with `p`.
pub fn strip_prefix(s: &str, p: &str) -> (r: Option<String>)
    ensures
        r is Some <==> has_prefix(s@, p@),
        r matches Some(rest) ==> rest@ == after_prefix(s@, p@),
{
    let v = chars_of(s);
    let pv = chars_of(p);
    assert(v@.subrange(0, v@.len() as int) =~= v@);
    if chars_have_prefix_at(&v, 0, &pv) {
        Some(string_of_range(&v, pv.len(), v.len()))
    } else {
        None
    }
}

/// `s` without the prefix `p` when it has it, else a copy of `s`.
pub fn strip_or_keep_text(s: &str, p: &str) -> (r: String)
    ensures
        r@ == strip_or_keep(s@, p@),
{
    match strip_prefix(s, p) {
        Some(rest) => rest,
        None => owned(s),
    }
}

/// Splits `s` at the first occurrence of `c`.
pub fn split_once(s: &str, c: char) -> (r: Option<(String, String)>)
    ensures
        r is Some <==> s@.contains(c),
        r matches Some(parts) ==> is_split_at_first(s@, c, parts.0@, parts.1@)
            && parts.0@ == before_first(s@, c) && parts.1@ == after_first(s@, c),
{
    let v = chars_of(s);
    let mut i: usize = 0;
    while i < v.len()
        invariant
            v@ == s@,
            i <= v@.len(),
            forall|j: int| 0 <= j < i ==> v@[j] != c,
        decreases v.len() - i,
    {
        if v[i] == c {
            let before = string_of_range(&v, 0, i);
            let after = string_of_range(&v, i + 1, v.len());
            proof {
                assert(s@ =~= before@ + seq![c] + after@);
                assert forall|j: int| 0 <= j < before@.len() implies before@[j] != c by {}
                lemma_split_first(s@, c, before@, after@);
            }
            return Some((before, after));
        }
        i = i + 1;
    }
    None
}

/// Splits `s` at the last occurrence of `c`.
pub fn rsplit_once(s: &str, c: char) -> (r: Option<(String, String)>)
    ensures
        r is Some <==> s@.contains(c),
        r matches Some(parts) ==> is_split_at_last(s@, c, parts.0@, parts.1@)
            && parts.0@ == before_last(s@, c) && parts.1@ == after_last(s@, c),
{
    let v = chars_of(s);
    let mut i: usize = v.len();
    while i > 0
        invariant
            v@ == s@,
            i <= v@.len(),
            forall|j: int| i <= j < v@.len() ==> v@[j] != c,
        decreases i,
    {
        if v[i - 1] == c {
            let before = string_of_range(&v, 0, i - 1);
            let after = string_of_range(&v, i, v.len());
            proof {
                assert(s@ =~= before@ + seq![c] + after@);
                assert forall|j: int| 0 <= j < after@.len() implies after@[j] != c by {
                    assert(after@[j] == v@[i + j]);
                }
                lemma_split_last(s@, c, before@, after@);
            }
            return Some((before, after));
        }
        i = i - 1;
    }
    None
}

/// The decimal digit for `d` (`d < 10`).
pub open spec fn digit_char(d: nat) -> char {
    if d == 0 { '0' }
    else if d == 1 { '1' }
    else if d == 2 { '2' }
    else if d == 3 { '3' }
    else if d == 4 { '4' }
    else if d == 5 { '5' }
    else if d == 6 { '6' }
    else if d == 7 { '7' }
    else if d == 8 { '8' }
    else { '9' }
}

/// The decimal representation of `n`, without leading zeros.
pub open spec fn decimal(n: nat) -> Seq<char>
    decreases n,
{
    if n < 10 {
        seq![digit_char(n)]
    } else {
        decimal(n / 10).push(digit_char(n % 10))
    }
}

fn digit_of(d: u64) -> (c: char)
    requires
        d < 10,
    ensures
        c == digit_char(d as nat),
{
    if d == 0 { '0' }
    else if d == 1 { '1' }
    else if d == 2 { '2' }
    else if d == 3 { '3' }
    else if d == 4 { '4' }
    else if d == 5 { '5' }
    else if d == 6 { '6' }
    else if d == 7 { '7' }
    else if d == 8 { '8' }
    else { '9' }
}

/// Decimal text of an unsigned integer (what `u64`'s `Display` prints).
pub fn decimal_text(n: u64) -> (s: String)
    ensures
        s@ == decimal(n as nat),
    decreases n,
{
    if n < 10 {
        let mut s = String::new();
        push_char(&mut s, digit_of(n));
        s
    } else {
        let mut s = decimal_text(n / 10);
        push_char(&mut s, digit_of(n % 10));
        s
    }
}

} // verus!
