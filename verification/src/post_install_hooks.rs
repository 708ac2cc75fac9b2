use vstd::prelude::*;

pub mod openssl;
pub mod python;

use crate::order::{sort_strings, texts_sorted};
use crate::text::{decimal, digit_char, strings_view};

verus! {

// ---------------------------------------------------------------------------
// Unsigned decimal numbers, as `str::parse::<u64>` reads them

/// An ASCII decimal digit.
pub open spec fn is_digit(c: char) -> bool {
    '0' <= c && c <= '9'
}

/// The value of a run of decimal digits.
pub open spec fn digits_value(d: Seq<char>) -> nat
    decreases d.len(),
{
    if d.len() == 0 {
        0
    } else {
        digits_value(d.drop_last()) * 10 + ((d.last() as int) - ('0' as int)) as nat
    }
}

/// The digits of a number's text: what follows one optional `+`.
pub open spec fn number_digits(s: Seq<char>) -> Seq<char> {
    if s.len() > 0 && s[0] == '+' {
        s.drop_first()
    } else {
        s
    }
}

/// The value of an unsigned number's text: an optional `+` and at least one
/// digit, nothing else.
pub open spec fn unsigned_value(s: Seq<char>) -> Option<nat> {
    let d = number_digits(s);
    if d.len() > 0 && forall|i: int| 0 <= i < d.len() ==> #[trigger] is_digit(d[i]) {
        Some(digits_value(d))
    } else {
        None
    }
}

/// Reads an unsigned 64-bit number: `None` for anything but an optional `+`
/// and digits, or a value too large.
pub fn parse_u64(text: &str) -> (r: Option<u64>)
    ensures
        r is Some <==> (unsigned_value(text@) matches Some(v) && v <= u64::MAX),
        r matches Some(x) ==> unsigned_value(text@) == Some(x as nat),
{
    let v = crate::text::chars_of(text);
    let mut start: usize = 0;
    if v.len() > 0 && v[0] == '+' {
        start = 1;
    }
    let ghost d = number_digits(text@);
    assert(d =~= v@.skip(start as int));
    if start >= v.len() {
        return None;
    }
    let mut value: u64 = 0;
    let mut i: usize = start;
    let mut overflow = false;
    assert(d.take(0) =~= Seq::<char>::empty());
    while i < v.len()
        invariant
            v@ == text@,
            d == v@.skip(start as int),
            d == number_digits(text@),
            start <= i <= v@.len(),
            forall|j: int| start <= j < i ==> is_digit(#[trigger] v@[j]),
            !overflow ==> value as nat == digits_value(d.take(i - start)),
            overflow ==> digits_value(d.take(i - start)) > u64::MAX,
        decreases v.len() - i,
    {
        let c = v[i];
        if !('0' <= c && c <= '9') {
            assert(d[i - start] == c);
            assert(!is_digit(d[i - start]));
            return None;
        }
        let digit = (c as u32 - '0' as u32) as u64;
        let ghost k = i - start;
        assert(d.take(k + 1).drop_last() =~= d.take(k));
        assert(d.take(k + 1).last() == c);
        if overflow {
            proof {
                assert(digits_value(d.take(k + 1)) >= digits_value(d.take(k)) * 10) by (nonlinear_arith)
                    requires
                        digits_value(d.take(k + 1)) == digits_value(d.take(k)) * 10 + ((c as int) - ('0' as int)) as nat,
                        (c as int) >= ('0' as int);
                assert(digits_value(d.take(k)) * 10 >= digits_value(d.take(k))) by (nonlinear_arith);
            }
        } else {
            match value.checked_mul(10) {
                Some(m) => match m.checked_add(digit) {
                    Some(n) => {
                        value = n;
                    },
                    None => {
                        overflow = true;
                    },
                },
                None => {
                    overflow = true;
                    proof {
                        assert(digits_value(d.take(k + 1)) >= digits_value(d.take(k)) * 10) by (nonlinear_arith)
                            requires
                                digits_value(d.take(k + 1)) == digits_value(d.take(k)) * 10 + ((c as int) - ('0' as int)) as nat,
                                (c as int) >= ('0' as int);
                    }
                },
            }
        }
        i = i + 1;
    }
    assert(d.take(d.len() as int) =~= d);
    assert forall|j: int| 0 <= j < d.len() implies #[trigger] is_digit(d[j]) by {
        assert(d[j] == v@[start + j]);
    }
    if overflow {
        None
    } else {
        Some(value)
    }
}

// ---------------------------------------------------------------------------
// The stub manifest

/// Appends `value` unless it is there already.
pub fn push_unique_string(values: &mut Vec<String>, value: String)
    ensures
        strings_view(old(values)@).contains(value@) ==> strings_view(final(values)@) == strings_view(old(values)@),
        !strings_view(old(values)@).contains(value@) ==> strings_view(final(values)@) == strings_view(old(values)@).push(value@),
{
    if crate::stubs::contains_name(values, value.as_str()) {
        return;
    }
    let ghost prev = strings_view(values@);
    values.push(value);
    assert(strings_view(values@) =~= prev.push(value@));
}

/// `names` with each of `more` appended unless already there.
pub open spec fn with_unique(names: Seq<Seq<char>>, more: Seq<Seq<char>>) -> Seq<Seq<char>>
    decreases more.len(),
{
    if more.len() == 0 {
        names
    } else {
        let before = with_unique(names, more.drop_last());
        if before.contains(more.last()) {
            before
        } else {
            before.push(more.last())
        }
    }
}

/// The stub manifest once the stubs that post-install steps manage are
/// recorded, sorted; `None` where the steps manage none and the manifest
/// stays as it is.
pub fn merge_managed_stubs(manifest: Vec<String>, managed: &Vec<String>) -> (r: Option<Vec<String>>)
    ensures
        r is None <==> managed@.len() == 0,
        r matches Some(m) ==> texts_sorted(strings_view(m@)) && strings_view(m@).to_multiset() == with_unique(
            strings_view(manifest@),
            strings_view(managed@),
        ).to_multiset(),
{
    if managed.len() == 0 {
        return None;
    }
    let ghost ms = strings_view(managed@);
    let ghost base = strings_view(manifest@);
    let mut stubs = manifest;
    let mut i: usize = 0;
    assert(ms.take(0) =~= Seq::<Seq<char>>::empty());
    while i < managed.len()
        invariant
            ms == strings_view(managed@),
            i <= managed@.len(),
            strings_view(stubs@) == with_unique(base, ms.take(i as int)),
        decreases managed.len() - i,
    {
        assert(ms.take(i + 1).drop_last() =~= ms.take(i as int));
        assert(ms.take(i + 1).last() == managed@[i as int]@);
        push_unique_string(&mut stubs, managed[i].clone());
        i = i + 1;
    }
    assert(ms.take(ms.len() as int) =~= ms);
    Some(sort_strings(stubs))
}

// ---------------------------------------------------------------------------
// Which formulae have a step after install

/// A formula with a step after install: OpenSSL 3 or a versioned Python.
pub open spec fn has_post_install(formula: Seq<char>) -> bool {
    formula == "openssl@3"@ || python::python_formula_version(formula) is Some
}

/// Whether a formula has a step after install.
pub fn supports(formula: &str) -> (r: bool)
    ensures
        r == has_post_install(formula@),
{
    openssl::supports(formula) || python::supports(formula)
}

/// The root formula of an installed package whose receipt names one with a
/// step after install.
pub fn installed_post_install_formula(receipt: Option<crate::info::PackageReceipt>) -> (r: Option<String>)
    ensures
        match receipt {
            Some(rc) => match rc.source {
                crate::info::PackageReceiptSource::Formula { root_formula } => if has_post_install(root_formula@) {
                    r == Some(root_formula)
                } else {
                    r is None
                },
                _ => r is None,
            },
            None => r is None,
        },
{
    match receipt {
        Some(rc) => match rc.source {
            crate::info::PackageReceiptSource::Formula { root_formula } => {
                if supports(root_formula.as_str()) {
                    Some(root_formula)
                } else {
                    None
                }
            },
            _ => None,
        },
        None => None,
    }
}

proof fn lemma_decimal_digits(n: nat)
    ensures
        forall|i: int| 0 <= i < decimal(n).len() ==> #[trigger] is_digit(decimal(n)[i]),
        decimal(n).len() > 0,
        digits_value(decimal(n)) == n,
    decreases n,
{
    if n < 10 {
        let c = digit_char(n);
        assert(decimal(n) =~= seq![c]);
        assert(seq![c].drop_last() =~= Seq::<char>::empty());
        assert(seq![c].last() == c);
        assert((c as int) - ('0' as int) == n);
        assert(is_digit(c));
        assert(digits_value(seq![c]) == digits_value(Seq::<char>::empty()) * 10 + ((c as int) - ('0' as int)) as nat);
        assert(digits_value(decimal(n)) == n);
    } else {
        lemma_decimal_digits(n / 10);
        let d = decimal(n / 10);
        let c = digit_char(n % 10);
        assert(decimal(n) == d.push(c));
        assert(d.push(c).drop_last() =~= d);
        assert((c as int) - ('0' as int) == n % 10);
        assert(is_digit(c));
        assert(d.push(c).last() == c);
        assert(digits_value(d.push(c)) == digits_value(d) * 10 + ((c as int) - ('0' as int)) as nat);
        assert((n / 10) * 10 + n % 10 == n) by (nonlinear_arith);
        assert(digits_value(decimal(n)) == n);
        assert forall|i: int| 0 <= i < d.push(c).len() implies #[trigger] is_digit(d.push(c)[i]) by {
            if i < d.len() {
                assert(d.push(c)[i] == d[i]);
            }
        }
    }
}

/// A number's decimal text, as `u64`'s `Display` writes it, reads back as the
/// number.
pub proof fn law_decimal_reads_back(n: u64)
    ensures
        unsigned_value(decimal(n as nat)) == Some(n as nat),
{
    lemma_decimal_digits(n as nat);
    assert(is_digit(decimal(n as nat)[0]));
    assert(decimal(n as nat)[0] != '+');
}

} // verus!
