use vstd::prelude::*;

use crate::post_install_hooks::unsigned_value;
use crate::post_install_hooks::parse_u64;
use crate::text::{
    after_first, after_prefix, before_first, concat2, decimal, decimal_text, has_prefix, owned,
    split_once, strings_view, strip_prefix,
};
use crate::version::Version;

verus! {

/// The Python version a `python@major.minor` formula names.
pub open spec fn python_formula_version(formula: Seq<char>) -> Option<(nat, nat)> {
    if !has_prefix(formula, "python@"@) {
        None
    } else {
        let v = after_prefix(formula, "python@"@);
        if !v.contains('.') {
            None
        } else {
            let major = before_first(v, '.');
            let minor = after_first(v, '.');
            if minor.contains('.') {
                None
            } else {
                match (unsigned_value(major), unsigned_value(minor)) {
                    (Some(a), Some(b)) => if a <= u64::MAX && b <= u64::MAX {
                        Some((a, b))
                    } else {
                        None
                    },
                    _ => None,
                }
            }
        }
    }
}

/// The version `major.minor.0` a `python@major.minor` formula names.
pub fn parse_formula_version(formula: &str) -> (r: Option<Version>)
    ensures
        match python_formula_version(formula@) {
            Some((a, b)) => r matches Some(v) && v.major == a && v.minor == b && v.patch == 0
                && v.pre@.len() == 0 && v.build@.len() == 0,
            None => r is None,
        },
{
    let version = match strip_prefix(formula, "python@") {
        Some(v) => v,
        None => return None,
    };
    let (major, minor) = match split_once(version.as_str(), '.') {
        Some(parts) => parts,
        None => return None,
    };
    if crate::text::contains_char(minor.as_str(), '.') {
        return None;
    }
    let a = match parse_u64(major.as_str()) {
        Some(a) => a,
        None => return None,
    };
    let b = match parse_u64(minor.as_str()) {
        Some(b) => b,
        None => return None,
    };
    Some(Version { major: a, minor: b, patch: 0, pre: String::new(), build: String::new() })
}

/// Python formulae link their unversioned commands after install.
pub fn supports(formula: &str) -> (r: bool)
    ensures
        r == (python_formula_version(formula@) is Some),
{
    parse_formula_version(formula).is_some()
}

/// The stubs of one Python: `python{major}.{minor}` and `pip{major}.{minor}`.
pub fn python_stub_names(version: &Version) -> (r: (String, String))
    ensures
        r.0@ == "python"@ + decimal(version.major as nat) + "."@ + decimal(version.minor as nat),
        r.1@ == "pip"@ + decimal(version.major as nat) + "."@ + decimal(version.minor as nat),
{
    let major = decimal_text(version.major);
    let minor = decimal_text(version.minor);
    let mut python = concat2("python", major.as_str());
    python.append(".");
    python.append(minor.as_str());
    let mut pip = concat2("pip", major.as_str());
    pip.append(".");
    pip.append(minor.as_str());
    (python, pip)
}

/// The stubs the Python step manages: `pip`, `pip{major}`, `python`, `python{major}`.
pub fn python_managed_stubs(major: u64) -> (r: Vec<String>)
    ensures
        strings_view(r@) == seq!["pip"@, "pip"@ + decimal(major as nat), "python"@, "python"@ + decimal(major as nat)],
{
    let m = decimal_text(major);
    let mut r: Vec<String> = Vec::new();
    r.push(owned("pip"));
    r.push(concat2("pip", m.as_str()));
    r.push(owned("python"));
    r.push(concat2("python", m.as_str()));
    assert(strings_view(r@) =~= seq!["pip"@, "pip"@ + decimal(major as nat), "python"@, "python"@ + decimal(major as nat)]);
    r
}

/// `a` is an older Python than `b`: by major, then minor version.
pub open spec fn python_older(a: Version, b: Version) -> bool {
    a.major < b.major || (a.major == b.major && a.minor < b.minor)
}

/// The newest of the Pythons found (the first of equals), if any.
pub fn newest_python(versions: &Vec<Version>) -> (r: Option<usize>)
    ensures
        r is None <==> versions@.len() == 0,
        r matches Some(i) ==> i < versions@.len()
            && (forall|j: int| 0 <= j < versions@.len() ==> !python_older(versions@[i as int], #[trigger] versions@[j]))
            && (forall|j: int| 0 <= j < i ==> python_older(#[trigger] versions@[j], versions@[i as int])),
{
    if versions.len() == 0 {
        return None;
    }
    let mut best: usize = 0;
    let mut i: usize = 1;
    while i < versions.len()
        invariant
            0 <= best < i <= versions@.len(),
            forall|j: int| 0 <= j < i ==> !python_older(versions@[best as int], #[trigger] versions@[j]),
            forall|j: int| 0 <= j < best ==> python_older(#[trigger] versions@[j], versions@[best as int]),
        decreases versions.len() - i,
    {
        let a = &versions[best];
        let b = &versions[i];
        if a.major < b.major || (a.major == b.major && a.minor < b.minor) {
            best = i;
        }
        i = i + 1;
    }
    Some(best)
}


} // verus!
