use vstd::prelude::*;

use crate::text::{
    after_first, after_last, before_first, chars_of, concat2, contains_char, is_split_at_first,
    owned, rsplit_once, split_once, string_of_range, strip_prefix,
};

verus! {

// ---------------------------------------------------------------------------
// Characters

/// An ASCII letter or digit.
pub open spec fn is_ascii_alnum(c: char) -> bool {
    ('0' <= c <= '9') || ('a' <= c <= 'z') || ('A' <= c <= 'Z')
}

/// The ASCII lower-case form of `c` (other characters are left alone).
pub open spec fn ascii_lower(c: char) -> char {
    if 'A' <= c <= 'Z' {
        ((c as u32) + 32) as char
    } else {
        c
    }
}

/// One of the separators a pip name may use between words.
pub open spec fn is_pip_separator(c: char) -> bool {
    c == '-' || c == '_' || c == '.'
}

/// Whether `c` is an ASCII letter or digit.
pub fn ascii_alnum(c: char) -> (r: bool)
    ensures
        r == is_ascii_alnum(c),
{
    ('0' <= c && c <= '9') || ('a' <= c && c <= 'z') || ('A' <= c && c <= 'Z')
}

/// The ASCII lower-case form of `c`.
pub fn to_ascii_lower(c: char) -> (r: char)
    ensures
        r == ascii_lower(c),
{
    if 'A' <= c && c <= 'Z' {
        let b = c as u8;
        assert(b as u32 == c as u32);
        let r = (b + 32) as char;
        assert(r as u32 == c as u32 + 32);
        r
    } else {
        c
    }
}

// ---------------------------------------------------------------------------
// npm package names

pub open spec fn npm_empty_message() -> Seq<char> {
    "package qualifier 'npm:' is missing a package name"@
}

pub open spec fn npm_scope_message() -> Seq<char> {
    "scoped npm package names must be in the form @scope/name"@
}

pub open spec fn npm_separator_message() -> Seq<char> {
    "npm package names must not contain path separators"@
}

/// `rest` (a scoped name without its `@`) reads `scope/name`: exactly one `/`,
/// neither first nor last.
pub open spec fn is_scope_and_name(rest: Seq<char>) -> bool {
    exists|i: int|
        0 < i < rest.len() - 1 && rest[i] == '/' && !rest.subrange(0, i).contains('/')
            && !rest.subrange(i + 1, rest.len() as int).contains('/')
}

/// Why `package` is not an acceptable npm package name, if it is not.
pub open spec fn npm_name_problem(package: Seq<char>) -> Option<Seq<char>> {
    if package.len() == 0 {
        Some(npm_empty_message())
    } else if package[0] == '@' {
        if is_scope_and_name(package.drop_first()) {
            None
        } else {
            Some(npm_scope_message())
        }
    } else if package.contains('/') {
        Some(npm_separator_message())
    } else {
        None
    }
}

/// The same result as plain values.
pub open spec fn unit_result_view(r: Result<(), String>) -> Result<(), Seq<char>> {
    match r {
        Ok(()) => Ok(()),
        Err(m) => Err(m@),
    }
}

/// `Ok` when `problem` is `None`, else the problem as an error.
pub open spec fn problem_result(problem: Option<Seq<char>>) -> Result<(), Seq<char>> {
    match problem {
        Some(m) => Err(m),
        None => Ok(()),
    }
}

proof fn lemma_split_scope(rest: Seq<char>, scope: Seq<char>, name: Seq<char>)
    requires
        is_split_at_first(rest, '/', scope, name),
    ensures
        is_scope_and_name(rest) <==> (scope.len() > 0 && name.len() > 0 && !name.contains('/')),
{
    let i = scope.len() as int;
    assert(rest.subrange(0, i) =~= scope);
    assert(rest.subrange(i + 1, rest.len() as int) =~= name);
    assert(rest[i] == '/');
    if is_scope_and_name(rest) {
        let j = choose|j: int|
            0 < j < rest.len() - 1 && rest[j] == '/' && !rest.subrange(0, j).contains('/')
                && !rest.subrange(j + 1, rest.len() as int).contains('/');
        if j < i {
            assert(scope[j] == '/');
        } else if j > i {
            assert(rest.subrange(0, j)[i] == '/');
        }
    }
}

/// Checks an npm package name: non-empty, and either `@scope/name` or free of `/`.
pub fn validate_npm_package_name(package: &str) -> (r: Result<(), String>)
    ensures
        unit_result_view(r) == problem_result(npm_name_problem(package@)),
{
    let v = chars_of(package);
    if v.len() == 0 {
        return Err(owned("package qualifier 'npm:' is missing a package name"));
    }
    if v[0] == '@' {
        let scoped = string_of_range(&v, 1, v.len());
        assert(scoped@ =~= package@.drop_first());
        match split_once(scoped.as_str(), '/') {
            None => {
                proof {
                    if is_scope_and_name(scoped@) {
                        let j = choose|j: int| 0 < j < scoped@.len() - 1 && scoped@[j] == '/'
                            && !scoped@.subrange(0, j).contains('/')
                            && !scoped@.subrange(j + 1, scoped@.len() as int).contains('/');
                        assert(scoped@.contains('/'));
                    }
                }
                return Err(owned("scoped npm package names must be in the form @scope/name"));
            },
            Some((scope, name)) => {
                proof {
                    lemma_split_scope(scoped@, scope@, name@);
                }
                if scope.as_str().unicode_len() == 0 || name.as_str().unicode_len() == 0
                    || contains_char(name.as_str(), '/') {
                    return Err(owned("scoped npm package names must be in the form @scope/name"));
                }
                return Ok(());
            },
        }
    }
    if contains_char(package, '/') {
        return Err(owned("npm package names must not contain path separators"));
    }
    Ok(())
}

/// `npm:{package}`.
pub fn npm_package_display_name(package: &str) -> (r: String)
    ensures
        r@ == "npm:"@ + package@,
{
    concat2("npm:", package)
}

/// The path `rel` joined onto `base` as a Unix path: an absolute `rel` replaces
/// `base`; otherwise a `/` is put between them unless `base` is empty or already
/// ends with one.
pub open spec fn path_join(base: Seq<char>, rel: Seq<char>) -> Seq<char> {
    if rel.len() > 0 && rel[0] == '/' {
        rel
    } else if base.len() > 0 && base.last() != '/' {
        base + seq!['/'] + rel
    } else {
        base + rel
    }
}

/// Joins two Unix paths as `Path::join` does.
pub fn join_path(base: &str, rel: &str) -> (r: String)
    ensures
        r@ == path_join(base@, rel@),
{
    let rv = chars_of(rel);
    if rv.len() > 0 && rv[0] == '/' {
        return owned(rel);
    }
    let bv = chars_of(base);
    proof {
        reveal_strlit("/");
    }
    if bv.len() > 0 && bv[bv.len() - 1] != '/' {
        crate::text::concat3(base, "/", rel)
    } else {
        concat2(base, rel)
    }
}

/// Where an npm package is installed, relative to the npm root: `@scope` joined
/// with `name` for a scoped `@scope/name`, the name itself otherwise.
pub open spec fn npm_install_relative_path(package: Seq<char>) -> Seq<char> {
    if package.len() > 0 && package[0] == '@' && package.drop_first().contains('/') {
        let rest = package.drop_first();
        path_join("@"@ + before_first(rest, '/'), after_first(rest, '/'))
    } else {
        package
    }
}


/// The install path of an npm package relative to the npm root.
pub fn npm_package_install_relative_path(package: &str) -> (r: String)
    ensures
        r@ == npm_install_relative_path(package@),
{
    if let Some(scoped) = strip_prefix(package, "@") {
        proof {
            reveal_strlit("@");
            assert(package@.subrange(0, 1)[0] == package@[0]);
            assert(scoped@ =~= package@.drop_first());
        }
        if let Some((scope, name)) = split_once(scoped.as_str(), '/') {
            let at_scope = concat2("@", scope.as_str());
            return join_path(at_scope.as_str(), name.as_str());
        }
    }
    proof {
        reveal_strlit("@");
        assert("@"@ =~= seq!['@']);
        if package@.len() > 0 && package@[0] == '@' {
            assert(package@.subrange(0, 1) =~= seq!['@']);
        }
    }
    owned(package)
}

/// The last `/`-separated part of `package` (all of it when it has no `/`).
pub open spec fn last_path_part(package: Seq<char>) -> Seq<char> {
    after_last(package, '/')
}


/// The directory name an npm package is installed under: its last `/`-separated part.
pub fn npm_package_install_leaf_name(package: &str) -> (r: String)
    ensures
        r@ == last_path_part(package@),
{
    match rsplit_once(package, '/') {
        Some((_before, after)) => after,
        None => {
            proof {
                crate::text::lemma_no_split(package@, '/');
            }
            owned(package)
        },
    }
}

/// The executable an npm package provides: its install leaf name.
pub fn npm_package_executable_name(package: &str) -> (r: String)
    ensures
        r@ == last_path_part(package@),
{
    npm_package_install_leaf_name(package)
}

// ---------------------------------------------------------------------------
// pip package names

pub open spec fn pip_empty_message() -> Seq<char> {
    "package qualifier 'pip:' is missing a package name"@
}

pub open spec fn pip_separator_message() -> Seq<char> {
    "pip package names must not contain path separators"@
}

pub open spec fn pip_charset_message() -> Seq<char> {
    "pip package names may only contain ASCII letters, numbers, '.', '-' and '_'"@
}

/// A character a pip name may contain.
pub open spec fn is_pip_name_char(c: char) -> bool {
    is_ascii_alnum(c) || is_pip_separator(c)
}

/// Why `package` is not an acceptable pip package name, if it is not.
pub open spec fn pip_name_problem(package: Seq<char>) -> Option<Seq<char>> {
    if package.len() == 0 {
        Some(pip_empty_message())
    } else if package.contains('/') {
        Some(pip_separator_message())
    } else if !(forall|i: int| 0 <= i < package.len() ==> is_pip_name_char(#[trigger] package[i])) {
        Some(pip_charset_message())
    } else {
        None
    }
}

/// Checks a pip package name: non-empty, no `/`, only ASCII letters, digits, `.`, `-` and `_`.
pub fn validate_pip_package_name(package: &str) -> (r: Result<(), String>)
    ensures
        unit_result_view(r) == problem_result(pip_name_problem(package@)),
{
    let v = chars_of(package);
    if v.len() == 0 {
        return Err(owned("package qualifier 'pip:' is missing a package name"));
    }
    if contains_char(package, '/') {
        return Err(owned("pip package names must not contain path separators"));
    }
    let mut i: usize = 0;
    while i < v.len()
        invariant
            v@ == package@,
            package@.len() > 0,
            !package@.contains('/'),
            i <= v@.len(),
            forall|j: int| 0 <= j < i ==> is_pip_name_char(#[trigger] v@[j]),
        decreases v.len() - i,
    {
        let c = v[i];
        if !(ascii_alnum(c) || c == '-' || c == '_' || c == '.') {
            assert(!is_pip_name_char(package@[i as int]));
            assert(!(forall|j: int| 0 <= j < package@.len() ==> is_pip_name_char(#[trigger] package@[j])));
            return Err(owned("pip package names may only contain ASCII letters, numbers, '.', '-' and '_'"));
        }
        i = i + 1;
    }
    Ok(())
}

/// One step of pip name normalisation: the text so far and whether it ends in
/// a separator, after reading `ch`. Letters and digits are kept in lower case,
/// a run of separators becomes one `-`, anything else is dropped.
pub open spec fn pip_norm_step(state: (Seq<char>, bool), ch: char) -> (Seq<char>, bool) {
    let lower = ascii_lower(ch);
    if is_ascii_alnum(lower) {
        (state.0.push(lower), false)
    } else if is_pip_separator(lower) && !state.1 {
        (state.0.push('-'), true)
    } else {
        state
    }
}

/// Normalisation of `s` before the outer dashes are trimmed.
pub open spec fn pip_norm_scan(s: Seq<char>) -> (Seq<char>, bool)
    decreases s.len(),
{
    if s.len() == 0 {
        (Seq::empty(), false)
    } else {
        pip_norm_step(pip_norm_scan(s.drop_last()), s.last())
    }
}

/// `s` without its leading dashes.
pub open spec fn trim_start_dashes(s: Seq<char>) -> Seq<char>
    decreases s.len(),
{
    if s.len() > 0 && s[0] == '-' {
        trim_start_dashes(s.drop_first())
    } else {
        s
    }
}

/// `s` without its trailing dashes.
pub open spec fn trim_end_dashes(s: Seq<char>) -> Seq<char>
    decreases s.len(),
{
    if s.len() > 0 && s.last() == '-' {
        trim_end_dashes(s.drop_last())
    } else {
        s
    }
}

/// The normalised form of a pip package name.
pub open spec fn normalized_pip_name(s: Seq<char>) -> Seq<char> {
    trim_end_dashes(trim_start_dashes(pip_norm_scan(s).0))
}

/// Normalises a pip package name: ASCII letters lower-cased, each run of `-`,
/// `_` and `.` turned into one `-`, other characters dropped, and no `-` left
/// at either end.
pub fn normalize_pip_package_name(package: &str) -> (r: String)
    ensures
        r@ == normalized_pip_name(package@),
{
    let v = chars_of(package);
    let mut out: Vec<char> = Vec::new();
    let mut saw_separator = false;
    let mut i: usize = 0;
    while i < v.len()
        invariant
            v@ == package@,
            i <= v@.len(),
            (out@, saw_separator) == pip_norm_scan(v@.subrange(0, i as int)),
        decreases v.len() - i,
    {
        let ghost before = v@.subrange(0, i as int);
        let lower = to_ascii_lower(v[i]);
        if ascii_alnum(lower) {
            out.push(lower);
            saw_separator = false;
        } else if (lower == '-' || lower == '_' || lower == '.') && !saw_separator {
            out.push('-');
            saw_separator = true;
        }
        assert(v@.subrange(0, i + 1).drop_last() =~= before);
        i = i + 1;
    }
    assert(v@.subrange(0, v@.len() as int) =~= v@);
    assert(out@.subrange(0, out@.len() as int) =~= out@);
    let mut start: usize = 0;
    while start < out.len() && out[start] == '-'
        invariant
            start <= out@.len(),
            trim_start_dashes(out@) == trim_start_dashes(out@.subrange(start as int, out@.len() as int)),
        decreases out.len() - start,
    {
        assert(out@.subrange(start as int, out@.len() as int).drop_first()
            =~= out@.subrange(start + 1, out@.len() as int));
        start = start + 1;
    }
    assert(out@.subrange(0, out@.len() as int) =~= out@);
    let ghost trimmed = out@.subrange(start as int, out@.len() as int);
    assert(trim_start_dashes(out@) == trimmed);
    let mut end: usize = out.len();
    while end > start && out[end - 1] == '-'
        invariant
            start <= end <= out@.len(),
            trimmed == out@.subrange(start as int, out@.len() as int),
            trim_end_dashes(trimmed) == trim_end_dashes(out@.subrange(start as int, end as int)),
        decreases end - start,
    {
        assert(out@.subrange(start as int, end as int).drop_last()
            =~= out@.subrange(start as int, end - 1));
        end = end - 1;
    }
    string_of_range(&out, start, end)
}

/// `pip:{package}`.
pub fn pip_package_display_name(package: &str) -> (r: String)
    ensures
        r@ == "pip:"@ + package@,
{
    concat2("pip:", package)
}

/// The directory name a pip package is installed under: its normalised name.
pub fn pip_package_install_leaf_name(package: &str) -> (r: String)
    ensures
        r@ == normalized_pip_name(package@),
{
    normalize_pip_package_name(package)
}

// ---------------------------------------------------------------------------
// The laws of pip name normalisation

/// A normalised pip name: lower-case ASCII letters, digits and single dashes,
/// with no dash at either end.
pub open spec fn is_normal_pip_name(t: Seq<char>) -> bool {
    &&& forall|i: int| 0 <= i < t.len() ==> is_normal_pip_char(#[trigger] t[i])
    &&& forall|i: int| 0 <= i < t.len() - 1 ==> !(#[trigger] t[i] == '-' && t[i + 1] == '-')
    &&& t.len() > 0 ==> t[0] != '-' && t.last() != '-'
}

/// A character of a normalised pip name.
pub open spec fn is_normal_pip_char(c: char) -> bool {
    (is_ascii_alnum(c) && ascii_lower(c) == c) || c == '-'
}

/// The text a scan builds holds only normalised characters, never two dashes
/// in a row, and its flag says whether it ends in a dash.
proof fn lemma_scan_shape(s: Seq<char>)
    ensures
        pip_norm_scan(s).1 <==> (pip_norm_scan(s).0.len() > 0 && pip_norm_scan(s).0.last() == '-'),
        forall|i: int| 0 <= i < pip_norm_scan(s).0.len() ==> is_normal_pip_char(#[trigger] pip_norm_scan(s).0[i]),
        forall|i: int| 0 <= i < pip_norm_scan(s).0.len() - 1 ==>
            !(#[trigger] pip_norm_scan(s).0[i] == '-' && pip_norm_scan(s).0[i + 1] == '-'),
    decreases s.len(),
{
    if s.len() > 0 {
        lemma_scan_shape(s.drop_last());
        let prev = pip_norm_scan(s.drop_last());
        let lower = ascii_lower(s.last());
        if 'A' <= s.last() <= 'Z' {
            assert(lower as u32 == s.last() as u32 + 32);
            assert('a' <= lower <= 'z');
        }
        assert(ascii_lower(lower) == lower);
        let cur = pip_norm_scan(s);
        assert forall|i: int| 0 <= i < cur.0.len() implies is_normal_pip_char(#[trigger] cur.0[i]) by {
            if i < prev.0.len() {
                assert(cur.0[i] == prev.0[i]);
            }
        }
        assert forall|i: int| 0 <= i < cur.0.len() - 1 implies !(#[trigger] cur.0[i] == '-' && cur.0[i + 1] == '-') by {
            if i + 1 < prev.0.len() {
                assert(cur.0[i] == prev.0[i]);
                assert(cur.0[i + 1] == prev.0[i + 1]);
            }
        }
    }
}

/// Trimming the leading dashes leaves a suffix that does not start with one.
proof fn lemma_trim_start(s: Seq<char>)
    ensures
        exists|k: int| 0 <= k <= s.len() && trim_start_dashes(s) == s.subrange(k, s.len() as int),
        trim_start_dashes(s).len() > 0 ==> trim_start_dashes(s)[0] != '-',
    decreases s.len(),
{
    if s.len() > 0 && s[0] == '-' {
        lemma_trim_start(s.drop_first());
        let k = choose|k: int| 0 <= k <= s.drop_first().len()
            && trim_start_dashes(s.drop_first()) == s.drop_first().subrange(k, s.drop_first().len() as int);
        assert(s.drop_first().subrange(k, s.drop_first().len() as int) =~= s.subrange(k + 1, s.len() as int));
    } else {
        assert(s.subrange(0, s.len() as int) =~= s);
    }
}

/// Trimming the trailing dashes leaves a prefix that does not end with one.
proof fn lemma_trim_end(s: Seq<char>)
    ensures
        exists|k: int| 0 <= k <= s.len() && trim_end_dashes(s) == s.subrange(0, k),
        trim_end_dashes(s).len() > 0 ==> trim_end_dashes(s).last() != '-',
    decreases s.len(),
{
    if s.len() > 0 && s.last() == '-' {
        lemma_trim_end(s.drop_last());
        let k = choose|k: int| 0 <= k <= s.drop_last().len()
            && trim_end_dashes(s.drop_last()) == s.drop_last().subrange(0, k);
        assert(s.drop_last().subrange(0, k) =~= s.subrange(0, k));
    } else {
        assert(s.subrange(0, s.len() as int) =~= s);
    }
}

/// Every normalised name has the shape of `is_normal_pip_name`.
pub proof fn lemma_normalized_pip_name_is_normal(s: Seq<char>)
    ensures
        is_normal_pip_name(normalized_pip_name(s)),
{
    lemma_scan_shape(s);
    let o = pip_norm_scan(s).0;
    lemma_trim_start(o);
    let a = trim_start_dashes(o);
    let ka = choose|k: int| 0 <= k <= o.len() && a == o.subrange(k, o.len() as int);
    lemma_trim_end(a);
    let t = trim_end_dashes(a);
    let kt = choose|k: int| 0 <= k <= a.len() && t == a.subrange(0, k);
    assert forall|i: int| 0 <= i < t.len() implies is_normal_pip_char(#[trigger] t[i]) by {
        assert(t[i] == o[ka + i]);
    }
    assert forall|i: int| 0 <= i < t.len() - 1 implies !(#[trigger] t[i] == '-' && t[i + 1] == '-') by {
        assert(t[i] == o[ka + i]);
        assert(t[i + 1] == o[ka + i + 1]);
    }
    if t.len() > 0 {
        assert(t[0] == a[0]);
    }
}

/// Scanning a normalised name gives it back.
proof fn lemma_scan_of_normal(t: Seq<char>)
    requires
        forall|i: int| 0 <= i < t.len() ==> is_normal_pip_char(#[trigger] t[i]),
        forall|i: int| 0 <= i < t.len() - 1 ==> !(#[trigger] t[i] == '-' && t[i + 1] == '-'),
    ensures
        pip_norm_scan(t).0 == t,
        pip_norm_scan(t).1 == (t.len() > 0 && t.last() == '-'),
    decreases t.len(),
{
    if t.len() > 0 {
        let p = t.drop_last();
        assert forall|i: int| 0 <= i < p.len() implies is_normal_pip_char(#[trigger] p[i]) by {
            assert(p[i] == t[i]);
        }
        assert forall|i: int| 0 <= i < p.len() - 1 implies !(#[trigger] p[i] == '-' && p[i + 1] == '-') by {
            assert(p[i] == t[i]);
            assert(p[i + 1] == t[i + 1]);
        }
        lemma_scan_of_normal(p);
        let c = t.last();
        assert(is_normal_pip_char(t[t.len() - 1]));
        if c == '-' && p.len() > 0 {
            assert(!(t[t.len() - 2] == '-' && t[t.len() - 1] == '-'));
            assert(p.last() == t[t.len() - 2]);
        }
        assert(p.push(c) =~= t);
    }
}

/// A normalised pip name normalises to itself.
pub proof fn lemma_normal_pip_name_fixed(t: Seq<char>)
    requires
        is_normal_pip_name(t),
    ensures
        normalized_pip_name(t) == t,
{
    lemma_scan_of_normal(t);
    if t.len() > 0 {
        assert(t[0] != '-');
        assert(t.last() != '-');
    }
}

/// Normalising a pip name twice gives the same name as normalising it once.
pub proof fn lemma_normalize_pip_idempotent(s: Seq<char>)
    ensures
        normalized_pip_name(normalized_pip_name(s)) == normalized_pip_name(s),
{
    lemma_normalized_pip_name_is_normal(s);
    lemma_normal_pip_name_fixed(normalized_pip_name(s));
}

} // verus!
