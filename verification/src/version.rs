use vstd::prelude::*;

use crate::layout::{text_words, words_of};
use crate::names::{ascii_alnum, is_ascii_alnum};
use crate::text::{
    chars_of, concat2, decimal, decimal_text, push_char, string_of_range, strings_view,
    strip_or_keep,
};

verus! {

/// A semantic version: `major.minor.patch`, an optional pre-release tag and
/// optional build metadata (both empty when absent).
#[derive(Clone, Debug, PartialEq, Eq)]
pub struct Version {
    pub major: u64,
    pub minor: u64,
    pub patch: u64,
    pub pre: String,
    pub build: String,
}

impl Version {
    /// The version as plain values.
    pub open spec fn parts(&self) -> (u64, u64, u64, Seq<char>, Seq<char>) {
        (self.major, self.minor, self.patch, self.pre@, self.build@)
    }
}

/// Text of a version as semver prints it: `major.minor.patch`, then `-pre` when
/// there is a pre-release tag and `+build` when there is build metadata.
pub open spec fn version_text(parts: (u64, u64, u64, Seq<char>, Seq<char>)) -> Seq<char> {
    decimal(parts.0 as nat) + seq!['.'] + decimal(parts.1 as nat) + seq!['.'] + decimal(parts.2 as nat)
        + (if parts.3.len() > 0 { seq!['-'] + parts.3 } else { Seq::empty() })
        + (if parts.4.len() > 0 { seq!['+'] + parts.4 } else { Seq::empty() })
}

impl Version {
    /// The text that semver's `Display` gives for this version.
    pub fn to_text(&self) -> (s: String)
        ensures
            s@ == version_text(self.parts()),
    {
        let mut s = decimal_text(self.major);
        push_char(&mut s, '.');
        s.append(decimal_text(self.minor).as_str());
        push_char(&mut s, '.');
        s.append(decimal_text(self.patch).as_str());
        if self.pre.as_str().unicode_len() > 0 {
            push_char(&mut s, '-');
            s.append(self.pre.as_str());
        }
        if self.build.as_str().unicode_len() > 0 {
            push_char(&mut s, '+');
            s.append(self.build.as_str());
        }
        s
    }
}

/// What `semver::Version::parse` makes of a text: the version's plain parts, or
/// `None` where it refuses the text.
pub uninterp spec fn semver_parse(text: Seq<char>) -> Option<(u64, u64, u64, Seq<char>, Seq<char>)>;

/// The message of the error `semver::Version::parse` gives for a text it
/// refuses (the error's `Display`).
pub uninterp spec fn semver_error_detail(text: Seq<char>) -> Seq<char>;

/// Calls `semver::Version::parse`. Trusted: the result is `Ok` exactly when the
/// crate accepts the text, and then holds the parsed major, minor, patch,
/// pre-release and build texts; otherwise it holds the error's message. Both
/// are named: `semver_parse` and `semver_error_detail`.
#[verifier::external_body]
fn parse_with_semver(text: &str) -> (r: Result<Version, String>)
    ensures
        r is Ok <==> semver_parse(text@) is Some,
        r matches Ok(v) ==> semver_parse(text@) == Some(v.parts()),
        r matches Err(m) ==> m@ == semver_error_detail(text@),
{
    match semver::Version::parse(text) {
        Ok(v) => Ok(Version {
            major: v.major,
            minor: v.minor,
            patch: v.patch,
            pre: v.pre.as_str().to_string(),
            build: v.build.as_str().to_string(),
        }),
        Err(err) => Err(err.to_string()),
    }
}

/// The message that prefixes a refused version: `failed to parse semver {version} for {context}: `.
pub open spec fn semver_failure_prefix(version: Seq<char>, context: Seq<char>) -> Seq<char> {
    "failed to parse semver "@ + version + " for "@ + context + ": "@
}

/// `r` is what `parse_semver(text, context)` gives: the version semver reads in
/// `text`, or `semver_failure_prefix(text, context)` followed by semver's message.
pub open spec fn parsed_as(r: Result<Version, String>, text: Seq<char>, context: Seq<char>) -> bool {
    &&& (r is Ok <==> semver_parse(text) is Some)
    &&& (r matches Ok(v) ==> semver_parse(text) == Some(v.parts()))
    &&& (r matches Err(msg) ==> msg@ == semver_failure_prefix(text, context) + semver_error_detail(text))
}

/// Parses `version` as a semantic version; `context` names what it belongs to
/// in the error message.
pub fn parse_semver(version: &str, context: &str) -> (r: Result<Version, String>)
    ensures
        parsed_as(r, version@, context@),
{
    match parse_with_semver(version) {
        Ok(v) => Ok(v),
        Err(err) => {
            let mut msg = concat2("failed to parse semver ", version);
            msg.append(" for ");
            msg.append(context);
            msg.append(": ");
            msg.append(err.as_str());
            Err(msg)
        }
    }
}

// ---------------------------------------------------------------------------
// Finding a version in free text

/// A character that may belong to a version token.
pub open spec fn is_version_char(c: char) -> bool {
    is_ascii_alnum(c) || c == '.' || c == '-' || c == '+' || c == '_'
}

/// `v` without the leading characters that cannot belong to a version.
pub open spec fn trim_start_version(v: Seq<char>) -> Seq<char>
    decreases v.len(),
{
    if v.len() > 0 && !is_version_char(v[0]) {
        trim_start_version(v.drop_first())
    } else {
        v
    }
}

/// `v` without the trailing characters that cannot belong to a version.
pub open spec fn trim_end_version(v: Seq<char>) -> Seq<char>
    decreases v.len(),
{
    if v.len() > 0 && !is_version_char(v.last()) {
        trim_end_version(v.drop_last())
    } else {
        v
    }
}

/// The candidate a word gives: trimmed of punctuation, without a leading `v`.
pub open spec fn version_candidate(word: Seq<char>) -> Seq<char> {
    strip_or_keep(trim_end_version(trim_start_version(word)), "v"@)
}

/// The first of `words` whose candidate semver reads.
pub open spec fn first_semver(words: Seq<Seq<char>>) -> Option<(u64, u64, u64, Seq<char>, Seq<char>)>
    decreases words.len(),
{
    if words.len() == 0 {
        None
    } else {
        let t = version_candidate(words[0]);
        if t.len() > 0 && semver_parse(t) is Some {
            semver_parse(t)
        } else {
            first_semver(words.drop_first())
        }
    }
}

/// Whether `c` may belong to a version token.
fn version_char(c: char) -> (r: bool)
    ensures
        r == is_version_char(c),
{
    ascii_alnum(c) || c == '.' || c == '-' || c == '+' || c == '_'
}

/// The candidate version a word gives.
fn candidate_of(word: &str) -> (r: String)
    ensures
        r@ == version_candidate(word@),
{
    let v = chars_of(word);
    let mut a: usize = 0;
    assert(v@.skip(0) =~= v@);
    while a < v.len() && !version_char(v[a])
        invariant
            v@ == word@,
            a <= v@.len(),
            trim_start_version(v@.skip(a as int)) == trim_start_version(word@),
        decreases v.len() - a,
    {
        assert(v@.skip(a as int).drop_first() =~= v@.skip(a + 1));
        a = a + 1;
    }
    let mut b: usize = v.len();
    assert(v@.subrange(a as int, b as int) =~= v@.skip(a as int));
    while b > a && !version_char(v[b - 1])
        invariant
            v@ == word@,
            a <= b <= v@.len(),
            trim_end_version(v@.subrange(a as int, b as int)) == trim_end_version(trim_start_version(word@)),
        decreases b - a,
    {
        assert(v@.subrange(a as int, b as int).drop_last() =~= v@.subrange(a as int, b - 1));
        b = b - 1;
    }
    proof {
        reveal_strlit("v");
    }
    if a < b && v[a] == 'v' {
        let r = string_of_range(&v, a + 1, b);
        assert(v@.subrange(a as int, b as int).subrange(0, 1) =~= "v"@);
        assert(r@ =~= v@.subrange(a as int, b as int).subrange(1, (b - a) as int));
        r
    } else {
        let r = string_of_range(&v, a, b);
        proof {
            if r@.len() > 0 {
                assert(r@.subrange(0, 1)[0] != 'v');
                assert(r@.subrange(0, 1) != "v"@);
            }
        }
        r
    }
}

/// The first version found among the words of `text`, as semver reads it:
/// each word trimmed of punctuation and of a leading `v`.
pub fn extract_semver_from_text(text: &str) -> (r: Option<Version>)
    ensures
        match first_semver(words_of(text@)) {
            Some(p) => r matches Some(v) && v.parts() == p,
            None => r is None,
        },
{
    let words = text_words(text);
    let ghost ws = strings_view(words@);
    let mut i: usize = 0;
    assert(ws.skip(0) =~= ws);
    while i < words.len()
        invariant
            ws == strings_view(words@),
            ws == words_of(text@),
            i <= words@.len(),
            first_semver(ws.skip(i as int)) == first_semver(ws),
        decreases words.len() - i,
    {
        let ghost rest = ws.skip(i as int);
        assert(rest[0] == words@[i as int]@);
        assert(rest.drop_first() =~= ws.skip(i + 1));
        let candidate = candidate_of(words[i].as_str());
        if candidate.unicode_len() > 0 {
            if let Ok(v) = parse_with_semver(candidate.as_str()) {
                return Some(v);
            }
        }
        i = i + 1;
    }
    assert(ws.skip(ws.len() as int) =~= Seq::<Seq<char>>::empty());
    None
}

} // verus!
