use vstd::prelude::*;

use crate::names::{
    is_normal_pip_name, join_path, lemma_normalize_pip_idempotent, lemma_normalized_pip_name_is_normal,
    normalize_pip_package_name,
    normalized_pip_name, npm_install_relative_path, npm_name_problem, npm_package_display_name,
    npm_package_install_relative_path, path_join, pip_name_problem, pip_package_display_name,
    pip_package_install_leaf_name, validate_npm_package_name, validate_pip_package_name,
};
use crate::text::{after_prefix, concat2, contains_char, has_prefix, owned, str_eq, strip_prefix};
use crate::vendor::{get, lookup_kind};

verus! {

/// The qualifier that names a Homebrew formula.
pub const BREW_PACKAGE_PREFIX: &'static str = "brew:";

/// What an alias installs: a Homebrew formula, an npm package or a pip package.
#[derive(Clone, Debug, PartialEq, Eq)]
pub enum PackageAliasTarget {
    HomebrewFormula(String),
    NpmPackage(String),
    PipPackage(String),
}

/// An alias target as plain values.
pub enum TargetView {
    HomebrewFormula(Seq<char>),
    NpmPackage(Seq<char>),
    PipPackage(Seq<char>),
}

impl View for PackageAliasTarget {
    type V = TargetView;

    open spec fn view(&self) -> TargetView {
        match self {
            PackageAliasTarget::HomebrewFormula(f) => TargetView::HomebrewFormula(f@),
            PackageAliasTarget::NpmPackage(p) => TargetView::NpmPackage(p@),
            PackageAliasTarget::PipPackage(p) => TargetView::PipPackage(p@),
        }
    }
}

/// A package as the user asked for it.
#[derive(Clone, Debug, PartialEq, Eq)]
pub enum RequestedPackage {
    /// A bare name: a vendor package or a Homebrew formula, decided later.
    Auto(String),
    HomebrewFormula(String),
    NpmPackage(String),
    PipPackage(String),
    /// A name that the alias table maps to a qualified package.
    Alias { alias: String, target: PackageAliasTarget },
}

/// A requested package as plain values.
pub enum RequestedView {
    Auto(Seq<char>),
    HomebrewFormula(Seq<char>),
    NpmPackage(Seq<char>),
    PipPackage(Seq<char>),
    Alias { alias: Seq<char>, target: TargetView },
}

impl View for RequestedPackage {
    type V = RequestedView;

    open spec fn view(&self) -> RequestedView {
        match self {
            RequestedPackage::Auto(n) => RequestedView::Auto(n@),
            RequestedPackage::HomebrewFormula(f) => RequestedView::HomebrewFormula(f@),
            RequestedPackage::NpmPackage(p) => RequestedView::NpmPackage(p@),
            RequestedPackage::PipPackage(p) => RequestedView::PipPackage(p@),
            RequestedPackage::Alias { alias, target } => RequestedView::Alias { alias: alias@, target: target@ },
        }
    }
}

/// The qualified name of an alias target: `brew:`, `npm:` or `pip:` and the name.
pub open spec fn target_display(t: TargetView) -> Seq<char> {
    match t {
        TargetView::HomebrewFormula(f) => BREW_PACKAGE_PREFIX@ + f,
        TargetView::NpmPackage(p) => "npm:"@ + p,
        TargetView::PipPackage(p) => "pip:"@ + p,
    }
}

/// The request for exactly what an alias target names.
pub open spec fn requested_of_target(t: TargetView) -> RequestedView {
    match t {
        TargetView::HomebrewFormula(f) => RequestedView::HomebrewFormula(f),
        TargetView::NpmPackage(p) => RequestedView::NpmPackage(p),
        TargetView::PipPackage(p) => RequestedView::PipPackage(p),
    }
}

impl PackageAliasTarget {
    /// The qualified name of the target.
    pub fn display_name(&self) -> (r: String)
        ensures
            r@ == target_display(self@),
    {
        match self {
            PackageAliasTarget::HomebrewFormula(formula) => concat2(BREW_PACKAGE_PREFIX, formula.as_str()),
            PackageAliasTarget::NpmPackage(package) => npm_package_display_name(package.as_str()),
            PackageAliasTarget::PipPackage(package) => pip_package_display_name(package.as_str()),
        }
    }

    /// A copy of the target.
    pub fn copied(&self) -> (r: PackageAliasTarget)
        ensures
            r@ == self@,
    {
        match self {
            PackageAliasTarget::HomebrewFormula(f) => PackageAliasTarget::HomebrewFormula(f.clone()),
            PackageAliasTarget::NpmPackage(p) => PackageAliasTarget::NpmPackage(p.clone()),
            PackageAliasTarget::PipPackage(p) => PackageAliasTarget::PipPackage(p.clone()),
        }
    }

    /// The request for exactly this target.
    pub fn into_requested_package(self) -> (r: RequestedPackage)
        ensures
            r@ == requested_of_target(self@),
    {
        match self {
            PackageAliasTarget::HomebrewFormula(formula) => RequestedPackage::HomebrewFormula(formula),
            PackageAliasTarget::NpmPackage(package) => RequestedPackage::NpmPackage(package),
            PackageAliasTarget::PipPackage(package) => RequestedPackage::PipPackage(package),
        }
    }
}

pub open spec fn brew_empty_message() -> Seq<char> {
    "package qualifier 'brew:' is missing a formula name"@
}

pub open spec fn qualified_separator_message() -> Seq<char> {
    "qualified package name must not contain additional path separators"@
}

pub open spec fn name_separator_message() -> Seq<char> {
    "package name must not contain path separators"@
}

pub open spec fn name_utf8_message() -> Seq<char> {
    "package name must be valid UTF-8"@
}

pub open spec fn alias_qualifier_message() -> Seq<char> {
    "alias targets must use a package qualifier"@
}

/// What a name with a `brew:`, `npm:` or `pip:` qualifier stands for, or why it
/// is refused; `None` for a name without a qualifier.
pub open spec fn qualified_target(v: Seq<char>) -> Option<Result<TargetView, Seq<char>>> {
    if has_prefix(v, BREW_PACKAGE_PREFIX@) {
        let f = after_prefix(v, BREW_PACKAGE_PREFIX@);
        Some(
            if f.len() == 0 {
                Err(brew_empty_message())
            } else if f.contains('/') {
                Err(qualified_separator_message())
            } else {
                Ok(TargetView::HomebrewFormula(f))
            },
        )
    } else if has_prefix(v, "npm:"@) {
        let p = after_prefix(v, "npm:"@);
        Some(
            match npm_name_problem(p) {
                Some(m) => Err(m),
                None => Ok(TargetView::NpmPackage(p)),
            },
        )
    } else if has_prefix(v, "pip:"@) {
        let p = after_prefix(v, "pip:"@);
        Some(
            match pip_name_problem(p) {
                Some(m) => Err(m),
                None => Ok(TargetView::PipPackage(normalized_pip_name(p))),
            },
        )
    } else {
        None
    }
}

/// The plain view of what `parse_qualified` returns.
pub open spec fn qualified_view(r: Option<Result<PackageAliasTarget, String>>) -> Option<Result<TargetView, Seq<char>>> {
    match r {
        Some(Ok(t)) => Some(Ok(t@)),
        Some(Err(m)) => Some(Err(m@)),
        None => None,
    }
}

/// Reads a `brew:`, `npm:` or `pip:` qualified name.
fn parse_qualified(value: &str) -> (r: Option<Result<PackageAliasTarget, String>>)
    ensures
        qualified_view(r) == qualified_target(value@),
{
    if let Some(formula) = strip_prefix(value, BREW_PACKAGE_PREFIX) {
        if formula.as_str().unicode_len() == 0 {
            return Some(Err(owned("package qualifier 'brew:' is missing a formula name")));
        }
        if contains_char(formula.as_str(), '/') {
            return Some(Err(owned("qualified package name must not contain additional path separators")));
        }
        return Some(Ok(PackageAliasTarget::HomebrewFormula(formula)));
    }
    if let Some(npm_package) = strip_prefix(value, "npm:") {
        return match validate_npm_package_name(npm_package.as_str()) {
            Err(e) => Some(Err(e)),
            Ok(()) => Some(Ok(PackageAliasTarget::NpmPackage(npm_package))),
        };
    }
    if let Some(pip_package) = strip_prefix(value, "pip:") {
        return match validate_pip_package_name(pip_package.as_str()) {
            Err(e) => Some(Err(e)),
            Ok(()) => Some(Ok(PackageAliasTarget::PipPackage(normalize_pip_package_name(pip_package.as_str())))),
        };
    }
    None
}

/// Reads the target of an alias; it must carry a qualifier.
pub fn parse_package_alias_target(value: &str) -> (r: Result<PackageAliasTarget, String>)
    ensures
        match qualified_target(value@) {
            Some(Ok(t)) => r matches Ok(x) && x@ == t,
            Some(Err(m)) => r matches Err(e) && e@ == m,
            None => r matches Err(e) && e@ == alias_qualifier_message(),
        },
{
    match parse_qualified(value) {
        Some(r) => r,
        None => Err(owned("alias targets must use a package qualifier")),
    }
}

/// The aliases a bare package name may stand for, in lookup order.
#[derive(Clone, Debug)]
pub struct AliasTable {
    pub entries: Vec<(String, PackageAliasTarget)>,
}

/// The entries of an alias table as plain values.
pub open spec fn alias_entries_view(entries: Seq<(String, PackageAliasTarget)>) -> Seq<(Seq<char>, TargetView)> {
    entries.map_values(|e: (String, PackageAliasTarget)| (e.0@, e.1@))
}

impl View for AliasTable {
    type V = Seq<(Seq<char>, TargetView)>;

    open spec fn view(&self) -> Seq<(Seq<char>, TargetView)> {
        alias_entries_view(self.entries@)
    }
}

/// The target of the first entry for `name`.
pub open spec fn alias_lookup(entries: Seq<(Seq<char>, TargetView)>, name: Seq<char>) -> Option<TargetView>
    decreases entries.len(),
{
    if entries.len() == 0 {
        None
    } else if entries[0].0 == name {
        Some(entries[0].1)
    } else {
        alias_lookup(entries.drop_first(), name)
    }
}

/// No key occurs twice among the entries: the table is a map.
pub open spec fn keys_distinct<V>(entries: Seq<(Seq<char>, V)>) -> bool {
    forall|i: int, j: int| 0 <= i < j < entries.len() ==> #[trigger] entries[i].0 != #[trigger] entries[j].0
}

/// In a table whose aliases are distinct, each alias finds its own target,
/// and a name that no entry carries finds nothing: lookup is map lookup.
pub proof fn law_alias_lookup_is_map_lookup(entries: Seq<(Seq<char>, TargetView)>, name: Seq<char>)
    requires
        keys_distinct(entries),
    ensures
        forall|i: int| 0 <= i < entries.len() && #[trigger] entries[i].0 == name ==> alias_lookup(entries, name) == Some(entries[i].1),
        (forall|i: int| 0 <= i < entries.len() ==> #[trigger] entries[i].0 != name) ==> alias_lookup(entries, name) is None,
    decreases entries.len(),
{
    if entries.len() > 0 {
        let rest = entries.drop_first();
        assert forall|i: int, j: int| 0 <= i < j < rest.len() implies #[trigger] rest[i].0 != #[trigger] rest[j].0 by {
            assert(rest[i] == entries[i + 1] && rest[j] == entries[j + 1]);
        }
        law_alias_lookup_is_map_lookup(rest, name);
        assert forall|i: int| 0 <= i < entries.len() && #[trigger] entries[i].0 == name implies alias_lookup(entries, name) == Some(entries[i].1) by {
            if i > 0 {
                assert(rest[i - 1] == entries[i]);
                assert(entries[0].0 != entries[i].0);
            }
        }
        if forall|i: int| 0 <= i < entries.len() ==> #[trigger] entries[i].0 != name {
            assert forall|i: int| 0 <= i < rest.len() implies #[trigger] rest[i].0 != name by {
                assert(rest[i] == entries[i + 1]);
            }
        }
    }
}

impl AliasTable {
    /// A table without aliases.
    pub fn empty() -> (t: AliasTable)
        ensures
            t@ == Seq::<(Seq<char>, TargetView)>::empty(),
    {
        let t = AliasTable { entries: Vec::new() };
        assert(t@ =~= Seq::<(Seq<char>, TargetView)>::empty());
        t
    }

    /// The target of `name`, if it is an alias.
    pub fn target_of(&self, name: &str) -> (r: Option<PackageAliasTarget>)
        ensures
            match alias_lookup(self@, name@) {
                Some(t) => r matches Some(x) && x@ == t,
                None => r is None,
            },
    {
        let mut i: usize = 0;
        assert(self@.skip(0) =~= self@);
        while i < self.entries.len()
            invariant
                i <= self.entries@.len(),
                alias_lookup(self@, name@) == alias_lookup(self@.skip(i as int), name@),
            decreases self.entries.len() - i,
        {
            let ghost rest = self@.skip(i as int);
            assert(rest[0] == (self.entries@[i as int].0@, self.entries@[i as int].1@));
            if str_eq(self.entries[i].0.as_str(), name) {
                return Some(self.entries[i].1.copied());
            }
            assert(rest.drop_first() =~= self@.skip(i + 1));
            i = i + 1;
        }
        None
    }

    /// Builds a table from `(alias, target)` texts; every target must read as a
    /// qualified package.
    pub fn from_pairs(pairs: Vec<(String, String)>) -> (r: Result<AliasTable, String>)
        ensures
            r matches Ok(t) ==> t@.len() == pairs@.len() && forall|i: int| 0 <= i < pairs@.len() ==>
                (#[trigger] t@[i]).0 == pairs@[i].0@ && qualified_target(pairs@[i].1@) == Some(Ok::<TargetView, Seq<char>>(t@[i].1)),
            r is Err <==> exists|i: int| 0 <= i < pairs@.len()
                && !(#[trigger] qualified_target(pairs@[i].1@) matches Some(Ok(_))),
            r matches Ok(t) ==> (keys_distinct(t@) <==> forall|i: int, j: int| 0 <= i < j < pairs@.len()
                ==> #[trigger] pairs@[i].0@ != #[trigger] pairs@[j].0@),
    {
        let mut entries: Vec<(String, PackageAliasTarget)> = Vec::new();
        let mut i: usize = 0;
        while i < pairs.len()
            invariant
                i <= pairs@.len(),
                entries@.len() == i,
                forall|j: int| 0 <= j < i ==> (#[trigger] alias_entries_view(entries@)[j]).0 == pairs@[j].0@
                    && qualified_target(pairs@[j].1@) == Some(Ok::<TargetView, Seq<char>>(alias_entries_view(entries@)[j].1)),
            decreases pairs.len() - i,
        {
            let (alias, target) = (&pairs[i].0, &pairs[i].1);
            match parse_package_alias_target(target.as_str()) {
                Ok(t) => {
                    let ghost old_entries = entries@;
                    entries.push((alias.clone(), t));
                    proof {
                        assert(entries@[i as int].0@ == pairs@[i as int].0@);
                        assert forall|j: int| 0 <= j < i + 1 implies (#[trigger] alias_entries_view(entries@)[j]).0 == pairs@[j].0@
                            && qualified_target(pairs@[j].1@) == Some(Ok::<TargetView, Seq<char>>(alias_entries_view(entries@)[j].1)) by {
                            assert(alias_entries_view(entries@)[j] == (entries@[j].0@, entries@[j].1@));
                            if j < i {
                                assert(entries@[j] == old_entries[j]);
                                assert(alias_entries_view(old_entries)[j] == (old_entries[j].0@, old_entries[j].1@));
                            }
                        }
                    }
                },
                Err(e) => {
                    let mut msg = concat2("invalid alias target ", target.as_str());
                    msg.append(": ");
                    msg.append(e.as_str());
                    assert(!(qualified_target(pairs@[i as int].1@) matches Some(Ok(_))));
                    return Err(msg);
                },
            }
            i = i + 1;
        }
        let t = AliasTable { entries };
        proof {
            assert forall|j: int| 0 <= j < pairs@.len() implies (#[trigger] qualified_target(pairs@[j].1@) matches Some(Ok(_))) by {
                assert(qualified_target(pairs@[j].1@) == Some(Ok::<TargetView, Seq<char>>(alias_entries_view(t.entries@)[j].1)));
            }
            assert(t@ == alias_entries_view(t.entries@));
            if keys_distinct(t@) {
                assert forall|a: int, b: int| 0 <= a < b < pairs@.len() implies #[trigger] pairs@[a].0@ != #[trigger] pairs@[b].0@ by {
                    assert(t@[a].0 == pairs@[a].0@ && t@[b].0 == pairs@[b].0@);
                }
            }
            if forall|a: int, b: int| 0 <= a < b < pairs@.len() ==> #[trigger] pairs@[a].0@ != #[trigger] pairs@[b].0@ {
                assert forall|a: int, b: int| 0 <= a < b < t@.len() implies #[trigger] t@[a].0 != #[trigger] t@[b].0 by {
                    assert(t@[a].0 == pairs@[a].0@ && t@[b].0 == pairs@[b].0@);
                }
            }
        }
        Ok(t)
    }
}

/// What `parse_package_name` makes of an argument (`None` for one that is not UTF-8).
pub open spec fn parse_package_spec(v: Option<Seq<char>>, aliases: Seq<(Seq<char>, TargetView)>) -> Result<RequestedView, Seq<char>> {
    match v {
        None => Err(name_utf8_message()),
        Some(p) => match qualified_target(p) {
            Some(Ok(t)) => Ok(requested_of_target(t)),
            Some(Err(m)) => Err(m),
            None => if p.contains('/') {
                Err(name_separator_message())
            } else if lookup_kind(p) is None && alias_lookup(aliases, p) is Some {
                Ok(RequestedView::Alias { alias: p, target: alias_lookup(aliases, p).unwrap() })
            } else {
                Ok(RequestedView::Auto(p))
            },
        },
    }
}

/// The plain view of an optional argument.
pub open spec fn arg_view(a: Option<String>) -> Option<Seq<char>> {
    match a {
        Some(s) => Some(s@),
        None => None,
    }
}

/// The plain view of a parsed request.
pub open spec fn requested_result_view(r: Result<RequestedPackage, String>) -> Result<RequestedView, Seq<char>> {
    match r {
        Ok(p) => Ok(p@),
        Err(m) => Err(m@),
    }
}

/// Reads a package argument: `brew:formula`, `npm:package`, `pip:package`, an
/// alias (a bare name that is no vendor package and is in the alias table) or a
/// bare name.
pub fn parse_package_name(value: &Option<String>, aliases: &AliasTable) -> (r: Result<RequestedPackage, String>)
    ensures
        requested_result_view(r) == parse_package_spec(arg_view(*value), aliases@),
{
    let package = match value {
        Some(p) => p,
        None => return Err(owned("package name must be valid UTF-8")),
    };
    match parse_qualified(package.as_str()) {
        Some(Ok(t)) => return Ok(t.into_requested_package()),
        Some(Err(e)) => return Err(e),
        None => {},
    }
    if contains_char(package.as_str(), '/') {
        return Err(owned("package name must not contain path separators"));
    }
    if get(package.as_str()).is_none() {
        if let Some(target) = aliases.target_of(package.as_str()) {
            return Ok(RequestedPackage::Alias { alias: package.clone(), target });
        }
    }
    Ok(RequestedPackage::Auto(package.clone()))
}

/// The installed name a request refers to.
pub open spec fn requested_name(r: RequestedView) -> Seq<char> {
    match r {
        RequestedView::Auto(n) => n,
        RequestedView::HomebrewFormula(f) => f,
        RequestedView::Alias { target, .. } => target_display(target),
        RequestedView::NpmPackage(p) => "npm:"@ + p,
        RequestedView::PipPackage(p) => "pip:"@ + p,
    }
}

/// The installed name a request refers to: the formula or bare name itself,
/// `npm:`/`pip:` and the package, or the qualified name of an alias's target.
pub fn requested_package_name(package: &RequestedPackage) -> (r: String)
    ensures
        r@ == requested_name(package@),
{
    match package {
        RequestedPackage::Auto(name) => name.clone(),
        RequestedPackage::HomebrewFormula(name) => name.clone(),
        RequestedPackage::Alias { target, .. } => target.display_name(),
        RequestedPackage::NpmPackage(name) => npm_package_display_name(name.as_str()),
        RequestedPackage::PipPackage(name) => pip_package_display_name(name.as_str()),
    }
}

/// What `parse_uninstall_package_name` makes of an argument.
pub open spec fn uninstall_name_spec(v: Option<Seq<char>>, aliases: Seq<(Seq<char>, TargetView)>) -> Result<Seq<char>, Seq<char>> {
    match v {
        None => Err(name_utf8_message()),
        Some(p) => match qualified_target(p) {
            Some(Ok(TargetView::HomebrewFormula(f))) => Ok(f),
            Some(Ok(TargetView::NpmPackage(n))) => Ok("npm:"@ + n),
            Some(Ok(TargetView::PipPackage(n))) => Ok("pip:"@ + n),
            Some(Err(m)) => Err(m),
            None => if p.contains('/') {
                Err(name_separator_message())
            } else if lookup_kind(p) is None && alias_lookup(aliases, p) is Some {
                Ok(target_display(alias_lookup(aliases, p).unwrap()))
            } else {
                Ok(p)
            },
        },
    }
}

/// The plain view of a text result.
pub open spec fn text_result_view(r: Result<String, String>) -> Result<Seq<char>, Seq<char>> {
    match r {
        Ok(s) => Ok(s@),
        Err(m) => Err(m@),
    }
}

/// Reads a package argument of `uninstall` into the installed name it removes.
pub fn parse_uninstall_package_name(value: &Option<String>, aliases: &AliasTable) -> (r: Result<String, String>)
    ensures
        text_result_view(r) == uninstall_name_spec(arg_view(*value), aliases@),
{
    let package = match value {
        Some(p) => p,
        None => return Err(owned("package name must be valid UTF-8")),
    };
    match parse_qualified(package.as_str()) {
        Some(Ok(PackageAliasTarget::HomebrewFormula(formula))) => return Ok(formula),
        Some(Ok(PackageAliasTarget::NpmPackage(name))) => return Ok(npm_package_display_name(name.as_str())),
        Some(Ok(PackageAliasTarget::PipPackage(name))) => return Ok(pip_package_display_name(name.as_str())),
        Some(Err(e)) => return Err(e),
        None => {},
    }
    if contains_char(package.as_str(), '/') {
        return Err(owned("package name must not contain path separators"));
    }
    if get(package.as_str()).is_none() {
        if let Some(target) = aliases.target_of(package.as_str()) {
            return Ok(target.display_name());
        }
    }
    Ok(package.clone())
}

/// The name `uninstall` removes for an argument is the installed name of the
/// request that the same argument makes, and both refuse the same arguments
/// with the same message.
pub proof fn law_uninstall_name_is_requested_name(v: Option<Seq<char>>, aliases: Seq<(Seq<char>, TargetView)>)
    ensures
        uninstall_name_spec(v, aliases) == match parse_package_spec(v, aliases) {
            Ok(r) => Ok(requested_name(r)),
            Err(m) => Err(m),
        },
{
    reveal_strlit("brew:");
}

/// An alias target as the table may hold it: a formula name without `/`, a valid
/// npm name, or a non-empty normalised pip name.
pub open spec fn is_canonical_target(t: TargetView) -> bool {
    match t {
        TargetView::HomebrewFormula(f) => f.len() > 0 && !f.contains('/'),
        TargetView::NpmPackage(p) => npm_name_problem(p) is None,
        TargetView::PipPackage(p) => p.len() > 0 && is_normal_pip_name(p),
    }
}

/// A `pip:` request names the package typed, in its normalised form: the name
/// it carries is normalised (lower case, single dashes, none at either end) and
/// normalises like the name typed, so it is the name the package is installed
/// and recorded under.
pub proof fn law_pip_requests_carry_normalised_names(v: Seq<char>, aliases: Seq<(Seq<char>, TargetView)>)
    ensures
        qualified_target(v) matches Some(Ok(TargetView::PipPackage(p))) ==> is_normal_pip_name(p)
            && has_prefix(v, "pip:"@) && normalized_pip_name(p) == normalized_pip_name(after_prefix(v, "pip:"@)),
        parse_package_spec(Some(v), aliases) matches Ok(RequestedView::PipPackage(p)) ==> is_normal_pip_name(p)
            && has_prefix(v, "pip:"@) && normalized_pip_name(p) == normalized_pip_name(after_prefix(v, "pip:"@)),
        (has_prefix(v, "pip:"@) && pip_name_problem(after_prefix(v, "pip:"@)) is None) ==>
            (qualified_target(v) matches Some(Ok(TargetView::PipPackage(p))) && is_normal_pip_name(p)),
{
    let typed = after_prefix(v, "pip:"@);
    lemma_normalized_pip_name_is_normal(typed);
    lemma_normalize_pip_idempotent(typed);
    reveal_strlit("brew:");
    reveal_strlit("npm:");
    reveal_strlit("pip:");
    if has_prefix(v, "pip:"@) {
        assert(v[0] == v.subrange(0, 4)[0]);
        assert(v[0] == 'p');
        assert(!has_prefix(v, BREW_PACKAGE_PREFIX@)) by {
            if has_prefix(v, BREW_PACKAGE_PREFIX@) {
                assert(v[0] == v.subrange(0, BREW_PACKAGE_PREFIX@.len() as int)[0]);
            }
        }
        assert(!has_prefix(v, "npm:"@)) by {
            if has_prefix(v, "npm:"@) {
                assert(v[0] == v.subrange(0, 4)[0]);
            }
        }
    }
}

/// Reading the qualified name of a canonical alias target gives the target back.
pub proof fn law_alias_target_round_trip(t: TargetView)
    requires
        is_canonical_target(t),
    ensures
        qualified_target(target_display(t)) == Some(Ok::<TargetView, Seq<char>>(t)),
{
    reveal_strlit("brew:");
    reveal_strlit("npm:");
    reveal_strlit("pip:");
    let d = target_display(t);
    match t {
        TargetView::HomebrewFormula(f) => {
            assert(d.subrange(0, 5) =~= BREW_PACKAGE_PREFIX@);
            assert(after_prefix(d, BREW_PACKAGE_PREFIX@) =~= f);
        },
        TargetView::NpmPackage(p) => {
            assert(d[0] == 'n');
            assert(!has_prefix(d, BREW_PACKAGE_PREFIX@)) by {
                if has_prefix(d, BREW_PACKAGE_PREFIX@) {
                    assert(d.subrange(0, 5)[0] == d[0]);
                }
            }
            assert(d.subrange(0, 4) =~= "npm:"@);
            assert(after_prefix(d, "npm:"@) =~= p);
        },
        TargetView::PipPackage(p) => {
            assert(d[0] == 'p');
            assert(!has_prefix(d, BREW_PACKAGE_PREFIX@)) by {
                if has_prefix(d, BREW_PACKAGE_PREFIX@) {
                    assert(d.subrange(0, 5)[0] == d[0]);
                }
            }
            assert(!has_prefix(d, "npm:"@)) by {
                if has_prefix(d, "npm:"@) {
                    assert(d.subrange(0, 4)[0] == d[0]);
                }
            }
            assert(d.subrange(0, 4) =~= "pip:"@);
            assert(after_prefix(d, "pip:"@) =~= p);
            assert(!p.contains('/')) by {
                if p.contains('/') {
                    let k = choose|k: int| 0 <= k < p.len() && p[k] == '/';
                    assert(crate::names::is_normal_pip_char(p[k]));
                }
            }
            assert forall|i: int| 0 <= i < p.len() implies crate::names::is_pip_name_char(#[trigger] p[i]) by {
                assert(crate::names::is_normal_pip_char(p[i]));
            }
            crate::names::lemma_normal_pip_name_fixed(p);
        },
    }
}

/// Where an installed package lives under `opt_root`: `npm/` and the npm
/// install path, `pip/` and the normalised name, or the name itself.
pub open spec fn install_root_spec(opt_root: Seq<char>, package_name: Seq<char>) -> Result<Seq<char>, Seq<char>> {
    if has_prefix(package_name, "npm:"@) {
        let p = after_prefix(package_name, "npm:"@);
        match npm_name_problem(p) {
            Some(m) => Err(m),
            None => Ok(path_join(path_join(opt_root, "npm"@), npm_install_relative_path(p))),
        }
    } else if has_prefix(package_name, "pip:"@) {
        let p = after_prefix(package_name, "pip:"@);
        match pip_name_problem(p) {
            Some(m) => Err(m),
            None => Ok(path_join(path_join(opt_root, "pip"@), normalized_pip_name(p))),
        }
    } else {
        Ok(path_join(opt_root, package_name))
    }
}

/// The directory a package is installed in under `opt_root`.
pub fn package_install_root(opt_root: &str, package_name: &str) -> (r: Result<String, String>)
    ensures
        text_result_view(r) == install_root_spec(opt_root@, package_name@),
{
    if let Some(npm_package) = strip_prefix(package_name, "npm:") {
        validate_npm_package_name(npm_package.as_str())?;
        let npm_root = join_path(opt_root, "npm");
        let rel = npm_package_install_relative_path(npm_package.as_str());
        return Ok(join_path(npm_root.as_str(), rel.as_str()));
    }
    if let Some(pip_package) = strip_prefix(package_name, "pip:") {
        validate_pip_package_name(pip_package.as_str())?;
        let pip_root = join_path(opt_root, "pip");
        let leaf = pip_package_install_leaf_name(pip_package.as_str());
        return Ok(join_path(pip_root.as_str(), leaf.as_str()));
    }
    Ok(join_path(opt_root, package_name))
}

} // verus!
