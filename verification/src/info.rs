use vstd::prelude::*;

use crate::cli::{index_lookup, FormulaIndex};
use crate::names::{npm_package_display_name, pip_package_display_name};
use crate::layout::{
    box_bottom_text, box_top_text, plain_box_bottom, plain_box_top, push_single_line_field,
    push_wrapped_field, section_bottom, section_top, section_top_text, single_line_field,
    string_or_none, trimmed, wrap_text, wrap_tokens, wrapped, wrapped_field, wrapped_tokens,
    INFO_INNER_WIDTH, INFO_WIDTH,
};
use crate::request::{
    arg_view, requested_name, requested_package_name, target_display, AliasTable, PackageAliasTarget,
    RequestedPackage, RequestedView, TargetView,
};
use crate::order::{lemma_multiset_to_set, sort_strings, sort_unique_strings, texts_sorted, texts_strictly_sorted};
use crate::resolve::{
    check_view, resolve_i_root_formula_with_db, root_formula_needs_check, root_formula_spec, Db,
};
use crate::text::{concat2, owned, str_eq, strings_view};
use crate::cli::USR_LOCAL_BIN;
use crate::request::{install_root_spec, package_install_root};
use crate::names::{join_path, normalize_pip_package_name, normalized_pip_name, path_join};
use crate::order::{names_of, named, first_only, sort_unique_by_name};
use crate::vendor::{
    fetch_failure_text, get, kind_name, lookup_kind, npm_latest_tag, npm_metadata_context,
    percent_encoded, url_encode, FetchFailure,
};
use crate::version::{parse_semver, parsed_as, Version};

verus! {

// ---------------------------------------------------------------------------
// Where an installed package came from

/// The source a package was installed from, as its receipt records it.
#[derive(Clone, Debug, PartialEq, Eq)]
pub enum PackageReceiptSource {
    Formula { root_formula: String },
    Vendor { vendor_name: String },
    Npm { package_name: String },
    Pip { package_name: String },
}

/// A package source as plain values.
pub enum SourceView {
    Formula(Seq<char>),
    Vendor(Seq<char>),
    Npm(Seq<char>),
    Pip(Seq<char>),
}

impl View for PackageReceiptSource {
    type V = SourceView;

    open spec fn view(&self) -> SourceView {
        match self {
            PackageReceiptSource::Formula { root_formula } => SourceView::Formula(root_formula@),
            PackageReceiptSource::Vendor { vendor_name } => SourceView::Vendor(vendor_name@),
            PackageReceiptSource::Npm { package_name } => SourceView::Npm(package_name@),
            PackageReceiptSource::Pip { package_name } => SourceView::Pip(package_name@),
        }
    }
}

/// The view of an optional source.
pub open spec fn source_option_view(s: Option<PackageReceiptSource>) -> Option<SourceView> {
    match s {
        Some(x) => Some(x@),
        None => None,
    }
}

/// The receipt written beside an installed package.
#[derive(Clone, Debug)]
pub struct PackageReceipt {
    pub package_name: String,
    pub source: PackageReceiptSource,
    pub version: String,
}

/// What is installed of a package and what is available.
#[derive(Clone, Debug)]
pub struct PackageStatus {
    pub package_name: String,
    pub source: PackageReceiptSource,
    pub installed_version: String,
    pub latest_version: String,
}

impl PackageStatus {
    /// A newer version is available when the latest differs from the installed one.
    pub open spec fn outdated(&self) -> bool {
        self.installed_version@ != self.latest_version@
    }

    /// Whether the installed version is not the latest.
    pub fn is_outdated(&self) -> (r: bool)
        ensures
            r == self.outdated(),
    {
        !str_eq(self.installed_version.as_str(), self.latest_version.as_str())
    }
}

/// Whether a status is outdated (as a function value for `filter`).
pub open spec fn outdated_pred() -> spec_fn(PackageStatus) -> bool {
    |s: PackageStatus| s.outdated()
}

/// The statuses of outdated packages, in their order.
pub fn filter_outdated_package_statuses(statuses: Vec<PackageStatus>) -> (r: Vec<PackageStatus>)
    ensures
        r@ == statuses@.filter(outdated_pred()),
{
    let mut r: Vec<PackageStatus> = Vec::new();
    let mut rest = statuses;
    let ghost orig = rest@;
    let mut rev: Vec<PackageStatus> = Vec::new();
    while rest.len() > 0
        invariant
            rev@.len() + rest@.len() == orig.len(),
            rest@ =~= orig.take(rest@.len() as int),
            forall|j: int| 0 <= j < rev@.len() ==> #[trigger] rev@[j] == orig[orig.len() - 1 - j],
        decreases rest.len(),
    {
        let x = rest.pop().unwrap();
        rev.push(x);
    }
    let ghost n = orig.len();
    proof {
        reveal(Seq::filter);
        assert(orig.take(0).filter(outdated_pred()) =~= Seq::<PackageStatus>::empty());
    }
    while rev.len() > 0
        invariant
            n == orig.len(),
            rev@.len() <= n,
            forall|j: int| 0 <= j < rev@.len() ==> #[trigger] rev@[j] == orig[n - 1 - j],
            r@ == orig.take(n - rev@.len()).filter(outdated_pred()),
        decreases rev.len(),
    {
        let ghost k: int = n - rev@.len();
        let x = rev.pop().unwrap();
        assert(x == orig[k]);
        proof {
            reveal(Seq::filter);
            assert(orig.take(k + 1).drop_last() =~= orig.take(k));
            assert(orig.take(k + 1).last() == x);
        }
        if x.is_outdated() {
            r.push(x);
        }
    }
    assert(orig.take(n as int) =~= orig);
    r
}

/// The request that reinstalls the package a status describes: its formula,
/// npm or pip package, or its name where nothing more precise is known.
pub open spec fn requested_from_status(name: Seq<char>, source: SourceView) -> RequestedView {
    match source {
        SourceView::Formula(f) => if name == f {
            RequestedView::HomebrewFormula(f)
        } else {
            RequestedView::Auto(name)
        },
        SourceView::Npm(p) => RequestedView::NpmPackage(p),
        SourceView::Pip(p) => RequestedView::PipPackage(p),
        SourceView::Vendor(_) => RequestedView::Auto(name),
    }
}

/// The request that reinstalls the package a status describes.
pub fn requested_package_from_status(status: &PackageStatus) -> (r: RequestedPackage)
    ensures
        r@ == requested_from_status(status.package_name@, status.source@),
{
    match &status.source {
        PackageReceiptSource::Formula { root_formula } => {
            if str_eq(status.package_name.as_str(), root_formula.as_str()) {
                RequestedPackage::HomebrewFormula(root_formula.clone())
            } else {
                RequestedPackage::Auto(status.package_name.clone())
            }
        },
        PackageReceiptSource::Npm { package_name } => RequestedPackage::NpmPackage(package_name.clone()),
        PackageReceiptSource::Pip { package_name } => RequestedPackage::PipPackage(package_name.clone()),
        PackageReceiptSource::Vendor { .. } => RequestedPackage::Auto(status.package_name.clone()),
    }
}

/// The source a qualified or aliased request names by itself.
pub open spec fn explicit_source(r: RequestedView) -> Option<SourceView> {
    match r {
        RequestedView::HomebrewFormula(f) => Some(SourceView::Formula(f)),
        RequestedView::Alias { target, .. } => match target {
            TargetView::HomebrewFormula(f) => Some(SourceView::Formula(f)),
            TargetView::NpmPackage(p) => Some(SourceView::Npm(p)),
            TargetView::PipPackage(p) => Some(SourceView::Pip(p)),
        },
        RequestedView::NpmPackage(p) => Some(SourceView::Npm(p)),
        RequestedView::PipPackage(p) => Some(SourceView::Pip(p)),
        RequestedView::Auto(_) => None,
    }
}

/// The source a request names by itself (none for a bare name).
pub fn explicit_requested_package_source(requested: &RequestedPackage) -> (r: Option<PackageReceiptSource>)
    ensures
        source_option_view(r) == explicit_source(requested@),
{
    match requested {
        RequestedPackage::HomebrewFormula(formula) => Some(PackageReceiptSource::Formula { root_formula: formula.clone() }),
        RequestedPackage::Alias { target, .. } => match target {
            PackageAliasTarget::HomebrewFormula(formula) => Some(
                PackageReceiptSource::Formula { root_formula: formula.clone() },
            ),
            PackageAliasTarget::NpmPackage(package_name) => Some(
                PackageReceiptSource::Npm { package_name: package_name.clone() },
            ),
            PackageAliasTarget::PipPackage(package_name) => Some(
                PackageReceiptSource::Pip { package_name: package_name.clone() },
            ),
        },
        RequestedPackage::NpmPackage(package_name) => Some(PackageReceiptSource::Npm { package_name: package_name.clone() }),
        RequestedPackage::PipPackage(package_name) => Some(PackageReceiptSource::Pip { package_name: package_name.clone() }),
        RequestedPackage::Auto(_) => None,
    }
}

/// The name a source is known by: `brew:`, `subs:`, `npm:` or `pip:` and its name.
pub open spec fn qualified_name_of(source: SourceView) -> Seq<char> {
    match source {
        SourceView::Formula(f) => "brew:"@ + f,
        SourceView::Vendor(v) => "subs:"@ + v,
        SourceView::Npm(p) => "npm:"@ + p,
        SourceView::Pip(p) => "pip:"@ + p,
    }
}

/// A request that names its source by itself names the source known by the
/// request's own name: an aliased request the source its target names, an
/// npm or pip request that npm or pip package, a formula request that formula.
pub proof fn law_explicit_source_is_the_named_one(r: RequestedView)
    ensures
        r is Auto <==> explicit_source(r) is None,
        !(r is Auto) && !(r is HomebrewFormula) ==> (explicit_source(r) matches Some(s) && qualified_name_of(s) == requested_name(r)),
        r matches RequestedView::HomebrewFormula(f) ==> explicit_source(r) == Some(SourceView::Formula(f)),
{
    reveal_strlit("brew:");
    assert(crate::request::BREW_PACKAGE_PREFIX@ == "brew:"@);
}

/// Reinstalling from a status asks for what its receipt records: an npm or
/// pip package is asked for from the same source and under the same name it
/// was installed as, a formula installed under its own name as that formula,
/// and anything else by its installed name alone, pinned to no source.
pub proof fn law_reinstall_request_keeps_the_source(name: Seq<char>, source: SourceView)
    ensures
        (source is Npm || source is Pip) ==> explicit_source(requested_from_status(name, source)) == Some(source)
            && requested_name(requested_from_status(name, source)) == qualified_name_of(source),
        (source matches SourceView::Formula(f) && f == name) ==> explicit_source(requested_from_status(name, source)) == Some(source),
        !(source is Npm || source is Pip) ==> requested_name(requested_from_status(name, source)) == name,
        (source is Vendor || (source matches SourceView::Formula(f) && f != name))
            ==> explicit_source(requested_from_status(name, source)) is None,
{
}

/// The name a source is known by.
pub fn package_source_qualified_name(source: &PackageReceiptSource) -> (r: String)
    ensures
        r@ == qualified_name_of(source@),
{
    match source {
        PackageReceiptSource::Formula { root_formula } => {
            proof {
                reveal_strlit("brew:");
            }
            concat2(crate::request::BREW_PACKAGE_PREFIX, root_formula.as_str())
        },
        PackageReceiptSource::Vendor { vendor_name } => concat2("subs:", vendor_name.as_str()),
        PackageReceiptSource::Npm { package_name } => npm_package_display_name(package_name.as_str()),
        PackageReceiptSource::Pip { package_name } => pip_package_display_name(package_name.as_str()),
    }
}

/// What `infer_requested_package_source` gives, given the answer of the
/// existence check of a formula named like a bare name (`None` where it was not
/// needed).
pub open spec fn inferred_source(
    requested: RequestedView,
    index: Seq<(Seq<char>, Seq<char>)>,
    exists: Option<Result<bool, Seq<char>>>,
) -> Result<SourceView, Seq<char>> {
    match explicit_source(requested) {
        Some(s) => Ok(s),
        None => match requested {
            RequestedView::Auto(n) => match lookup_kind(n) {
                Some(k) => Ok(SourceView::Vendor(kind_name(k))),
                None => match root_formula_spec(n, index, exists) {
                    Ok(f) => Ok(SourceView::Formula(f)),
                    Err(e) => Err(e),
                },
            },
            _ => Err(Seq::empty()),
        },
    }
}

/// Whether inferring the source of `requested` asks whether a formula exists.
pub open spec fn inference_needs_check(requested: RequestedView, index: Seq<(Seq<char>, Seq<char>)>) -> bool {
    requested matches RequestedView::Auto(n) && lookup_kind(n) is None && root_formula_needs_check(n, index)
}

pub open spec fn source_result_view(r: Result<PackageReceiptSource, String>) -> Result<SourceView, Seq<char>> {
    match r {
        Ok(s) => Ok(s@),
        Err(e) => Err(e@),
    }
}

/// The name of a bare request's argument, for the existence check.
pub open spec fn auto_name(requested: RequestedView) -> Seq<char> {
    match requested {
        RequestedView::Auto(n) => n,
        _ => Seq::empty(),
    }
}

/// The source a request stands for: what it names, else the vendor package of
/// that name, else the Homebrew formula resolved through the database.
pub fn infer_requested_package_source<F>(requested: &RequestedPackage, db: &Db, formula_exists: F) -> (r: Result<PackageReceiptSource, String>)
    where
        F: FnOnce(&str) -> Result<bool, String>,
    requires
        forall|n: &str|
            n@ == auto_name(requested@) && inference_needs_check(requested@, db.entries@) ==> #[trigger] call_requires(
                formula_exists,
                (n,),
            ),
    ensures
        !inference_needs_check(requested@, db.entries@) ==> source_result_view(r) == inferred_source(requested@, db.entries@, None),
        inference_needs_check(requested@, db.entries@) ==> exists|n: &str, c: Result<bool, String>|
            n@ == auto_name(requested@) && #[trigger] call_ensures(formula_exists, (n,), c)
                && source_result_view(r) == inferred_source(requested@, db.entries@, Some(check_view(c))),
{
    if let Some(source) = explicit_requested_package_source(requested) {
        return Ok(source);
    }
    let package_name = match requested {
        RequestedPackage::Auto(name) => name,
        _ => {
            proof {
                assert(false);
            }
            return Err(String::new());
        },
    };
    if let Some(package) = get(package_name.as_str()) {
        return Ok(PackageReceiptSource::Vendor { vendor_name: package.name });
    }
    let formula = resolve_i_root_formula_with_db(package_name.as_str(), db, formula_exists);
    match formula {
        Ok(f) => Ok(PackageReceiptSource::Formula { root_formula: f }),
        Err(e) => Err(e),
    }
}

// ---------------------------------------------------------------------------
// Aliases of a package

/// The aliases in `entries` whose target has the qualified name `q`, in order.
pub open spec fn aliases_naming(entries: Seq<(Seq<char>, TargetView)>, q: Seq<char>) -> Seq<Seq<char>>
    decreases entries.len(),
{
    if entries.len() == 0 {
        Seq::empty()
    } else {
        let rest = aliases_naming(entries.drop_last(), q);
        if target_display(entries.last().1) == q {
            rest.push(entries.last().0)
        } else {
            rest
        }
    }
}

/// The keys in `entries` whose value is `f`, in order.
pub open spec fn keys_for(entries: Seq<(Seq<char>, Seq<char>)>, f: Seq<char>) -> Seq<Seq<char>>
    decreases entries.len(),
{
    if entries.len() == 0 {
        Seq::empty()
    } else {
        let rest = keys_for(entries.drop_last(), f);
        if entries.last().1 == f {
            rest.push(entries.last().0)
        } else {
            rest
        }
    }
}

/// This package manager's aliases for a source, sorted.
pub fn our_aliases_for_source(source: &PackageReceiptSource, aliases: &AliasTable) -> (r: Vec<String>)
    ensures
        texts_sorted(strings_view(r@)),
        strings_view(r@).to_multiset() == aliases_naming(aliases@, qualified_name_of(source@)).to_multiset(),
{
    let qualified = package_source_qualified_name(source);
    let mut found: Vec<String> = Vec::new();
    let mut i: usize = 0;
    assert(aliases@.take(0) =~= Seq::<(Seq<char>, TargetView)>::empty());
    while i < aliases.entries.len()
        invariant
            i <= aliases.entries@.len(),
            qualified@ == qualified_name_of(source@),
            strings_view(found@) == aliases_naming(aliases@.take(i as int), qualified@),
        decreases aliases.entries.len() - i,
    {
        assert(aliases@.take(i + 1).drop_last() =~= aliases@.take(i as int));
        assert(aliases@.take(i + 1).last() == (aliases.entries@[i as int].0@, aliases.entries@[i as int].1@));
        let shown = aliases.entries[i].1.display_name();
        if str_eq(shown.as_str(), qualified.as_str()) {
            let ghost prev = strings_view(found@);
            found.push(aliases.entries[i].0.clone());
            assert(strings_view(found@) =~= prev.push(aliases.entries@[i as int].0@));
        }
        i = i + 1;
    }
    assert(aliases@.take(aliases@.len() as int) =~= aliases@);
    sort_strings(found)
}

/// Homebrew's aliases of a formula, sorted.
pub fn homebrew_aliases_for_formula(formula: &str, index: &FormulaIndex) -> (r: Vec<String>)
    ensures
        texts_sorted(strings_view(r@)),
        strings_view(r@).to_multiset() == keys_for(index@, formula@).to_multiset(),
{
    let mut found: Vec<String> = Vec::new();
    let mut i: usize = 0;
    assert(index@.take(0) =~= Seq::<(Seq<char>, Seq<char>)>::empty());
    while i < index.entries.len()
        invariant
            i <= index.entries@.len(),
            strings_view(found@) == keys_for(index@.take(i as int), formula@),
        decreases index.entries.len() - i,
    {
        assert(index@.take(i + 1).drop_last() =~= index@.take(i as int));
        assert(index@.take(i + 1).last() == (index.entries@[i as int].0@, index.entries@[i as int].1@));
        if str_eq(index.entries[i].1.as_str(), formula) {
            let ghost prev = strings_view(found@);
            found.push(index.entries[i].0.clone());
            assert(strings_view(found@) =~= prev.push(index.entries@[i as int].0@));
        }
        i = i + 1;
    }
    assert(index@.take(index@.len() as int) =~= index@);
    sort_strings(found)
}

/// The names of every alias of a source: this package manager's and, for a
/// formula, Homebrew's.
pub open spec fn all_aliases(
    source: SourceView,
    aliases: Seq<(Seq<char>, TargetView)>,
    formula_aliases: Result<Seq<(Seq<char>, Seq<char>)>, Seq<char>>,
) -> Set<Seq<char>> {
    let ours = aliases_naming(aliases, qualified_name_of(source)).to_set();
    match (source, formula_aliases) {
        (SourceView::Formula(f), Ok(index)) => ours.union(keys_for(index, f).to_set()),
        _ => ours,
    }
}

pub open spec fn index_result_view(r: Result<FormulaIndex, String>) -> Result<Seq<(Seq<char>, Seq<char>)>, Seq<char>> {
    match r {
        Ok(i) => Ok(i@),
        Err(e) => Err(e@),
    }
}

/// Every alias of a source, sorted, each once; and the error of Homebrew's
/// alias index where a formula needed it and it could not be read.
pub fn resolve_aliases_for_source(
    source: &PackageReceiptSource,
    aliases: &AliasTable,
    formula_aliases: &Result<FormulaIndex, String>,
) -> (r: (Vec<String>, Option<String>))
    ensures
        texts_strictly_sorted(strings_view(r.0@)),
        strings_view(r.0@).to_set() == all_aliases(source@, aliases@, index_result_view(*formula_aliases)),
        r.1 is Some <==> (source@ is Formula && formula_aliases is Err),
        r.1 matches Some(e) ==> formula_aliases matches Err(fe) && e@ == fe@,
{
    let mut found = our_aliases_for_source(source, aliases);
    let mut alias_error: Option<String> = None;
    let ghost ours = strings_view(found@);
    proof {
        lemma_multiset_to_set(ours, aliases_naming(aliases@, qualified_name_of(source@)));
    }
    if let PackageReceiptSource::Formula { root_formula } = source {
        match formula_aliases {
            Ok(index) => {
                let brew = homebrew_aliases_for_formula(root_formula.as_str(), index);
                let ghost theirs = strings_view(brew@);
                let mut j: usize = 0;
                while j < brew.len()
                    invariant
                        j <= brew@.len(),
                        theirs == strings_view(brew@),
                        strings_view(found@) == ours + theirs.take(j as int),
                    decreases brew.len() - j,
                {
                    let ghost prev = strings_view(found@);
                    found.push(brew[j].clone());
                    assert(strings_view(found@) =~= prev.push(theirs[j as int]));
                    assert(theirs.take(j + 1) =~= theirs.take(j as int).push(theirs[j as int]));
                    j = j + 1;
                }
                proof {
                    assert(theirs.take(theirs.len() as int) =~= theirs);
                    lemma_multiset_to_set(theirs, keys_for(index@, root_formula@));
                    vstd::seq_lib::lemma_multiset_commutative(ours, theirs);
                    assert((ours + theirs).to_set() =~= ours.to_set().union(theirs.to_set())) by {
                        assert forall|x: Seq<char>| (ours + theirs).contains(x) <==> ours.contains(x) || theirs.contains(x) by {
                            if (ours + theirs).contains(x) {
                                let k = choose|k: int| 0 <= k < (ours + theirs).len() && (ours + theirs)[k] == x;
                                if k < ours.len() {
                                    assert(ours[k] == x);
                                } else {
                                    assert(theirs[k - ours.len()] == x);
                                }
                            }
                            if ours.contains(x) {
                                let k = choose|k: int| 0 <= k < ours.len() && ours[k] == x;
                                assert((ours + theirs)[k] == x);
                            }
                            if theirs.contains(x) {
                                let k = choose|k: int| 0 <= k < theirs.len() && theirs[k] == x;
                                assert((ours + theirs)[ours.len() + k] == x);
                            }
                        }
                    }
                }
            },
            Err(e) => {
                alias_error = Some(e.clone());
            },
        }
    }
    proof {
        broadcast use vstd::seq_lib::group_to_multiset_ensures;
    }
    let sorted = sort_unique_strings(found);
    (sorted, alias_error)
}

// ---------------------------------------------------------------------------
// What `info` shows

/// What the Homebrew API says of a formula.
#[derive(Clone, Debug)]
pub struct FormulaInfo {
    pub desc: String,
    pub homepage: String,
    pub license: Option<String>,
    pub dependencies: Vec<String>,
}

/// The Homebrew metadata shown for a formula.
#[derive(Clone, Debug)]
pub struct HomebrewPackageInfo {
    pub formula: String,
    pub description: Option<String>,
    pub homepage: Option<String>,
    pub license: Option<String>,
    pub dependencies: Vec<String>,
}

/// A text trimmed, or nothing where only white space is left.
pub open spec fn text_or_none(v: Seq<char>) -> Option<Seq<char>> {
    if trimmed(v).len() == 0 {
        None
    } else {
        Some(trimmed(v))
    }
}

/// The Homebrew metadata of a formula, from what the API says of it.
pub fn homebrew_package_info_from_formula_info(formula: &str, info: &FormulaInfo) -> (r: HomebrewPackageInfo)
    ensures
        r.formula@ == formula@,
        arg_view(r.description) == text_or_none(info.desc@),
        arg_view(r.homepage) == text_or_none(info.homepage@),
        arg_view(r.license) == (match info.license {
            Some(l) => text_or_none(l@),
            None => None,
        }),
        strings_view(r.dependencies@) == strings_view(info.dependencies@),
{
    let license = match &info.license {
        Some(l) => string_or_none(l.as_str()),
        None => None,
    };
    let mut dependencies: Vec<String> = Vec::new();
    let mut i: usize = 0;
    while i < info.dependencies.len()
        invariant
            i <= info.dependencies@.len(),
            strings_view(dependencies@) == strings_view(info.dependencies@).take(i as int),
        decreases info.dependencies.len() - i,
    {
        let ghost prev = strings_view(dependencies@);
        dependencies.push(info.dependencies[i].clone());
        assert(strings_view(dependencies@) =~= prev.push(info.dependencies@[i as int]@));
        assert(strings_view(info.dependencies@).take(i + 1) =~= strings_view(info.dependencies@).take(i as int).push(
            info.dependencies@[i as int]@,
        ));
        i = i + 1;
    }
    assert(strings_view(info.dependencies@).take(info.dependencies@.len() as int) =~= strings_view(info.dependencies@));
    HomebrewPackageInfo {
        formula: owned(formula),
        description: string_or_none(info.desc.as_str()),
        homepage: string_or_none(info.homepage.as_str()),
        license,
        dependencies,
    }
}

/// Everything `info` shows of a package.
#[derive(Clone, Debug)]
pub struct PackageInfo {
    pub package_name: String,
    pub qualified_name: String,
    pub install_root: String,
    pub installed: bool,
    pub source: Option<PackageReceiptSource>,
    pub source_error: Option<String>,
    pub aliases: Vec<String>,
    pub aliases_error: Option<String>,
    pub installed_version: Option<String>,
    pub latest_version: Option<String>,
    pub latest_version_error: Option<String>,
    pub executable_paths: Vec<String>,
    pub executable_paths_error: Option<String>,
    pub homebrew_info: Option<HomebrewPackageInfo>,
    pub homebrew_info_error: Option<String>,
    pub npm_homepage: Option<String>,
    pub npm_package_info_error: Option<String>,
}

/// Where a source is from, as the card says it.
pub open spec fn source_field_text(source: Option<SourceView>) -> Seq<char> {
    match source {
        Some(SourceView::Formula(_)) => "Homebrew"@,
        Some(SourceView::Vendor(_)) => "Subs"@,
        Some(SourceView::Npm(_)) => "npm"@,
        Some(SourceView::Pip(_)) => "PyPI"@,
        None => "Unknown"@,
    }
}

/// The Source field tells the kinds of source apart: two sources get the same
/// text only when they are of the same kind, a known source never reads as
/// unknown, and each kind reads as where it comes from (Homebrew, Subs for a
/// vendor package, npm, PyPI).
pub proof fn law_source_field_names_the_kind(a: SourceView, b: SourceView)
    ensures
        source_field_text(Some(a)) == source_field_text(Some(b)) ==> (a is Formula <==> b is Formula)
            && (a is Vendor <==> b is Vendor) && (a is Npm <==> b is Npm) && (a is Pip <==> b is Pip),
        source_field_text(Some(a)) != source_field_text(None),
        a is Vendor ==> source_field_text(Some(a)) == "Subs"@,
        a is Formula ==> source_field_text(Some(a)) == "Homebrew"@,
        a is Npm ==> source_field_text(Some(a)) == "npm"@,
        a is Pip ==> source_field_text(Some(a)) == "PyPI"@,
        source_field_text(None) == "Unknown"@,
{
    reveal_strlit("Homebrew");
    reveal_strlit("Subs");
    reveal_strlit("npm");
    reveal_strlit("PyPI");
    reveal_strlit("Unknown");
    assert("Homebrew"@[0] != "Subs"@[0] && "Homebrew"@[0] != "npm"@[0] && "Homebrew"@[0] != "PyPI"@[0] && "Homebrew"@[0] != "Unknown"@[0]);
    assert("Subs"@[0] != "npm"@[0] && "Subs"@[0] != "PyPI"@[0] && "Subs"@[0] != "Unknown"@[0]);
    assert("npm"@[0] != "PyPI"@[0] && "npm"@[0] != "Unknown"@[0]);
    assert("PyPI"@[0] != "Unknown"@[0]);
}

/// Where a source is from, as the card says it.
pub fn format_source_field(source: Option<&PackageReceiptSource>) -> (r: String)
    ensures
        r@ == source_field_text(match source {
            Some(s) => Some(s@),
            None => None,
        }),
{
    match source {
        Some(PackageReceiptSource::Formula { .. }) => owned("Homebrew"),
        Some(PackageReceiptSource::Vendor { .. }) => owned("Subs"),
        Some(PackageReceiptSource::Npm { .. }) => owned("npm"),
        Some(PackageReceiptSource::Pip { .. }) => owned("PyPI"),
        None => owned("Unknown"),
    }
}

/// The version the card shows: the installed one, else the latest, else
/// `unknown`.
pub open spec fn version_value_text(info: PackageInfo) -> Seq<char> {
    match (info.installed_version, info.latest_version) {
        (Some(i), _) => i@,
        (None, Some(l)) => l@,
        (None, None) => "unknown"@,
    }
}

/// The version the card shows.
pub fn format_version_value(info: &PackageInfo) -> (r: String)
    ensures
        r@ == version_value_text(*info),
{
    if let Some(installed_version) = &info.installed_version {
        installed_version.clone()
    } else if let Some(latest_version) = &info.latest_version {
        latest_version.clone()
    } else {
        owned("unknown")
    }
}

/// What the card says of updates to an installed package.
pub open spec fn version_status_text(info: PackageInfo) -> Option<Seq<char>> {
    if !info.installed {
        None
    } else {
        match (info.installed_version, info.latest_version) {
            (Some(i), Some(l)) => if i@ == l@ {
                Some("✔ up to date"@)
            } else {
                Some("update available ("@ + l@ + ")"@)
            },
            (None, Some(_)) => None,
            (_, None) => match info.latest_version_error {
                Some(e) => Some("latest unknown ("@ + e@ + ")"@),
                None => None,
            },
        }
    }
}

/// What the card says of updates to an installed package.
pub fn format_version_status(info: &PackageInfo) -> (r: Option<String>)
    ensures
        arg_view(r) == version_status_text(*info),
{
    if !info.installed {
        return None;
    }
    match (&info.installed_version, &info.latest_version) {
        (Some(installed_version), Some(latest_version)) => {
            if str_eq(installed_version.as_str(), latest_version.as_str()) {
                Some(owned("✔ up to date"))
            } else {
                Some(crate::text::concat3("update available (", latest_version.as_str(), ")"))
            }
        },
        (None, Some(_)) => None,
        (_, None) => match &info.latest_version_error {
            Some(err) => Some(crate::text::concat3("latest unknown (", err.as_str(), ")")),
            None => None,
        },
    }
}

/// The page of a formula on formulae.brew.sh.
pub open spec fn formula_page_url(formula: Seq<char>) -> Seq<char> {
    "https://formulae.brew.sh/formula/"@ + formula
}

/// The page of a formula on formulae.brew.sh.
pub fn homebrew_formula_page_url(formula: &str) -> (r: String)
    ensures
        r@ == formula_page_url(formula@),
{
    concat2("https://formulae.brew.sh/formula/", formula)
}

/// The pieces of `parts` with `sep` between each two.
pub open spec fn joined_with(parts: Seq<Seq<char>>, sep: Seq<char>) -> Seq<char>
    decreases parts.len(),
{
    if parts.len() == 0 {
        Seq::empty()
    } else if parts.len() == 1 {
        parts[0]
    } else {
        joined_with(parts.drop_last(), sep) + sep + parts.last()
    }
}

/// The strings of `parts` with `sep` between each two (`[String]::join`).
pub fn join_strings(parts: &Vec<String>, sep: &str) -> (r: String)
    ensures
        r@ == joined_with(strings_view(parts@), sep@),
{
    let ghost ps = strings_view(parts@);
    let mut r = String::new();
    let mut i: usize = 0;
    assert(ps.take(0) =~= Seq::<Seq<char>>::empty());
    while i < parts.len()
        invariant
            ps == strings_view(parts@),
            i <= parts@.len(),
            r@ == joined_with(ps.take(i as int), sep@),
        decreases parts.len() - i,
    {
        assert(ps.take(i + 1).drop_last() =~= ps.take(i as int));
        assert(ps.take(i + 1).last() == parts@[i as int]@);
        if i > 0 {
            r.append(sep);
        } else {
            assert(ps.take(1)[0] == parts@[0]@);
        }
        r.append(parts[i].as_str());
        i = i + 1;
    }
    assert(ps.take(ps.len() as int) =~= ps);
    r
}

/// `prefix` before each line.
pub open spec fn prefixed(prefix: Seq<char>, lines: Seq<Seq<char>>) -> Seq<Seq<char>> {
    Seq::new(lines.len(), |i: int| prefix + lines[i])
}

/// Appends each line of `more` after `prefix`.
pub fn push_prefixed(lines: &mut Vec<String>, prefix: &str, more: &Vec<String>)
    ensures
        strings_view(final(lines)@) == strings_view(old(lines)@) + prefixed(prefix@, strings_view(more@)),
{
    let ghost start = strings_view(lines@);
    let ghost ms = strings_view(more@);
    let mut i: usize = 0;
    assert(prefixed(prefix@, ms).take(0) =~= Seq::<Seq<char>>::empty());
    while i < more.len()
        invariant
            ms == strings_view(more@),
            i <= more@.len(),
            strings_view(lines@) == start + prefixed(prefix@, ms).take(i as int),
        decreases more.len() - i,
    {
        let line = concat2(prefix, more[i].as_str());
        let ghost prev = strings_view(lines@);
        lines.push(line);
        assert(strings_view(lines@) =~= prev.push(line@));
        assert(prefixed(prefix@, ms).take(i + 1) =~= prefixed(prefix@, ms).take(i as int).push(line@));
        i = i + 1;
    }
    assert(prefixed(prefix@, ms).take(ms.len() as int) =~= prefixed(prefix@, ms));
}

/// The title lines: the first after the package mark, the others under it.
pub open spec fn title_lines(name: Seq<char>) -> Seq<Seq<char>> {
    let ws = wrapped(name, (INFO_WIDTH - 6) as nat);
    Seq::new(ws.len(), |i: int| if i == 0 {
        "   📦 "@ + ws[0]
    } else {
        "     "@ + ws[i]
    })
}

/// `lines` when `cond` holds, nothing otherwise.
pub open spec fn when(cond: bool, lines: Seq<Seq<char>>) -> Seq<Seq<char>> {
    if cond {
        lines
    } else {
        Seq::empty()
    }
}

/// The metadata fields: Homebrew's description, homepage, license and page,
/// or the page of the formula alone; the homepage of an npm package.
pub open spec fn metadata_lines(info: PackageInfo) -> Seq<Seq<char>> {
    let brew = match info.homebrew_info {
        Some(h) => (match h.description {
            Some(d) => wrapped_field("Description"@, d@),
            None => Seq::empty(),
        }) + (match h.homepage {
            Some(p) => wrapped_field("Homepage"@, p@),
            None => Seq::empty(),
        }) + (match h.license {
            Some(l) => wrapped_field("License"@, l@),
            None => Seq::empty(),
        }) + wrapped_field("Formula Page"@, formula_page_url(h.formula@)),
        None => match info.source {
            Some(PackageReceiptSource::Formula { root_formula }) => wrapped_field(
                "Formula Page"@,
                formula_page_url(root_formula@),
            ) + (match info.homebrew_info_error {
                Some(e) => wrapped_field("Homebrew Info"@, "unavailable ("@ + e@ + ")"@),
                None => Seq::empty(),
            }),
            _ => Seq::empty(),
        },
    };
    let npm = match info.source {
        Some(PackageReceiptSource::Npm { .. }) => match info.npm_homepage {
            Some(p) => wrapped_field("Homepage"@, p@),
            None => match info.npm_package_info_error {
                Some(e) => wrapped_field("Homepage"@, "unavailable ("@ + e@ + ")"@),
                None => Seq::empty(),
            },
        },
        _ => Seq::empty(),
    };
    brew + npm
}

/// The wrapped lines of each path, indented, one path after another.
pub open spec fn path_lines(paths: Seq<Seq<char>>) -> Seq<Seq<char>>
    decreases paths.len(),
{
    if paths.len() == 0 {
        Seq::empty()
    } else {
        path_lines(paths.drop_last()) + prefixed("  "@, wrapped(paths.last(), (INFO_INNER_WIDTH - 2) as nat))
    }
}

/// The lines of the executables section between its frame lines.
pub open spec fn executable_lines(info: PackageInfo) -> Seq<Seq<char>> {
    match info.executable_paths_error {
        Some(e) => prefixed("  "@, wrapped("unavailable ("@ + e@ + ")"@, (INFO_INNER_WIDTH - 2) as nat)),
        None => path_lines(strings_view(info.executable_paths@)),
    }
}

/// The title box of the card and the empty line under it.
pub open spec fn card_head(info: PackageInfo) -> Seq<Seq<char>> {
    seq![box_top_text()] + title_lines(info.qualified_name@) + seq![box_bottom_text(), Seq::empty()]
}

/// The version, install, source and alias fields.
pub open spec fn card_fields(info: PackageInfo) -> Seq<Seq<char>> {
    let installed_value = if info.installed {
        info.install_root@
    } else {
        "no"@
    };
    seq![
        single_line_field("Version"@, version_value_text(info), version_status_text(info)),
        single_line_field("Installed"@, installed_value, None),
    ] + wrapped_field("Source"@, source_field_text(source_option_view(info.source))) + when(
        info.aliases@.len() > 0,
        wrapped_field("Aliases"@, joined_with(strings_view(info.aliases@), ", "@)),
    )
}

/// The metadata fields after an empty line, where there are any.
pub open spec fn card_metadata(info: PackageInfo) -> Seq<Seq<char>> {
    when(metadata_lines(info).len() > 0, seq![Seq::<char>::empty()] + metadata_lines(info))
}

/// The dependencies section, where Homebrew lists any.
pub open spec fn card_dependencies(info: PackageInfo) -> Seq<Seq<char>> {
    match info.homebrew_info {
        Some(h) => when(
            h.dependencies@.len() > 0,
            seq![Seq::empty(), section_top_text("Dependencies"@)] + wrapped_tokens(strings_view(h.dependencies@), 2, 3)
                + seq![box_bottom_text()],
        ),
        None => Seq::empty(),
    }
}

/// The executables section, where there are executables or they could not be listed.
pub open spec fn card_executables(info: PackageInfo) -> Seq<Seq<char>> {
    when(
        info.executable_paths@.len() > 0 || info.executable_paths_error is Some,
        seq![Seq::empty(), section_top_text("Executables"@)] + executable_lines(info) + seq![box_bottom_text()],
    )
}

/// Every line of the card.
pub open spec fn info_card_lines(info: PackageInfo) -> Seq<Seq<char>> {
    card_head(info) + card_fields(info) + card_metadata(info) + card_dependencies(info) + card_executables(info)
}

/// Appends every line of `more`.
pub fn push_all(lines: &mut Vec<String>, more: &Vec<String>)
    ensures
        strings_view(final(lines)@) == strings_view(old(lines)@) + strings_view(more@),
{
    proof {
        reveal_strlit("");
    }
    push_prefixed(lines, "", more);
    assert(prefixed(""@, strings_view(more@)) =~= strings_view(more@));
}

/// The metadata fields of the card.
fn metadata_field_lines(info: &PackageInfo) -> (r: Vec<String>)
    ensures
        strings_view(r@) == metadata_lines(*info),
{
    let mut lines: Vec<String> = Vec::new();
    assert(strings_view(lines@) =~= Seq::<Seq<char>>::empty());
    match &info.homebrew_info {
        Some(h) => {
            if let Some(d) = &h.description {
                push_wrapped_field(&mut lines, "Description", d.as_str());
            }
            if let Some(p) = &h.homepage {
                push_wrapped_field(&mut lines, "Homepage", p.as_str());
            }
            if let Some(l) = &h.license {
                push_wrapped_field(&mut lines, "License", l.as_str());
            }
            let page = homebrew_formula_page_url(h.formula.as_str());
            push_wrapped_field(&mut lines, "Formula Page", page.as_str());
        },
        None => {
            if let Some(PackageReceiptSource::Formula { root_formula }) = &info.source {
                let page = homebrew_formula_page_url(root_formula.as_str());
                push_wrapped_field(&mut lines, "Formula Page", page.as_str());
                if let Some(e) = &info.homebrew_info_error {
                    let text = crate::text::concat3("unavailable (", e.as_str(), ")");
                    push_wrapped_field(&mut lines, "Homebrew Info", text.as_str());
                }
            }
        },
    }
    let ghost brew = strings_view(lines@);
    if let Some(PackageReceiptSource::Npm { .. }) = &info.source {
        if let Some(p) = &info.npm_homepage {
            push_wrapped_field(&mut lines, "Homepage", p.as_str());
        } else if let Some(e) = &info.npm_package_info_error {
            let text = crate::text::concat3("unavailable (", e.as_str(), ")");
            push_wrapped_field(&mut lines, "Homepage", text.as_str());
        }
    }
    assert(strings_view(lines@) =~= metadata_lines(*info));
    lines
}

/// The lines of the executables section between its frame lines.
fn executable_section_lines(info: &PackageInfo) -> (r: Vec<String>)
    ensures
        strings_view(r@) == executable_lines(*info),
{
    let mut lines: Vec<String> = Vec::new();
    if let Some(e) = &info.executable_paths_error {
        let text = crate::text::concat3("unavailable (", e.as_str(), ")");
        let ws = wrap_text(text.as_str(), INFO_INNER_WIDTH - 2);
        push_prefixed(&mut lines, "  ", &ws);
        assert(strings_view(lines@) =~= executable_lines(*info));
        return lines;
    }
    let ghost ps = strings_view(info.executable_paths@);
    let mut i: usize = 0;
    assert(ps.take(0) =~= Seq::<Seq<char>>::empty());
    while i < info.executable_paths.len()
        invariant
            ps == strings_view(info.executable_paths@),
            i <= info.executable_paths@.len(),
            strings_view(lines@) == path_lines(ps.take(i as int)),
        decreases info.executable_paths.len() - i,
    {
        assert(ps.take(i + 1).drop_last() =~= ps.take(i as int));
        assert(ps.take(i + 1).last() == info.executable_paths@[i as int]@);
        let ws = wrap_text(info.executable_paths[i].as_str(), INFO_INNER_WIDTH - 2);
        push_prefixed(&mut lines, "  ", &ws);
        i = i + 1;
    }
    assert(ps.take(ps.len() as int) =~= ps);
    lines
}

/// The title box of the card.
fn card_head_lines(info: &PackageInfo) -> (r: Vec<String>)
    ensures
        strings_view(r@) == card_head(*info),
{
    proof {
        reveal_strlit("   📦 ");
        reveal_strlit("     ");
    }
    let mut lines: Vec<String> = Vec::new();
    let first = plain_box_top();
    lines.push(first);
    assert(strings_view(lines@) =~= seq![box_top_text()]);
    let title = wrap_text(info.qualified_name.as_str(), INFO_WIDTH - 6);
    let ghost tl = strings_view(title@);
    let ghost top = strings_view(lines@);
    let mut i: usize = 0;
    while i < title.len()
        invariant
            tl == strings_view(title@),
            tl == wrapped(info.qualified_name@, (INFO_WIDTH - 6) as nat),
            i <= title@.len(),
            strings_view(lines@) == top + title_lines(info.qualified_name@).take(i as int),
        decreases title.len() - i,
    {
        let line = if i == 0 {
            concat2("   📦 ", title[0].as_str())
        } else {
            concat2("     ", title[i].as_str())
        };
        let ghost prev = strings_view(lines@);
        lines.push(line);
        assert(strings_view(lines@) =~= prev.push(line@));
        assert(title_lines(info.qualified_name@).take(i + 1) =~= title_lines(info.qualified_name@).take(i as int).push(line@));
        i = i + 1;
    }
    assert(title_lines(info.qualified_name@).take(tl.len() as int) =~= title_lines(info.qualified_name@));
    let ghost titled = strings_view(lines@);
    let bottom = plain_box_bottom();
    lines.push(bottom);
    let blank = String::new();
    lines.push(blank);
    assert(strings_view(lines@) =~= titled.push(box_bottom_text()).push(Seq::empty()));
    assert(strings_view(lines@) =~= card_head(*info));
    lines
}

/// Appends the version, install, source and alias fields.
fn push_card_fields(lines: &mut Vec<String>, info: &PackageInfo)
    ensures
        strings_view(final(lines)@) == strings_view(old(lines)@) + card_fields(*info),
{
    proof {
        reveal_strlit("no");
    }
    let ghost start = strings_view(lines@);
    let version = format_version_value(info);
    let status = format_version_status(info);
    let status_ref: Option<&str> = match &status {
        Some(st) => Some(st.as_str()),
        None => None,
    };
    push_single_line_field(lines, "Version", version.as_str(), status_ref);
    let installed_value = if info.installed {
        info.install_root.clone()
    } else {
        owned("no")
    };
    push_single_line_field(lines, "Installed", installed_value.as_str(), None);
    let source_text = match &info.source {
        Some(src) => format_source_field(Some(src)),
        None => format_source_field(None),
    };
    push_wrapped_field(lines, "Source", source_text.as_str());
    if info.aliases.len() > 0 {
        let joined = join_strings(&info.aliases, ", ");
        push_wrapped_field(lines, "Aliases", joined.as_str());
    }
    assert(strings_view(lines@) =~= start + card_fields(*info));
}

/// Appends the metadata fields after an empty line, where there are any.
fn push_card_metadata(lines: &mut Vec<String>, info: &PackageInfo)
    ensures
        strings_view(final(lines)@) == strings_view(old(lines)@) + card_metadata(*info),
{
    let ghost start = strings_view(lines@);
    let meta = metadata_field_lines(info);
    if meta.len() > 0 {
        let blank = String::new();
        lines.push(blank);
        assert(strings_view(lines@) =~= start.push(Seq::<char>::empty()));
        push_all(lines, &meta);
    }
    assert(strings_view(lines@) =~= start + card_metadata(*info));
}

/// Appends the dependencies section, where Homebrew lists any.
fn push_card_dependencies(lines: &mut Vec<String>, info: &PackageInfo)
    ensures
        strings_view(final(lines)@) == strings_view(old(lines)@) + card_dependencies(*info),
{
    proof {
        reveal_strlit("Dependencies");
    }
    let ghost start = strings_view(lines@);
    if let Some(h) = &info.homebrew_info {
        if h.dependencies.len() > 0 {
            let blank = String::new();
            lines.push(blank);
            let top = section_top("Dependencies");
            lines.push(top);
            let ghost framed = strings_view(lines@);
            assert(framed =~= start + seq![Seq::<char>::empty(), section_top_text("Dependencies"@)]);
            let tokens = wrap_tokens(&h.dependencies, 2, 3);
            push_all(lines, &tokens);
            let ghost filled = strings_view(lines@);
            let bottom = section_bottom();
            lines.push(bottom);
            assert(strings_view(lines@) =~= filled.push(box_bottom_text()));
        }
    }
    assert(strings_view(lines@) =~= start + card_dependencies(*info));
}

/// Appends the executables section, where there is one.
fn push_card_executables(lines: &mut Vec<String>, info: &PackageInfo)
    ensures
        strings_view(final(lines)@) == strings_view(old(lines)@) + card_executables(*info),
{
    proof {
        reveal_strlit("Executables");
    }
    let ghost start = strings_view(lines@);
    if info.executable_paths.len() > 0 || info.executable_paths_error.is_some() {
        let blank = String::new();
        lines.push(blank);
        let top = section_top("Executables");
        lines.push(top);
        let ghost framed = strings_view(lines@);
        assert(framed =~= start + seq![Seq::<char>::empty(), section_top_text("Executables"@)]);
        let body = executable_section_lines(info);
        push_all(lines, &body);
        let ghost filled = strings_view(lines@);
        let bottom = section_bottom();
        lines.push(bottom);
        assert(strings_view(lines@) =~= filled.push(box_bottom_text()));
    }
    assert(strings_view(lines@) =~= start + card_executables(*info));
}

/// The card `info` prints for a package, its lines joined.
pub fn format_package_info(info: &PackageInfo) -> (r: String)
    ensures
        r@ == joined_with(info_card_lines(*info), "\n"@),
{
    let mut lines = card_head_lines(info);
    push_card_fields(&mut lines, info);
    push_card_metadata(&mut lines, info);
    push_card_dependencies(&mut lines, info);
    push_card_executables(&mut lines, info);
    join_strings(&lines, "\n")
}

// ---------------------------------------------------------------------------
// Building the card of a package

/// The fields a step of building the card leaves alone.
pub open spec fn same_except_identity(a: PackageInfo, b: PackageInfo) -> bool {
    &&& a.package_name == b.package_name
    &&& a.install_root == b.install_root
    &&& a.installed == b.installed
    &&& a.source == b.source
    &&& a.source_error == b.source_error
    &&& a.installed_version == b.installed_version
    &&& a.latest_version == b.latest_version
    &&& a.latest_version_error == b.latest_version_error
    &&& a.executable_paths == b.executable_paths
    &&& a.executable_paths_error == b.executable_paths_error
    &&& a.homebrew_info == b.homebrew_info
    &&& a.homebrew_info_error == b.homebrew_info_error
    &&& a.npm_homepage == b.npm_homepage
    &&& a.npm_package_info_error == b.npm_package_info_error
}

/// Fills in the qualified name and the aliases from the source, or the
/// package name where the source is unknown.
pub fn populate_package_info_identity(
    info: &mut PackageInfo,
    aliases: &AliasTable,
    formula_aliases: &Result<FormulaIndex, String>,
)
    ensures
        same_except_identity(*old(info), *final(info)),
        match old(info).source {
            Some(source) => {
                &&& final(info).qualified_name@ == qualified_name_of(source@)
                &&& texts_strictly_sorted(strings_view(final(info).aliases@))
                &&& strings_view(final(info).aliases@).to_set() == all_aliases(
                    source@,
                    aliases@,
                    index_result_view(*formula_aliases),
                )
                &&& (final(info).aliases_error is Some <==> (source is Formula && formula_aliases is Err))
                &&& (final(info).aliases_error matches Some(e) ==> formula_aliases matches Err(fe) && e@ == fe@)
            },
            None => {
                &&& final(info).qualified_name@ == old(info).package_name@
                &&& final(info).aliases == old(info).aliases
                &&& final(info).aliases_error == old(info).aliases_error
            },
        },
{
    match &info.source {
        Some(source) => {
            let qualified = package_source_qualified_name(source);
            let (found, alias_error) = resolve_aliases_for_source(source, aliases, formula_aliases);
            info.qualified_name = qualified;
            info.aliases = found;
            info.aliases_error = alias_error;
        },
        None => {
            info.qualified_name = info.package_name.clone();
        },
    }
}

/// A card with nothing known of the package but its name and where it goes.
pub fn blank_package_info(package_name: String, install_root: String, installed: bool) -> (r: PackageInfo)
    ensures
        r.package_name == package_name,
        r.install_root == install_root,
        r.installed == installed,
        r.qualified_name@ == Seq::<char>::empty(),
        r.source is None && r.source_error is None,
        r.aliases@.len() == 0 && r.aliases_error is None,
        r.installed_version is None && r.latest_version is None && r.latest_version_error is None,
        r.executable_paths@.len() == 0 && r.executable_paths_error is None,
        r.homebrew_info is None && r.homebrew_info_error is None,
        r.npm_homepage is None && r.npm_package_info_error is None,
{
    PackageInfo {
        package_name,
        qualified_name: String::new(),
        install_root,
        installed,
        source: None,
        source_error: None,
        aliases: Vec::new(),
        aliases_error: None,
        installed_version: None,
        latest_version: None,
        latest_version_error: None,
        executable_paths: Vec::new(),
        executable_paths_error: None,
        homebrew_info: None,
        homebrew_info_error: None,
        npm_homepage: None,
        npm_package_info_error: None,
    }
}

/// The message for an installed package without a receipt.
pub open spec fn missing_metadata_text() -> Seq<char> {
    "missing package metadata"@
}

/// The card of an installed package, from its receipt (`Ok(None)` where it has
/// none) and the paths of its stubs, before any metadata is fetched: the
/// receipt's name, source and version; the request's own source where the
/// receipt gives none; then the qualified name and the aliases.
pub fn resolve_installed_package_info(
    requested: &RequestedPackage,
    package_name: String,
    install_root: String,
    receipt: Result<Option<PackageReceipt>, String>,
    stub_paths: Result<Vec<String>, String>,
    aliases: &AliasTable,
    formula_aliases: &Result<FormulaIndex, String>,
) -> (r: PackageInfo)
    ensures
        r.installed,
        r.install_root == install_root,
        match receipt {
            Ok(Some(rc)) => {
                &&& r.package_name == rc.package_name
                &&& r.source == Some(rc.source)
                &&& r.installed_version == Some(rc.version)
                &&& r.source_error is None
            },
            Ok(None) => {
                &&& r.package_name == package_name
                &&& source_option_view(r.source) == explicit_source(requested@)
                &&& r.installed_version is None
                &&& r.source_error matches Some(e) && e@ == missing_metadata_text()
            },
            Err(e) => {
                &&& r.package_name == package_name
                &&& source_option_view(r.source) == explicit_source(requested@)
                &&& r.installed_version is None
                &&& r.source_error == Some(e)
            },
        },
        match stub_paths {
            Ok(paths) => r.executable_paths == paths && r.executable_paths_error is None,
            Err(e) => r.executable_paths@.len() == 0 && r.executable_paths_error == Some(e),
        },
        match r.source {
            Some(source) => {
                &&& r.qualified_name@ == qualified_name_of(source@)
                &&& texts_strictly_sorted(strings_view(r.aliases@))
                &&& strings_view(r.aliases@).to_set() == all_aliases(source@, aliases@, index_result_view(*formula_aliases))
                &&& (r.aliases_error is Some <==> (source is Formula && formula_aliases is Err))
                &&& (r.aliases_error matches Some(e) ==> (formula_aliases matches Err(fe) && e@ == fe@))
            },
            None => r.qualified_name@ == r.package_name@ && r.aliases@.len() == 0 && r.aliases_error is None,
        },
        r.latest_version is None && r.latest_version_error is None,
        r.homebrew_info is None && r.homebrew_info_error is None,
        r.npm_homepage is None && r.npm_package_info_error is None,
{
    let mut info = blank_package_info(package_name, install_root, true);
    match receipt {
        Ok(Some(rc)) => {
            info.package_name = rc.package_name;
            info.source = Some(rc.source);
            info.installed_version = Some(rc.version);
        },
        Ok(None) => {
            info.source_error = Some(owned("missing package metadata"));
        },
        Err(err) => {
            info.source_error = Some(err);
        },
    }
    if info.source.is_none() {
        info.source = explicit_requested_package_source(requested);
    }
    match stub_paths {
        Ok(paths) => info.executable_paths = paths,
        Err(err) => info.executable_paths_error = Some(err),
    }
    populate_package_info_identity(&mut info, aliases, formula_aliases);
    info
}

/// The card of a package that is not installed, from the source inferred for
/// the request, before any metadata is fetched.
pub fn resolve_uninstalled_package_info(
    package_name: String,
    install_root: String,
    inferred: Result<PackageReceiptSource, String>,
    aliases: &AliasTable,
    formula_aliases: &Result<FormulaIndex, String>,
) -> (r: PackageInfo)
    ensures
        !r.installed,
        r.install_root == install_root,
        r.package_name == package_name,
        match inferred {
            Ok(s) => r.source == Some(s) && r.source_error is None,
            Err(e) => r.source is None && r.source_error == Some(e),
        },
        match r.source {
            Some(source) => {
                &&& r.qualified_name@ == qualified_name_of(source@)
                &&& texts_strictly_sorted(strings_view(r.aliases@))
                &&& strings_view(r.aliases@).to_set() == all_aliases(source@, aliases@, index_result_view(*formula_aliases))
                &&& (r.aliases_error is Some <==> (source is Formula && formula_aliases is Err))
                &&& (r.aliases_error matches Some(e) ==> (formula_aliases matches Err(fe) && e@ == fe@))
            },
            None => r.qualified_name@ == package_name@ && r.aliases@.len() == 0 && r.aliases_error is None,
        },
        r.installed_version is None && r.latest_version is None && r.latest_version_error is None,
        r.executable_paths@.len() == 0 && r.executable_paths_error is None,
        r.homebrew_info is None && r.homebrew_info_error is None,
        r.npm_homepage is None && r.npm_package_info_error is None,
{
    let mut info = blank_package_info(package_name, install_root, false);
    match inferred {
        Ok(source) => info.source = Some(source),
        Err(err) => info.source_error = Some(err),
    }
    populate_package_info_identity(&mut info, aliases, formula_aliases);
    info
}

/// What was fetched of a package's metadata, by the kind of its source.
pub enum SourceMetadata {
    /// Homebrew's description of the formula, with the version of its bottle
    /// for this machine (or why there is none); or why it could not be fetched.
    Formula(Result<(FormulaInfo, Result<String, String>), String>),
    /// The latest version and the homepage of an npm package.
    Npm { latest: Result<String, String>, homepage: Result<Option<String>, String> },
    /// The latest version of a vendor or pip package.
    Latest(Result<String, String>),
}

/// The fields that fetching metadata leaves alone.
pub open spec fn same_except_metadata(a: PackageInfo, b: PackageInfo) -> bool {
    &&& a.package_name == b.package_name
    &&& a.qualified_name == b.qualified_name
    &&& a.install_root == b.install_root
    &&& a.installed == b.installed
    &&& a.source == b.source
    &&& a.source_error == b.source_error
    &&& a.aliases == b.aliases
    &&& a.aliases_error == b.aliases_error
    &&& a.installed_version == b.installed_version
    &&& a.executable_paths == b.executable_paths
    &&& a.executable_paths_error == b.executable_paths_error
}

/// Records what was fetched of a package's metadata; nothing for a package
/// whose source is unknown.
pub fn populate_package_info_metadata(info: &mut PackageInfo, fetched: SourceMetadata)
    ensures
        same_except_metadata(*old(info), *final(info)),
        old(info).source is None ==> *final(info) == *old(info),
        old(info).source is Some ==> match fetched {
            SourceMetadata::Formula(Ok((fi, bottle))) => {
                &&& final(info).homebrew_info matches Some(h) && h.formula@ == (match old(info).source {
                    Some(PackageReceiptSource::Formula { root_formula }) => root_formula@,
                    _ => Seq::<char>::empty(),
                }) && arg_view(h.description) == text_or_none(fi.desc@)
                    && arg_view(h.homepage) == text_or_none(fi.homepage@)
                    && arg_view(h.license) == (match fi.license {
                        Some(l) => text_or_none(l@),
                        None => None,
                    })
                    && strings_view(h.dependencies@) == strings_view(fi.dependencies@)
                &&& match bottle {
                    Ok(v) => final(info).latest_version == Some(v) && final(info).latest_version_error == old(info).latest_version_error,
                    Err(e) => final(info).latest_version_error == Some(e) && final(info).latest_version == old(info).latest_version,
                }
                &&& final(info).homebrew_info_error == old(info).homebrew_info_error
                &&& final(info).npm_homepage == old(info).npm_homepage
                &&& final(info).npm_package_info_error == old(info).npm_package_info_error
            },
            SourceMetadata::Formula(Err(e)) => {
                &&& final(info).latest_version_error == Some(e)
                &&& final(info).homebrew_info_error == Some(e)
                &&& final(info).homebrew_info == old(info).homebrew_info
                &&& final(info).latest_version == old(info).latest_version
                &&& final(info).npm_homepage == old(info).npm_homepage
                &&& final(info).npm_package_info_error == old(info).npm_package_info_error
            },
            SourceMetadata::Npm { latest, homepage } => {
                &&& match latest {
                    Ok(v) => final(info).latest_version == Some(v) && final(info).latest_version_error == old(info).latest_version_error,
                    Err(e) => final(info).latest_version_error == Some(e) && final(info).latest_version == old(info).latest_version,
                }
                &&& match homepage {
                    Ok(h) => final(info).npm_homepage == h && final(info).npm_package_info_error == old(info).npm_package_info_error,
                    Err(e) => final(info).npm_package_info_error == Some(e) && final(info).npm_homepage == old(info).npm_homepage,
                }
                &&& final(info).homebrew_info == old(info).homebrew_info
                &&& final(info).homebrew_info_error == old(info).homebrew_info_error
            },
            SourceMetadata::Latest(latest) => {
                &&& match latest {
                    Ok(v) => final(info).latest_version == Some(v) && final(info).latest_version_error == old(info).latest_version_error,
                    Err(e) => final(info).latest_version_error == Some(e) && final(info).latest_version == old(info).latest_version,
                }
                &&& final(info).homebrew_info == old(info).homebrew_info
                &&& final(info).homebrew_info_error == old(info).homebrew_info_error
                &&& final(info).npm_homepage == old(info).npm_homepage
                &&& final(info).npm_package_info_error == old(info).npm_package_info_error
            },
        },
{
    let formula = match &info.source {
        None => return,
        Some(PackageReceiptSource::Formula { root_formula }) => root_formula.clone(),
        Some(_) => String::new(),
    };
    match fetched {
        SourceMetadata::Formula(Ok((formula_info, bottle))) => {
            info.homebrew_info = Some(homebrew_package_info_from_formula_info(formula.as_str(), &formula_info));
            match bottle {
                Ok(version) => info.latest_version = Some(version),
                Err(err) => info.latest_version_error = Some(err),
            }
        },
        SourceMetadata::Formula(Err(err)) => {
            info.latest_version_error = Some(err.clone());
            info.homebrew_info_error = Some(err);
        },
        SourceMetadata::Npm { latest, homepage } => {
            match latest {
                Ok(version) => info.latest_version = Some(version),
                Err(err) => info.latest_version_error = Some(err),
            }
            match homepage {
                Ok(h) => info.npm_homepage = h,
                Err(err) => info.npm_package_info_error = Some(err),
            }
        },
        SourceMetadata::Latest(latest) => match latest {
            Ok(version) => info.latest_version = Some(version),
            Err(err) => info.latest_version_error = Some(err),
        },
    }
}

// ---------------------------------------------------------------------------
// Installed packages and their statuses

/// An installed package found under the install root.
#[derive(Clone, Debug)]
pub struct InstalledPackageRef {
    pub package_name: String,
    pub install_root: String,
}

/// The installed packages as (name, install root) pairs.
pub open spec fn ref_pairs(s: Seq<InstalledPackageRef>) -> Seq<(String, String)> {
    s.map_values(|p: InstalledPackageRef| (p.package_name, p.install_root))
}

/// The installed packages found, one per name (the first found), ordered by
/// name.
pub fn unique_package_refs(packages: Vec<InstalledPackageRef>) -> (r: Vec<InstalledPackageRef>)
    ensures
        texts_strictly_sorted(names_of(ref_pairs(r@))),
        forall|k: Seq<char>|
            #![trigger named(ref_pairs(r@), k)]
            named(ref_pairs(r@), k) == first_only(named(ref_pairs(packages@), k)),
{
    let mut rest = packages;
    let ghost orig = rest@;
    let mut rev: Vec<(String, String)> = Vec::new();
    while rest.len() > 0
        invariant
            rev@.len() + rest@.len() == orig.len(),
            rest@ =~= orig.take(rest@.len() as int),
            forall|j: int| 0 <= j < rev@.len() ==> #[trigger] rev@[j] == ref_pairs(orig)[orig.len() - 1 - j],
        decreases rest.len(),
    {
        let p = rest.pop().unwrap();
        rev.push((p.package_name, p.install_root));
    }
    let mut pairs: Vec<(String, String)> = Vec::new();
    while rev.len() > 0
        invariant
            pairs@.len() + rev@.len() == orig.len(),
            pairs@ =~= ref_pairs(orig).take(pairs@.len() as int),
            forall|j: int| 0 <= j < rev@.len() ==> #[trigger] rev@[j] == ref_pairs(orig)[orig.len() - 1 - j],
        decreases rev.len(),
    {
        let e = rev.pop().unwrap();
        pairs.push(e);
    }
    assert(pairs@ =~= ref_pairs(orig));
    let sorted = sort_unique_by_name(pairs);
    let ghost ss = sorted@;
    let mut back: Vec<(String, String)> = Vec::new();
    let mut sorted = sorted;
    while sorted.len() > 0
        invariant
            back@.len() + sorted@.len() == ss.len(),
            sorted@ =~= ss.take(sorted@.len() as int),
            forall|j: int| 0 <= j < back@.len() ==> #[trigger] back@[j] == ss[ss.len() - 1 - j],
        decreases sorted.len(),
    {
        let e = sorted.pop().unwrap();
        back.push(e);
    }
    let mut r: Vec<InstalledPackageRef> = Vec::new();
    while back.len() > 0
        invariant
            r@.len() + back@.len() == ss.len(),
            ref_pairs(r@) =~= ss.take(r@.len() as int),
            forall|j: int| 0 <= j < back@.len() ==> #[trigger] back@[j] == ss[ss.len() - 1 - j],
        decreases back.len(),
    {
        let e = back.pop().unwrap();
        let ghost before = r@;
        r.push(InstalledPackageRef { package_name: e.0, install_root: e.1 });
        assert(ref_pairs(r@) =~= ref_pairs(before).push(e));
    }
    assert(ref_pairs(r@) =~= ss);
    r
}

/// The warning for an installed package whose status could not be resolved.
pub fn skipped_package_warning(install_root: &str, err: &str) -> (r: String)
    ensures
        r@ == "warning: skipping "@ + install_root@ + ": "@ + err@,
{
    crate::text::concat3("warning: skipping ", install_root, ": ").concat(err)
}

/// The installed names that requests refer to, sorted, each once.
pub fn requested_status_names(packages: &Vec<RequestedPackage>) -> (r: Vec<String>)
    ensures
        texts_strictly_sorted(strings_view(r@)),
        strings_view(r@).to_set() == packages@.map_values(|p: RequestedPackage| requested_name(p@)).to_set(),
{
    let ghost want = packages@.map_values(|p: RequestedPackage| requested_name(p@));
    let mut names: Vec<String> = Vec::new();
    let mut i: usize = 0;
    while i < packages.len()
        invariant
            i <= packages@.len(),
            want == packages@.map_values(|p: RequestedPackage| requested_name(p@)),
            strings_view(names@) == want.take(i as int),
        decreases packages.len() - i,
    {
        let name = requested_package_name(&packages[i]);
        let ghost prev = strings_view(names@);
        names.push(name);
        assert(strings_view(names@) =~= prev.push(name@));
        assert(want.take(i + 1) =~= want.take(i as int).push(want[i as int]));
        i = i + 1;
    }
    assert(want.take(want.len() as int) =~= want);
    sort_unique_strings(names)
}

/// Where the stubs of an installed package are, sorted.
pub fn stub_paths(stubs: &Vec<String>) -> (r: Vec<String>)
    ensures
        texts_sorted(strings_view(r@)),
        strings_view(r@).to_multiset() == strings_view(stubs@).map_values(|s: Seq<char>| path_join(USR_LOCAL_BIN@, s)).to_multiset(),
{
    let ghost want = strings_view(stubs@).map_values(|s: Seq<char>| path_join(USR_LOCAL_BIN@, s));
    let mut paths: Vec<String> = Vec::new();
    let mut i: usize = 0;
    while i < stubs.len()
        invariant
            i <= stubs@.len(),
            want == strings_view(stubs@).map_values(|s: Seq<char>| path_join(USR_LOCAL_BIN@, s)),
            strings_view(paths@) == want.take(i as int),
        decreases stubs.len() - i,
    {
        let path = join_path(USR_LOCAL_BIN, stubs[i].as_str());
        let ghost prev = strings_view(paths@);
        paths.push(path);
        assert(strings_view(paths@) =~= prev.push(path@));
        assert(want.take(i + 1) =~= want.take(i as int).push(want[i as int]));
        i = i + 1;
    }
    assert(want.take(want.len() as int) =~= want);
    crate::order::sort_strings(paths)
}

/// The receipt of an installed package, which it must have.
pub fn receipt_or_missing(package_name: &str, receipt: Option<PackageReceipt>) -> (r: Result<PackageReceipt, String>)
    ensures
        match receipt {
            Some(rc) => r == Ok::<PackageReceipt, String>(rc),
            None => r matches Err(m) && m@ == "package "@ + package_name@ + " is installed but missing package metadata"@,
        },
{
    match receipt {
        Some(rc) => Ok(rc),
        None => Err(crate::text::concat3("package ", package_name, " is installed but missing package metadata")),
    }
}

/// What is found at a package's install root.
pub enum RootState {
    Missing,
    NotDirectory,
    Directory,
    /// It could not be examined (the system's message).
    Unreadable(String),
}

/// Refuses a package whose install root is missing, not a directory or unreadable.
pub fn check_installed_root(package_name: &str, install_root: &str, state: RootState) -> (r: Result<(), String>)
    ensures
        match state {
            RootState::Directory => r is Ok,
            RootState::Missing => r matches Err(m) && m@ == "package "@ + package_name@ + " is not installed"@,
            RootState::NotDirectory => r matches Err(m) && m@ == "installed package root "@ + install_root@
                + " is not a directory"@,
            RootState::Unreadable(e) => r matches Err(m) && m@ == "failed to stat "@ + install_root@ + ": "@ + e@,
        },
{
    match state {
        RootState::Directory => Ok(()),
        RootState::Missing => Err(crate::text::concat3("package ", package_name, " is not installed")),
        RootState::NotDirectory => Err(crate::text::concat3("installed package root ", install_root, " is not a directory")),
        RootState::Unreadable(e) => Err(crate::text::concat3("failed to stat ", install_root, ": ").concat(e.as_str())),
    }
}

/// The status of an installed package, from its receipt and the latest version.
pub fn package_status(receipt: PackageReceipt, latest_version: String) -> (r: PackageStatus)
    ensures
        r.package_name == receipt.package_name,
        r.source == receipt.source,
        r.installed_version == receipt.version,
        r.latest_version == latest_version,
{
    PackageStatus {
        package_name: receipt.package_name,
        source: receipt.source,
        installed_version: receipt.version,
        latest_version,
    }
}

// ---------------------------------------------------------------------------
// Latest versions and homepages of npm and PyPI packages

/// The latest version of an npm package, from what its registry answered.
pub fn resolve_npm_package_version(package_name: &str, fetched: Result<String, FetchFailure>) -> (r: Result<Version, String>)
    ensures
        match fetched {
            Ok(tag) => parsed_as(r, tag@, package_name@),
            Err(f) => r matches Err(m) && m@ == fetch_failure_text(npm_metadata_context(package_name@), f),
        },
{
    let tag = npm_latest_tag(package_name, fetched)?;
    parse_semver(tag.as_str(), package_name)
}

/// The homepage of an npm package: its `homepage`, trimmed, where not blank.
pub fn npm_homepage(homepage: Option<String>) -> (r: Option<String>)
    ensures
        arg_view(r) == match homepage {
            Some(h) => text_or_none(h@),
            None => None,
        },
{
    match homepage {
        Some(h) => string_or_none(h.as_str()),
        None => None,
    }
}

/// Where PyPI is: the configured root, else pypi.org.
pub fn pypi_root(configured: Option<String>) -> (root: String)
    ensures
        root@ == match configured {
            Some(c) => c@,
            None => "https://pypi.org/pypi"@,
        },
{
    match configured {
        Some(c) => c,
        None => owned("https://pypi.org/pypi"),
    }
}

/// Where the metadata of a pip package is: `{root}/{percent-encoded normalized
/// name}/json`.
pub fn pypi_package_url(root: &str, package_name: &str) -> (url: String)
    ensures
        url@ == root@ + "/"@ + percent_encoded(vstd::utf8::encode_utf8(normalized_pip_name(package_name@))) + "/json"@,
{
    let normalized = normalize_pip_package_name(package_name);
    let mut url = concat2(root, "/");
    url.append(url_encode(normalized.as_str()).as_str());
    url.append("/json");
    url
}

/// The latest version PyPI gives for a pip package; an empty one is refused.
pub fn resolve_pip_latest_version(package_name: &str, version: String) -> (r: Result<String, String>)
    ensures
        version@.len() > 0 ==> r == Ok::<String, String>(version),
        version@.len() == 0 ==> (r matches Err(m) && m@ == "failed to resolve latest PyPI version for "@ + package_name@),
{
    if version.unicode_len() == 0 {
        return Err(concat2("failed to resolve latest PyPI version for ", package_name));
    }
    Ok(version)
}

/// The line `outdated` prints for a package: its name, installed version and
/// latest version.
pub fn outdated_line(status: &PackageStatus) -> (r: String)
    ensures
        r@ == status.package_name@ + " "@ + status.installed_version@ + " -> "@ + status.latest_version@,
{
    let mut line = crate::text::concat3(status.package_name.as_str(), " ", status.installed_version.as_str());
    line.append(" -> ");
    line.append(status.latest_version.as_str());
    line
}

/// The line `list` prints for a package: its name and installed version.
pub fn list_line(status: &PackageStatus) -> (r: String)
    ensures
        r@ == status.package_name@ + " "@ + status.installed_version@,
{
    crate::text::concat3(status.package_name.as_str(), " ", status.installed_version.as_str())
}

/// What an entry of the install root holds.
#[derive(Clone, Copy, Debug, PartialEq, Eq)]
pub enum OptEntryKind {
    /// Not a package: hidden, not a directory, or Homebrew's own.
    Skip,
    /// The root of npm packages.
    NpmRoot,
    /// The root of pip packages.
    PipRoot,
    /// A package installed under its own name.
    Package,
}

/// How a name starting with `c` reads.
pub open spec fn starts_with_char(name: Seq<char>, c: char) -> bool {
    name.len() > 0 && name[0] == c
}

/// Whether `name` starts with `c`.
pub fn first_char_is(name: &str, c: char) -> (r: bool)
    ensures
        r == starts_with_char(name@, c),
{
    name.unicode_len() > 0 && name.get_char(0) == c
}

/// What an entry of the install root holds, from its name and whether it is a
/// directory.
pub fn opt_entry_kind(name: &str, is_dir: bool) -> (r: OptEntryKind)
    ensures
        r == (if starts_with_char(name@, '.') || !is_dir || name@ == "homebrew"@ {
            OptEntryKind::Skip
        } else if name@ == "npm"@ {
            OptEntryKind::NpmRoot
        } else if name@ == "pip"@ {
            OptEntryKind::PipRoot
        } else {
            OptEntryKind::Package
        }),
{
    if first_char_is(name, '.') || !is_dir || str_eq(name, "homebrew") {
        OptEntryKind::Skip
    } else if str_eq(name, "npm") {
        OptEntryKind::NpmRoot
    } else if str_eq(name, "pip") {
        OptEntryKind::PipRoot
    } else {
        OptEntryKind::Package
    }
}

/// What an entry of the npm root holds.
#[derive(Clone, Copy, Debug, PartialEq, Eq)]
pub enum NpmEntryKind {
    /// Hidden or not a directory.
    Skip,
    /// An `@scope` directory of scoped packages.
    Scope,
    /// A package.
    Package,
}

/// What an entry of the npm root (or of a scope directory, where scopes do not
/// nest) holds.
pub fn npm_entry_kind(name: &str, is_dir: bool) -> (r: NpmEntryKind)
    ensures
        r == (if starts_with_char(name@, '.') || !is_dir {
            NpmEntryKind::Skip
        } else if starts_with_char(name@, '@') {
            NpmEntryKind::Scope
        } else {
            NpmEntryKind::Package
        }),
{
    if first_char_is(name, '.') || !is_dir {
        NpmEntryKind::Skip
    } else if first_char_is(name, '@') {
        NpmEntryKind::Scope
    } else {
        NpmEntryKind::Package
    }
}

/// The statuses resolved, in order.
pub open spec fn resolved_statuses(outcomes: Seq<Result<PackageStatus, String>>) -> Seq<PackageStatus>
    decreases outcomes.len(),
{
    if outcomes.len() == 0 {
        Seq::empty()
    } else {
        let rest = resolved_statuses(outcomes.drop_last());
        match outcomes.last() {
            Ok(s) => rest.push(s),
            Err(_) => rest,
        }
    }
}

/// The warnings for the packages whose status could not be resolved, in order.
pub open spec fn skipped_warnings(refs: Seq<InstalledPackageRef>, outcomes: Seq<Result<PackageStatus, String>>) -> Seq<Seq<char>>
    decreases outcomes.len(),
{
    if outcomes.len() == 0 || refs.len() == 0 {
        Seq::empty()
    } else {
        let rest = skipped_warnings(refs.drop_last(), outcomes.drop_last());
        match outcomes.last() {
            Ok(_) => rest,
            Err(e) => rest.push("warning: skipping "@ + refs.last().install_root@ + ": "@ + e@),
        }
    }
}

/// `refs` are the packages of `packages`, one per name (the first found),
/// ordered by name.
pub open spec fn unique_refs_of(packages: Seq<InstalledPackageRef>, refs: Seq<InstalledPackageRef>) -> bool {
    &&& texts_strictly_sorted(names_of(ref_pairs(refs)))
    &&& forall|k: Seq<char>|
        #![trigger named(ref_pairs(refs), k)]
        named(ref_pairs(refs), k) == first_only(named(ref_pairs(packages), k))
}

/// The statuses of the installed packages found, one per name, ordered by
/// name; a package whose status cannot be resolved is skipped with a warning.
pub fn resolve_scanned_package_statuses<R>(packages: Vec<InstalledPackageRef>, resolve: R) -> (r: (Vec<PackageStatus>, Vec<String>))
    where
        R: Fn(&InstalledPackageRef) -> Result<PackageStatus, String>,
    requires
        forall|p: &InstalledPackageRef| #[trigger] call_requires(resolve, (p,)),
    ensures
        exists|refs: Seq<InstalledPackageRef>, outcomes: Seq<Result<PackageStatus, String>>|
            #![trigger unique_refs_of(packages@, refs), resolved_statuses(outcomes)]
            unique_refs_of(packages@, refs) && outcomes.len() == refs.len()
                && (forall|i: int| 0 <= i < refs.len() ==> call_ensures(resolve, (&refs[i],), #[trigger] outcomes[i]))
                && r.0@ == resolved_statuses(outcomes) && strings_view(r.1@) == skipped_warnings(refs, outcomes),
{
    let ghost orig = packages@;
    let refs = unique_package_refs(packages);
    let ghost rs = refs@;
    let mut statuses: Vec<PackageStatus> = Vec::new();
    let mut warnings: Vec<String> = Vec::new();
    let ghost mut outcomes: Seq<Result<PackageStatus, String>> = Seq::empty();
    let mut i: usize = 0;
    while i < refs.len()
        invariant
            rs == refs@,
            i <= refs@.len(),
            outcomes.len() == i,
            forall|p: &InstalledPackageRef| #[trigger] call_requires(resolve, (p,)),
            forall|j: int| 0 <= j < i ==> call_ensures(resolve, (&rs[j],), #[trigger] outcomes[j]),
            statuses@ == resolved_statuses(outcomes),
            strings_view(warnings@) == skipped_warnings(rs.take(i as int), outcomes),
        decreases refs.len() - i,
    {
        let outcome = resolve(&refs[i]);
        let ghost before = outcomes;
        proof {
            outcomes = outcomes.push(outcome);
            assert(outcomes.drop_last() =~= before);
            assert(rs.take(i + 1).drop_last() =~= rs.take(i as int));
            assert(rs.take(i + 1).last() == rs[i as int]);
        }
        match outcome {
            Ok(status) => {
                statuses.push(status);
            },
            Err(err) => {
                let warning = skipped_package_warning(refs[i].install_root.as_str(), err.as_str());
                let ghost prev = strings_view(warnings@);
                warnings.push(warning);
                assert(strings_view(warnings@) =~= prev.push(warning@));
            },
        }
        i = i + 1;
    }
    assert(rs.take(rs.len() as int) =~= rs);
    assert(unique_refs_of(orig, rs));
    (statuses, warnings)
}

/// Every outcome before the last one is a status.
pub open spec fn all_but_last_ok(outcomes: Seq<Result<PackageStatus, String>>) -> bool {
    forall|i: int| 0 <= i < outcomes.len() - 1 ==> (#[trigger] outcomes[i]) is Ok
}

/// The statuses of the installed packages that requests refer to, each name
/// once and in name order; the first install root that cannot be named, or the
/// first status that cannot be resolved, fails the whole request.
pub fn resolve_requested_package_statuses<R>(packages: &Vec<RequestedPackage>, opt_root: &str, resolve: R) -> (r: Result<Vec<PackageStatus>, String>)
    where
        R: Fn(&InstalledPackageRef) -> Result<PackageStatus, String>,
    requires
        forall|p: &InstalledPackageRef| #[trigger] call_requires(resolve, (p,)),
    ensures
        exists|names: Seq<Seq<char>>, refs: Seq<InstalledPackageRef>, outcomes: Seq<Result<PackageStatus, String>>|
            #![trigger texts_strictly_sorted(names), all_but_last_ok(outcomes), refs.len()]
            {
                &&& texts_strictly_sorted(names)
                &&& names.to_set() == packages@.map_values(|p: RequestedPackage| requested_name(p@)).to_set()
                &&& refs.len() == outcomes.len() && refs.len() <= names.len()
                &&& forall|i: int| 0 <= i < refs.len() ==> {
                    &&& (#[trigger] refs[i]).package_name@ == names[i]
                    &&& install_root_spec(opt_root@, names[i]) == Ok::<Seq<char>, Seq<char>>(refs[i].install_root@)
                    &&& call_ensures(resolve, (&refs[i],), outcomes[i])
                }
                &&& all_but_last_ok(outcomes)
                &&& match r {
                    Ok(v) => refs.len() == names.len() && (refs.len() > 0 ==> outcomes.last() is Ok)
                        && v@ == resolved_statuses(outcomes),
                    Err(e) => (refs.len() < names.len() && (refs.len() > 0 ==> outcomes.last() is Ok)
                        && install_root_spec(opt_root@, names[refs.len() as int]) == Err::<Seq<char>, Seq<char>>(e@))
                        || (refs.len() > 0 && outcomes.last() == Err::<PackageStatus, String>(e)),
                }
            },
{
    let names_vec = requested_status_names(packages);
    let ghost names = strings_view(names_vec@);
    let mut statuses: Vec<PackageStatus> = Vec::new();
    let ghost mut refs: Seq<InstalledPackageRef> = Seq::empty();
    let ghost mut outcomes: Seq<Result<PackageStatus, String>> = Seq::empty();
    let mut i: usize = 0;
    while i < names_vec.len()
        invariant
            names == strings_view(names_vec@),
            texts_strictly_sorted(names),
            names.to_set() == packages@.map_values(|p: RequestedPackage| requested_name(p@)).to_set(),
            i <= names_vec@.len(),
            refs.len() == i && outcomes.len() == i,
            forall|p: &InstalledPackageRef| #[trigger] call_requires(resolve, (p,)),
            forall|j: int| 0 <= j < refs.len() ==> {
                &&& (#[trigger] refs[j]).package_name@ == names[j]
                &&& install_root_spec(opt_root@, names[j]) == Ok::<Seq<char>, Seq<char>>(refs[j].install_root@)
                &&& call_ensures(resolve, (&refs[j],), outcomes[j])
            },
            forall|j: int| 0 <= j < outcomes.len() ==> (#[trigger] outcomes[j]) is Ok,
            statuses@ == resolved_statuses(outcomes),
        decreases names_vec.len() - i,
    {
        let name = &names_vec[i];
        let root = match package_install_root(opt_root, name.as_str()) {
            Ok(root) => root,
            Err(e) => {
                assert(names[i as int] == name@);
                assert(all_but_last_ok(outcomes));
                assert(refs.len() > 0 ==> outcomes.last() == outcomes[outcomes.len() - 1]);
                return Err(e);
            },
        };
        let package = InstalledPackageRef { package_name: name.clone(), install_root: root };
        let outcome = resolve(&package);
        proof {
            let before = outcomes;
            refs = refs.push(package);
            outcomes = outcomes.push(outcome);
            assert(outcomes.drop_last() =~= before);
            assert(names[i as int] == name@);
            assert(refs[i as int] == package);
            assert(all_but_last_ok(outcomes));
        }
        match outcome {
            Ok(status) => {
                statuses.push(status);
            },
            Err(e) => {
                assert(outcomes.last() == outcomes[i as int]);
                assert(outcomes.last() == Err::<PackageStatus, String>(e));
                assert(refs.len() == outcomes.len() && refs.len() <= names.len());
                assert(forall|j: int| 0 <= j < refs.len() ==> {
                    &&& (#[trigger] refs[j]).package_name@ == names[j]
                    &&& install_root_spec(opt_root@, names[j]) == Ok::<Seq<char>, Seq<char>>(refs[j].install_root@)
                    &&& call_ensures(resolve, (&refs[j],), outcomes[j])
                });
                return Err(e);
            },
        }
        i = i + 1;
    }
    assert(refs.len() > 0 ==> outcomes.last() == outcomes[outcomes.len() - 1]);
    assert(all_but_last_ok(outcomes));
    Ok(statuses)
}

/// The name of an installed package: the one its receipt records, else the
/// name its place under the install root gives.
pub fn installed_ref_name(receipt: Result<Option<PackageReceipt>, String>, fallback: String) -> (r: String)
    ensures
        match receipt {
            Ok(Some(rc)) => r == rc.package_name,
            _ => r == fallback,
        },
{
    match receipt {
        Ok(Some(rc)) => rc.package_name,
        _ => fallback,
    }
}

/// The name an npm package installed at `name` (under `scope`, where it is
/// scoped) goes by: `npm:` and `scope/name` or `name`.
pub fn npm_ref_fallback_name(scope: Option<&str>, name: &str) -> (r: String)
    ensures
        r@ == "npm:"@ + match scope {
            Some(sc) => sc@ + "/"@ + name@,
            None => name@,
        },
{
    match scope {
        Some(sc) => {
            let package = crate::text::concat3(sc, "/", name);
            npm_package_display_name(package.as_str())
        },
        None => npm_package_display_name(name),
    }
}

/// The name a pip package installed at `name` goes by: `pip:` and `name`.
pub fn pip_ref_fallback_name(name: &str) -> (r: String)
    ensures
        r@ == "pip:"@ + name@,
{
    pip_package_display_name(name)
}

// ---------------------------------------------------------------------------
// Packages found under the npm and pip roots

/// An entry of a directory as listed: its name, its path and whether it is a
/// directory.
#[derive(Clone, Debug)]
pub struct ListedEntry {
    pub name: String,
    pub path: String,
    pub is_dir: bool,
}

/// An entry of the npm root and, for an `@scope` directory, the entries
/// listed inside it (none for any other entry).
#[derive(Clone, Debug)]
pub struct NpmRootEntry {
    pub entry: ListedEntry,
    pub scoped: Vec<ListedEntry>,
}

/// An entry that may hold a package: a directory whose name is not hidden.
pub open spec fn holds_package(e: ListedEntry) -> bool {
    !starts_with_char(e.name@, '.') && e.is_dir
}

/// Found packages as (name, install root) texts.
pub open spec fn found_view(s: Seq<InstalledPackageRef>) -> Seq<(Seq<char>, Seq<char>)> {
    s.map_values(|p: InstalledPackageRef| (p.package_name@, p.install_root@))
}

/// The packages inside the scope directory `scope`: each named `npm:scope/name`.
pub open spec fn scoped_found(scope: Seq<char>, s: Seq<ListedEntry>) -> Seq<(Seq<char>, Seq<char>)>
    decreases s.len(),
{
    if s.len() == 0 {
        Seq::empty()
    } else {
        scoped_found(scope, s.drop_last()) + if holds_package(s.last()) {
            seq![("npm:"@ + (scope + "/"@ + s.last().name@), s.last().path@)]
        } else {
            Seq::empty()
        }
    }
}

/// The packages an entry of the npm root holds: those of a scope, or the
/// package `npm:name` itself.
pub open spec fn npm_entry_found(e: NpmRootEntry) -> Seq<(Seq<char>, Seq<char>)> {
    if !holds_package(e.entry) {
        Seq::empty()
    } else if starts_with_char(e.entry.name@, '@') {
        scoped_found(e.entry.name@, e.scoped@)
    } else {
        seq![("npm:"@ + e.entry.name@, e.entry.path@)]
    }
}

/// The packages found under the npm root, in listing order.
pub open spec fn npm_found(es: Seq<NpmRootEntry>) -> Seq<(Seq<char>, Seq<char>)>
    decreases es.len(),
{
    if es.len() == 0 {
        Seq::empty()
    } else {
        npm_found(es.drop_last()) + npm_entry_found(es.last())
    }
}

/// The packages found under the pip root, each named `pip:name`, in listing
/// order.
pub open spec fn pip_found(es: Seq<ListedEntry>) -> Seq<(Seq<char>, Seq<char>)>
    decreases es.len(),
{
    if es.len() == 0 {
        Seq::empty()
    } else {
        pip_found(es.drop_last()) + if holds_package(es.last()) {
            seq![("pip:"@ + es.last().name@, es.last().path@)]
        } else {
            Seq::empty()
        }
    }
}

/// The packages under the npm root, named as they go without a receipt:
/// hidden entries and files are passed over, and an `@scope` directory gives
/// the packages listed inside it.
pub fn npm_found_packages(entries: &Vec<NpmRootEntry>) -> (r: Vec<InstalledPackageRef>)
    ensures
        found_view(r@) == npm_found(entries@),
{
    let mut r: Vec<InstalledPackageRef> = Vec::new();
    let mut i: usize = 0;
    assert(entries@.take(0) =~= Seq::<NpmRootEntry>::empty());
    assert(found_view(r@) =~= Seq::<(Seq<char>, Seq<char>)>::empty());
    while i < entries.len()
        invariant
            i <= entries@.len(),
            found_view(r@) == npm_found(entries@.take(i as int)),
        decreases entries.len() - i,
    {
        let e = &entries[i];
        let ghost before = found_view(r@);
        assert(entries@.take(i + 1).drop_last() =~= entries@.take(i as int));
        assert(entries@.take(i + 1).last() == entries@[i as int]);
        match npm_entry_kind(e.entry.name.as_str(), e.entry.is_dir) {
            NpmEntryKind::Skip => {
                assert(before + npm_entry_found(*e) =~= before);
            },
            NpmEntryKind::Scope => {
                let mut j: usize = 0;
                assert(e.scoped@.take(0) =~= Seq::<ListedEntry>::empty());
                assert(before + scoped_found(e.entry.name@, e.scoped@.take(0)) =~= before);
                while j < e.scoped.len()
                    invariant
                        j <= e.scoped@.len(),
                        found_view(r@) == before + scoped_found(e.entry.name@, e.scoped@.take(j as int)),
                    decreases e.scoped.len() - j,
                {
                    let x = &e.scoped[j];
                    let ghost mid = found_view(r@);
                    let ghost prefix = scoped_found(e.entry.name@, e.scoped@.take(j as int));
                    assert(e.scoped@.take(j + 1).drop_last() =~= e.scoped@.take(j as int));
                    assert(e.scoped@.take(j + 1).last() == e.scoped@[j as int]);
                    let ghost t = e.scoped@.take(j + 1);
                    assert(scoped_found(e.entry.name@, t) == prefix + if holds_package(*x) {
                        seq![("npm:"@ + (e.entry.name@ + "/"@ + x.name@), x.path@)]
                    } else {
                        Seq::empty()
                    });
                    if !matches!(npm_entry_kind(x.name.as_str(), x.is_dir), NpmEntryKind::Skip) {
                        let name = npm_ref_fallback_name(Some(e.entry.name.as_str()), x.name.as_str());
                        let found = InstalledPackageRef { package_name: name, install_root: x.path.clone() };
                        r.push(found);
                        assert(found_view(r@) =~= mid.push((found.package_name@, found.install_root@)));
                        assert(before + (prefix + seq![(found.package_name@, found.install_root@)])
                            =~= (before + prefix).push((found.package_name@, found.install_root@)));
                    } else {
                        assert(prefix + Seq::<(Seq<char>, Seq<char>)>::empty() =~= prefix);
                    }
                    j = j + 1;
                }
                assert(e.scoped@.take(e.scoped@.len() as int) =~= e.scoped@);
            },
            NpmEntryKind::Package => {
                let name = npm_ref_fallback_name(None, e.entry.name.as_str());
                let found = InstalledPackageRef { package_name: name, install_root: e.entry.path.clone() };
                r.push(found);
                assert(found_view(r@) =~= before.push((found.package_name@, found.install_root@)));
                assert(before + seq![(found.package_name@, found.install_root@)] =~= before.push((found.package_name@, found.install_root@)));
            },
        }
        i = i + 1;
    }
    assert(entries@.take(entries@.len() as int) =~= entries@);
    r
}

/// The packages under the pip root, named as they go without a receipt:
/// hidden entries and files are passed over.
pub fn pip_found_packages(entries: &Vec<ListedEntry>) -> (r: Vec<InstalledPackageRef>)
    ensures
        found_view(r@) == pip_found(entries@),
{
    let mut r: Vec<InstalledPackageRef> = Vec::new();
    let mut i: usize = 0;
    assert(entries@.take(0) =~= Seq::<ListedEntry>::empty());
    assert(found_view(r@) =~= Seq::<(Seq<char>, Seq<char>)>::empty());
    while i < entries.len()
        invariant
            i <= entries@.len(),
            found_view(r@) == pip_found(entries@.take(i as int)),
        decreases entries.len() - i,
    {
        let e = &entries[i];
        let ghost before = found_view(r@);
        assert(entries@.take(i + 1).drop_last() =~= entries@.take(i as int));
        assert(entries@.take(i + 1).last() == entries@[i as int]);
        let ghost t = entries@.take(i + 1);
        assert(pip_found(t) == pip_found(entries@.take(i as int)) + if holds_package(*e) {
            seq![("pip:"@ + e.name@, e.path@)]
        } else {
            Seq::empty()
        });
        if !matches!(npm_entry_kind(e.name.as_str(), e.is_dir), NpmEntryKind::Skip) {
            let found = InstalledPackageRef { package_name: pip_ref_fallback_name(e.name.as_str()), install_root: e.path.clone() };
            r.push(found);
            assert(found_view(r@) =~= before.push((found.package_name@, found.install_root@)));
            assert(before + seq![(found.package_name@, found.install_root@)] =~= before.push((found.package_name@, found.install_root@)));
        } else {
            assert(before + Seq::<(Seq<char>, Seq<char>)>::empty() =~= before);
        }
        i = i + 1;
    }
    assert(entries@.take(entries@.len() as int) =~= entries@);
    r
}

} // verus!
