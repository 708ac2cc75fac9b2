use vstd::prelude::*;

use crate::info::{PackageReceipt, PackageReceiptSource, SourceView};
use crate::names::{last_path_part, npm_package_executable_name};
use crate::order::{sort_strings, texts_sorted};
use crate::stubs::contains_name;
use crate::text::strings_view;
use crate::vendor::VendorPackage;
use crate::version::{version_text, Version};

verus! {

// ---------------------------------------------------------------------------
// The steps of installing a vendor, npm or pip package

/// What kind of root package is being installed.
#[derive(Clone, Copy, Debug, PartialEq, Eq)]
pub enum InstallKind {
    Vendor,
    Npm,
    Pip,
}

/// The step an install is at; each is carried out by the caller, who reports
/// back with an event.
#[derive(Clone, Copy, Debug, PartialEq, Eq)]
pub enum InstallStep {
    /// Ask whether the installed dependencies are current.
    CheckDependencies,
    /// Install the dependency formulae (and, but for pip, the vendor dependencies).
    InstallDependencies,
    /// Ask whether the installed root package is current.
    CheckRoot,
    /// Clear the area the root package goes to (no dependencies to keep).
    PrepareRootArea,
    /// Reinstall the dependencies the root package is installed among.
    ReinstallDependencyTree,
    /// Install the root package (for pip, and record its entry points).
    InstallRoot,
    /// Move the staged install into place.
    Activate,
    /// Write the package's receipt.
    WriteReceipt,
    /// Write the package's stubs and remove the stale ones.
    SyncStubs,
    /// List the paths of the package's stubs.
    ListStubs,
    /// Nothing is left to do.
    Done,
}

/// What the caller reports after a step.
#[derive(Clone, Copy, Debug, PartialEq, Eq)]
pub enum InstallEvent {
    /// The step was carried out.
    Finished,
    /// The answer to a question step.
    Answer(bool),
}

/// Where an install stands.
#[derive(Clone, Copy, Debug, PartialEq, Eq)]
pub struct InstallState {
    pub kind: InstallKind,
    /// The package has dependencies (formulae or vendor packages).
    pub has_dependencies: bool,
    /// The dependencies were installed during this run.
    pub dependencies_reinstalled: bool,
    pub step: InstallStep,
}

/// Where an install starts.
pub fn start_install(kind: InstallKind, has_dependencies: bool) -> (r: InstallState)
    ensures
        r == (InstallState { kind, has_dependencies, dependencies_reinstalled: false, step: InstallStep::CheckDependencies }),
{
    InstallState { kind, has_dependencies, dependencies_reinstalled: false, step: InstallStep::CheckDependencies }
}

/// The step that follows a root found out of date: the root goes straight in
/// when the dependencies were just installed; otherwise the dependency tree is
/// reinstalled, or, for a vendor or npm package without dependencies, the root
/// area is cleared.
pub open spec fn after_stale_root(s: InstallState) -> InstallStep {
    if s.dependencies_reinstalled {
        InstallStep::InstallRoot
    } else if s.kind != InstallKind::Pip && !s.has_dependencies {
        InstallStep::PrepareRootArea
    } else {
        InstallStep::ReinstallDependencyTree
    }
}

/// The state after `event` at state `s`; an event that does not fit the step
/// leaves the state as it is.
pub open spec fn install_transition(s: InstallState, event: InstallEvent) -> InstallState {
    match (s.step, event) {
        (InstallStep::CheckDependencies, InstallEvent::Answer(current)) => InstallState {
            step: if current { InstallStep::CheckRoot } else { InstallStep::InstallDependencies },
            ..s
        },
        (InstallStep::InstallDependencies, InstallEvent::Finished) => InstallState {
            step: InstallStep::CheckRoot,
            dependencies_reinstalled: true,
            ..s
        },
        (InstallStep::CheckRoot, InstallEvent::Answer(current)) => InstallState {
            step: if current { InstallStep::Activate } else { after_stale_root(s) },
            ..s
        },
        (InstallStep::PrepareRootArea, InstallEvent::Finished) => InstallState { step: InstallStep::InstallRoot, ..s },
        (InstallStep::ReinstallDependencyTree, InstallEvent::Finished) => InstallState {
            step: InstallStep::InstallRoot,
            ..s
        },
        (InstallStep::InstallRoot, InstallEvent::Finished) => InstallState { step: InstallStep::Activate, ..s },
        (InstallStep::Activate, InstallEvent::Finished) => InstallState { step: InstallStep::WriteReceipt, ..s },
        (InstallStep::WriteReceipt, InstallEvent::Finished) => InstallState { step: InstallStep::SyncStubs, ..s },
        (InstallStep::SyncStubs, InstallEvent::Finished) => InstallState { step: InstallStep::ListStubs, ..s },
        (InstallStep::ListStubs, InstallEvent::Finished) => InstallState { step: InstallStep::Done, ..s },
        _ => s,
    }
}

/// The next state of an install, once the caller reports on the current step.
pub fn next_install_state(s: InstallState, event: InstallEvent) -> (r: InstallState)
    ensures
        r == install_transition(s, event),
{
    match (s.step, event) {
        (InstallStep::CheckDependencies, InstallEvent::Answer(current)) => {
            let step = if current {
                InstallStep::CheckRoot
            } else {
                InstallStep::InstallDependencies
            };
            InstallState { step, ..s }
        },
        (InstallStep::InstallDependencies, InstallEvent::Finished) => InstallState {
            step: InstallStep::CheckRoot,
            dependencies_reinstalled: true,
            ..s
        },
        (InstallStep::CheckRoot, InstallEvent::Answer(current)) => {
            let step = if current {
                InstallStep::Activate
            } else if s.dependencies_reinstalled {
                InstallStep::InstallRoot
            } else if !matches!(s.kind, InstallKind::Pip) && !s.has_dependencies {
                InstallStep::PrepareRootArea
            } else {
                InstallStep::ReinstallDependencyTree
            };
            InstallState { step, ..s }
        },
        (InstallStep::PrepareRootArea, InstallEvent::Finished) => InstallState { step: InstallStep::InstallRoot, ..s },
        (InstallStep::ReinstallDependencyTree, InstallEvent::Finished) => InstallState {
            step: InstallStep::InstallRoot,
            ..s
        },
        (InstallStep::InstallRoot, InstallEvent::Finished) => InstallState { step: InstallStep::Activate, ..s },
        (InstallStep::Activate, InstallEvent::Finished) => InstallState { step: InstallStep::WriteReceipt, ..s },
        (InstallStep::WriteReceipt, InstallEvent::Finished) => InstallState { step: InstallStep::SyncStubs, ..s },
        (InstallStep::SyncStubs, InstallEvent::Finished) => InstallState { step: InstallStep::ListStubs, ..s },
        (InstallStep::ListStubs, InstallEvent::Finished) => InstallState { step: InstallStep::Done, ..s },
        _ => s,
    }
}

/// The dependencies are installed at most once in a run: an install that has
/// just installed them never reinstalls the dependency tree or clears the root
/// area, and one whose root is current installs nothing more of it.
pub proof fn law_dependencies_installed_once(s: InstallState, current: bool)
    requires
        s.step == InstallStep::CheckRoot,
    ensures
        s.dependencies_reinstalled ==> install_transition(s, InstallEvent::Answer(current)).step != InstallStep::ReinstallDependencyTree,
        s.dependencies_reinstalled ==> install_transition(s, InstallEvent::Answer(current)).step != InstallStep::PrepareRootArea,
        current ==> install_transition(s, InstallEvent::Answer(current)).step == InstallStep::Activate,
        install_transition(s, InstallEvent::Answer(current)).kind == s.kind,
{
}

/// Whatever the answers, an install reaches `Done` after at most ten reports,
/// with every step finished in turn.
pub open spec fn steps_to_done(s: InstallState) -> nat {
    match s.step {
        InstallStep::CheckDependencies => 10,
        InstallStep::InstallDependencies => 9,
        InstallStep::CheckRoot => 8,
        InstallStep::PrepareRootArea => 6,
        InstallStep::ReinstallDependencyTree => 6,
        InstallStep::InstallRoot => 5,
        InstallStep::Activate => 4,
        InstallStep::WriteReceipt => 3,
        InstallStep::SyncStubs => 2,
        InstallStep::ListStubs => 1,
        InstallStep::Done => 0,
    }
}

/// The event that fits a step: an answer for a question, else `Finished`.
pub open spec fn fits(step: InstallStep, event: InstallEvent) -> bool {
    match step {
        InstallStep::CheckDependencies | InstallStep::CheckRoot => event is Answer,
        InstallStep::Done => false,
        _ => event is Finished,
    }
}

/// Every fitting report brings an install closer to its end.
pub proof fn law_install_progresses(s: InstallState, event: InstallEvent)
    requires
        fits(s.step, event),
    ensures
        steps_to_done(install_transition(s, event)) < steps_to_done(s),
{
}

/// The receipt of a package installed from `source` at `version`.
pub fn install_receipt(package_name: String, version: &Version, source: PackageReceiptSource) -> (r: PackageReceipt)
    ensures
        r.package_name == package_name,
        r.version@ == version_text(version.parts()),
        r.source == source,
{
    PackageReceipt { package_name, source, version: version.to_text() }
}

/// The receipt of a package installed from `source` at a version given as
/// text (as PyPI gives it).
pub fn install_receipt_with_version(package_name: String, version: String, source: PackageReceiptSource) -> (r: PackageReceipt)
    ensures
        r.package_name == package_name,
        r.version == version,
        r.source == source,
{
    PackageReceipt { package_name, source, version }
}

// ---------------------------------------------------------------------------
// What an install leaves behind: its receipt and its stubs

/// The root package of a vendor, npm or pip install, with what decides its
/// receipt and its stubs: a vendor package declares its executables, an npm
/// package provides the one named after it, and a pip package the entry points
/// its install recorded.
#[derive(Clone, Debug)]
pub enum InstallTarget {
    Vendor(VendorPackage),
    Npm(String),
    Pip { pip_package: String, entry_points: Vec<String> },
}

impl InstallTarget {
    /// The kind of install this root takes.
    pub open spec fn kind_spec(&self) -> InstallKind {
        match self {
            InstallTarget::Vendor(_) => InstallKind::Vendor,
            InstallTarget::Npm(_) => InstallKind::Npm,
            InstallTarget::Pip { .. } => InstallKind::Pip,
        }
    }

    /// The kind of install this root takes.
    pub fn kind(&self) -> (k: InstallKind)
        ensures
            k == self.kind_spec(),
    {
        match self {
            InstallTarget::Vendor(_) => InstallKind::Vendor,
            InstallTarget::Npm(_) => InstallKind::Npm,
            InstallTarget::Pip { .. } => InstallKind::Pip,
        }
    }
}

/// The source a receipt records for a root: the vendor package's name, or the
/// npm or pip package.
pub open spec fn root_source(root: InstallTarget) -> SourceView {
    match root {
        InstallTarget::Vendor(p) => SourceView::Vendor(p.name@),
        InstallTarget::Npm(n) => SourceView::Npm(n@),
        InstallTarget::Pip { pip_package, .. } => SourceView::Pip(pip_package@),
    }
}

/// The executables a root declares, before any is excluded.
pub open spec fn declared_executables(root: InstallTarget) -> Seq<Seq<char>> {
    match root {
        InstallTarget::Vendor(p) => strings_view(p.executables@),
        InstallTarget::Npm(n) => seq![last_path_part(n@)],
        InstallTarget::Pip { entry_points, .. } => strings_view(entry_points@),
    }
}

/// A name that is not among `excluded`.
pub open spec fn not_excluded(excluded: Seq<Seq<char>>) -> spec_fn(Seq<char>) -> bool {
    |n: Seq<char>| !excluded.contains(n)
}

/// The names that are not excluded, in order.
pub fn kept_names(names: &Vec<String>, excluded: &Vec<String>) -> (r: Vec<String>)
    ensures
        strings_view(r@) == strings_view(names@).filter(not_excluded(strings_view(excluded@))),
{
    let ghost keep = not_excluded(strings_view(excluded@));
    let ghost all = strings_view(names@);
    let mut r: Vec<String> = Vec::new();
    let mut i: usize = 0;
    proof {
        reveal(Seq::filter);
        assert(all.take(0).filter(keep) =~= Seq::<Seq<char>>::empty());
        assert(strings_view(r@) =~= Seq::<Seq<char>>::empty());
    }
    while i < names.len()
        invariant
            i <= names@.len(),
            all == strings_view(names@),
            keep == not_excluded(strings_view(excluded@)),
            strings_view(r@) == all.take(i as int).filter(keep),
        decreases names.len() - i,
    {
        let ghost before = r@;
        proof {
            reveal(Seq::filter);
            assert(all.take(i + 1).drop_last() =~= all.take(i as int));
            assert(all.take(i + 1).last() == names@[i as int]@);
        }
        if !contains_name(excluded, names[i].as_str()) {
            let name = names[i].clone();
            r.push(name);
            assert(strings_view(r@) =~= strings_view(before).push(names@[i as int]@));
        }
        i = i + 1;
    }
    assert(all.take(names@.len() as int) =~= all);
    r
}

/// The receipt and the stub names an install leaves.
#[derive(Clone, Debug)]
pub struct InstallOutcome {
    pub receipt: PackageReceipt,
    pub stubs: Vec<String>,
}

/// What installing `root` as `package_name` at `version` leaves: a receipt
/// that records the root's own source, and stubs for the executables it
/// declares that are not excluded, sorted by name.
pub fn install_outcome(package_name: String, root: &InstallTarget, version: String, excluded_stubs: &Vec<String>) -> (r: InstallOutcome)
    ensures
        r.receipt.package_name == package_name,
        r.receipt.version == version,
        r.receipt.source@ == root_source(*root),
        texts_sorted(strings_view(r.stubs@)),
        strings_view(r.stubs@).to_multiset()
            == declared_executables(*root).filter(not_excluded(strings_view(excluded_stubs@))).to_multiset(),
{
    let (source, kept) = match root {
        InstallTarget::Vendor(p) => (
            PackageReceiptSource::Vendor { vendor_name: p.name.clone() },
            kept_names(&p.executables, excluded_stubs),
        ),
        InstallTarget::Npm(n) => {
            let executables = vec![npm_package_executable_name(n.as_str())];
            assert(strings_view(executables@) =~= seq![last_path_part(n@)]);
            (PackageReceiptSource::Npm { package_name: n.clone() }, kept_names(&executables, excluded_stubs))
        },
        InstallTarget::Pip { pip_package, entry_points } => (
            PackageReceiptSource::Pip { package_name: pip_package.clone() },
            kept_names(entry_points, excluded_stubs),
        ),
    };
    let stubs = sort_strings(kept);
    InstallOutcome { receipt: PackageReceipt { package_name, source, version }, stubs }
}

/// An install leaves a stub for exactly the executables its root declares that
/// are not excluded: none for another name, none for an excluded one.
pub proof fn law_install_stubs_are_the_kept_declared_executables(root: InstallTarget, excluded: Seq<Seq<char>>, stubs: Seq<Seq<char>>)
    requires
        stubs.to_multiset() == declared_executables(root).filter(not_excluded(excluded)).to_multiset(),
    ensures
        forall|n: Seq<char>| #[trigger] stubs.contains(n) <==> declared_executables(root).contains(n) && !excluded.contains(n),
{
    broadcast use vstd::seq_lib::group_to_multiset_ensures;
    broadcast use vstd::seq_lib::group_filter_ensures;
    let declared = declared_executables(root);
    let kept = declared.filter(not_excluded(excluded));
    assert forall|n: Seq<char>| #[trigger] stubs.contains(n) <==> declared.contains(n) && !excluded.contains(n) by {
        assert(stubs.contains(n) <==> stubs.to_multiset().count(n) > 0);
        assert(kept.contains(n) <==> kept.to_multiset().count(n) > 0);
        if kept.contains(n) {
            declared.lemma_filter_contains_rev(not_excluded(excluded), n);
            let k = choose|k: int| 0 <= k < kept.len() && kept[k] == n;
            assert(not_excluded(excluded)(kept[k]));
        }
        if declared.contains(n) && !excluded.contains(n) {
            let i = choose|i: int| 0 <= i < declared.len() && declared[i] == n;
            assert(kept.contains(declared[i]));
        }
    }
}

} // verus!
