use vstd::prelude::*;

use crate::text::{concat2, decimal, decimal_text, has_prefix, owned, str_eq, strings_view, strip_or_keep};
use crate::version::{version_text, Version};

pub mod bun;
pub mod clawhub;
pub mod codex;
pub mod deno;
pub mod gh;
pub mod node;
pub mod openclaw;
pub mod qmd;

verus! {

/// How the files of a downloaded vendor release are put in place.
#[derive(Clone, Debug)]
pub enum InstallStrategy {
    NpmGlobal { package: String },
    CopyFile {
        source: String,
        destination_dir: String,
        destination_name: Option<String>,
        mode: u32,
        create_dirs: Vec<String>,
    },
    CopyTree { source: String },
}

/// An install strategy as plain values.
pub enum InstallStrategyView {
    NpmGlobal { package: Seq<char> },
    CopyFile {
        source: Seq<char>,
        destination_dir: Seq<char>,
        destination_name: Option<Seq<char>>,
        mode: u32,
        create_dirs: Seq<Seq<char>>,
    },
    CopyTree { source: Seq<char> },
}

impl View for InstallStrategy {
    type V = InstallStrategyView;

    open spec fn view(&self) -> InstallStrategyView {
        match self {
            InstallStrategy::NpmGlobal { package } => InstallStrategyView::NpmGlobal { package: package@ },
            InstallStrategy::CopyFile { source, destination_dir, destination_name, mode, create_dirs } =>
                InstallStrategyView::CopyFile {
                    source: source@,
                    destination_dir: destination_dir@,
                    destination_name: match destination_name {
                        Some(n) => Some(n@),
                        None => None,
                    },
                    mode: *mode,
                    create_dirs: strings_view(create_dirs@),
                },
            InstallStrategy::CopyTree { source } => InstallStrategyView::CopyTree { source: source@ },
        }
    }
}

/// The strategy that copies one file of the release into `bin` with mode 0o755.
pub open spec fn copy_into_bin(source: Seq<char>, destination_name: Option<Seq<char>>) -> InstallStrategyView {
    InstallStrategyView::CopyFile {
        source,
        destination_dir: "bin"@,
        destination_name,
        mode: 0o755,
        create_dirs: seq!["bin"@],
    }
}

/// Builds the strategy `copy_into_bin(source, destination_name)`.
pub fn copy_file_into_bin(source: String, destination_name: Option<String>) -> (r: InstallStrategy)
    ensures
        r@ == copy_into_bin(source@, match destination_name { Some(n) => Some(n@), None => None }),
{
    let mut create_dirs: Vec<String> = Vec::new();
    create_dirs.push(owned("bin"));
    let r = InstallStrategy::CopyFile {
        source,
        destination_dir: owned("bin"),
        destination_name,
        mode: 0o755,
        create_dirs,
    };
    assert(strings_view(create_dirs@) =~= seq!["bin"@]);
    r
}

/// A vector holding the given string literals, in order.
pub fn string_list1(a: &str) -> (v: Vec<String>)
    ensures
        strings_view(v@) == seq![a@],
{
    let mut v: Vec<String> = Vec::new();
    v.push(owned(a));
    assert(strings_view(v@) =~= seq![a@]);
    v
}

/// A vector holding the two given string literals, in order.
pub fn string_list2(a: &str, b: &str) -> (v: Vec<String>)
    ensures
        strings_view(v@) == seq![a@, b@],
{
    let mut v: Vec<String> = Vec::new();
    v.push(owned(a));
    v.push(owned(b));
    assert(strings_view(v@) =~= seq![a@, b@]);
    v
}

/// A vector holding the three given string literals, in order.
pub fn string_list3(a: &str, b: &str, c: &str) -> (v: Vec<String>)
    ensures
        strings_view(v@) == seq![a@, b@, c@],
{
    let mut v: Vec<String> = Vec::new();
    v.push(owned(a));
    v.push(owned(b));
    v.push(owned(c));
    assert(strings_view(v@) =~= seq![a@, b@, c@]);
    v
}

/// The vendor packages that substrate knows how to install.
#[derive(Clone, Copy, Debug, PartialEq, Eq)]
pub enum VendorKind {
    Bun,
    Clawhub,
    Codex,
    Deno,
    Gh,
    Node,
    Openclaw,
    Qmd,
}

/// Where the latest release of a vendor package is announced.
#[derive(Clone, Debug)]
pub enum ReleaseFeed {
    /// The tag of the latest GitHub release of `repo`.
    GithubLatestRelease { repo: String },
    /// The `latest` dist-tag of an npm package.
    NpmLatest { package: String },
}

/// A release feed as plain values.
pub enum ReleaseFeedView {
    GithubLatestRelease { repo: Seq<char> },
    NpmLatest { package: Seq<char> },
}

impl View for ReleaseFeed {
    type V = ReleaseFeedView;

    open spec fn view(&self) -> ReleaseFeedView {
        match self {
            ReleaseFeed::GithubLatestRelease { repo } => ReleaseFeedView::GithubLatestRelease { repo: repo@ },
            ReleaseFeed::NpmLatest { package } => ReleaseFeedView::NpmLatest { package: package@ },
        }
    }
}

/// The registry, in its order.
pub open spec fn registry_kinds() -> Seq<VendorKind> {
    seq![
        VendorKind::Bun,
        VendorKind::Clawhub,
        VendorKind::Codex,
        VendorKind::Deno,
        VendorKind::Gh,
        VendorKind::Node,
        VendorKind::Openclaw,
        VendorKind::Qmd,
    ]
}

/// The name a vendor package is registered under.
pub open spec fn kind_name(k: VendorKind) -> Seq<char> {
    match k {
        VendorKind::Bun => bun::NAME@,
        VendorKind::Clawhub => clawhub::NAME@,
        VendorKind::Codex => codex::NAME@,
        VendorKind::Deno => deno::NAME@,
        VendorKind::Gh => gh::NAME@,
        VendorKind::Node => node::NAME@,
        VendorKind::Openclaw => openclaw::NAME@,
        VendorKind::Qmd => qmd::NAME@,
    }
}

/// The packages a vendor package needs installed beside it (empty when it declares none).
pub open spec fn kind_dependencies(k: VendorKind) -> Seq<Seq<char>> {
    match k {
        VendorKind::Clawhub => clawhub::spec_dependencies(),
        VendorKind::Codex => codex::spec_dependencies(),
        VendorKind::Openclaw => openclaw::spec_dependencies(),
        VendorKind::Qmd => qmd::spec_dependencies(),
        _ => Seq::empty(),
    }
}

/// The executables a vendor package provides.
pub open spec fn kind_executables(k: VendorKind) -> Seq<Seq<char>> {
    match k {
        VendorKind::Bun => bun::spec_executables(),
        VendorKind::Clawhub => clawhub::spec_executables(),
        VendorKind::Codex => codex::spec_executables(),
        VendorKind::Deno => deno::spec_executables(),
        VendorKind::Gh => gh::spec_executables(),
        VendorKind::Node => node::spec_executables(),
        VendorKind::Openclaw => openclaw::spec_executables(),
        VendorKind::Qmd => qmd::spec_executables(),
    }
}

/// The package registered under `name`, if any (the first in registry order).
pub open spec fn lookup_kind(name: Seq<char>) -> Option<VendorKind> {
    if name == kind_name(VendorKind::Bun) { Some(VendorKind::Bun) }
    else if name == kind_name(VendorKind::Clawhub) { Some(VendorKind::Clawhub) }
    else if name == kind_name(VendorKind::Codex) { Some(VendorKind::Codex) }
    else if name == kind_name(VendorKind::Deno) { Some(VendorKind::Deno) }
    else if name == kind_name(VendorKind::Gh) { Some(VendorKind::Gh) }
    else if name == kind_name(VendorKind::Node) { Some(VendorKind::Node) }
    else if name == kind_name(VendorKind::Openclaw) { Some(VendorKind::Openclaw) }
    else if name == kind_name(VendorKind::Qmd) { Some(VendorKind::Qmd) }
    else { None }
}

/// The first package, in registry order, that provides the executable `tool`.
pub open spec fn kind_providing(tool: Seq<char>) -> Option<VendorKind> {
    if kind_executables(VendorKind::Bun).contains(tool) { Some(VendorKind::Bun) }
    else if kind_executables(VendorKind::Clawhub).contains(tool) { Some(VendorKind::Clawhub) }
    else if kind_executables(VendorKind::Codex).contains(tool) { Some(VendorKind::Codex) }
    else if kind_executables(VendorKind::Deno).contains(tool) { Some(VendorKind::Deno) }
    else if kind_executables(VendorKind::Gh).contains(tool) { Some(VendorKind::Gh) }
    else if kind_executables(VendorKind::Node).contains(tool) { Some(VendorKind::Node) }
    else if kind_executables(VendorKind::Openclaw).contains(tool) { Some(VendorKind::Openclaw) }
    else if kind_executables(VendorKind::Qmd).contains(tool) { Some(VendorKind::Qmd) }
    else { None }
}

/// A registry entry: the name a vendor package is known by.
#[derive(Clone, Debug)]
pub struct VendorEntry {
    pub name: String,
    pub kind: VendorKind,
}

/// Everything substrate knows of a vendor package: its name, the packages it
/// depends on and the executables it provides.
#[derive(Clone, Debug)]
pub struct VendorPackage {
    pub name: String,
    pub dependencies: Vec<String>,
    pub executables: Vec<String>,
    pub kind: VendorKind,
}

impl VendorPackage {
    /// This package is the one registered as `k`.
    pub open spec fn describes(&self, k: VendorKind) -> bool {
        &&& self.kind == k
        &&& self.name@ == kind_name(k)
        &&& strings_view(self.dependencies@) == kind_dependencies(k)
        &&& strings_view(self.executables@) == kind_executables(k)
    }
}

/// Where the latest version of `k` is announced.
pub open spec fn kind_feed(k: VendorKind) -> ReleaseFeedView {
    match k {
        VendorKind::Bun => ReleaseFeedView::GithubLatestRelease { repo: bun::REPO@ },
        VendorKind::Clawhub => ReleaseFeedView::NpmLatest { package: clawhub::NPM_PACKAGE@ },
        VendorKind::Codex => ReleaseFeedView::GithubLatestRelease { repo: codex::REPO@ },
        VendorKind::Deno => ReleaseFeedView::GithubLatestRelease { repo: deno::REPO@ },
        VendorKind::Gh => ReleaseFeedView::GithubLatestRelease { repo: gh::REPO@ },
        VendorKind::Node => ReleaseFeedView::GithubLatestRelease { repo: node::REPO@ },
        VendorKind::Openclaw => ReleaseFeedView::NpmLatest { package: openclaw::NPM_PACKAGE@ },
        VendorKind::Qmd => ReleaseFeedView::GithubLatestRelease { repo: qmd::REPO@ },
    }
}

/// What a failed fetch of the feed of `k` is reported as.
pub open spec fn kind_feed_context(k: VendorKind) -> Seq<char> {
    match kind_feed(k) {
        ReleaseFeedView::GithubLatestRelease { repo } => github_release_context(repo),
        ReleaseFeedView::NpmLatest { package } => npm_metadata_context(package),
    }
}

/// The part of an announced tag of `k` that is read as a semantic version.
pub open spec fn kind_tag_text(k: VendorKind, tag: Seq<char>) -> Seq<char> {
    match k {
        VendorKind::Bun => strip_or_keep(tag, "bun-v"@),
        VendorKind::Codex => strip_or_keep(tag, "rust-v"@),
        VendorKind::Clawhub => tag,
        VendorKind::Openclaw => tag,
        _ => strip_or_keep(tag, "v"@),
    }
}

/// The download address of version `v` of `k`, for packages downloaded from a URL.
pub open spec fn kind_download_url(k: VendorKind, v: (u64, u64, u64, Seq<char>, Seq<char>)) -> Option<Seq<char>> {
    match k {
        VendorKind::Bun => Some(bun::spec_download_url(v)),
        VendorKind::Codex => Some(codex::spec_download_url(v)),
        VendorKind::Deno => Some(deno::spec_download_url(v)),
        VendorKind::Gh => Some(gh::spec_download_url(v)),
        VendorKind::Node => Some(node::spec_download_url(v)),
        _ => None,
    }
}

/// How version `v` of `k` is installed.
pub open spec fn kind_install(k: VendorKind, v: (u64, u64, u64, Seq<char>, Seq<char>)) -> InstallStrategyView {
    match k {
        VendorKind::Bun => bun::spec_install(),
        VendorKind::Clawhub => clawhub::spec_install(),
        VendorKind::Codex => codex::spec_install(),
        VendorKind::Deno => deno::spec_install(),
        VendorKind::Gh => gh::spec_install(v),
        VendorKind::Node => node::spec_install(v),
        VendorKind::Openclaw => openclaw::spec_install(),
        VendorKind::Qmd => qmd::spec_install(),
    }
}

impl VendorPackage {
    /// Where the latest version of this package is announced.
    pub fn release_feed(&self) -> (f: ReleaseFeed)
        ensures
            f@ == kind_feed(self.kind),
    {
        match self.kind {
            VendorKind::Bun => ReleaseFeed::GithubLatestRelease { repo: owned(bun::REPO) },
            VendorKind::Clawhub => ReleaseFeed::NpmLatest { package: owned(clawhub::NPM_PACKAGE) },
            VendorKind::Codex => ReleaseFeed::GithubLatestRelease { repo: owned(codex::REPO) },
            VendorKind::Deno => ReleaseFeed::GithubLatestRelease { repo: owned(deno::REPO) },
            VendorKind::Gh => ReleaseFeed::GithubLatestRelease { repo: owned(gh::REPO) },
            VendorKind::Node => ReleaseFeed::GithubLatestRelease { repo: owned(node::REPO) },
            VendorKind::Openclaw => ReleaseFeed::NpmLatest { package: owned(openclaw::NPM_PACKAGE) },
            VendorKind::Qmd => ReleaseFeed::GithubLatestRelease { repo: owned(qmd::REPO) },
        }
    }

    /// The latest version, from the outcome of fetching this package's release feed.
    pub fn version(&self, fetched: Result<String, FetchFailure>) -> (r: Result<Version, String>)
        ensures
            match fetched {
                Ok(tag) => crate::version::parsed_as(r, kind_tag_text(self.kind, tag@), kind_name(self.kind)),
                Err(f) => r matches Err(m) && m@ == fetch_failure_text(kind_feed_context(self.kind), f),
            },
    {
        match self.kind {
            VendorKind::Bun => bun::version(fetched),
            VendorKind::Clawhub => clawhub::version(fetched),
            VendorKind::Codex => codex::version(fetched),
            VendorKind::Deno => deno::version(fetched),
            VendorKind::Gh => gh::version(fetched),
            VendorKind::Node => node::version(fetched),
            VendorKind::Openclaw => openclaw::version(fetched),
            VendorKind::Qmd => qmd::version(fetched),
        }
    }

    /// The download address of `version`, for packages that are downloaded from a URL.
    pub fn download_url(&self, version: &Version) -> (url: Option<String>)
        ensures
            match kind_download_url(self.kind, version.parts()) {
                Some(u) => url matches Some(x) && x@ == u,
                None => url is None,
            },
    {
        match self.kind {
            VendorKind::Bun => Some(bun::download_url(version)),
            VendorKind::Codex => Some(codex::download_url(version)),
            VendorKind::Deno => Some(deno::download_url(version)),
            VendorKind::Gh => Some(gh::download_url(version)),
            VendorKind::Node => Some(node::download_url(version)),
            _ => None,
        }
    }

    /// How `version` of this package is installed.
    pub fn install(&self, version: &Version) -> (r: InstallStrategy)
        ensures
            r@ == kind_install(self.kind, version.parts()),
    {
        match self.kind {
            VendorKind::Bun => bun::install(version),
            VendorKind::Clawhub => clawhub::install(version),
            VendorKind::Codex => codex::install(version),
            VendorKind::Deno => deno::install(version),
            VendorKind::Gh => gh::install(version),
            VendorKind::Node => node::install(version),
            VendorKind::Openclaw => openclaw::install(version),
            VendorKind::Qmd => qmd::install(version),
        }
    }
}

/// The registry entry of `k`.
pub fn entry_of(k: VendorKind) -> (e: VendorEntry)
    ensures
        e.kind == k,
        e.name@ == kind_name(k),
{
    match k {
        VendorKind::Bun => bun::entry(),
        VendorKind::Clawhub => clawhub::entry(),
        VendorKind::Codex => codex::entry(),
        VendorKind::Deno => deno::entry(),
        VendorKind::Gh => gh::entry(),
        VendorKind::Node => node::entry(),
        VendorKind::Openclaw => openclaw::entry(),
        VendorKind::Qmd => qmd::entry(),
    }
}

impl VendorEntry {
    /// The package an entry stands for; a package that declares no dependencies gets none.
    pub fn package(&self) -> (p: VendorPackage)
        ensures
            p.kind == self.kind,
            p.name@ == self.name@,
            strings_view(p.dependencies@) == kind_dependencies(self.kind),
            strings_view(p.executables@) == kind_executables(self.kind),
    {
        let (dependencies, executables) = match self.kind {
            VendorKind::Bun => (Vec::new(), bun::executables()),
            VendorKind::Clawhub => (clawhub::dependencies(), clawhub::executables()),
            VendorKind::Codex => (codex::dependencies(), codex::executables()),
            VendorKind::Deno => (Vec::new(), deno::executables()),
            VendorKind::Gh => (Vec::new(), gh::executables()),
            VendorKind::Node => (Vec::new(), node::executables()),
            VendorKind::Openclaw => (openclaw::dependencies(), openclaw::executables()),
            VendorKind::Qmd => (qmd::dependencies(), qmd::executables()),
        };
        proof {
            if dependencies@.len() == 0 {
                assert(strings_view(dependencies@) =~= Seq::<Seq<char>>::empty());
            }
        }
        VendorPackage { name: self.name.clone(), dependencies, executables, kind: self.kind }
    }
}

/// The registry entries, in registry order.
pub fn entries() -> (v: Vec<VendorEntry>)
    ensures
        v@.len() == registry_kinds().len(),
        forall|i: int| 0 <= i < v@.len() ==> #[trigger] v@[i].kind == registry_kinds()[i]
            && v@[i].name@ == kind_name(registry_kinds()[i]),
{
    let mut v: Vec<VendorEntry> = Vec::new();
    v.push(bun::entry());
    v.push(clawhub::entry());
    v.push(codex::entry());
    v.push(deno::entry());
    v.push(gh::entry());
    v.push(node::entry());
    v.push(openclaw::entry());
    v.push(qmd::entry());
    v
}

/// All registered packages, in registry order.
pub fn packages() -> (v: Vec<VendorPackage>)
    ensures
        v@.len() == registry_kinds().len(),
        forall|i: int| 0 <= i < v@.len() ==> (#[trigger] v@[i]).describes(registry_kinds()[i]),
{
    let entries = entries();
    let mut v: Vec<VendorPackage> = Vec::new();
    let mut i: usize = 0;
    while i < entries.len()
        invariant
            entries@.len() == registry_kinds().len(),
            forall|j: int| 0 <= j < entries@.len() ==> #[trigger] entries@[j].kind == registry_kinds()[j]
                && entries@[j].name@ == kind_name(registry_kinds()[j]),
            i <= entries@.len(),
            v@.len() == i,
            forall|j: int| 0 <= j < i ==> (#[trigger] v@[j]).describes(registry_kinds()[j]),
        decreases entries.len() - i,
    {
        assert(entries@[i as int].kind == registry_kinds()[i as int]);
        v.push(entries[i].package());
        i = i + 1;
    }
    v
}

/// The registered package called `name`.
pub fn get(name: &str) -> (r: Option<VendorPackage>)
    ensures
        match lookup_kind(name@) {
            Some(k) => r matches Some(p) && p.describes(k),
            None => r is None,
        },
{
    let kind = if str_eq(name, bun::NAME) {
        VendorKind::Bun
    } else if str_eq(name, clawhub::NAME) {
        VendorKind::Clawhub
    } else if str_eq(name, codex::NAME) {
        VendorKind::Codex
    } else if str_eq(name, deno::NAME) {
        VendorKind::Deno
    } else if str_eq(name, gh::NAME) {
        VendorKind::Gh
    } else if str_eq(name, node::NAME) {
        VendorKind::Node
    } else if str_eq(name, openclaw::NAME) {
        VendorKind::Openclaw
    } else if str_eq(name, qmd::NAME) {
        VendorKind::Qmd
    } else {
        return None;
    };
    Some(entry_of(kind).package())
}

/// Whether `v` holds a string equal to `tool`.
pub fn contains_text(v: &Vec<String>, tool: &str) -> (r: bool)
    ensures
        r == strings_view(v@).contains(tool@),
{
    let mut i: usize = 0;
    while i < v.len()
        invariant
            i <= v@.len(),
            forall|j: int| 0 <= j < i ==> v@[j]@ != tool@,
        decreases v.len() - i,
    {
        if str_eq(v[i].as_str(), tool) {
            assert(strings_view(v@)[i as int] == tool@);
            return true;
        }
        i = i + 1;
    }
    assert forall|j: int| 0 <= j < strings_view(v@).len() implies strings_view(v@)[j] != tool@ by {
        assert(strings_view(v@)[j] == v@[j]@);
    }
    false
}

/// The first registered package, in registry order, that provides the executable `tool`.
pub fn vendor_package_for_tool(tool: &str) -> (r: Option<VendorPackage>)
    ensures
        match kind_providing(tool@) {
            Some(k) => r matches Some(p) && p.describes(k),
            None => r is None,
        },
{
    let p0 = entry_of(VendorKind::Bun).package();
    if contains_text(&p0.executables, tool) { return Some(p0); }
    let p1 = entry_of(VendorKind::Clawhub).package();
    if contains_text(&p1.executables, tool) { return Some(p1); }
    let p2 = entry_of(VendorKind::Codex).package();
    if contains_text(&p2.executables, tool) { return Some(p2); }
    let p3 = entry_of(VendorKind::Deno).package();
    if contains_text(&p3.executables, tool) { return Some(p3); }
    let p4 = entry_of(VendorKind::Gh).package();
    if contains_text(&p4.executables, tool) { return Some(p4); }
    let p5 = entry_of(VendorKind::Node).package();
    if contains_text(&p5.executables, tool) { return Some(p5); }
    let p6 = entry_of(VendorKind::Openclaw).package();
    if contains_text(&p6.executables, tool) { return Some(p6); }
    let p7 = entry_of(VendorKind::Qmd).package();
    if contains_text(&p7.executables, tool) { return Some(p7); }
    None
}

/// The download address of an asset attached to a GitHub release.
pub open spec fn release_url_text(repo: Seq<char>, tag: Seq<char>, asset: Seq<char>) -> Seq<char> {
    "https://github.com/"@ + repo + "/releases/download/"@ + tag + "/"@ + asset
}

/// Builds `https://github.com/{repo}/releases/download/{tag}/{asset}`.
pub fn github_release_url(repo: &str, tag: &str, asset: &str) -> (url: String)
    ensures
        url@ == release_url_text(repo@, tag@, asset@),
{
    let mut url = String::from_str("https://github.com/");
    url.append(repo);
    url.append("/releases/download/");
    url.append(tag);
    url.append("/");
    url.append(asset);
    url
}

/// Why fetching a JSON document failed.
#[derive(Clone, Debug)]
pub enum FetchFailure {
    /// The server answered with this HTTP status.
    Status(u16),
    /// The request could not be carried out (the transport's message).
    Transport(String),
    /// The body could not be read (the reader's message).
    Read(String),
    /// The body is not the expected JSON (the decoder's message).
    Decode(String),
}

/// The message for a failed fetch: `{context}: http {code}` for an HTTP status,
/// `{context}: {message}` otherwise.
pub open spec fn fetch_failure_text(context: Seq<char>, failure: FetchFailure) -> Seq<char> {
    match failure {
        FetchFailure::Status(code) => context + ": http "@ + decimal(code as nat),
        FetchFailure::Transport(m) => context + ": "@ + m@,
        FetchFailure::Read(m) => context + ": "@ + m@,
        FetchFailure::Decode(m) => context + ": "@ + m@,
    }
}

/// Describes a failed fetch, prefixed with what was being fetched.
pub fn fetch_failure_message(context: &str, failure: &FetchFailure) -> (msg: String)
    ensures
        msg@ == fetch_failure_text(context@, *failure),
{
    match failure {
        FetchFailure::Status(code) => {
            let mut msg = concat2(context, ": http ");
            msg.append(decimal_text(*code as u64).as_str());
            msg
        },
        FetchFailure::Transport(m) => crate::text::concat3(context, ": ", m.as_str()),
        FetchFailure::Read(m) => crate::text::concat3(context, ": ", m.as_str()),
        FetchFailure::Decode(m) => crate::text::concat3(context, ": ", m.as_str()),
    }
}

/// What a failed fetch of the latest GitHub release of `repo` is reported as.
pub open spec fn github_release_context(repo: Seq<char>) -> Seq<char> {
    "failed to fetch latest release for "@ + repo
}

/// What a failed fetch of the npm metadata of `package` is reported as.
pub open spec fn npm_metadata_context(package: Seq<char>) -> Seq<char> {
    "failed to fetch npm metadata for "@ + package
}

/// The tag of the latest GitHub release of `repo`, from the outcome of fetching
/// that release: the tag itself, or the failure described.
pub fn github_latest_tag(repo: &str, fetched: Result<String, FetchFailure>) -> (r: Result<String, String>)
    ensures
        match fetched {
            Ok(tag) => r matches Ok(t) && t@ == tag@,
            Err(f) => r matches Err(m) && m@ == fetch_failure_text(github_release_context(repo@), f),
        },
{
    match fetched {
        Ok(tag) => Ok(tag),
        Err(failure) => {
            let context = concat2("failed to fetch latest release for ", repo);
            Err(fetch_failure_message(context.as_str(), &failure))
        },
    }
}

/// The `latest` dist-tag of the npm package `package`, from the outcome of
/// fetching its metadata: the tag itself, or the failure described.
pub fn npm_latest_tag(package: &str, fetched: Result<String, FetchFailure>) -> (r: Result<String, String>)
    ensures
        match fetched {
            Ok(tag) => r matches Ok(t) && t@ == tag@,
            Err(f) => r matches Err(m) && m@ == fetch_failure_text(npm_metadata_context(package@), f),
        },
{
    match fetched {
        Ok(tag) => Ok(tag),
        Err(failure) => {
            let context = concat2("failed to fetch npm metadata for ", package);
            Err(fetch_failure_message(context.as_str(), &failure))
        },
    }
}

/// The GitHub API root: the configured one, else `https://api.github.com`.
pub fn github_api_root(configured: Option<String>) -> (root: String)
    ensures
        root@ == match configured {
            Some(c) => c@,
            None => "https://api.github.com"@,
        },
{
    match configured {
        Some(c) => c,
        None => owned("https://api.github.com"),
    }
}

/// The npm registry root: the configured one, else `https://registry.npmjs.org`.
pub fn npm_registry_root(configured: Option<String>) -> (root: String)
    ensures
        root@ == match configured {
            Some(c) => c@,
            None => "https://registry.npmjs.org"@,
        },
{
    match configured {
        Some(c) => c,
        None => owned("https://registry.npmjs.org"),
    }
}

/// Where the latest release of `repo` is described: `{api_root}/repos/{repo}/releases/latest`.
pub fn github_latest_release_url(api_root: &str, repo: &str) -> (url: String)
    ensures
        url@ == api_root@ + "/repos/"@ + repo@ + "/releases/latest"@,
{
    let mut url = concat2(api_root, "/repos/");
    url.append(repo);
    url.append("/releases/latest");
    url
}

/// A byte that percent-encoding leaves as it is: ASCII letters and digits, `-`, `.`, `_` and `~`.
pub open spec fn url_unreserved(b: u8) -> bool {
    (48 <= b <= 57) || (65 <= b <= 90) || (97 <= b <= 122) || b == 45 || b == 46 || b == 95 || b == 126
}

/// The upper-case hexadecimal digit of `d` (`d < 16`).
pub open spec fn hex_upper(d: u8) -> char {
    if d < 10 { (48 + d) as char } else { (55 + d) as char }
}

/// Percent-encoding of a byte string: unreserved bytes stay, every other byte becomes `%XY`.
pub open spec fn percent_encoded(bytes: Seq<u8>) -> Seq<char>
    decreases bytes.len(),
{
    if bytes.len() == 0 {
        Seq::empty()
    } else {
        let b = bytes[0];
        (if url_unreserved(b) { seq![b as char] } else { seq!['%', hex_upper(b / 16), hex_upper(b % 16)] })
            + percent_encoded(bytes.drop_first())
    }
}

/// Calls `urlencoding::encode`. Trusted: the crate percent-encodes every byte of
/// the UTF-8 text except ASCII letters, digits, `-`, `.`, `_` and `~`, with
/// upper-case hexadecimal digits.
#[verifier::external_body]
pub(crate) fn url_encode(text: &str) -> (r: String)
    ensures
        r@ == percent_encoded(vstd::utf8::encode_utf8(text@)),
{
    urlencoding::encode(text).into_owned()
}

/// Where the metadata of an npm package is: `{registry_root}/{percent-encoded package}`.
pub fn npm_package_url(registry_root: &str, package: &str) -> (url: String)
    ensures
        url@ == registry_root@ + "/"@ + percent_encoded(vstd::utf8::encode_utf8(package@)),
{
    let mut url = concat2(registry_root, "/");
    url.append(url_encode(package).as_str());
    url
}

/// Every registered package is found under its own name: the names of the
/// registry are distinct.
pub proof fn law_registry_names_resolve(k: VendorKind)
    ensures
        lookup_kind(kind_name(k)) == Some(k),
        registry_kinds().contains(k),
{
    reveal_strlit("bun");
    reveal_strlit("clawhub");
    reveal_strlit("codex");
    reveal_strlit("deno");
    reveal_strlit("gh");
    reveal_strlit("node");
    reveal_strlit("openclaw");
    reveal_strlit("qmd");
    assert("bun"@[0] != "qmd"@[0]);
    assert("deno"@[0] != "node"@[0]);
    assert("clawhub"@[1] != "codex"@[1]);
    assert(kind_name(VendorKind::Bun) == "bun"@);
    assert(kind_name(VendorKind::Clawhub) == "clawhub"@);
    assert(kind_name(VendorKind::Codex) == "codex"@);
    assert(kind_name(VendorKind::Deno) == "deno"@);
    assert(kind_name(VendorKind::Gh) == "gh"@);
    assert(kind_name(VendorKind::Node) == "node"@);
    assert(kind_name(VendorKind::Openclaw) == "openclaw"@);
    assert(kind_name(VendorKind::Qmd) == "qmd"@);
    assert(registry_kinds()[0] == VendorKind::Bun);
    assert(registry_kinds()[1] == VendorKind::Clawhub);
    assert(registry_kinds()[2] == VendorKind::Codex);
    assert(registry_kinds()[3] == VendorKind::Deno);
    assert(registry_kinds()[4] == VendorKind::Gh);
    assert(registry_kinds()[5] == VendorKind::Node);
    assert(registry_kinds()[6] == VendorKind::Openclaw);
    assert(registry_kinds()[7] == VendorKind::Qmd);
}

/// Every executable a registered package declares is run from that package:
/// no two packages declare the same executable.
pub proof fn law_registry_executables_resolve(k: VendorKind, tool: Seq<char>)
    requires
        kind_executables(k).contains(tool),
    ensures
        kind_providing(tool) == Some(k),
{
    reveal_strlit("bun");
    reveal_strlit("clawhub");
    reveal_strlit("codex");
    reveal_strlit("deno");
    reveal_strlit("gh");
    reveal_strlit("node");
    reveal_strlit("npm");
    reveal_strlit("npx");
    reveal_strlit("openclaw");
    reveal_strlit("qmd");
    assert("bun"@[0] != "qmd"@[0]);
    assert("deno"@[0] != "node"@[0]);
    assert("npm"@[0] != "bun"@[0] && "npm"@[0] != "qmd"@[0] && "npm"@[2] != "npx"@[2]);
    assert("npx"@[0] != "bun"@[0] && "npx"@[0] != "qmd"@[0]);
    assert("clawhub"@[1] != "codex"@[1]);
    match k {
        VendorKind::Bun => assert(tool == "bun"@),
        VendorKind::Clawhub => assert(tool == "clawhub"@),
        VendorKind::Codex => assert(tool == "codex"@),
        VendorKind::Deno => assert(tool == "deno"@),
        VendorKind::Gh => assert(tool == "gh"@),
        VendorKind::Node => {
            let i = choose|i: int| 0 <= i < kind_executables(k).len() && kind_executables(k)[i] == tool;
            assert(tool == "node"@ || tool == "npm"@ || tool == "npx"@);
        },
        VendorKind::Openclaw => assert(tool == "openclaw"@),
        VendorKind::Qmd => assert(tool == "qmd"@),
    }
}

/// The tree node is installed from is the top directory of the archive it is
/// downloaded as: the download address ends in `/`, that directory's name and
/// `.tar.gz`.
pub proof fn law_node_tree_is_the_archive_top(v: (u64, u64, u64, Seq<char>, Seq<char>))
    ensures
        kind_install(VendorKind::Node, v) is CopyTree,
        kind_download_url(VendorKind::Node, v) is Some,
        exists|prefix: Seq<char>| kind_download_url(VendorKind::Node, v) == Some(prefix + "/"@ + kind_install(VendorKind::Node, v)->CopyTree_source + ".tar.gz"@),
{
    reveal_strlit("/node-v");
    reveal_strlit("/");
    reveal_strlit("node-v");
    reveal_strlit("-darwin-arm64.tar.gz");
    reveal_strlit("-darwin-arm64");
    reveal_strlit(".tar.gz");
    let t = version_text(v);
    let prefix = "https://nodejs.org/dist/v"@ + t;
    let source = "node-v"@ + t + "-darwin-arm64"@;
    assert(kind_install(VendorKind::Node, v)->CopyTree_source == source);
    assert("/node-v"@ =~= "/"@ + "node-v"@);
    assert("-darwin-arm64.tar.gz"@ =~= "-darwin-arm64"@ + ".tar.gz"@);
    assert(node::spec_download_url(v) =~= prefix + "/"@ + source + ".tar.gz"@);
}

proof fn lemma_tag_reads_back(p: Seq<char>, t: Seq<char>)
    ensures
        strip_or_keep(p + t, p) == t,
{
    assert((p + t).subrange(0, p.len() as int) =~= p);
    assert((p + t).subrange(p.len() as int, (p + t).len() as int) =~= t);
}

/// A package downloaded from a GitHub release is downloaded from the release
/// its feed announces for that version: the address is an asset of a release
/// of the feed's repository whose tag reads back as the version.
pub proof fn law_download_is_the_announced_release(k: VendorKind, v: (u64, u64, u64, Seq<char>, Seq<char>))
    requires
        kind_download_url(k, v) is Some,
        k != VendorKind::Node,
    ensures
        kind_feed(k) is GithubLatestRelease,
        exists|tag: Seq<char>, asset: Seq<char>|
            kind_download_url(k, v) == Some(#[trigger] release_url_text(kind_feed(k)->GithubLatestRelease_repo, tag, asset))
            && #[trigger] kind_tag_text(k, tag) == version_text(v),
{
    let t = version_text(v);
    match k {
        VendorKind::Bun => {
            lemma_tag_reads_back("bun-v"@, t);
            assert(kind_tag_text(k, "bun-v"@ + t) == t);
            assert(kind_download_url(k, v) == Some(release_url_text(kind_feed(k)->GithubLatestRelease_repo, "bun-v"@ + t, "bun-darwin-aarch64.zip"@)));
        },
        VendorKind::Codex => {
            lemma_tag_reads_back("rust-v"@, t);
            assert(kind_tag_text(k, "rust-v"@ + t) == t);
            assert(kind_download_url(k, v) == Some(release_url_text(kind_feed(k)->GithubLatestRelease_repo, "rust-v"@ + t, "codex-aarch64-apple-darwin.tar.gz"@)));
        },
        VendorKind::Deno => {
            lemma_tag_reads_back("v"@, t);
            assert(kind_tag_text(k, "v"@ + t) == t);
            assert(kind_download_url(k, v) == Some(release_url_text(kind_feed(k)->GithubLatestRelease_repo, "v"@ + t, "deno-aarch64-apple-darwin.zip"@)));
        },
        _ => {
            lemma_tag_reads_back("v"@, t);
            assert(kind_tag_text(k, "v"@ + t) == t);
            assert(kind_download_url(k, v) == Some(release_url_text(kind_feed(k)->GithubLatestRelease_repo, "v"@ + t, "gh_"@ + t + "_macOS_arm64.zip"@)));
        },
    }
}

/// Where a release archive unpacks into a directory named after it, the file
/// installed is taken from that directory: the asset is that name and `.zip`
/// or `.tar.gz`, and the installed path starts with that name.
pub proof fn law_installed_file_is_in_the_archive(k: VendorKind, v: (u64, u64, u64, Seq<char>, Seq<char>))
    requires
        k == VendorKind::Bun || k == VendorKind::Codex || k == VendorKind::Gh,
    ensures
        kind_install(k, v) is CopyFile,
        exists|tag: Seq<char>, stem: Seq<char>, ext: Seq<char>|
            (ext == ".zip"@ || ext == ".tar.gz"@)
            && kind_download_url(k, v) == Some(#[trigger] release_url_text(kind_feed(k)->GithubLatestRelease_repo, tag, stem + ext))
            && #[trigger] has_prefix(kind_install(k, v)->CopyFile_source, stem),
{
    reveal_strlit("bun-darwin-aarch64.zip");
    reveal_strlit("bun-darwin-aarch64");
    reveal_strlit("bun-darwin-aarch64/bun");
    reveal_strlit("codex-aarch64-apple-darwin.tar.gz");
    reveal_strlit("codex-aarch64-apple-darwin");
    reveal_strlit("_macOS_arm64.zip");
    reveal_strlit("_macOS_arm64");
    reveal_strlit("_macOS_arm64/bin/gh");
    reveal_strlit(".zip");
    reveal_strlit(".tar.gz");
    let t = version_text(v);
    match k {
        VendorKind::Bun => {
            let stem = "bun-darwin-aarch64"@;
            assert("bun-darwin-aarch64.zip"@ =~= stem + ".zip"@);
            assert("bun-darwin-aarch64/bun"@.subrange(0, stem.len() as int) =~= stem);
            assert(has_prefix(kind_install(k, v)->CopyFile_source, stem));
            assert(kind_download_url(k, v) == Some(release_url_text(kind_feed(k)->GithubLatestRelease_repo, "bun-v"@ + t, stem + ".zip"@)));
        },
        VendorKind::Codex => {
            let stem = "codex-aarch64-apple-darwin"@;
            assert("codex-aarch64-apple-darwin.tar.gz"@ =~= stem + ".tar.gz"@);
            assert(stem.subrange(0, stem.len() as int) =~= stem);
            assert(has_prefix(kind_install(k, v)->CopyFile_source, stem));
            assert(kind_download_url(k, v) == Some(release_url_text(kind_feed(k)->GithubLatestRelease_repo, "rust-v"@ + t, stem + ".tar.gz"@)));
        },
        _ => {
            let stem = "gh_"@ + t + "_macOS_arm64"@;
            assert("gh_"@ + t + "_macOS_arm64.zip"@ =~= stem + ".zip"@);
            let source = "gh_"@ + t + "_macOS_arm64/bin/gh"@;
            assert(source.subrange(0, stem.len() as int) =~= stem);
            assert(has_prefix(kind_install(k, v)->CopyFile_source, stem));
            assert(kind_download_url(k, v) == Some(release_url_text(kind_feed(k)->GithubLatestRelease_repo, "v"@ + t, stem + ".zip"@)));
        },
    }
}

} // verus!
