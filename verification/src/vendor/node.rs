use vstd::prelude::*;

use crate::text::{concat2, owned, strip_or_keep, strip_or_keep_text, strings_view};
use crate::vendor::{
    copy_file_into_bin, copy_into_bin, fetch_failure_text, github_latest_tag, github_release_context,
    github_release_url, npm_latest_tag, npm_metadata_context, release_url_text, string_list1,
    string_list2, string_list3, FetchFailure, InstallStrategy, InstallStrategyView, VendorEntry,
    VendorKind,
};
use crate::version::{parse_semver, parsed_as, version_text, Version};

verus! {

pub const NAME: &'static str = "node";

/// The GitHub repository whose releases name node versions.
pub const REPO: &'static str = "nodejs/node";

pub fn entry() -> (e: VendorEntry)
    ensures
        e.kind == VendorKind::Node,
        e.name@ == NAME@,
{
    VendorEntry { name: owned(NAME), kind: VendorKind::Node }
}

pub open spec fn spec_executables() -> Seq<Seq<char>> {
    seq!["node"@, "npm"@, "npx"@]
}

pub fn executables() -> (v: Vec<String>)
    ensures
        strings_view(v@) == spec_executables(),
{
    string_list3("node", "npm", "npx")
}

/// The version named by a release tag such as `v22.18.0`.
pub fn parse_version(version: &str) -> (r: Result<Version, String>)
    ensures
        parsed_as(r, strip_or_keep(version@, "v"@), NAME@),
{
    parse_semver(strip_or_keep_text(version, "v").as_str(), NAME)
}

/// The latest version, from the outcome of fetching the repository's latest release.
pub fn version(fetched: Result<String, FetchFailure>) -> (r: Result<Version, String>)
    ensures
        match fetched {
            Ok(tag) => parsed_as(r, strip_or_keep(tag@, "v"@), NAME@),
            Err(f) => r matches Err(m) && m@ == fetch_failure_text(github_release_context(REPO@), f),
        },
{
    let tag = github_latest_tag(REPO, fetched)?;
    parse_version(tag.as_str())
}

pub open spec fn spec_download_url(v: (u64, u64, u64, Seq<char>, Seq<char>)) -> Seq<char> {
    "https://nodejs.org/dist/v"@ + version_text(v) + "/node-v"@ + version_text(v) + "-darwin-arm64.tar.gz"@
}

/// Node is downloaded from nodejs.org, not from GitHub.
pub fn download_url(version: &Version) -> (url: String)
    ensures
        url@ == spec_download_url(version.parts()),
{
    let text = version.to_text();
    let mut url = concat2("https://nodejs.org/dist/v", text.as_str());
    url.append("/node-v");
    url.append(text.as_str());
    url.append("-darwin-arm64.tar.gz");
    url
}

pub open spec fn spec_install(v: (u64, u64, u64, Seq<char>, Seq<char>)) -> InstallStrategyView {
    InstallStrategyView::CopyTree { source: "node-v"@ + version_text(v) + "-darwin-arm64"@ }
}

/// The whole extracted tree is installed.
pub fn install(version: &Version) -> (r: InstallStrategy)
    ensures
        r@ == spec_install(version.parts()),
{
    let mut source = concat2("node-v", version.to_text().as_str());
    source.append("-darwin-arm64");
    InstallStrategy::CopyTree { source }
}

} // verus!
