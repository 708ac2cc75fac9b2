use vstd::prelude::*;

use crate::text::{concat2, owned, strip_or_keep, strip_or_keep_text, strings_view};
use crate::vendor::{
    copy_file_into_bin, copy_into_bin, fetch_failure_text, github_latest_tag, github_release_context,
    github_release_url, npm_latest_tag, npm_metadata_context, release_url_text, string_list1,
    string_list2, string_list3, FetchFailure, InstallStrategy, InstallStrategyView, VendorEntry,
    VendorKind,
};
use crate::version::{parse_semver, parsed_as, version_text, Version};

verus! {

pub const NAME: &'static str = "gh";

/// The GitHub repository that publishes gh.
pub const REPO: &'static str = "cli/cli";

pub fn entry() -> (e: VendorEntry)
    ensures
        e.kind == VendorKind::Gh,
        e.name@ == NAME@,
{
    VendorEntry { name: owned(NAME), kind: VendorKind::Gh }
}

pub open spec fn spec_executables() -> Seq<Seq<char>> {
    seq!["gh"@]
}

pub fn executables() -> (v: Vec<String>)
    ensures
        strings_view(v@) == spec_executables(),
{
    string_list1("gh")
}

/// The version named by a release tag such as `v2.88.1`.
pub fn parse_version(version: &str) -> (r: Result<Version, String>)
    ensures
        parsed_as(r, strip_or_keep(version@, "v"@), NAME@),
{
    parse_semver(strip_or_keep_text(version, "v").as_str(), NAME)
}

/// The latest version, from the outcome of fetching the repository's latest release.
pub fn version(fetched: Result<String, FetchFailure>) -> (r: Result<Version, String>)
    ensures
        match fetched {
            Ok(tag) => parsed_as(r, strip_or_keep(tag@, "v"@), NAME@),
            Err(f) => r matches Err(m) && m@ == fetch_failure_text(github_release_context(REPO@), f),
        },
{
    let tag = github_latest_tag(REPO, fetched)?;
    parse_version(tag.as_str())
}

pub open spec fn spec_download_url(v: (u64, u64, u64, Seq<char>, Seq<char>)) -> Seq<char> {
    release_url_text(REPO@, "v"@ + version_text(v), "gh_"@ + version_text(v) + "_macOS_arm64.zip"@)
}

pub fn download_url(version: &Version) -> (url: String)
    ensures
        url@ == spec_download_url(version.parts()),
{
    let text = version.to_text();
    let tag = concat2("v", text.as_str());
    let mut asset = concat2("gh_", text.as_str());
    asset.append("_macOS_arm64.zip");
    github_release_url(REPO, tag.as_str(), asset.as_str())
}

pub open spec fn spec_install(v: (u64, u64, u64, Seq<char>, Seq<char>)) -> InstallStrategyView {
    copy_into_bin("gh_"@ + version_text(v) + "_macOS_arm64/bin/gh"@, None)
}

/// The binary sits in a directory named after the version.
pub fn install(version: &Version) -> (r: InstallStrategy)
    ensures
        r@ == spec_install(version.parts()),
{
    let mut source = concat2("gh_", version.to_text().as_str());
    source.append("_macOS_arm64/bin/gh");
    copy_file_into_bin(source, None)
}

} // verus!
