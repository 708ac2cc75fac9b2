use vstd::prelude::*;

use crate::text::{concat2, owned, strip_or_keep, strip_or_keep_text, strings_view};
use crate::vendor::{
    copy_file_into_bin, copy_into_bin, fetch_failure_text, github_latest_tag, github_release_context,
    github_release_url, release_url_text, string_list1, FetchFailure, InstallStrategy, VendorEntry,
    VendorKind,
};
use crate::version::{parse_semver, parsed_as, version_text, Version};

verus! {

pub const NAME: &'static str = "bun";

/// The GitHub repository that publishes bun.
pub const REPO: &'static str = "oven-sh/bun";

pub fn entry() -> (e: VendorEntry)
    ensures
        e.kind == VendorKind::Bun,
        e.name@ == NAME@,
{
    VendorEntry { name: owned(NAME), kind: VendorKind::Bun }
}

pub open spec fn spec_executables() -> Seq<Seq<char>> {
    seq!["bun"@]
}

pub fn executables() -> (v: Vec<String>)
    ensures
        strings_view(v@) == spec_executables(),
{
    string_list1("bun")
}

/// The version named by a release tag such as `bun-v1.2.3`.
pub fn parse_version(version: &str) -> (r: Result<Version, String>)
    ensures
        parsed_as(r, strip_or_keep(version@, "bun-v"@), NAME@),
{
    parse_semver(strip_or_keep_text(version, "bun-v").as_str(), NAME)
}

/// The latest version, from the outcome of fetching the repository's latest release.
pub fn version(fetched: Result<String, FetchFailure>) -> (r: Result<Version, String>)
    ensures
        match fetched {
            Ok(tag) => parsed_as(r, strip_or_keep(tag@, "bun-v"@), NAME@),
            Err(f) => r matches Err(m) && m@ == fetch_failure_text(github_release_context(REPO@), f),
        },
{
    let tag = github_latest_tag(REPO, fetched)?;
    parse_version(tag.as_str())
}

pub open spec fn spec_download_url(v: (u64, u64, u64, Seq<char>, Seq<char>)) -> Seq<char> {
    release_url_text(REPO@, "bun-v"@ + version_text(v), "bun-darwin-aarch64.zip"@)
}

pub fn download_url(version: &Version) -> (url: String)
    ensures
        url@ == spec_download_url(version.parts()),
{
    let tag = concat2("bun-v", version.to_text().as_str());
    github_release_url(REPO, tag.as_str(), "bun-darwin-aarch64.zip")
}

pub open spec fn spec_install() -> crate::vendor::InstallStrategyView {
    copy_into_bin("bun-darwin-aarch64/bun"@, None)
}

pub fn install(_version: &Version) -> (r: InstallStrategy)
    ensures
        r@ == spec_install(),
{
    copy_file_into_bin(owned("bun-darwin-aarch64/bun"), None)
}

} // verus!
