use vstd::prelude::*;

use crate::text::{concat2, owned, strip_or_keep, strip_or_keep_text, strings_view};
use crate::vendor::{
    copy_file_into_bin, copy_into_bin, fetch_failure_text, github_latest_tag, github_release_context,
    github_release_url, npm_latest_tag, npm_metadata_context, release_url_text, string_list1,
    string_list2, string_list3, FetchFailure, InstallStrategy, InstallStrategyView, VendorEntry,
    VendorKind,
};
use crate::version::{parse_semver, parsed_as, version_text, Version};

verus! {

pub const NAME: &'static str = "codex";

/// The GitHub repository that publishes codex.
pub const REPO: &'static str = "openai/codex";

pub fn entry() -> (e: VendorEntry)
    ensures
        e.kind == VendorKind::Codex,
        e.name@ == NAME@,
{
    VendorEntry { name: owned(NAME), kind: VendorKind::Codex }
}

pub open spec fn spec_dependencies() -> Seq<Seq<char>> {
    seq!["ripgrep"@]
}

pub fn dependencies() -> (v: Vec<String>)
    ensures
        strings_view(v@) == spec_dependencies(),
{
    string_list1("ripgrep")
}

pub open spec fn spec_executables() -> Seq<Seq<char>> {
    seq!["codex"@]
}

pub fn executables() -> (v: Vec<String>)
    ensures
        strings_view(v@) == spec_executables(),
{
    string_list1("codex")
}

/// The version named by a release tag such as `rust-v0.116.0`.
pub fn parse_version(version: &str) -> (r: Result<Version, String>)
    ensures
        parsed_as(r, strip_or_keep(version@, "rust-v"@), NAME@),
{
    parse_semver(strip_or_keep_text(version, "rust-v").as_str(), NAME)
}

/// The latest version, from the outcome of fetching the repository's latest release.
pub fn version(fetched: Result<String, FetchFailure>) -> (r: Result<Version, String>)
    ensures
        match fetched {
            Ok(tag) => parsed_as(r, strip_or_keep(tag@, "rust-v"@), NAME@),
            Err(f) => r matches Err(m) && m@ == fetch_failure_text(github_release_context(REPO@), f),
        },
{
    let tag = github_latest_tag(REPO, fetched)?;
    parse_version(tag.as_str())
}

pub open spec fn spec_download_url(v: (u64, u64, u64, Seq<char>, Seq<char>)) -> Seq<char> {
    release_url_text(REPO@, "rust-v"@ + version_text(v), "codex-aarch64-apple-darwin.tar.gz"@)
}

pub fn download_url(version: &Version) -> (url: String)
    ensures
        url@ == spec_download_url(version.parts()),
{
    let tag = concat2("rust-v", version.to_text().as_str());
    github_release_url(REPO, tag.as_str(), "codex-aarch64-apple-darwin.tar.gz")
}

pub open spec fn spec_install() -> InstallStrategyView {
    copy_into_bin("codex-aarch64-apple-darwin"@, Some("codex"@))
}

/// The release binary is installed as `bin/codex`.
pub fn install(_version: &Version) -> (r: InstallStrategy)
    ensures
        r@ == spec_install(),
{
    copy_file_into_bin(owned("codex-aarch64-apple-darwin"), Some(owned("codex")))
}

} // verus!
