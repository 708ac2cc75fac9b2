use vstd::prelude::*;

use crate::text::{concat2, owned, strip_or_keep, strip_or_keep_text, strings_view};
use crate::vendor::{
    copy_file_into_bin, copy_into_bin, fetch_failure_text, github_latest_tag, github_release_context,
    github_release_url, npm_latest_tag, npm_metadata_context, release_url_text, string_list1,
    string_list2, string_list3, FetchFailure, InstallStrategy, InstallStrategyView, VendorEntry,
    VendorKind,
};
use crate::version::{parse_semver, parsed_as, version_text, Version};

verus! {

pub const NAME: &'static str = "qmd";

/// The GitHub repository that publishes qmd.
pub const REPO: &'static str = "tobi/qmd";

pub fn entry() -> (e: VendorEntry)
    ensures
        e.kind == VendorKind::Qmd,
        e.name@ == NAME@,
{
    VendorEntry { name: owned(NAME), kind: VendorKind::Qmd }
}

pub open spec fn spec_dependencies() -> Seq<Seq<char>> {
    seq!["node"@, "sqlite"@]
}

pub fn dependencies() -> (v: Vec<String>)
    ensures
        strings_view(v@) == spec_dependencies(),
{
    string_list2("node", "sqlite")
}

pub open spec fn spec_executables() -> Seq<Seq<char>> {
    seq!["qmd"@]
}

pub fn executables() -> (v: Vec<String>)
    ensures
        strings_view(v@) == spec_executables(),
{
    string_list1("qmd")
}

/// The latest version, from the outcome of fetching the repository's latest
/// release; a leading `v` of the tag is dropped.
pub fn version(fetched: Result<String, FetchFailure>) -> (r: Result<Version, String>)
    ensures
        match fetched {
            Ok(tag) => parsed_as(r, strip_or_keep(tag@, "v"@), NAME@),
            Err(f) => r matches Err(m) && m@ == fetch_failure_text(github_release_context(REPO@), f),
        },
{
    let tag = github_latest_tag(REPO, fetched)?;
    parse_semver(strip_or_keep_text(tag.as_str(), "v").as_str(), NAME)
}

pub open spec fn spec_install() -> InstallStrategyView {
    InstallStrategyView::NpmGlobal { package: "@tobilu/qmd"@ }
}

pub fn install(_version: &Version) -> (r: InstallStrategy)
    ensures
        r@ == spec_install(),
{
    InstallStrategy::NpmGlobal { package: owned("@tobilu/qmd") }
}

} // verus!
