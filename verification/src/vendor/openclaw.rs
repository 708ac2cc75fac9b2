use vstd::prelude::*;

use crate::text::{concat2, owned, strip_or_keep, strip_or_keep_text, strings_view};
use crate::vendor::{
    copy_file_into_bin, copy_into_bin, fetch_failure_text, github_latest_tag, github_release_context,
    github_release_url, npm_latest_tag, npm_metadata_context, release_url_text, string_list1,
    string_list2, string_list3, FetchFailure, InstallStrategy, InstallStrategyView, VendorEntry,
    VendorKind,
};
use crate::version::{parse_semver, parsed_as, version_text, Version};

verus! {

pub const NAME: &'static str = "openclaw";

pub fn entry() -> (e: VendorEntry)
    ensures
        e.kind == VendorKind::Openclaw,
        e.name@ == NAME@,
{
    VendorEntry { name: owned(NAME), kind: VendorKind::Openclaw }
}

pub open spec fn spec_dependencies() -> Seq<Seq<char>> {
    seq!["node"@]
}

pub fn dependencies() -> (v: Vec<String>)
    ensures
        strings_view(v@) == spec_dependencies(),
{
    string_list1("node")
}

pub open spec fn spec_executables() -> Seq<Seq<char>> {
    seq!["openclaw"@]
}

pub fn executables() -> (v: Vec<String>)
    ensures
        strings_view(v@) == spec_executables(),
{
    string_list1("openclaw")
}

/// The npm package whose `latest` dist-tag gives the version.
pub const NPM_PACKAGE: &'static str = "clawhub";

/// The latest version, from the outcome of fetching the npm metadata of `NPM_PACKAGE`.
pub fn version(fetched: Result<String, FetchFailure>) -> (r: Result<Version, String>)
    ensures
        match fetched {
            Ok(tag) => parsed_as(r, tag@, NAME@),
            Err(f) => r matches Err(m) && m@ == fetch_failure_text(npm_metadata_context(NPM_PACKAGE@), f),
        },
{
    let tag = npm_latest_tag(NPM_PACKAGE, fetched)?;
    parse_semver(tag.as_str(), NAME)
}

pub open spec fn spec_install() -> InstallStrategyView {
    InstallStrategyView::NpmGlobal { package: "openclaw"@ }
}

pub fn install(_version: &Version) -> (r: InstallStrategy)
    ensures
        r@ == spec_install(),
{
    InstallStrategy::NpmGlobal { package: owned("openclaw") }
}

} // verus!
