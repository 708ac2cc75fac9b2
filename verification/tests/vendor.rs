use substrate::vendor::{
    bun, codex, deno, entries, get, gh, github_latest_tag, node, npm_latest_tag, FetchFailure,
    InstallStrategy,
};
use substrate::version::{parse_semver, Version};

fn semver(text: &str) -> Version {
    parse_semver(text, "test").unwrap()
}

#[test]
fn vendor_registry_contains_all_packages() {
    let mut names = entries().into_iter().map(|entry| entry.name).collect::<Vec<_>>();
    names.sort_unstable();
    assert_eq!(
        names,
        vec!["bun", "clawhub", "codex", "deno", "gh", "node", "openclaw", "qmd"]
    );
}

#[test]
fn vendor_packages_expose_executables() {
    assert_eq!(get("bun").unwrap().executables, ["bun"]);
    assert_eq!(get("clawhub").unwrap().executables, ["clawhub"]);
    assert_eq!(get("codex").unwrap().executables, ["codex"]);
    assert_eq!(get("deno").unwrap().executables, ["deno"]);
    assert_eq!(get("gh").unwrap().executables, ["gh"]);
    assert_eq!(get("node").unwrap().executables, ["node", "npm", "npx"]);
    assert_eq!(get("openclaw").unwrap().executables, ["openclaw"]);
    assert_eq!(get("qmd").unwrap().executables, ["qmd"]);
}

#[test]
fn vendor_packages_return_semver() {
    assert_eq!(bun::parse_version("bun-v1.2.3").unwrap(), semver("1.2.3"));
    assert_eq!(codex::parse_version("rust-v0.116.0").unwrap(), semver("0.116.0"));
    assert_eq!(gh::parse_version("v2.88.1").unwrap(), semver("2.88.1"));
    assert_eq!(deno::parse_version("v2.7.7").unwrap(), semver("2.7.7"));
    assert_eq!(node::parse_version("v22.18.0").unwrap(), semver("22.18.0"));
}

#[test]
fn vendor_packages_compute_download_urls_in_code() {
    let bun = get("bun").unwrap();
    let codex = get("codex").unwrap();
    let deno = get("deno").unwrap();
    let gh = get("gh").unwrap();
    let node = get("node").unwrap();

    assert_eq!(
        bun.download_url(&semver("1.2.3")).unwrap(),
        "https://github.com/oven-sh/bun/releases/download/bun-v1.2.3/bun-darwin-aarch64.zip"
    );
    assert_eq!(
        codex.download_url(&semver("0.116.0")).unwrap(),
        "https://github.com/openai/codex/releases/download/rust-v0.116.0/codex-aarch64-apple-darwin.tar.gz"
    );
    assert_eq!(
        deno.download_url(&semver("2.7.7")).unwrap(),
        "https://github.com/denoland/deno/releases/download/v2.7.7/deno-aarch64-apple-darwin.zip"
    );
    assert_eq!(
        gh.download_url(&semver("2.88.1")).unwrap(),
        "https://github.com/cli/cli/releases/download/v2.88.1/gh_2.88.1_macOS_arm64.zip"
    );
    assert_eq!(
        node.download_url(&semver("22.18.0")).unwrap(),
        "https://nodejs.org/dist/v22.18.0/node-v22.18.0-darwin-arm64.tar.gz"
    );
}

#[test]
fn vendor_packages_expose_dependencies() {
    assert_eq!(get("codex").unwrap().dependencies, ["ripgrep"]);
    assert_eq!(get("qmd").unwrap().dependencies, ["node", "sqlite"]);
}

#[test]
fn codex_installs_platform_binary_as_codex() {
    let version = semver("0.116.0");
    let strategy = codex::install(&version);
    match strategy {
        InstallStrategy::CopyFile {
            source,
            destination_dir,
            destination_name,
            mode,
            create_dirs,
        } => {
            assert_eq!(source, "codex-aarch64-apple-darwin");
            assert_eq!(destination_dir, "bin");
            assert_eq!(destination_name.as_deref(), Some("codex"));
            assert_eq!(mode, 0o755);
            assert_eq!(create_dirs, vec!["bin".to_string()]);
        }
        _ => panic!("codex should install from a downloaded binary asset"),
    }
}

#[test]
fn bun_installs_platform_binary_from_archive_subdirectory() {
    let version = semver("1.2.3");
    let strategy = bun::install(&version);
    match strategy {
        InstallStrategy::CopyFile {
            source,
            destination_dir,
            destination_name,
            mode,
            create_dirs,
        } => {
            assert_eq!(source, "bun-darwin-aarch64/bun");
            assert_eq!(destination_dir, "bin");
            assert_eq!(destination_name, None);
            assert_eq!(mode, 0o755);
            assert_eq!(create_dirs, vec!["bin".to_string()]);
        }
        _ => panic!("bun should install from the extracted archive directory"),
    }
}

#[test]
fn vendor_lookup_by_tool_and_unknown_names() {
    assert!(get("nope").is_none());
    assert_eq!(substrate::vendor::vendor_package_for_tool("npx").unwrap().name, "node");
    assert!(substrate::vendor::vendor_package_for_tool("rg").is_none());
}

#[test]
fn vendor_fetch_failures_read_as_messages() {
    assert_eq!(
        github_latest_tag("oven-sh/bun", Err(FetchFailure::Status(404))).unwrap_err(),
        "failed to fetch latest release for oven-sh/bun: http 404"
    );
    assert_eq!(
        npm_latest_tag("openclaw", Err(FetchFailure::Transport("timed out".to_string()))).unwrap_err(),
        "failed to fetch npm metadata for openclaw: timed out"
    );
    assert_eq!(github_latest_tag("cli/cli", Ok("v2.88.1".to_string())).unwrap(), "v2.88.1");
}

#[test]
fn vendor_urls_are_percent_encoded() {
    assert_eq!(
        substrate::vendor::npm_package_url("https://registry.npmjs.org", "@tobilu/qmd"),
        "https://registry.npmjs.org/%40tobilu%2Fqmd"
    );
    assert_eq!(
        substrate::vendor::github_release_url("cli/cli", "v1", "a.zip"),
        "https://github.com/cli/cli/releases/download/v1/a.zip"
    );
}

#[test]
fn every_registered_name_and_executable_finds_its_package() {
    for package in substrate::vendor::packages() {
        assert_eq!(get(&package.name).unwrap().name, package.name);
        for tool in &package.executables {
            assert_eq!(substrate::vendor::vendor_package_for_tool(tool).unwrap().name, package.name);
        }
    }
}

#[test]
fn versions_are_found_in_free_text() {
    use_extract();
}

fn use_extract() {
    let found = substrate::version::extract_semver_from_text("ripgrep (v14.1.1) release").unwrap();
    assert_eq!(found.to_text(), "14.1.1");
    let found = substrate::version::extract_semver_from_text("node: v22.18.0, npm 10").unwrap();
    assert_eq!(found.to_text(), "22.18.0");
    assert!(substrate::version::extract_semver_from_text("no version here").is_none());
    assert!(substrate::version::extract_semver_from_text("").is_none());
}
