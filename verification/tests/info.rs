use substrate::cli::FormulaIndex;
use substrate::info::{
    npm_found_packages, pip_found_packages, ListedEntry, NpmRootEntry,
    blank_package_info, check_installed_root, explicit_requested_package_source,
    filter_outdated_package_statuses, format_package_info, format_source_field,
    format_version_status, format_version_value, homebrew_aliases_for_formula,
    homebrew_formula_page_url, homebrew_package_info_from_formula_info,
    infer_requested_package_source, list_line, npm_entry_kind, npm_homepage, opt_entry_kind,
    our_aliases_for_source, outdated_line, package_source_qualified_name,
    populate_package_info_metadata, pypi_package_url, pypi_root, receipt_or_missing,
    requested_package_from_status, requested_status_names, resolve_aliases_for_source,
    resolve_installed_package_info, resolve_pip_latest_version, resolve_scanned_package_statuses,
    resolve_uninstalled_package_info, stub_paths, unique_package_refs, FormulaInfo,
    InstalledPackageRef, NpmEntryKind, OptEntryKind, PackageReceipt, PackageReceiptSource,
    PackageStatus, RootState, SourceMetadata,
};
use substrate::request::{AliasTable, RequestedPackage};
use substrate::resolve::{Db, DB_SCHEMA_VERSION};

fn status(name: &str, installed: &str, latest: &str, source: PackageReceiptSource) -> PackageStatus {
    PackageStatus {
        package_name: name.to_string(),
        source,
        installed_version: installed.to_string(),
        latest_version: latest.to_string(),
    }
}

fn formula(name: &str) -> PackageReceiptSource {
    PackageReceiptSource::Formula { root_formula: name.to_string() }
}

fn aliases() -> AliasTable {
    AliasTable::from_pairs(vec![
        ("rg".to_string(), "brew:ripgrep".to_string()),
        ("grep2".to_string(), "brew:ripgrep".to_string()),
        ("qmd".to_string(), "npm:@tobilu/qmd".to_string()),
    ])
    .unwrap()
}

#[test]
fn outdated_filter_keeps_order_and_only_outdated() {
    let statuses = vec![
        status("a", "1", "2", formula("a")),
        status("b", "1", "1", formula("b")),
        status("c", "3", "4", formula("c")),
    ];
    assert!(statuses[0].is_outdated());
    assert!(!statuses[1].is_outdated());
    let outdated = filter_outdated_package_statuses(statuses);
    let names: Vec<&str> = outdated.iter().map(|s| s.package_name.as_str()).collect();
    assert_eq!(names, vec!["a", "c"]);
    assert_eq!(outdated_line(&outdated[0]), "a 1 -> 2");
    assert_eq!(list_line(&outdated[1]), "c 3");
}

#[test]
fn statuses_become_requests() {
    assert_eq!(
        requested_package_from_status(&status("jq", "1", "2", formula("jq"))),
        RequestedPackage::HomebrewFormula("jq".to_string())
    );
    assert_eq!(
        requested_package_from_status(&status("rg", "1", "2", formula("ripgrep"))),
        RequestedPackage::Auto("rg".to_string())
    );
    assert_eq!(
        requested_package_from_status(&status(
            "npm:x",
            "1",
            "2",
            PackageReceiptSource::Npm { package_name: "x".to_string() }
        )),
        RequestedPackage::NpmPackage("x".to_string())
    );
    assert_eq!(
        requested_package_from_status(&status(
            "bun",
            "1",
            "2",
            PackageReceiptSource::Vendor { vendor_name: "bun".to_string() }
        )),
        RequestedPackage::Auto("bun".to_string())
    );
}

#[test]
fn sources_of_requests() {
    assert_eq!(explicit_requested_package_source(&RequestedPackage::Auto("x".to_string())), None);
    assert_eq!(
        explicit_requested_package_source(&RequestedPackage::PipPackage("x".to_string())),
        Some(PackageReceiptSource::Pip { package_name: "x".to_string() })
    );
    let db = Db {
        schema: DB_SCHEMA_VERSION,
        entries: FormulaIndex { entries: vec![("rg".to_string(), "ripgrep".to_string())] },
    };
    assert_eq!(
        infer_requested_package_source(&RequestedPackage::Auto("bun".to_string()), &db, |_| Ok(false)).unwrap(),
        PackageReceiptSource::Vendor { vendor_name: "bun".to_string() }
    );
    assert_eq!(
        infer_requested_package_source(&RequestedPackage::Auto("rg".to_string()), &db, |_| Ok(false)).unwrap(),
        formula("ripgrep")
    );
    assert_eq!(
        package_source_qualified_name(&PackageReceiptSource::Vendor { vendor_name: "bun".to_string() }),
        "subs:bun"
    );
    assert_eq!(package_source_qualified_name(&formula("jq")), "brew:jq");
}

#[test]
fn aliases_of_a_source() {
    let table = aliases();
    assert_eq!(our_aliases_for_source(&formula("ripgrep"), &table), vec!["grep2", "rg"]);
    let index = FormulaIndex {
        entries: vec![
            ("ripgrep-all".to_string(), "ripgrep".to_string()),
            ("rg".to_string(), "ripgrep".to_string()),
            ("jqq".to_string(), "jq".to_string()),
        ],
    };
    assert_eq!(homebrew_aliases_for_formula("ripgrep", &index), vec!["rg", "ripgrep-all"]);
    let (all, err) = resolve_aliases_for_source(&formula("ripgrep"), &table, &Ok(index));
    assert_eq!(all, vec!["grep2", "rg", "ripgrep-all"]);
    assert_eq!(err, None);
    let (ours, err) = resolve_aliases_for_source(&formula("ripgrep"), &table, &Err("no index".to_string()));
    assert_eq!(ours, vec!["grep2", "rg"]);
    assert_eq!(err, Some("no index".to_string()));
}

#[test]
fn scanned_packages_are_sorted_unique_and_skipped_with_warnings() {
    let refs = vec![
        InstalledPackageRef { package_name: "b".to_string(), install_root: "/opt/b".to_string() },
        InstalledPackageRef { package_name: "a".to_string(), install_root: "/opt/a".to_string() },
        InstalledPackageRef { package_name: "b".to_string(), install_root: "/opt/b2".to_string() },
    ];
    let unique = unique_package_refs(refs.clone());
    let roots: Vec<&str> = unique.iter().map(|r| r.install_root.as_str()).collect();
    assert_eq!(roots, vec!["/opt/a", "/opt/b"]);
    let (statuses, warnings) = resolve_scanned_package_statuses(refs, |r: &InstalledPackageRef| {
        if r.package_name == "a" {
            Err("broken".to_string())
        } else {
            Ok(status(&r.package_name, "1", "1", formula(&r.package_name)))
        }
    });
    assert_eq!(statuses.len(), 1);
    assert_eq!(statuses[0].package_name, "b");
    assert_eq!(warnings, vec!["warning: skipping /opt/a: broken"]);
    let names = requested_status_names(&vec![
        RequestedPackage::Auto("z".to_string()),
        RequestedPackage::NpmPackage("x".to_string()),
        RequestedPackage::Auto("z".to_string()),
    ]);
    assert_eq!(names, vec!["npm:x", "z"]);
}

#[test]
fn small_formatting_helpers() {
    assert_eq!(format_source_field(Some(&formula("x"))), "Homebrew");
    assert_eq!(format_source_field(None), "Unknown");
    assert_eq!(homebrew_formula_page_url("jq"), "https://formulae.brew.sh/formula/jq");
    let mut info = blank_package_info("jq".to_string(), "/opt/jq".to_string(), true);
    assert_eq!(format_version_value(&info), "unknown");
    info.latest_version_error = Some("offline".to_string());
    assert_eq!(format_version_status(&info), Some("latest unknown (offline)".to_string()));
    info.installed_version = Some("1.7".to_string());
    info.latest_version = Some("1.8".to_string());
    assert_eq!(format_version_status(&info), Some("update available (1.8)".to_string()));
    info.latest_version = Some("1.7".to_string());
    assert_eq!(format_version_status(&info), Some("✔ up to date".to_string()));
    assert_eq!(stub_paths(&vec!["zz".to_string(), "aa".to_string()]), vec!["/usr/local/bin/aa", "/usr/local/bin/zz"]);
    assert!(receipt_or_missing("jq", None).unwrap_err().contains("is installed but missing package metadata"));
    assert_eq!(
        check_installed_root("jq", "/opt/jq", RootState::Missing).unwrap_err(),
        "package jq is not installed"
    );
    assert_eq!(opt_entry_kind("npm", true), OptEntryKind::NpmRoot);
    assert_eq!(opt_entry_kind(".cache", true), OptEntryKind::Skip);
    assert_eq!(opt_entry_kind("homebrew", true), OptEntryKind::Skip);
    assert_eq!(opt_entry_kind("node", false), OptEntryKind::Skip);
    assert_eq!(opt_entry_kind("node", true), OptEntryKind::Package);
    assert_eq!(npm_entry_kind("@scope", true), NpmEntryKind::Scope);
    assert_eq!(npm_homepage(Some("  https://x.dev  ".to_string())), Some("https://x.dev".to_string()));
    assert_eq!(npm_homepage(Some(" ".to_string())), None);
    assert_eq!(pypi_root(None), "https://pypi.org/pypi");
    assert_eq!(pypi_package_url("https://pypi.org/pypi", "Foo_Bar"), "https://pypi.org/pypi/foo-bar/json");
    assert_eq!(resolve_pip_latest_version("x", String::new()).unwrap_err(), "failed to resolve latest PyPI version for x");
}

#[test]
fn the_info_card_of_an_installed_formula() {
    let requested = RequestedPackage::HomebrewFormula("ripgrep".to_string());
    let receipt = PackageReceipt {
        package_name: "ripgrep".to_string(),
        source: formula("ripgrep"),
        version: "14.1.1".to_string(),
    };
    let mut info = resolve_installed_package_info(
        &requested,
        "ripgrep".to_string(),
        "/opt/ripgrep".to_string(),
        Ok(Some(receipt)),
        Ok(vec!["/usr/local/bin/rg".to_string()]),
        &aliases(),
        &Ok(FormulaIndex { entries: vec![] }),
    );
    let formula_info = FormulaInfo {
        desc: " Search tool like grep and The Silver Searcher ".to_string(),
        homepage: "https://github.com/BurntSushi/ripgrep".to_string(),
        license: Some("Unlicense".to_string()),
        dependencies: vec!["pcre2".to_string()],
    };
    populate_package_info_metadata(&mut info, SourceMetadata::Formula(Ok((formula_info, Ok("14.1.1".to_string())))));
    let card = format_package_info(&info);
    let lines: Vec<&str> = card.lines().collect();
    assert_eq!(lines[0], format!("╭{}╮", "─".repeat(62)));
    assert_eq!(lines[1], "   📦 brew:ripgrep");
    assert_eq!(lines[2], format!("╰{}╯", "─".repeat(62)));
    assert_eq!(lines[3], "");
    assert_eq!(lines[4], "  Version       14.1.1  ✔ up to date");
    assert_eq!(lines[5], "  Installed     /opt/ripgrep");
    assert_eq!(lines[6], "  Source        Homebrew");
    assert_eq!(lines[7], "  Aliases       grep2, rg");
    assert_eq!(lines[8], "");
    assert_eq!(lines[9], "  Description   Search tool like grep and The Silver Searcher");
    assert!(card.contains("  Formula Page  https://formulae.brew.sh/formula/ripgrep"));
    assert!(card.contains("╭─ Dependencies "));
    assert!(card.contains("  pcre2"));
    assert!(card.contains("╭─ Executables "));
    assert!(card.contains("  /usr/local/bin/rg"));
    assert!(!card.ends_with('\n'));
}

#[test]
fn the_info_card_of_a_package_not_installed() {
    let info = resolve_uninstalled_package_info(
        "npm:@tobilu/qmd".to_string(),
        "/opt/npm/@tobilu/qmd".to_string(),
        Ok(PackageReceiptSource::Npm { package_name: "@tobilu/qmd".to_string() }),
        &aliases(),
        &Err("unused".to_string()),
    );
    assert_eq!(info.qualified_name, "npm:@tobilu/qmd");
    assert_eq!(info.aliases, vec!["qmd"]);
    assert_eq!(info.aliases_error, None);
    let mut info = info;
    populate_package_info_metadata(
        &mut info,
        SourceMetadata::Npm { latest: Ok("1.0.0".to_string()), homepage: Err("offline".to_string()) },
    );
    let card = format_package_info(&info);
    assert!(card.contains("  Version       1.0.0"));
    assert!(card.contains("  Installed     no"));
    assert!(card.contains("  Source        npm"));
    assert!(card.contains("  Homepage      unavailable (offline)"));
    assert!(!card.contains("Executables"));
    let unknown = resolve_uninstalled_package_info(
        "zzz".to_string(),
        "/opt/zzz".to_string(),
        Err("no formula".to_string()),
        &aliases(),
        &Ok(FormulaIndex { entries: vec![] }),
    );
    assert_eq!(unknown.qualified_name, "zzz");
    assert_eq!(unknown.source_error, Some("no formula".to_string()));
    let _ = homebrew_package_info_from_formula_info(
        "x",
        &FormulaInfo { desc: String::new(), homepage: String::new(), license: None, dependencies: vec![] },
    );
}

fn listed(name: &str, is_dir: bool) -> ListedEntry {
    ListedEntry { name: name.to_string(), path: format!("/opt/x/{name}"), is_dir }
}

fn found(packages: Vec<InstalledPackageRef>) -> Vec<(String, String)> {
    packages.into_iter().map(|p| (p.package_name, p.install_root)).collect()
}

#[test]
fn packages_found_under_the_npm_and_pip_roots() {
    let npm = vec![
        NpmRootEntry { entry: listed(".cache", true), scoped: Vec::new() },
        NpmRootEntry { entry: listed("openclaw", true), scoped: Vec::new() },
        NpmRootEntry { entry: listed("notes.txt", false), scoped: Vec::new() },
        NpmRootEntry {
            entry: listed("@tobilu", true),
            scoped: vec![listed("qmd", true), listed(".tmp", true), listed("file", false)],
        },
    ];
    assert_eq!(
        found(npm_found_packages(&npm)),
        vec![
            ("npm:openclaw".to_string(), "/opt/x/openclaw".to_string()),
            ("npm:@tobilu/qmd".to_string(), "/opt/x/qmd".to_string()),
        ]
    );
    let pip = vec![listed("httpie", true), listed(".venv", true), listed("x.whl", false)];
    assert_eq!(found(pip_found_packages(&pip)), vec![("pip:httpie".to_string(), "/opt/x/httpie".to_string())]);
    assert!(npm_found_packages(&Vec::new()).is_empty());
}
