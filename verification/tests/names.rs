use substrate::names::{
    join_path, normalize_pip_package_name, npm_package_display_name, npm_package_executable_name,
    npm_package_install_leaf_name, npm_package_install_relative_path, pip_package_display_name,
    pip_package_install_leaf_name, validate_npm_package_name, validate_pip_package_name,
};
use substrate::cli::FormulaIndex;
use substrate::request::{
    package_install_root, parse_package_alias_target, parse_package_name,
    parse_uninstall_package_name, requested_package_name, AliasTable, PackageAliasTarget,
    RequestedPackage,
};

#[test]
fn npm_names_are_checked() {
    assert!(validate_npm_package_name("openclaw").is_ok());
    assert!(validate_npm_package_name("@tobilu/qmd").is_ok());
    assert_eq!(
        validate_npm_package_name("").unwrap_err(),
        "package qualifier 'npm:' is missing a package name"
    );
    assert_eq!(
        validate_npm_package_name("@scope").unwrap_err(),
        "scoped npm package names must be in the form @scope/name"
    );
    assert_eq!(
        validate_npm_package_name("@a/b/c").unwrap_err(),
        "scoped npm package names must be in the form @scope/name"
    );
    assert_eq!(
        validate_npm_package_name("a/b").unwrap_err(),
        "npm package names must not contain path separators"
    );
}

#[test]
fn npm_install_paths() {
    assert_eq!(npm_package_display_name("openclaw"), "npm:openclaw");
    assert_eq!(npm_package_install_relative_path("@tobilu/qmd"), "@tobilu/qmd");
    assert_eq!(npm_package_install_relative_path("openclaw"), "openclaw");
    assert_eq!(npm_package_install_leaf_name("@tobilu/qmd"), "qmd");
    assert_eq!(npm_package_executable_name("cowsay"), "cowsay");
}

#[test]
fn pip_names_are_checked_and_normalized() {
    assert!(validate_pip_package_name("psycopg2").is_ok());
    assert_eq!(
        validate_pip_package_name("").unwrap_err(),
        "package qualifier 'pip:' is missing a package name"
    );
    assert_eq!(
        validate_pip_package_name("a/b").unwrap_err(),
        "pip package names must not contain path separators"
    );
    assert_eq!(
        validate_pip_package_name("a b").unwrap_err(),
        "pip package names may only contain ASCII letters, numbers, '.', '-' and '_'"
    );
    assert_eq!(normalize_pip_package_name("Foo__Bar.baz"), "foo-bar-baz");
    assert_eq!(normalize_pip_package_name("--X--"), "x");
    assert_eq!(pip_package_display_name("Foo"), "pip:Foo");
    assert_eq!(pip_package_install_leaf_name("Foo_Bar"), "foo-bar");
}

#[test]
fn normalizing_a_pip_name_twice_changes_nothing() {
    for name in ["Foo__Bar.baz", "--X--", "a.-_b", "requests", "_"] {
        let once = normalize_pip_package_name(name);
        assert_eq!(normalize_pip_package_name(&once), once);
    }
}

#[test]
fn paths_join_as_unix_paths() {
    assert_eq!(join_path("/opt", "node"), "/opt/node");
    assert_eq!(join_path("/opt/", "node"), "/opt/node");
    assert_eq!(join_path("/opt", "/abs"), "/abs");
    assert_eq!(join_path("", "x"), "x");
}

#[test]
fn install_roots_by_source() {
    assert_eq!(package_install_root("/opt", "node").unwrap(), "/opt/node");
    assert_eq!(package_install_root("/opt", "npm:@tobilu/qmd").unwrap(), "/opt/npm/@tobilu/qmd");
    assert_eq!(package_install_root("/opt", "pip:Foo_Bar").unwrap(), "/opt/pip/foo-bar");
    assert_eq!(
        package_install_root("/opt", "npm:a/b").unwrap_err(),
        "npm package names must not contain path separators"
    );
}

#[test]
fn package_names_parse_by_qualifier_and_alias() {
    let aliases = AliasTable::from_pairs(vec![("tq".to_string(), "npm:@tobilu/qmd".to_string())]).unwrap();
    assert_eq!(
        parse_package_name(&Some("brew:ripgrep".to_string()), &aliases).unwrap(),
        RequestedPackage::HomebrewFormula("ripgrep".to_string())
    );
    assert_eq!(
        parse_package_name(&Some("node".to_string()), &aliases).unwrap(),
        RequestedPackage::Auto("node".to_string())
    );
    assert_eq!(
        parse_package_name(&Some("qmd".to_string()), &aliases).unwrap(),
        RequestedPackage::Auto("qmd".to_string())
    );
    let aliased = parse_package_name(&Some("tq".to_string()), &aliases).unwrap();
    assert_eq!(
        aliased,
        RequestedPackage::Alias {
            alias: "tq".to_string(),
            target: PackageAliasTarget::NpmPackage("@tobilu/qmd".to_string())
        }
    );
    assert_eq!(requested_package_name(&aliased), "npm:@tobilu/qmd");
    assert_eq!(
        parse_package_name(&Some("brew:".to_string()), &aliases).unwrap_err(),
        "package qualifier 'brew:' is missing a formula name"
    );
    assert_eq!(
        parse_package_name(&Some("a/b".to_string()), &aliases).unwrap_err(),
        "package name must not contain path separators"
    );
    assert_eq!(
        parse_package_name(&None, &aliases).unwrap_err(),
        "package name must be valid UTF-8"
    );
    assert_eq!(
        parse_uninstall_package_name(&Some("tq".to_string()), &aliases).unwrap(),
        "npm:@tobilu/qmd"
    );
}

#[test]
fn alias_targets_read_back_as_their_display_name() {
    for text in ["brew:ripgrep", "npm:@tobilu/qmd", "pip:psycopg2"] {
        let target = parse_package_alias_target(text).unwrap();
        assert_eq!(target.display_name(), text);
        assert_eq!(parse_package_alias_target(&target.display_name()).unwrap(), target);
    }
    assert_eq!(
        parse_package_alias_target("ripgrep").unwrap_err(),
        "alias targets must use a package qualifier"
    );
}

#[test]
fn alias_and_formula_tables_look_up_as_maps() {
    let aliases = AliasTable::from_pairs(vec![
        ("tq".to_string(), "npm:@tobilu/qmd".to_string()),
        ("pg".to_string(), "pip:psycopg2".to_string()),
    ])
    .unwrap();
    assert_eq!(aliases.target_of("tq"), Some(PackageAliasTarget::NpmPackage("@tobilu/qmd".to_string())));
    assert_eq!(aliases.target_of("pg"), Some(PackageAliasTarget::PipPackage("psycopg2".to_string())));
    assert_eq!(aliases.target_of("rg"), None);
    let index = FormulaIndex {
        entries: vec![("rg".to_string(), "ripgrep".to_string()), ("fd".to_string(), "fd".to_string())],
    };
    assert_eq!(index.get("rg"), Some("ripgrep".to_string()));
    assert_eq!(index.get("fd"), Some("fd".to_string()));
    assert_eq!(index.get("bun"), None);
}
