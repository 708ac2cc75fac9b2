use substrate::cli::FormulaIndex;
use substrate::request::PackageAliasTarget;
use substrate::resolve::{
    ensure_alias_install_target_unambiguous_with_db, ensure_db_schema,
    resolve_i_root_formula_with_db, Db, DB_SCHEMA_VERSION,
};

fn db() -> Db {
    Db {
        schema: DB_SCHEMA_VERSION,
        entries: FormulaIndex {
            entries: vec![
                ("rg".to_string(), "ripgrep".to_string()),
                ("python3".to_string(), "python@3.13".to_string()),
                ("jq".to_string(), "jq".to_string()),
            ],
        },
    }
}

#[test]
fn root_formula_resolution() {
    let db = db();
    assert_eq!(resolve_i_root_formula_with_db("wget", &db, |_| panic!("not asked")).unwrap(), "wget");
    assert_eq!(resolve_i_root_formula_with_db("jq", &db, |_| panic!("not asked")).unwrap(), "jq");
    assert_eq!(resolve_i_root_formula_with_db("rg", &db, |_| Ok(false)).unwrap(), "ripgrep");
    assert_eq!(
        resolve_i_root_formula_with_db("rg", &db, |_| Ok(true)).unwrap_err(),
        "'rg' is both a Homebrew formula and an executable of formula 'ripgrep'; ask for '+rg' or '+ripgrep'"
    );
    assert_eq!(
        resolve_i_root_formula_with_db("rg", &db, |_| Err("offline".to_string())).unwrap_err(),
        "offline"
    );
}

#[test]
fn alias_install_targets_must_be_unambiguous() {
    let db = db();
    let target = PackageAliasTarget::NpmPackage("@tobilu/qmd".to_string());
    assert!(ensure_alias_install_target_unambiguous_with_db("qmd", &target, &db, |_| Ok(false)).is_ok());
    assert_eq!(
        ensure_alias_install_target_unambiguous_with_db("qmd", &target, &db, |_| Ok(true)).unwrap_err(),
        "alias 'qmd' for 'npm:@tobilu/qmd' is also the name of a Homebrew formula"
    );
    assert_eq!(
        ensure_alias_install_target_unambiguous_with_db("jq", &target, &db, |_| Ok(false)).unwrap_err(),
        "alias 'jq' for 'npm:@tobilu/qmd' is also the name of a Homebrew formula"
    );
    assert_eq!(
        ensure_alias_install_target_unambiguous_with_db("rg", &target, &db, |_| Ok(false)).unwrap_err(),
        "alias 'rg' for 'npm:@tobilu/qmd' is also an executable of Homebrew formula 'ripgrep'"
    );
}

#[test]
fn db_schema_is_checked() {
    assert!(ensure_db_schema(&db()).is_ok());
    let mut other = db();
    other.schema = 7;
    assert_eq!(
        ensure_db_schema(&other).unwrap_err(),
        format!("unsupported db schema 7 (expected {})", DB_SCHEMA_VERSION)
    );
}
