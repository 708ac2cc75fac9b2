use vstd::prelude::*;

use crate::cli::{index_lookup, FormulaIndex};
use crate::request::{target_display, PackageAliasTarget};
use crate::text::{concat3, decimal, decimal_text, owned, str_eq};

verus! {

// ---------------------------------------------------------------------------
// The embedded Homebrew database and what `install` resolves through it

/// The database schema this build reads.
pub const DB_SCHEMA_VERSION: u64 = 1;

/// The embedded Homebrew database: its schema and its executable index.
#[derive(Clone, Debug)]
pub struct Db {
    pub schema: u64,
    pub entries: FormulaIndex,
}

pub open spec fn schema_message(schema: u64) -> Seq<char> {
    "unsupported db schema "@ + decimal(schema as nat) + " (expected "@ + decimal(DB_SCHEMA_VERSION as nat)
        + ")"@
}

/// Refuses a database written for another schema.
pub fn ensure_db_schema(db: &Db) -> (r: Result<(), String>)
    ensures
        db.schema == DB_SCHEMA_VERSION <==> r is Ok,
        r matches Err(m) ==> m@ == schema_message(db.schema),
{
    if db.schema != DB_SCHEMA_VERSION {
        let mut m = owned("unsupported db schema ");
        let found = decimal_text(db.schema);
        m.append(found.as_str());
        m.append(" (expected ");
        let expected = decimal_text(DB_SCHEMA_VERSION);
        m.append(expected.as_str());
        m.append(")");
        return Err(m);
    }
    Ok(())
}

pub open spec fn ambiguous_install_target_text(package: Seq<char>, formula: Seq<char>) -> Seq<char> {
    "'"@ + package + "' is both a Homebrew formula and an executable of formula '"@ + formula
        + "'; ask for '+"@ + package + "' or '+"@ + formula + "'"@
}

pub open spec fn ambiguous_alias_formula_text(alias: Seq<char>, target: Seq<char>) -> Seq<char> {
    "alias '"@ + alias + "' for '"@ + target + "' is also the name of a Homebrew formula"@
}

pub open spec fn ambiguous_alias_executable_text(alias: Seq<char>, formula: Seq<char>, target: Seq<char>) -> Seq<char> {
    "alias '"@ + alias + "' for '"@ + target + "' is also an executable of Homebrew formula '"@ + formula
        + "'"@
}

/// The error for a name that is a formula and an executable of another formula.
pub fn ambiguous_install_target_message(package: &str, formula: &str) -> (r: String)
    ensures
        r@ == ambiguous_install_target_text(package@, formula@),
{
    let mut m = concat3("'", package, "' is both a Homebrew formula and an executable of formula '");
    m.append(formula);
    m.append("'; ask for '+");
    m.append(package);
    m.append("' or '+");
    m.append(formula);
    m.append("'");
    m
}

/// The error for an alias whose name is also a Homebrew formula.
pub fn ambiguous_alias_formula_message(alias: &str, target: &PackageAliasTarget) -> (r: String)
    ensures
        r@ == ambiguous_alias_formula_text(alias@, target_display(target@)),
{
    let shown = target.display_name();
    let mut m = concat3("alias '", alias, "' for '");
    m.append(shown.as_str());
    m.append("' is also the name of a Homebrew formula");
    m
}

/// The error for an alias whose name is also an executable of a Homebrew formula.
pub fn ambiguous_alias_executable_message(alias: &str, formula: &str, target: &PackageAliasTarget) -> (r: String)
    ensures
        r@ == ambiguous_alias_executable_text(alias@, formula@, target_display(target@)),
{
    let shown = target.display_name();
    let mut m = concat3("alias '", alias, "' for '");
    m.append(shown.as_str());
    m.append("' is also an executable of Homebrew formula '");
    m.append(formula);
    m.append("'");
    m
}

/// What `install` makes of a bare name, given what the existence check of the
/// formula named like it answered (`None` where that check was not needed).
pub open spec fn root_formula_spec(
    package: Seq<char>,
    index: Seq<(Seq<char>, Seq<char>)>,
    exists: Option<Result<bool, Seq<char>>>,
) -> Result<Seq<char>, Seq<char>> {
    match index_lookup(index, package) {
        None => Ok(package),
        Some(formula) => if formula == package {
            Ok(formula)
        } else {
            match exists {
                Some(Err(e)) => Err(e),
                Some(Ok(true)) => Err(ambiguous_install_target_text(package, formula)),
                _ => Ok(formula),
            }
        },
    }
}

/// Whether resolving `package` asks whether a formula of that name exists.
pub open spec fn root_formula_needs_check(package: Seq<char>, index: Seq<(Seq<char>, Seq<char>)>) -> bool {
    index_lookup(index, package) matches Some(formula) && formula != package
}

pub open spec fn check_view(r: Result<bool, String>) -> Result<bool, Seq<char>> {
    match r {
        Ok(b) => Ok(b),
        Err(e) => Err(e@),
    }
}

pub open spec fn text_result(r: Result<String, String>) -> Result<Seq<char>, Seq<char>> {
    match r {
        Ok(t) => Ok(t@),
        Err(e) => Err(e@),
    }
}

/// The Homebrew formula that `install` installs for a bare name: the formula
/// that provides the executable of that name, unless a formula of that very
/// name exists too, which makes the name ambiguous.
pub fn resolve_i_root_formula_with_db<F>(package: &str, db: &Db, formula_exists: F) -> (r: Result<String, String>)
    where
        F: FnOnce(&str) -> Result<bool, String>,
    requires
        root_formula_needs_check(package@, db.entries@) ==> call_requires(formula_exists, (package,)),
    ensures
        !root_formula_needs_check(package@, db.entries@) ==> text_result(r) == root_formula_spec(package@, db.entries@, None),
        root_formula_needs_check(package@, db.entries@) ==> exists|c: Result<bool, String>|
            call_ensures(formula_exists, (package,), c)
                && text_result(r) == #[trigger] root_formula_spec(package@, db.entries@, Some(check_view(c))),
{
    let formula = match db.entries.get(package) {
        None => return Ok(owned(package)),
        Some(f) => f,
    };
    if str_eq(formula.as_str(), package) {
        return Ok(formula);
    }
    let c = formula_exists(package);
    let r = match &c {
        Err(e) => Err(e.clone()),
        Ok(true) => Err(ambiguous_install_target_message(package, formula.as_str())),
        Ok(false) => Ok(formula),
    };
    assert(call_ensures(formula_exists, (package,), c)
        && text_result(r) == root_formula_spec(package@, db.entries@, Some(check_view(c))));
    r
}

/// What checking an alias for `install` gives, with the answer of the existence
/// check of the formula named like the alias (`None` where it was not needed).
pub open spec fn alias_check_spec(
    alias: Seq<char>,
    target: Seq<char>,
    index: Seq<(Seq<char>, Seq<char>)>,
    exists: Option<Result<bool, Seq<char>>>,
) -> Result<(), Seq<char>> {
    match index_lookup(index, alias) {
        Some(formula) => if formula == alias {
            Err(ambiguous_alias_formula_text(alias, target))
        } else {
            Err(ambiguous_alias_executable_text(alias, formula, target))
        },
        None => match exists {
            Some(Err(e)) => Err(e),
            Some(Ok(true)) => Err(ambiguous_alias_formula_text(alias, target)),
            _ => Ok(()),
        },
    }
}

pub open spec fn unit_view(r: Result<(), String>) -> Result<(), Seq<char>> {
    match r {
        Ok(()) => Ok(()),
        Err(e) => Err(e@),
    }
}

/// Refuses an alias for `install` whose name is also a Homebrew formula or an
/// executable of one.
pub fn ensure_alias_install_target_unambiguous_with_db<F>(
    alias: &str,
    target: &PackageAliasTarget,
    db: &Db,
    formula_exists: F,
) -> (r: Result<(), String>)
    where
        F: FnOnce(&str) -> Result<bool, String>,
    requires
        index_lookup(db.entries@, alias@) is None ==> call_requires(formula_exists, (alias,)),
    ensures
        index_lookup(db.entries@, alias@) is Some ==> unit_view(r) == alias_check_spec(
            alias@,
            target_display(target@),
            db.entries@,
            None,
        ),
        index_lookup(db.entries@, alias@) is None ==> exists|c: Result<bool, String>|
            call_ensures(formula_exists, (alias,), c) && unit_view(r) == #[trigger] alias_check_spec(
                alias@,
                target_display(target@),
                db.entries@,
                Some(check_view(c)),
            ),
{
    if let Some(formula) = db.entries.get(alias) {
        if str_eq(formula.as_str(), alias) {
            return Err(ambiguous_alias_formula_message(alias, target));
        }
        return Err(ambiguous_alias_executable_message(alias, formula.as_str(), target));
    }
    let c = formula_exists(alias);
    let r = match &c {
        Err(e) => Err(e.clone()),
        Ok(true) => Err(ambiguous_alias_formula_message(alias, target)),
        Ok(false) => Ok(()),
    };
    assert(call_ensures(formula_exists, (alias,), c) && unit_view(r) == alias_check_spec(
        alias@,
        target_display(target@),
        db.entries@,
        Some(check_view(c)),
    ));
    r
}

} // verus!
