use vstd::prelude::*;

use crate::request::{
    arg_view, parse_package_name, parse_package_spec, parse_uninstall_package_name,
    keys_distinct, uninstall_name_spec, AliasTable, RequestedPackage, RequestedView, TargetView,
};
use crate::text::{
    after_last, after_prefix, before_last, concat2, concat3, contains_char, has_prefix, owned,
    rsplit_once, str_eq, strip_prefix,
};

verus! {

/// The name the package manager reports itself under.
pub const PKG_DISPLAY_NAME: &'static str = "substrate";

/// The version the package manager reports (the package version in
/// Cargo.toml).
pub const PKG_VERSION: &'static str = "0.1.0";

/// Where packages are installed.
pub const OPT_PKG_ROOT: &'static str = "/opt";

/// Where the stubs of installed executables are written.
pub const USR_LOCAL_BIN: &'static str = "/usr/local/bin";

/// The `update` flag that skips updating substrate itself.
pub const SELF_UPDATE_DISABLE_FLAG: &'static str = "--no-self-update";

// ---------------------------------------------------------------------------
// Flags and subcommand names

/// The view of every argument (`None` for one that is not UTF-8).
pub open spec fn args_view(args: Seq<Option<String>>) -> Seq<Option<Seq<char>>> {
    args.map_values(|a: Option<String>| arg_view(a))
}

/// An argument equal to `text`.
pub open spec fn arg_is(a: Option<Seq<char>>, text: Seq<char>) -> bool {
    a == Some(text)
}

pub open spec fn is_help_arg(a: Option<Seq<char>>) -> bool {
    arg_is(a, "-h"@) || arg_is(a, "--help"@)
}

pub open spec fn is_version_arg(a: Option<Seq<char>>) -> bool {
    arg_is(a, "-V"@) || arg_is(a, "--version"@)
}

pub open spec fn is_force_arg(a: Option<Seq<char>>) -> bool {
    arg_is(a, "-f"@) || arg_is(a, "--force"@)
}

pub open spec fn is_shebang_arg(a: Option<Seq<char>>) -> bool {
    arg_is(a, "-!"@) || arg_is(a, "--shebang"@)
}

pub open spec fn is_no_self_update_arg(a: Option<Seq<char>>) -> bool {
    arg_is(a, SELF_UPDATE_DISABLE_FLAG@)
}

/// Whether an argument is exactly `text`.
fn arg_equals(value: &Option<String>, text: &str) -> (r: bool)
    ensures
        r == arg_is(arg_view(*value), text@),
{
    match value {
        Some(s) => str_eq(s.as_str(), text),
        None => false,
    }
}

/// `-h` or `--help`.
pub fn is_help_flag(value: &Option<String>) -> (r: bool)
    ensures
        r == is_help_arg(arg_view(*value)),
{
    arg_equals(value, "-h") || arg_equals(value, "--help")
}

/// `-V` or `--version`.
pub fn is_version_flag(value: &Option<String>) -> (r: bool)
    ensures
        r == is_version_arg(arg_view(*value)),
{
    arg_equals(value, "-V") || arg_equals(value, "--version")
}

/// `-f` or `--force`.
pub fn is_force_flag(value: &Option<String>) -> (r: bool)
    ensures
        r == is_force_arg(arg_view(*value)),
{
    arg_equals(value, "-f") || arg_equals(value, "--force")
}

/// `-!` or `--shebang`.
pub fn is_shebang_flag(value: &Option<String>) -> (r: bool)
    ensures
        r == is_shebang_arg(arg_view(*value)),
{
    arg_equals(value, "-!") || arg_equals(value, "--shebang")
}

/// The flag that turns off updating substrate itself.
pub fn is_no_self_update_flag(value: &Option<String>) -> (r: bool)
    ensures
        r == is_no_self_update_arg(arg_view(*value)),
{
    arg_equals(value, SELF_UPDATE_DISABLE_FLAG)
}

pub open spec fn is_uninstall_name(v: Seq<char>) -> bool {
    v == "uninstall"@ || v == "rm"@
}

pub open spec fn is_outdated_name(v: Seq<char>) -> bool {
    v == "outdated"@
}

pub open spec fn is_update_name(v: Seq<char>) -> bool {
    v == "update"@ || v == "up"@
}

pub open spec fn is_list_name(v: Seq<char>) -> bool {
    v == "list"@ || v == "ls"@
}

pub open spec fn is_info_name(v: Seq<char>) -> bool {
    v == "info"@
}

/// `uninstall` or `rm`.
pub fn is_uninstall_subcommand(value: &str) -> (r: bool)
    ensures
        r == is_uninstall_name(value@),
{
    str_eq(value, "uninstall") || str_eq(value, "rm")
}

/// `outdated`.
pub fn is_outdated_subcommand(value: &str) -> (r: bool)
    ensures
        r == is_outdated_name(value@),
{
    str_eq(value, "outdated")
}

/// `update` or `up`.
pub fn is_update_subcommand(value: &str) -> (r: bool)
    ensures
        r == is_update_name(value@),
{
    str_eq(value, "update") || str_eq(value, "up")
}

/// `list` or `ls`.
pub fn is_list_subcommand(value: &str) -> (r: bool)
    ensures
        r == is_list_name(value@),
{
    str_eq(value, "list") || str_eq(value, "ls")
}

/// `info`.
pub fn is_info_subcommand(value: &str) -> (r: bool)
    ensures
        r == is_info_name(value@),
{
    str_eq(value, "info")
}

// ---------------------------------------------------------------------------
// Modes and invocations

/// The two modes substrate can be run in: running an executable ephemerally or
/// installing packages.
#[derive(Clone, Copy, Debug, PartialEq, Eq)]
pub enum Mode {
    X,
    I,
}

/// The mode a (sub)command name selects.
pub open spec fn mode_of_name(name: Seq<char>) -> Option<Mode> {
    if name == "x"@ || name == "run"@ || name == "use"@ {
        Some(Mode::X)
    } else if name == "i"@ || name == "install"@ {
        Some(Mode::I)
    } else {
        None
    }
}

/// The canonical name of a mode.
pub open spec fn mode_name(mode: Mode) -> Seq<char> {
    match mode {
        Mode::X => "run"@,
        Mode::I => "install"@,
    }
}

impl Mode {
    /// The mode `x`, `run` or `use` (run) or `i`, `install` (install) select.
    pub fn from_name(name: &str) -> (r: Option<Mode>)
        ensures
            r == mode_of_name(name@),
    {
        if str_eq(name, "x") || str_eq(name, "run") || str_eq(name, "use") {
            Some(Mode::X)
        } else if str_eq(name, "i") || str_eq(name, "install") {
            Some(Mode::I)
        } else {
            None
        }
    }

    /// `run` or `install`.
    pub fn canonical_name(self) -> (r: &'static str)
        ensures
            r@ == mode_name(self),
    {
        match self {
            Mode::X => "run",
            Mode::I => "install",
        }
    }
}

/// The canonical name of a mode selects that mode.
pub proof fn law_mode_canonical_name_round_trip(mode: Mode)
    ensures
        mode_of_name(mode_name(mode)) == Some(mode),
{
    reveal_strlit("run");
    reveal_strlit("install");
    reveal_strlit("x");
    reveal_strlit("use");
    reveal_strlit("i");
    assert("install"@.len() != "x"@.len());
    assert("install"@.len() != "run"@.len());
    assert("install"@.len() != "use"@.len());
}

/// How the program was invoked: the binary's name, the name to report in
/// messages, and the mode, when the binary name or subcommand selects one.
#[derive(Clone, Debug)]
pub struct Invocation {
    pub binary_name: String,
    pub name: String,
    pub mode: Option<Mode>,
}

/// A path component, once read, counts unless it is empty (repeated or
/// trailing separators) or `.`.
pub open spec fn counted_component(cur: Seq<u8>, last: Option<Seq<u8>>) -> Option<Seq<u8>> {
    if cur.len() > 0 && cur != seq![46u8] {
        Some(cur)
    } else {
        last
    }
}

/// The last counted component of `p`, reading on from the partial component
/// `cur` after the components whose last counted one is `last`.
pub open spec fn last_component_from(p: Seq<u8>, cur: Seq<u8>, last: Option<Seq<u8>>) -> Option<Seq<u8>>
    decreases p.len(),
{
    if p.len() == 0 {
        counted_component(cur, last)
    } else if p[0] == 47u8 {
        last_component_from(p.drop_first(), Seq::empty(), counted_component(cur, last))
    } else {
        last_component_from(p.drop_first(), cur.push(p[0]), last)
    }
}

/// The file name of a Unix path (`Path::file_name`): its last component, once
/// repeated separators, trailing separators and `.` components are set aside;
/// none when there is no such component or it is `..`.
pub open spec fn path_file_name(p: Seq<u8>) -> Option<Seq<u8>> {
    match last_component_from(p, Seq::empty(), None) {
        Some(c) => if c == seq![46u8, 46u8] {
            None
        } else {
            Some(c)
        },
        None => None,
    }
}

/// The text of some bytes, where they are UTF-8 (`std::str::from_utf8`).
/// Trusted: std documents that the bytes are accepted exactly when they are
/// valid UTF-8, and then the text is the characters they encode.
#[verifier::external_body]
fn utf8_text(bytes: &[u8]) -> (r: Option<String>)
    ensures
        r is Some <==> vstd::utf8::valid_utf8(bytes@),
        r matches Some(t) ==> t@ == vstd::utf8::decode_utf8(bytes@),
{
    std::str::from_utf8(bytes).ok().map(|t| t.to_string())
}

/// The file name of the path whose bytes are `path`.
pub fn file_name_of(path: &Vec<u8>) -> (r: Option<Vec<u8>>)
    ensures
        match path_file_name(path@) {
            Some(n) => r matches Some(x) && x@ == n,
            None => r is None,
        },
{
    let mut cur: Vec<u8> = Vec::new();
    let mut last: Option<Vec<u8>> = None;
    let mut i: usize = 0;
    assert(path@.skip(0) =~= path@);
    while i < path.len()
        invariant
            i <= path@.len(),
            last_component_from(path@.skip(i as int), cur@, match last {
                Some(l) => Some(l@),
                None => None,
            }) == last_component_from(path@, Seq::empty(), None),
        decreases path.len() - i,
    {
        let ghost rest = path@.skip(i as int);
        assert(rest[0] == path@[i as int]);
        assert(rest.drop_first() =~= path@.skip(i + 1));
        let b = path[i];
        if b == 47u8 {
            if cur.len() > 0 && !(cur.len() == 1 && cur[0] == 46u8) {
                assert(cur@ != seq![46u8]);
                last = Some(cur);
            } else {
                assert(cur@.len() == 1 ==> cur@ =~= seq![46u8]);
            }
            cur = Vec::new();
            assert(cur@ =~= Seq::<u8>::empty());
        } else {
            cur.push(b);
        }
        i = i + 1;
    }
    assert(path@.skip(path@.len() as int) =~= Seq::<u8>::empty());
    if cur.len() > 0 && !(cur.len() == 1 && cur[0] == 46u8) {
        assert(cur@ != seq![46u8]);
        last = Some(cur);
    } else {
        assert(cur@.len() == 1 ==> cur@ =~= seq![46u8]);
    }
    match last {
        Some(c) => {
            if c.len() == 2 && c[0] == 46u8 && c[1] == 46u8 {
                assert(c@ =~= seq![46u8, 46u8]);
                None
            } else {
                assert(c@ != seq![46u8, 46u8]);
                Some(c)
            }
        },
        None => None,
    }
}

/// The binary name of a program path: its file name where that is UTF-8, or `subs`.
pub open spec fn program_binary_name(program: Seq<u8>) -> Seq<char> {
    match path_file_name(program) {
        Some(n) => if vstd::utf8::valid_utf8(n) {
            vstd::utf8::decode_utf8(n)
        } else {
            "subs"@
        },
        None => "subs"@,
    }
}

impl Invocation {
    /// The invocation of the program at the path whose bytes are `program`.
    pub fn from_program(program: &Vec<u8>) -> (r: Invocation)
        ensures
            r.binary_name@ == program_binary_name(program@),
            r.name@ == r.binary_name@,
            r.mode == mode_of_name(r.binary_name@),
    {
        let binary_name = match file_name_of(program) {
            Some(n) => match utf8_text(n.as_slice()) {
                Some(t) => t,
                None => owned("subs"),
            },
            None => owned("subs"),
        };
        let mode = Mode::from_name(binary_name.as_str());
        Invocation { binary_name: binary_name.clone(), name: binary_name, mode }
    }

    /// The invocation of a subcommand: reported as `{binary_name} {subcommand}`.
    pub fn for_subcommand(binary_name: &str, subcommand: &str, mode: Mode) -> (r: Invocation)
        ensures
            r.binary_name@ == binary_name@,
            r.name@ == binary_name@ + " "@ + subcommand@,
            r.mode == Some(mode),
    {
        Invocation { binary_name: owned(binary_name), name: concat3(binary_name, " ", subcommand), mode: Some(mode) }
    }
}

// ---------------------------------------------------------------------------
// Formula specs and tool tokens

pub open spec fn formula_missing_message() -> Seq<char> {
    "package spec '+' is missing a formula name"@
}

/// What `parse_formula_spec` makes of an argument: a `+formula` names a formula.
pub open spec fn formula_spec_of(a: Option<Seq<char>>) -> Result<Option<Seq<char>>, Seq<char>> {
    match a {
        None => Ok(None),
        Some(v) => if !has_prefix(v, "+"@) {
            Ok(None)
        } else {
            let f = after_prefix(v, "+"@);
            if f.len() == 0 {
                Err(formula_missing_message())
            } else if f.contains('/') {
                Err("package spec '+"@ + f + "' must not contain path separators"@)
            } else {
                Ok(Some(f))
            }
        },
    }
}

/// The plain view of an optional text result.
pub open spec fn opt_text_result_view(r: Result<Option<String>, String>) -> Result<Option<Seq<char>>, Seq<char>> {
    match r {
        Ok(o) => Ok(arg_view(o)),
        Err(m) => Err(m@),
    }
}

/// Reads a `+formula` argument.
pub fn parse_formula_spec(value: &Option<String>) -> (r: Result<Option<String>, String>)
    ensures
        opt_text_result_view(r) == formula_spec_of(arg_view(*value)),
{
    let value = match value {
        Some(v) => v,
        None => return Ok(None),
    };
    let formula = match strip_prefix(value.as_str(), "+") {
        Some(f) => f,
        None => return Ok(None),
    };
    if formula.as_str().unicode_len() == 0 {
        return Err(owned("package spec '+' is missing a formula name"));
    }
    if contains_char(formula.as_str(), '/') {
        let mut msg = concat2("package spec '+", formula.as_str());
        msg.append("' must not contain path separators");
        return Err(msg);
    }
    Ok(Some(formula))
}

/// Whether `s` holds an ASCII digit.
pub open spec fn has_ascii_digit(s: Seq<char>) -> bool {
    exists|i: int| 0 <= i < s.len() && '0' <= #[trigger] s[i] <= '9'
}

/// A `tool@version` token: the tool and the whole token as the formula to run.
pub open spec fn versioned_tool_of(token: Seq<char>) -> Option<(Seq<char>, Seq<char>)> {
    let base = before_last(token, '@');
    let version = after_last(token, '@');
    if token.contains('@') && base.len() > 0 && version.len() > 0 && has_ascii_digit(version) {
        Some((base, token))
    } else {
        None
    }
}

/// Splits `tool@version` (the version holding a digit) into the tool and the
/// formula `tool@version`.
pub fn split_versioned_tool_token(token: &str) -> (r: Option<(String, String)>)
    ensures
        match versioned_tool_of(token@) {
            Some(p) => r matches Some(x) && x.0@ == p.0 && x.1@ == p.1,
            None => r is None,
        },
{
    let (base, version) = match rsplit_once(token, '@') {
        Some(parts) => parts,
        None => return None,
    };
    let v = crate::text::chars_of(version.as_str());
    if base.as_str().unicode_len() == 0 || v.len() == 0 {
        return None;
    }
    let mut i: usize = 0;
    let mut digit = false;
    while i < v.len()
        invariant
            i <= v@.len(),
            digit == exists|j: int| 0 <= j < i && '0' <= #[trigger] v@[j] <= '9',
        decreases v.len() - i,
    {
        if '0' <= v[i] && v[i] <= '9' {
            digit = true;
        }
        i = i + 1;
    }
    if !digit {
        return None;
    }
    Some((base, owned(token)))
}

/// The fuller variant recommended over a formula, if there is one.
pub open spec fn full_formula_of(formula: Seq<char>) -> Option<Seq<char>> {
    if formula == "ffmpeg"@ {
        Some("ffmpeg-full"@)
    } else if formula == "imagemagick"@ {
        Some("imagemagick-full"@)
    } else {
        None
    }
}

/// `ffmpeg-full` for `ffmpeg`, `imagemagick-full` for `imagemagick`.
pub fn recommended_full_formula(formula: &str) -> (r: Option<&'static str>)
    ensures
        match full_formula_of(formula@) {
            Some(f) => r matches Some(x) && x@ == f,
            None => r is None,
        },
{
    if str_eq(formula, "ffmpeg") {
        Some("ffmpeg-full")
    } else if str_eq(formula, "imagemagick") {
        Some("imagemagick-full")
    } else {
        None
    }
}

/// The formula that is run for a requested one: its full variant where there is one.
pub open spec fn preferred_formula(formula: Seq<char>) -> Seq<char> {
    match full_formula_of(formula) {
        Some(f) => f,
        None => formula,
    }
}

/// The formula that is run for `formula`.
pub fn preferred_run_formula(formula: String) -> (r: String)
    ensures
        r@ == preferred_formula(formula@),
{
    match recommended_full_formula(formula.as_str()) {
        Some(f) => owned(f),
        None => formula,
    }
}

/// The note printed when a formula with a fuller variant is requested.
pub open spec fn full_formula_note(formula: Seq<char>) -> Option<Seq<char>> {
    match full_formula_of(formula) {
        Some(f) => Some("info: requested `"@ + formula + "`; `brew:"@ + f + "` is recommended instead"@),
        None => None,
    }
}

/// The note that recommends the fuller variant of `formula`, if it has one.
pub fn full_formula_recommendation(formula: &str) -> (r: Option<String>)
    ensures
        arg_view(r) == full_formula_note(formula@),
{
    match recommended_full_formula(formula) {
        None => None,
        Some(recommended) => {
            let mut msg = concat3("info: requested `", formula, "`; `");
            msg.append(crate::request::BREW_PACKAGE_PREFIX);
            msg.append(recommended);
            msg.append("` is recommended instead");
            proof {
                reveal_strlit("brew:");
                assert(("info: requested `"@ + formula@ + "`; `"@ + "brew:"@ + recommended@
                    + "` is recommended instead"@) =~= ("info: requested `"@ + formula@ + "`; `brew:"@
                    + recommended@ + "` is recommended instead"@)) by {
                    reveal_strlit("`; `");
                    reveal_strlit("`; `brew:");
                }
            }
            Some(msg)
        },
    }
}


// ---------------------------------------------------------------------------
// Usage texts

/// The usage text a topic prints.
#[derive(Clone, Copy, Debug, PartialEq, Eq)]
pub enum UsageTopic {
    Pkg,
    X,
    I,
    Uninstall,
    Outdated,
    Update,
    List,
    Info,
}

/// What follows `Usage: {program}` in the usage text of a topic.
pub open spec fn usage_tail(topic: UsageTopic) -> Seq<char> {
    match topic {
        UsageTopic::Pkg => " <subcommand> [args...]\n\nSubcommands:\n  run, x         Run Homebrew executables ephemerally.\n  install, i     Install a self-contained package.\n  info           Show package metadata and status.\n  list, ls       List installed packages with their versions.\n  outdated       List installed packages with updates available.\n  update, up     Reinstall installed packages with updates available.\n  uninstall, rm  Remove an installed package.\n"@,
        UsageTopic::X => " [-! | --shebang] [+formula] <executable> [args...]\n\nRuns Homebrew executables ephemerally from a fresh temp dir.\n"@,
        UsageTopic::I => " [-f | --force] <package|brew:formula|npm:package|pip:package>...\n\nInstalls self-contained packages under "@ + OPT_PKG_ROOT@ + ".\n"@,
        UsageTopic::Uninstall => " <package|brew:formula|npm:package|pip:package>...\n\nRemoves installed packages from "@ + OPT_PKG_ROOT@ + ".\n"@,
        UsageTopic::Outdated => " [package|brew:formula|npm:package|pip:package]...\n\nLists installed packages with newer versions available.\n"@,
        UsageTopic::Update => " [package|brew:formula|npm:package|pip:package]...\n\nReinstalls installed packages with newer versions available.\n"@,
        UsageTopic::List => " [package|brew:formula|npm:package|pip:package]...\n\nLists installed packages with their versions.\n"@,
        UsageTopic::Info => " <package|brew:formula|npm:package|pip:package>\n\nShows package metadata, install status, and update status.\n"@,
    }
}

/// The usage text of a topic for the program name `program`.
pub fn usage_text(topic: UsageTopic, program: &str) -> (r: String)
    ensures
        r@ == "Usage: "@ + program@ + usage_tail(topic),
{
    let mut r = concat2("Usage: ", program);
    match topic {
        UsageTopic::Pkg => r.append(" <subcommand> [args...]\n\nSubcommands:\n  run, x         Run Homebrew executables ephemerally.\n  install, i     Install a self-contained package.\n  info           Show package metadata and status.\n  list, ls       List installed packages with their versions.\n  outdated       List installed packages with updates available.\n  update, up     Reinstall installed packages with updates available.\n  uninstall, rm  Remove an installed package.\n"),
        UsageTopic::X => r.append(" [-! | --shebang] [+formula] <executable> [args...]\n\nRuns Homebrew executables ephemerally from a fresh temp dir.\n"),
        UsageTopic::I => {
            r.append(" [-f | --force] <package|brew:formula|npm:package|pip:package>...\n\nInstalls self-contained packages under ");
            r.append(OPT_PKG_ROOT);
            r.append(".\n");
        },
        UsageTopic::Uninstall => {
            r.append(" <package|brew:formula|npm:package|pip:package>...\n\nRemoves installed packages from ");
            r.append(OPT_PKG_ROOT);
            r.append(".\n");
        },
        UsageTopic::Outdated => r.append(" [package|brew:formula|npm:package|pip:package]...\n\nLists installed packages with newer versions available.\n"),
        UsageTopic::Update => r.append(" [package|brew:formula|npm:package|pip:package]...\n\nReinstalls installed packages with newer versions available.\n"),
        UsageTopic::List => r.append(" [package|brew:formula|npm:package|pip:package]...\n\nLists installed packages with their versions.\n"),
        UsageTopic::Info => r.append(" <package|brew:formula|npm:package|pip:package>\n\nShows package metadata, install status, and update status.\n"),
    }
    r
}

/// The usage topic of a mode.
pub open spec fn mode_topic(mode: Mode) -> UsageTopic {
    match mode {
        Mode::X => UsageTopic::X,
        Mode::I => UsageTopic::I,
    }
}

/// The usage text of a mode.
pub fn mode_usage(mode: Mode, program: &str) -> (r: String)
    ensures
        r@ == "Usage: "@ + program@ + usage_tail(mode_topic(mode)),
{
    match mode {
        Mode::X => usage_text(UsageTopic::X, program),
        Mode::I => usage_text(UsageTopic::I, program),
    }
}

/// The line that `--version` prints: the name and the package version.
pub fn version_line(name: &str, version: &str) -> (r: String)
    ensures
        r@ == name@ + " "@ + version@,
{
    concat3(name, " ", version)
}

// ---------------------------------------------------------------------------
// The top-level dispatch

/// The subcommands that take over the remaining arguments.
#[derive(Clone, Copy, Debug, PartialEq, Eq)]
pub enum Subcommand {
    Uninstall,
    Outdated,
    Update,
    List,
    Info,
    Mode(Mode),
}

/// What the top-level command line asks for.
#[derive(Debug)]
pub enum PkgAction {
    /// Print the usage of `topic` for `program`; fail with `error` when there is one.
    Usage { topic: UsageTopic, program: String, error: Option<String> },
    /// Print the package manager's name and version.
    Version,
    /// Fail with `message`.
    Fail { message: String },
    /// Run `command` as `invocation` on the arguments from index `args_from` on.
    Run { command: Subcommand, invocation: Invocation, args_from: usize },
}

/// A top-level action as plain values.
pub enum PkgActionView {
    Usage { topic: UsageTopic, program: Seq<char>, error: Option<Seq<char>> },
    Version,
    Fail { message: Seq<char> },
    Run { command: Subcommand, binary_name: Seq<char>, name: Seq<char>, mode: Option<Mode>, args_from: nat },
}

impl View for PkgAction {
    type V = PkgActionView;

    open spec fn view(&self) -> PkgActionView {
        match self {
            PkgAction::Usage { topic, program, error } => PkgActionView::Usage { topic: *topic, program: program@, error: arg_view(*error) },
            PkgAction::Version => PkgActionView::Version,
            PkgAction::Fail { message } => PkgActionView::Fail { message: message@ },
            PkgAction::Run { command, invocation, args_from } => PkgActionView::Run {
                command: *command,
                binary_name: invocation.binary_name@,
                name: invocation.name@,
                mode: invocation.mode,
                args_from: *args_from as nat,
            },
        }
    }
}

/// The named subcommand that is not a mode, if `sub` names one.
pub open spec fn plain_subcommand_of(sub: Seq<char>) -> Option<Subcommand> {
    if is_uninstall_name(sub) {
        Some(Subcommand::Uninstall)
    } else if is_outdated_name(sub) {
        Some(Subcommand::Outdated)
    } else if is_update_name(sub) {
        Some(Subcommand::Update)
    } else if is_list_name(sub) {
        Some(Subcommand::List)
    } else if is_info_name(sub) {
        Some(Subcommand::Info)
    } else {
        None
    }
}

/// The usage topic of a named subcommand.
pub open spec fn subcommand_topic(c: Subcommand) -> UsageTopic {
    match c {
        Subcommand::Uninstall => UsageTopic::Uninstall,
        Subcommand::Outdated => UsageTopic::Outdated,
        Subcommand::Update => UsageTopic::Update,
        Subcommand::List => UsageTopic::List,
        Subcommand::Info => UsageTopic::Info,
        Subcommand::Mode(m) => mode_topic(m),
    }
}

/// What `help {topic}` prints.
pub open spec fn help_topic_action(binary: Seq<char>, name: Seq<char>, topic: Option<Option<Seq<char>>>) -> PkgActionView {
    match topic {
        Some(Some(t)) => match plain_subcommand_of(t) {
            Some(c) => PkgActionView::Usage { topic: subcommand_topic(c), program: binary + " "@ + t, error: None },
            None => match mode_of_name(t) {
                Some(m) => PkgActionView::Usage { topic: mode_topic(m), program: binary + " "@ + mode_name(m), error: None },
                None => PkgActionView::Usage { topic: UsageTopic::Pkg, program: name, error: None },
            },
        },
        _ => PkgActionView::Usage { topic: UsageTopic::Pkg, program: name, error: None },
    }
}

/// What the top-level command line `args` of the invocation `binary`/`name` asks for.
pub open spec fn dispatch_spec(binary: Seq<char>, name: Seq<char>, args: Seq<Option<Seq<char>>>) -> PkgActionView {
    if args.len() == 0 {
        PkgActionView::Usage { topic: UsageTopic::Pkg, program: name, error: Some("missing subcommand"@) }
    } else if is_help_arg(args[0]) {
        PkgActionView::Usage { topic: UsageTopic::Pkg, program: name, error: None }
    } else if is_version_arg(args[0]) {
        PkgActionView::Version
    } else if arg_is(args[0], "help"@) {
        help_topic_action(binary, name, if args.len() > 1 { Some(args[1]) } else { None })
    } else {
        match args[0] {
            None => PkgActionView::Fail { message: "subcommand must be valid UTF-8"@ },
            Some(sub) => match plain_subcommand_of(sub) {
                Some(c) => PkgActionView::Run { command: c, binary_name: binary, name: binary + " "@ + sub, mode: None, args_from: 1 },
                None => match mode_of_name(sub) {
                    Some(m) => PkgActionView::Run { command: Subcommand::Mode(m), binary_name: binary, name: binary + " "@ + sub, mode: Some(m), args_from: 1 },
                    None => PkgActionView::Usage { topic: UsageTopic::Pkg, program: name, error: Some("unknown subcommand '"@ + sub + "'"@) },
                },
            },
        }
    }
}

/// The named subcommand that is not a mode.
fn plain_subcommand(sub: &str) -> (r: Option<Subcommand>)
    ensures
        r == plain_subcommand_of(sub@),
{
    if is_uninstall_subcommand(sub) {
        Some(Subcommand::Uninstall)
    } else if is_outdated_subcommand(sub) {
        Some(Subcommand::Outdated)
    } else if is_update_subcommand(sub) {
        Some(Subcommand::Update)
    } else if is_list_subcommand(sub) {
        Some(Subcommand::List)
    } else if is_info_subcommand(sub) {
        Some(Subcommand::Info)
    } else {
        None
    }
}

/// Decides what the top-level command line asks for: usage, version, a help
/// topic, or a subcommand to run on the remaining arguments.
pub fn dispatch_pkg(invocation: &Invocation, args: &Vec<Option<String>>) -> (r: PkgAction)
    ensures
        r@ == dispatch_spec(invocation.binary_name@, invocation.name@, args_view(args@)),
{
    let ghost av = args_view(args@);
    if args.len() == 0 {
        return PkgAction::Usage { topic: UsageTopic::Pkg, program: invocation.name.clone(), error: Some(owned("missing subcommand")) };
    }
    assert(av[0] == arg_view(args@[0]));
    let first = &args[0];
    if is_help_flag(first) {
        return PkgAction::Usage { topic: UsageTopic::Pkg, program: invocation.name.clone(), error: None };
    }
    if is_version_flag(first) {
        return PkgAction::Version;
    }
    if arg_equals(first, "help") {
        if args.len() > 1 {
            assert(av[1] == arg_view(args@[1]));
            if let Some(topic) = &args[1] {
                if let Some(c) = plain_subcommand(topic.as_str()) {
                    let program = concat3(invocation.binary_name.as_str(), " ", topic.as_str());
                    let topic = match c {
                        Subcommand::Uninstall => UsageTopic::Uninstall,
                        Subcommand::Outdated => UsageTopic::Outdated,
                        Subcommand::Update => UsageTopic::Update,
                        Subcommand::List => UsageTopic::List,
                        _ => UsageTopic::Info,
                    };
                    return PkgAction::Usage { topic, program, error: None };
                }
                if let Some(mode) = Mode::from_name(topic.as_str()) {
                    let nested = Invocation::for_subcommand(invocation.binary_name.as_str(), mode.canonical_name(), mode);
                    let topic = match mode {
                        Mode::X => UsageTopic::X,
                        Mode::I => UsageTopic::I,
                    };
                    return PkgAction::Usage { topic, program: nested.name, error: None };
                }
            }
        }
        return PkgAction::Usage { topic: UsageTopic::Pkg, program: invocation.name.clone(), error: None };
    }
    let subcommand = match first {
        Some(s) => s,
        None => return PkgAction::Fail { message: owned("subcommand must be valid UTF-8") },
    };
    if let Some(c) = plain_subcommand(subcommand.as_str()) {
        let nested = Invocation {
            binary_name: invocation.binary_name.clone(),
            name: concat3(invocation.binary_name.as_str(), " ", subcommand.as_str()),
            mode: None,
        };
        return PkgAction::Run { command: c, invocation: nested, args_from: 1 };
    }
    match Mode::from_name(subcommand.as_str()) {
        Some(mode) => {
            let nested = Invocation::for_subcommand(invocation.binary_name.as_str(), subcommand.as_str(), mode);
            PkgAction::Run { command: Subcommand::Mode(mode), invocation: nested, args_from: 1 }
        },
        None => {
            let mut msg = concat2("unknown subcommand '", subcommand.as_str());
            msg.append("'");
            PkgAction::Usage { topic: UsageTopic::Pkg, program: invocation.name.clone(), error: Some(msg) }
        },
    }
}


// ---------------------------------------------------------------------------
// Reading the arguments of a subcommand

/// Folding one more element into a prefix.
pub proof fn lemma_fold_take_step<A, B>(s: Seq<A>, b: B, f: spec_fn(B, A) -> B, i: int)
    requires
        0 <= i < s.len(),
    ensures
        s.take(i + 1).fold_left(b, f) == f(s.take(i).fold_left(b, f), s[i]),
{
    assert(s.take(i + 1).drop_last() =~= s.take(i));
}

/// Once a fold reaches a value that every step keeps, it ends there.
pub proof fn lemma_fold_absorbs<A, B>(s: Seq<A>, b: B, f: spec_fn(B, A) -> B, k: int, x: B)
    requires
        0 <= k <= s.len(),
        s.take(k).fold_left(b, f) == x,
        forall|a: A| #[trigger] f(x, a) == x,
    ensures
        s.fold_left(b, f) == x,
    decreases s.len() - k,
{
    if k < s.len() {
        lemma_fold_take_step(s, b, f, k);
        lemma_fold_absorbs(s, b, f, k + 1, x);
    } else {
        assert(s.take(k) =~= s);
    }
}

/// What reading a subcommand's arguments gives: the request, a usage or
/// version request, or a failure (to be reported with the usage text or not).
#[derive(Debug)]
pub enum Parsed<T> {
    Request(T),
    Usage,
    Version,
    Failed { message: String, with_usage: bool },
}

/// A reading outcome as plain values.
pub enum ParsedView<V> {
    Request(V),
    Usage,
    Version,
    Failed { message: Seq<char>, with_usage: bool },
}

impl<T: View> View for Parsed<T> {
    type V = ParsedView<T::V>;

    open spec fn view(&self) -> ParsedView<T::V> {
        match self {
            Parsed::Request(t) => ParsedView::Request(t@),
            Parsed::Usage => ParsedView::Usage,
            Parsed::Version => ParsedView::Version,
            Parsed::Failed { message, with_usage } => ParsedView::Failed { message: message@, with_usage: *with_usage },
        }
    }
}

/// The views of requested packages.
pub open spec fn requested_views(v: Seq<RequestedPackage>) -> Seq<RequestedView> {
    v.map_values(|p: RequestedPackage| p@)
}

/// Which packages a command is about.
#[derive(Debug)]
pub enum PackageSelection {
    AllInstalled,
    Requested(Vec<RequestedPackage>),
}

/// A selection as plain values.
pub enum SelectionView {
    AllInstalled,
    Requested(Seq<RequestedView>),
}

impl View for PackageSelection {
    type V = SelectionView;

    open spec fn view(&self) -> SelectionView {
        match self {
            PackageSelection::AllInstalled => SelectionView::AllInstalled,
            PackageSelection::Requested(v) => SelectionView::Requested(requested_views(v@)),
        }
    }
}

/// The request of `install`: the packages, and whether to reinstall.
#[derive(Debug)]
pub struct IRequest {
    pub packages: Vec<RequestedPackage>,
    pub force: bool,
}

impl View for IRequest {
    type V = (Seq<RequestedView>, bool);

    open spec fn view(&self) -> (Seq<RequestedView>, bool) {
        (requested_views(self.packages@), self.force)
    }
}

/// The request of `update`.
#[derive(Debug)]
pub struct UpdateRequest {
    pub selection: PackageSelection,
    pub no_self_update: bool,
}

impl View for UpdateRequest {
    type V = (SelectionView, bool);

    open spec fn view(&self) -> (SelectionView, bool) {
        (self.selection@, self.no_self_update)
    }
}

/// The request of `uninstall`: the installed names to remove.
#[derive(Debug)]
pub struct UninstallRequest {
    pub packages: Vec<String>,
}

impl View for UninstallRequest {
    type V = Seq<Seq<char>>;

    open spec fn view(&self) -> Seq<Seq<char>> {
        crate::text::strings_view(self.packages@)
    }
}

/// The request of `info`.
#[derive(Debug)]
pub struct InfoRequest {
    pub package: RequestedPackage,
}

impl View for InfoRequest {
    type V = RequestedView;

    open spec fn view(&self) -> RequestedView {
        self.package@
    }
}

/// The request of `list` and `outdated`.
#[derive(Debug)]
pub struct PackageStatusRequest {
    pub selection: PackageSelection,
}

impl View for PackageStatusRequest {
    type V = SelectionView;

    open spec fn view(&self) -> SelectionView {
        self.selection@
    }
}

pub open spec fn missing_package_message() -> Seq<char> {
    "missing package name"@
}

/// Why a scan of arguments stopped early.
pub enum ScanStop {
    Usage,
    Version,
    Failed(Seq<char>),
}

/// The state of a scan over `install` or `update` arguments: the packages so
/// far and whether the flag was seen, or why it stopped.
pub enum FlagScan {
    Going { packages: Seq<RequestedView>, flag: bool },
    Stopped(ScanStop),
}

/// One argument of `install` or `update`: help and version stop the scan, the
/// command's flag is noted, anything else must read as a package.
pub open spec fn flag_scan_step(
    aliases: Seq<(Seq<char>, TargetView)>,
    is_flag: spec_fn(Option<Seq<char>>) -> bool,
) -> spec_fn(FlagScan, Option<Seq<char>>) -> FlagScan {
    |st: FlagScan, a: Option<Seq<char>>|
        match st {
            FlagScan::Stopped(r) => FlagScan::Stopped(r),
            FlagScan::Going { packages, flag } => if is_help_arg(a) {
                FlagScan::Stopped(ScanStop::Usage)
            } else if is_version_arg(a) {
                FlagScan::Stopped(ScanStop::Version)
            } else if is_flag(a) {
                FlagScan::Going { packages, flag: true }
            } else {
                match parse_package_spec(a, aliases) {
                    Err(m) => FlagScan::Stopped(ScanStop::Failed(m)),
                    Ok(p) => FlagScan::Going { packages: packages.push(p), flag },
                }
            },
        }
}

/// The scan of all arguments of `install` or `update`.
pub open spec fn flag_scan(
    args: Seq<Option<Seq<char>>>,
    aliases: Seq<(Seq<char>, TargetView)>,
    is_flag: spec_fn(Option<Seq<char>>) -> bool,
) -> FlagScan {
    args.fold_left(FlagScan::Going { packages: Seq::empty(), flag: false }, flag_scan_step(aliases, is_flag))
}

/// The flag a command notes among its package arguments.
#[derive(Clone, Copy)]
enum PackageFlag {
    Force,
    NoSelfUpdate,
}

spec fn flag_predicate(f: PackageFlag) -> spec_fn(Option<Seq<char>>) -> bool {
    match f {
        PackageFlag::Force => |a: Option<Seq<char>>| is_force_arg(a),
        PackageFlag::NoSelfUpdate => |a: Option<Seq<char>>| is_no_self_update_arg(a),
    }
}

/// Scans the arguments of `install` or `update`.
fn scan_flagged_packages(args: &Vec<Option<String>>, aliases: &AliasTable, which: PackageFlag) -> (r: Result<(Vec<RequestedPackage>, bool), ScanStopReason>)
    ensures
        match flag_scan(args_view(args@), aliases@, flag_predicate(which)) {
            FlagScan::Going { packages, flag } => r matches Ok(x) && requested_views(x.0@) == packages && x.1 == flag,
            FlagScan::Stopped(ScanStop::Usage) => r matches Err(ScanStopReason::Usage),
            FlagScan::Stopped(ScanStop::Version) => r matches Err(ScanStopReason::Version),
            FlagScan::Stopped(ScanStop::Failed(m)) => r matches Err(ScanStopReason::Failed(e)) && e@ == m,
        },
{
    let ghost av = args_view(args@);
    let ghost step = flag_scan_step(aliases@, flag_predicate(which));
    let ghost init = FlagScan::Going { packages: Seq::empty(), flag: false };
    let mut packages: Vec<RequestedPackage> = Vec::new();
    let mut flag = false;
    let mut i: usize = 0;
    assert(av.take(0) =~= Seq::<Option<Seq<char>>>::empty());
    assert(requested_views(packages@) =~= Seq::<RequestedView>::empty());
    while i < args.len()
        invariant
            av == args_view(args@),
            step == flag_scan_step(aliases@, flag_predicate(which)),
            init == (FlagScan::Going { packages: Seq::empty(), flag: false }),
            i <= args@.len(),
            av.take(i as int).fold_left(init, step) == (FlagScan::Going { packages: requested_views(packages@), flag }),
        decreases args.len() - i,
    {
        let a = &args[i];
        proof {
            lemma_fold_take_step(av, init, step, i as int);
            assert(av[i as int] == arg_view(args@[i as int]));
        }
        if is_help_flag(a) {
            proof {
                lemma_fold_absorbs(av, init, step, i + 1, FlagScan::Stopped(ScanStop::Usage));
            }
            return Err(ScanStopReason::Usage);
        }
        if is_version_flag(a) {
            proof {
                lemma_fold_absorbs(av, init, step, i + 1, FlagScan::Stopped(ScanStop::Version));
            }
            return Err(ScanStopReason::Version);
        }
        let is_flag = match which {
            PackageFlag::Force => is_force_flag(a),
            PackageFlag::NoSelfUpdate => is_no_self_update_flag(a),
        };
        if is_flag {
            flag = true;
        } else {
            match parse_package_name(a, aliases) {
                Err(e) => {
                    proof {
                        lemma_fold_absorbs(av, init, step, i + 1, FlagScan::Stopped(ScanStop::Failed(e@)));
                    }
                    return Err(ScanStopReason::Failed(e));
                },
                Ok(p) => {
                    let ghost before = packages@;
                    packages.push(p);
                    assert(requested_views(packages@) =~= requested_views(before).push(p@));
                },
            }
        }
        i = i + 1;
    }
    assert(av.take(args@.len() as int) =~= av);
    Ok((packages, flag))
}

/// Why a scan of arguments stopped early.
pub enum ScanStopReason {
    Usage,
    Version,
    Failed(String),
}

/// What the arguments of `install` ask for.
pub open spec fn i_request_spec(args: Seq<Option<Seq<char>>>, aliases: Seq<(Seq<char>, TargetView)>) -> ParsedView<(Seq<RequestedView>, bool)> {
    match flag_scan(args, aliases, |a: Option<Seq<char>>| is_force_arg(a)) {
        FlagScan::Stopped(ScanStop::Usage) => ParsedView::Usage,
        FlagScan::Stopped(ScanStop::Version) => ParsedView::Version,
        FlagScan::Stopped(ScanStop::Failed(m)) => ParsedView::Failed { message: m, with_usage: false },
        FlagScan::Going { packages, flag } => if packages.len() == 0 {
            ParsedView::Failed { message: missing_package_message(), with_usage: true }
        } else {
            ParsedView::Request((packages, flag))
        },
    }
}

/// Reads the arguments of `install`: packages and `-f`/`--force`; help or
/// version anywhere stops the reading.
pub fn parse_i_request(args: &Vec<Option<String>>, aliases: &AliasTable) -> (r: Parsed<IRequest>)
    ensures
        r@ == i_request_spec(args_view(args@), aliases@),
{
    assert(flag_predicate(PackageFlag::Force) == (|a: Option<Seq<char>>| is_force_arg(a)));
    match scan_flagged_packages(args, aliases, PackageFlag::Force) {
        Err(ScanStopReason::Usage) => Parsed::Usage,
        Err(ScanStopReason::Version) => Parsed::Version,
        Err(ScanStopReason::Failed(message)) => Parsed::Failed { message, with_usage: false },
        Ok((packages, force)) => {
            if packages.len() == 0 {
                Parsed::Failed { message: owned("missing package name"), with_usage: true }
            } else {
                Parsed::Request(IRequest { packages, force })
            }
        },
    }
}

/// What the arguments of `update` ask for.
pub open spec fn update_request_spec(args: Seq<Option<Seq<char>>>, aliases: Seq<(Seq<char>, TargetView)>) -> ParsedView<(SelectionView, bool)> {
    match flag_scan(args, aliases, |a: Option<Seq<char>>| is_no_self_update_arg(a)) {
        FlagScan::Stopped(ScanStop::Usage) => ParsedView::Usage,
        FlagScan::Stopped(ScanStop::Version) => ParsedView::Version,
        FlagScan::Stopped(ScanStop::Failed(m)) => ParsedView::Failed { message: m, with_usage: false },
        FlagScan::Going { packages, flag } => ParsedView::Request((
            if packages.len() == 0 { SelectionView::AllInstalled } else { SelectionView::Requested(packages) },
            flag,
        )),
    }
}

/// Reads the arguments of `update`: packages (all installed ones when none is
/// named) and the flag that skips updating substrate itself.
pub fn parse_update_request(args: &Vec<Option<String>>, aliases: &AliasTable) -> (r: Parsed<UpdateRequest>)
    ensures
        r@ == update_request_spec(args_view(args@), aliases@),
{
    assert(flag_predicate(PackageFlag::NoSelfUpdate) == (|a: Option<Seq<char>>| is_no_self_update_arg(a)));
    match scan_flagged_packages(args, aliases, PackageFlag::NoSelfUpdate) {
        Err(ScanStopReason::Usage) => Parsed::Usage,
        Err(ScanStopReason::Version) => Parsed::Version,
        Err(ScanStopReason::Failed(message)) => Parsed::Failed { message, with_usage: false },
        Ok((packages, no_self_update)) => {
            let selection = if packages.len() == 0 {
                PackageSelection::AllInstalled
            } else {
                PackageSelection::Requested(packages)
            };
            Parsed::Request(UpdateRequest { selection, no_self_update })
        },
    }
}

/// One step of `collect_all`: keep a failure, else read one more argument.
pub open spec fn collect_step<V>(f: spec_fn(Option<Seq<char>>) -> Result<V, Seq<char>>) -> spec_fn(Result<Seq<V>, Seq<char>>, Option<Seq<char>>) -> Result<Seq<V>, Seq<char>> {
    |st: Result<Seq<V>, Seq<char>>, a: Option<Seq<char>>|
        match st {
            Err(m) => Err(m),
            Ok(vs) => match f(a) {
                Err(m) => Err(m),
                Ok(v) => Ok(vs.push(v)),
            },
        }
}

/// Reading every argument with `f`: all the results, or the first failure.
pub open spec fn collect_all<V>(args: Seq<Option<Seq<char>>>, f: spec_fn(Option<Seq<char>>) -> Result<V, Seq<char>>) -> Result<Seq<V>, Seq<char>> {
    args.fold_left(Ok(Seq::empty()), collect_step(f))
}

/// Reads every argument as a package.
fn collect_requested(args: &Vec<Option<String>>, aliases: &AliasTable) -> (r: Result<Vec<RequestedPackage>, String>)
    ensures
        match collect_all(args_view(args@), |a: Option<Seq<char>>| parse_package_spec(a, aliases@)) {
            Ok(ps) => r matches Ok(v) && requested_views(v@) == ps,
            Err(m) => r matches Err(e) && e@ == m,
        },
{
    let ghost av = args_view(args@);
    let ghost f = |a: Option<Seq<char>>| parse_package_spec(a, aliases@);
    let ghost step = collect_step(f);
    let ghost init: Result<Seq<RequestedView>, Seq<char>> = Ok(Seq::empty());
    assert(collect_all(av, f) == av.fold_left(init, step));
    let mut out: Vec<RequestedPackage> = Vec::new();
    let mut i: usize = 0;
    assert(av.take(0) =~= Seq::<Option<Seq<char>>>::empty());
    assert(requested_views(out@) =~= Seq::<RequestedView>::empty());
    while i < args.len()
        invariant
            av == args_view(args@),
            f == (|a: Option<Seq<char>>| parse_package_spec(a, aliases@)),
            step == collect_step(f),
            init == Ok::<Seq<RequestedView>, Seq<char>>(Seq::empty()),
            i <= args@.len(),
            av.take(i as int).fold_left(init, step) == Ok::<Seq<RequestedView>, Seq<char>>(requested_views(out@)),
        decreases args.len() - i,
    {
        proof {
            lemma_fold_take_step(av, init, step, i as int);
            assert(av[i as int] == arg_view(args@[i as int]));
        }
        match parse_package_name(&args[i], aliases) {
            Err(e) => {
                proof {
                    lemma_fold_absorbs(av, init, step, i + 1, Err::<Seq<RequestedView>, Seq<char>>(e@));
                }
                return Err(e);
            },
            Ok(p) => {
                let ghost before = out@;
                out.push(p);
                assert(requested_views(out@) =~= requested_views(before).push(p@));
            },
        }
        i = i + 1;
    }
    assert(av.take(args@.len() as int) =~= av);
    Ok(out)
}

/// What the arguments of `list` and `outdated` ask for.
pub open spec fn status_request_spec(args: Seq<Option<Seq<char>>>, aliases: Seq<(Seq<char>, TargetView)>) -> ParsedView<SelectionView> {
    if args.len() == 0 {
        ParsedView::Request(SelectionView::AllInstalled)
    } else if is_help_arg(args[0]) {
        ParsedView::Usage
    } else if is_version_arg(args[0]) {
        ParsedView::Version
    } else {
        match collect_all(args, |a: Option<Seq<char>>| parse_package_spec(a, aliases)) {
            Err(m) => ParsedView::Failed { message: m, with_usage: false },
            Ok(ps) => ParsedView::Request(SelectionView::Requested(ps)),
        }
    }
}

/// Reads the arguments of `list` or `outdated`: all installed packages when
/// there are none, else the named ones.
pub fn parse_package_status_request(args: &Vec<Option<String>>, aliases: &AliasTable) -> (r: Parsed<PackageStatusRequest>)
    ensures
        r@ == status_request_spec(args_view(args@), aliases@),
{
    if args.len() == 0 {
        return Parsed::Request(PackageStatusRequest { selection: PackageSelection::AllInstalled });
    }
    assert(args_view(args@)[0] == arg_view(args@[0]));
    if is_help_flag(&args[0]) {
        return Parsed::Usage;
    }
    if is_version_flag(&args[0]) {
        return Parsed::Version;
    }
    match collect_requested(args, aliases) {
        Err(message) => Parsed::Failed { message, with_usage: false },
        Ok(packages) => Parsed::Request(PackageStatusRequest { selection: PackageSelection::Requested(packages) }),
    }
}

/// What the arguments of `uninstall` ask for.
pub open spec fn uninstall_request_spec(args: Seq<Option<Seq<char>>>, aliases: Seq<(Seq<char>, TargetView)>) -> ParsedView<Seq<Seq<char>>> {
    if args.len() == 0 {
        ParsedView::Failed { message: missing_package_message(), with_usage: true }
    } else if is_help_arg(args[0]) {
        ParsedView::Usage
    } else if is_version_arg(args[0]) {
        ParsedView::Version
    } else {
        match collect_all(args, |a: Option<Seq<char>>| uninstall_name_spec(a, aliases)) {
            Err(m) => ParsedView::Failed { message: m, with_usage: false },
            Ok(names) => ParsedView::Request(names),
        }
    }
}

/// Reads the arguments of `uninstall`: at least one package.
pub fn parse_uninstall_request(args: &Vec<Option<String>>, aliases: &AliasTable) -> (r: Parsed<UninstallRequest>)
    ensures
        r@ == uninstall_request_spec(args_view(args@), aliases@),
{
    if args.len() == 0 {
        return Parsed::Failed { message: owned("missing package name"), with_usage: true };
    }
    assert(args_view(args@)[0] == arg_view(args@[0]));
    if is_help_flag(&args[0]) {
        return Parsed::Usage;
    }
    if is_version_flag(&args[0]) {
        return Parsed::Version;
    }
    let ghost av = args_view(args@);
    let ghost f = |a: Option<Seq<char>>| uninstall_name_spec(a, aliases@);
    let ghost step = collect_step(f);
    let ghost init: Result<Seq<Seq<char>>, Seq<char>> = Ok(Seq::empty());
    assert(collect_all(av, f) == av.fold_left(init, step));
    let mut out: Vec<String> = Vec::new();
    let mut i: usize = 0;
    assert(av.take(0) =~= Seq::<Option<Seq<char>>>::empty());
    assert(crate::text::strings_view(out@) =~= Seq::<Seq<char>>::empty());
    while i < args.len()
        invariant
            av.len() > 0,
            !is_help_arg(av[0]),
            !is_version_arg(av[0]),
            av == args_view(args@),
            f == (|a: Option<Seq<char>>| uninstall_name_spec(a, aliases@)),
            step == collect_step(f),
            init == Ok::<Seq<Seq<char>>, Seq<char>>(Seq::empty()),
            i <= args@.len(),
            av.take(i as int).fold_left(init, step) == Ok::<Seq<Seq<char>>, Seq<char>>(crate::text::strings_view(out@)),
        decreases args.len() - i,
    {
        proof {
            lemma_fold_take_step(av, init, step, i as int);
            assert(av[i as int] == arg_view(args@[i as int]));
        }
        match parse_uninstall_package_name(&args[i], aliases) {
            Err(e) => {
                proof {
                    lemma_fold_absorbs(av, init, step, i + 1, Err::<Seq<Seq<char>>, Seq<char>>(e@));
                }
                return Parsed::Failed { message: e, with_usage: false };
            },
            Ok(name) => {
                let ghost before = out@;
                out.push(name);
                assert(crate::text::strings_view(out@) =~= crate::text::strings_view(before).push(name@));
            },
        }
        i = i + 1;
    }
    assert(av.take(args@.len() as int) =~= av);
    Parsed::Request(UninstallRequest { packages: out })
}

/// What the arguments of `info` ask for.
pub open spec fn info_request_spec(args: Seq<Option<Seq<char>>>, aliases: Seq<(Seq<char>, TargetView)>) -> ParsedView<RequestedView> {
    if args.len() == 0 {
        ParsedView::Failed { message: missing_package_message(), with_usage: true }
    } else if is_help_arg(args[0]) {
        ParsedView::Usage
    } else if is_version_arg(args[0]) {
        ParsedView::Version
    } else {
        match parse_package_spec(args[0], aliases) {
            Err(m) => ParsedView::Failed { message: m, with_usage: false },
            Ok(p) => if args.len() > 1 {
                ParsedView::Failed { message: "supports a single package"@, with_usage: false }
            } else {
                ParsedView::Request(p)
            },
        }
    }
}

/// Reads the arguments of `info`: exactly one package.
pub fn parse_info_request(args: &Vec<Option<String>>, aliases: &AliasTable) -> (r: Parsed<InfoRequest>)
    ensures
        r@ == info_request_spec(args_view(args@), aliases@),
{
    if args.len() == 0 {
        return Parsed::Failed { message: owned("missing package name"), with_usage: true };
    }
    assert(args_view(args@)[0] == arg_view(args@[0]));
    if is_help_flag(&args[0]) {
        return Parsed::Usage;
    }
    if is_version_flag(&args[0]) {
        return Parsed::Version;
    }
    let package = match parse_package_name(&args[0], aliases) {
        Err(message) => return Parsed::Failed { message, with_usage: false },
        Ok(p) => p,
    };
    if args.len() > 1 {
        return Parsed::Failed { message: owned("supports a single package"), with_usage: false };
    }
    Parsed::Request(InfoRequest { package })
}


// ---------------------------------------------------------------------------
// `run`: the executable and the package that provides it

/// The Homebrew index from executable names to the formulae that provide them.
#[derive(Clone, Debug)]
pub struct FormulaIndex {
    pub entries: Vec<(String, String)>,
}

impl View for FormulaIndex {
    type V = Seq<(Seq<char>, Seq<char>)>;

    open spec fn view(&self) -> Seq<(Seq<char>, Seq<char>)> {
        self.entries@.map_values(|e: (String, String)| (e.0@, e.1@))
    }
}

/// The formula of the first entry for `key`.
pub open spec fn index_lookup(entries: Seq<(Seq<char>, Seq<char>)>, key: Seq<char>) -> Option<Seq<char>>
    decreases entries.len(),
{
    if entries.len() == 0 {
        None
    } else if entries[0].0 == key {
        Some(entries[0].1)
    } else {
        index_lookup(entries.drop_first(), key)
    }
}

impl FormulaIndex {
    /// The formula that provides the executable `key`.
    pub fn get(&self, key: &str) -> (r: Option<String>)
        ensures
            arg_view(r) == index_lookup(self@, key@),
    {
        let mut i: usize = 0;
        assert(self@.skip(0) =~= self@);
        while i < self.entries.len()
            invariant
                i <= self.entries@.len(),
                index_lookup(self@, key@) == index_lookup(self@.skip(i as int), key@),
            decreases self.entries.len() - i,
        {
            let ghost rest = self@.skip(i as int);
            assert(rest[0] == (self.entries@[i as int].0@, self.entries@[i as int].1@));
            if str_eq(self.entries[i].0.as_str(), key) {
                return Some(self.entries[i].1.clone());
            }
            assert(rest.drop_first() =~= self@.skip(i + 1));
            i = i + 1;
        }
        None
    }
}

/// In an index whose executable names are distinct, each executable finds its
/// own formula, and a name that no entry carries finds nothing: lookup is map
/// lookup.
pub proof fn law_index_lookup_is_map_lookup(entries: Seq<(Seq<char>, Seq<char>)>, key: Seq<char>)
    requires
        keys_distinct(entries),
    ensures
        forall|i: int| 0 <= i < entries.len() && #[trigger] entries[i].0 == key ==> index_lookup(entries, key) == Some(entries[i].1),
        (forall|i: int| 0 <= i < entries.len() ==> #[trigger] entries[i].0 != key) ==> index_lookup(entries, key) is None,
    decreases entries.len(),
{
    if entries.len() > 0 {
        let rest = entries.drop_first();
        assert forall|i: int, j: int| 0 <= i < j < rest.len() implies #[trigger] rest[i].0 != #[trigger] rest[j].0 by {
            assert(rest[i] == entries[i + 1] && rest[j] == entries[j + 1]);
        }
        law_index_lookup_is_map_lookup(rest, key);
        assert forall|i: int| 0 <= i < entries.len() && #[trigger] entries[i].0 == key implies index_lookup(entries, key) == Some(entries[i].1) by {
            if i > 0 {
                assert(rest[i - 1] == entries[i]);
                assert(entries[0].0 != entries[i].0);
            }
        }
        if forall|i: int| 0 <= i < entries.len() ==> #[trigger] entries[i].0 != key {
            assert forall|i: int| 0 <= i < rest.len() implies #[trigger] rest[i].0 != key by {
                assert(rest[i] == entries[i + 1]);
            }
        }
    }
}

/// The package that provides the executable to run: `run` runs Homebrew
/// executables, so it is always a formula.
#[derive(Clone, Debug, PartialEq, Eq)]
pub enum XRootPackage {
    Formula(String),
}

/// A root package as plain values.
pub enum XRootView {
    Formula(Seq<char>),
}

impl View for XRootPackage {
    type V = XRootView;

    open spec fn view(&self) -> XRootView {
        match self {
            XRootPackage::Formula(f) => XRootView::Formula(f@),
        }
    }
}

/// The request of `run`: the executable, where its own arguments start among
/// the arguments read, and the package that provides it.
#[derive(Debug)]
pub struct XRequest {
    pub tool: String,
    pub tool_args_from: usize,
    pub root_package: XRootPackage,
}

impl View for XRequest {
    type V = (Seq<char>, nat, XRootView);

    open spec fn view(&self) -> (Seq<char>, nat, XRootView) {
        (self.tool@, self.tool_args_from as nat, self.root_package@)
    }
}

/// The formula a `+formula` argument names (empty for any other argument).
pub open spec fn formula_of(a: Option<Seq<char>>) -> Seq<char> {
    match formula_spec_of(a) {
        Ok(Some(f)) => f,
        _ => Seq::empty(),
    }
}

/// An argument that reads as a `+formula`.
pub open spec fn is_formula_arg(a: Option<Seq<char>>) -> bool {
    formula_spec_of(a) matches Ok(Some(_))
}

/// The index of the first argument from `i` on that is not a `+formula`.
pub open spec fn formula_run_end(args: Seq<Option<Seq<char>>>, i: int) -> int
    decreases args.len() - i,
{
    if i < 0 || i >= args.len() {
        i
    } else if is_formula_arg(args[i]) {
        formula_run_end(args, i + 1)
    } else {
        i
    }
}

pub open spec fn missing_executable_message() -> Seq<char> {
    "missing executable name"@
}

/// What the arguments of `run` ask for, given the Homebrew executable index.
pub open spec fn x_request_spec(args: Seq<Option<Seq<char>>>, index: Seq<(Seq<char>, Seq<char>)>) -> ParsedView<(Seq<char>, nat, XRootView)> {
    let s: int = if args.len() > 0 && is_shebang_arg(args[0]) { 1 } else { 0 };
    if s >= args.len() {
        ParsedView::Failed { message: missing_executable_message(), with_usage: true }
    } else if is_help_arg(args[s]) {
        ParsedView::Usage
    } else if is_version_arg(args[s]) {
        ParsedView::Version
    } else {
        let e = formula_run_end(args, s);
        if e >= args.len() {
            ParsedView::Failed { message: missing_executable_message(), with_usage: true }
        } else if formula_spec_of(args[e]) is Err {
            ParsedView::Failed { message: formula_spec_of(args[e])->Err_0, with_usage: false }
        } else if !(forall|j: int| s <= j < e ==> formula_of(#[trigger] args[j]) == formula_of(args[s])) {
            ParsedView::Failed { message: "supports a single root package"@, with_usage: false }
        } else {
            match args[e] {
                None => ParsedView::Failed { message: "tool name must be valid UTF-8"@, with_usage: false },
                Some(tool) => if tool.contains('/') {
                    ParsedView::Failed { message: "tool name must not contain path separators"@, with_usage: false }
                } else {
                    let from: nat = (if s == 1 && e + 1 < args.len() { e + 2 } else { e + 1 }) as nat;
                    if e > s {
                        ParsedView::Request((tool, from, XRootView::Formula(preferred_formula(formula_of(args[s])))))
                    } else {
                        match versioned_tool_of(tool) {
                            Some(p) => ParsedView::Request((p.0, from, XRootView::Formula(preferred_formula(p.1)))),
                            None => match index_lookup(index, tool) {
                                Some(f) => ParsedView::Request((tool, from, XRootView::Formula(preferred_formula(f)))),
                                None => ParsedView::Failed {
                                    message: "no Homebrew formula found for '"@ + tool + "'"@,
                                    with_usage: false,
                                },
                            },
                        }
                    }
                },
            }
        }
    }
}

/// Reads the arguments of `run`: an optional `-!`/`--shebang`, `+formula`
/// arguments naming one root package, the executable and its arguments.
pub fn parse_x_request(args: &Vec<Option<String>>, index: &FormulaIndex) -> (r: Parsed<XRequest>)
    ensures
        r@ == x_request_spec(args_view(args@), index@),
{
    let ghost av = args_view(args@);
    if args.len() == 0 {
        return Parsed::Failed { message: owned("missing executable name"), with_usage: true };
    }
    assert(av[0] == arg_view(args@[0]));
    let mut s: usize = 0;
    if is_shebang_flag(&args[0]) {
        s = 1;
        if args.len() < 2 {
            return Parsed::Failed { message: owned("missing executable name"), with_usage: true };
        }
    }
    assert(av[s as int] == arg_view(args@[s as int]));
    if is_help_flag(&args[s]) {
        return Parsed::Usage;
    }
    if is_version_flag(&args[s]) {
        return Parsed::Version;
    }
    let mut e: usize = s;
    let mut first: Option<String> = None;
    let mut agree = true;
    let mut done = false;
    while !done && e < args.len()
        invariant
            av == args_view(args@),
            s < args@.len(),
            s as int == (if av.len() > 0 && is_shebang_arg(av[0]) { 1int } else { 0int }),
            !is_help_arg(av[s as int]),
            !is_version_arg(av[s as int]),
            s <= e <= args@.len(),
            formula_run_end(av, s as int) == formula_run_end(av, e as int),
            forall|j: int| s <= j < e ==> is_formula_arg(#[trigger] av[j]),
            agree == forall|j: int| s <= j < e ==> formula_of(#[trigger] av[j]) == formula_of(av[s as int]),
            e > s ==> (first matches Some(f) && f@ == formula_of(av[s as int])),
            e == s ==> first is None,
            done ==> e < args@.len() && formula_spec_of(av[e as int]) == Ok::<Option<Seq<char>>, Seq<char>>(None),
        decreases 2 * (args.len() - e) + (if done { 0int } else { 1int }),
    {
        assert(av[e as int] == arg_view(args@[e as int]));
        match parse_formula_spec(&args[e]) {
            Err(m) => {
                assert(formula_run_end(av, e as int) == e);
                return Parsed::Failed { message: m, with_usage: false };
            },
            Ok(None) => {
                done = true;
            },
            Ok(Some(f)) => {
                match &first {
                    None => {
                        first = Some(f);
                    },
                    Some(g) => {
                        if !str_eq(g.as_str(), f.as_str()) {
                            agree = false;
                        }
                    },
                }
                e = e + 1;
            },
        }
    }
    assert(formula_run_end(av, e as int) == e);
    if e >= args.len() {
        return Parsed::Failed { message: owned("missing executable name"), with_usage: true };
    }
    if !agree {
        return Parsed::Failed { message: owned("supports a single root package"), with_usage: false };
    }
    assert(av[e as int] == arg_view(args@[e as int]));
    let tool = match &args[e] {
        None => return Parsed::Failed { message: owned("tool name must be valid UTF-8"), with_usage: false },
        Some(t) => t,
    };
    if contains_char(tool.as_str(), '/') {
        return Parsed::Failed { message: owned("tool name must not contain path separators"), with_usage: false };
    }
    let tool_args_from = if s == 1 && e + 1 < args.len() { e + 2 } else { e + 1 };
    match first {
        Some(f) => {
            let formula = preferred_run_formula(f);
            return Parsed::Request(XRequest { tool: tool.clone(), tool_args_from, root_package: XRootPackage::Formula(formula) });
        },
        None => {},
    }
    if let Some((base, formula)) = split_versioned_tool_token(tool.as_str()) {
        let formula = preferred_run_formula(formula);
        return Parsed::Request(XRequest { tool: base, tool_args_from, root_package: XRootPackage::Formula(formula) });
    }
    match index.get(tool.as_str()) {
        Some(f) => {
            let formula = preferred_run_formula(f);
            Parsed::Request(XRequest { tool: tool.clone(), tool_args_from, root_package: XRootPackage::Formula(formula) })
        },
        None => {
            let mut msg = concat2("no Homebrew formula found for '", tool.as_str());
            msg.append("'");
            Parsed::Failed { message: msg, with_usage: false }
        },
    }
}

/// The formula run for a requested one is its own preferred formula: asking
/// for the recommended variant gives that variant.
pub proof fn law_preferred_formula_is_stable(formula: Seq<char>)
    ensures
        preferred_formula(preferred_formula(formula)) == preferred_formula(formula),
{
    reveal_strlit("ffmpeg");
    reveal_strlit("imagemagick");
    reveal_strlit("ffmpeg-full");
    reveal_strlit("imagemagick-full");
    assert("ffmpeg-full"@.len() != "ffmpeg"@.len());
    assert("ffmpeg-full"@[0] != "imagemagick"@[0]);
    assert("imagemagick-full"@.len() != "ffmpeg"@.len());
    assert("imagemagick-full"@.len() != "imagemagick"@.len());
}

/// Commands that change what is installed run only as root.
pub fn require_root(is_root: bool) -> (r: Result<(), String>)
    ensures
        is_root <==> r is Ok,
        r matches Err(m) ==> m@ == "must be run as root"@,
{
    if is_root {
        Ok(())
    } else {
        Err(owned("must be run as root"))
    }
}

} // verus!
