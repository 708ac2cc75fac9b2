use substrate::cli::{
    dispatch_pkg, mode_usage, parse_i_request, parse_info_request, parse_package_status_request,
    parse_uninstall_request, parse_update_request, parse_x_request, require_root, usage_text,
    version_line,
    FormulaIndex, Invocation, Mode, Parsed, PkgAction, Subcommand, UsageTopic, XRootPackage,
    PKG_DISPLAY_NAME,
};
use substrate::request::{AliasTable, RequestedPackage};

const VERSION: &str = "0.1.0";

fn args(values: &[&str]) -> Vec<Option<String>> {
    values.iter().map(|v| Some(v.to_string())).collect()
}

fn subs() -> Invocation {
    Invocation::from_program(&b"/usr/local/bin/subs".to_vec())
}

/// What the binary prints to stdout and stderr, and whether it succeeds, for
/// the parsing stage of a command line.
struct Outcome {
    success: bool,
    stdout: String,
    stderr: String,
}

/// The scenarios run as a user other than root.
const RUNS_AS_ROOT: bool = false;

fn parsed_outcome<T>(parsed: Parsed<T>, name: &str, top_name: &str, topic_usage: String, needs_root: bool) -> Outcome {
    match parsed {
        Parsed::Usage => Outcome { success: true, stdout: topic_usage, stderr: String::new() },
        Parsed::Version => Outcome {
            success: true,
            stdout: version_line(name, VERSION),
            stderr: String::new(),
        },
        Parsed::Failed { message, with_usage } => Outcome {
            success: false,
            stdout: if with_usage { topic_usage } else { String::new() },
            stderr: format!("{top_name}: {message}"),
        },
        Parsed::Request(_) => match if needs_root { require_root(RUNS_AS_ROOT) } else { Ok(()) } {
            Ok(()) => Outcome { success: true, stdout: String::new(), stderr: String::new() },
            Err(message) => Outcome { success: false, stdout: String::new(), stderr: format!("{top_name}: {message}") },
        },
    }
}

fn run_subs(values: &[&str]) -> Outcome {
    let invocation = subs();
    let argv = args(values);
    match dispatch_pkg(&invocation, &argv) {
        PkgAction::Usage { topic, program, error } => Outcome {
            success: error.is_none(),
            stdout: usage_text(topic, &program),
            stderr: error.map(|e| format!("{}: {e}", invocation.name)).unwrap_or_default(),
        },
        PkgAction::Version => Outcome {
            success: true,
            stdout: version_line(PKG_DISPLAY_NAME, VERSION),
            stderr: String::new(),
        },
        PkgAction::Fail { message } => Outcome {
            success: false,
            stdout: String::new(),
            stderr: format!("{}: {message}", invocation.name),
        },
        PkgAction::Run { command, invocation: nested, args_from } => {
            let rest: Vec<Option<String>> = argv[args_from..].to_vec();
            let aliases = AliasTable::empty();
            let name = nested.name.clone();
            let top = invocation.name.clone();
            match command {
                Subcommand::Mode(Mode::X) => {
                    let index = FormulaIndex { entries: vec![("rg".to_string(), "ripgrep".to_string())] };
                    parsed_outcome(parse_x_request(&rest, &index), &name, &top, mode_usage(Mode::X, &name), false)
                }
                Subcommand::Mode(Mode::I) => {
                    parsed_outcome(parse_i_request(&rest, &aliases), &name, &top, mode_usage(Mode::I, &name), true)
                }
                Subcommand::Update => parsed_outcome(
                    parse_update_request(&rest, &aliases),
                    &name,
                    &top,
                    usage_text(UsageTopic::Update, &name),
                    true,
                ),
                Subcommand::List => parsed_outcome(
                    parse_package_status_request(&rest, &aliases),
                    &name,
                    &top,
                    usage_text(UsageTopic::List, &name),
                    false,
                ),
                Subcommand::Outdated => parsed_outcome(
                    parse_package_status_request(&rest, &aliases),
                    &name,
                    &top,
                    usage_text(UsageTopic::Outdated, &name),
                    false,
                ),
                Subcommand::Uninstall => parsed_outcome(
                    parse_uninstall_request(&rest, &aliases),
                    &name,
                    &top,
                    usage_text(UsageTopic::Uninstall, &name),
                    true,
                ),
                Subcommand::Info => parsed_outcome(
                    parse_info_request(&rest, &aliases),
                    &name,
                    &top,
                    usage_text(UsageTopic::Info, &name),
                    false,
                ),
            }
        }
    }
}

#[test]
fn subs_top_level_cli_paths_cover_help_version_and_unknown_subcommands() {
    let output = run_subs(&[]);
    assert!(!output.success);
    assert!(output.stdout.contains("Usage: subs <subcommand> [args...]"));
    assert!(output.stderr.contains("subs: missing subcommand"));

    let output = run_subs(&["--help"]);
    assert!(output.success);
    assert!(output.stdout.contains("Subcommands:"));

    let output = run_subs(&["--version"]);
    assert!(output.success);
    assert!(output.stdout.contains(&format!("substrate {}", VERSION)));

    let output = run_subs(&["help", "x"]);
    assert!(output.success);
    assert!(output.stdout.contains("Usage: subs run"));

    let output = run_subs(&["help", "update"]);
    assert!(output.success);
    assert!(output.stdout.contains("Usage: subs update"));

    let output = run_subs(&["wat"]);
    assert!(!output.success);
    assert!(output.stderr.contains("subs: unknown subcommand 'wat'"));
}

#[test]
fn subs_subcommand_parsing_covers_help_version_and_non_root_failures() {
    let version = VERSION;
    let cases = [
        (vec!["run", "--help"], true, "Usage: subs run".to_string()),
        (vec!["run", "--version"], true, format!("subs run {version}")),
        (vec!["x", "--help"], true, "Usage: subs x".to_string()),
        (vec!["x", "--version"], true, format!("subs x {version}")),
        (vec!["i", "--help"], true, "Usage: subs i".to_string()),
        (vec!["i", "--version"], true, format!("subs i {version}")),
        (vec!["update", "--help"], true, "Usage: subs update".to_string()),
        (vec!["update", "--version"], true, format!("subs update {version}")),
        (vec!["list", "--help"], true, "Usage: subs list".to_string()),
        (vec!["list", "--version"], true, format!("subs list {version}")),
        (vec!["outdated", "--help"], true, "Usage: subs outdated".to_string()),
        (vec!["outdated", "--version"], true, format!("subs outdated {version}")),
        (vec!["uninstall", "--help"], true, "Usage: subs uninstall".to_string()),
        (vec!["uninstall", "--version"], true, format!("subs uninstall {version}")),
    ];

    for (argv, success, needle) in cases {
        let output = run_subs(&argv);
        assert_eq!(output.success, success, "{argv:?}");
        assert!(output.stdout.contains(&needle), "{argv:?}: {}", output.stdout);
    }

    let output = run_subs(&["x"]);
    assert!(!output.success);
    assert!(output.stdout.contains("Usage: subs x"));
    assert!(output.stderr.contains("subs: missing executable name"));

    let output = run_subs(&["run"]);
    assert!(!output.success);
    assert!(output.stdout.contains("Usage: subs run"));
    assert!(output.stderr.contains("subs: missing executable name"));

    let output = run_subs(&["x", "+ripgrep", "+pcre2", "rg"]);
    assert!(!output.success);
    assert!(output.stderr.contains("subs: supports a single root package"));

    if !RUNS_AS_ROOT {
        let output = run_subs(&["i", "deno"]);
        assert!(!output.success);
        assert!(output.stderr.contains("subs: must be run as root"));

        let output = run_subs(&["update"]);
        assert!(!output.success);
        assert!(output.stderr.contains("subs: must be run as root"));
    }
}

#[test]
fn run_request_resolves_the_root_package() {
    let index = FormulaIndex {
        entries: vec![
            ("rg".to_string(), "ripgrep".to_string()),
            ("ffprobe".to_string(), "ffmpeg".to_string()),
        ],
    };
    match parse_x_request(&args(&["rg", "--version"]), &index) {
        Parsed::Request(r) => {
            assert_eq!(r.tool, "rg");
            assert_eq!(r.tool_args_from, 1);
            assert_eq!(r.root_package, XRootPackage::Formula("ripgrep".to_string()));
        }
        other => panic!("unexpected {other:?}"),
    }
    match parse_x_request(&args(&["ffprobe"]), &index) {
        Parsed::Request(r) => assert_eq!(r.root_package, XRootPackage::Formula("ffmpeg-full".to_string())),
        other => panic!("unexpected {other:?}"),
    }
    match parse_x_request(&args(&["bun"]), &index) {
        Parsed::Failed { message, .. } => assert_eq!(message, "no Homebrew formula found for 'bun'"),
        other => panic!("unexpected {other:?}"),
    }
    match parse_x_request(&args(&["python@3.12"]), &index) {
        Parsed::Request(r) => {
            assert_eq!(r.tool, "python");
            assert_eq!(r.root_package, XRootPackage::Formula("python@3.12".to_string()));
        }
        other => panic!("unexpected {other:?}"),
    }
    match parse_x_request(&args(&["-!", "+ripgrep", "rg", "script", "a"]), &index) {
        Parsed::Request(r) => {
            assert_eq!(r.tool, "rg");
            assert_eq!(r.tool_args_from, 4);
        }
        other => panic!("unexpected {other:?}"),
    }
    match parse_x_request(&args(&["+ripgrep", "rg", "--version"]), &index) {
        Parsed::Request(r) => {
            assert_eq!(r.tool, "rg");
            assert_eq!(r.tool_args_from, 2);
            assert_eq!(r.root_package, XRootPackage::Formula("ripgrep".to_string()));
        }
        other => panic!("unexpected {other:?}"),
    }
    match parse_x_request(&args(&["zzz"]), &index) {
        Parsed::Failed { message, with_usage } => {
            assert_eq!(message, "no Homebrew formula found for 'zzz'");
            assert!(!with_usage);
        }
        other => panic!("unexpected {other:?}"),
    }
    match parse_x_request(&args(&["a/b"]), &index) {
        Parsed::Failed { message, .. } => assert_eq!(message, "tool name must not contain path separators"),
        other => panic!("unexpected {other:?}"),
    }
    match parse_x_request(&args(&["+"]), &index) {
        Parsed::Failed { message, .. } => assert_eq!(message, "package spec '+' is missing a formula name"),
        other => panic!("unexpected {other:?}"),
    }
}

#[test]
fn install_request_reads_force_and_packages() {
    let aliases = AliasTable::empty();
    match parse_i_request(&args(&["-f", "node", "npm:openclaw"]), &aliases) {
        Parsed::Request(r) => {
            assert!(r.force);
            assert_eq!(
                r.packages,
                vec![
                    RequestedPackage::Auto("node".to_string()),
                    RequestedPackage::NpmPackage("openclaw".to_string())
                ]
            );
        }
        other => panic!("unexpected {other:?}"),
    }
    match parse_i_request(&args(&[]), &aliases) {
        Parsed::Failed { message, with_usage } => {
            assert_eq!(message, "missing package name");
            assert!(with_usage);
        }
        other => panic!("unexpected {other:?}"),
    }
}

#[test]
fn invocation_reads_mode_from_binary_name() {
    let x = Invocation::from_program(&b"/usr/local/bin/x".to_vec());
    assert_eq!(x.mode, Some(Mode::X));
    assert_eq!(x.name, "x");
    let i = Invocation::from_program(&b"install".to_vec());
    assert_eq!(i.mode, Some(Mode::I));
    let none = Invocation::from_program(&b"/usr/bin/..".to_vec());
    assert_eq!(none.binary_name, "subs");
    assert_eq!(none.mode, None);
    let bad = Invocation::from_program(&b"/opt/\xff".to_vec());
    assert_eq!(bad.binary_name, "subs");
    let in_bad_dir = Invocation::from_program(&b"/tmp/\xff/x".to_vec());
    assert_eq!(in_bad_dir.binary_name, "x");
    assert_eq!(in_bad_dir.mode, Some(Mode::X));
    assert_eq!(Invocation::from_program(&b"bin/run/./".to_vec()).binary_name, "run");
    assert_eq!(Invocation::from_program(&b"".to_vec()).binary_name, "subs");
    assert_eq!(Mode::from_name(Mode::X.canonical_name()), Some(Mode::X));
    assert_eq!(Mode::from_name(Mode::I.canonical_name()), Some(Mode::I));
}

#[test]
fn preferred_formulae_are_stable() {
    use_preferred();
}

fn use_preferred() {
    for formula in ["ffmpeg", "imagemagick", "ripgrep", "ffmpeg-full"] {
        let once = substrate::cli::preferred_run_formula(formula.to_string());
        assert_eq!(substrate::cli::preferred_run_formula(once.clone()), once);
    }
    assert_eq!(substrate::cli::preferred_run_formula("ffmpeg".to_string()), "ffmpeg-full");
    assert_eq!(
        substrate::cli::full_formula_recommendation("imagemagick").unwrap(),
        "info: requested `imagemagick`; `brew:imagemagick-full` is recommended instead"
    );
    assert_eq!(substrate::cli::full_formula_recommendation("jq"), None);
}
