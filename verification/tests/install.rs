use substrate::info::PackageReceiptSource;
use substrate::install::{
    install_outcome, install_receipt, kept_names, next_install_state, start_install, InstallEvent, InstallKind, InstallTarget,
    InstallStep,
};
use substrate::vendor;
use substrate::version::parse_semver;
use InstallStep::{Activate, CheckDependencies, CheckRoot, Done, InstallDependencies, InstallRoot, ListStubs, PrepareRootArea, ReinstallDependencyTree, SyncStubs, WriteReceipt};

fn run(kind: InstallKind, has_dependencies: bool, deps_current: bool, root_current: bool) -> Vec<InstallStep> {
    let mut state = start_install(kind, has_dependencies);
    let mut steps = vec![state.step];
    let mut guard = 0;
    while state.step != InstallStep::Done {
        let event = match state.step {
            InstallStep::CheckDependencies => InstallEvent::Answer(deps_current),
            InstallStep::CheckRoot => InstallEvent::Answer(root_current),
            _ => InstallEvent::Finished,
        };
        state = next_install_state(state, event);
        steps.push(state.step);
        guard += 1;
        assert!(guard <= 10);
    }
    steps
}

#[test]
fn install_steps_follow_what_is_current() {
    assert_eq!(
        run(InstallKind::Vendor, true, false, false),
        vec![CheckDependencies, InstallDependencies, CheckRoot, InstallRoot, Activate, WriteReceipt, SyncStubs, ListStubs, Done]
    );
    assert_eq!(
        run(InstallKind::Vendor, false, true, false),
        vec![CheckDependencies, CheckRoot, PrepareRootArea, InstallRoot, Activate, WriteReceipt, SyncStubs, ListStubs, Done]
    );
    assert_eq!(
        run(InstallKind::Npm, true, true, false),
        vec![CheckDependencies, CheckRoot, ReinstallDependencyTree, InstallRoot, Activate, WriteReceipt, SyncStubs, ListStubs, Done]
    );
    assert_eq!(
        run(InstallKind::Pip, false, true, false),
        vec![CheckDependencies, CheckRoot, ReinstallDependencyTree, InstallRoot, Activate, WriteReceipt, SyncStubs, ListStubs, Done]
    );
    assert_eq!(
        run(InstallKind::Pip, true, true, true),
        vec![CheckDependencies, CheckRoot, Activate, WriteReceipt, SyncStubs, ListStubs, Done]
    );
    let s = start_install(InstallKind::Npm, true);
    assert_eq!(next_install_state(s, InstallEvent::Finished), s);
}

#[test]
fn install_receipts_record_the_version() {
    let version = parse_semver("1.2.3-beta.1", "x").unwrap();
    let receipt = install_receipt(
        "npm:x".to_string(),
        &version,
        PackageReceiptSource::Npm { package_name: "x".to_string() },
    );
    assert_eq!(receipt.version, "1.2.3-beta.1");
    assert_eq!(receipt.package_name, "npm:x");
}

#[test]
fn install_outcome_records_the_source_and_the_kept_stubs() {
    let node = vendor::get("node").unwrap();
    let root = InstallTarget::Vendor(node);
    assert_eq!(root.kind(), InstallKind::Vendor);
    let outcome = install_outcome("node".to_string(), &root, "24.1.0".to_string(), &vec!["npx".to_string()]);
    assert_eq!(outcome.receipt.package_name, "node");
    assert_eq!(outcome.receipt.version, "24.1.0");
    assert_eq!(outcome.receipt.source, PackageReceiptSource::Vendor { vendor_name: "node".to_string() });
    assert_eq!(outcome.stubs, vec!["node".to_string(), "npm".to_string()]);

    let root = InstallTarget::Npm("@tobilu/qmd".to_string());
    assert_eq!(root.kind(), InstallKind::Npm);
    let outcome = install_outcome("npm:@tobilu/qmd".to_string(), &root, "1.2.3".to_string(), &vec![]);
    assert_eq!(outcome.receipt.source, PackageReceiptSource::Npm { package_name: "@tobilu/qmd".to_string() });
    assert_eq!(outcome.stubs, vec!["qmd".to_string()]);
    let outcome = install_outcome("npm:@tobilu/qmd".to_string(), &root, "1.2.3".to_string(), &vec!["qmd".to_string()]);
    assert!(outcome.stubs.is_empty());

    let root = InstallTarget::Pip {
        pip_package: "httpie".to_string(),
        entry_points: vec!["https".to_string(), "http".to_string(), "httpie".to_string()],
    };
    assert_eq!(root.kind(), InstallKind::Pip);
    let outcome = install_outcome("pip:httpie".to_string(), &root, "3.2.4".to_string(), &vec!["httpie".to_string()]);
    assert_eq!(outcome.receipt.source, PackageReceiptSource::Pip { package_name: "httpie".to_string() });
    assert_eq!(outcome.receipt.version, "3.2.4");
    assert_eq!(outcome.stubs, vec!["http".to_string(), "https".to_string()]);
}

#[test]
fn kept_names_drop_the_excluded_in_order() {
    let names = vec!["b".to_string(), "a".to_string(), "c".to_string()];
    assert_eq!(kept_names(&names, &vec!["a".to_string()]), vec!["b".to_string(), "c".to_string()]);
    assert_eq!(kept_names(&names, &vec![]), names);
}
