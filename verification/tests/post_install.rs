use substrate::post_install_hooks::python::{
    newest_python, parse_formula_version, python_managed_stubs, python_stub_names,
};
use substrate::post_install_hooks::{
    installed_post_install_formula, merge_managed_stubs, openssl, parse_u64, python,
    push_unique_string, supports,
};
use substrate::info::{PackageReceipt, PackageReceiptSource};

#[test]
fn unsigned_numbers_parse_like_std() {
    for text in ["0", "42", "+7", "", "+", "-1", "1a", "18446744073709551615", "18446744073709551616", "007", " 1"] {
        assert_eq!(parse_u64(text), text.parse::<u64>().ok(), "{text:?}");
    }
}

#[test]
fn python_formulae_and_their_stubs() {
    let v = parse_formula_version("python@3.12").unwrap();
    assert_eq!((v.major, v.minor, v.patch), (3, 12, 0));
    assert!(parse_formula_version("python@3").is_none());
    assert!(parse_formula_version("python@3.12.1").is_none());
    assert!(parse_formula_version("python3.12").is_none());
    assert!(python::supports("python@3.13"));
    assert!(openssl::supports("openssl@3"));
    assert!(!openssl::supports("openssl@1.1"));
    assert!(supports("openssl@3") && supports("python@3.11") && !supports("ripgrep"));
    assert_eq!(python_stub_names(&v), ("python3.12".to_string(), "pip3.12".to_string()));
    assert_eq!(python_managed_stubs(3), vec!["pip", "pip3", "python", "python3"]);
    let versions = vec![
        parse_formula_version("python@3.11").unwrap(),
        parse_formula_version("python@3.13").unwrap(),
        parse_formula_version("python@3.12").unwrap(),
    ];
    assert_eq!(newest_python(&versions), Some(1));
    assert_eq!(newest_python(&Vec::new()), None);
}

#[test]
fn managed_stubs_join_the_manifest() {
    let mut stubs = vec!["b".to_string()];
    push_unique_string(&mut stubs, "a".to_string());
    push_unique_string(&mut stubs, "b".to_string());
    assert_eq!(stubs, vec!["b", "a"]);
    assert_eq!(merge_managed_stubs(stubs.clone(), &Vec::new()), None);
    assert_eq!(
        merge_managed_stubs(stubs, &vec!["python".to_string(), "a".to_string(), "pip".to_string()]),
        Some(vec!["a".to_string(), "b".to_string(), "pip".to_string(), "python".to_string()])
    );
    let receipt = PackageReceipt {
        package_name: "python@3.12".to_string(),
        source: PackageReceiptSource::Formula { root_formula: "python@3.12".to_string() },
        version: "3.12.1".to_string(),
    };
    assert_eq!(installed_post_install_formula(Some(receipt)), Some("python@3.12".to_string()));
    assert_eq!(installed_post_install_formula(None), None);
}

#[test]
fn printed_numbers_read_back() {
    for n in [0u64, 7, 10, 12345, u64::MAX] {
        assert_eq!(parse_u64(&substrate::text::decimal_text(n)), Some(n));
    }
}
