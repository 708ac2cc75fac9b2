use substrate::stubs::{
    collect_shared_stubs, filter_stub_executables, shell_double_quote_escape, shell_quote,
    stale_stubs, stub_script, stub_script_prelude, unshared_stubs, venv_stub_script,
    PACKAGE_MAGINAT0R_LVL_ENV, STUB_FORK_BOMB_LIMIT, STUB_HEADER,
};

#[test]
fn quoting_for_the_shell() {
    assert_eq!(shell_quote("/opt/a b/bin/x"), "'/opt/a b/bin/x'");
    assert_eq!(shell_quote("it's"), "'it'\"'\"'s'");
    assert_eq!(shell_quote(""), "''");
    assert_eq!(shell_double_quote_escape("a\"b$c`d\\e f"), "a\\\"b\\$c\\`d\\\\e f");
    assert_eq!(shell_double_quote_escape("plain"), "plain");
}

#[test]
fn prelude_guards_against_nested_stubs() {
    let lvl = PACKAGE_MAGINAT0R_LVL_ENV;
    let limit = STUB_FORK_BOMB_LIMIT;
    let expected = format!(
        "#!/bin/sh\nHEAD\n{lvl}=${{{lvl}:-0}}\n{lvl}=$(({lvl} + 1))\nif [ \"${lvl}\" -gt {limit} ]; then\n  echo \"fork bomb prevented: ${lvl} exceeded {limit}\" >&2\n  exit 1\nfi\nexport {lvl}\n"
    );
    assert_eq!(stub_script_prelude("HEAD"), expected);
}

#[test]
fn stub_scripts_run_the_package_executable() {
    let script = stub_script("ripgrep", "/usr/local/bin/rg", "/opt/ripgrep/bin/rg", &vec![]).unwrap();
    let prelude = stub_script_prelude(&format!("{STUB_HEADER} ripgrep"));
    assert_eq!(
        script,
        format!("{prelude}PATH=\"$PATH\"\nexport PATH\nexec '/opt/ripgrep/bin/rg' \"$@\"\n")
    );
    let script = stub_script(
        "qmd",
        "/usr/local/bin/qmd",
        "/opt/qmd/bin/qmd",
        &vec!["/opt/qmd/bin".to_string(), "/opt/qmd/node/bin".to_string()],
    )
    .unwrap();
    assert!(script.contains("PATH=\"/opt/qmd/bin:/opt/qmd/node/bin:$PATH\"\n"));
    assert_eq!(
        stub_script("x", "/usr/local/bin/x", "/x", &vec!["a:b".to_string()]).unwrap_err(),
        "failed to join PATH for stub /usr/local/bin/x: path segment contains separator `:`"
    );
    let venv = venv_stub_script("pip:black", "/opt/pip/black/venv/bin/black", "/opt/pip/black/venv");
    assert!(venv.contains("VIRTUAL_ENV='/opt/pip/black/venv'\nexport VIRTUAL_ENV\nunset PYTHONHOME\nPATH=\"/opt/pip/black/venv/bin:$PATH\"\n"));
    assert!(venv.ends_with("exec '/opt/pip/black/venv/bin/black' \"$@\"\n"));
}

#[test]
fn stub_sets_are_filtered() {
    let execs = vec![
        ("a".to_string(), "/p/a".to_string()),
        ("b".to_string(), "/p/b".to_string()),
        ("c".to_string(), "/p/c".to_string()),
    ];
    let kept = filter_stub_executables(execs.clone(), &vec!["b".to_string()]);
    assert_eq!(kept, vec![("a".to_string(), "/p/a".to_string()), ("c".to_string(), "/p/c".to_string())]);
    assert_eq!(stale_stubs(&vec!["a".to_string(), "z".to_string()], &kept), vec!["z"]);
    let manifests = vec![
        ("one".to_string(), vec!["x".to_string(), "y".to_string()]),
        ("two".to_string(), vec!["y".to_string(), "z".to_string()]),
    ];
    let mut shared = collect_shared_stubs(&manifests, "one");
    shared.sort();
    assert_eq!(shared, vec!["y", "z"]);
    assert_eq!(unshared_stubs(&vec!["x".to_string(), "y".to_string()], &shared), vec!["x"]);
}

/// Reads a word made of single- and double-quoted parts the way `sh` does.
fn sh_read(word: &str) -> String {
    let chars: Vec<char> = word.chars().collect();
    let mut out = String::new();
    let mut i = 0;
    let mut state = 0; // 0 outside, 1 single, 2 double
    while i < chars.len() {
        let c = chars[i];
        match state {
            0 => match c {
                '\'' => state = 1,
                '"' => state = 2,
                _ => out.push(c),
            },
            1 => match c {
                '\'' => state = 0,
                _ => out.push(c),
            },
            _ => {
                if c == '"' {
                    state = 0;
                } else if c == '\\' && i + 1 < chars.len() && matches!(chars[i + 1], '\\' | '"' | '$' | '`') {
                    out.push(chars[i + 1]);
                    i += 1;
                } else {
                    out.push(c);
                }
            }
        }
        i += 1;
    }
    out
}

#[test]
fn quoted_words_read_back_unchanged() {
    for text in ["plain", "it's", "'''", "a \"b\" $c `d` \\e", "", "ünïcødé 'x'"] {
        assert_eq!(sh_read(&shell_quote(text)), text);
        assert_eq!(sh_read(&format!("\"{}\"", shell_double_quote_escape(text))), text);
    }
}
