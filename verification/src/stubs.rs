use vstd::prelude::*;

use crate::names::{join_path, path_join};
use crate::text::{
    after_first, before_first, concat2, concat3, contains_char, decimal, decimal_text, has_prefix,
    owned, push_char, split_once, strings_view, strip_prefix,
};
use crate::version::Version;

verus! {

// ---------------------------------------------------------------------------
// Quoting for `sh`

/// What `shell_quote` puts in place of one character: a quote closes the
/// single-quoted text, is written double-quoted, and the single quotes reopen.
pub open spec fn single_quoted_piece(c: char) -> Seq<char> {
    if c == '\'' {
        seq!['\'', '"', '\'', '"', '\'']
    } else {
        seq![c]
    }
}

/// The characters of `v` as they stand between single quotes.
pub open spec fn single_quoted_body(v: Seq<char>) -> Seq<char>
    decreases v.len(),
{
    if v.len() == 0 {
        Seq::empty()
    } else {
        single_quoted_piece(v[0]) + single_quoted_body(v.drop_first())
    }
}

/// `v` as one single-quoted `sh` word.
pub open spec fn single_quoted(v: Seq<char>) -> Seq<char> {
    seq!['\''] + single_quoted_body(v) + seq!['\'']
}

/// `value` quoted for `sh`: between single quotes, each quote written as `'"'"'`.
pub fn shell_quote(value: &str) -> (r: String)
    ensures
        r@ == single_quoted(value@),
{
    let v = crate::text::chars_of(value);
    let mut r = String::new();
    push_char(&mut r, '\'');
    let mut i: usize = 0;
    assert(v@.skip(0) =~= v@);
    while i < v.len()
        invariant
            v@ == value@,
            i <= v@.len(),
            r@ + single_quoted_body(v@.skip(i as int)) == seq!['\''] + single_quoted_body(value@),
        decreases v.len() - i,
    {
        let c = v[i];
        let ghost before = r@;
        let ghost rest = v@.skip(i as int);
        assert(rest[0] == c);
        assert(rest.drop_first() =~= v@.skip(i + 1));
        if c == '\'' {
            push_char(&mut r, '\'');
            push_char(&mut r, '"');
            push_char(&mut r, '\'');
            push_char(&mut r, '"');
            push_char(&mut r, '\'');
        } else {
            push_char(&mut r, c);
        }
        assert(r@ =~= before + single_quoted_piece(c));
        assert(r@ + single_quoted_body(v@.skip(i + 1)) =~= before + single_quoted_body(rest));
        i = i + 1;
    }
    assert(v@.skip(v@.len() as int) =~= Seq::<char>::empty());
    assert(r@ =~= seq!['\''] + single_quoted_body(value@));
    push_char(&mut r, '\'');
    r
}

/// The characters a backslash protects between double quotes.
pub open spec fn double_quote_special(c: char) -> bool {
    c == '\\' || c == '"' || c == '$' || c == '`'
}

/// `v` with a backslash before each character that is special between double quotes.
pub open spec fn double_quote_escaped(v: Seq<char>) -> Seq<char>
    decreases v.len(),
{
    if v.len() == 0 {
        Seq::empty()
    } else {
        (if double_quote_special(v[0]) {
            seq!['\\', v[0]]
        } else {
            seq![v[0]]
        }) + double_quote_escaped(v.drop_first())
    }
}

/// `value` made safe to stand between double quotes in `sh`.
pub fn shell_double_quote_escape(value: &str) -> (r: String)
    ensures
        r@ == double_quote_escaped(value@),
{
    let v = crate::text::chars_of(value);
    let mut r = String::new();
    let mut i: usize = 0;
    assert(v@.skip(0) =~= v@);
    while i < v.len()
        invariant
            v@ == value@,
            i <= v@.len(),
            r@ + double_quote_escaped(v@.skip(i as int)) == double_quote_escaped(value@),
        decreases v.len() - i,
    {
        let c = v[i];
        let ghost before = r@;
        let ghost rest = v@.skip(i as int);
        assert(rest[0] == c);
        assert(rest.drop_first() =~= v@.skip(i + 1));
        if c == '\\' || c == '"' || c == '$' || c == '`' {
            push_char(&mut r, '\\');
        }
        push_char(&mut r, c);
        assert(r@ + double_quote_escaped(v@.skip(i + 1)) =~= before + double_quote_escaped(rest));
        i = i + 1;
    }
    assert(v@.skip(v@.len() as int) =~= Seq::<char>::empty());
    assert(r@ =~= double_quote_escaped(value@));
    r
}

// ---------------------------------------------------------------------------
// How `sh` reads a word made of quoted parts

/// Where the reader stands: outside quotes, inside single quotes, inside
/// double quotes.
pub enum QuoteState {
    Outside,
    Single,
    Double,
}

/// The text `sh` reads from `s` (quotes removed, escapes between double
/// quotes resolved), for words without unquoted special characters.
pub open spec fn shell_read(s: Seq<char>, st: QuoteState) -> Seq<char>
    decreases s.len(),
{
    if s.len() == 0 {
        Seq::empty()
    } else {
        let c = s[0];
        let rest = s.drop_first();
        match st {
            QuoteState::Outside => if c == '\'' {
                shell_read(rest, QuoteState::Single)
            } else if c == '"' {
                shell_read(rest, QuoteState::Double)
            } else {
                seq![c] + shell_read(rest, QuoteState::Outside)
            },
            QuoteState::Single => if c == '\'' {
                shell_read(rest, QuoteState::Outside)
            } else {
                seq![c] + shell_read(rest, QuoteState::Single)
            },
            QuoteState::Double => if c == '"' {
                shell_read(rest, QuoteState::Outside)
            } else if c == '\\' && rest.len() > 0 && double_quote_special(rest[0]) {
                seq![rest[0]] + shell_read(rest.drop_first(), QuoteState::Double)
            } else {
                seq![c] + shell_read(rest, QuoteState::Double)
            },
        }
    }
}

proof fn lemma_read_single_body(v: Seq<char>, t: Seq<char>)
    ensures
        shell_read(single_quoted_body(v) + t, QuoteState::Single) == v + shell_read(t, QuoteState::Single),
    decreases v.len(),
{
    if v.len() == 0 {
        assert(single_quoted_body(v) + t =~= t);
        assert(v + shell_read(t, QuoteState::Single) =~= shell_read(t, QuoteState::Single));
    } else {
        let c = v[0];
        let x = single_quoted_body(v.drop_first()) + t;
        lemma_read_single_body(v.drop_first(), t);
        let s = single_quoted_piece(c) + x;
        assert(single_quoted_body(v) + t =~= s);
        if c == '\'' {
            let s1 = seq!['"', '\'', '"', '\''] + x;
            let s2 = seq!['\'', '"', '\''] + x;
            let s3 = seq!['"', '\''] + x;
            let s4 = seq!['\''] + x;
            assert(s[0] == '\'' && s.drop_first() =~= s1);
            assert(s1[0] == '"' && s1.drop_first() =~= s2);
            assert(s2[0] == '\'' && s2.drop_first() =~= s3);
            assert(s3[0] == '"' && s3.drop_first() =~= s4);
            assert(s4[0] == '\'' && s4.drop_first() =~= x);
            assert(shell_read(s4, QuoteState::Outside) == shell_read(x, QuoteState::Single));
            assert(shell_read(s3, QuoteState::Double) == shell_read(s4, QuoteState::Outside));
            assert(shell_read(s2, QuoteState::Double) == seq!['\''] + shell_read(s3, QuoteState::Double));
            assert(shell_read(s1, QuoteState::Outside) == shell_read(s2, QuoteState::Double));
            assert(shell_read(s, QuoteState::Single) == shell_read(s1, QuoteState::Outside));
        } else {
            assert(s[0] == c && s.drop_first() =~= x);
            assert(shell_read(s, QuoteState::Single) == seq![c] + shell_read(x, QuoteState::Single));
        }
        assert(v =~= seq![c] + v.drop_first());
        assert(seq![c] + (v.drop_first() + shell_read(t, QuoteState::Single)) =~= v + shell_read(t, QuoteState::Single));
    }
}

/// `sh` reads back exactly the quoted text: a single-quoted word stands for
/// `v` itself, whatever characters it holds.
pub proof fn lemma_shell_quote_reads_back(v: Seq<char>)
    ensures
        shell_read(single_quoted(v), QuoteState::Outside) == v,
{
    let s = single_quoted(v);
    let q: Seq<char> = seq!['\''];
    assert(s[0] == '\'');
    assert(s.drop_first() =~= single_quoted_body(v) + q);
    lemma_read_single_body(v, q);
    assert(q[0] == '\'' && q.drop_first() =~= Seq::<char>::empty());
    assert(shell_read(q, QuoteState::Single) == shell_read(Seq::<char>::empty(), QuoteState::Outside));
    assert(v + Seq::<char>::empty() =~= v);
}

proof fn lemma_read_double_body(v: Seq<char>, t: Seq<char>)
    ensures
        shell_read(double_quote_escaped(v) + t, QuoteState::Double) == v + shell_read(t, QuoteState::Double),
    decreases v.len(),
{
    if v.len() == 0 {
        assert(double_quote_escaped(v) + t =~= t);
        assert(v + shell_read(t, QuoteState::Double) =~= shell_read(t, QuoteState::Double));
    } else {
        let c = v[0];
        let x = double_quote_escaped(v.drop_first()) + t;
        lemma_read_double_body(v.drop_first(), t);
        if double_quote_special(c) {
            let s = seq!['\\', c] + x;
            assert(double_quote_escaped(v) + t =~= s);
            assert(s[0] == '\\');
            assert(s.drop_first() =~= seq![c] + x);
            assert((seq![c] + x)[0] == c);
            assert((seq![c] + x).drop_first() =~= x);
            assert(shell_read(s, QuoteState::Double) == seq![c] + shell_read(x, QuoteState::Double));
        } else {
            let s = seq![c] + x;
            assert(double_quote_escaped(v) + t =~= s);
            assert(s[0] == c);
            assert(s.drop_first() =~= x);
            assert(shell_read(s, QuoteState::Double) == seq![c] + shell_read(x, QuoteState::Double));
        }
        assert(v =~= seq![c] + v.drop_first());
        assert(seq![c] + (v.drop_first() + shell_read(t, QuoteState::Double)) =~= v + shell_read(t, QuoteState::Double));
    }
}

/// `sh` reads back exactly the escaped text between double quotes.
pub proof fn lemma_double_quote_escape_reads_back(v: Seq<char>)
    ensures
        shell_read(seq!['"'] + double_quote_escaped(v) + seq!['"'], QuoteState::Outside) == v,
{
    let q: Seq<char> = seq!['"'];
    let s = q + double_quote_escaped(v) + q;
    assert(s[0] == '"');
    assert(s.drop_first() =~= double_quote_escaped(v) + q);
    lemma_read_double_body(v, q);
    assert(q[0] == '"' && q.drop_first() =~= Seq::<char>::empty());
    assert(shell_read(q, QuoteState::Double) == shell_read(Seq::<char>::empty(), QuoteState::Outside));
    assert(v + Seq::<char>::empty() =~= v);
}

// ---------------------------------------------------------------------------
// The stub scripts

/// The comment line that marks a stub as this package manager's.
pub const STUB_HEADER: &'static str = "# substrate stub";

/// The environment variable stubs count their nesting in.
pub const PACKAGE_MAGINAT0R_LVL_ENV: &'static str = "PACKAGE_MAGINAT0R_LVL";

/// How deeply stubs may run one another before one refuses.
pub const STUB_FORK_BOMB_LIMIT: u64 = 32;

/// The start of every stub: the interpreter line, the header line, and the
/// guard that counts nested stubs and stops past the limit.
pub open spec fn prelude_text(header_line: Seq<char>) -> Seq<char> {
    let l = PACKAGE_MAGINAT0R_LVL_ENV@;
    let n = decimal(STUB_FORK_BOMB_LIMIT as nat);
    "#!/bin/sh\n"@ + header_line + "\n"@ + l + "=${"@ + l + ":-0}\n"@ + l + "=$(("@ + l + " + 1))\n"@
        + "if [ \"$"@ + l + "\" -gt "@ + n + " ]; then\n"@ + "  echo \"fork bomb prevented: $"@ + l
        + " exceeded "@ + n + "\" >&2\n"@ + "  exit 1\nfi\n"@ + "export "@ + l + "\n"@
}

/// The start of every stub.
pub fn stub_script_prelude(header_line: &str) -> (r: String)
    ensures
        r@ == prelude_text(header_line@),
{
    let l = PACKAGE_MAGINAT0R_LVL_ENV;
    let n = decimal_text(STUB_FORK_BOMB_LIMIT);
    let mut r = owned("#!/bin/sh\n");
    r.append(header_line);
    r.append("\n");
    r.append(l);
    r.append("=${");
    r.append(l);
    r.append(":-0}\n");
    r.append(l);
    r.append("=$((");
    r.append(l);
    r.append(" + 1))\n");
    r.append("if [ \"$");
    r.append(l);
    r.append("\" -gt ");
    r.append(n.as_str());
    r.append(" ]; then\n");
    r.append("  echo \"fork bomb prevented: $");
    r.append(l);
    r.append(" exceeded ");
    r.append(n.as_str());
    r.append("\" >&2\n");
    r.append("  exit 1\nfi\n");
    r.append("export ");
    r.append(l);
    r.append("\n");
    r
}

/// The header line of a package's stubs.
pub open spec fn stub_header_line(package_name: Seq<char>) -> Seq<char> {
    STUB_HEADER@ + " "@ + package_name
}

/// `parts` joined by `:`, as `PATH` lists directories.
pub open spec fn colon_joined(parts: Seq<Seq<char>>) -> Seq<char>
    decreases parts.len(),
{
    if parts.len() == 0 {
        Seq::empty()
    } else if parts.len() == 1 {
        parts[0]
    } else {
        colon_joined(parts.drop_last()) + ":"@ + parts.last()
    }
}

/// What a stub sets `PATH` to: the package's directories first, else `PATH`
/// unchanged; a directory whose name holds `:` cannot be listed.
pub open spec fn stub_path_value(stub_path: Seq<char>, entries: Seq<Seq<char>>) -> Result<Seq<char>, Seq<char>> {
    if entries.len() == 0 {
        Ok("\"$PATH\""@)
    } else if exists|i: int| 0 <= i < entries.len() && #[trigger] entries[i].contains(':') {
        Err("failed to join PATH for stub "@ + stub_path + ": path segment contains separator `:`"@)
    } else {
        Ok("\""@ + double_quote_escaped(colon_joined(entries)) + ":$PATH\""@)
    }
}

/// The script of a stub that runs `actual_path` with the package's
/// directories first on `PATH`.
pub open spec fn stub_script_text(package_name: Seq<char>, stub_path: Seq<char>, actual_path: Seq<char>, entries: Seq<Seq<char>>) -> Result<Seq<char>, Seq<char>> {
    match stub_path_value(stub_path, entries) {
        Ok(p) => Ok(prelude_text(stub_header_line(package_name)) + "PATH="@ + p + "\nexport PATH\nexec "@
            + single_quoted(actual_path) + " \"$@\"\n"@),
        Err(e) => Err(e),
    }
}

/// The script of the stub at `stub_path` that runs `actual_path`.
pub fn stub_script(package_name: &str, stub_path: &str, actual_path: &str, env_entries: &Vec<String>) -> (r: Result<String, String>)
    ensures
        match (r, stub_script_text(package_name@, stub_path@, actual_path@, strings_view(env_entries@))) {
            (Ok(a), Ok(b)) => a@ == b,
            (Err(a), Err(b)) => a@ == b,
            _ => false,
        },
{
    let ghost es = strings_view(env_entries@);
    let path_prefix = if env_entries.len() == 0 {
        owned("\"$PATH\"")
    } else {
        let mut joined = String::new();
        let mut i: usize = 0;
        assert(es.take(0) =~= Seq::<Seq<char>>::empty());
        while i < env_entries.len()
            invariant
                es == strings_view(env_entries@),
                i <= env_entries@.len(),
                joined@ == colon_joined(es.take(i as int)),
                forall|j: int| 0 <= j < i ==> !(#[trigger] es[j]).contains(':'),
            decreases env_entries.len() - i,
        {
            assert(es.take(i + 1).drop_last() =~= es.take(i as int));
            assert(es.take(i + 1).last() == env_entries@[i as int]@);
            if contains_char(env_entries[i].as_str(), ':') {
                return Err(concat3("failed to join PATH for stub ", stub_path, ": path segment contains separator `:`"));
            }
            if i > 0 {
                joined.append(":");
            } else {
                assert(es.take(1)[0] == env_entries@[0]@);
            }
            joined.append(env_entries[i].as_str());
            i = i + 1;
        }
        assert(es.take(es.len() as int) =~= es);
        let escaped = shell_double_quote_escape(joined.as_str());
        let mut p = owned("\"");
        p.append(escaped.as_str());
        p.append(":$PATH\"");
        p
    };
    let header = concat3(STUB_HEADER, " ", package_name);
    let mut script = stub_script_prelude(header.as_str());
    script.append("PATH=");
    script.append(path_prefix.as_str());
    script.append("\nexport PATH\nexec ");
    script.append(shell_quote(actual_path).as_str());
    script.append(" \"$@\"\n");
    Ok(script)
}

/// The script of a stub that runs `actual_path` inside the virtual
/// environment at `venv_root`.
pub open spec fn venv_stub_text(package_name: Seq<char>, actual_path: Seq<char>, venv_root: Seq<char>) -> Seq<char> {
    prelude_text(stub_header_line(package_name)) + "VIRTUAL_ENV="@ + single_quoted(venv_root)
        + "\nexport VIRTUAL_ENV\nunset PYTHONHOME\nPATH=\""@ + double_quote_escaped(path_join(venv_root, "bin"@))
        + ":$PATH\"\nexport PATH\nexec "@ + single_quoted(actual_path) + " \"$@\"\n"@
}

/// The script of a stub that runs a program of a Python virtual environment.
pub fn venv_stub_script(package_name: &str, actual_path: &str, venv_root: &str) -> (r: String)
    ensures
        r@ == venv_stub_text(package_name@, actual_path@, venv_root@),
{
    let venv_bin = join_path(venv_root, "bin");
    let header = concat3(STUB_HEADER, " ", package_name);
    let mut script = stub_script_prelude(header.as_str());
    script.append("VIRTUAL_ENV=");
    script.append(shell_quote(venv_root).as_str());
    script.append("\nexport VIRTUAL_ENV\nunset PYTHONHOME\nPATH=\"");
    script.append(shell_double_quote_escape(venv_bin.as_str()).as_str());
    script.append(":$PATH\"\nexport PATH\nexec ");
    script.append(shell_quote(actual_path).as_str());
    script.append(" \"$@\"\n");
    script
}

// ---------------------------------------------------------------------------
// Which stubs to write and remove

/// Whether `name` is not among the excluded names.
pub open spec fn kept_name(excluded: Seq<Seq<char>>) -> spec_fn((String, String)) -> bool {
    |e: (String, String)| !excluded.contains(e.0@)
}

/// Whether `name` is among `names`.
pub fn contains_name(names: &Vec<String>, name: &str) -> (r: bool)
    ensures
        r == strings_view(names@).contains(name@),
{
    let mut i: usize = 0;
    while i < names.len()
        invariant
            i <= names@.len(),
            forall|j: int| 0 <= j < i ==> names@[j]@ != name@,
        decreases names.len() - i,
    {
        if crate::text::str_eq(names[i].as_str(), name) {
            assert(strings_view(names@)[i as int] == name@);
            return true;
        }
        i = i + 1;
    }
    assert forall|j: int| 0 <= j < strings_view(names@).len() implies strings_view(names@)[j] != name@ by {
        assert(strings_view(names@)[j] == names@[j]@);
    }
    false
}

/// The executables (name and path) whose name is not excluded, in order.
pub fn filter_stub_executables(executables: Vec<(String, String)>, excluded_stubs: &Vec<String>) -> (r: Vec<(String, String)>)
    ensures
        r@ == executables@.filter(kept_name(strings_view(excluded_stubs@))),
{
    let ghost keep = kept_name(strings_view(excluded_stubs@));
    let mut rest = executables;
    let ghost orig = rest@;
    let mut rev: Vec<(String, String)> = Vec::new();
    while rest.len() > 0
        invariant
            rev@.len() + rest@.len() == orig.len(),
            rest@ =~= orig.take(rest@.len() as int),
            forall|j: int| 0 <= j < rev@.len() ==> #[trigger] rev@[j] == orig[orig.len() - 1 - j],
        decreases rest.len(),
    {
        let x = rest.pop().unwrap();
        rev.push(x);
    }
    let ghost n = orig.len();
    let mut r: Vec<(String, String)> = Vec::new();
    proof {
        reveal(Seq::filter);
        assert(orig.take(0).filter(keep) =~= Seq::<(String, String)>::empty());
    }
    while rev.len() > 0
        invariant
            n == orig.len(),
            keep == kept_name(strings_view(excluded_stubs@)),
            rev@.len() <= n,
            forall|j: int| 0 <= j < rev@.len() ==> #[trigger] rev@[j] == orig[n - 1 - j],
            r@ == orig.take(n - rev@.len()).filter(keep),
        decreases rev.len(),
    {
        let ghost k: int = n - rev@.len();
        let x = rev.pop().unwrap();
        assert(x == orig[k]);
        proof {
            reveal(Seq::filter);
            assert(orig.take(k + 1).drop_last() =~= orig.take(k));
            assert(orig.take(k + 1).last() == x);
        }
        if !contains_name(excluded_stubs, x.0.as_str()) {
            r.push(x);
        }
    }
    assert(orig.take(n as int) =~= orig);
    r
}

/// The stubs written before that no current executable is named, in order.
pub open spec fn stale_names(previous: Seq<Seq<char>>, current: Seq<Seq<char>>) -> Seq<Seq<char>> {
    previous.filter(|p: Seq<char>| !current.contains(p))
}

/// The names of the executables.
pub open spec fn executable_names(current: Seq<(String, String)>) -> Seq<Seq<char>> {
    current.map_values(|e: (String, String)| e.0@)
}

/// The stubs written before that the current executables no longer need.
pub fn stale_stubs(previous: &Vec<String>, current: &Vec<(String, String)>) -> (r: Vec<String>)
    ensures
        strings_view(r@) == stale_names(strings_view(previous@), executable_names(current@)),
{
    let ghost ps = strings_view(previous@);
    let ghost cs = executable_names(current@);
    let mut names: Vec<String> = Vec::new();
    let mut j: usize = 0;
    while j < current.len()
        invariant
            j <= current@.len(),
            cs == executable_names(current@),
            strings_view(names@) == cs.take(j as int),
        decreases current.len() - j,
    {
        let ghost prev = strings_view(names@);
        names.push(current[j].0.clone());
        assert(strings_view(names@) =~= prev.push(cs[j as int]));
        assert(cs.take(j + 1) =~= cs.take(j as int).push(cs[j as int]));
        j = j + 1;
    }
    assert(cs.take(cs.len() as int) =~= cs);
    let mut r: Vec<String> = Vec::new();
    let mut i: usize = 0;
    proof {
        reveal(Seq::filter);
        assert(ps.take(0).filter(|p: Seq<char>| !cs.contains(p)) =~= Seq::<Seq<char>>::empty());
    }
    while i < previous.len()
        invariant
            i <= previous@.len(),
            ps == strings_view(previous@),
            strings_view(names@) == cs,
            strings_view(r@) == ps.take(i as int).filter(|p: Seq<char>| !cs.contains(p)),
        decreases previous.len() - i,
    {
        proof {
            reveal(Seq::filter);
            assert(ps.take(i + 1).drop_last() =~= ps.take(i as int));
            assert(ps.take(i + 1).last() == previous@[i as int]@);
        }
        if !contains_name(&names, previous[i].as_str()) {
            let ghost prev = strings_view(r@);
            r.push(previous[i].clone());
            assert(strings_view(r@) =~= prev.push(previous@[i as int]@));
        }
        i = i + 1;
    }
    assert(ps.take(ps.len() as int) =~= ps);
    r
}

/// The stubs of every installed package but `excluded_package`, each once.
pub open spec fn stubs_of_others(manifests: Seq<(Seq<char>, Seq<Seq<char>>)>, excluded: Seq<char>) -> Set<Seq<char>> {
    Set::new(|s: Seq<char>| exists|i: int| 0 <= i < manifests.len() && manifests[i].0 != excluded && #[trigger] manifests[i].1.contains(s))
}

/// The manifests as plain values.
pub open spec fn manifests_view(m: Seq<(String, Vec<String>)>) -> Seq<(Seq<char>, Seq<Seq<char>>)> {
    m.map_values(|e: (String, Vec<String>)| (e.0@, strings_view(e.1@)))
}

/// The stubs that installed packages other than `excluded_package` also
/// provide, from each package's name and stub manifest.
pub fn collect_shared_stubs(manifests: &Vec<(String, Vec<String>)>, excluded_package: &str) -> (r: Vec<String>)
    ensures
        strings_view(r@).to_set() == stubs_of_others(manifests_view(manifests@), excluded_package@),
{
    let ghost mv = manifests_view(manifests@);
    let mut shared: Vec<String> = Vec::new();
    let mut i: usize = 0;
    while i < manifests.len()
        invariant
            i <= manifests@.len(),
            mv == manifests_view(manifests@),
            strings_view(shared@).to_set() == stubs_of_others(mv.take(i as int), excluded_package@),
        decreases manifests.len() - i,
    {
        let ghost before = strings_view(shared@).to_set();
        assert(mv[i as int] == (manifests@[i as int].0@, strings_view(manifests@[i as int].1@)));
        if !crate::text::str_eq(manifests[i].0.as_str(), excluded_package) {
            let stubs = &manifests[i].1;
            let ghost ss = strings_view(stubs@);
            let mut j: usize = 0;
            while j < stubs.len()
                invariant
                    j <= stubs@.len(),
                    ss == strings_view(stubs@),
                    strings_view(shared@).to_set() == before.union(ss.take(j as int).to_set()),
                decreases stubs.len() - j,
            {
                let ghost prev = strings_view(shared@);
                crate::post_install_hooks::push_unique_string(&mut shared, stubs[j].clone());
                proof {
                    assert(ss.take(j + 1) =~= ss.take(j as int).push(ss[j as int]));
                    crate::order::lemma_insert_to_set(ss.take(j as int), j as int, ss[j as int]);
                    assert(ss.take(j as int).insert(j as int, ss[j as int]) =~= ss.take(j + 1));
                    if prev.contains(ss[j as int]) {
                        assert(prev.to_set().contains(ss[j as int]));
                    } else {
                        crate::order::lemma_insert_to_set(prev, prev.len() as int, ss[j as int]);
                        assert(prev.insert(prev.len() as int, ss[j as int]) =~= prev.push(ss[j as int]));
                    }
                    assert(strings_view(shared@).to_set() =~= before.union(ss.take(j + 1).to_set()));
                }
                j = j + 1;
            }
            proof {
                assert(ss.take(ss.len() as int) =~= ss);
                assert(stubs_of_others(mv.take(i + 1), excluded_package@) =~= stubs_of_others(mv.take(i as int), excluded_package@).union(ss.to_set())) by {
                    assert forall|s: Seq<char>| stubs_of_others(mv.take(i + 1), excluded_package@).contains(s) <==> stubs_of_others(mv.take(i as int), excluded_package@).union(ss.to_set()).contains(s) by {
                        if stubs_of_others(mv.take(i + 1), excluded_package@).contains(s) {
                            let k = choose|k: int| 0 <= k < mv.take(i + 1).len() && mv.take(i + 1)[k].0 != excluded_package@ && #[trigger] mv.take(i + 1)[k].1.contains(s);
                            if k < i {
                                assert(mv.take(i as int)[k] == mv.take(i + 1)[k]);
                            }
                        }
                        if stubs_of_others(mv.take(i as int), excluded_package@).contains(s) {
                            let k = choose|k: int| 0 <= k < mv.take(i as int).len() && mv.take(i as int)[k].0 != excluded_package@ && #[trigger] mv.take(i as int)[k].1.contains(s);
                            assert(mv.take(i + 1)[k] == mv.take(i as int)[k]);
                        }
                        if ss.to_set().contains(s) {
                            assert(mv.take(i + 1)[i as int] == mv[i as int]);
                            assert(ss.contains(s));
                            assert(mv.take(i + 1)[i as int].1.contains(s));
                            assert(mv.take(i + 1)[i as int].0 != excluded_package@);
                        }
                    }
                }
            }
        } else {
            proof {
                assert(stubs_of_others(mv.take(i + 1), excluded_package@) =~= stubs_of_others(mv.take(i as int), excluded_package@)) by {
                    assert forall|s: Seq<char>| stubs_of_others(mv.take(i + 1), excluded_package@).contains(s) <==> stubs_of_others(mv.take(i as int), excluded_package@).contains(s) by {
                        if stubs_of_others(mv.take(i + 1), excluded_package@).contains(s) {
                            let k = choose|k: int| 0 <= k < mv.take(i + 1).len() && mv.take(i + 1)[k].0 != excluded_package@ && #[trigger] mv.take(i + 1)[k].1.contains(s);
                            assert(k != i);
                            assert(mv.take(i as int)[k] == mv.take(i + 1)[k]);
                        }
                        if stubs_of_others(mv.take(i as int), excluded_package@).contains(s) {
                            let k = choose|k: int| 0 <= k < mv.take(i as int).len() && mv.take(i as int)[k].0 != excluded_package@ && #[trigger] mv.take(i as int)[k].1.contains(s);
                            assert(mv.take(i + 1)[k] == mv.take(i as int)[k]);
                        }
                    }
                }
            }
        }
        i = i + 1;
    }
    assert(mv.take(mv.len() as int) =~= mv);
    shared
}

/// The stubs of a package that no other installed package provides, in order:
/// those to remove with it.
pub fn unshared_stubs(stubs: &Vec<String>, shared: &Vec<String>) -> (r: Vec<String>)
    ensures
        strings_view(r@) == strings_view(stubs@).filter(|s: Seq<char>| !strings_view(shared@).contains(s)),
{
    let ghost ss = strings_view(stubs@);
    let ghost sh = strings_view(shared@);
    let mut r: Vec<String> = Vec::new();
    let mut i: usize = 0;
    proof {
        reveal(Seq::filter);
        assert(ss.take(0).filter(|s: Seq<char>| !sh.contains(s)) =~= Seq::<Seq<char>>::empty());
    }
    while i < stubs.len()
        invariant
            i <= stubs@.len(),
            ss == strings_view(stubs@),
            sh == strings_view(shared@),
            strings_view(r@) == ss.take(i as int).filter(|s: Seq<char>| !sh.contains(s)),
        decreases stubs.len() - i,
    {
        proof {
            reveal(Seq::filter);
            assert(ss.take(i + 1).drop_last() =~= ss.take(i as int));
            assert(ss.take(i + 1).last() == stubs@[i as int]@);
        }
        if !contains_name(shared, stubs[i].as_str()) {
            let ghost prev = strings_view(r@);
            r.push(stubs[i].clone());
            assert(strings_view(r@) =~= prev.push(stubs@[i as int]@));
        }
        i = i + 1;
    }
    assert(ss.take(ss.len() as int) =~= ss);
    r
}

} // verus!
