//! Check providers: their identities, the rules by which each applies to a
//! project, and the parsers that turn tool output into issues.
use vstd::prelude::*;

use crate::detect::{any_exists, any_exists_exec, eslint_configs, exists_exec, exists_in, ProjectFacts};
use crate::error::CheckerError;
use crate::output::{issue_views, plain_issue, CheckIssue, IssueView, Severity};
use crate::text::{
    after, ascii_lower, ascii_lower_str, before, find, find_exec, lemma_find, lines, lines_vec,
    parse_u32, parse_unsigned, slice_of, starts_with, starts_with_exec, string_from, to_chars,
    trim, trim_start_char, trim_start_char_exec, trim_vec, vec_eq, views, strs, str_eq,
};

verus! {

// ---------------------------------------------------------------------------
// Severity mapping
// ---------------------------------------------------------------------------

/// The unified severity for a tool's severity word, compared without
/// regard to case. `str::to_lowercase` is what the comparison is made on;
/// every word matched here is ASCII, and the only non-ASCII character
/// whose lowercase is an ASCII letter is the Kelvin sign (to `k`), which
/// none of the words holds, so comparing ASCII-lowercased text gives the
/// same answers.
pub open spec fn spec_map_severity(s: Seq<char>) -> Severity {
    let l = ascii_lower_str(s);
    if l == "error"@ || l == "fatal"@ || l == "err"@ {
        Severity::Error
    } else if l == "warning"@ || l == "warn"@ {
        Severity::Warning
    } else if l == "info"@ || l == "information"@ || l == "note"@ {
        Severity::Info
    } else if l == "hint"@ || l == "suggestion"@ {
        Severity::Hint
    } else {
        Severity::Warning
    }
}

/// ASCII lowercase of a character vector.
pub(crate) fn ascii_lower_vec(v: &[char]) -> (r: Vec<char>)
    ensures
        r@ == ascii_lower_str(v@),
{
    let mut r: Vec<char> = Vec::new();
    let mut i: usize = 0;
    while i < v.len()
        invariant
            i <= v@.len(),
            r@ == ascii_lower_str(v@).take(i as int),
        decreases v.len() - i,
    {
        let c = v[i];
        let l = if 'A' <= c && c <= 'Z' {
            let u = (c as u32) + 32;
            assert(u <= 'z' as u32);
            char_of_ascii(u)
        } else {
            c
        };
        assert(l == ascii_lower(v@[i as int]));
        r.push(l);
        i += 1;
        assert(r@ =~= ascii_lower_str(v@).take(i as int));
    }
    assert(ascii_lower_str(v@).take(v@.len() as int) =~= ascii_lower_str(v@));
    r
}

/// The character with a code below 128.
fn char_of_ascii(u: u32) -> (c: char)
    requires
        u < 128,
    ensures
        c == (u as char),
{
    let b: u8 = u as u8;
    b as char
}

/// Map a string severity to our unified `Severity` enum.
pub fn map_severity(s: &str) -> (r: Severity)
    ensures
        r == spec_map_severity(s@),
{
    let l = ascii_lower_vec(&to_chars(s));
    if vec_eq(&l, &to_chars("error")) || vec_eq(&l, &to_chars("fatal")) || vec_eq(
        &l,
        &to_chars("err"),
    ) {
        Severity::Error
    } else if vec_eq(&l, &to_chars("warning")) || vec_eq(&l, &to_chars("warn")) {
        Severity::Warning
    } else if vec_eq(&l, &to_chars("info")) || vec_eq(&l, &to_chars("information")) || vec_eq(
        &l,
        &to_chars("note"),
    ) {
        Severity::Info
    } else if vec_eq(&l, &to_chars("hint")) || vec_eq(&l, &to_chars("suggestion")) {
        Severity::Hint
    } else {
        Severity::Warning
    }
}

/// The unified severity for a numeric level (0 hint, 1 warning, 2 and
/// above error).
pub open spec fn spec_map_severity_number(level: u32) -> Severity {
    if level == 0 {
        Severity::Hint
    } else if level == 1 {
        Severity::Warning
    } else {
        Severity::Error
    }
}

/// Map a numeric severity level (common in many tools) to `Severity`.
pub fn map_severity_number(level: u32) -> (r: Severity)
    ensures
        r == spec_map_severity_number(level),
{
    match level {
        0 => Severity::Hint,
        1 => Severity::Warning,
        _ => Severity::Error,
    }
}

// ---------------------------------------------------------------------------
// Registry
// ---------------------------------------------------------------------------

/// The provider slugs, in priority order.
pub open spec fn provider_slugs() -> Seq<Seq<char>> {
    seq!["biome"@, "tsc"@, "ruff"@, "clippy"@, "phpstan"@, "stylelint"@, "secrets"@]
}

/// List all available provider slugs.
pub fn available_provider_slugs() -> (r: Vec<&'static str>)
    ensures
        r@.len() == provider_slugs().len(),
        forall|i: int| 0 <= i < r@.len() ==> #[trigger] r@[i]@ == provider_slugs()[i],
{
    let r = vec!["biome", "tsc", "ruff", "clippy", "phpstan", "stylelint", "secrets"];
    r
}

// ---------------------------------------------------------------------------
// TypeScript compiler output
// ---------------------------------------------------------------------------

/// The position of the `)` that closes the location of a tsc line.
pub open spec fn tsc_close(line: Seq<char>) -> Option<int> {
    match find(line, seq!['(']) {
        Some(p) => match find(line.skip(p), seq![')']) {
            Some(q) => Some(p + q),
            None => None,
        },
        None => None,
    }
}

/// The severity and the rest of a tsc diagnostic after the location.
pub open spec fn tsc_severity(rest: Seq<char>) -> (Severity, Seq<char>) {
    if starts_with(rest, "error"@) {
        (Severity::Error, trim(rest.skip("error"@.len() as int)))
    } else if starts_with(rest, "warning"@) {
        (Severity::Warning, trim(rest.skip("warning"@.len() as int)))
    } else {
        (Severity::Error, rest)
    }
}

/// The issue a tsc line `file(line,col): error TSxxxx: message` stands
/// for, if it has a parenthesised location.
pub open spec fn spec_tsc_line(line: Seq<char>) -> Option<IssueView> {
    match (find(line, seq!['(']), tsc_close(line)) {
        (Some(p), Some(q)) => {
            let file = line.take(p);
            let location = line.subrange(p + 1, q);
            let line_num = parse_unsigned(before(location, seq![',']), u32::MAX as int);
            let col_num = match after(location, seq![',']) {
                Some(r) => parse_unsigned(before(r, seq![',']), u32::MAX as int),
                None => None,
            };
            let rest = trim(trim_start_char(line.skip(q + 1), ':'));
            let (severity, rest) = tsc_severity(rest);
            let base = plain_issue(file, severity, rest, "tsc"@);
            let with_msg = match find(rest, seq![':']) {
                Some(c) => IssueView {
                    code: Some(trim(rest.take(c))),
                    message: trim(rest.skip(c + 1)),
                    ..base
                },
                None => base,
            };
            Some(
                match (line_num, col_num) {
                    (Some(l), Some(c)) => IssueView {
                        line: Some(l as u32),
                        column: Some(c as u32),
                        ..with_msg
                    },
                    _ => with_msg,
                },
            )
        },
        _ => None,
    }
}

/// `str::parse::<u32>` on a character vector.
fn parse_u32_chars(v: &[char]) -> (r: Option<u32>)
    ensures
        r matches Some(x) ==> parse_unsigned(v@, u32::MAX as int) == Some(x as int),
        r is None ==> parse_unsigned(v@, u32::MAX as int) is None,
{
    let s = string_from(v);
    parse_u32(s.as_str())
}

/// Parse a single tsc diagnostic line.
pub fn parse_tsc_line(line: &str) -> (r: Option<CheckIssue>)
    ensures
        r matches Some(i) ==> spec_tsc_line(line@) == Some(i@),
        r is None ==> spec_tsc_line(line@) is None,
{
    let v = to_chars(line);
    let n = v.len();
    let open = ['('];
    assert(open@ =~= seq!['(']);
    let close = [')'];
    assert(close@ =~= seq![')']);
    let comma = [','];
    assert(comma@ =~= seq![',']);
    let colon = [':'];
    assert(colon@ =~= seq![':']);
    let p = match find_exec(&v, &open) {
        Some(p) => p,
        None => return None,
    };
    proof {
        lemma_find(v@, seq!['(']);
    }
    let after_open = slice_of(&v, p, n);
    assert(after_open@ =~= v@.skip(p as int));
    let q = match find_exec(&after_open, &close) {
        Some(q0) => {
            proof {
                lemma_find(after_open@, seq![')']);
            }
            p + q0
        },
        None => return None,
    };
    let file = slice_of(&v, 0, p);
    assert(file@ =~= v@.take(p as int));
    let location = slice_of(&v, p + 1, q);
    let line_num = parse_u32_chars(&crate::text::before_exec(&location, &comma));
    let col_num = match crate::text::after_exec(&location, &comma) {
        Some(r) => parse_u32_chars(&crate::text::before_exec(&r, &comma)),
        None => None,
    };
    let tail = slice_of(&v, q + 1, n);
    assert(tail@ =~= v@.skip(q + 1));
    let rest0 = trim_vec(&trim_start_char_exec(&tail, ':'));
    let err = to_chars("error");
    let warn = to_chars("warning");
    let (severity, rest) = if starts_with_exec(&rest0, &err) {
        let k = err.len();
        let m = rest0.len();
        let t = slice_of(&rest0, k, m);
        assert(t@ =~= rest0@.skip(err@.len() as int));
        (Severity::Error, trim_vec(&t))
    } else if starts_with_exec(&rest0, &warn) {
        let k = warn.len();
        let m = rest0.len();
        let t = slice_of(&rest0, k, m);
        assert(t@ =~= rest0@.skip(warn@.len() as int));
        (Severity::Warning, trim_vec(&t))
    } else {
        (Severity::Error, rest0)
    };
    assert((severity, rest@) == tsc_severity(rest0@));
    let (code, message) = match find_exec(&rest, &colon) {
        Some(c) => {
            proof {
                lemma_find(rest@, seq![':']);
            }
            let m = rest.len();
            let head = slice_of(&rest, 0, c);
            assert(head@ =~= rest@.take(c as int));
            let tl = slice_of(&rest, c + 1, m);
            assert(tl@ =~= rest@.skip(c + 1));
            (Some(string_from(&trim_vec(&head))), string_from(&trim_vec(&tl)))
        },
        None => (None, string_from(&rest)),
    };
    let mut issue = CheckIssue::new(
        string_from(&file),
        severity,
        message,
        String::from_str("tsc"),
    );
    match (line_num, col_num) {
        (Some(l), Some(c)) => {
            issue = issue.at(l, c);
        },
        _ => {},
    }
    match code {
        Some(c) => {
            issue = issue.with_code(c);
        },
        None => {},
    }
    Some(issue)
}

/// The trimmed, non-empty lines of a text.
pub open spec fn nonblank_lines(ls: Seq<Seq<char>>) -> Seq<Seq<char>>
    decreases ls.len(),
{
    if ls.len() == 0 {
        seq![]
    } else {
        nonblank_lines(ls.drop_last()) + if trim(ls.last()).len() > 0 {
            seq![trim(ls.last())]
        } else {
            seq![]
        }
    }
}

/// The issues of the lines that parse, in order.
pub open spec fn tsc_issues(ls: Seq<Seq<char>>) -> Seq<IssueView>
    decreases ls.len(),
{
    if ls.len() == 0 {
        seq![]
    } else {
        tsc_issues(ls.drop_last()) + match spec_tsc_line(ls.last()) {
            Some(i) => seq![i],
            None => seq![],
        }
    }
}

/// Parse tsc output into `CheckIssue` structs.
///
/// tsc output format: `file(line,col): error TSxxxx: message`
pub fn parse_tsc_output(output: &str) -> (r: Vec<CheckIssue>)
    ensures
        issue_views(r@) == tsc_issues(nonblank_lines(lines(output@))),
{
    let chars = to_chars(output);
    let ls = lines_vec(&chars);
    let ghost vs = views(ls@);
    let mut issues: Vec<CheckIssue> = Vec::new();
    let ghost mut kept: Seq<Seq<char>> = seq![];
    let mut i: usize = 0;
    while i < ls.len()
        invariant
            i <= ls@.len(),
            vs == views(ls@),
            vs == lines(output@),
            kept == nonblank_lines(vs.take(i as int)),
            issue_views(issues@) == tsc_issues(kept),
        decreases ls.len() - i,
    {
        assert(vs.take(i + 1).drop_last() =~= vs.take(i as int));
        assert(vs.take(i + 1).last() == ls@[i as int]@);
        let t = trim_vec(&ls[i]);
        if t.len() > 0 {
            let s = string_from(&t);
            let ghost old_kept = kept;
            proof {
                kept = kept + seq![t@];
                assert(kept.drop_last() =~= old_kept);
            }
            let ghost o = issues@;
            match parse_tsc_line(s.as_str()) {
                Some(issue) => {
                    issues.push(issue);
                    assert(issue_views(issues@) =~= issue_views(o) + seq![issue@]);
                },
                None => {
                    assert(issue_views(issues@) =~= issue_views(o) + Seq::<IssueView>::empty());
                },
            }
        } else {
            assert(kept =~= kept + Seq::<Seq<char>>::empty());
        }
        i += 1;
    }
    assert(vs.take(ls@.len() as int) =~= vs);
    issues
}

// ---------------------------------------------------------------------------
// Git output
// ---------------------------------------------------------------------------

/// Parse a newline-separated file list from git output: the trimmed,
/// non-empty lines.
pub fn parse_file_list(output: &str) -> (r: Vec<String>)
    ensures
        crate::text::strs(r@) == nonblank_lines(lines(output@)),
{
    let chars = to_chars(output);
    let ls = lines_vec(&chars);
    let ghost vs = views(ls@);
    let mut out: Vec<String> = Vec::new();
    let mut i: usize = 0;
    while i < ls.len()
        invariant
            i <= ls@.len(),
            vs == views(ls@),
            vs == lines(output@),
            crate::text::strs(out@) == nonblank_lines(vs.take(i as int)),
        decreases ls.len() - i,
    {
        assert(vs.take(i + 1).drop_last() =~= vs.take(i as int));
        assert(vs.take(i + 1).last() == ls@[i as int]@);
        let t = trim_vec(&ls[i]);
        let ghost o = out@;
        if t.len() > 0 {
            out.push(string_from(&t));
            assert(crate::text::strs(out@) =~= crate::text::strs(o) + seq![t@]);
        } else {
            assert(crate::text::strs(out@) =~= crate::text::strs(o) + Seq::<Seq<char>>::empty());
        }
        i += 1;
    }
    assert(vs.take(ls@.len() as int) =~= vs);
    out
}


// ---------------------------------------------------------------------------
// Providers
// ---------------------------------------------------------------------------

/// Biome check provider for JS/TS/JSON/CSS.
#[derive(Debug, Clone, Copy)]
pub struct BiomeProvider;

/// TypeScript compiler (type checking) provider.
#[derive(Debug, Clone, Copy)]
pub struct TypeScriptProvider;

/// Ruff check provider for Python.
#[derive(Debug, Clone, Copy)]
pub struct RuffProvider;

/// Clippy check provider for Rust.
#[derive(Debug, Clone, Copy)]
pub struct ClippyProvider;

/// PHPStan static analysis provider for PHP.
#[derive(Debug, Clone, Copy)]
pub struct PHPStanProvider;

/// Stylelint provider for CSS/SCSS.
#[derive(Debug, Clone, Copy)]
pub struct StylelintProvider;

/// Secret scanning provider (gitleaks).
#[derive(Debug, Clone, Copy)]
pub struct SecretScanProvider;

/// One of the check providers.
#[derive(Debug, Clone, Copy, PartialEq, Eq, Structural)]
pub enum Provider {
    Biome,
    TypeScript,
    Ruff,
    Clippy,
    PHPStan,
    Stylelint,
    SecretScan,
}

/// The providers in priority order.
pub open spec fn registry() -> Seq<Provider> {
    seq![
        Provider::Biome,
        Provider::TypeScript,
        Provider::Ruff,
        Provider::Clippy,
        Provider::PHPStan,
        Provider::Stylelint,
        Provider::SecretScan,
    ]
}

/// The slug of a provider.
pub open spec fn spec_slug(p: Provider) -> Seq<char> {
    match p {
        Provider::Biome => "biome"@,
        Provider::TypeScript => "tsc"@,
        Provider::Ruff => "ruff"@,
        Provider::Clippy => "clippy"@,
        Provider::PHPStan => "phpstan"@,
        Provider::Stylelint => "stylelint"@,
        Provider::SecretScan => "secrets"@,
    }
}

/// Ruff project markers.
pub open spec fn ruff_markers() -> Seq<Seq<char>> {
    seq![
        "pyproject.toml"@,
        "requirements.txt"@,
        "setup.py"@,
        "setup.cfg"@,
        "Pipfile"@,
        "ruff.toml"@,
        ".ruff.toml"@,
    ]
}

/// Stylelint configuration files a provider looks for.
pub open spec fn stylelint_markers() -> Seq<Seq<char>> {
    seq![
        ".stylelintrc"@,
        ".stylelintrc.json"@,
        ".stylelintrc.yml"@,
        ".stylelintrc.yaml"@,
        "stylelint.config.js"@,
        "stylelint.config.mjs"@,
        "stylelint.config.cjs"@,
    ]
}

/// Whether a provider applies to a project: Biome with a Biome config, or
/// with a `package.json` and no ESLint config; tsc with a `tsconfig.json`;
/// Ruff with a Python marker; Clippy with a `Cargo.toml`; PHPStan with a
/// `composer.json`; Stylelint with a Stylelint config; the secret scanner
/// in a git repository.
pub open spec fn spec_detect(p: Provider, f: ProjectFacts) -> bool {
    match p {
        Provider::Biome => exists_in(f, "biome.json"@) || exists_in(f, "biome.jsonc"@) || (
        exists_in(f, "package.json"@) && !any_exists(f, eslint_configs())),
        Provider::TypeScript => exists_in(f, "tsconfig.json"@),
        Provider::Ruff => any_exists(f, ruff_markers()),
        Provider::Clippy => exists_in(f, "Cargo.toml"@),
        Provider::PHPStan => exists_in(f, "composer.json"@),
        Provider::Stylelint => any_exists(f, stylelint_markers()),
        Provider::SecretScan => exists_in(f, ".git"@),
    }
}

/// Whether the literals name the same paths as the spec list.
proof fn lemma_any_exists_literals(f: ProjectFacts, ps: Seq<&str>, qs: Seq<Seq<char>>)
    requires
        ps.len() == qs.len(),
        forall|i: int| 0 <= i < ps.len() ==> ps[i]@ == qs[i],
    ensures
        (exists|i: int| 0 <= i < ps.len() && exists_in(f, #[trigger] ps[i]@)) == any_exists(f, qs),
{
    if exists|i: int| 0 <= i < ps.len() && exists_in(f, #[trigger] ps[i]@) {
        let i = choose|i: int| 0 <= i < ps.len() && exists_in(f, #[trigger] ps[i]@);
        assert(exists_in(f, qs[i]));
    }
    if any_exists(f, qs) {
        let i = choose|i: int| 0 <= i < qs.len() && exists_in(f, #[trigger] qs[i]);
        assert(exists_in(f, ps[i]@));
    }
}

impl Provider {
    /// Slug identifier used in config and CLI (e.g. "biome", "tsc").
    pub fn slug(&self) -> (r: &'static str)
        ensures
            r@ == spec_slug(*self),
    {
        match self {
            Provider::Biome => "biome",
            Provider::TypeScript => "tsc",
            Provider::Ruff => "ruff",
            Provider::Clippy => "clippy",
            Provider::PHPStan => "phpstan",
            Provider::Stylelint => "stylelint",
            Provider::SecretScan => "secrets",
        }
    }

    /// Human-readable provider name.
    pub fn name(&self) -> (r: &'static str)
        ensures
            r@ == match *self {
                Provider::Biome => "Biome"@,
                Provider::TypeScript => "TypeScript Compiler"@,
                Provider::Ruff => "Ruff"@,
                Provider::Clippy => "Clippy"@,
                Provider::PHPStan => "PHPStan"@,
                Provider::Stylelint => "Stylelint"@,
                Provider::SecretScan => "Secret Scanner"@,
            },
    {
        match self {
            Provider::Biome => "Biome",
            Provider::TypeScript => "TypeScript Compiler",
            Provider::Ruff => "Ruff",
            Provider::Clippy => "Clippy",
            Provider::PHPStan => "PHPStan",
            Provider::Stylelint => "Stylelint",
            Provider::SecretScan => "Secret Scanner",
        }
    }

    /// Short description of what the provider checks.
    pub fn description(&self) -> (r: &'static str)
        ensures
            r@ == match *self {
                Provider::Biome => "Fast JS/TS/JSON/CSS linter and formatter (Rust-based)"@,
                Provider::TypeScript => "TypeScript type checking via tsc --noEmit"@,
                Provider::Ruff => "Extremely fast Python linter and formatter (Rust-based)"@,
                Provider::Clippy => "Official Rust linter (cargo clippy)"@,
                Provider::PHPStan => "PHP static analysis tool"@,
                Provider::Stylelint => "Industry-standard CSS/SCSS linter"@,
                Provider::SecretScan => "Detect hardcoded secrets and credentials (gitleaks)"@,
            },
    {
        match self {
            Provider::Biome => "Fast JS/TS/JSON/CSS linter and formatter (Rust-based)",
            Provider::TypeScript => "TypeScript type checking via tsc --noEmit",
            Provider::Ruff => "Extremely fast Python linter and formatter (Rust-based)",
            Provider::Clippy => "Official Rust linter (cargo clippy)",
            Provider::PHPStan => "PHP static analysis tool",
            Provider::Stylelint => "Industry-standard CSS/SCSS linter",
            Provider::SecretScan => "Detect hardcoded secrets and credentials (gitleaks)",
        }
    }

    /// The CLI tool the provider requires.
    pub fn tool_name(&self) -> (r: &'static str)
        ensures
            r@ == match *self {
                Provider::Biome => "@biomejs/biome"@,
                Provider::TypeScript => "tsc"@,
                Provider::Ruff => "ruff"@,
                Provider::Clippy => "cargo"@,
                Provider::PHPStan => "phpstan"@,
                Provider::Stylelint => "stylelint"@,
                Provider::SecretScan => "gitleaks"@,
            },
    {
        match self {
            Provider::Biome => "@biomejs/biome",
            Provider::TypeScript => "tsc",
            Provider::Ruff => "ruff",
            Provider::Clippy => "cargo",
            Provider::PHPStan => "phpstan",
            Provider::Stylelint => "stylelint",
            Provider::SecretScan => "gitleaks",
        }
    }

    /// Whether the provider supports `--fix`.
    pub fn supports_fix(&self) -> (r: bool)
        ensures
            r == (*self == Provider::Biome || *self == Provider::Ruff || *self == Provider::Clippy
                || *self == Provider::Stylelint),
    {
        match self {
            Provider::Biome | Provider::Ruff | Provider::Clippy | Provider::Stylelint => true,
            _ => false,
        }
    }

    /// Whether the provider supports `--format`.
    pub fn supports_format(&self) -> (r: bool)
        ensures
            r == (*self == Provider::Biome || *self == Provider::Ruff),
    {
        match self {
            Provider::Biome | Provider::Ruff => true,
            _ => false,
        }
    }

    /// Detect whether this provider is applicable to the project.
    pub fn detect(&self, facts: &ProjectFacts) -> (r: bool)
        ensures
            r == spec_detect(*self, *facts),
    {
        match self {
            Provider::Biome => {
                if exists_exec(facts, "biome.json") || exists_exec(facts, "biome.jsonc") {
                    return true;
                }
                if exists_exec(facts, "package.json") {
                    let es: [&str; 9] = [
                        ".eslintrc",
                        ".eslintrc.js",
                        ".eslintrc.cjs",
                        ".eslintrc.json",
                        ".eslintrc.yml",
                        "eslint.config.js",
                        "eslint.config.mjs",
                        "eslint.config.cjs",
                        "eslint.config.ts",
                    ];
                    let has_eslint = any_exists_exec(facts, &es);
                    proof {
                        lemma_any_exists_literals(*facts, es@, eslint_configs());
                    }
                    return !has_eslint;
                }
                false
            },
            Provider::TypeScript => exists_exec(facts, "tsconfig.json"),
            Provider::Ruff => {
                let ms: [&str; 7] = [
                    "pyproject.toml",
                    "requirements.txt",
                    "setup.py",
                    "setup.cfg",
                    "Pipfile",
                    "ruff.toml",
                    ".ruff.toml",
                ];
                proof {
                    lemma_any_exists_literals(*facts, ms@, ruff_markers());
                }
                any_exists_exec(facts, &ms)
            },
            Provider::Clippy => exists_exec(facts, "Cargo.toml"),
            Provider::PHPStan => exists_exec(facts, "composer.json"),
            Provider::Stylelint => {
                let ms: [&str; 7] = [
                    ".stylelintrc",
                    ".stylelintrc.json",
                    ".stylelintrc.yml",
                    ".stylelintrc.yaml",
                    "stylelint.config.js",
                    "stylelint.config.mjs",
                    "stylelint.config.cjs",
                ];
                proof {
                    lemma_any_exists_literals(*facts, ms@, stylelint_markers());
                }
                any_exists_exec(facts, &ms)
            },
            Provider::SecretScan => exists_exec(facts, ".git"),
        }
    }
}

/// Create a registry of all available check providers.
pub fn create_provider_registry() -> (r: Vec<Provider>)
    ensures
        r@ == registry(),
{
    let r = vec![
        Provider::Biome,
        Provider::TypeScript,
        Provider::Ruff,
        Provider::Clippy,
        Provider::PHPStan,
        Provider::Stylelint,
        Provider::SecretScan,
    ];
    assert(r@ =~= registry());
    r
}

/// Look up a provider by slug from the registry.
pub fn get_provider(slug: &str) -> (r: Result<Provider, CheckerError>)
    ensures
        r matches Ok(p) ==> spec_slug(p) == slug@ && registry().contains(p),
        r is Err <==> (forall|i: int| 0 <= i < registry().len() ==> spec_slug(#[trigger] registry()[i]) != slug@),
        r matches Err(e) ==> e matches CheckerError::ProviderNotFound { slug: s } && s@ == slug@,
{
    let reg = create_provider_registry();
    let mut i: usize = 0;
    while i < reg.len()
        invariant
            i <= reg@.len(),
            reg@ == registry(),
            forall|j: int| 0 <= j < i ==> spec_slug(#[trigger] registry()[j]) != slug@,
        decreases reg.len() - i,
    {
        if crate::text::str_eq(reg[i].slug(), slug) {
            assert(registry()[i as int] == reg@[i as int]);
            return Ok(reg[i]);
        }
        i += 1;
    }
    Err(CheckerError::ProviderNotFound { slug: String::from_str(slug) })
}

/// The providers that apply, in priority order.
pub open spec fn applicable(ps: Seq<Provider>, f: ProjectFacts) -> Seq<Provider>
    decreases ps.len(),
{
    if ps.len() == 0 {
        seq![]
    } else {
        applicable(ps.drop_last(), f) + if spec_detect(ps.last(), f) {
            seq![ps.last()]
        } else {
            seq![]
        }
    }
}

/// Detect which providers are applicable to the given project, in priority
/// order.
pub fn detect_applicable_providers(facts: &ProjectFacts) -> (r: Vec<Provider>)
    ensures
        r@ == applicable(registry(), *facts),
{
    let reg = create_provider_registry();
    let mut out: Vec<Provider> = Vec::new();
    let mut i: usize = 0;
    while i < reg.len()
        invariant
            i <= reg@.len(),
            reg@ == registry(),
            out@ == applicable(reg@.take(i as int), *facts),
        decreases reg.len() - i,
    {
        assert(reg@.take(i + 1).drop_last() =~= reg@.take(i as int));
        let ghost o = out@;
        if reg[i].detect(facts) {
            out.push(reg[i]);
            assert(out@ =~= o + seq![reg@[i as int]]);
        } else {
            assert(out@ =~= o + Seq::<Provider>::empty());
        }
        i += 1;
    }
    assert(reg@.take(reg@.len() as int) =~= reg@);
    out
}

/// Text order as `String`'s `Ord` gives it: character by character, a
/// proper prefix first.
pub open spec fn text_lt(a: Seq<char>, b: Seq<char>) -> bool
    decreases a.len(),
{
    if b.len() == 0 {
        false
    } else if a.len() == 0 {
        true
    } else if a[0] != b[0] {
        (a[0] as int) < (b[0] as int)
    } else {
        text_lt(a.drop_first(), b.drop_first())
    }
}

/// No text comes before itself.
pub proof fn lemma_text_lt_irreflexive(a: Seq<char>)
    ensures
        !text_lt(a, a),
    decreases a.len(),
{
    if a.len() > 0 {
        lemma_text_lt_irreflexive(a.drop_first());
    }
}

/// The order is transitive.
pub proof fn lemma_text_lt_transitive(a: Seq<char>, b: Seq<char>, c: Seq<char>)
    requires
        text_lt(a, b),
        text_lt(b, c),
    ensures
        text_lt(a, c),
    decreases a.len(),
{
    if a.len() > 0 && b.len() > 0 && c.len() > 0 && a[0] == b[0] && b[0] == c[0] {
        lemma_text_lt_transitive(a.drop_first(), b.drop_first(), c.drop_first());
    }
}

/// Of two different texts, one comes first.
pub proof fn lemma_text_lt_total(a: Seq<char>, b: Seq<char>)
    requires
        a != b,
    ensures
        text_lt(a, b) || text_lt(b, a),
    decreases a.len(),
{
    if a.len() > 0 && b.len() > 0 && a[0] == b[0] {
        if a.drop_first() == b.drop_first() {
            assert(a =~= seq![a[0]] + a.drop_first());
            assert(b =~= seq![b[0]] + b.drop_first());
        }
        lemma_text_lt_total(a.drop_first(), b.drop_first());
    } else if a.len() > 0 && b.len() > 0 {
        assert((a[0] as int) != (b[0] as int));
    } else if a.len() == 0 && b.len() == 0 {
        assert(a =~= b);
    }
}

/// Whether `a` comes before `b`.
pub fn text_less(a: &str, b: &str) -> (r: bool)
    ensures
        r == text_lt(a@, b@),
{
    let x = to_chars(a);
    let y = to_chars(b);
    let mut i: usize = 0;
    assert(a@.skip(0) =~= a@ && b@.skip(0) =~= b@);
    while i < x.len() && i < y.len() && x[i] == y[i]
        invariant
            i <= x@.len(),
            i <= y@.len(),
            x@ == a@,
            y@ == b@,
            text_lt(a@, b@) == text_lt(a@.skip(i as int), b@.skip(i as int)),
        decreases x.len() - i,
    {
        assert(a@.skip(i as int).drop_first() =~= a@.skip(i + 1));
        assert(b@.skip(i as int).drop_first() =~= b@.skip(i + 1));
        i += 1;
    }
    if i == y.len() {
        false
    } else if i == x.len() {
        true
    } else {
        assert(a@.skip(i as int)[0] == x@[i as int]);
        assert(b@.skip(i as int)[0] == y@[i as int]);
        x[i] < y[i]
    }
}

/// A list of texts in strictly increasing order.
pub open spec fn strictly_sorted(v: Seq<Seq<char>>) -> bool {
    forall|i: int, j: int| 0 <= i < j < v.len() ==> text_lt(#[trigger] v[i], #[trigger] v[j])
}

/// Adds a text to a sorted list without repeating it.
fn insert_sorted(out: &mut Vec<String>, t: String)
    requires
        strictly_sorted(strs(old(out)@)),
    ensures
        strictly_sorted(strs(final(out)@)),
        forall|x: Seq<char>|
            #![trigger strs(final(out)@).contains(x)]
            strs(final(out)@).contains(x) <==> (strs(old(out)@).contains(x) || x == t@),
{
    let ghost o = strs(out@);
    let mut j: usize = 0;
    while j < out.len() && text_less(out[j].as_str(), t.as_str())
        invariant
            j <= out@.len(),
            o == strs(out@),
            strictly_sorted(o),
            forall|a: int| 0 <= a < j ==> text_lt(#[trigger] o[a], t@),
        decreases out.len() - j,
    {
        j += 1;
    }
    if j < out.len() && str_eq(out[j].as_str(), t.as_str()) {
        assert(o[j as int] == t@);
        assert forall|x: Seq<char>| o.contains(x) <==> (o.contains(x) || x == t@) by {
            if x == t@ {
                assert(o[j as int] == x);
            }
        }
        return;
    }
    if j < out.len() {
        proof {
            lemma_text_lt_total(o[j as int], t@);
        }
        assert(text_lt(t@, o[j as int]));
    }
    let ghost tv = t@;
    out.insert(j, t);
    let ghost n = strs(out@);
    assert(n =~= o.insert(j as int, tv));
    assert forall|a: int, b: int| 0 <= a < b < n.len() implies text_lt(#[trigger] n[a], #[trigger] n[b]) by {
        if b < j {
            assert(n[a] == o[a] && n[b] == o[b]);
        } else if b == j {
            assert(n[a] == o[a]);
        } else if a == j {
            assert(n[b] == o[b - 1]);
            if b - 1 > j {
                lemma_text_lt_transitive(tv, o[j as int], o[b - 1]);
            }
        } else if a < j {
            assert(n[a] == o[a] && n[b] == o[b - 1]);
            if b - 1 >= j {
                lemma_text_lt_transitive(o[a], tv, o[j as int]);
                if b - 1 > j {
                    lemma_text_lt_transitive(o[a], o[j as int], o[b - 1]);
                }
            }
        } else {
            assert(n[a] == o[a - 1] && n[b] == o[b - 1]);
        }
    }
    assert forall|x: Seq<char>| n.contains(x) <==> (o.contains(x) || x == tv) by {
        if n.contains(x) {
            let k = choose|k: int| 0 <= k < n.len() && n[k] == x;
            if k < j {
                assert(o[k] == x);
            } else if k > j {
                assert(o[k - 1] == x);
            }
        }
        if o.contains(x) {
            let k = choose|k: int| 0 <= k < o.len() && o[k] == x;
            if k < j {
                assert(n[k] == x);
            } else {
                assert(n[k + 1] == x);
            }
        }
        if x == tv {
            assert(n[j as int] == x);
        }
    }
}

/// Adds texts to a sorted list without repeating any.
fn insert_all(out: &mut Vec<String>, v: &Vec<String>)
    requires
        strictly_sorted(strs(old(out)@)),
    ensures
        strictly_sorted(strs(final(out)@)),
        forall|x: Seq<char>|
            #![trigger strs(final(out)@).contains(x)]
            strs(final(out)@).contains(x) <==> (strs(old(out)@).contains(x) || strs(v@).contains(x)),
{
    let ghost o = strs(out@);
    let ghost vs = strs(v@);
    let mut i: usize = 0;
    while i < v.len()
        invariant
            i <= v@.len(),
            o == strs(old(out)@),
            vs == strs(v@),
            strictly_sorted(strs(out@)),
            forall|x: Seq<char>|
                #![trigger strs(out@).contains(x)]
                strs(out@).contains(x) <==> (o.contains(x) || vs.take(i as int).contains(x)),
        decreases v.len() - i,
    {
        let ghost before = strs(out@);
        insert_sorted(out, v[i].clone());
        assert forall|x: Seq<char>| strs(out@).contains(x) <==> (o.contains(x) || vs.take(i + 1).contains(x)) by {
            let tk = vs.take(i + 1);
            let pk = vs.take(i as int);
            assert(vs[i as int] == v@[i as int]@);
            assert(strs(out@).contains(x) <==> (before.contains(x) || x == vs[i as int]));
            assert(before.contains(x) <==> (o.contains(x) || pk.contains(x)));
            if tk.contains(x) {
                let k = choose|k: int| 0 <= k < tk.len() && tk[k] == x;
                if k < i {
                    assert(pk[k] == x);
                }
            }
            if pk.contains(x) {
                let k = choose|k: int| 0 <= k < pk.len() && pk[k] == x;
                assert(tk[k] == x);
            }
            if x == vs[i as int] {
                assert(tk[i as int] == x);
            }
        }
        i += 1;
    }
    assert(vs.take(v@.len() as int) =~= vs);
}

/// The files changed since the last commit, from the output of
/// `git diff --name-only HEAD` and of `git ls-files --others
/// --exclude-standard`: the files of both lists, sorted, each once.
pub fn merge_file_lists(changed: &str, untracked: &str) -> (r: Vec<String>)
    ensures
        strictly_sorted(strs(r@)),
        forall|x: Seq<char>| strs(r@).contains(x) <==> (nonblank_lines(lines(changed@)).contains(x)
            || nonblank_lines(lines(untracked@)).contains(x)),
{
    let a = parse_file_list(changed);
    let b = parse_file_list(untracked);
    let mut out: Vec<String> = Vec::new();
    assert(strs(out@) =~= Seq::<Seq<char>>::empty());
    insert_all(&mut out, &a);
    let ghost mid = strs(out@);
    insert_all(&mut out, &b);
    assert forall|x: Seq<char>| strs(out@).contains(x) <==> (nonblank_lines(lines(changed@)).contains(x)
        || nonblank_lines(lines(untracked@)).contains(x)) by {
        assert(strs(out@).contains(x) <==> (mid.contains(x) || strs(b@).contains(x)));
        assert(mid.contains(x) <==> (Seq::<Seq<char>>::empty().contains(x) || strs(a@).contains(x)));
    }
    out
}

} // verus!
