//! Context collection for AI repair.
//!
//! Gathers the minimal set of files, imports, and configuration that the
//! AI model needs to understand and fix an error. Caps total context size
//! to avoid exceeding model token limits.
use vstd::prelude::*;

use crate::output::{copy_issues, CheckIssue};
use crate::text::{
    after_exec, before, before_exec, contains, drop_prefix, drop_prefix_exec, ends_with,
    ends_with_exec, find, find_exec, join, lemma_find, lines, lines_vec, replace_char,
    replace_char_exec, slice_of, starts_with, starts_with_exec, strs, to_chars, to_strings,
    trim, trim_end_char, trim_end_char_exec, trim_vec, views, words, words_vec, append,
    decimal, join_lines, usize_to_string, lemma_lines_len,
};

verus! {

// ---------------------------------------------------------------------------
// Import extraction (line-based, no AST)
// ---------------------------------------------------------------------------

/// The import syntaxes the extractor understands.
#[derive(Debug, Clone, Copy, PartialEq, Eq, Structural)]
pub enum ImportSyntax {
    /// `use crate::..`, `use super::..`, `mod ..;`
    Rust,
    /// `import .. from ".."`, `require("..")`
    JavaScript,
    /// `import ..`, `from .. import ..`
    Python,
    /// `use A\B;`, `require_once '..'`, `include '..'`
    Php,
}

/// The text between the first two occurrences of `q` in `t`.
pub open spec fn quoted_with(t: Seq<char>, q: char) -> Option<Seq<char>> {
    match find(t, seq![q]) {
        Some(st) => match find(t.skip(st + 1), seq![q]) {
            Some(e) => Some(t.subrange(st + 1, st + 1 + e)),
            None => None,
        },
        None => None,
    }
}

/// The content of the first quoted string of `s` (double quotes are tried
/// first, then single quotes).
pub open spec fn quoted_string(s: Seq<char>) -> Option<Seq<char>> {
    let t = trim(s);
    match quoted_with(t, '"') {
        Some(x) => Some(x),
        None => quoted_with(t, '\''),
    }
}

/// The quoted string after the first occurrence of `keyword`.
pub open spec fn quoted_path(line: Seq<char>, keyword: Seq<char>) -> Option<Seq<char>> {
    match find(line, keyword) {
        Some(i) => quoted_string(line.skip(i + keyword.len())),
        None => None,
    }
}

/// An optional value as a sequence of zero or one items.
pub open spec fn opt_seq(o: Option<Seq<char>>) -> Seq<Seq<char>> {
    match o {
        Some(x) => seq![x],
        None => seq![],
    }
}

/// The first whitespace-separated word, or empty.
pub open spec fn first_word(s: Seq<char>) -> Seq<char> {
    if words(s).len() > 0 {
        words(s)[0]
    } else {
        seq![]
    }
}

/// Imports on one trimmed Rust line.
pub open spec fn rust_line_imports(t: Seq<char>) -> Seq<Seq<char>> {
    let a = if starts_with(t, "use crate::"@) {
        seq![trim_end_char(before(drop_prefix(t, "use crate::"@), "::"@), ';')]
    } else {
        seq![]
    };
    let b = if starts_with(t, "use super::"@) {
        seq![trim_end_char(before(drop_prefix(t, "use super::"@), "::"@), ';')]
    } else {
        seq![]
    };
    let m = trim(trim_end_char(drop_prefix(t, "mod "@), ';'));
    let c = if starts_with(t, "mod "@) && ends_with(t, seq![';']) && m.len() > 0 {
        seq![m]
    } else {
        seq![]
    };
    a + b + c
}

/// Imports on one trimmed JavaScript/TypeScript line.
pub open spec fn js_line_imports(t: Seq<char>) -> Seq<Seq<char>> {
    let a = if starts_with(t, "import "@) {
        opt_seq(quoted_path(t, "from "@))
    } else {
        seq![]
    };
    let b = match find(t, "require("@) {
        Some(st) => opt_seq(quoted_string(t.skip(st + "require("@.len()))),
        None => seq![],
    };
    a + b
}

/// Imports on one trimmed Python line: the top-level package.
pub open spec fn python_line_imports(t: Seq<char>) -> Seq<Seq<char>> {
    let m1 = first_word(drop_prefix(t, "import "@));
    let a = if starts_with(t, "import "@) && m1.len() > 0 {
        seq![before(m1, seq!['.'])]
    } else {
        seq![]
    };
    let m2 = first_word(drop_prefix(t, "from "@));
    let b = if starts_with(t, "from "@) && m2.len() > 0 && m2 != seq!['.'] && m2 != seq!['.', '.'] {
        seq![before(m2, seq!['.'])]
    } else {
        seq![]
    };
    a + b
}

/// Imports on one trimmed PHP line; namespace separators become `/`.
pub open spec fn php_line_imports(t: Seq<char>) -> Seq<Seq<char>> {
    let p = trim(trim_end_char(drop_prefix(t, "use "@), ';'));
    let a = if starts_with(t, "use "@) && contains(t, seq!['\\']) && p.len() > 0 {
        seq![replace_char(p, '\\', seq!['/'])]
    } else {
        seq![]
    };
    let b = if starts_with(t, "require"@) || starts_with(t, "include"@) {
        opt_seq(quoted_string(t))
    } else {
        seq![]
    };
    a + b
}

/// Imports on one trimmed line of the given syntax.
pub open spec fn line_imports(syntax: ImportSyntax, t: Seq<char>) -> Seq<Seq<char>> {
    match syntax {
        ImportSyntax::Rust => rust_line_imports(t),
        ImportSyntax::JavaScript => js_line_imports(t),
        ImportSyntax::Python => python_line_imports(t),
        ImportSyntax::Php => php_line_imports(t),
    }
}

/// Imports of all lines, in order.
pub open spec fn imports_of_lines(syntax: ImportSyntax, ls: Seq<Seq<char>>) -> Seq<Seq<char>>
    decreases ls.len(),
{
    if ls.len() == 0 {
        seq![]
    } else {
        imports_of_lines(syntax, ls.drop_last()) + line_imports(syntax, trim(ls.last()))
    }
}

/// The syntax used for files with extension `ext`.
pub open spec fn syntax_for_extension(ext: Seq<char>) -> Option<ImportSyntax> {
    if ext == "rs"@ {
        Some(ImportSyntax::Rust)
    } else if ext == "js"@ || ext == "jsx"@ || ext == "ts"@ || ext == "tsx"@ || ext == "mjs"@
        || ext == "cjs"@ {
        Some(ImportSyntax::JavaScript)
    } else if ext == "py"@ {
        Some(ImportSyntax::Python)
    } else if ext == "php"@ {
        Some(ImportSyntax::Php)
    } else {
        None
    }
}

/// The imports of `content` for a file with extension `ext`.
pub open spec fn spec_imports_for_extension(content: Seq<char>, ext: Seq<char>) -> Seq<Seq<char>> {
    match syntax_for_extension(ext) {
        Some(syntax) => imports_of_lines(syntax, lines(content)),
        None => seq![],
    }
}

/// The extension of a path, as `std::path::Path::extension` gives it:
/// the part of the file name after its last `.`, if the name has a `.`
/// that is not its first character.
pub uninterp spec fn path_extension(path: Seq<char>) -> Option<Seq<char>>;

/// Calls `std::path::Path::extension`. The contract claims only that the
/// result is a function of the path, named `path_extension`.
#[verifier::external_body]
fn file_extension(path: &str) -> (r: Option<String>)
    ensures
        r matches Some(e) ==> path_extension(path@) == Some(e@),
        r is None ==> path_extension(path@) is None,
{
    match std::path::Path::new(path).extension() {
        Some(e) => Some(e.to_string_lossy().into_owned()),
        None => None,
    }
}

/// Pushes an optional value.
fn push_opt(r: &mut Vec<Vec<char>>, o: Option<Vec<char>>)
    ensures
        views(final(r)@) == views(old(r)@) + opt_seq(
            match o {
                Some(x) => Some(x@),
                None => None,
            },
        ),
{
    let ghost before_push = r@;
    match o {
        Some(x) => {
            r.push(x);
            assert(views(r@) =~= views(before_push) + seq![x@]);
        },
        None => {
            assert(views(r@) =~= views(before_push) + Seq::<Seq<char>>::empty());
        },
    }
}

/// The text between the first two occurrences of `q`.
fn quoted_with_exec(t: &[char], q: char) -> (r: Option<Vec<char>>)
    ensures
        r matches Some(x) ==> quoted_with(t@, q) == Some(x@),
        r is None ==> quoted_with(t@, q) is None,
{
    let qv = [q];
    assert(qv@ =~= seq![q]);
    let n = t.len();
    match find_exec(t, &qv) {
        Some(st) => {
            proof {
                lemma_find(t@, seq![q]);
            }
            let rest = slice_of(t, st + 1, n);
            assert(rest@ =~= t@.skip(st + 1));
            match find_exec(&rest, &qv) {
                Some(e) => {
                    proof {
                        lemma_find(rest@, seq![q]);
                    }
                    Some(slice_of(t, st + 1, st + 1 + e))
                },
                None => None,
            }
        },
        None => None,
    }
}

/// Extract content of the first quoted string (single or double quotes).
fn extract_quoted_string(s: &[char]) -> (r: Option<Vec<char>>)
    ensures
        r matches Some(x) ==> quoted_string(s@) == Some(x@),
        r is None ==> quoted_string(s@) is None,
{
    let t = trim_vec(s);
    match quoted_with_exec(&t, '"') {
        Some(x) => Some(x),
        None => quoted_with_exec(&t, '\''),
    }
}

/// Extract a quoted string path after a keyword (e.g., `from "..."`).
fn extract_quoted_path(line: &[char], keyword: &[char]) -> (r: Option<Vec<char>>)
    ensures
        r matches Some(x) ==> quoted_path(line@, keyword@) == Some(x@),
        r is None ==> quoted_path(line@, keyword@) is None,
{
    match after_exec(line, keyword) {
        Some(rest) => {
            proof {
                lemma_find(line@, keyword@);
            }
            extract_quoted_string(&rest)
        },
        None => None,
    }
}

/// The first word of `v`, or empty.
fn first_word_exec(v: &[char]) -> (r: Vec<char>)
    ensures
        r@ == first_word(v@),
{
    let w = words_vec(v);
    if w.len() > 0 {
        assert(views(w@)[0] == w@[0]@);
        slice_of(&w[0], 0, w[0].len())
    } else {
        Vec::new()
    }
}

fn rust_line_exec(t: &[char]) -> (r: Vec<Vec<char>>)
    ensures
        views(r@) == rust_line_imports(t@),
{
    let mut r: Vec<Vec<char>> = Vec::new();
    let sep = to_chars("::");
    let uc = to_chars("use crate::");
    let ghost r0 = views(r@);
    if starts_with_exec(t, &uc) {
        let rest = drop_prefix_exec(t, &uc);
        let head = before_exec(&rest, &sep);
        push_opt(&mut r, Some(trim_end_char_exec(&head, ';')));
    }
    let ghost r1 = views(r@);
    let us = to_chars("use super::");
    if starts_with_exec(t, &us) {
        let rest = drop_prefix_exec(t, &us);
        let head = before_exec(&rest, &sep);
        push_opt(&mut r, Some(trim_end_char_exec(&head, ';')));
    }
    let ghost r2 = views(r@);
    let md = to_chars("mod ");
    let semi = [';'];
    assert(semi@ =~= seq![';']);
    if starts_with_exec(t, &md) && ends_with_exec(t, &semi) {
        let rest = drop_prefix_exec(t, &md);
        let m = trim_vec(&trim_end_char_exec(&rest, ';'));
        if m.len() > 0 {
            push_opt(&mut r, Some(m));
        }
    }
    assert(r0 =~= Seq::<Seq<char>>::empty());
    assert(views(r@) =~= rust_line_imports(t@));
    r
}

fn js_line_exec(t: &[char]) -> (r: Vec<Vec<char>>)
    ensures
        views(r@) == js_line_imports(t@),
{
    let mut r: Vec<Vec<char>> = Vec::new();
    let ghost r0 = views(r@);
    let imp = to_chars("import ");
    if starts_with_exec(t, &imp) {
        push_opt(&mut r, extract_quoted_path(t, &to_chars("from ")));
    }
    let ghost r1 = views(r@);
    let req = to_chars("require(");
    let n = t.len();
    match find_exec(t, &req) {
        Some(st) => {
            proof {
                lemma_find(t@, req@);
            }
            let rest = slice_of(t, st + req.len(), n);
            assert(rest@ =~= t@.skip(st + req@.len()));
            push_opt(&mut r, extract_quoted_string(&rest));
        },
        None => {},
    }
    assert(r0 =~= Seq::<Seq<char>>::empty());
    assert(views(r@) =~= js_line_imports(t@));
    r
}

fn python_line_exec(t: &[char]) -> (r: Vec<Vec<char>>)
    ensures
        views(r@) == python_line_imports(t@),
{
    let mut r: Vec<Vec<char>> = Vec::new();
    let ghost r0 = views(r@);
    let dot = ['.'];
    assert(dot@ =~= seq!['.']);
    let imp = to_chars("import ");
    if starts_with_exec(t, &imp) {
        let m = first_word_exec(&drop_prefix_exec(t, &imp));
        if m.len() > 0 {
            push_opt(&mut r, Some(before_exec(&m, &dot)));
        }
    }
    let from = to_chars("from ");
    if starts_with_exec(t, &from) {
        let m = first_word_exec(&drop_prefix_exec(t, &from));
        let is_dot = m.len() == 1 && m[0] == '.';
        let is_dots = m.len() == 2 && m[0] == '.' && m[1] == '.';
        proof {
            if m@.len() == 1 {
                assert(is_dot == (m@ =~= seq!['.']));
            } else {
                assert(m@.len() != seq!['.'].len());
            }
            if m@.len() == 2 {
                assert(is_dots == (m@ =~= seq!['.', '.']));
            } else {
                assert(m@.len() != seq!['.', '.'].len());
            }
        }
        if m.len() > 0 && !is_dot && !is_dots {
            push_opt(&mut r, Some(before_exec(&m, &dot)));
        }
    }
    assert(r0 =~= Seq::<Seq<char>>::empty());
    assert(views(r@) =~= python_line_imports(t@));
    r
}

fn php_line_exec(t: &[char]) -> (r: Vec<Vec<char>>)
    ensures
        views(r@) == php_line_imports(t@),
{
    let mut r: Vec<Vec<char>> = Vec::new();
    let ghost r0 = views(r@);
    let us = to_chars("use ");
    let bs = ['\\'];
    assert(bs@ =~= seq!['\\']);
    let slash = ['/'];
    assert(slash@ =~= seq!['/']);
    if starts_with_exec(t, &us) && find_exec(t, &bs).is_some() {
        let p = trim_vec(&trim_end_char_exec(&drop_prefix_exec(t, &us), ';'));
        if p.len() > 0 {
            push_opt(&mut r, Some(replace_char_exec(&p, '\\', &slash)));
        }
    }
    if starts_with_exec(t, &to_chars("require")) || starts_with_exec(t, &to_chars("include")) {
        push_opt(&mut r, extract_quoted_string(t));
    }
    assert(r0 =~= Seq::<Seq<char>>::empty());
    assert(views(r@) =~= php_line_imports(t@));
    r
}

fn line_exec(syntax: ImportSyntax, t: &[char]) -> (r: Vec<Vec<char>>)
    ensures
        views(r@) == line_imports(syntax, t@),
{
    match syntax {
        ImportSyntax::Rust => rust_line_exec(t),
        ImportSyntax::JavaScript => js_line_exec(t),
        ImportSyntax::Python => python_line_exec(t),
        ImportSyntax::Php => php_line_exec(t),
    }
}

/// The imports of every line of `content`, in order.
fn imports_by_line(content: &str, syntax: ImportSyntax) -> (r: Vec<String>)
    ensures
        strs(r@) == imports_of_lines(syntax, lines(content@)),
{
    let chars = to_chars(content);
    let ls = lines_vec(&chars);
    let ghost vs = views(ls@);
    let mut out: Vec<Vec<char>> = Vec::new();
    let mut i: usize = 0;
    while i < ls.len()
        invariant
            i <= ls@.len(),
            vs == views(ls@),
            vs == lines(content@),
            views(out@) == imports_of_lines(syntax, vs.take(i as int)),
        decreases ls.len() - i,
    {
        let t = trim_vec(&ls[i]);
        let found = line_exec(syntax, &t);
        let ghost o = views(out@);
        let mut k: usize = 0;
        while k < found.len()
            invariant
                k <= found@.len(),
                views(out@) == o + views(found@).take(k as int),
            decreases found.len() - k,
        {
            let x = slice_of(&found[k], 0, found[k].len());
            assert(found@[k as int]@.subrange(0, found@[k as int]@.len() as int) =~= found@[k as int]@);
            let ghost before_push = out@;
            out.push(x);
            assert(views(out@) =~= views(before_push) + seq![x@]);
            assert(views(found@).take(k + 1) =~= views(found@).take(k as int) + seq![found@[k as int]@]);
            k += 1;
        }
        proof {
            assert(views(found@).take(found@.len() as int) =~= views(found@));
            assert(vs.take(i + 1).drop_last() =~= vs.take(i as int));
            assert(vs.take(i + 1).last() == ls@[i as int]@);
        }
        i += 1;
    }
    assert(vs.take(ls@.len() as int) =~= vs);
    to_strings(&out)
}

/// The imports of `content` for a file with extension `ext`: Rust for `rs`;
/// JavaScript/TypeScript for `js`, `jsx`, `ts`, `tsx`, `mjs`, `cjs`;
/// Python for `py`; PHP for `php`; none for any other extension.
pub fn imports_for_extension(content: &str, ext: &str) -> (r: Vec<String>)
    ensures
        strs(r@) == spec_imports_for_extension(content@, ext@),
{
    let e = to_chars(ext);
    let syntax = if crate::text::vec_eq(&e, &to_chars("rs")) {
        Some(ImportSyntax::Rust)
    } else if crate::text::vec_eq(&e, &to_chars("js")) || crate::text::vec_eq(&e, &to_chars("jsx"))
        || crate::text::vec_eq(&e, &to_chars("ts")) || crate::text::vec_eq(&e, &to_chars("tsx"))
        || crate::text::vec_eq(&e, &to_chars("mjs")) || crate::text::vec_eq(&e, &to_chars("cjs")) {
        Some(ImportSyntax::JavaScript)
    } else if crate::text::vec_eq(&e, &to_chars("py")) {
        Some(ImportSyntax::Python)
    } else if crate::text::vec_eq(&e, &to_chars("php")) {
        Some(ImportSyntax::Php)
    } else {
        None
    };
    assert(syntax == syntax_for_extension(ext@));
    match syntax {
        Some(s) => imports_by_line(content, s),
        None => {
            let r: Vec<String> = Vec::new();
            assert(strs(r@) =~= Seq::<Seq<char>>::empty());
            r
        },
    }
}

/// Extract import paths from file content.
///
/// Supports:
/// - Rust: `use crate::foo::bar;`, `mod foo;`
/// - JS/TS: `import ... from "..."`, `require("...")`
/// - Python: `import foo`, `from foo import bar`
/// - PHP: `use A\B;`, `require_once '...'`, `include '...'`
pub fn extract_imports(content: &str, file_path: &str) -> (r: Vec<String>)
    ensures
        strs(r@) == match path_extension(file_path@) {
            Some(ext) => spec_imports_for_extension(content@, ext),
            None => seq![],
        },
{
    match file_extension(file_path) {
        Some(ext) => imports_for_extension(content, ext.as_str()),
        None => {
            let r: Vec<String> = Vec::new();
            assert(strs(r@) =~= Seq::<Seq<char>>::empty());
            r
        },
    }
}


// ---------------------------------------------------------------------------
// Error regions of large files
// ---------------------------------------------------------------------------

/// Number of lines of context around the error region in large files.
pub const ERROR_REGION_PADDING: usize = 50;

/// Maximum file size (in lines) before we switch to region-only extraction.
pub const LARGE_FILE_THRESHOLD: usize = 500;

/// Default maximum context size in bytes (60 KB).
pub const DEFAULT_MAX_CONTEXT_BYTES: usize = 61440;

/// Context for a single file that has errors.
#[derive(Debug, Clone)]
pub struct FileContext {
    /// Full file content (or region if file is large).
    pub content: String,
    /// Whether this is a region extraction (not the full file).
    pub is_region: bool,
    /// If region: the starting line number (1-based) of the region.
    pub region_start_line: Option<u32>,
    /// Issues in this file.
    pub issues: Vec<CheckIssue>,
}

/// The smallest line number among the issues that have one.
pub open spec fn min_issue_line(is: Seq<CheckIssue>) -> Option<int>
    decreases is.len(),
{
    if is.len() == 0 {
        None
    } else {
        let m = min_issue_line(is.drop_last());
        match is.last().line {
            None => m,
            Some(l) => match m {
                None => Some(l as int),
                Some(x) => Some(if l < x { l as int } else { x }),
            },
        }
    }
}

/// The largest line number among the issues that have one.
pub open spec fn max_issue_line(is: Seq<CheckIssue>) -> Option<int>
    decreases is.len(),
{
    if is.len() == 0 {
        None
    } else {
        let m = max_issue_line(is.drop_last());
        match is.last().line {
            None => m,
            Some(l) => match m {
                None => Some(l as int),
                Some(x) => Some(if l > x { l as int } else { x }),
            },
        }
    }
}

/// First line (1-based) of the region around the lowest error line `lo`.
pub open spec fn region_start(lo: int) -> int {
    if lo > 51 {
        lo - 50
    } else {
        1
    }
}

/// Last line (1-based, inclusive) of the region around the highest error
/// line `hi`, in a file of `total` lines.
pub open spec fn region_end(hi: int, total: int) -> int {
    if hi + 50 < total {
        hi + 50
    } else {
        total
    }
}

/// The region is a valid range of lines (the error lines are not past the
/// end of the file by more than the padding).
pub open spec fn region_fits(content: Seq<char>, issues: Seq<CheckIssue>) -> bool {
    match (min_issue_line(issues), max_issue_line(issues)) {
        (Some(lo), Some(hi)) => region_start(lo) - 1 <= region_end(hi, lines(content).len() as int),
        _ => true,
    }
}

/// At most the first `n` items.
pub open spec fn first_n(ls: Seq<Seq<char>>, n: int) -> Seq<Seq<char>> {
    if ls.len() < n {
        ls
    } else {
        ls.take(n)
    }
}

/// The text of the region extracted from `content` for `issues`.
pub open spec fn region_text(content: Seq<char>, issues: Seq<CheckIssue>) -> Seq<char> {
    let ls = lines(content);
    match (min_issue_line(issues), max_issue_line(issues)) {
        (Some(lo), Some(hi)) => {
            let st = region_start(lo);
            let en = region_end(hi, ls.len() as int);
            "// ... (lines 1-"@ + decimal((st - 1) as nat) + " omitted) ...\n"@ + join(
                ls.subrange(st - 1, en),
                seq!['\n'],
            ) + "\n// ... (lines "@ + decimal((en + 1) as nat) + "-"@ + decimal(ls.len()) + " omitted) ..."@
        },
        _ => join(first_n(ls, 100), seq!['\n']),
    }
}

/// The first line of the region.
pub open spec fn region_first_line(issues: Seq<CheckIssue>) -> int {
    match min_issue_line(issues) {
        Some(lo) => region_start(lo),
        None => 1,
    }
}

/// The smallest and the largest line exist together.
pub proof fn lemma_line_bounds_together(is: Seq<CheckIssue>)
    ensures
        min_issue_line(is) is Some <==> max_issue_line(is) is Some,
    decreases is.len(),
{
    if is.len() > 0 {
        lemma_line_bounds_together(is.drop_last());
    }
}

/// Smallest and largest line numbers of the issues.
fn issue_line_bounds(issues: &[CheckIssue]) -> (r: (Option<u32>, Option<u32>))
    ensures
        (r.0 matches Some(x) ==> min_issue_line(issues@) == Some(x as int)),
        (r.0 is None ==> min_issue_line(issues@) is None),
        (r.1 matches Some(x) ==> max_issue_line(issues@) == Some(x as int)),
        (r.1 is None ==> max_issue_line(issues@) is None),
{
    let mut lo: Option<u32> = None;
    let mut hi: Option<u32> = None;
    let mut i: usize = 0;
    while i < issues.len()
        invariant
            i <= issues@.len(),
            lo matches Some(x) ==> min_issue_line(issues@.take(i as int)) == Some(x as int),
            lo is None ==> min_issue_line(issues@.take(i as int)) is None,
            hi matches Some(x) ==> max_issue_line(issues@.take(i as int)) == Some(x as int),
            hi is None ==> max_issue_line(issues@.take(i as int)) is None,
        decreases issues.len() - i,
    {
        assert(issues@.take(i + 1).drop_last() =~= issues@.take(i as int));
        match issues[i].line {
            Some(l) => {
                lo = match lo {
                    None => Some(l),
                    Some(x) => Some(if l < x { l } else { x }),
                };
                hi = match hi {
                    None => Some(l),
                    Some(x) => Some(if l > x { l } else { x }),
                };
            },
            None => {},
        }
        i += 1;
    }
    assert(issues@.take(issues@.len() as int) =~= issues@);
    (lo, hi)
}

/// Copies the lines `ls[lo..hi]`.
pub(crate) fn lines_range(ls: &Vec<Vec<char>>, lo: usize, hi: usize) -> (r: Vec<Vec<char>>)
    requires
        lo <= hi <= ls@.len(),
    ensures
        views(r@) == views(ls@).subrange(lo as int, hi as int),
{
    let mut r: Vec<Vec<char>> = Vec::new();
    let mut i = lo;
    while i < hi
        invariant
            lo <= i <= hi <= ls@.len(),
            views(r@) == views(ls@).subrange(lo as int, i as int),
        decreases hi - i,
    {
        let x = slice_of(&ls[i], 0, ls[i].len());
        assert(ls@[i as int]@.subrange(0, ls@[i as int]@.len() as int) =~= ls@[i as int]@);
        let ghost o = r@;
        r.push(x);
        assert(views(r@) =~= views(o) + seq![x@]);
        i += 1;
        assert(views(r@) =~= views(ls@).subrange(lo as int, i as int));
    }
    r
}

/// Extract the error region from a large file.
///
/// Returns the lines around the earliest and latest error locations,
/// with `ERROR_REGION_PADDING` lines of surrounding context. Without any
/// line information, the first 100 lines are returned.
pub fn extract_error_region(content: &str, issues: &[CheckIssue]) -> (r: FileContext)
    requires
        region_fits(content@, issues@),
        content@.len() < usize::MAX,
    ensures
        r.content@ == region_text(content@, issues@),
        r.is_region,
        r.region_start_line matches Some(s) && s == region_first_line(issues@),
        r.issues@ == issues@,
{
    let chars = to_chars(content);
    let ls = lines_vec(&chars);
    let total = ls.len();
    let (lo, hi) = issue_line_bounds(issues);
    proof {
        lemma_line_bounds_together(issues@);
        lemma_lines_len(content@);
    }
    match (lo, hi) {
        (Some(lo), Some(hi)) => {
            let start: usize = if lo > 51 { (lo - 50) as usize } else { 1 };
            let hi64: u64 = hi as u64 + 50;
            let end: usize = if hi64 < total as u64 { (hi64) as usize } else { total };
            assert(start as int == region_start(lo as int));
            assert(end as int == region_end(hi as int, total as int));
            let region = join_lines(&lines_range(&ls, start - 1, end));
            let mut text = String::new();
            append(&mut text, "// ... (lines 1-");
            let a = usize_to_string(start - 1);
            append(&mut text, a.as_str());
            append(&mut text, " omitted) ...\n");
            append(&mut text, region.as_str());
            append(&mut text, "\n// ... (lines ");
            let b = usize_to_string(end + 1);
            append(&mut text, b.as_str());
            append(&mut text, "-");
            let c = usize_to_string(total);
            append(&mut text, c.as_str());
            append(&mut text, " omitted) ...");
            FileContext {
                content: text,
                is_region: true,
                region_start_line: Some(start as u32),
                issues: copy_issues(issues),
            }
        },
        _ => {
            let n = if total < 100 { total } else { 100 };
            let head = lines_range(&ls, 0, n);
            assert(views(ls@).subrange(0, n as int) =~= first_n(views(ls@), 100));
            FileContext {
                content: join_lines(&head),
                is_region: true,
                region_start_line: Some(1),
                issues: copy_issues(issues),
            }
        },
    }
}

/// Whether the region of a file can be extracted: its lines cover the
/// region around the issues, and its length leaves room to count it.
pub fn region_extractable(content: &str, issues: &[CheckIssue]) -> (r: bool)
    ensures
        r == (region_fits(content@, issues@) && content@.len() < usize::MAX),
{
    let chars = to_chars(content);
    if chars.len() == usize::MAX {
        return false;
    }
    let ls = lines_vec(&chars);
    let total = ls.len();
    let (lo, hi) = issue_line_bounds(issues);
    proof {
        lemma_line_bounds_together(issues@);
        lemma_lines_len(content@);
    }
    match (lo, hi) {
        (Some(lo), Some(hi)) => {
            let start: u64 = if lo > 51 { (lo - 50) as u64 } else { 1 };
            let hi64: u64 = hi as u64 + 50;
            let end: u64 = if hi64 < total as u64 { hi64 } else { total as u64 };
            assert(start as int == region_start(lo as int));
            assert(end as int == region_end(hi as int, total as int));
            start - 1 <= end
        },
        _ => true,
    }
}


// ---------------------------------------------------------------------------
// Import resolution
// ---------------------------------------------------------------------------

/// The known files whose names contain `import`, in order.
pub open spec fn known_matching(known: Seq<Seq<char>>, import: Seq<char>) -> Seq<Seq<char>>
    decreases known.len(),
{
    if known.len() == 0 {
        seq![]
    } else {
        known_matching(known.drop_last(), import) + if contains(known.last(), import) {
            seq![known.last()]
        } else {
            seq![]
        }
    }
}

/// The candidate files for an import: relative JS/TS paths with each
/// usual suffix, Rust module files for plain names, then the known files
/// whose names contain the import.
pub open spec fn import_candidates(import: Seq<char>, known: Seq<Seq<char>>) -> Seq<Seq<char>> {
    let rel = if starts_with(import, seq!['.']) {
        seq![
            import,
            import + ".ts"@,
            import + ".tsx"@,
            import + ".js"@,
            import + ".jsx"@,
            import + "/index.ts"@,
            import + "/index.js"@,
        ]
    } else {
        seq![]
    };
    let rs = if !contains(import, seq!['/']) && !contains(import, seq!['.']) {
        seq!["src/"@ + import + ".rs"@, "src/"@ + import + "/mod.rs"@]
    } else {
        seq![]
    };
    rel + rs + known_matching(known, import)
}

/// `a` followed by `b`.
fn concat(a: &str, b: &str) -> (r: String)
    ensures
        r@ == a@ + b@,
{
    let mut r = String::new();
    append(&mut r, a);
    append(&mut r, b);
    assert(r@ =~= a@ + b@);
    r
}

/// Attempt to resolve an import string to file path candidates.
///
/// This is a best-effort heuristic—not full module resolution.
pub fn resolve_import_path(import: &str, known_files: &[String]) -> (r: Vec<String>)
    ensures
        strs(r@) == import_candidates(import@, strs(known_files@)),
{
    let mut c: Vec<String> = Vec::new();
    let ghost r0 = strs(c@);
    if crate::text::str_starts_with(import, ".") {
        c.push(concat(import, ""));
        c.push(concat(import, ".ts"));
        c.push(concat(import, ".tsx"));
        c.push(concat(import, ".js"));
        c.push(concat(import, ".jsx"));
        c.push(concat(import, "/index.ts"));
        c.push(concat(import, "/index.js"));
        proof {
            reveal_strlit("");
            assert(import@ + ""@ =~= import@);
            assert(strs(c@) =~= seq![
                import@,
                import@ + ".ts"@,
                import@ + ".tsx"@,
                import@ + ".js"@,
                import@ + ".jsx"@,
                import@ + "/index.ts"@,
                import@ + "/index.js"@,
            ]);
        }
    }
    let ghost r1 = strs(c@);
    if !crate::text::str_contains(import, "/") && !crate::text::str_contains(import, ".") {
        let a = concat("src/", import);
        c.push(concat(a.as_str(), ".rs"));
        let b = concat("src/", import);
        c.push(concat(b.as_str(), "/mod.rs"));
        assert(strs(c@) =~= r1 + seq!["src/"@ + import@ + ".rs"@, "src/"@ + import@ + "/mod.rs"@]);
    }
    let ghost r2 = strs(c@);
    proof {
        reveal_strlit(".");
        reveal_strlit("/");
        assert(r0 =~= Seq::<Seq<char>>::empty());
        assert("/"@ =~= seq!['/']);
        assert("."@ =~= seq!['.']);
        assert(starts_with(import@, "."@) == starts_with(import@, seq!['.']));
    }
    let ghost ks = strs(known_files@);
    let mut i: usize = 0;
    while i < known_files.len()
        invariant
            i <= known_files@.len(),
            ks == strs(known_files@),
            strs(c@) == r2 + known_matching(ks.take(i as int), import@),
        decreases known_files.len() - i,
    {
        assert(ks.take(i + 1).drop_last() =~= ks.take(i as int));
        assert(ks.take(i + 1).last() == known_files@[i as int]@);
        let ghost o = strs(c@);
        if crate::text::str_contains(known_files[i].as_str(), import) {
            c.push(known_files[i].clone());
            assert(strs(c@) =~= o + seq![known_files@[i as int]@]);
        }
        i += 1;
    }
    assert(ks.take(known_files@.len() as int) =~= ks);
    assert(strs(c@) =~= import_candidates(import@, ks));
    c
}

// ---------------------------------------------------------------------------
// Formatting helpers for prompts
// ---------------------------------------------------------------------------

/// Collected context for an AI repair session.
#[derive(Debug, Clone)]
pub struct RepairContext {
    /// The primary files where errors occur, with their content, in the
    /// order they were collected.
    pub error_files: Vec<(String, FileContext)>,
    /// Related files (imports, configs) with their content.
    pub related_files: Vec<(String, String)>,
    /// The project file tree (top-level listing).
    pub file_tree: String,
    /// Total bytes of context collected.
    pub total_bytes: usize,
    /// Maximum context bytes allowed.
    pub max_bytes: usize,
}

/// The header of an error file in the prompt.
pub open spec fn error_file_header(path: Seq<char>, fc: FileContext) -> Seq<char> {
    "FILE: "@ + path + if fc.is_region && fc.region_start_line is Some {
        " (region starting at line "@ + decimal(fc.region_start_line->0 as nat) + ")"@
    } else {
        seq![]
    } + "\n"@
}

/// The prompt text for the error files.
pub open spec fn error_files_text(fs: Seq<(String, FileContext)>) -> Seq<char>
    decreases fs.len(),
{
    if fs.len() == 0 {
        seq![]
    } else {
        error_files_text(fs.drop_last()) + error_file_header(fs.last().0@, fs.last().1)
            + fs.last().1.content@ + "\n\n"@
    }
}

/// The prompt text for the related files.
pub open spec fn related_files_text(fs: Seq<(String, String)>) -> Seq<char>
    decreases fs.len(),
{
    if fs.len() == 0 {
        seq![]
    } else {
        related_files_text(fs.drop_last()) + "RELATED FILE: "@ + fs.last().0@ + "\n"@
            + fs.last().1@ + "\n\n"@
    }
}

/// The whole prompt text for a context.
pub open spec fn context_text(ctx: RepairContext) -> Seq<char> {
    ctx.file_tree@ + "\n"@ + error_files_text(ctx.error_files@) + related_files_text(
        ctx.related_files@,
    )
}

/// Format the collected context into a string suitable for an AI prompt.
pub fn format_context_for_prompt(ctx: &RepairContext) -> (r: String)
    ensures
        r@ == context_text(*ctx),
{
    let mut out = String::new();
    append(&mut out, ctx.file_tree.as_str());
    append(&mut out, "\n");
    let ghost base = out@;
    assert(ctx.error_files@.take(0) =~= Seq::<(String, FileContext)>::empty());
    let mut i: usize = 0;
    while i < ctx.error_files.len()
        invariant
            i <= ctx.error_files@.len(),
            out@ == base + error_files_text(ctx.error_files@.take(i as int)),
        decreases ctx.error_files.len() - i,
    {
        let ghost o = out@;
        let (path, fc) = (&ctx.error_files[i].0, &ctx.error_files[i].1);
        append(&mut out, "FILE: ");
        append(&mut out, path.as_str());
        if fc.is_region {
            match fc.region_start_line {
                Some(start) => {
                    append(&mut out, " (region starting at line ");
                    let n = usize_to_string(start as usize);
                    append(&mut out, n.as_str());
                    append(&mut out, ")");
                },
                None => {},
            }
        }
        append(&mut out, "\n");
        append(&mut out, fc.content.as_str());
        append(&mut out, "\n\n");
        proof {
            let fs = ctx.error_files@.take(i + 1);
            assert(fs.drop_last() =~= ctx.error_files@.take(i as int));
            assert(fs.last() == ctx.error_files@[i as int]);
            assert(out@ =~= o + error_file_header(path@, *fc) + fc.content@ + "\n\n"@);
        }
        i += 1;
    }
    assert(ctx.error_files@.take(ctx.error_files@.len() as int) =~= ctx.error_files@);
    let ghost mid = out@;
    assert(ctx.related_files@.take(0) =~= Seq::<(String, String)>::empty());
    let mut j: usize = 0;
    while j < ctx.related_files.len()
        invariant
            j <= ctx.related_files@.len(),
            out@ == mid + related_files_text(ctx.related_files@.take(j as int)),
        decreases ctx.related_files.len() - j,
    {
        let ghost o = out@;
        append(&mut out, "RELATED FILE: ");
        append(&mut out, ctx.related_files[j].0.as_str());
        append(&mut out, "\n");
        append(&mut out, ctx.related_files[j].1.as_str());
        append(&mut out, "\n\n");
        proof {
            let fs = ctx.related_files@.take(j + 1);
            assert(fs.drop_last() =~= ctx.related_files@.take(j as int));
            assert(fs.last() == ctx.related_files@[j as int]);
        }
        j += 1;
    }
    assert(ctx.related_files@.take(ctx.related_files@.len() as int) =~= ctx.related_files@);
    out
}

} // verus!
