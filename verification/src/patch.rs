//! Unified diff parsing and patch application.
//!
//! A diff is read line by line into a [`Patch`]; each hunk is then located
//! in the file by its content (four passes of decreasing strictness) rather
//! than by its line numbers, and the replacements are applied from the
//! bottom of the file up.
use vstd::prelude::*;
use crate::error::{CheckerError, cat};
use crate::fixer::{SummaryLine, Tone};
use crate::text::{
    after, after_exec, before, before_exec, drop_prefix, drop_prefix_exec, lines, lines_vec,
    parse_unsigned, parse_usize, slice_of, str_eq, starts_with, starts_with_exec, string_from, string_of,
    strip_prefix, to_chars, trim, trim_start_char, trim_start_char_exec, trim_vec, views, words,
    words_vec, skip_ws_back, vec_eq, trim_end, decimal, debug_text, usize_to_string,
    debug_string, join, push_char, push_all,
};

verus! {

// ---------------------------------------------------------------------------
// Types
// ---------------------------------------------------------------------------

/// A complete patch that may modify multiple files.
#[derive(Debug, Clone)]
pub struct Patch {
    /// Per-file hunks.
    pub file_patches: Vec<FilePatch>,
}

/// Patch for a single file.
#[derive(Debug, Clone)]
pub struct FilePatch {
    /// The file path (from the `---`/`+++` header).
    pub path: String,
    /// The hunks (contiguous change regions).
    pub hunks: Vec<Hunk>,
}

/// A single hunk within a file patch.
#[derive(Debug, Clone)]
pub struct Hunk {
    /// Original file start line (1-based).
    pub old_start: usize,
    /// Number of lines in the original.
    pub old_count: usize,
    /// New file start line (1-based).
    pub new_start: usize,
    /// Number of lines in the new file.
    pub new_count: usize,
    /// The hunk lines (context, additions, deletions).
    pub lines: Vec<HunkLine>,
}

/// A single line within a hunk.
#[derive(Debug, Clone)]
pub enum HunkLine {
    /// Unchanged context line.
    Context(String),
    /// Line added.
    Add(String),
    /// Line removed.
    Remove(String),
}

/// The mathematical value of a [`HunkLine`].
pub enum LineView {
    Context(Seq<char>),
    Add(Seq<char>),
    Remove(Seq<char>),
}

/// The mathematical value of a [`Hunk`].
pub struct HunkView {
    pub old_start: usize,
    pub old_count: usize,
    pub new_start: usize,
    pub new_count: usize,
    pub lines: Seq<LineView>,
}

/// The mathematical value of a [`FilePatch`].
pub struct FilePatchView {
    pub path: Seq<char>,
    pub hunks: Seq<HunkView>,
}

impl View for HunkLine {
    type V = LineView;

    open spec fn view(&self) -> LineView {
        match self {
            HunkLine::Context(s) => LineView::Context(s@),
            HunkLine::Add(s) => LineView::Add(s@),
            HunkLine::Remove(s) => LineView::Remove(s@),
        }
    }
}

impl View for Hunk {
    type V = HunkView;

    open spec fn view(&self) -> HunkView {
        HunkView {
            old_start: self.old_start,
            old_count: self.old_count,
            new_start: self.new_start,
            new_count: self.new_count,
            lines: self.lines@.map_values(|l: HunkLine| l@),
        }
    }
}

impl View for FilePatch {
    type V = FilePatchView;

    open spec fn view(&self) -> FilePatchView {
        FilePatchView { path: self.path@, hunks: self.hunks@.map_values(|h: Hunk| h@) }
    }
}

impl View for Patch {
    type V = Seq<FilePatchView>;

    open spec fn view(&self) -> Seq<FilePatchView> {
        self.file_patches@.map_values(|f: FilePatch| f@)
    }
}

// ---------------------------------------------------------------------------
// Specification of the parser
// ---------------------------------------------------------------------------

/// A line that ends the current hunk.
pub open spec fn hunk_stop(l: Seq<char>) -> bool {
    starts_with(l, "@@"@) || starts_with(l, "diff --git"@) || starts_with(l, "---"@)
}

/// How one line of a hunk body is read; `None` for the end-of-file marker.
pub open spec fn parse_line(l: Seq<char>) -> Option<LineView> {
    if l.len() > 0 && l[0] == '+' {
        Some(LineView::Add(l.drop_first()))
    } else if l.len() > 0 && l[0] == '-' {
        Some(LineView::Remove(l.drop_first()))
    } else if l.len() > 0 && l[0] == ' ' {
        Some(LineView::Context(l.drop_first()))
    } else if l.len() == 0 {
        Some(LineView::Context(seq![]))
    } else if l == "\\ No newline at end of file"@ {
        None
    } else {
        Some(LineView::Context(l))
    }
}

/// The body of a hunk starting at line `i`, and the index of the first line
/// after it.
pub open spec fn hunk_body(ls: Seq<Seq<char>>, i: int) -> (Seq<LineView>, int)
    decreases ls.len() - i,
{
    if i < 0 || i >= ls.len() || hunk_stop(ls[i]) {
        (seq![], i)
    } else {
        let (rest, j) = hunk_body(ls, i + 1);
        (
            match parse_line(ls[i]) {
                Some(l) => seq![l] + rest,
                None => rest,
            },
            j,
        )
    }
}

/// A range spec like "10,5" or "10" (count defaults to 1).
pub open spec fn spec_parse_range(s: Seq<char>) -> Result<(usize, usize), Seq<char>> {
    match parse_unsigned(before(s, seq![',']), usize::MAX as int) {
        None => Err("Invalid range number: "@ + s),
        Some(a) => match after(s, seq![',']) {
            None => Ok((a as usize, 1)),
            Some(rest) => match parse_unsigned(before(rest, seq![',']), usize::MAX as int) {
                None => Err("Invalid range count: "@ + s),
                Some(b) => Ok((a as usize, b as usize)),
            },
        },
    }
}

/// A `@@ -a,b +c,d @@` header.
pub open spec fn spec_parse_hunk_header(h: Seq<char>) -> Result<
    (usize, usize, usize, usize),
    Seq<char>,
> {
    match strip_prefix(h, "@@"@) {
        None => Err("Malformed hunk header: "@ + h),
        Some(s) => {
            let parts = words(trim(before(s, "@@"@)));
            if parts.len() < 2 {
                Err("Malformed hunk header: "@ + h)
            } else {
                match spec_parse_range(trim_start_char(parts[0], '-')) {
                    Err(e) => Err(e),
                    Ok((a, b)) => match spec_parse_range(trim_start_char(parts[1], '+')) {
                        Err(e) => Err(e),
                        Ok((c, d)) => Ok((a, b, c, d)),
                    },
                }
            }
        },
    }
}

/// The hunk whose header is line `i`, and the index of the line after it.
pub open spec fn spec_parse_hunk(ls: Seq<Seq<char>>, i: int) -> Result<(HunkView, int), Seq<char>> {
    match spec_parse_hunk_header(ls[i]) {
        Err(e) => Err(e),
        Ok((a, b, c, d)) => {
            let (body, j) = hunk_body(ls, i + 1);
            Ok(
                (
                    HunkView { old_start: a, old_count: b, new_start: c, new_count: d, lines: body },
                    j,
                ),
            )
        },
    }
}

/// The path named by a `---` or `+++` header line.
pub open spec fn spec_file_header(line: Seq<char>, prefix: Seq<char>) -> Seq<char> {
    let p = trim(drop_prefix(line, prefix));
    let p = if starts_with(p, "a/"@) {
        p.skip(2)
    } else if starts_with(p, "b/"@) {
        p.skip(2)
    } else {
        p
    };
    before(p, seq!['\t'])
}

/// The first line at or after `i` that is a `---` or `diff --git` line (or the end).
pub open spec fn skip_git_header(ls: Seq<Seq<char>>, i: int) -> int
    decreases ls.len() - i,
{
    if i < 0 || i >= ls.len() || starts_with(ls[i], "---"@) || starts_with(ls[i], "diff --git"@) {
        i
    } else {
        skip_git_header(ls, i + 1)
    }
}

/// The hunks of one file, from line `i` up to the next file header.
pub open spec fn hunks_at(ls: Seq<Seq<char>>, i: int) -> Result<(Seq<HunkView>, int), Seq<char>>
    decreases ls.len() - i,
{
    if i < 0 || i >= ls.len() || starts_with(ls[i], "diff --git"@) || starts_with(ls[i], "---"@) {
        Ok((seq![], i))
    } else if starts_with(ls[i], "@@"@) {
        match spec_parse_hunk(ls, i) {
            Err(e) => Err(e),
            Ok((h, j)) => if j <= i || j > ls.len() {
                Err(seq![])
            } else {
                match hunks_at(ls, j) {
                    Err(e) => Err(e),
                    Ok((hs, k)) => Ok((seq![h] + hs, k)),
                }
            },
        }
    } else {
        hunks_at(ls, i + 1)
    }
}

/// The file patches found from line `i` on.
pub open spec fn diff_at(ls: Seq<Seq<char>>, i: int) -> Result<Seq<FilePatchView>, Seq<char>>
    decreases ls.len() - i,
{
    if i < 0 || i >= ls.len() {
        Ok(seq![])
    } else if starts_with(ls[i], "diff --git"@) {
        let j = skip_git_header(ls, i + 1);
        if j <= i || j > ls.len() {
            Err(seq![])
        } else {
            diff_at(ls, j)
        }
    } else if starts_with(ls[i], "---"@) {
        if i + 1 >= ls.len() || !starts_with(ls[i + 1], "+++"@) {
            Err("Malformed diff: expected +++ after ---"@)
        } else {
            let old_path = spec_file_header(ls[i], "---"@);
            let new_path = spec_file_header(ls[i + 1], "+++"@);
            let path = if new_path == "/dev/null"@ {
                old_path
            } else {
                new_path
            };
            match hunks_at(ls, i + 2) {
                Err(e) => Err(e),
                Ok((hunks, j)) => if j <= i || j > ls.len() {
                    Err(seq![])
                } else {
                    match diff_at(ls, j) {
                        Err(e) => Err(e),
                        Ok(rest) => Ok(
                            if hunks.len() > 0 {
                                seq![FilePatchView { path, hunks }] + rest
                            } else {
                                rest
                            },
                        ),
                    }
                },
            }
        }
    } else {
        diff_at(ls, i + 1)
    }
}

/// What [`parse_unified_diff`] gives for a diff text.
pub open spec fn spec_parse_unified_diff(text: Seq<char>) -> Result<Seq<FilePatchView>, Seq<char>> {
    match diff_at(lines(text), 0) {
        Err(e) => Err(e),
        Ok(fps) => if fps.len() == 0 {
            Err("No file patches found in diff output"@)
        } else {
            Ok(fps)
        },
    }
}

// ---------------------------------------------------------------------------
// Lemmas about the parser specification
// ---------------------------------------------------------------------------

/// `hunk_body` ends at or after where it starts, and within the lines.
pub proof fn lemma_hunk_body_end(ls: Seq<Seq<char>>, i: int)
    requires
        0 <= i <= ls.len(),
    ensures
        i <= hunk_body(ls, i).1 <= ls.len(),
    decreases ls.len() - i,
{
    if i < ls.len() && !hunk_stop(ls[i]) {
        lemma_hunk_body_end(ls, i + 1);
    }
}

/// `skip_git_header` ends at or after where it starts.
pub proof fn lemma_skip_git_header(ls: Seq<Seq<char>>, i: int)
    requires
        0 <= i <= ls.len(),
    ensures
        i <= skip_git_header(ls, i) <= ls.len(),
    decreases ls.len() - i,
{
    if i < ls.len() && !starts_with(ls[i], "---"@) && !starts_with(ls[i], "diff --git"@) {
        lemma_skip_git_header(ls, i + 1);
    }
}

/// `hunks_at` ends at or after where it starts.
pub proof fn lemma_hunks_at_end(ls: Seq<Seq<char>>, i: int)
    requires
        0 <= i <= ls.len(),
    ensures
        hunks_at(ls, i) matches Ok((_, k)) ==> i <= k <= ls.len(),
    decreases ls.len() - i,
{
    if i < ls.len() && !starts_with(ls[i], "diff --git"@) && !starts_with(ls[i], "---"@) {
        if starts_with(ls[i], "@@"@) {
            if let Ok((h, j)) = spec_parse_hunk(ls, i) {
                lemma_hunk_body_end(ls, i + 1);
                if j > i {
                    lemma_hunks_at_end(ls, j);
                }
            }
        } else {
            lemma_hunks_at_end(ls, i + 1);
        }
    }
}

// ---------------------------------------------------------------------------
// Parsing
// ---------------------------------------------------------------------------

/// The views of a list of hunk lines.
pub open spec fn line_views(v: Seq<HunkLine>) -> Seq<LineView> {
    v.map_values(|l: HunkLine| l@)
}

/// Parse a range spec like "10,5" or "10" (count defaults to 1).
fn parse_range(s: &[char]) -> (r: Result<(usize, usize), CheckerError>)
    ensures
        r matches Ok(v) ==> spec_parse_range(s@) == Ok::<(usize, usize), Seq<char>>(v),
        r matches Err(e) ==> e matches CheckerError::AiFixFailed { reason } && spec_parse_range(
            s@,
        ) == Err::<(usize, usize), Seq<char>>(reason@),
{
    let comma: Vec<char> = vec![','];
    assert(comma@ =~= seq![',']);
    let first = string_from(&before_exec(s, &comma));
    let whole = string_from(s);
    let start = match parse_usize(first.as_str()) {
        Some(a) => a,
        None => {
            return Err(CheckerError::AiFixFailed { reason: cat("Invalid range number: ", whole.as_str()) });
        },
    };
    match after_exec(s, &comma) {
        None => Ok((start, 1)),
        Some(rest) => {
            let second = string_from(&before_exec(&rest, &comma));
            match parse_usize(second.as_str()) {
                Some(b) => Ok((start, b)),
                None => Err(
                    CheckerError::AiFixFailed { reason: cat("Invalid range count: ", whole.as_str()) },
                ),
            }
        },
    }
}

/// Parse a `@@ -a,b +c,d @@` header.
fn parse_hunk_header(h: &[char]) -> (r: Result<(usize, usize, usize, usize), CheckerError>)
    ensures
        r matches Ok(v) ==> spec_parse_hunk_header(h@) == Ok::<
            (usize, usize, usize, usize),
            Seq<char>,
        >(v),
        r matches Err(e) ==> e matches CheckerError::AiFixFailed { reason }
            && spec_parse_hunk_header(h@) == Err::<(usize, usize, usize, usize), Seq<char>>(
            reason@,
        ),
{
    let marker = to_chars("@@");
    let whole = string_from(h);
    if !starts_with_exec(h, &marker) {
        return Err(
            CheckerError::AiFixFailed { reason: cat("Malformed hunk header: ", whole.as_str()) },
        );
    }
    let s = slice_of(h, marker.len(), h.len());
    assert(s@ =~= h@.skip(marker@.len() as int));
    let inner = trim_vec(&before_exec(&s, &marker));
    let parts = words_vec(&inner);
    if parts.len() < 2 {
        return Err(
            CheckerError::AiFixFailed { reason: cat("Malformed hunk header: ", whole.as_str()) },
        );
    }
    assert(parts@[0]@ == words(inner@)[0]);
    assert(parts@[1]@ == words(inner@)[1]);
    let (a, b) = parse_range(&trim_start_char_exec(&parts[0], '-'))?;
    let (c, d) = parse_range(&trim_start_char_exec(&parts[1], '+'))?;
    Ok((a, b, c, d))
}

/// Read one hunk body line.
fn parse_line_exec(l: &[char]) -> (r: Option<HunkLine>)
    ensures
        r matches Some(x) ==> parse_line(l@) == Some(x@),
        r is None ==> parse_line(l@) is None,
{
    if l.len() > 0 && l[0] == '+' {
        let t = string_of(l, 1, l.len());
        assert(t@ =~= l@.drop_first());
        Some(HunkLine::Add(t))
    } else if l.len() > 0 && l[0] == '-' {
        let t = string_of(l, 1, l.len());
        assert(t@ =~= l@.drop_first());
        Some(HunkLine::Remove(t))
    } else if l.len() > 0 && l[0] == ' ' {
        let t = string_of(l, 1, l.len());
        assert(t@ =~= l@.drop_first());
        Some(HunkLine::Context(t))
    } else if l.len() == 0 {
        let t = String::new();
        assert(t@ =~= Seq::<char>::empty());
        Some(HunkLine::Context(t))
    } else {
        let marker = to_chars("\\ No newline at end of file");
        if l.len() == marker.len() && starts_with_exec(l, &marker) {
            assert(l@ =~= l@.subrange(0, marker@.len() as int));
            None
        } else {
            proof {
                if l@ == marker@ {
                    assert(l@.subrange(0, marker@.len() as int) =~= l@);
                }
            }
            Some(HunkLine::Context(string_from(l)))
        }
    }
}

/// Whether a line ends the current hunk.
fn hunk_stop_exec(l: &[char]) -> (b: bool)
    ensures
        b == hunk_stop(l@),
{
    starts_with_exec(l, &to_chars("@@")) || starts_with_exec(l, &to_chars("diff --git"))
        || starts_with_exec(l, &to_chars("---"))
}

/// Parse the hunk whose header is line `i`; returns it and the index of the
/// line after it.
fn parse_hunk(ls: &Vec<Vec<char>>, i: usize) -> (r: Result<(Hunk, usize), CheckerError>)
    requires
        i < ls@.len(),
    ensures
        r matches Ok((h, j)) ==> spec_parse_hunk(views(ls@), i as int) == Ok::<
            (HunkView, int),
            Seq<char>,
        >((h@, j as int)),
        r matches Err(e) ==> e matches CheckerError::AiFixFailed { reason } && spec_parse_hunk(
            views(ls@),
            i as int,
        ) == Err::<(HunkView, int), Seq<char>>(reason@),
{
    let ghost vs = views(ls@);
    assert(vs[i as int] == ls@[i as int]@);
    let n = ls.len();
    let (old_start, old_count, new_start, new_count) = parse_hunk_header(&ls[i])?;
    let mut out: Vec<HunkLine> = Vec::new();
    let mut k = i + 1;
    proof {
        lemma_hunk_body_end(vs, i + 1);
    }
    while k < ls.len() && !hunk_stop_exec(&ls[k])
        invariant
            vs == views(ls@),
            i < k <= ls@.len(),
            line_views(out@) + hunk_body(vs, k as int).0 == hunk_body(vs, i + 1).0,
            hunk_body(vs, k as int).1 == hunk_body(vs, i + 1).1,
        decreases ls.len() - k,
    {
        assert(vs[k as int] == ls@[k as int]@);
        let ghost old_out = out@;
        match parse_line_exec(&ls[k]) {
            Some(l) => {
                out.push(l);
                assert(line_views(out@) =~= line_views(old_out) + seq![l@]);
            },
            None => {},
        }
        k += 1;
    }
    proof {
        if k < ls@.len() {
            assert(vs[k as int] == ls@[k as int]@);
        }
        assert(line_views(out@) =~= hunk_body(vs, i + 1).0);
    }
    Ok((Hunk { old_start, old_count, new_start, new_count, lines: out }, k))
}

/// Parse a `---` or `+++` header line to extract the file path.
fn parse_file_header(line: &[char], prefix: &str) -> (r: String)
    ensures
        r@ == spec_file_header(line@, prefix@),
{
    let p = trim_vec(&drop_prefix_exec(line, &to_chars(prefix)));
    let a = to_chars("a/");
    let b = to_chars("b/");
    proof {
        reveal_strlit("a/");
        reveal_strlit("b/");
    }
    let p2 = if starts_with_exec(&p, &a) {
        slice_of(&p, a.len(), p.len())
    } else if starts_with_exec(&p, &b) {
        slice_of(&p, b.len(), p.len())
    } else {
        slice_of(&p, 0, p.len())
    };
    assert(p@.subrange(0, p@.len() as int) =~= p@);
    assert(p@.len() >= 2 ==> p@.subrange(2, p@.len() as int) =~= p@.skip(2));
    let tab: Vec<char> = vec!['\t'];
    assert(tab@ =~= seq!['\t']);
    string_from(&before_exec(&p2, &tab))
}

/// Parse a unified diff string into a [`Patch`].
///
/// Handles both `diff --git` and plain `---`/`+++` formats.
#[verifier::loop_isolation(false)]
pub fn parse_unified_diff(diff_text: &str) -> (r: Result<Patch, CheckerError>)
    ensures
        r matches Ok(p) ==> spec_parse_unified_diff(diff_text@) == Ok::<
            Seq<FilePatchView>,
            Seq<char>,
        >(p@),
        r matches Err(e) ==> e matches CheckerError::AiFixFailed { reason }
            && spec_parse_unified_diff(diff_text@) == Err::<Seq<FilePatchView>, Seq<char>>(
            reason@,
        ),
{
    let chars = to_chars(diff_text);
    let ls = lines_vec(&chars);
    let ghost vs = views(ls@);
    let dash = to_chars("---");
    let plus = to_chars("+++");
    let git = to_chars("diff --git");
    let at = to_chars("@@");
    let mut file_patches: Vec<FilePatch> = Vec::new();
    let mut i: usize = 0;
    while i < ls.len()
        invariant
            vs == views(ls@),
            vs == lines(diff_text@),
            dash@ == "---"@,
            plus@ == "+++"@,
            git@ == "diff --git"@,
            at@ == "@@"@,
            i <= ls@.len(),
            diff_at(vs, i as int) is Ok ==> diff_at(vs, 0) is Ok && diff_at(vs, 0)->Ok_0
                == file_patches@.map_values(|f: FilePatch| f@) + diff_at(vs, i as int)->Ok_0,
            diff_at(vs, i as int) is Err ==> diff_at(vs, 0) == diff_at(vs, i as int),
        decreases ls.len() - i,
    {
        assert(vs[i as int] == ls@[i as int]@);
        if starts_with_exec(&ls[i], &git) {
            let ghost i0 = i;
            i += 1;
            while i < ls.len() && !starts_with_exec(&ls[i], &dash) && !starts_with_exec(
                &ls[i],
                &git,
            )
                invariant
                    vs == views(ls@),
                    dash@ == "---"@,
                    git@ == "diff --git"@,
                    i0 < i <= ls@.len(),
                    skip_git_header(vs, i as int) == skip_git_header(vs, i0 + 1),
                decreases ls.len() - i,
            {
                assert(vs[i as int] == ls@[i as int]@);
                i += 1;
            }
            proof {
                if i < ls@.len() {
                    assert(vs[i as int] == ls@[i as int]@);
                }
            }
            continue;
        }
        if starts_with_exec(&ls[i], &dash) {
            let ghost i0 = i;
            let old_path = parse_file_header(&ls[i], "---");
            i += 1;
            if i >= ls.len() || !starts_with_exec(&ls[i], &plus) {
                proof {
                    if i < ls@.len() {
                        assert(vs[i as int] == ls@[i as int]@);
                    }
                }
                return Err(
                    CheckerError::AiFixFailed {
                        reason: String::from_str("Malformed diff: expected +++ after ---"),
                    },
                );
            }
            assert(vs[i as int] == ls@[i as int]@);
            let new_path = parse_file_header(&ls[i], "+++");
            i += 1;
            let path = if str_eq(new_path.as_str(), "/dev/null") {
                old_path
            } else {
                new_path
            };
            let ghost path_v = path@;
            // Parse hunks for this file.
            let mut hunks: Vec<Hunk> = Vec::new();
            proof {
                lemma_hunks_at_end(vs, i as int);
            }
            while i < ls.len() && !starts_with_exec(&ls[i], &git) && !starts_with_exec(
                &ls[i],
                &dash,
            )
                invariant
                    vs == views(ls@),
                    dash@ == "---"@,
                    git@ == "diff --git"@,
                    at@ == "@@"@,
                    i0 + 2 <= i <= ls@.len(),
                    hunks_at(vs, i as int) is Ok ==> hunks_at(vs, i0 + 2) is Ok && hunks_at(
                        vs,
                        i0 + 2,
                    )->Ok_0.0 == hunks@.map_values(|h: Hunk| h@) + hunks_at(
                        vs,
                        i as int,
                    )->Ok_0.0 && hunks_at(vs, i0 + 2)->Ok_0.1 == hunks_at(
                        vs,
                        i as int,
                    )->Ok_0.1,
                    hunks_at(vs, i as int) is Err ==> hunks_at(vs, i0 + 2) == hunks_at(
                        vs,
                        i as int,
                    ),
                decreases ls.len() - i,
            {
                assert(vs[i as int] == ls@[i as int]@);
                if starts_with_exec(&ls[i], &at) {
                    match parse_hunk(&ls, i) {
                        Ok((hunk, j)) => {
                            proof {
                                lemma_hunk_body_end(vs, i + 1);
                            }
                            let ghost old_h = hunks@;
                            hunks.push(hunk);
                            assert(hunks@.map_values(|h: Hunk| h@) =~= old_h.map_values(
                                |h: Hunk| h@,
                            ) + seq![hunk@]);
                            i = j;
                        },
                        Err(e) => {
                            return Err(e);
                        },
                    }
                } else {
                    i += 1;
                }
            }
            proof {
                if i < ls@.len() {
                    assert(vs[i as int] == ls@[i as int]@);
                }
                assert(hunks_at(vs, i as int) == Ok::<(Seq<HunkView>, int), Seq<char>>(
                    (seq![], i as int),
                ));
                assert(hunks@.map_values(|h: Hunk| h@) =~= hunks@.map_values(|h: Hunk| h@)
                    + Seq::<HunkView>::empty());
                lemma_hunks_at_end(vs, i0 + 2);
            }
            if hunks.len() > 0 {
                let ghost old_f = file_patches@;
                let fp = FilePatch { path, hunks };
                file_patches.push(fp);
                assert(file_patches@.map_values(|f: FilePatch| f@) =~= old_f.map_values(
                    |f: FilePatch| f@,
                ) + seq![fp@]);
            }
            continue;
        }
        i += 1;
    }
    proof {
        assert(file_patches@.map_values(|f: FilePatch| f@) + Seq::<FilePatchView>::empty()
            =~= file_patches@.map_values(|f: FilePatch| f@));
    }
    if file_patches.len() == 0 {
        return Err(
            CheckerError::AiFixFailed {
                reason: String::from_str("No file patches found in diff output"),
            },
        );
    }
    Ok(Patch { file_patches })
}


// ---------------------------------------------------------------------------
// Fuzzy sequence matching
// ---------------------------------------------------------------------------

/// Typographic dashes, quotes and spaces mapped to their ASCII forms.
pub open spec fn norm_char(c: char) -> char {
    if ('\u{2010}' <= c && c <= '\u{2015}') || c == '\u{2212}' {
        '-'
    } else if '\u{2018}' <= c && c <= '\u{201B}' {
        '\''
    } else if '\u{201C}' <= c && c <= '\u{201F}' {
        '"'
    } else if c == '\u{00A0}' || ('\u{2002}' <= c && c <= '\u{200A}') || c == '\u{202F}' || c
        == '\u{205F}' || c == '\u{3000}' {
        ' '
    } else {
        c
    }
}

/// A line trimmed, with typographic punctuation normalised.
pub open spec fn normalise(s: Seq<char>) -> Seq<char> {
    let t = trim(s);
    Seq::new(t.len(), |i: int| norm_char(t[i]))
}

/// Line equality in each of the four passes: exact, ignoring trailing
/// whitespace, ignoring surrounding whitespace, and after normalisation.
pub open spec fn line_eq(a: Seq<char>, b: Seq<char>, pass: int) -> bool {
    if pass == 0 {
        a == b
    } else if pass == 1 {
        trim_end(a) == trim_end(b)
    } else if pass == 2 {
        trim(a) == trim(b)
    } else {
        normalise(a) == normalise(b)
    }
}

/// `pat` matches the lines starting at `i` in the given pass.
pub open spec fn window_eq(ls: Seq<Seq<char>>, pat: Seq<Seq<char>>, i: int, pass: int) -> bool {
    forall|j: int| 0 <= j < pat.len() ==> line_eq(#[trigger] ls[i + j], pat[j], pass)
}

/// The first position in `i..=end` where the window matches.
pub open spec fn first_window(
    ls: Seq<Seq<char>>,
    pat: Seq<Seq<char>>,
    i: int,
    end: int,
    pass: int,
) -> Option<int>
    decreases end + 1 - i,
{
    if i > end {
        None
    } else if window_eq(ls, pat, i, pass) {
        Some(i)
    } else {
        first_window(ls, pat, i + 1, end, pass)
    }
}

/// Where `pat` is found in `ls` at or after `start`: the first match of the
/// strictest pass that finds one.
pub open spec fn spec_seek(ls: Seq<Seq<char>>, pat: Seq<Seq<char>>, start: int) -> Option<int> {
    if pat.len() == 0 {
        Some(start)
    } else if pat.len() > ls.len() {
        None
    } else {
        let end = ls.len() - pat.len();
        match first_window(ls, pat, start, end, 0) {
            Some(i) => Some(i),
            None => match first_window(ls, pat, start, end, 1) {
                Some(i) => Some(i),
                None => match first_window(ls, pat, start, end, 2) {
                    Some(i) => Some(i),
                    None => first_window(ls, pat, start, end, 3),
                },
            },
        }
    }
}

/// The first match is a match, inside the searched range.
pub proof fn lemma_first_window(ls: Seq<Seq<char>>, pat: Seq<Seq<char>>, i: int, end: int, pass: int)
    ensures
        first_window(ls, pat, i, end, pass) matches Some(k) ==> i <= k <= end && window_eq(
            ls,
            pat,
            k,
            pass,
        ),
    decreases end + 1 - i,
{
    if i <= end && !window_eq(ls, pat, i, pass) {
        lemma_first_window(ls, pat, i + 1, end, pass);
    }
}

/// Normalise common Unicode punctuation to ASCII equivalents.
fn normalise_unicode(v: &[char]) -> (r: Vec<char>)
    ensures
        r@ == normalise(v@),
{
    let t = trim_vec(v);
    let mut r: Vec<char> = Vec::new();
    let mut i: usize = 0;
    while i < t.len()
        invariant
            i <= t@.len(),
            t@ == trim(v@),
            r@ == Seq::new(i as nat, |k: int| norm_char(t@[k])),
        decreases t.len() - i,
    {
        let c = t[i];
        let m = if ('\u{2010}' <= c && c <= '\u{2015}') || c == '\u{2212}' {
            '-'
        } else if '\u{2018}' <= c && c <= '\u{201B}' {
            '\''
        } else if '\u{201C}' <= c && c <= '\u{201F}' {
            '"'
        } else if c == '\u{00A0}' || ('\u{2002}' <= c && c <= '\u{200A}') || c == '\u{202F}' || c
            == '\u{205F}' || c == '\u{3000}' {
            ' '
        } else {
            c
        };
        r.push(m);
        i += 1;
        assert(r@ =~= Seq::new(i as nat, |k: int| norm_char(t@[k])));
    }
    r
}

/// Line equality in the given pass.
fn line_eq_exec(a: &[char], b: &[char], pass: usize) -> (r: bool)
    requires
        pass < 4,
    ensures
        r == line_eq(a@, b@, pass as int),
{
    if pass == 0 {
        vec_eq(a, b)
    } else if pass == 1 {
        let x = skip_ws_back(a, 0, a.len());
        let y = skip_ws_back(b, 0, b.len());
        assert(a@.subrange(0, a@.len() as int) =~= a@);
        assert(b@.subrange(0, b@.len() as int) =~= b@);
        vec_eq(&slice_of(a, 0, x), &slice_of(b, 0, y))
    } else if pass == 2 {
        vec_eq(&trim_vec(a), &trim_vec(b))
    } else {
        vec_eq(&normalise_unicode(a), &normalise_unicode(b))
    }
}

/// Whether `pat` matches the lines starting at `i` in the given pass.
fn window_eq_exec(ls: &Vec<Vec<char>>, pat: &Vec<Vec<char>>, i: usize, pass: usize) -> (r: bool)
    requires
        pass < 4,
        i + pat@.len() <= ls@.len(),
    ensures
        r == window_eq(views(ls@), views(pat@), i as int, pass as int),
{
    let n = ls.len();
    let mut j: usize = 0;
    while j < pat.len()
        invariant
            n == ls@.len(),
            pass < 4,
            i + pat@.len() <= ls@.len(),
            j <= pat@.len(),
            forall|k: int| 0 <= k < j ==> line_eq(#[trigger] views(ls@)[i + k], views(pat@)[k], pass as int),
        decreases pat.len() - j,
    {
        if !line_eq_exec(&ls[i + j], &pat[j], pass) {
            assert(views(ls@)[i + j] == ls@[i + j]@);
            return false;
        }
        assert(views(ls@)[i + j] == ls@[i + j]@);
        j += 1;
    }
    true
}

/// The first match at or after `start` in the given pass.
fn first_window_exec(ls: &Vec<Vec<char>>, pat: &Vec<Vec<char>>, start: usize, pass: usize) -> (r: Option<usize>)
    requires
        pass < 4,
        pat@.len() <= ls@.len(),
    ensures
        r matches Some(i) ==> first_window(views(ls@), views(pat@), start as int, ls@.len() - pat@.len(), pass as int) == Some(i as int),
        r is None ==> first_window(views(ls@), views(pat@), start as int, ls@.len() - pat@.len(), pass as int) is None,
{
    let end = ls.len() - pat.len();
    let mut i = start;
    while i <= end
        invariant
            pass < 4,
            pat@.len() <= ls@.len(),
            end == ls@.len() - pat@.len(),
            start <= i,
            first_window(views(ls@), views(pat@), start as int, end as int, pass as int)
                == first_window(views(ls@), views(pat@), i as int, end as int, pass as int),
        decreases end + 1 - i,
    {
        if window_eq_exec(ls, pat, i, pass) {
            return Some(i);
        }
        if i == end {
            assert(first_window(views(ls@), views(pat@), i + 1, end as int, pass as int) is None);
            return None;
        }
        i += 1;
    }
    None
}

/// Find `pattern` lines within `lines` starting at or after `start`, with
/// four passes of decreasing strictness.
fn seek_sequence(lines: &Vec<Vec<char>>, pattern: &Vec<Vec<char>>, start: usize) -> (r: Option<usize>)
    ensures
        r matches Some(i) ==> spec_seek(views(lines@), views(pattern@), start as int) == Some(i as int),
        r is None ==> spec_seek(views(lines@), views(pattern@), start as int) is None,
{
    if pattern.len() == 0 {
        return Some(start);
    }
    if pattern.len() > lines.len() {
        return None;
    }
    let mut pass: usize = 0;
    while pass < 4
        invariant
            pattern@.len() <= lines@.len(),
            pattern@.len() > 0,
            pass <= 4,
            forall|p: int| 0 <= p < pass ==> #[trigger] first_window(views(lines@), views(pattern@), start as int, lines@.len() - pattern@.len(), p) is None,
        decreases 4 - pass,
    {
        if let Some(i) = first_window_exec(lines, pattern, start, pass) {
            return Some(i);
        }
        pass += 1;
    }
    None
}


// ---------------------------------------------------------------------------
// Application
// ---------------------------------------------------------------------------

/// Result of applying a patch to a file.
#[derive(Debug, Clone)]
pub struct PatchResult {
    /// The new file content after patching.
    pub content: String,
    /// Lines added.
    pub lines_added: usize,
    /// Lines removed.
    pub lines_removed: usize,
    /// Number of lines of the original file (the base of the change ratio).
    pub original_lines: usize,
}

/// The lines a hunk expects in the file: context and removed lines.
pub open spec fn old_side(ls: Seq<LineView>) -> Seq<Seq<char>>
    decreases ls.len(),
{
    if ls.len() == 0 {
        seq![]
    } else {
        (match ls[0] {
            LineView::Context(c) => seq![c],
            LineView::Remove(c) => seq![c],
            LineView::Add(_) => seq![],
        }) + old_side(ls.drop_first())
    }
}

/// The lines a hunk leaves in the file: context and added lines.
pub open spec fn new_side(ls: Seq<LineView>) -> Seq<Seq<char>>
    decreases ls.len(),
{
    if ls.len() == 0 {
        seq![]
    } else {
        (match ls[0] {
            LineView::Context(c) => seq![c],
            LineView::Add(c) => seq![c],
            LineView::Remove(_) => seq![],
        }) + new_side(ls.drop_first())
    }
}

/// Number of added (`add`) or removed (`!add`) lines among `ls`.
pub open spec fn count_kind(ls: Seq<LineView>, add: bool) -> int
    decreases ls.len(),
{
    if ls.len() == 0 {
        0
    } else {
        (if (add && ls[0] is Add) || (!add && ls[0] is Remove) {
            1int
        } else {
            0int
        }) + count_kind(ls.drop_first(), add)
    }
}

/// Number of added (`add`) or removed (`!add`) lines in all hunks.
pub open spec fn count_in_hunks(hs: Seq<HunkView>, add: bool) -> int
    decreases hs.len(),
{
    if hs.len() == 0 {
        0
    } else {
        count_kind(hs[0].lines, add) + count_in_hunks(hs.drop_first(), add)
    }
}

/// Position after the hunks whose start is at most `k` (in a sorted list).
pub open spec fn hunk_insert_pos(t: Seq<HunkView>, k: usize) -> int
    decreases t.len(),
{
    if t.len() == 0 || t[0].old_start > k {
        0
    } else {
        1 + hunk_insert_pos(t.drop_first(), k)
    }
}

/// The hunks stably sorted by their stated start line.
pub open spec fn sort_hunks(s: Seq<HunkView>) -> Seq<HunkView>
    decreases s.len(),
{
    if s.len() == 0 {
        seq![]
    } else {
        let t = sort_hunks(s.drop_last());
        let p = hunk_insert_pos(t, s.last().old_start);
        t.take(p) + seq![s.last()] + t.skip(p)
    }
}

/// A replacement: start index, number of lines removed, lines inserted.
pub type Repl = (int, int, Seq<Seq<char>>);

/// Where a hunk's old lines are found: from `from` on, else from its stated
/// line, else (if `from` is past the top) from the top.
pub open spec fn locate(orig: Seq<Seq<char>>, old: Seq<Seq<char>>, h: HunkView, from: int) -> Option<int> {
    match spec_seek(orig, old, from) {
        Some(i) => Some(i),
        None => {
            let hint = if h.old_start > 0 {
                h.old_start - 1
            } else {
                0
            };
            match spec_seek(orig, old, hint) {
                Some(i) => Some(i),
                None => if from > 0 {
                    spec_seek(orig, old, 0)
                } else {
                    None
                },
            }
        },
    }
}

/// The message for a hunk that could not be located.
pub open spec fn locate_error(old_start: usize, first: Seq<char>) -> Seq<char> {
    "Could not locate hunk in file (expected near line "@ + decimal(old_start as nat)
        + "). First old line: "@ + debug_text(first)
}

/// The replacements for the (sorted) hunks, searching from `from`.
pub open spec fn plan(orig: Seq<Seq<char>>, hs: Seq<HunkView>, from: int) -> Result<Seq<Repl>, Seq<char>>
    decreases hs.len(),
{
    if hs.len() == 0 {
        Ok(seq![])
    } else {
        let h = hs[0];
        let old = old_side(h.lines);
        let new = new_side(h.lines);
        if old.len() == 0 {
            let at = if h.old_start > 0 {
                if h.old_start - 1 < orig.len() {
                    h.old_start - 1
                } else {
                    orig.len() as int
                }
            } else {
                0
            };
            match plan(orig, hs.drop_first(), from) {
                Ok(r) => Ok(seq![(at, 0int, new)] + r),
                Err(e) => Err(e),
            }
        } else {
            match locate(orig, old, h, from) {
                None => Err(locate_error(h.old_start, old[0])),
                Some(i) => match plan(orig, hs.drop_first(), i + old.len()) {
                    Ok(r) => Ok(seq![(i, old.len() as int, new)] + r),
                    Err(e) => Err(e),
                },
            }
        }
    }
}

/// Position after the replacements whose start is at most `k`.
pub open spec fn repl_insert_pos(t: Seq<Repl>, k: int) -> int
    decreases t.len(),
{
    if t.len() == 0 || t[0].0 > k {
        0
    } else {
        1 + repl_insert_pos(t.drop_first(), k)
    }
}

/// The replacements stably sorted by start.
pub open spec fn sort_repls(s: Seq<Repl>) -> Seq<Repl>
    decreases s.len(),
{
    if s.len() == 0 {
        seq![]
    } else {
        let t = sort_repls(s.drop_last());
        let p = repl_insert_pos(t, s.last().0);
        t.take(p) + seq![s.last()] + t.skip(p)
    }
}

/// One replacement applied to the lines.
pub open spec fn splice(ls: Seq<Seq<char>>, r: Repl) -> Seq<Seq<char>> {
    let end = if r.0 + r.1 < ls.len() {
        r.0 + r.1
    } else {
        ls.len() as int
    };
    ls.take(r.0) + r.2 + ls.skip(end)
}

/// The replacements applied from the last to the first.
pub open spec fn apply_repls(ls: Seq<Seq<char>>, rs: Seq<Repl>) -> Seq<Seq<char>>
    decreases rs.len(),
{
    if rs.len() == 0 {
        ls
    } else {
        apply_repls(splice(ls, rs.last()), rs.drop_last())
    }
}

/// What applying the hunks to a file gives: the new lines, or the message
/// of the hunk that could not be located.
pub open spec fn spec_apply_lines(orig: Seq<Seq<char>>, hunks: Seq<HunkView>) -> Result<Seq<Seq<char>>, Seq<char>> {
    match plan(orig, sort_hunks(hunks), 0) {
        Err(e) => Err(e),
        Ok(rs) => Ok(apply_repls(orig, sort_repls(rs))),
    }
}

/// The mathematical value of a [`PatchResult`]: content, lines added, lines
/// removed, lines of the original.
pub type PatchResultView = (Seq<char>, usize, usize, usize);

impl View for PatchResult {
    type V = PatchResultView;

    open spec fn view(&self) -> PatchResultView {
        (self.content@, self.lines_added, self.lines_removed, self.original_lines)
    }
}

/// What applying the hunks to the text of a file gives.
pub open spec fn spec_file_result(original: Seq<char>, hunks: Seq<HunkView>) -> Result<PatchResultView, Seq<char>> {
    let orig = lines(original);
    match spec_apply_lines(orig, hunks) {
        Ok(new_lines) => Ok(
            (
                join(new_lines, seq!['\n']),
                cap(count_in_hunks(hunks, true)),
                cap(count_in_hunks(hunks, false)),
                orig.len() as usize,
            ),
        ),
        Err(msg) => Err(msg),
    }
}

/// The content of the first file named `path`.
pub open spec fn lookup_file(files: Seq<(Seq<char>, Seq<char>)>, path: Seq<char>) -> Option<Seq<char>>
    decreases files.len(),
{
    if files.len() == 0 {
        None
    } else if files[0].0 == path {
        Some(files[0].1)
    } else {
        lookup_file(files.drop_first(), path)
    }
}

/// What applying a whole patch gives: the result for each patched path (a
/// later file patch for the same path replaces an earlier one), or the first
/// failure.
pub open spec fn spec_apply_patch(fps: Seq<FilePatchView>, files: Seq<(Seq<char>, Seq<char>)>) -> Result<Map<Seq<char>, PatchResultView>, Seq<char>>
    decreases fps.len(),
{
    if fps.len() == 0 {
        Ok(Map::empty())
    } else {
        match spec_apply_patch(fps.drop_last(), files) {
            Err(e) => Err(e),
            Ok(m) => {
                let fp = fps.last();
                match lookup_file(files, fp.path) {
                    None => Err("Patch references unknown file: "@ + fp.path),
                    Some(orig) => match spec_file_result(orig, fp.hunks) {
                        Err(e) => Err(e),
                        Ok(res) => Ok(m.insert(fp.path, res)),
                    },
                }
            },
        }
    }
}

/// The views of a list of (path, content) pairs.
pub open spec fn file_views(files: Seq<(String, String)>) -> Seq<(Seq<char>, Seq<char>)> {
    files.map_values(|f: (String, String)| (f.0@, f.1@))
}

/// The map held by a list of (path, result) pairs with distinct paths.
pub open spec fn result_map(rs: Seq<(String, PatchResult)>) -> Map<Seq<char>, PatchResultView>
    decreases rs.len(),
{
    if rs.len() == 0 {
        Map::empty()
    } else {
        result_map(rs.drop_last()).insert(rs.last().0@, rs.last().1@)
    }
}

/// The paths of a list of (path, result) pairs are distinct.
pub open spec fn distinct_paths(rs: Seq<(String, PatchResult)>) -> bool {
    forall|i: int, j: int| 0 <= i < j < rs.len() ==> rs[i].0@ != rs[j].0@
}

/// A count capped at the largest `usize`.
pub open spec fn cap(n: int) -> usize {
    if n <= usize::MAX {
        n as usize
    } else {
        usize::MAX
    }
}

/// The hunk views of a list of hunks.
pub open spec fn hunk_views(hs: Seq<Hunk>) -> Seq<HunkView> {
    hs.map_values(|h: Hunk| h@)
}

// --- lemmas -----------------------------------------------------------------

/// Counts are not negative.
proof fn lemma_count_kind_nonneg(ls: Seq<LineView>, add: bool)
    ensures
        count_kind(ls, add) >= 0,
    decreases ls.len(),
{
    if ls.len() > 0 {
        lemma_count_kind_nonneg(ls.drop_first(), add);
    }
}

/// Counts over hunks are not negative.
proof fn lemma_count_in_hunks_nonneg(hs: Seq<HunkView>, add: bool)
    ensures
        count_in_hunks(hs, add) >= 0,
    decreases hs.len(),
{
    if hs.len() > 0 {
        lemma_count_kind_nonneg(hs[0].lines, add);
        lemma_count_in_hunks_nonneg(hs.drop_first(), add);
    }
}

/// Sorting keeps every start at most `n` if it was before.
proof fn lemma_sort_repls_bound(s: Seq<Repl>, n: int)
    requires
        forall|i: int| 0 <= i < s.len() ==> 0 <= #[trigger] s[i].0 <= n,
    ensures
        sort_repls(s).len() == s.len(),
        forall|i: int| 0 <= i < sort_repls(s).len() ==> 0 <= #[trigger] sort_repls(s)[i].0 <= n,
    decreases s.len(),
{
    if s.len() > 0 {
        let t = sort_repls(s.drop_last());
        assert forall|i: int| 0 <= i < s.drop_last().len() implies 0 <= #[trigger] s.drop_last()[i].0 <= n by {
            assert(s.drop_last()[i] == s[i]);
        }
        lemma_sort_repls_bound(s.drop_last(), n);
        lemma_repl_insert_pos(t, s.last().0);
        let p = repl_insert_pos(t, s.last().0);
        let r = t.take(p) + seq![s.last()] + t.skip(p);
        assert forall|i: int| 0 <= i < r.len() implies 0 <= #[trigger] r[i].0 <= n by {
            if i < p {
                assert(r[i] == t[i]);
            } else if i == p {
                assert(r[i] == s.last());
            } else {
                assert(r[i] == t[i - 1]);
            }
        }
    }
}

/// The insertion position lies within the list.
proof fn lemma_repl_insert_pos(t: Seq<Repl>, k: int)
    ensures
        0 <= repl_insert_pos(t, k) <= t.len(),
        forall|i: int| 0 <= i < repl_insert_pos(t, k) ==> t[i].0 <= k,
    decreases t.len(),
{
    if t.len() > 0 && t[0].0 <= k {
        lemma_repl_insert_pos(t.drop_first(), k);
        assert forall|i: int| 0 <= i < repl_insert_pos(t, k) implies t[i].0 <= k by {
            if i > 0 {
                assert(t[i] == t.drop_first()[i - 1]);
            }
        }
    }
}

/// Sorted by start.
pub open spec fn repls_sorted(t: Seq<Repl>) -> bool {
    forall|i: int, j: int| 0 <= i <= j < t.len() ==> t[i].0 <= t[j].0
}

/// The insertion sort gives a sorted list.
proof fn lemma_sort_repls_sorted(s: Seq<Repl>)
    ensures
        repls_sorted(sort_repls(s)),
        sort_repls(s).len() == s.len(),
    decreases s.len(),
{
    if s.len() > 0 {
        let t = sort_repls(s.drop_last());
        lemma_sort_repls_sorted(s.drop_last());
        let k = s.last().0;
        lemma_repl_insert_pos(t, k);
        lemma_repl_insert_pos_after(t, k);
        let p = repl_insert_pos(t, k);
        let r = t.take(p) + seq![s.last()] + t.skip(p);
        assert forall|i: int, j: int| 0 <= i <= j < r.len() implies r[i].0 <= r[j].0 by {
            let ri = if i < p { t[i] } else if i == p { s.last() } else { t[i - 1] };
            let rj = if j < p { t[j] } else if j == p { s.last() } else { t[j - 1] };
            assert(r[i] == ri);
            assert(r[j] == rj);
        }
    }
}

/// In a sorted list, everything from the insertion position on has a larger start.
proof fn lemma_repl_insert_pos_after(t: Seq<Repl>, k: int)
    requires
        repls_sorted(t),
    ensures
        forall|i: int| repl_insert_pos(t, k) <= i < t.len() ==> t[i].0 > k,
    decreases t.len(),
{
    if t.len() > 0 {
        if t[0].0 <= k {
            assert forall|i: int, j: int| 0 <= i <= j < t.drop_first().len() implies t.drop_first()[i].0 <= t.drop_first()[j].0 by {
                assert(t.drop_first()[i] == t[i + 1]);
                assert(t.drop_first()[j] == t[j + 1]);
            }
            lemma_repl_insert_pos_after(t.drop_first(), k);
            lemma_repl_insert_pos(t.drop_first(), k);
            assert forall|i: int| repl_insert_pos(t, k) <= i < t.len() implies t[i].0 > k by {
                assert(t[i] == t.drop_first()[i - 1]);
            }
        }
    }
}

/// Every start of a plan lies within the file.
proof fn lemma_plan_bound(orig: Seq<Seq<char>>, hs: Seq<HunkView>, from: int)
    requires
        0 <= from,
    ensures
        plan(orig, hs, from) matches Ok(rs) ==> forall|i: int| 0 <= i < rs.len() ==> 0 <= #[trigger] rs[i].0 <= orig.len(),
    decreases hs.len(),
{
    if hs.len() > 0 {
        let h = hs[0];
        let old = old_side(h.lines);
        if old.len() == 0 {
            lemma_plan_bound(orig, hs.drop_first(), from);
        } else {
            match locate(orig, old, h, from) {
                None => {},
                Some(i) => {
                    lemma_locate_bound(orig, old, h, from);
                    lemma_plan_bound(orig, hs.drop_first(), i + old.len());
                    if let Ok(r) = plan(orig, hs.drop_first(), i + old.len()) {
                        let rs = seq![(i, old.len() as int, new_side(h.lines))] + r;
                        assert forall|k: int| 0 <= k < rs.len() implies 0 <= #[trigger] rs[k].0 <= orig.len() by {
                            if k > 0 {
                                assert(rs[k] == r[k - 1]);
                            }
                        }
                    }
                },
            }
        }
        if old.len() == 0 {
            if let Ok(r) = plan(orig, hs.drop_first(), from) {
                let at = if h.old_start > 0 {
                    if h.old_start - 1 < orig.len() { h.old_start - 1 } else { orig.len() as int }
                } else {
                    0
                };
                let rs = seq![(at, 0int, new_side(h.lines))] + r;
                assert forall|k: int| 0 <= k < rs.len() implies 0 <= #[trigger] rs[k].0 <= orig.len() by {
                    if k > 0 {
                        assert(rs[k] == r[k - 1]);
                    }
                }
            }
        }
    }
}

/// A located hunk starts within the file and its old lines fit.
proof fn lemma_locate_bound(orig: Seq<Seq<char>>, old: Seq<Seq<char>>, h: HunkView, from: int)
    requires
        old.len() > 0,
        0 <= from,
    ensures
        locate(orig, old, h, from) matches Some(i) ==> 0 <= i && i + old.len() <= orig.len(),
{
    let hint = if h.old_start > 0 { h.old_start - 1 } else { 0 };
    lemma_seek_bound(orig, old, from);
    lemma_seek_bound(orig, old, hint);
    lemma_seek_bound(orig, old, 0);
}

/// A match found by the search fits in the file, at or after `start`.
proof fn lemma_seek_bound(ls: Seq<Seq<char>>, pat: Seq<Seq<char>>, start: int)
    requires
        pat.len() > 0,
    ensures
        spec_seek(ls, pat, start) matches Some(i) ==> start <= i && i + pat.len() <= ls.len(),
{
    if pat.len() <= ls.len() {
        let end = ls.len() - pat.len();
        lemma_first_window(ls, pat, start, end, 0);
        lemma_first_window(ls, pat, start, end, 1);
        lemma_first_window(ls, pat, start, end, 2);
        lemma_first_window(ls, pat, start, end, 3);
    }
}

// --- executable ---------------------------------------------------------------

/// The old and new sides of a hunk's lines.
fn hunk_sides(lines: &Vec<HunkLine>) -> (r: (Vec<Vec<char>>, Vec<Vec<char>>))
    ensures
        views(r.0@) == old_side(line_views(lines@)),
        views(r.1@) == new_side(line_views(lines@)),
{
    let mut old: Vec<Vec<char>> = Vec::new();
    let mut new: Vec<Vec<char>> = Vec::new();
    let ghost lv = line_views(lines@);
    let mut k: usize = 0;
    assert(lv.skip(0) =~= lv);
    assert(views(old@) =~= Seq::<Seq<char>>::empty());
    assert(views(new@) =~= Seq::<Seq<char>>::empty());
    while k < lines.len()
        invariant
            k <= lines@.len(),
            lv == line_views(lines@),
            views(old@) + old_side(lv.skip(k as int)) == old_side(lv),
            views(new@) + new_side(lv.skip(k as int)) == new_side(lv),
        decreases lines.len() - k,
    {
        let ghost rest = lv.skip(k as int);
        assert(rest.drop_first() =~= lv.skip(k + 1));
        assert(rest[0] == lines@[k as int]@);
        let ghost o0 = old@;
        let ghost n0 = new@;
        match &lines[k] {
            HunkLine::Context(c) => {
                let cv = to_chars(c.as_str());
                let cv2 = to_chars(c.as_str());
                old.push(cv);
                new.push(cv2);
                assert(views(old@) =~= views(o0) + seq![c@]);
                assert(views(new@) =~= views(n0) + seq![c@]);
            },
            HunkLine::Remove(c) => {
                let cv = to_chars(c.as_str());
                old.push(cv);
                assert(views(old@) =~= views(o0) + seq![c@]);
                assert(views(new@) =~= views(n0) + Seq::<Seq<char>>::empty());
            },
            HunkLine::Add(c) => {
                let cv = to_chars(c.as_str());
                new.push(cv);
                assert(views(new@) =~= views(n0) + seq![c@]);
                assert(views(old@) =~= views(o0) + Seq::<Seq<char>>::empty());
            },
        }
        k += 1;
    }
    assert(lv.skip(lines@.len() as int) =~= Seq::<LineView>::empty());
    assert(views(old@) + Seq::<Seq<char>>::empty() =~= views(old@));
    assert(views(new@) + Seq::<Seq<char>>::empty() =~= views(new@));
    (old, new)
}

/// Count of added or removed lines in all hunks, capped at `usize::MAX`.
fn count_lines(hunks: &Vec<Hunk>, add: bool) -> (r: usize)
    ensures
        r == cap(count_in_hunks(hunk_views(hunks@), add)),
{
    let ghost hv = hunk_views(hunks@);
    let mut total: usize = 0;
    let mut h: usize = 0;
    assert(hv.skip(0) =~= hv);
    while h < hunks.len()
        invariant
            h <= hunks@.len(),
            hv == hunk_views(hunks@),
            cap(count_in_hunks(hv, add)) == cap(total + count_in_hunks(hv.skip(h as int), add)),
        decreases hunks.len() - h,
    {
        let lines = &hunks[h].lines;
        let ghost lv = line_views(lines@);
        assert(hv.skip(h as int)[0] == hunks@[h as int]@);
        assert(hv.skip(h as int).drop_first() =~= hv.skip(h + 1));
        let mut k: usize = 0;
        let ghost t0 = total;
        assert(lv.skip(0) =~= lv);
        while k < lines.len()
            invariant
                k <= lines@.len(),
                lv == line_views(lines@),
                cap(t0 + count_kind(lv, add)) == cap(total + count_kind(lv.skip(k as int), add)),
            decreases lines.len() - k,
        {
            assert(lv.skip(k as int)[0] == lines@[k as int]@);
            assert(lv.skip(k as int).drop_first() =~= lv.skip(k + 1));
            proof {
                lemma_count_kind_nonneg(lv.skip(k + 1), add);
            }
            let hit = match &lines[k] {
                HunkLine::Add(_) => add,
                HunkLine::Remove(_) => !add,
                HunkLine::Context(_) => false,
            };
            if hit {
                total = total.saturating_add(1);
            }
            k += 1;
        }
        assert(lv.skip(lines@.len() as int) =~= Seq::<LineView>::empty());
        proof {
            lemma_count_in_hunks_nonneg(hv.skip(h + 1), add);
            lemma_count_kind_nonneg(lv, add);
        }
        h += 1;
    }
    assert(hv.skip(hunks@.len() as int) =~= Seq::<HunkView>::empty());
    total
}

/// The lines of a hunk list sorted stably by stated start.
fn sort_hunk_refs(hunks: &Vec<Hunk>) -> (r: Vec<&Hunk>)
    ensures
        r@.map_values(|h: &Hunk| h@) == sort_hunks(hunk_views(hunks@)),
{
    let ghost hv = hunk_views(hunks@);
    let mut out: Vec<&Hunk> = Vec::new();
    let mut i: usize = 0;
    while i < hunks.len()
        invariant
            i <= hunks@.len(),
            hv == hunk_views(hunks@),
            out@.map_values(|h: &Hunk| h@) == sort_hunks(hv.take(i as int)),
        decreases hunks.len() - i,
    {
        let x = &hunks[i];
        let key = x.old_start;
        let ghost t = out@.map_values(|h: &Hunk| h@);
        let mut p: usize = 0;
        assert(t.skip(0) =~= t);
        while p < out.len() && out[p].old_start <= key
            invariant
                p <= out@.len(),
                t == out@.map_values(|h: &Hunk| h@),
                hunk_insert_pos(t, key) == p + hunk_insert_pos(t.skip(p as int), key),
            decreases out.len() - p,
        {
            assert(t.skip(p as int)[0] == out@[p as int]@);
            assert(t.skip(p as int).drop_first() =~= t.skip(p + 1));
            p += 1;
        }
        proof {
            if p < out@.len() {
                assert(t.skip(p as int)[0] == out@[p as int]@);
            }
            assert(hunk_insert_pos(t.skip(p as int), key) == 0);
            assert(hv.take(i + 1).drop_last() =~= hv.take(i as int));
            assert(hv.take(i + 1).last() == x@);
        }
        out.insert(p, x);
        assert(out@.map_values(|h: &Hunk| h@) =~= t.take(p as int) + seq![x@] + t.skip(p as int));
        i += 1;
    }
    assert(hv.take(hunks@.len() as int) =~= hv);
    out
}

/// The exec form of a replacement.
pub open spec fn repl_view(r: (usize, usize, Vec<Vec<char>>)) -> Repl {
    (r.0 as int, r.1 as int, views(r.2@))
}

/// Views of a list of replacements.
pub open spec fn repl_views(v: Seq<(usize, usize, Vec<Vec<char>>)>) -> Seq<Repl> {
    v.map_values(|r: (usize, usize, Vec<Vec<char>>)| repl_view(r))
}

/// Sort replacements stably by start.
fn sort_repls_exec(rs: Vec<(usize, usize, Vec<Vec<char>>)>) -> (r: Vec<(usize, usize, Vec<Vec<char>>)>)
    ensures
        repl_views(r@) == sort_repls(repl_views(rs@)),
{
    let ghost rv = repl_views(rs@);
    let mut out: Vec<(usize, usize, Vec<Vec<char>>)> = Vec::new();
    let mut src = rs;
    // Take the elements off the back, then re-insert them from the front.
    let mut stack: Vec<(usize, usize, Vec<Vec<char>>)> = Vec::new();
    while src.len() > 0
        invariant
            repl_views(src@) + repl_views(stack@).reverse() == rv,
        decreases src.len(),
    {
        let ghost s0 = src@;
        let ghost k0 = stack@;
        let x = src.pop().unwrap();
        stack.push(x);
        assert(repl_views(src@) =~= repl_views(s0).drop_last());
        assert(repl_views(stack@).reverse() =~= seq![repl_view(x)] + repl_views(k0).reverse());
        assert(repl_views(s0) =~= repl_views(src@) + seq![repl_view(x)]);
    }
    assert(repl_views(src@) =~= Seq::<Repl>::empty());
    assert(repl_views(stack@).reverse() =~= rv);
    let mut i: usize = 0;
    let n = stack.len();
    while stack.len() > 0
        invariant
            n == rv.len(),
            i + stack@.len() == n,
            repl_views(stack@).reverse() == rv.skip(i as int),
            repl_views(out@) == sort_repls(rv.take(i as int)),
        decreases stack.len(),
    {
        let ghost k0 = stack@;
        let x = stack.pop().unwrap();
        assert(repl_views(k0).reverse()[0] == repl_view(x));
        assert(repl_views(stack@).reverse() =~= repl_views(k0).reverse().drop_first());
        let key = x.0;
        let ghost t = repl_views(out@);
        let mut p: usize = 0;
        assert(t.skip(0) =~= t);
        while p < out.len() && out[p].0 <= key
            invariant
                p <= out@.len(),
                t == repl_views(out@),
                repl_insert_pos(t, key as int) == p + repl_insert_pos(t.skip(p as int), key as int),
            decreases out.len() - p,
        {
            assert(t.skip(p as int)[0] == repl_view(out@[p as int]));
            assert(t.skip(p as int).drop_first() =~= t.skip(p + 1));
            p += 1;
        }
        proof {
            if p < out@.len() {
                assert(t.skip(p as int)[0] == repl_view(out@[p as int]));
            }
            assert(repl_insert_pos(t.skip(p as int), key as int) == 0);
            assert(rv.skip(i as int)[0] == repl_view(x));
            assert(rv.take(i + 1).drop_last() =~= rv.take(i as int));
            assert(rv.take(i + 1).last() == repl_view(x));
            assert(rv.skip(i as int).drop_first() =~= rv.skip(i + 1));
        }
        out.insert(p, x);
        assert(repl_views(out@) =~= t.take(p as int) + seq![repl_view(x)] + t.skip(p as int));
        i += 1;
    }
    assert(rv.take(n as int) =~= rv);
    out
}

/// One replacement applied.
fn splice_exec(ls: &Vec<Vec<char>>, start: usize, old_len: usize, new: &Vec<Vec<char>>) -> (r: Vec<Vec<char>>)
    requires
        start <= ls@.len(),
    ensures
        views(r@) == splice(views(ls@), (start as int, old_len as int, views(new@))),
{
    let n = ls.len();
    let end = if old_len < n - start {
        start + old_len
    } else {
        n
    };
    let mut r: Vec<Vec<char>> = Vec::new();
    let mut k: usize = 0;
    while k < start
        invariant
            k <= start <= n,
            n == ls@.len(),
            views(r@) == views(ls@).take(k as int),
        decreases start - k,
    {
        let line = slice_of(&ls[k], 0, ls[k].len());
        assert(ls@[k as int]@.subrange(0, ls@[k as int]@.len() as int) =~= ls@[k as int]@);
        let ghost r0 = r@;
        r.push(line);
        assert(views(r@) =~= views(r0) + seq![line@]);
        assert(views(ls@).take(k + 1) =~= views(ls@).take(k as int) + seq![ls@[k as int]@]);
        k += 1;
    }
    let mut j: usize = 0;
    while j < new.len()
        invariant
            j <= new@.len(),
            views(r@) == views(ls@).take(start as int) + views(new@).take(j as int),
        decreases new.len() - j,
    {
        let line = slice_of(&new[j], 0, new[j].len());
        assert(new@[j as int]@.subrange(0, new@[j as int]@.len() as int) =~= new@[j as int]@);
        let ghost r0 = r@;
        r.push(line);
        assert(views(r@) =~= views(r0) + seq![line@]);
        assert(views(new@).take(j + 1) =~= views(new@).take(j as int) + seq![new@[j as int]@]);
        j += 1;
    }
    assert(views(new@).take(new@.len() as int) =~= views(new@));
    let mut k = end;
    while k < n
        invariant
            end <= k <= n,
            n == ls@.len(),
            views(r@) == views(ls@).take(start as int) + views(new@) + views(ls@).subrange(end as int, k as int),
        decreases n - k,
    {
        let line = slice_of(&ls[k], 0, ls[k].len());
        assert(ls@[k as int]@.subrange(0, ls@[k as int]@.len() as int) =~= ls@[k as int]@);
        let ghost r0 = r@;
        r.push(line);
        assert(views(r@) =~= views(r0) + seq![line@]);
        assert(views(ls@).subrange(end as int, k + 1) =~= views(ls@).subrange(end as int, k as int) + seq![ls@[k as int]@]);
        k += 1;
    }
    assert(views(ls@).subrange(end as int, n as int) =~= views(ls@).skip(end as int));
    r
}

/// `lines.join("\n")`.
fn join_lines(ls: &Vec<Vec<char>>) -> (s: String)
    ensures
        s@ == join(views(ls@), seq!['\n']),
{
    let mut s = String::new();
    let mut i: usize = 0;
    let ghost vs = views(ls@);
    while i < ls.len()
        invariant
            i <= ls@.len(),
            vs == views(ls@),
            s@ == join(vs.take(i as int), seq!['\n']),
        decreases ls.len() - i,
    {
        let ghost s0 = s@;
        if i > 0 {
            push_char(&mut s, '\n');
        }
        push_all(&mut s, &ls[i]);
        proof {
            let t = vs.take(i + 1);
            assert(t.drop_last() =~= vs.take(i as int));
            assert(t.last() == ls@[i as int]@);
            if i == 0 {
                assert(t.len() == 1);
                assert(s0 =~= Seq::<char>::empty());
                assert(s@ =~= t[0]);
            } else {
                assert(s@ =~= s0 + seq!['\n'] + t.last());
            }
        }
        i += 1;
    }
    assert(vs.take(ls@.len() as int) =~= vs);
    s
}

/// Apply hunks to a single file's content using fuzzy content matching.
///
/// Each hunk's removed and context lines are located in the file (see
/// [`spec_seek`]); replacements are collected and applied bottom-up.
pub fn apply_file_patch(original: &str, hunks: &Vec<Hunk>) -> (r: Result<PatchResult, CheckerError>)
    ensures
        match spec_file_result(original@, hunk_views(hunks@)) {
            Ok(v) => r matches Ok(res) && res@ == v,
            Err(msg) => r matches Err(e) && e matches CheckerError::AiFixFailed { reason }
                && reason@ == msg,
        },
{
    let chars = to_chars(original);
    let original_lines = lines_vec(&chars);
    let ghost orig = views(original_lines@);
    let total_original = original_lines.len();
    let sorted = sort_hunk_refs(hunks);
    let ghost sv = sorted@.map_values(|h: &Hunk| h@);
    let mut replacements: Vec<(usize, usize, Vec<Vec<char>>)> = Vec::new();
    let mut search_from: usize = 0;
    let mut i: usize = 0;
    assert(sv.skip(0) =~= sv);
    assert(repl_views(replacements@) =~= Seq::<Repl>::empty());
    while i < sorted.len()
        invariant
            i <= sorted@.len(),
            sv == sorted@.map_values(|h: &Hunk| h@),
            sv == sort_hunks(hunk_views(hunks@)),
            orig == views(original_lines@),
            orig == lines(original@),
            total_original == orig.len(),
            search_from <= total_original,
            plan(orig, sv, 0) is Ok ==> plan(orig, sv.skip(i as int), search_from as int) is Ok
                && plan(orig, sv, 0)->Ok_0 == repl_views(replacements@) + plan(orig, sv.skip(i as int), search_from as int)->Ok_0,
            plan(orig, sv.skip(i as int), search_from as int) is Ok ==> plan(orig, sv, 0) is Ok,
            plan(orig, sv.skip(i as int), search_from as int) is Err ==> plan(orig, sv, 0) == plan(orig, sv.skip(i as int), search_from as int),
        decreases sorted.len() - i,
    {
        let hunk = sorted[i];
        let ghost rest = sv.skip(i as int);
        assert(rest[0] == hunk@);
        assert(rest.drop_first() =~= sv.skip(i + 1));
        let (old_lines, new_lines) = hunk_sides(&hunk.lines);
        assert(line_views(hunk.lines@) == hunk@.lines);
        let ghost old_r = replacements@;
        let ghost lo = locate(orig, views(old_lines@), hunk@, search_from as int);
        if old_lines.len() == 0 {
            let insert_at = if hunk.old_start > 0 {
                if hunk.old_start - 1 < total_original {
                    hunk.old_start - 1
                } else {
                    total_original
                }
            } else {
                0
            };
            replacements.push((insert_at, 0, new_lines));
            assert(repl_views(replacements@) =~= repl_views(old_r) + seq![(insert_at as int, 0int, views(new_lines@))]);
            i += 1;
            continue;
        }
        let mut match_start = seek_sequence(&original_lines, &old_lines, search_from);
        if match_start.is_none() {
            let hint = if hunk.old_start > 0 {
                hunk.old_start - 1
            } else {
                0
            };
            match_start = seek_sequence(&original_lines, &old_lines, hint);
        }
        if match_start.is_none() {
            if search_from > 0 {
                match_start = seek_sequence(&original_lines, &old_lines, 0);
            }
        }
        assert(match_start matches Some(x) ==> lo == Some(x as int));
        assert(match_start is None ==> lo is None);
        match match_start {
            Some(idx) => {
                proof {
                    lemma_locate_bound(orig, views(old_lines@), hunk@, search_from as int);
                }
                let olen = old_lines.len();
                replacements.push((idx, olen, new_lines));
                assert(repl_views(replacements@) =~= repl_views(old_r) + seq![(idx as int, olen as int, views(new_lines@))]);
                search_from = idx + olen;
            },
            None => {
                let first = string_from(&old_lines[0]);
                assert(views(old_lines@)[0] == old_lines@[0]@);
                assert(views(old_lines@).len() > 0);
                assert(plan(orig, sv.skip(i as int), search_from as int) == Err::<Seq<Repl>, Seq<char>>(
                    locate_error(hunk@.old_start, views(old_lines@)[0]),
                ));
                let msg = cat(
                    "Could not locate hunk in file (expected near line ",
                    usize_to_string(hunk.old_start).as_str(),
                );
                let msg = msg.concat("). First old line: ");
                let msg = msg.concat(debug_string(first.as_str()).as_str());
                assert(msg@ == locate_error(hunk@.old_start, views(old_lines@)[0]));
                return Err(CheckerError::AiFixFailed { reason: msg });
            },
        }
        i += 1;
    }
    assert(sv.skip(sorted@.len() as int) =~= Seq::<HunkView>::empty());
    assert(repl_views(replacements@) + Seq::<Repl>::empty() =~= repl_views(replacements@));
    let ghost rs = repl_views(replacements@);
    assert(plan(orig, sv, 0) == Ok::<Seq<Repl>, Seq<char>>(rs));
    proof {
        lemma_plan_bound(orig, sv, 0);
        lemma_sort_repls_bound(rs, orig.len() as int);
        lemma_sort_repls_sorted(rs);
    }
    let sorted_repls = sort_repls_exec(replacements);
    let ghost srs = repl_views(sorted_repls@);
    // Apply in reverse to preserve indices.
    let mut lines_now = original_lines;
    let mut k = sorted_repls.len();
    assert(srs.take(srs.len() as int) =~= srs);
    assert(srs == sort_repls(rs));
    while k > 0
        invariant
            k <= sorted_repls@.len(),
            srs == repl_views(sorted_repls@),
            repls_sorted(srs),
            forall|m: int| 0 <= m < srs.len() ==> 0 <= #[trigger] srs[m].0,
            forall|m: int| 0 <= m < k ==> #[trigger] srs[m].0 <= views(lines_now@).len(),
            apply_repls(orig, srs) == apply_repls(views(lines_now@), srs.take(k as int)),
        decreases k,
    {
        let (start, old_len, ref new_l) = sorted_repls[k - 1];
        assert(srs[k - 1] == repl_view(sorted_repls@[k - 1]));
        let next = splice_exec(&lines_now, start, old_len, new_l);
        proof {
            assert(srs.take(k as int).drop_last() =~= srs.take(k - 1));
            assert(srs.take(k as int).last() == srs[k - 1]);
            assert forall|m: int| 0 <= m < k - 1 implies #[trigger] srs[m].0 <= views(next@).len() by {
                assert(srs[m].0 <= srs[k - 1].0);
            }
        }
        lines_now = next;
        k -= 1;
    }
    let content = join_lines(&lines_now);
    Ok(PatchResult {
        content,
        lines_added: count_lines(hunks, true),
        lines_removed: count_lines(hunks, false),
        original_lines: total_original,
    })
}


/// The first file named `path`.
fn find_file<'a>(files: &'a Vec<(String, String)>, path: &String) -> (r: Option<&'a String>)
    ensures
        r matches Some(c) ==> lookup_file(file_views(files@), path@) == Some(c@),
        r is None ==> lookup_file(file_views(files@), path@) is None,
{
    let ghost fv = file_views(files@);
    let mut i: usize = 0;
    assert(fv.skip(0) =~= fv);
    while i < files.len()
        invariant
            i <= files@.len(),
            fv == file_views(files@),
            lookup_file(fv, path@) == lookup_file(fv.skip(i as int), path@),
        decreases files.len() - i,
    {
        assert(fv.skip(i as int)[0] == (files@[i as int].0@, files@[i as int].1@));
        assert(fv.skip(i as int).drop_first() =~= fv.skip(i + 1));
        if str_eq(files[i].0.as_str(), path.as_str()) {
            return Some(&files[i].1);
        }
        i += 1;
    }
    None
}

/// Set the result for a path, replacing an earlier one.
fn upsert(rs: &mut Vec<(String, PatchResult)>, path: String, res: PatchResult)
    requires
        distinct_paths(old(rs)@),
    ensures
        distinct_paths(final(rs)@),
        result_map(final(rs)@) == result_map(old(rs)@).insert(path@, res@),
{
    let mut i: usize = 0;
    while i < rs.len()
        invariant
            i <= rs@.len(),
            rs@ == old(rs)@,
            distinct_paths(old(rs)@),
            forall|k: int| 0 <= k < i ==> rs@[k].0@ != path@,
        decreases rs.len() - i,
    {
        if str_eq(rs[i].0.as_str(), path.as_str()) {
            let ghost old_rs = rs@;
            proof {
                lemma_result_map_update(old_rs, i as int, res);
            }
            rs.set(i, (path, res));
            return;
        }
        i += 1;
    }
    proof {
        lemma_result_map_push(rs@, path@, res);
    }
    rs.push((path, res));
}

/// Replacing the entry at `i` (with the same path) updates the map there.
proof fn lemma_result_map_update(rs: Seq<(String, PatchResult)>, i: int, res: PatchResult)
    requires
        distinct_paths(rs),
        0 <= i < rs.len(),
    ensures
        forall|path: String| path@ == rs[i].0@ ==> distinct_paths(#[trigger] rs.update(i, (path, res)))
            && result_map(rs.update(i, (path, res))) == result_map(rs).insert(path@, res@),
    decreases rs.len(),
{
    assert forall|path: String| path@ == rs[i].0@ implies distinct_paths(#[trigger] rs.update(i, (path, res)))
        && result_map(rs.update(i, (path, res))) == result_map(rs).insert(path@, res@) by {
        let u = rs.update(i, (path, res));
        assert forall|a: int, b: int| 0 <= a < b < u.len() implies u[a].0@ != u[b].0@ by {
            assert(u[a].0@ == rs[a].0@);
            assert(u[b].0@ == rs[b].0@);
        }
        if i == rs.len() - 1 {
            assert(u.drop_last() =~= rs.drop_last());
            lemma_result_map_absent(rs.drop_last(), rs[i].0@);
            assert(result_map(u) =~= result_map(rs).insert(path@, res@));
        } else {
            let d = rs.drop_last();
            assert(distinct_paths(d));
            lemma_result_map_update(d, i, res);
            assert(u.drop_last() =~= d.update(i, (path, res)));
            assert(u.last() == rs.last());
            assert(rs.last().0@ != path@);
            assert(result_map(u) =~= result_map(rs).insert(path@, res@));
        }
    }
}

/// A path that no entry names is absent from the map.
proof fn lemma_result_map_absent(rs: Seq<(String, PatchResult)>, p: Seq<char>)
    requires
        forall|k: int| 0 <= k < rs.len() ==> rs[k].0@ != p,
    ensures
        !result_map(rs).dom().contains(p),
    decreases rs.len(),
{
    if rs.len() > 0 {
        lemma_result_map_absent(rs.drop_last(), p);
    }
}

/// Appending an entry with a new path inserts it into the map.
proof fn lemma_result_map_push(rs: Seq<(String, PatchResult)>, p: Seq<char>, res: PatchResult)
    requires
        distinct_paths(rs),
        forall|k: int| 0 <= k < rs.len() ==> rs[k].0@ != p,
    ensures
        forall|path: String| path@ == p ==> distinct_paths(#[trigger] rs.push((path, res)))
            && result_map(rs.push((path, res))) == result_map(rs).insert(p, res@),
{
    assert forall|path: String| path@ == p implies distinct_paths(#[trigger] rs.push((path, res)))
        && result_map(rs.push((path, res))) == result_map(rs).insert(p, res@) by {
        let u = rs.push((path, res));
        assert(u.drop_last() =~= rs);
        assert forall|a: int, b: int| 0 <= a < b < u.len() implies u[a].0@ != u[b].0@ by {
            if b == rs.len() {
                assert(u[a] == rs[a]);
            } else {
                assert(u[a] == rs[a]);
                assert(u[b] == rs[b]);
            }
        }
    }
}

/// Apply a patch to file contents.
///
/// `files` lists each file path with its current content. Returns each
/// patched path with its patched content and statistics.
pub fn apply_patch(patch: &Patch, files: &Vec<(String, String)>) -> (r: Result<Vec<(String, PatchResult)>, CheckerError>)
    ensures
        match spec_apply_patch(patch@, file_views(files@)) {
            Ok(m) => r matches Ok(rs) && distinct_paths(rs@) && result_map(rs@) == m,
            Err(msg) => r matches Err(e) && e matches CheckerError::AiFixFailed { reason }
                && reason@ == msg,
        },
{
    let mut results: Vec<(String, PatchResult)> = Vec::new();
    let ghost pv = patch@;
    let mut i: usize = 0;
    assert(result_map(results@) =~= Map::<Seq<char>, PatchResultView>::empty());
    while i < patch.file_patches.len()
        invariant
            i <= patch.file_patches@.len(),
            pv == patch@,
            distinct_paths(results@),
            spec_apply_patch(pv.take(i as int), file_views(files@)) == Ok::<Map<Seq<char>, PatchResultView>, Seq<char>>(result_map(results@)),
        decreases patch.file_patches.len() - i,
    {
        let fp = &patch.file_patches[i];
        assert(pv.take(i + 1).drop_last() =~= pv.take(i as int));
        assert(pv.take(i + 1).last() == fp@);
        let original = match find_file(files, &fp.path) {
            Some(c) => c,
            None => {
                proof {
                    lemma_apply_patch_prefix_err(pv, file_views(files@), i as int);
                }
                return Err(CheckerError::AiFixFailed {
                    reason: cat("Patch references unknown file: ", fp.path.as_str()),
                });
            },
        };
        match apply_file_patch(original.as_str(), &fp.hunks) {
            Ok(res) => {
                upsert(&mut results, fp.path.clone(), res);
            },
            Err(e) => {
                proof {
                    lemma_apply_patch_prefix_err(pv, file_views(files@), i as int);
                }
                return Err(e);
            },
        }
        i += 1;
    }
    assert(pv.take(pv.len() as int) =~= pv);
    Ok(results)
}

/// A failure on a prefix of the file patches is the failure of the whole patch.
proof fn lemma_apply_patch_prefix_err(fps: Seq<FilePatchView>, files: Seq<(Seq<char>, Seq<char>)>, i: int)
    requires
        0 <= i < fps.len(),
        spec_apply_patch(fps.take(i + 1), files) is Err,
    ensures
        spec_apply_patch(fps, files) == spec_apply_patch(fps.take(i + 1), files),
    decreases fps.len(),
{
    if i + 1 < fps.len() {
        assert(fps.drop_last().take(i + 1) =~= fps.take(i + 1));
        lemma_apply_patch_prefix_err(fps.drop_last(), files, i);
    } else {
        assert(fps.take(i + 1) =~= fps);
    }
}

// ---------------------------------------------------------------------------
// Preview
// ---------------------------------------------------------------------------

/// How many lines of a hunk a preview shows.
pub const PREVIEW_LINES: usize = 60;

/// A hunk line in a preview: context indented, additions after `+ `,
/// removals after `- `.
pub open spec fn preview_line(l: LineView) -> (Tone, Seq<char>) {
    match l {
        LineView::Context(c) => (Tone::Info, "  "@ + c),
        LineView::Add(c) => (Tone::Success, "+ "@ + c),
        LineView::Remove(c) => (Tone::Error, "- "@ + c),
    }
}

/// A hunk's header line.
pub open spec fn hunk_header(h: HunkView) -> Seq<char> {
    "@@ -"@ + decimal(h.old_start as nat) + ","@ + decimal(h.old_count as nat) + " +"@ + decimal(
        h.new_start as nat,
    ) + ","@ + decimal(h.new_count as nat) + " @@"@
}

/// The preview of a hunk: its header, then at most sixty of its lines,
/// and a note when there are more.
pub open spec fn preview_hunk(h: HunkView) -> Seq<(Tone, Seq<char>)> {
    let n = if h.lines.len() <= PREVIEW_LINES {
        h.lines.len() as int
    } else {
        PREVIEW_LINES as int
    };
    seq![(Tone::Info, hunk_header(h))] + Seq::new(n as nat, |i: int| preview_line(h.lines[i])) + if h.lines.len() > PREVIEW_LINES {
        seq![(Tone::Info, "  ... (more lines)"@)]
    } else {
        Seq::empty()
    }
}

/// The previews of hunks, one after another.
pub open spec fn preview_hunks(hs: Seq<HunkView>) -> Seq<(Tone, Seq<char>)>
    decreases hs.len(),
{
    if hs.len() == 0 {
        Seq::empty()
    } else {
        preview_hunks(hs.drop_last()) + preview_hunk(hs.last())
    }
}

/// The preview of a patch: for each file, `--- path` and its hunks.
pub open spec fn preview_files(fs: Seq<FilePatchView>) -> Seq<(Tone, Seq<char>)>
    decreases fs.len(),
{
    if fs.len() == 0 {
        Seq::empty()
    } else {
        preview_files(fs.drop_last()) + seq![(Tone::Info, "--- "@ + fs.last().path)] + preview_hunks(
            fs.last().hunks,
        )
    }
}

fn summary(tone: Tone, text: String) -> (r: SummaryLine)
    ensures
        r@ == (tone, text@),
{
    SummaryLine { tone, text }
}

fn push_summary(out: &mut Vec<SummaryLine>, l: SummaryLine)
    ensures
        crate::fixer::line_views(final(out)@) == crate::fixer::line_views(old(out)@).push(l@),
{
    out.push(l);
    assert(crate::fixer::line_views(out@) =~= crate::fixer::line_views(old(out)@).push(l@));
}

fn preview_hunk_exec(h: &Hunk, out: &mut Vec<SummaryLine>)
    ensures
        crate::fixer::line_views(final(out)@) == crate::fixer::line_views(old(out)@) + preview_hunk(h@),
{
    let ghost start = crate::fixer::line_views(out@);
    let mut t = String::from_str("@@ -");
    crate::text::append(&mut t, usize_to_string(h.old_start).as_str());
    crate::text::append(&mut t, ",");
    crate::text::append(&mut t, usize_to_string(h.old_count).as_str());
    crate::text::append(&mut t, " +");
    crate::text::append(&mut t, usize_to_string(h.new_start).as_str());
    crate::text::append(&mut t, ",");
    crate::text::append(&mut t, usize_to_string(h.new_count).as_str());
    crate::text::append(&mut t, " @@");
    push_summary(out, summary(Tone::Info, t));
    let ghost head = crate::fixer::line_views(out@);
    let ghost lv = h@.lines;
    let mut i: usize = 0;
    while i < h.lines.len()
        invariant
            i <= h.lines@.len(),
            i <= PREVIEW_LINES,
            lv == h@.lines,
            lv.len() == h.lines@.len(),
            start == crate::fixer::line_views(old(out)@),
            head == start.push((Tone::Info, hunk_header(h@))),
            crate::fixer::line_views(out@) == head + Seq::new(i as nat, |k: int| preview_line(lv[k])),
        decreases h.lines.len() - i,
    {
        if i >= PREVIEW_LINES {
            push_summary(out, summary(Tone::Info, String::from_str("  ... (more lines)")));
            assert(crate::fixer::line_views(out@) =~= start + preview_hunk(h@));
            return;
        }
        let l = match &h.lines[i] {
            HunkLine::Context(c) => {
                let mut x = String::from_str("  ");
                crate::text::append(&mut x, c.as_str());
                summary(Tone::Info, x)
            },
            HunkLine::Add(c) => {
                let mut x = String::from_str("+ ");
                crate::text::append(&mut x, c.as_str());
                summary(Tone::Success, x)
            },
            HunkLine::Remove(c) => {
                let mut x = String::from_str("- ");
                crate::text::append(&mut x, c.as_str());
                summary(Tone::Error, x)
            },
        };
        assert(l@ == preview_line(lv[i as int]));
        push_summary(out, l);
        assert(crate::fixer::line_views(out@) =~= head + Seq::new((i + 1) as nat, |k: int| preview_line(lv[k])));
        i += 1;
    }
    assert(crate::fixer::line_views(out@) =~= start + preview_hunk(h@));
}

/// The lines that preview a patch, in order; the program prints them.
pub fn display_patch_preview(patch: &Patch) -> (r: Vec<SummaryLine>)
    ensures
        crate::fixer::line_views(r@) == preview_files(patch@),
{
    let mut out: Vec<SummaryLine> = Vec::new();
    let ghost fs = patch@;
    let mut i: usize = 0;
    assert(fs.take(0) =~= Seq::<FilePatchView>::empty());
    assert(crate::fixer::line_views(out@) =~= Seq::<(Tone, Seq<char>)>::empty());
    while i < patch.file_patches.len()
        invariant
            i <= patch.file_patches@.len(),
            fs == patch@,
            fs.len() == patch.file_patches@.len(),
            crate::fixer::line_views(out@) == preview_files(fs.take(i as int)),
        decreases patch.file_patches.len() - i,
    {
        let fp = &patch.file_patches[i];
        assert(fs[i as int] == fp@);
        assert(fs.take(i + 1).drop_last() =~= fs.take(i as int));
        let mut t = String::from_str("--- ");
        crate::text::append(&mut t, fp.path.as_str());
        push_summary(&mut out, summary(Tone::Info, t));
        let ghost after_head = crate::fixer::line_views(out@);
        let ghost hs = fp@.hunks;
        let mut j: usize = 0;
        assert(hs.take(0) =~= Seq::<HunkView>::empty());
        assert(after_head + preview_hunks(hs.take(0)) =~= after_head);
        while j < fp.hunks.len()
            invariant
                j <= fp.hunks@.len(),
                hs == fp@.hunks,
                hs.len() == fp.hunks@.len(),
                crate::fixer::line_views(out@) == after_head + preview_hunks(hs.take(j as int)),
            decreases fp.hunks.len() - j,
        {
            assert(hs[j as int] == fp.hunks@[j as int]@);
            assert(hs.take(j + 1).drop_last() =~= hs.take(j as int));
            preview_hunk_exec(&fp.hunks[j], &mut out);
            assert(after_head + preview_hunks(hs.take(j + 1)) =~= after_head + preview_hunks(hs.take(j as int))
                + preview_hunk(hs[j as int]));
            j += 1;
        }
        assert(hs.take(hs.len() as int) =~= hs);
        assert(crate::fixer::line_views(out@) =~= preview_files(fs.take(i + 1)));
        i += 1;
    }
    assert(fs.take(fs.len() as int) =~= fs);
    out
}

} // verus!
