//! Context collection for AI repair.
//!
//! Gathers the files with errors, the files they import and the project's
//! configuration files, capping the total size. The program reads the
//! files; which of them go into the context, cut how, is decided here.
use vstd::prelude::*;
use vstd::utf8::encode_utf8;

use crate::context::{
    extract_error_region, extract_imports, first_n, import_candidates, lines_range,
    path_extension, region_extractable, region_fits, region_first_line, region_text, resolve_import_path,
    spec_imports_for_extension, FileContext, RepairContext, DEFAULT_MAX_CONTEXT_BYTES,
};
use crate::output::CheckIssue;
use crate::text::{append, join, join_lines, lines, lines_vec, str_eq, strs, to_chars, views};

verus! {

// ---------------------------------------------------------------------------
// Model
// ---------------------------------------------------------------------------

/// The size of a text in bytes, as UTF-8.
pub open spec fn byte_len(s: Seq<char>) -> int {
    encode_utf8(s).len() as int
}

/// The size of one character in bytes, as UTF-8.
pub open spec fn char_bytes(c: char) -> int {
    encode_utf8(seq![c]).len() as int
}

/// What a file context holds, with strings as character sequences.
#[verifier::ext_equal]
pub struct FileView {
    pub content: Seq<char>,
    pub is_region: bool,
    pub region_start_line: Option<u32>,
    pub issues: Seq<CheckIssue>,
}

/// The view of a file context.
pub open spec fn file_view(fc: FileContext) -> FileView {
    FileView {
        content: fc.content@,
        is_region: fc.is_region,
        region_start_line: fc.region_start_line,
        issues: fc.issues@,
    }
}

/// The views of the error files of a context.
pub open spec fn error_views(v: Seq<(String, FileContext)>) -> Seq<(Seq<char>, FileView)> {
    Seq::new(v.len(), |i: int| (v[i].0@, file_view(v[i].1)))
}

/// The views of pairs of strings.
pub open spec fn pair_views(v: Seq<(String, String)>) -> Seq<(Seq<char>, Seq<char>)> {
    Seq::new(v.len(), |i: int| (v[i].0@, v[i].1@))
}

/// The state of a collection: what was gathered so far, the imports seen
/// in the error files (each once, in the order first seen), the bytes
/// counted, and whether the collection would have stopped the program
/// (a region that does not fit its file, a configuration file cut inside
/// a character).
#[verifier::ext_equal]
pub struct Gathered {
    pub error_files: Seq<(Seq<char>, FileView)>,
    pub related: Seq<(Seq<char>, Seq<char>)>,
    pub imports: Seq<Seq<char>>,
    pub total: int,
    pub fails: bool,
}

/// The content of the first file read under `path`.
pub open spec fn read_file(files: Seq<(Seq<char>, Seq<char>)>, path: Seq<char>) -> Option<Seq<char>>
    decreases files.len(),
{
    if files.len() == 0 {
        None
    } else if files[0].0 == path {
        Some(files[0].1)
    } else {
        read_file(files.drop_first(), path)
    }
}

/// The files of the issues, each once, in the order first seen.
pub open spec fn file_order(is: Seq<CheckIssue>, n: nat) -> Seq<Seq<char>>
    decreases n,
{
    if n == 0 {
        Seq::empty()
    } else {
        add_once(file_order(is, (n - 1) as nat), is[n - 1].file@)
    }
}

/// `s` with `x` appended unless it is already there.
pub open spec fn add_once(s: Seq<Seq<char>>, x: Seq<char>) -> Seq<Seq<char>> {
    if s.contains(x) {
        s
    } else {
        s.push(x)
    }
}

/// `s` with each of `xs` added once.
pub open spec fn add_all(s: Seq<Seq<char>>, xs: Seq<Seq<char>>) -> Seq<Seq<char>>
    decreases xs.len(),
{
    if xs.len() == 0 {
        s
    } else {
        add_all(add_once(s, xs[0]), xs.drop_first())
    }
}

/// The issues in a file, in order.
pub open spec fn issues_in(is: Seq<CheckIssue>, f: Seq<char>) -> Seq<CheckIssue>
    decreases is.len(),
{
    if is.len() == 0 {
        Seq::empty()
    } else {
        issues_in(is.drop_last(), f) + if is.last().file@ == f {
            seq![is.last()]
        } else {
            Seq::empty()
        }
    }
}

/// The imports of a file, as `extract_imports` finds them.
pub open spec fn file_imports(content: Seq<char>, path: Seq<char>) -> Seq<Seq<char>> {
    match path_extension(path) {
        Some(ext) => spec_imports_for_extension(content, ext),
        None => Seq::empty(),
    }
}

/// Whether a file counts as large: more than 500 lines.
pub open spec fn is_large(content: Seq<char>) -> bool {
    lines(content).len() > 500
}

/// The context of an error file: the region around its issues when it is
/// large, else all of it.
pub open spec fn error_file_view(content: Seq<char>, fis: Seq<CheckIssue>) -> FileView {
    if is_large(content) {
        FileView {
            content: region_text(content, fis),
            is_region: true,
            region_start_line: Some(region_first_line(fis) as u32),
            issues: fis,
        }
    } else {
        FileView { content, is_region: false, region_start_line: None, issues: fis }
    }
}

/// One file with issues added, when its context fits the cap: its imports
/// are noted in any case, and whether reading its region would stop the
/// program.
pub open spec fn error_step(st: Gathered, f: Seq<char>, c: Seq<char>, is: Seq<CheckIssue>, max: int) -> Gathered {
    let fis = issues_in(is, f);
    let fv = error_file_view(c, fis);
    let fits = st.total + byte_len(fv.content) <= max;
    Gathered {
        error_files: if fits {
            st.error_files.push((f, fv))
        } else {
            st.error_files
        },
        related: st.related,
        imports: add_all(st.imports, file_imports(c, f)),
        total: if fits {
            st.total + byte_len(fv.content)
        } else {
            st.total
        },
        fails: st.fails || (is_large(c) && (!region_fits(c, fis) || c.len() >= usize::MAX)),
    }
}

/// Adds the error files, in order, while fewer than `max` bytes are
/// counted, each only if it fits.
pub open spec fn gather_errors(
    fo: Seq<Seq<char>>,
    is: Seq<CheckIssue>,
    files: Seq<(Seq<char>, Seq<char>)>,
    max: int,
    st: Gathered,
) -> Gathered
    decreases fo.len(),
{
    if fo.len() == 0 || st.total >= max {
        st
    } else {
        let f = fo[0];
        let next = match read_file(files, f) {
            None => st,
            Some(c) => error_step(st, f, c, is, max),
        };
        gather_errors(fo.drop_first(), is, files, max, next)
    }
}

/// Whether a path is already in the context.
pub open spec fn gathered_path(st: Gathered, p: Seq<char>) -> bool {
    (exists|i: int| 0 <= i < st.error_files.len() && st.error_files[i].0 == p) || (exists|i: int|
        0 <= i < st.related.len() && st.related[i].0 == p)
}

/// Adds a related file unless it is there already, could not be read, or
/// would take the count past `max`.
pub open spec fn add_related(
    st: Gathered,
    p: Seq<char>,
    text: Option<Seq<char>>,
    max: int,
) -> Gathered {
    if gathered_path(st, p) {
        st
    } else {
        match text {
            None => st,
            Some(t) => if st.total + byte_len(t) <= max {
                Gathered { related: st.related.push((p, t)), total: st.total + byte_len(t), ..st }
            } else {
                st
            },
        }
    }
}

/// The first 80 lines of an imported file.
pub open spec fn import_head(c: Seq<char>) -> Seq<char> {
    join(first_n(lines(c), 80), seq!['\n'])
}

/// Adds the candidate files of one import.
pub open spec fn gather_candidates(
    cands: Seq<Seq<char>>,
    files: Seq<(Seq<char>, Seq<char>)>,
    max: int,
    st: Gathered,
) -> Gathered
    decreases cands.len(),
{
    if cands.len() == 0 {
        st
    } else {
        let text = match read_file(files, cands[0]) {
            Some(c) => Some(import_head(c)),
            None => None,
        };
        gather_candidates(cands.drop_first(), files, max, add_related(st, cands[0], text, max))
    }
}

/// Adds the files the imports resolve to, while fewer than `max` bytes
/// are counted.
pub open spec fn gather_imports(
    imps: Seq<Seq<char>>,
    known: Seq<Seq<char>>,
    files: Seq<(Seq<char>, Seq<char>)>,
    max: int,
    st: Gathered,
) -> Gathered
    decreases imps.len(),
{
    if imps.len() == 0 || st.total >= max {
        st
    } else {
        gather_imports(
            imps.drop_first(),
            known,
            files,
            max,
            gather_candidates(import_candidates(imps[0], known), files, max, st),
        )
    }
}

/// The longest start of `c` that takes at most `n` bytes.
pub open spec fn cut_bytes(c: Seq<char>, n: int) -> Seq<char>
    decreases c.len(),
{
    if c.len() == 0 || char_bytes(c[0]) > n {
        Seq::empty()
    } else {
        seq![c[0]] + cut_bytes(c.drop_first(), n - char_bytes(c[0]))
    }
}

/// The bytes of `n` that `cut_bytes(c, n)` leaves unused: zero exactly
/// when `n` falls between two characters (or after the last).
pub open spec fn cut_rest(c: Seq<char>, n: int) -> int
    decreases c.len(),
{
    if c.len() == 0 || char_bytes(c[0]) > n {
        n
    } else {
        cut_rest(c.drop_first(), n - char_bytes(c[0]))
    }
}

/// A configuration file as it goes into the context: cut after 4096 bytes.
pub open spec fn config_text(c: Seq<char>) -> Seq<char> {
    if byte_len(c) > 4096 {
        cut_bytes(c, 4096) + "...(truncated)"@
    } else {
        c
    }
}

/// Adds the configuration files, while fewer than `max` bytes are counted.
pub open spec fn gather_configs(
    cfgs: Seq<Seq<char>>,
    files: Seq<(Seq<char>, Seq<char>)>,
    max: int,
    st: Gathered,
) -> Gathered
    decreases cfgs.len(),
{
    if cfgs.len() == 0 || st.total >= max {
        st
    } else {
        let p = cfgs[0];
        let next = if gathered_path(st, p) {
            st
        } else {
            match read_file(files, p) {
                None => st,
                Some(c) => {
                    let cut_inside = byte_len(c) > 4096 && cut_rest(c, 4096) != 0;
                    let st2 = add_related(st, p, Some(config_text(c)), max);
                    Gathered { fails: st2.fails || cut_inside, ..st2 }
                },
            }
        };
        gather_configs(cfgs.drop_first(), files, max, next)
    }
}

/// The configuration files that go into every context, if they exist.
pub open spec fn config_names() -> Seq<Seq<char>> {
    seq![
        "Cargo.toml"@,
        "package.json"@,
        "tsconfig.json"@,
        "pyproject.toml"@,
        "ruff.toml"@,
        "biome.json"@,
        ".eslintrc.json"@,
        "composer.json"@,
        "phpstan.neon"@,
    ]
}

/// The byte cap of a collection.
pub open spec fn cap(max_context_bytes: Option<usize>) -> int {
    match max_context_bytes {
        Some(m) => m as int,
        None => DEFAULT_MAX_CONTEXT_BYTES as int,
    }
}

/// The whole collection: the file tree, then the error files, then what
/// their imports resolve to, then the configuration files.
pub open spec fn spec_collect(
    is: Seq<CheckIssue>,
    max_context_bytes: Option<usize>,
    tree: Seq<char>,
    files: Seq<(Seq<char>, Seq<char>)>,
) -> Gathered {
    let max = cap(max_context_bytes);
    let fo = file_order(is, is.len());
    let st0 = Gathered {
        error_files: Seq::empty(),
        related: Seq::empty(),
        imports: Seq::empty(),
        total: byte_len(tree),
        fails: false,
    };
    let st1 = gather_errors(fo, is, files, max, st0);
    let st2 = gather_imports(st1.imports, fo, files, max, st1);
    gather_configs(config_names(), files, max, st2)
}

// ---------------------------------------------------------------------------
// Lemmas
// ---------------------------------------------------------------------------

/// Gathering error files only adds bytes, and a failure stays.
pub proof fn lemma_errors_grow(
    fo: Seq<Seq<char>>,
    is: Seq<CheckIssue>,
    files: Seq<(Seq<char>, Seq<char>)>,
    max: int,
    st: Gathered,
)
    ensures
        gather_errors(fo, is, files, max, st).total >= st.total,
        st.fails ==> gather_errors(fo, is, files, max, st).fails,
    decreases fo.len(),
{
    if fo.len() > 0 && st.total < max {
        let f = fo[0];
        match read_file(files, f) {
            None => lemma_errors_grow(fo.drop_first(), is, files, max, st),
            Some(c) => {
                let fis = issues_in(is, f);
                let fv = error_file_view(c, fis);
                lemma_byte_len_nonneg(fv.content);
                let next = error_step(st, f, c, is, max);
                lemma_errors_grow(fo.drop_first(), is, files, max, next);
            },
        }
    }
}

/// A byte count is not negative.
pub proof fn lemma_byte_len_nonneg(s: Seq<char>)
    ensures
        byte_len(s) >= 0,
{
}

/// Gathering candidates only adds bytes and keeps the failure flag.
pub proof fn lemma_candidates_grow(
    cands: Seq<Seq<char>>,
    files: Seq<(Seq<char>, Seq<char>)>,
    max: int,
    st: Gathered,
)
    ensures
        gather_candidates(cands, files, max, st).total >= st.total,
        gather_candidates(cands, files, max, st).fails == st.fails,
        st.total <= max ==> gather_candidates(cands, files, max, st).total <= max,
    decreases cands.len(),
{
    if cands.len() > 0 {
        let text = match read_file(files, cands[0]) {
            Some(c) => Some(import_head(c)),
            None => None,
        };
        let next = add_related(st, cands[0], text, max);
        match text {
            Some(t) => lemma_byte_len_nonneg(t),
            None => {},
        }
        lemma_candidates_grow(cands.drop_first(), files, max, next);
    }
}

/// Gathering imports only adds bytes and keeps the failure flag.
pub proof fn lemma_imports_grow(
    imps: Seq<Seq<char>>,
    known: Seq<Seq<char>>,
    files: Seq<(Seq<char>, Seq<char>)>,
    max: int,
    st: Gathered,
)
    ensures
        gather_imports(imps, known, files, max, st).total >= st.total,
        gather_imports(imps, known, files, max, st).fails == st.fails,
    decreases imps.len(),
{
    if imps.len() > 0 && st.total < max {
        let cands = import_candidates(imps[0], known);
        lemma_candidates_grow(cands, files, max, st);
        lemma_imports_grow(
            imps.drop_first(),
            known,
            files,
            max,
            gather_candidates(cands, files, max, st),
        );
    }
}

/// Gathering configuration files only adds bytes, and a failure stays.
pub proof fn lemma_configs_grow(
    cfgs: Seq<Seq<char>>,
    files: Seq<(Seq<char>, Seq<char>)>,
    max: int,
    st: Gathered,
)
    ensures
        gather_configs(cfgs, files, max, st).total >= st.total,
        st.fails ==> gather_configs(cfgs, files, max, st).fails,
    decreases cfgs.len(),
{
    if cfgs.len() > 0 && st.total < max {
        let p = cfgs[0];
        if gathered_path(st, p) {
            lemma_configs_grow(cfgs.drop_first(), files, max, st);
        } else {
            match read_file(files, p) {
                None => lemma_configs_grow(cfgs.drop_first(), files, max, st),
                Some(c) => {
                    let cut_inside = byte_len(c) > 4096 && cut_rest(c, 4096) != 0;
                    lemma_byte_len_nonneg(config_text(c));
                    let st2 = add_related(st, p, Some(config_text(c)), max);
                    lemma_configs_grow(
                        cfgs.drop_first(),
                        files,
                        max,
                        Gathered { fails: st2.fails || cut_inside, ..st2 },
                    );
                },
            }
        }
    }
}

/// Gathering error files adds no related file.
pub proof fn lemma_errors_keep_related(
    fo: Seq<Seq<char>>,
    is: Seq<CheckIssue>,
    files: Seq<(Seq<char>, Seq<char>)>,
    max: int,
    st: Gathered,
)
    ensures
        gather_errors(fo, is, files, max, st).related == st.related,
    decreases fo.len(),
{
    if fo.len() > 0 && st.total < max {
        let f = fo[0];
        match read_file(files, f) {
            None => lemma_errors_keep_related(fo.drop_first(), is, files, max, st),
            Some(c) => {
                let fis = issues_in(is, f);
                let fv = error_file_view(c, fis);
                let next = error_step(st, f, c, is, max);
                lemma_errors_keep_related(fo.drop_first(), is, files, max, next);
            },
        }
    }
}

/// Once a related file is in, the count is within the cap.
pub open spec fn related_within_cap(st: Gathered, max: int) -> bool {
    st.related.len() > 0 ==> st.total <= max
}

/// Gathering candidates keeps related files within the cap.
pub proof fn lemma_candidates_cap(
    cands: Seq<Seq<char>>,
    files: Seq<(Seq<char>, Seq<char>)>,
    max: int,
    st: Gathered,
)
    requires
        related_within_cap(st, max),
    ensures
        related_within_cap(gather_candidates(cands, files, max, st), max),
    decreases cands.len(),
{
    if cands.len() > 0 {
        let text = match read_file(files, cands[0]) {
            Some(c) => Some(import_head(c)),
            None => None,
        };
        lemma_candidates_cap(cands.drop_first(), files, max, add_related(st, cands[0], text, max));
    }
}

/// Gathering imports keeps related files within the cap.
pub proof fn lemma_imports_cap(
    imps: Seq<Seq<char>>,
    known: Seq<Seq<char>>,
    files: Seq<(Seq<char>, Seq<char>)>,
    max: int,
    st: Gathered,
)
    requires
        related_within_cap(st, max),
    ensures
        related_within_cap(gather_imports(imps, known, files, max, st), max),
    decreases imps.len(),
{
    if imps.len() > 0 && st.total < max {
        let cands = import_candidates(imps[0], known);
        lemma_candidates_cap(cands, files, max, st);
        lemma_imports_cap(imps.drop_first(), known, files, max, gather_candidates(cands, files, max, st));
    }
}

/// Gathering configuration files keeps related files within the cap.
pub proof fn lemma_configs_cap(
    cfgs: Seq<Seq<char>>,
    files: Seq<(Seq<char>, Seq<char>)>,
    max: int,
    st: Gathered,
)
    requires
        related_within_cap(st, max),
    ensures
        related_within_cap(gather_configs(cfgs, files, max, st), max),
    decreases cfgs.len(),
{
    if cfgs.len() > 0 && st.total < max {
        let p = cfgs[0];
        if gathered_path(st, p) {
            lemma_configs_cap(cfgs.drop_first(), files, max, st);
        } else {
            match read_file(files, p) {
                None => lemma_configs_cap(cfgs.drop_first(), files, max, st),
                Some(c) => {
                    let cut_inside = byte_len(c) > 4096 && cut_rest(c, 4096) != 0;
                    let st2 = add_related(st, p, Some(config_text(c)), max);
                    lemma_configs_cap(
                        cfgs.drop_first(),
                        files,
                        max,
                        Gathered { fails: st2.fails || cut_inside, ..st2 },
                    );
                },
            }
        }
    }
}

/// The cap bounds what the context adds beyond the files with errors: as
/// soon as one imported or configuration file is in, the count is within
/// the cap (only the files with errors can take it past).
pub proof fn law_related_within_cap(
    is: Seq<CheckIssue>,
    max_context_bytes: Option<usize>,
    tree: Seq<char>,
    files: Seq<(Seq<char>, Seq<char>)>,
)
    ensures
        spec_collect(is, max_context_bytes, tree, files).related.len() > 0 ==> spec_collect(
            is,
            max_context_bytes,
            tree,
            files,
        ).total <= cap(max_context_bytes),
{
    let max = cap(max_context_bytes);
    let fo = file_order(is, is.len());
    let st0 = Gathered {
        error_files: Seq::empty(),
        related: Seq::empty(),
        imports: Seq::empty(),
        total: byte_len(tree),
        fails: false,
    };
    let st1 = gather_errors(fo, is, files, max, st0);
    lemma_errors_keep_related(fo, is, files, max, st0);
    let st2 = gather_imports(st1.imports, fo, files, max, st1);
    lemma_imports_cap(st1.imports, fo, files, max, st1);
    lemma_configs_cap(config_names(), files, max, st2);
}

/// Gathering error files keeps the count within the cap.
pub proof fn lemma_errors_total(
    fo: Seq<Seq<char>>,
    is: Seq<CheckIssue>,
    files: Seq<(Seq<char>, Seq<char>)>,
    max: int,
    st: Gathered,
)
    requires
        st.total <= max,
    ensures
        gather_errors(fo, is, files, max, st).total <= max,
    decreases fo.len(),
{
    if fo.len() > 0 && st.total < max {
        let f = fo[0];
        match read_file(files, f) {
            None => lemma_errors_total(fo.drop_first(), is, files, max, st),
            Some(c) => lemma_errors_total(fo.drop_first(), is, files, max, error_step(st, f, c, is, max)),
        }
    }
}

/// Gathering candidates keeps the count within the cap.
pub proof fn lemma_candidates_total(
    cands: Seq<Seq<char>>,
    files: Seq<(Seq<char>, Seq<char>)>,
    max: int,
    st: Gathered,
)
    requires
        st.total <= max,
    ensures
        gather_candidates(cands, files, max, st).total <= max,
    decreases cands.len(),
{
    if cands.len() > 0 {
        let text = match read_file(files, cands[0]) {
            Some(c) => Some(import_head(c)),
            None => None,
        };
        lemma_candidates_total(cands.drop_first(), files, max, add_related(st, cands[0], text, max));
    }
}

/// Gathering imports keeps the count within the cap.
pub proof fn lemma_imports_total(
    imps: Seq<Seq<char>>,
    known: Seq<Seq<char>>,
    files: Seq<(Seq<char>, Seq<char>)>,
    max: int,
    st: Gathered,
)
    requires
        st.total <= max,
    ensures
        gather_imports(imps, known, files, max, st).total <= max,
    decreases imps.len(),
{
    if imps.len() > 0 && st.total < max {
        let cands = import_candidates(imps[0], known);
        lemma_candidates_total(cands, files, max, st);
        lemma_imports_total(imps.drop_first(), known, files, max, gather_candidates(cands, files, max, st));
    }
}

/// Gathering configuration files keeps the count within the cap.
pub proof fn lemma_configs_total(
    cfgs: Seq<Seq<char>>,
    files: Seq<(Seq<char>, Seq<char>)>,
    max: int,
    st: Gathered,
)
    requires
        st.total <= max,
    ensures
        gather_configs(cfgs, files, max, st).total <= max,
    decreases cfgs.len(),
{
    if cfgs.len() > 0 && st.total < max {
        let p = cfgs[0];
        if gathered_path(st, p) {
            lemma_configs_total(cfgs.drop_first(), files, max, st);
        } else {
            match read_file(files, p) {
                None => lemma_configs_total(cfgs.drop_first(), files, max, st),
                Some(c) => {
                    let cut_inside = byte_len(c) > 4096 && cut_rest(c, 4096) != 0;
                    let st2 = add_related(st, p, Some(config_text(c)), max);
                    lemma_configs_total(
                        cfgs.drop_first(),
                        files,
                        max,
                        Gathered { fails: st2.fails || cut_inside, ..st2 },
                    );
                },
            }
        }
    }
}

/// The context is capped at the byte budget: when the file tree fits the
/// budget, the whole count does.
pub proof fn law_total_within_cap(
    is: Seq<CheckIssue>,
    max_context_bytes: Option<usize>,
    tree: Seq<char>,
    files: Seq<(Seq<char>, Seq<char>)>,
)
    requires
        byte_len(tree) <= cap(max_context_bytes),
    ensures
        spec_collect(is, max_context_bytes, tree, files).total <= cap(max_context_bytes),
{
    let max = cap(max_context_bytes);
    let fo = file_order(is, is.len());
    let st0 = Gathered {
        error_files: Seq::empty(),
        related: Seq::empty(),
        imports: Seq::empty(),
        total: byte_len(tree),
        fails: false,
    };
    lemma_errors_total(fo, is, files, max, st0);
    let st1 = gather_errors(fo, is, files, max, st0);
    lemma_imports_total(st1.imports, fo, files, max, st1);
    let st2 = gather_imports(st1.imports, fo, files, max, st1);
    lemma_configs_total(config_names(), files, max, st2);
}

/// The UTF-8 encoding of a concatenation is the concatenation of the
/// encodings.
pub proof fn lemma_encode_concat(a: Seq<char>, b: Seq<char>)
    ensures
        encode_utf8(a + b) == encode_utf8(a) + encode_utf8(b),
    decreases a.len(),
{
    if a.len() == 0 {
        assert(a + b =~= b);
        assert(encode_utf8(a) =~= Seq::<u8>::empty());
        assert(encode_utf8(a) + encode_utf8(b) =~= encode_utf8(b));
    } else {
        assert((a + b).drop_first() =~= a.drop_first() + b);
        lemma_encode_concat(a.drop_first(), b);
        assert(encode_utf8(a + b) =~= vstd::utf8::encode_scalar(a[0] as u32) + encode_utf8(
            a.drop_first() + b,
        ));
    }
}

// ---------------------------------------------------------------------------
// Executable helpers
// ---------------------------------------------------------------------------

/// `str::len`: the length of a text in bytes. The contract claims that the
/// count is the length of the text's UTF-8 encoding (which, for any text
/// held in memory, fits a `usize`).
#[verifier::external_body]
fn str_bytes(s: &str) -> (r: usize)
    ensures
        r as int == byte_len(s@),
{
    s.len()
}

/// The views of the files read.
pub open spec fn read_views(files: Seq<(String, String)>) -> Seq<(Seq<char>, Seq<char>)> {
    pair_views(files)
}

/// The content of the first file read under `path`.
fn find_file<'a>(files: &'a [(String, String)], path: &str) -> (r: Option<&'a String>)
    ensures
        match read_file(pair_views(files@), path@) {
            Some(c) => r matches Some(s) && s@ == c,
            None => r is None,
        },
{
    let mut i: usize = 0;
    assert(pair_views(files@).skip(0) =~= pair_views(files@));
    while i < files.len()
        invariant
            i <= files@.len(),
            read_file(pair_views(files@), path@) == read_file(
                pair_views(files@).skip(i as int),
                path@,
            ),
        decreases files.len() - i,
    {
        let ghost rest = pair_views(files@).skip(i as int);
        assert(rest.drop_first() =~= pair_views(files@).skip(i + 1));
        if str_eq(files[i].0.as_str(), path) {
            return Some(&files[i].1);
        }
        i += 1;
    }
    assert(pair_views(files@).skip(i as int).len() == 0);
    None
}

/// Whether a path is among the error files or the related files.
fn has_path(ef: &Vec<(String, FileContext)>, rel: &Vec<(String, String)>, p: &str) -> (r: bool)
    ensures
        r == ((exists|i: int| 0 <= i < error_views(ef@).len() && error_views(ef@)[i].0 == p@) || (
        exists|i: int| 0 <= i < pair_views(rel@).len() && pair_views(rel@)[i].0 == p@)),
{
    let ghost ev = error_views(ef@);
    let ghost rv = pair_views(rel@);
    let mut i: usize = 0;
    while i < ef.len()
        invariant
            i <= ef@.len(),
            ev == error_views(ef@),
            forall|k: int| 0 <= k < i ==> ev[k].0 != p@,
        decreases ef.len() - i,
    {
        if str_eq(ef[i].0.as_str(), p) {
            assert(ev[i as int].0 == p@);
            return true;
        }
        i += 1;
    }
    let mut j: usize = 0;
    while j < rel.len()
        invariant
            j <= rel@.len(),
            ev == error_views(ef@),
            rv == pair_views(rel@),
            forall|k: int| 0 <= k < ev.len() ==> ev[k].0 != p@,
            forall|k: int| 0 <= k < j ==> rv[k].0 != p@,
        decreases rel.len() - j,
    {
        if str_eq(rel[j].0.as_str(), p) {
            assert(rv[j as int].0 == p@);
            return true;
        }
        j += 1;
    }
    false
}

/// Whether a list of strings holds `x`.
fn holds(v: &Vec<String>, x: &str) -> (r: bool)
    ensures
        r == strs(v@).contains(x@),
{
    let mut i: usize = 0;
    while i < v.len()
        invariant
            i <= v@.len(),
            forall|k: int| 0 <= k < i ==> v@[k]@ != x@,
        decreases v.len() - i,
    {
        if str_eq(v[i].as_str(), x) {
            assert(strs(v@)[i as int] == x@);
            return true;
        }
        i += 1;
    }
    assert(!strs(v@).contains(x@)) by {
        assert forall|k: int| 0 <= k < strs(v@).len() implies strs(v@)[k] != x@ by {
            assert(strs(v@)[k] == v@[k]@);
        }
    }
    false
}

/// Adds each of `xs` to `seen` once.
fn add_each(seen: &mut Vec<String>, xs: &Vec<String>)
    ensures
        strs(final(seen)@) == add_all(strs(old(seen)@), strs(xs@)),
{
    let mut i: usize = 0;
    assert(strs(xs@).skip(0) =~= strs(xs@));
    while i < xs.len()
        invariant
            i <= xs@.len(),
            add_all(strs(old(seen)@), strs(xs@)) == add_all(strs(seen@), strs(xs@).skip(i as int)),
        decreases xs.len() - i,
    {
        let ghost rest = strs(xs@).skip(i as int);
        assert(rest[0] == xs@[i as int]@);
        assert(rest.drop_first() =~= strs(xs@).skip(i + 1));
        let ghost before = strs(seen@);
        if !holds(seen, xs[i].as_str()) {
            seen.push(xs[i].clone());
            assert(strs(seen@) =~= before.push(xs@[i as int]@));
        }
        i += 1;
    }
    assert(strs(xs@).skip(xs@.len() as int).len() == 0);
}

/// The files of the issues, each once, in the order first seen.
fn files_of(issues: &[CheckIssue]) -> (r: Vec<String>)
    ensures
        strs(r@) == file_order(issues@, issues@.len()),
{
    let mut r: Vec<String> = Vec::new();
    let mut i: usize = 0;
    while i < issues.len()
        invariant
            i <= issues@.len(),
            strs(r@) == file_order(issues@, i as nat),
        decreases issues.len() - i,
    {
        let ghost before = strs(r@);
        if !holds(&r, issues[i].file.as_str()) {
            r.push(issues[i].file.clone());
            assert(strs(r@) =~= before.push(issues@[i as int].file@));
        }
        i += 1;
    }
    r
}

/// The issues in a file, in order.
fn issues_of(issues: &[CheckIssue], f: &str) -> (r: Vec<CheckIssue>)
    ensures
        r@ == issues_in(issues@, f@),
{
    let mut r: Vec<CheckIssue> = Vec::new();
    let mut i: usize = 0;
    while i < issues.len()
        invariant
            i <= issues@.len(),
            r@ == issues_in(issues@.take(i as int), f@),
        decreases issues.len() - i,
    {
        assert(issues@.take(i + 1).drop_last() =~= issues@.take(i as int));
        if str_eq(issues[i].file.as_str(), f) {
            r.push(issues[i].duplicate());
        }
        assert(r@ =~= issues_in(issues@.take(i + 1), f@));
        i += 1;
    }
    assert(issues@.take(issues@.len() as int) =~= issues@);
    r
}

/// The number of bytes of one character in UTF-8.
fn utf8_width(c: char) -> (r: usize)
    ensures
        r as int == char_bytes(c),
        1 <= r <= 4,
{
    let v = c as u32;
    assert(encode_utf8(seq![c]) =~= vstd::utf8::encode_scalar(c as u32) + encode_utf8(
        seq![c].drop_first(),
    ));
    assert(encode_utf8(seq![c].drop_first()) =~= Seq::<u8>::empty());
    if v < 0x80 {
        1
    } else if v < 0x800 {
        2
    } else if v < 0x10000 {
        3
    } else {
        4
    }
}

/// The start of a text that fits `n` bytes, and the bytes left unused.
fn cut_at_bytes(c: &[char], n: usize) -> (r: (Vec<char>, usize))
    ensures
        r.0@ == cut_bytes(c@, n as int),
        r.1 as int == cut_rest(c@, n as int),
{
    let mut out: Vec<char> = Vec::new();
    let mut left = n;
    let mut i: usize = 0;
    assert(c@.skip(0) =~= c@);
    assert(out@ + cut_bytes(c@, n as int) =~= cut_bytes(c@, n as int));
    while i < c.len()
        invariant_except_break
            i <= c@.len(),
            left <= n,
            cut_bytes(c@, n as int) == out@ + cut_bytes(c@.skip(i as int), left as int),
            cut_rest(c@, n as int) == cut_rest(c@.skip(i as int), left as int),
        ensures
            cut_bytes(c@, n as int) == out@,
            cut_rest(c@, n as int) == left as int,
        decreases c.len() - i,
    {
        let w = utf8_width(c[i]);
        let ghost rest = c@.skip(i as int);
        assert(rest[0] == c@[i as int]);
        assert(rest.drop_first() =~= c@.skip(i + 1));
        if w > left {
            assert(cut_bytes(rest, left as int) =~= Seq::<char>::empty());
            assert(out@ + Seq::<char>::empty() =~= out@);
            break;
        }
        out.push(c[i]);
        left = left - w;
        assert(out@ + cut_bytes(c@.skip(i + 1), left as int) =~= out@.drop_last() + cut_bytes(
            rest,
            (left + w) as int,
        ));
        i += 1;
    }
    if i == c.len() {
        assert(c@.skip(i as int).len() == 0);
        assert(out@ + cut_bytes(c@.skip(i as int), left as int) =~= out@);
    }
    (out, left)
}

/// The state of a collection as the executable code holds it.
pub open spec fn state_of(
    ef: Seq<(String, FileContext)>,
    rel: Seq<(String, String)>,
    seen: Seq<String>,
    total: int,
) -> Gathered {
    Gathered {
        error_files: error_views(ef),
        related: pair_views(rel),
        imports: strs(seen),
        total,
        fails: false,
    }
}

/// Whether a context holds what a collection gathered: its error files,
/// its related files and its count, the file tree and the cap.
pub open spec fn holds_collection(r: RepairContext, g: Gathered, tree: Seq<char>, max: int) -> bool {
    &&& error_views(r.error_files@) == g.error_files
    &&& pair_views(r.related_files@) == g.related
    &&& r.total_bytes as int == g.total
    &&& r.file_tree@ == tree
    &&& r.max_bytes as int == max
}

/// Collect context for AI repair, from the issues, the listing of the
/// project (`file_tree`) and the files the program could read (`files`,
/// path and content; a path that is not there could not be read).
///
/// The file tree counts first. Then each file with issues, in the order
/// first seen, while fewer than the cap (60 KB by default) are counted: the
/// whole file, or the region around its issues when it has more than 500
/// lines, each only if it fits the cap; its imports are noted. Then each note's candidate files that are
/// not in yet, with their first 80 lines, each only if it fits the cap.
/// Then the configuration files, each cut after 4096 bytes, on the same
/// terms. The inputs on which the collection would stop the program (a
/// region that does not fit its file, a cut inside a character) are left
/// out; `collect_context_checked` answers `None` on them.
pub fn collect_context(
    issues: &[CheckIssue],
    max_context_bytes: Option<usize>,
    file_tree: String,
    files: &[(String, String)],
) -> (r: RepairContext)
    requires
        !spec_collect(issues@, max_context_bytes, file_tree@, pair_views(files@)).fails,
    ensures
        error_views(r.error_files@) == spec_collect(
            issues@,
            max_context_bytes,
            file_tree@,
            pair_views(files@),
        ).error_files,
        pair_views(r.related_files@) == spec_collect(
            issues@,
            max_context_bytes,
            file_tree@,
            pair_views(files@),
        ).related,
        r.total_bytes as int == spec_collect(
            issues@,
            max_context_bytes,
            file_tree@,
            pair_views(files@),
        ).total,
        r.file_tree@ == file_tree@,
        r.max_bytes as int == cap(max_context_bytes),
{
    collect_context_checked(issues, max_context_bytes, file_tree, files).unwrap()
}

/// `collect_context` on any input: `None` exactly on the inputs on which
/// the collection would stop the program (a file with more than 500 lines
/// whose issues lie past its end by more than the padding, a
/// configuration file of more than 4096 bytes with a character across
/// that mark).
pub fn collect_context_checked(
    issues: &[CheckIssue],
    max_context_bytes: Option<usize>,
    file_tree: String,
    files: &[(String, String)],
) -> (r: Option<RepairContext>)
    ensures
        r is None <==> spec_collect(issues@, max_context_bytes, file_tree@, pair_views(files@)).fails,
        r matches Some(c) ==> holds_collection(
            c,
            spec_collect(issues@, max_context_bytes, file_tree@, pair_views(files@)),
            file_tree@,
            cap(max_context_bytes),
        ),
{
    let max: usize = match max_context_bytes {
        Some(m) => m,
        None => DEFAULT_MAX_CONTEXT_BYTES,
    };
    let ghost fv = pair_views(files@);
    let ghost fin = spec_collect(issues@, max_context_bytes, file_tree@, fv);
    let mut total: usize = str_bytes(file_tree.as_str());
    let fo = files_of(issues);
    let ghost known = strs(fo@);
    let ghost st0 = Gathered {
        error_files: Seq::empty(),
        related: Seq::empty(),
        imports: Seq::empty(),
        total: byte_len(file_tree@),
        fails: false,
    };
    let ghost st1 = gather_errors(known, issues@, fv, max as int, st0);
    let ghost st2 = gather_imports(st1.imports, known, fv, max as int, st1);
    proof {
        lemma_configs_grow(config_names(), fv, max as int, st2);
        lemma_imports_grow(st1.imports, known, fv, max as int, st1);
        assert(st1.fails ==> fin.fails);
    }
    let mut ef: Vec<(String, FileContext)> = Vec::new();
    let mut rel: Vec<(String, String)> = Vec::new();
    let mut seen: Vec<String> = Vec::new();
    proof {
        assert(state_of(ef@, rel@, seen@, total as int) =~= st0);
        assert(known.skip(0) =~= known);
    }
    // The files with issues.
    let mut i: usize = 0;
    while i < fo.len() && total < max
        invariant
            i <= fo@.len(),
            known == strs(fo@),
            fv == pair_views(files@),
            gather_errors(known.skip(i as int), issues@, fv, max as int, state_of(
                ef@,
                rel@,
                seen@,
                total as int,
            )) == st1,
            st1.fails ==> fin.fails,
            fin == spec_collect(issues@, max_context_bytes, file_tree@, pair_views(files@)),
        decreases fo.len() - i,
    {
        let ghost cur = state_of(ef@, rel@, seen@, total as int);
        let ghost rest = known.skip(i as int);
        assert(rest[0] == fo@[i as int]@);
        assert(rest.drop_first() =~= known.skip(i + 1));
        let f = &fo[i];
        match find_file(files, f.as_str()) {
            None => {},
            Some(c) => {
                let fis = issues_of(issues, f.as_str());
                let ghost fvw = error_file_view(c@, fis@);
                let ghost next = error_step(cur, f@, c@, issues@, max as int);
                proof {
                    lemma_errors_grow(known.skip(i + 1), issues@, fv, max as int, next);
                }
                let imports = extract_imports(c.as_str(), f.as_str());
                add_each(&mut seen, &imports);
                let chars = to_chars(c.as_str());
                let ls = lines_vec(&chars);
                let fc = if ls.len() > 500 {
                    if !region_extractable(c.as_str(), fis.as_slice()) {
                        proof {
                            assert(next.fails);
                            assert(gather_errors(rest, issues@, fv, max as int, cur)
                                == gather_errors(rest.drop_first(), issues@, fv, max as int, next));
                            assert(st1.fails);
                            assert(fin.fails);
                        }
                        return None;
                    }
                    extract_error_region(c.as_str(), fis.as_slice())
                } else {
                    FileContext {
                        content: c.clone(),
                        is_region: false,
                        region_start_line: None,
                        issues: fis,
                    }
                };
                assert(file_view(fc) == fvw);
                let b = str_bytes(fc.content.as_str());
                if b <= max - total {
                    total = total + b;
                    ef.push((f.clone(), fc));
                }
                assert(state_of(ef@, rel@, seen@, total as int) =~= next);
            },
        }
        i += 1;
    }
    proof {
        let cur = state_of(ef@, rel@, seen@, total as int);
        if i == fo.len() {
            assert(known.skip(i as int).len() == 0);
        }
        assert(cur == st1);
        assert(strs(seen@).skip(0) =~= strs(seen@));
    }
    // The files the imports resolve to.
    let mut j: usize = 0;
    while j < seen.len() && total < max
        invariant
            j <= seen@.len(),
            known == strs(fo@),
            fv == pair_views(files@),
            st1.imports == strs(seen@),
            gather_imports(strs(seen@).skip(j as int), known, fv, max as int, state_of(
                ef@,
                rel@,
                seen@,
                total as int,
            )) == st2,
        decreases seen.len() - j,
    {
        let ghost cur = state_of(ef@, rel@, seen@, total as int);
        let ghost rest = strs(seen@).skip(j as int);
        assert(rest[0] == seen@[j as int]@);
        assert(rest.drop_first() =~= strs(seen@).skip(j + 1));
        let cands = resolve_import_path(seen[j].as_str(), fo.as_slice());
        let ghost target = gather_candidates(strs(cands@), fv, max as int, cur);
        assert(strs(cands@).skip(0) =~= strs(cands@));
        let mut k: usize = 0;
        while k < cands.len()
            invariant
                k <= cands@.len(),
                fv == pair_views(files@),
                gather_candidates(strs(cands@).skip(k as int), fv, max as int, state_of(
                    ef@,
                    rel@,
                    seen@,
                    total as int,
                )) == target,
                total <= max,
            decreases cands.len() - k,
        {
            let ghost cur2 = state_of(ef@, rel@, seen@, total as int);
            let ghost crest = strs(cands@).skip(k as int);
            assert(crest[0] == cands@[k as int]@);
            assert(crest.drop_first() =~= strs(cands@).skip(k + 1));
            let p = &cands[k];
            if !has_path(&ef, &rel, p.as_str()) {
                match find_file(files, p.as_str()) {
                    None => {},
                    Some(c) => {
                        let chars = to_chars(c.as_str());
                        let ls = lines_vec(&chars);
                        let n = if ls.len() < 80 {
                            ls.len()
                        } else {
                            80
                        };
                        let head = lines_range(&ls, 0, n);
                        assert(views(ls@).subrange(0, n as int) =~= first_n(views(ls@), 80));
                        let t = join_lines(&head);
                        let b = str_bytes(t.as_str());
                        if b <= max - total {
                            total = total + b;
                            rel.push((p.clone(), t));
                            assert(pair_views(rel@) =~= cur2.related.push((p@, import_head(c@))));
                        }
                    },
                }
            }
            assert(state_of(ef@, rel@, seen@, total as int) =~= add_related(
                cur2,
                p@,
                match read_file(fv, p@) {
                    Some(c) => Some(import_head(c)),
                    None => None,
                },
                max as int,
            ));
            k += 1;
        }
        assert(strs(cands@).skip(k as int).len() == 0);
        j += 1;
    }
    proof {
        let cur = state_of(ef@, rel@, seen@, total as int);
        if j == seen.len() {
            assert(strs(seen@).skip(j as int).len() == 0);
        }
        assert(cur == st2);
    }
    // The configuration files.
    let names = config_file_names();
    assert(strs(names@).skip(0) =~= strs(names@));
    let mut q: usize = 0;
    while q < names.len() && total < max
        invariant
            q <= names@.len(),
            strs(names@) == config_names(),
            fv == pair_views(files@),
            gather_configs(strs(names@).skip(q as int), fv, max as int, state_of(
                ef@,
                rel@,
                seen@,
                total as int,
            )) == fin,
            fin == spec_collect(issues@, max_context_bytes, file_tree@, pair_views(files@)),
        decreases names.len() - q,
    {
        let ghost cur = state_of(ef@, rel@, seen@, total as int);
        let ghost rest = strs(names@).skip(q as int);
        assert(rest[0] == names@[q as int]@);
        assert(rest.drop_first() =~= strs(names@).skip(q + 1));
        let p = &names[q];
        if !has_path(&ef, &rel, p.as_str()) {
            match find_file(files, p.as_str()) {
                None => {},
                Some(c) => {
                    let ghost cut_inside = byte_len(c@) > 4096 && cut_rest(c@, 4096) != 0;
                    let ghost st2c = add_related(cur, p@, Some(config_text(c@)), max as int);
                    proof {
                        lemma_configs_grow(
                            strs(names@).skip(q + 1),
                            fv,
                            max as int,
                            Gathered { fails: st2c.fails || cut_inside, ..st2c },
                        );
                    }
                    let blen = str_bytes(c.as_str());
                    let t = if blen > 4096 {
                        let chars = to_chars(c.as_str());
                        let (cut, left) = cut_at_bytes(&chars, 4096);
                        if left != 0 {
                            proof {
                                assert(cut_inside);
                                assert(gather_configs(rest, fv, max as int, cur) == gather_configs(
                                    rest.drop_first(),
                                    fv,
                                    max as int,
                                    Gathered { fails: st2c.fails || cut_inside, ..st2c },
                                ));
                                assert(fin.fails);
                            }
                            return None;
                        }
                        let mut t = crate::text::string_of(&cut, 0, cut.len());
                        assert(cut@.subrange(0, cut@.len() as int) =~= cut@);
                        append(&mut t, "...(truncated)");
                        t
                    } else {
                        c.clone()
                    };
                    assert(t@ == config_text(c@));
                    let b = str_bytes(t.as_str());
                    if b <= max - total {
                        total = total + b;
                        rel.push((p.clone(), t));
                        assert(pair_views(rel@) =~= cur.related.push((p@, config_text(c@))));
                    }
                    assert(state_of(ef@, rel@, seen@, total as int) =~= st2c);
                },
            }
        }
        q += 1;
    }
    proof {
        let cur = state_of(ef@, rel@, seen@, total as int);
        if q == names.len() {
            assert(strs(names@).skip(q as int).len() == 0);
        }
        assert(cur == fin);
    }
    Some(RepairContext { error_files: ef, related_files: rel, file_tree, total_bytes: total, max_bytes: max })
}

/// The names of the configuration files that go into every context.
pub fn config_file_names() -> (r: Vec<String>)
    ensures
        strs(r@) == config_names(),
{
    let r = vec![
        String::from_str("Cargo.toml"),
        String::from_str("package.json"),
        String::from_str("tsconfig.json"),
        String::from_str("pyproject.toml"),
        String::from_str("ruff.toml"),
        String::from_str("biome.json"),
        String::from_str(".eslintrc.json"),
        String::from_str("composer.json"),
        String::from_str("phpstan.neon"),
    ];
    assert(strs(r@) =~= config_names());
    r
}

/// The listing of the project's top-level entries: `"Project files:"`,
/// then each name (with `/` after a directory) on a line of its own
/// indented by two spaces; a note when the listing failed.
pub open spec fn spec_file_tree(entries: Option<Seq<(Seq<char>, bool)>>) -> Seq<char> {
    match entries {
        Some(es) => "Project files:\n"@ + tree_lines(es),
        None => "(file tree unavailable)\n"@,
    }
}

/// The lines of a listing.
pub open spec fn tree_lines(es: Seq<(Seq<char>, bool)>) -> Seq<char>
    decreases es.len(),
{
    if es.len() == 0 {
        Seq::empty()
    } else {
        tree_lines(es.drop_last()) + "  "@ + es.last().0 + (if es.last().1 {
            "/"@
        } else {
            Seq::empty()
        }) + "\n"@
    }
}

/// The views of listed entries.
pub open spec fn entry_views(v: Seq<(String, bool)>) -> Seq<(Seq<char>, bool)> {
    Seq::new(v.len(), |i: int| (v[i].0@, v[i].1))
}

/// Build a simple file tree string from the listing of the project root
/// (`None` when it could not be listed).
pub fn build_file_tree(entries: Option<&Vec<(String, bool)>>) -> (r: String)
    ensures
        r@ == spec_file_tree(
            match entries {
                Some(v) => Some(entry_views(v@)),
                None => None,
            },
        ),
{
    match entries {
        None => String::from_str("(file tree unavailable)\n"),
        Some(v) => {
            let mut tree = String::from_str("Project files:\n");
            let ghost head = tree@;
            let mut i: usize = 0;
            while i < v.len()
                invariant
                    i <= v@.len(),
                    tree@ == head + tree_lines(entry_views(v@).take(i as int)),
                decreases v.len() - i,
            {
                let ghost before = tree@;
                append(&mut tree, "  ");
                append(&mut tree, v[i].0.as_str());
                if v[i].1 {
                    append(&mut tree, "/");
                }
                append(&mut tree, "\n");
                proof {
                    let t = entry_views(v@).take(i + 1);
                    assert(t.drop_last() =~= entry_views(v@).take(i as int));
                    assert(tree@ =~= before + "  "@ + t.last().0 + (if t.last().1 {
                        "/"@
                    } else {
                        Seq::empty()
                    }) + "\n"@);
                }
                i += 1;
            }
            assert(entry_views(v@).take(v@.len() as int) =~= entry_views(v@));
            tree
        },
    }
}

} // verus!
