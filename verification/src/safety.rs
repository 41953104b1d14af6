//! Safety guardrails for AI-assisted repair.
//!
//! Prevents the AI from making destructive changes, modifying protected
//! files, or exceeding change thresholds. The line-change percentage and
//! the confidence threshold are fractional and are applied by the program
//! around the library; the rules here are the integral ones.
use vstd::prelude::*;

use crate::error::CheckerError;
use crate::output::{CheckIssue, IssueView, issue_views};
use crate::patch::{FilePatch, HunkLine, Patch};
use crate::text::{append, decimal, ends_with, starts_with, str_eq, str_starts_with, strs,
    usize_to_string};

verus! {

/// Safety configuration for AI repair.
#[derive(Debug, Clone)]
pub struct SafetyConfig {
    /// Maximum number of files a single patch can modify.
    pub max_files_per_patch: usize,
    /// Glob patterns for files that are read-only for AI (never patched).
    pub protected_files: Vec<String>,
    /// Glob patterns for files never sent to the AI (secrets, credentials).
    pub never_send: Vec<String>,
    /// Maximum retry attempts per error batch.
    pub max_attempts: u32,
}

/// The default file limit per patch.
pub fn default_max_files_per_patch() -> (r: usize)
    ensures
        r == 5,
{
    5
}

/// The default number of attempts.
pub fn default_max_attempts() -> (r: u32)
    ensures
        r == 3,
{
    3
}

/// The default protected patterns.
pub open spec fn spec_default_protected_files() -> Seq<Seq<char>> {
    seq![
        ".env*"@,
        "*.lock"@,
        "node_modules/**"@,
        "target/**"@,
        ".git/**"@,
        "dist/**"@,
        "build/**"@,
    ]
}

/// The default never-send patterns.
pub open spec fn spec_default_never_send() -> Seq<Seq<char>> {
    seq![
        ".env"@,
        ".env.*"@,
        "credentials.*"@,
        "*.pem"@,
        "*.key"@,
        "secrets.*"@,
        "*.secret"@,
    ]
}

/// Strings from literals.
fn strings_of(v: &[&str]) -> (r: Vec<String>)
    ensures
        strs(r@) == v@.map_values(|s: &str| s@),
{
    let mut r: Vec<String> = Vec::new();
    let mut i: usize = 0;
    while i < v.len()
        invariant
            i <= v@.len(),
            strs(r@) == v@.map_values(|s: &str| s@).take(i as int),
        decreases v.len() - i,
    {
        let ghost o = r@;
        let x = String::from_str(v[i]);
        r.push(x);
        assert(strs(r@) =~= strs(o) + seq![x@]);
        i += 1;
        assert(strs(r@) =~= v@.map_values(|s: &str| s@).take(i as int));
    }
    assert(v@.map_values(|s: &str| s@).take(v@.len() as int) =~= v@.map_values(|s: &str| s@));
    r
}

/// The default protected patterns.
pub fn default_protected_files() -> (r: Vec<String>)
    ensures
        strs(r@) == spec_default_protected_files(),
{
    let v = [".env*", "*.lock", "node_modules/**", "target/**", ".git/**", "dist/**", "build/**"];
    let r = strings_of(&v);
    assert(v@.map_values(|s: &str| s@) =~= spec_default_protected_files());
    r
}

/// The default never-send patterns.
pub fn default_never_send() -> (r: Vec<String>)
    ensures
        strs(r@) == spec_default_never_send(),
{
    let v = [".env", ".env.*", "credentials.*", "*.pem", "*.key", "secrets.*", "*.secret"];
    let r = strings_of(&v);
    assert(v@.map_values(|s: &str| s@) =~= spec_default_never_send());
    r
}

/// A copy of a list of strings.
pub fn copy_strings(v: &Vec<String>) -> (r: Vec<String>)
    ensures
        r@ == v@,
{
    let mut r: Vec<String> = Vec::new();
    let mut i: usize = 0;
    while i < v.len()
        invariant
            i <= v@.len(),
            r@ == v@.take(i as int),
        decreases v.len() - i,
    {
        r.push(v[i].clone());
        i += 1;
        assert(r@ =~= v@.take(i as int));
    }
    assert(v@.take(v@.len() as int) =~= v@);
    r
}

impl SafetyConfig {
    /// A field-for-field copy.
    pub fn duplicate(&self) -> (r: Self)
        ensures
            r.max_files_per_patch == self.max_files_per_patch,
            r.protected_files@ == self.protected_files@,
            r.never_send@ == self.never_send@,
            r.max_attempts == self.max_attempts,
    {
        SafetyConfig {
            max_files_per_patch: self.max_files_per_patch,
            protected_files: copy_strings(&self.protected_files),
            never_send: copy_strings(&self.never_send),
            max_attempts: self.max_attempts,
        }
    }
}

impl Default for SafetyConfig {
    /// The default configuration: five files per patch, three attempts,
    /// and the default protected and never-sent patterns.
    fn default() -> (r: Self)
        ensures
            r.max_files_per_patch == 5,
            strs(r.protected_files@) == spec_default_protected_files(),
            strs(r.never_send@) == spec_default_never_send(),
            r.max_attempts == 3,
    {
        SafetyConfig {
            max_files_per_patch: default_max_files_per_patch(),
            protected_files: default_protected_files(),
            never_send: default_never_send(),
            max_attempts: default_max_attempts(),
        }
    }
}

// ---------------------------------------------------------------------------
// Validation
// ---------------------------------------------------------------------------

/// What `glob::Pattern::new(pattern)` followed by `matches(path)` gives:
/// `None` when the pattern does not compile, else whether it matches.
pub uninterp spec fn glob_result(pattern: Seq<char>, path: Seq<char>) -> Option<bool>;

/// Compiles `pattern` with `glob::Pattern::new` and, when it compiles,
/// asks `Pattern::matches` about `path`. The contract names the result
/// only: the glob syntax is the crate's.
#[verifier::external_body]
fn glob_matches(pattern: &str, path: &str) -> (r: Option<bool>)
    ensures
        r == glob_result(pattern@, path@),
{
    match glob::Pattern::new(pattern) {
        Ok(m) => Some(m.matches(path)),
        Err(_) => None,
    }
}

/// `str::trim_end_matches` with a non-empty text pattern: every trailing
/// repetition of `p` is removed.
pub open spec fn trim_end_str(s: Seq<char>, p: Seq<char>) -> Seq<char>
    decreases s.len(),
{
    if p.len() > 0 && ends_with(s, p) {
        trim_end_str(s.take(s.len() - p.len()), p)
    } else {
        s
    }
}

/// Whether a path matches one pattern: the glob matches, or the pattern
/// ends in `/**` and the path starts with the directory before it.
pub open spec fn matches_pattern(path: Seq<char>, pattern: Seq<char>) -> bool {
    let dir = trim_end_str(pattern, "/**"@);
    glob_result(pattern, path) == Some(true) || (starts_with(path, dir) && dir != pattern)
}

/// Whether a path matches any of the patterns.
pub open spec fn matches_any(path: Seq<char>, patterns: Seq<Seq<char>>) -> bool {
    exists|i: int| 0 <= i < patterns.len() && matches_pattern(path, #[trigger] patterns[i])
}

/// `trim_end_str` on strings.
fn trim_end_str_exec(s: &str, p: &str) -> (r: String)
    requires
        p@.len() > 0,
    ensures
        r@ == trim_end_str(s@, p@),
{
    let v = crate::text::to_chars(s);
    let q = crate::text::to_chars(p);
    let mut j = v.len();
    assert(v@.take(j as int) =~= v@);
    while j >= q.len() && crate::text::occurs_at_exec(&v, &q, j - q.len())
        invariant
            j <= v@.len(),
            q@ == p@,
            p@.len() > 0,
            trim_end_str(v@, q@) == trim_end_str(v@.take(j as int), q@),
        decreases j,
    {
        let ghost t = v@.take(j as int);
        assert(t.subrange(t.len() - q@.len(), t.len() as int) =~= v@.subrange(
            j - q@.len(),
            j as int,
        ));
        assert(t.take(t.len() - q@.len()) =~= v@.take(j - q@.len()));
        j = j - q.len();
    }
    proof {
        let t = v@.take(j as int);
        if ends_with(t, q@) {
            assert(t.subrange(t.len() - q@.len(), t.len() as int) =~= v@.subrange(
                j - q@.len(),
                j as int,
            ));
        }
    }
    crate::text::string_of(&v, 0, j)
}

/// Whether a path matches one pattern.
fn matches_pattern_exec(path: &str, pattern: &str) -> (r: bool)
    ensures
        r == matches_pattern(path@, pattern@),
{
    proof {
        reveal_strlit("/**");
    }
    if glob_matches(pattern, path) == Some(true) {
        return true;
    }
    let dir = trim_end_str_exec(pattern, "/**");
    str_starts_with(path, dir.as_str()) && !str_eq(dir.as_str(), pattern)
}

/// Check whether a file path matches any pattern in a glob list.
fn matches_any_pattern(path: &str, patterns: &[String]) -> (r: bool)
    ensures
        r == matches_any(path@, strs(patterns@)),
{
    let mut i: usize = 0;
    while i < patterns.len()
        invariant
            i <= patterns@.len(),
            forall|j: int| 0 <= j < i ==> !matches_pattern(path@, #[trigger] strs(patterns@)[j]),
        decreases patterns.len() - i,
    {
        if matches_pattern_exec(path, patterns[i].as_str()) {
            assert(matches_pattern(path@, strs(patterns@)[i as int]));
            return true;
        }
        i += 1;
    }
    false
}

/// Check if a file is protected (should never be patched by AI).
pub fn is_protected(path: &str, config: &SafetyConfig) -> (r: bool)
    ensures
        r == matches_any(path@, strs(config.protected_files@)),
{
    matches_any_pattern(path, &config.protected_files)
}

/// Check if a file should never be sent to the AI.
pub fn is_never_send(path: &str, config: &SafetyConfig) -> (r: bool)
    ensures
        r == matches_any(path@, strs(config.never_send@)),
{
    matches_any_pattern(path, &config.never_send)
}

/// Number of added and removed lines in a list of hunk lines.
pub open spec fn changed_lines(ls: Seq<HunkLine>) -> nat
    decreases ls.len(),
{
    if ls.len() == 0 {
        0
    } else {
        changed_lines(ls.drop_last()) + if ls.last() is Context {
            0nat
        } else {
            1nat
        }
    }
}

/// Whether any hunk of any file patch adds or removes a line.
pub open spec fn has_changes(fps: Seq<FilePatch>) -> bool {
    exists|i: int, j: int|
        0 <= i < fps.len() && 0 <= j < fps[i].hunks@.len() && changed_lines(
            #[trigger] fps[i].hunks@[j].lines@,
        ) > 0
}

/// The index of the first protected file patch.
pub open spec fn first_protected(fps: Seq<FilePatch>, config: SafetyConfig) -> Option<int> {
    if exists|i: int|
        0 <= i < fps.len() && matches_any(#[trigger] fps[i].path@, strs(config.protected_files@)) {
        Some(
            choose|i: int|
                0 <= i < fps.len() && matches_any(#[trigger] fps[i].path@, strs(
                    config.protected_files@,
                )) && forall|j: int|
                    0 <= j < i ==> !matches_any(#[trigger] fps[j].path@, strs(
                        config.protected_files@,
                    )),
        )
    } else {
        None
    }
}

/// What `validate_safety` answers: the first violation, or none.
pub open spec fn safety_verdict(patch: Patch, config: SafetyConfig) -> Option<Seq<char>> {
    let fps = patch.file_patches@;
    if fps.len() > config.max_files_per_patch {
        Some(
            "Safety: patch modifies "@ + decimal(fps.len()) + " files (limit: "@ + decimal(
                config.max_files_per_patch as nat,
            ) + ")"@,
        )
    } else if first_protected(fps, config) is Some {
        Some(
            "Safety: patch attempts to modify protected file: "@ + fps[first_protected(
                fps,
                config,
            )->0].path@,
        )
    } else if !has_changes(fps) {
        Some("Safety: patch contains no actual changes"@)
    } else {
        None
    }
}

/// Whether a hunk's lines change anything.
fn hunk_changes(ls: &Vec<HunkLine>) -> (r: bool)
    ensures
        r == (changed_lines(ls@) > 0),
{
    let mut i: usize = 0;
    while i < ls.len()
        invariant
            i <= ls@.len(),
            changed_lines(ls@.take(i as int)) == 0,
        decreases ls.len() - i,
    {
        assert(ls@.take(i + 1).drop_last() =~= ls@.take(i as int));
        match &ls[i] {
            HunkLine::Context(_) => {},
            _ => {
                proof {
                    lemma_changed_lines_prefix(ls@, i + 1);
                }
                return true;
            },
        }
        i += 1;
    }
    assert(ls@.take(ls@.len() as int) =~= ls@);
    false
}

/// Changes in a prefix are changes of the whole.
proof fn lemma_changed_lines_prefix(ls: Seq<HunkLine>, k: int)
    requires
        0 <= k <= ls.len(),
    ensures
        changed_lines(ls.take(k)) <= changed_lines(ls),
    decreases ls.len() - k,
{
    if k < ls.len() {
        lemma_changed_lines_prefix(ls, k + 1);
        assert(ls.take(k + 1).drop_last() =~= ls.take(k));
    } else {
        assert(ls.take(k) =~= ls);
    }
}

/// A list of hunk lines changes something exactly when one of its lines
/// adds or removes a line.
pub proof fn lemma_changed_lines_exist(ls: Seq<HunkLine>)
    ensures
        changed_lines(ls) > 0 <==> exists|k: int|
            0 <= k < ls.len() && (#[trigger] ls[k] is Add || ls[k] is Remove),
    decreases ls.len(),
{
    if ls.len() > 0 {
        let p = ls.drop_last();
        lemma_changed_lines_exist(p);
        if exists|k: int| 0 <= k < p.len() && (#[trigger] p[k] is Add || p[k] is Remove) {
            let k = choose|k: int| 0 <= k < p.len() && (#[trigger] p[k] is Add || p[k] is Remove);
            assert(ls[k] == p[k]);
        }
        if exists|k: int| 0 <= k < ls.len() && (#[trigger] ls[k] is Add || ls[k] is Remove) {
            let k = choose|k: int| 0 <= k < ls.len() && (#[trigger] ls[k] is Add || ls[k] is Remove);
            if k < ls.len() - 1 {
                assert(p[k] == ls[k]);
            }
        }
    }
}

/// A patch within the file limit that touches no protected file is
/// accepted exactly when some hunk line adds or removes a line: the "no
/// actual changes" refusal comes only when every hunk line is context.
pub proof fn law_changes_accepted(patch: Patch, config: SafetyConfig)
    requires
        patch.file_patches@.len() <= config.max_files_per_patch,
        forall|i: int|
            0 <= i < patch.file_patches@.len() ==> !matches_any(
                #[trigger] patch.file_patches@[i].path@,
                strs(config.protected_files@),
            ),
    ensures
        safety_verdict(patch, config) is None <==> exists|i: int, j: int, k: int|
            0 <= i < patch.file_patches@.len() && 0 <= j < patch.file_patches@[i].hunks@.len() && 0
                <= k < patch.file_patches@[i].hunks@[j].lines@.len() && (
            #[trigger] patch.file_patches@[i].hunks@[j].lines@[k] is Add
                || patch.file_patches@[i].hunks@[j].lines@[k] is Remove),
        safety_verdict(patch, config) is Some ==> safety_verdict(patch, config) == Some(
            "Safety: patch contains no actual changes"@,
        ),
{
    let fps = patch.file_patches@;
    assert(first_protected(fps, config) is None);
    if has_changes(fps) {
        let (i, j) = choose|i: int, j: int|
            0 <= i < fps.len() && 0 <= j < fps[i].hunks@.len() && changed_lines(
                #[trigger] fps[i].hunks@[j].lines@,
            ) > 0;
        lemma_changed_lines_exist(fps[i].hunks@[j].lines@);
        let k = choose|k: int|
            0 <= k < fps[i].hunks@[j].lines@.len() && (#[trigger] fps[i].hunks@[j].lines@[k] is Add
                || fps[i].hunks@[j].lines@[k] is Remove);
        assert(fps[i].hunks@[j].lines@[k] is Add || fps[i].hunks@[j].lines@[k] is Remove);
    }
    if exists|i: int, j: int, k: int|
        0 <= i < fps.len() && 0 <= j < fps[i].hunks@.len() && 0 <= k < fps[i].hunks@[j].lines@.len()
            && (#[trigger] fps[i].hunks@[j].lines@[k] is Add || fps[i].hunks@[j].lines@[k] is Remove) {
        let (i, j, k) = choose|i: int, j: int, k: int|
            0 <= i < fps.len() && 0 <= j < fps[i].hunks@.len() && 0 <= k
                < fps[i].hunks@[j].lines@.len() && (#[trigger] fps[i].hunks@[j].lines@[k] is Add
                || fps[i].hunks@[j].lines@[k] is Remove);
        lemma_changed_lines_exist(fps[i].hunks@[j].lines@);
        assert(changed_lines(fps[i].hunks@[j].lines@) > 0);
        assert(has_changes(fps));
    }
}

/// Validate a patch against the safety guardrails.
///
/// Returns `Ok(())` if the patch is safe, or an error describing
/// the first violation found.
pub fn validate_safety(patch: &Patch, config: &SafetyConfig) -> (r: Result<(), CheckerError>)
    ensures
        r is Ok <==> safety_verdict(*patch, *config) is None,
        r matches Err(e) ==> e matches CheckerError::AiFixFailed { reason } && Some(reason@)
            == safety_verdict(*patch, *config),
{
    let fps = &patch.file_patches;
    let n = fps.len();
    if n > config.max_files_per_patch {
        let mut m = String::new();
        append(&mut m, "Safety: patch modifies ");
        let a = usize_to_string(n);
        append(&mut m, a.as_str());
        append(&mut m, " files (limit: ");
        let b = usize_to_string(config.max_files_per_patch);
        append(&mut m, b.as_str());
        append(&mut m, ")");
        return Err(CheckerError::AiFixFailed { reason: m });
    }
    let mut i: usize = 0;
    while i < n
        invariant
            i <= n == fps@.len(),
            fps == &patch.file_patches,
            n <= config.max_files_per_patch,
            forall|j: int| 0 <= j < i ==> !matches_any(#[trigger] fps@[j].path@, strs(
                config.protected_files@,
            )),
        decreases n - i,
    {
        if is_protected(fps[i].path.as_str(), config) {
            proof {
                let fp = fps@;
                assert(matches_any(fp[i as int].path@, strs(config.protected_files@)));
                let c = first_protected(fp, *config)->0;
                assert(c == i) by {
                    if c < i {
                        assert(!matches_any(fp[c].path@, strs(config.protected_files@)));
                    }
                    if c > i {
                        assert(!matches_any(fp[i as int].path@, strs(config.protected_files@)));
                    }
                }
            }
            let mut m = String::new();
            append(&mut m, "Safety: patch attempts to modify protected file: ");
            append(&mut m, fps[i].path.as_str());
            return Err(CheckerError::AiFixFailed { reason: m });
        }
        i += 1;
    }
    assert(first_protected(fps@, *config) is None);
    let mut k: usize = 0;
    while k < n
        invariant
            k <= n == fps@.len(),
            fps == &patch.file_patches,
            n <= config.max_files_per_patch,
            first_protected(fps@, *config) is None,
            forall|a: int, b: int|
                0 <= a < k && 0 <= b < fps@[a].hunks@.len() ==> changed_lines(
                    #[trigger] fps@[a].hunks@[b].lines@,
                ) == 0,
        decreases n - k,
    {
        let hs = &fps[k].hunks;
        let mut h: usize = 0;
        while h < hs.len()
            invariant
                k < n == fps@.len(),
                fps == &patch.file_patches,
                n <= config.max_files_per_patch,
                first_protected(fps@, *config) is None,
                hs == &fps@[k as int].hunks,
                h <= hs@.len(),
                forall|b: int| 0 <= b < h ==> changed_lines(#[trigger] hs@[b].lines@) == 0,
            decreases hs.len() - h,
        {
            if hunk_changes(&hs[h].lines) {
                assert(has_changes(fps@)) by {
                    assert(changed_lines(fps@[k as int].hunks@[h as int].lines@) > 0);
                }
                return Ok(());
            }
            h += 1;
        }
        k += 1;
    }
    assert(!has_changes(fps@));
    Err(CheckerError::AiFixFailed { reason: String::from_str("Safety: patch contains no actual changes") })
}

/// The issues whose files may be sent to the AI, in order.
pub open spec fn sendable(issues: Seq<CheckIssue>, config: SafetyConfig) -> Seq<CheckIssue>
    decreases issues.len(),
{
    if issues.len() == 0 {
        seq![]
    } else {
        sendable(issues.drop_last(), config) + if matches_any(
            issues.last().file@,
            strs(config.never_send@),
        ) {
            seq![]
        } else {
            seq![issues.last()]
        }
    }
}

/// Filter issues to exclude files that should never be sent to AI.
pub fn filter_sendable_issues(issues: &[CheckIssue], config: &SafetyConfig) -> (r: Vec<CheckIssue>)
    ensures
        r@ == sendable(issues@, *config),
{
    let mut r: Vec<CheckIssue> = Vec::new();
    let mut i: usize = 0;
    while i < issues.len()
        invariant
            i <= issues@.len(),
            r@ == sendable(issues@.take(i as int), *config),
        decreases issues.len() - i,
    {
        assert(issues@.take(i + 1).drop_last() =~= issues@.take(i as int));
        let ghost o = r@;
        if !is_never_send(issues[i].file.as_str(), config) {
            r.push(issues[i].duplicate());
            assert(r@ =~= o + seq![issues@[i as int]]);
        } else {
            assert(r@ =~= o + Seq::<CheckIssue>::empty());
        }
        i += 1;
    }
    assert(issues@.take(issues@.len() as int) =~= issues@);
    r
}

} // verus!
