//! Three-agent AI repair pipeline: the prompts each agent is given and the
//! checks made on what it answers.
//!
//! - **Planner**: analyses diagnostics and produces a repair plan (JSON).
//! - **Fixer**: generates a unified diff patch for the planned changes.
//! - **Verifier**: validates the proposed patch before application.
use vstd::prelude::*;

use crate::context::{FileContext, RepairContext};
use crate::error::CheckerError;
use crate::llm::{extract_diff_block, extract_json_block, spec_extract_diff_block,
    spec_extract_json_block};
use crate::output::{severity_text, CheckIssue};
use crate::text::{append, decimal, str_trim, strs, trim, usize_to_string};

verus! {

/// Output from the Planner Agent.
#[derive(Debug, Clone)]
pub struct RepairPlan {
    /// Root cause analysis of the errors.
    pub root_cause: String,
    /// Files that need to be edited.
    pub files_to_edit: Vec<FileEditPlan>,
    /// High-level strategy description.
    pub strategy: String,
}

/// A single file that the planner identified as needing edits.
#[derive(Debug, Clone)]
pub struct FileEditPlan {
    /// File path.
    pub path: String,
    /// Why this file needs to change.
    pub reason: String,
}

// ---------------------------------------------------------------------------
// Diagnostics
// ---------------------------------------------------------------------------

/// Where an issue is: `file:line:column`, `file:line` or `file`.
pub open spec fn issue_location(i: CheckIssue) -> Seq<char> {
    match (i.line, i.column) {
        (Some(l), Some(c)) => i.file@ + ":"@ + decimal(l as nat) + ":"@ + decimal(c as nat),
        (Some(l), None) => i.file@ + ":"@ + decimal(l as nat),
        _ => i.file@,
    }
}

/// One diagnostic line: `severity location: message [code]`.
pub open spec fn diagnostic_line(i: CheckIssue) -> Seq<char> {
    let code = match i.code {
        Some(c) => " ["@ + c@ + "]"@,
        None => seq![],
    };
    severity_text(i.severity) + " "@ + issue_location(i) + ": "@ + i.message@ + code + "\n"@
}

/// The diagnostics text of a list of issues.
pub open spec fn diagnostics_text(is: Seq<CheckIssue>) -> Seq<char>
    decreases is.len(),
{
    if is.len() == 0 {
        seq![]
    } else {
        diagnostics_text(is.drop_last()) + diagnostic_line(is.last())
    }
}

/// Where an issue is.
fn location_exec(issue: &CheckIssue) -> (r: String)
    ensures
        r@ == issue_location(*issue),
{
    let mut out = String::new();
    append(&mut out, issue.file.as_str());
    match issue.line {
        Some(l) => {
            append(&mut out, ":");
            let a = usize_to_string(l as usize);
            append(&mut out, a.as_str());
            match issue.column {
                Some(c) => {
                    append(&mut out, ":");
                    let b = usize_to_string(c as usize);
                    append(&mut out, b.as_str());
                },
                None => {},
            }
        },
        None => {},
    }
    assert(out@ =~= issue_location(*issue));
    out
}

/// One diagnostic line.
fn diagnostic_line_exec(issue: &CheckIssue) -> (r: String)
    ensures
        r@ == diagnostic_line(*issue),
{
    let mut out = String::new();
    let sev = issue.severity.as_text();
    append(&mut out, sev.as_str());
    append(&mut out, " ");
    let loc = location_exec(issue);
    append(&mut out, loc.as_str());
    append(&mut out, ": ");
    append(&mut out, issue.message.as_str());
    match &issue.code {
        Some(c) => {
            append(&mut out, " [");
            append(&mut out, c.as_str());
            append(&mut out, "]");
        },
        None => {},
    }
    append(&mut out, "\n");
    assert(out@ =~= diagnostic_line(*issue));
    out
}

/// Format check issues into a structured diagnostics string.
pub fn format_diagnostics(issues: &[CheckIssue]) -> (r: String)
    ensures
        r@ == diagnostics_text(issues@),
{
    let mut out = String::new();
    let mut i: usize = 0;
    while i < issues.len()
        invariant
            i <= issues@.len(),
            out@ == diagnostics_text(issues@.take(i as int)),
        decreases issues.len() - i,
    {
        let line = diagnostic_line_exec(&issues[i]);
        append(&mut out, line.as_str());
        proof {
            assert(issues@.take(i + 1).drop_last() =~= issues@.take(i as int));
            assert(issues@.take(i + 1).last() == issues@[i as int]);
        }
        i += 1;
    }
    assert(issues@.take(issues@.len() as int) =~= issues@);
    out
}

// ---------------------------------------------------------------------------
// System prompts
// ---------------------------------------------------------------------------

/// The planner's default system prompt.
pub const DEFAULT_PLANNER_SYSTEM_PROMPT: &'static str = "You are a senior software engineer analysing compiler, linter, and test errors.

You are given:
1. A project file tree
2. Relevant source files (or regions of large files)
3. Structured diagnostics (compiler/linter errors with file, line, message)

Your job:
- Identify the root cause of the errors
- Determine which files must be edited to fix them
- Describe a minimal repair strategy
- Do NOT suggest unnecessary refactors
- Do NOT suggest changes to files not related to the errors
- Preserve existing behaviour

Output ONLY valid JSON in this exact schema:
{
  \"root_cause\": \"<concise root cause analysis>\",
  \"files_to_edit\": [
    {
      \"path\": \"<relative file path>\",
      \"reason\": \"<why this file needs to change>\"
    }
  ],
  \"strategy\": \"<high-level strategy description>\"
}

Do not wrap the JSON in a code block. Output raw JSON only.";

/// The fixer's default system prompt.
pub const DEFAULT_FIXER_SYSTEM_PROMPT: &'static str = "You are an automated code repair system. You generate unified diff patches.

Rules:
- ONLY modify the files specified in the repair plan
- Produce a standard unified diff (with --- and +++ headers)
- Make MINIMAL necessary changes to fix the reported errors
- Do NOT rewrite entire files
- Do NOT refactor code beyond what is needed for the fix
- Keep formatting consistent with the original code
- Ensure the patched code will compile / pass the linter
- Preserve all existing behaviour

Output format:
- Standard unified diff with proper file headers
- Use a/ and b/ prefixes for file paths
- Include sufficient context lines (3 lines before and after changes)

Output ONLY the unified diff. No explanations, no markdown, no commentary.";

/// The verifier's default system prompt.
pub const DEFAULT_VERIFIER_SYSTEM_PROMPT: &'static str = "You are a code review system verifying a proposed patch.

You are given:
1. The original errors that the patch is supposed to fix
2. The original source files
3. The proposed unified diff patch

Your job:
- Determine if the patch actually fixes the reported errors
- Check for new type errors, logic bugs, or broken behaviour
- Check for unnecessary changes or refactors
- Assess the risk level

Output ONLY valid JSON in this exact schema:
{
  \"valid\": true or false,
  \"reason\": \"<explanation of assessment>\",
  \"risk_score\": 0.0 to 1.0
}

Risk score guide:
- 0.0-0.2: Trivial fix, very safe
- 0.2-0.4: Simple fix, low risk
- 0.4-0.6: Moderate complexity
- 0.6-0.8: Complex change, needs review
- 0.8-1.0: Risky, likely introduces issues

Do not wrap the JSON in a code block. Output raw JSON only.";

/// A custom prompt replaces the default when its trimmed text is not empty.
pub open spec fn chosen_prompt(custom: Option<Seq<char>>, default: Seq<char>) -> Seq<char> {
    match custom {
        Some(c) => if trim(c).len() > 0 {
            trim(c)
        } else {
            default
        },
        None => default,
    }
}

/// The custom prompt's trimmed text when it is not empty, else the default.
fn resolve_prompt(custom: Option<&str>, default: &str) -> (r: String)
    ensures
        r@ == chosen_prompt(
            match custom {
                Some(c) => Some(c@),
                None => None,
            },
            default@,
        ),
{
    match custom {
        Some(c) => {
            let t = str_trim(c);
            if t.as_str().is_empty() {
                String::from_str(default)
            } else {
                t
            }
        },
        None => String::from_str(default),
    }
}

/// Resolve the planner system prompt: the custom prompt found for the
/// project (`prompts/planner.md`), or the default.
pub fn planner_prompt(custom: Option<&str>) -> (r: String)
    ensures
        r@ == chosen_prompt(
            match custom {
                Some(c) => Some(c@),
                None => None,
            },
            DEFAULT_PLANNER_SYSTEM_PROMPT@,
        ),
{
    resolve_prompt(custom, DEFAULT_PLANNER_SYSTEM_PROMPT)
}

/// Resolve the fixer system prompt (custom or default).
pub fn fixer_prompt(custom: Option<&str>) -> (r: String)
    ensures
        r@ == chosen_prompt(
            match custom {
                Some(c) => Some(c@),
                None => None,
            },
            DEFAULT_FIXER_SYSTEM_PROMPT@,
        ),
{
    resolve_prompt(custom, DEFAULT_FIXER_SYSTEM_PROMPT)
}

/// Resolve the verifier system prompt (custom or default).
pub fn verifier_prompt(custom: Option<&str>) -> (r: String)
    ensures
        r@ == chosen_prompt(
            match custom {
                Some(c) => Some(c@),
                None => None,
            },
            DEFAULT_VERIFIER_SYSTEM_PROMPT@,
        ),
{
    resolve_prompt(custom, DEFAULT_VERIFIER_SYSTEM_PROMPT)
}

// ---------------------------------------------------------------------------
// User prompts
// ---------------------------------------------------------------------------

/// Paths with contents, as character sequences.
pub open spec fn error_pairs(fs: Seq<(String, FileContext)>) -> Seq<(Seq<char>, Seq<char>)> {
    Seq::new(fs.len(), |i: int| (fs[i].0@, fs[i].1.content@))
}

/// Paths with contents, as character sequences.
pub open spec fn related_pairs(fs: Seq<(String, String)>) -> Seq<(Seq<char>, Seq<char>)> {
    Seq::new(fs.len(), |i: int| (fs[i].0@, fs[i].1@))
}

/// `label path\ncontent\n\n` for each file.
pub open spec fn files_block(label: Seq<char>, ps: Seq<(Seq<char>, Seq<char>)>) -> Seq<char>
    decreases ps.len(),
{
    if ps.len() == 0 {
        seq![]
    } else {
        files_block(label, ps.drop_last()) + label + ps.last().0 + "\n"@ + ps.last().1 + "\n\n"@
    }
}

/// Appends `label path\ncontent\n\n` for each error file.
fn append_error_files(out: &mut String, label: &str, fs: &Vec<(String, FileContext)>)
    ensures
        final(out)@ == old(out)@ + files_block(label@, error_pairs(fs@)),
{
    let ghost base = out@;
    let ghost ps = error_pairs(fs@);
    let mut i: usize = 0;
    while i < fs.len()
        invariant
            i <= fs@.len(),
            ps == error_pairs(fs@),
            out@ == base + files_block(label@, ps.take(i as int)),
        decreases fs.len() - i,
    {
        let ghost o = out@;
        append(out, label);
        append(out, fs[i].0.as_str());
        append(out, "\n");
        append(out, fs[i].1.content.as_str());
        append(out, "\n\n");
        proof {
            assert(ps.take(i + 1).drop_last() =~= ps.take(i as int));
            assert(ps.take(i + 1).last() == (fs@[i as int].0@, fs@[i as int].1.content@));
        }
        i += 1;
    }
    assert(ps.take(fs@.len() as int) =~= ps);
}

/// Appends `label path\ncontent\n\n` for each related file.
fn append_related_files(out: &mut String, label: &str, fs: &Vec<(String, String)>)
    ensures
        final(out)@ == old(out)@ + files_block(label@, related_pairs(fs@)),
{
    let ghost base = out@;
    let ghost ps = related_pairs(fs@);
    let mut i: usize = 0;
    while i < fs.len()
        invariant
            i <= fs@.len(),
            ps == related_pairs(fs@),
            out@ == base + files_block(label@, ps.take(i as int)),
        decreases fs.len() - i,
    {
        append(out, label);
        append(out, fs[i].0.as_str());
        append(out, "\n");
        append(out, fs[i].1.as_str());
        append(out, "\n\n");
        proof {
            assert(ps.take(i + 1).drop_last() =~= ps.take(i as int));
            assert(ps.take(i + 1).last() == (fs@[i as int].0@, fs@[i as int].1@));
        }
        i += 1;
    }
    assert(ps.take(fs@.len() as int) =~= ps);
}

/// The planner's user prompt.
pub open spec fn spec_planner_user_prompt(issues: Seq<CheckIssue>, ctx: RepairContext) -> Seq<
    char,
> {
    "## Project File Tree\n"@ + ctx.file_tree@ + "\n\n## Errors\n"@ + diagnostics_text(issues)
        + "\n\n## Relevant Source Files\n"@ + files_block("FILE: "@, error_pairs(ctx.error_files@))
        + "\n\nAnalyse the errors and produce a repair plan as JSON."@
}

/// The planner's user prompt: the file tree, the diagnostics and the error
/// files.
pub fn planner_user_prompt(issues: &[CheckIssue], ctx: &RepairContext) -> (r: String)
    ensures
        r@ == spec_planner_user_prompt(issues@, *ctx),
{
    let diagnostics = format_diagnostics(issues);
    let mut p = String::new();
    append(&mut p, "## Project File Tree\n");
    append(&mut p, ctx.file_tree.as_str());
    append(&mut p, "\n\n## Errors\n");
    append(&mut p, diagnostics.as_str());
    append(&mut p, "\n\n## Relevant Source Files\n");
    append_error_files(&mut p, "FILE: ", &ctx.error_files);
    append(&mut p, "\n\nAnalyse the errors and produce a repair plan as JSON.");
    assert(p@ =~= spec_planner_user_prompt(issues@, *ctx));
    p
}

/// The verifier's user prompt.
pub open spec fn spec_verifier_user_prompt(
    diff: Seq<char>,
    issues: Seq<CheckIssue>,
    ctx: RepairContext,
) -> Seq<char> {
    "## Original Errors\n"@ + diagnostics_text(issues) + "\n\n## Original Files\n"@ + files_block(
        "ORIGINAL FILE: "@,
        error_pairs(ctx.error_files@),
    ) + "\n\n## Proposed Patch\n```diff\n"@ + diff + "\n```\n\n"@
        + "Verify whether this patch correctly fixes the reported errors.\nReturn your assessment as JSON."@
}

/// The verifier's user prompt: the diagnostics, the original files and the
/// proposed patch.
pub fn verifier_user_prompt(diff: &str, issues: &[CheckIssue], ctx: &RepairContext) -> (r: String)
    ensures
        r@ == spec_verifier_user_prompt(diff@, issues@, *ctx),
{
    let diagnostics = format_diagnostics(issues);
    let mut p = String::new();
    append(&mut p, "## Original Errors\n");
    append(&mut p, diagnostics.as_str());
    append(&mut p, "\n\n## Original Files\n");
    append_error_files(&mut p, "ORIGINAL FILE: ", &ctx.error_files);
    append(&mut p, "\n\n## Proposed Patch\n```diff\n");
    append(&mut p, diff);
    append(&mut p, "\n```\n\n");
    append(
        &mut p,
        "Verify whether this patch correctly fixes the reported errors.\nReturn your assessment as JSON.",
    );
    assert(p@ =~= spec_verifier_user_prompt(diff@, issues@, *ctx));
    p
}

/// Whether two strings name the same path, as `std::path::Path`'s `==`
/// decides (component by component).
pub uninterp spec fn path_eq(a: Seq<char>, b: Seq<char>) -> bool;

/// Compares two paths with `std::path::Path`'s `==`. The contract claims
/// only that the answer is a function of the two texts, and that a text is
/// the same path as itself (`Path` is `Eq`).
#[verifier::external_body]
fn same_path(a: &str, b: &str) -> (r: bool)
    ensures
        r == path_eq(a@, b@),
        a@ == b@ ==> r,
{
    std::path::Path::new(a) == std::path::Path::new(b)
}

/// The content of the first file whose path is the same path as `p`.
pub open spec fn lookup_pair(ps: Seq<(Seq<char>, Seq<char>)>, p: Seq<char>) -> Option<Seq<char>>
    decreases ps.len(),
{
    if ps.len() == 0 {
        None
    } else if path_eq(ps[0].0, p) {
        Some(ps[0].1)
    } else {
        lookup_pair(ps.drop_first(), p)
    }
}

/// The fixer's section for the planned files: each planned file found
/// among the error files, or else among the related files.
pub open spec fn planned_block(paths: Seq<Seq<char>>, ctx: RepairContext) -> Seq<char>
    decreases paths.len(),
{
    if paths.len() == 0 {
        seq![]
    } else {
        let p = paths.last();
        planned_block(paths.drop_last(), ctx) + match lookup_pair(error_pairs(ctx.error_files@), p) {
            Some(c) => "FILE: "@ + p + "\n"@ + c + "\n\n"@,
            None => match lookup_pair(related_pairs(ctx.related_files@), p) {
                Some(c) => "FILE: "@ + p + "\n"@ + c + "\n\n"@,
                None => seq![],
            },
        }
    }
}

/// Whether `p` is the same path as one of `paths`.
pub open spec fn among_paths(paths: Seq<Seq<char>>, p: Seq<char>) -> bool {
    exists|i: int| 0 <= i < paths.len() && path_eq(#[trigger] paths[i], p)
}

/// The fixer's section for the related files that were not planned.
pub open spec fn read_only_block(paths: Seq<Seq<char>>, rs: Seq<(Seq<char>, Seq<char>)>) -> Seq<
    char,
>
    decreases rs.len(),
{
    if rs.len() == 0 {
        seq![]
    } else {
        read_only_block(paths, rs.drop_last()) + if among_paths(paths, rs.last().0) {
            seq![]
        } else {
            "RELATED FILE (read-only): "@ + rs.last().0 + "\n"@ + rs.last().1 + "\n\n"@
        }
    }
}

/// The paths of the planned files.
pub open spec fn plan_paths(plan: RepairPlan) -> Seq<Seq<char>> {
    Seq::new(plan.files_to_edit@.len(), |i: int| plan.files_to_edit@[i].path@)
}

/// The fixer's user prompt.
pub open spec fn spec_fixer_user_prompt(
    plan_json: Seq<char>,
    plan: RepairPlan,
    issues: Seq<CheckIssue>,
    ctx: RepairContext,
    reflection: Option<Seq<char>>,
) -> Seq<char> {
    let paths = plan_paths(plan);
    let body = "## Errors to Fix\n"@ + diagnostics_text(issues) + "\n\n## Repair Plan\n"@
        + plan_json + "\n\n## Source Files\n"@ + planned_block(paths, ctx) + read_only_block(
        paths,
        related_pairs(ctx.related_files@),
    )
        + "\n\nGenerate a unified diff that fixes the reported errors.\nOutput ONLY the unified diff. No explanations."@;
    match reflection {
        Some(r) => "## Previous Attempt Feedback\n"@ + r + "\n\n"@ + body,
        None => body,
    }
}

/// The content of the first entry whose path is the same path as `p`.
fn lookup_error_file(fs: &Vec<(String, FileContext)>, p: &str) -> (r: Option<String>)
    ensures
        r matches Some(c) ==> lookup_pair(error_pairs(fs@), p@) == Some(c@),
        r is None ==> lookup_pair(error_pairs(fs@), p@) is None,
{
    let ghost ps = error_pairs(fs@);
    let mut i: usize = 0;
    assert(ps.skip(0) =~= ps);
    while i < fs.len()
        invariant
            i <= fs@.len(),
            ps == error_pairs(fs@),
            lookup_pair(ps, p@) == lookup_pair(ps.skip(i as int), p@),
        decreases fs.len() - i,
    {
        assert(ps.skip(i as int)[0] == (fs@[i as int].0@, fs@[i as int].1.content@));
        assert(ps.skip(i as int).drop_first() =~= ps.skip(i + 1));
        if same_path(fs[i].0.as_str(), p) {
            return Some(fs[i].1.content.clone());
        }
        i += 1;
    }
    None
}

/// The content of the first entry whose path is the same path as `p`.
fn lookup_related_file(fs: &Vec<(String, String)>, p: &str) -> (r: Option<String>)
    ensures
        r matches Some(c) ==> lookup_pair(related_pairs(fs@), p@) == Some(c@),
        r is None ==> lookup_pair(related_pairs(fs@), p@) is None,
{
    let ghost ps = related_pairs(fs@);
    let mut i: usize = 0;
    assert(ps.skip(0) =~= ps);
    while i < fs.len()
        invariant
            i <= fs@.len(),
            ps == related_pairs(fs@),
            lookup_pair(ps, p@) == lookup_pair(ps.skip(i as int), p@),
        decreases fs.len() - i,
    {
        assert(ps.skip(i as int)[0] == (fs@[i as int].0@, fs@[i as int].1@));
        assert(ps.skip(i as int).drop_first() =~= ps.skip(i + 1));
        if same_path(fs[i].0.as_str(), p) {
            return Some(fs[i].1.clone());
        }
        i += 1;
    }
    None
}

/// Whether `p` is the same path as one of the planned files.
fn among_plan(plan: &RepairPlan, p: &str) -> (r: bool)
    ensures
        r == among_paths(plan_paths(*plan), p@),
{
    let ghost paths = plan_paths(*plan);
    let mut i: usize = 0;
    while i < plan.files_to_edit.len()
        invariant
            i <= plan.files_to_edit@.len(),
            paths == plan_paths(*plan),
            forall|j: int| 0 <= j < i ==> !path_eq(#[trigger] paths[j], p@),
        decreases plan.files_to_edit.len() - i,
    {
        if same_path(plan.files_to_edit[i].path.as_str(), p) {
            assert(path_eq(paths[i as int], p@));
            return true;
        }
        i += 1;
    }
    false
}

/// The fixer's user prompt: earlier feedback (on a retry), the
/// diagnostics, the plan as JSON, the planned files and the other related
/// files (read-only).
pub fn fixer_user_prompt(
    plan_json: &str,
    plan: &RepairPlan,
    issues: &[CheckIssue],
    ctx: &RepairContext,
    reflection: Option<&str>,
) -> (r: String)
    ensures
        r@ == spec_fixer_user_prompt(
            plan_json@,
            *plan,
            issues@,
            *ctx,
            match reflection {
                Some(x) => Some(x@),
                None => None,
            },
        ),
{
    let ghost paths = plan_paths(*plan);
    let mut files = String::new();
    let mut i: usize = 0;
    while i < plan.files_to_edit.len()
        invariant
            i <= plan.files_to_edit@.len(),
            paths == plan_paths(*plan),
            files@ == planned_block(paths.take(i as int), *ctx),
        decreases plan.files_to_edit.len() - i,
    {
        let p = plan.files_to_edit[i].path.as_str();
        let ghost o = files@;
        match lookup_error_file(&ctx.error_files, p) {
            Some(c) => {
                append(&mut files, "FILE: ");
                append(&mut files, p);
                append(&mut files, "\n");
                append(&mut files, c.as_str());
                append(&mut files, "\n\n");
            },
            None => match lookup_related_file(&ctx.related_files, p) {
                Some(c) => {
                    append(&mut files, "FILE: ");
                    append(&mut files, p);
                    append(&mut files, "\n");
                    append(&mut files, c.as_str());
                    append(&mut files, "\n\n");
                },
                None => {},
            },
        }
        proof {
            assert(paths.take(i + 1).drop_last() =~= paths.take(i as int));
            assert(paths.take(i + 1).last() == p@);
        }
        i += 1;
    }
    assert(paths.take(plan.files_to_edit@.len() as int) =~= paths);
    let ghost mid = files@;
    let ghost rs = related_pairs(ctx.related_files@);
    let mut j: usize = 0;
    while j < ctx.related_files.len()
        invariant
            j <= ctx.related_files@.len(),
            paths == plan_paths(*plan),
            rs == related_pairs(ctx.related_files@),
            files@ == mid + read_only_block(paths, rs.take(j as int)),
        decreases ctx.related_files.len() - j,
    {
        let ghost o = files@;
        let p = ctx.related_files[j].0.as_str();
        if !among_plan(plan, p) {
            append(&mut files, "RELATED FILE (read-only): ");
            append(&mut files, p);
            append(&mut files, "\n");
            append(&mut files, ctx.related_files[j].1.as_str());
            append(&mut files, "\n\n");
        }
        proof {
            assert(rs.take(j + 1).drop_last() =~= rs.take(j as int));
            assert(rs.take(j + 1).last() == (p@, ctx.related_files@[j as int].1@));
        }
        j += 1;
    }
    assert(rs.take(ctx.related_files@.len() as int) =~= rs);
    let diagnostics = format_diagnostics(issues);
    let mut body = String::new();
    append(&mut body, "## Errors to Fix\n");
    append(&mut body, diagnostics.as_str());
    append(&mut body, "\n\n## Repair Plan\n");
    append(&mut body, plan_json);
    append(&mut body, "\n\n## Source Files\n");
    append(&mut body, files.as_str());
    append(
        &mut body,
        "\n\nGenerate a unified diff that fixes the reported errors.\nOutput ONLY the unified diff. No explanations.",
    );
    match reflection {
        Some(x) => {
            let mut p = String::new();
            append(&mut p, "## Previous Attempt Feedback\n");
            append(&mut p, x);
            append(&mut p, "\n\n");
            append(&mut p, body.as_str());
            assert(p@ =~= "## Previous Attempt Feedback\n"@ + x@ + "\n\n"@ + body@);
            p
        },
        None => body,
    }
}

// ---------------------------------------------------------------------------
// Answers
// ---------------------------------------------------------------------------

/// The JSON of the planner's answer, or the error when it holds none.
pub fn planner_json(content: &str) -> (r: Result<String, CheckerError>)
    ensures
        r matches Ok(j) ==> spec_extract_json_block(content@) == Some(j@),
        r is Err <==> spec_extract_json_block(content@) is None,
        r matches Err(e) ==> e matches CheckerError::AiFixFailed { reason } && reason@
            == "Planner agent did not return valid JSON"@,
{
    match extract_json_block(content) {
        Some(j) => Ok(j),
        None => Err(
            CheckerError::AiFixFailed {
                reason: String::from_str("Planner agent did not return valid JSON"),
            },
        ),
    }
}

/// The diff of the fixer's answer, or the error when it holds none.
pub fn fixer_diff(content: &str) -> (r: Result<String, CheckerError>)
    ensures
        r matches Ok(d) ==> spec_extract_diff_block(content@) == Some(d@),
        r is Err <==> spec_extract_diff_block(content@) is None,
        r matches Err(e) ==> e matches CheckerError::AiFixFailed { reason } && reason@
            == "Fix agent did not return a valid unified diff"@,
{
    match extract_diff_block(content) {
        Some(d) => Ok(d),
        None => Err(
            CheckerError::AiFixFailed {
                reason: String::from_str("Fix agent did not return a valid unified diff"),
            },
        ),
    }
}

/// The JSON of the verifier's answer, or the error when it holds none.
pub fn verifier_json(content: &str) -> (r: Result<String, CheckerError>)
    ensures
        r matches Ok(j) ==> spec_extract_json_block(content@) == Some(j@),
        r is Err <==> spec_extract_json_block(content@) is None,
        r matches Err(e) ==> e matches CheckerError::AiFixFailed { reason } && reason@
            == "Verify agent did not return valid JSON"@,
{
    match extract_json_block(content) {
        Some(j) => Ok(j),
        None => Err(
            CheckerError::AiFixFailed {
                reason: String::from_str("Verify agent did not return valid JSON"),
            },
        ),
    }
}

} // verus!
