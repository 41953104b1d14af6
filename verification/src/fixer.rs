//! Text of the check and fix summaries shown at the end of a run.
//!
//! The summaries are computed here as a list of lines, each with the tone
//! it is shown in; the program writes them to the terminal.
use vstd::prelude::*;

use crate::output::{count_severity, severity_text, CheckIssue, CheckReport, FixReport, Severity};
use crate::runner::join_with;
use crate::text::{append, decimal, join, strs, u64_to_string, usize_to_string};

verus! {

/// How a summary line is shown.
#[derive(Debug, Clone, Copy, PartialEq, Eq, Structural)]
pub enum Tone {
    /// An empty line.
    Blank,
    Success,
    Warning,
    Error,
    Info,
}

/// One line of a summary.
#[derive(Debug, Clone)]
pub struct SummaryLine {
    pub tone: Tone,
    pub text: String,
}

impl View for SummaryLine {
    type V = (Tone, Seq<char>);

    open spec fn view(&self) -> (Tone, Seq<char>) {
        (self.tone, self.text@)
    }
}

/// The views of a list of lines.
pub open spec fn line_views(v: Seq<SummaryLine>) -> Seq<(Tone, Seq<char>)> {
    Seq::new(v.len(), |i: int| v[i]@)
}

/// The empty line.
pub open spec fn blank() -> (Tone, Seq<char>) {
    (Tone::Blank, Seq::empty())
}

/// `"s"` unless the count is one.
pub open spec fn plural(n: nat) -> Seq<char> {
    if n == 1 {
        Seq::empty()
    } else {
        "s"@
    }
}

/// The lines summarising a fix report.
pub open spec fn spec_fix_summary(r: FixReport) -> Seq<(Tone, Seq<char>)> {
    let fixed = r.fixed_count as nat;
    let left = r.remaining_count as nat;
    (if fixed > 0 {
        seq![(Tone::Success, "Fixed "@ + decimal(fixed) + " issue"@ + plural(fixed))]
    } else {
        Seq::empty()
    }) + (if left > 0 {
        seq![(Tone::Warning, decimal(left) + " issue"@ + plural(left) + " remaining after auto-fix"@)]
    } else {
        Seq::empty()
    })
}

/// `n` spaces.
pub open spec fn spaces(n: nat) -> Seq<char> {
    Seq::new(n, |i: int| ' ')
}

/// A text right-aligned in a field of `w` characters.
pub open spec fn pad_left(s: Seq<char>, w: nat) -> Seq<char> {
    if s.len() >= w {
        s
    } else {
        spaces((w - s.len()) as nat) + s
    }
}

/// Where an issue is: `line:column`, `line:1` without a column, or
/// nothing without a line.
pub open spec fn location_text(i: CheckIssue) -> Seq<char> {
    match (i.line, i.column) {
        (Some(l), Some(c)) => decimal(l as nat) + ":"@ + decimal(c as nat),
        (Some(l), None) => decimal(l as nat) + ":1"@,
        _ => Seq::empty(),
    }
}

/// The rule code of an issue in brackets, if it has one.
pub open spec fn code_suffix(code: Option<String>) -> Seq<char> {
    match code {
        Some(c) => " ["@ + c@ + "]"@,
        None => Seq::empty(),
    }
}

/// The line that shows one issue.
pub open spec fn issue_text(i: CheckIssue) -> Seq<char> {
    "  "@ + pad_left(severity_text(i.severity), 8) + " "@ + pad_left(location_text(i), 10) + "  "@
        + i.message@ + code_suffix(i.code) + if i.has_safe_fix_spec() {
        " (fixable)"@
    } else {
        Seq::empty()
    }
}

/// The tone an issue is shown in.
pub open spec fn severity_tone(s: Severity) -> Tone {
    match s {
        Severity::Error => Tone::Error,
        Severity::Warning => Tone::Warning,
        _ => Tone::Info,
    }
}

/// The file of the issue before the `k`-th, empty for the first.
pub open spec fn file_before(is: Seq<CheckIssue>, k: int) -> Seq<char> {
    if k == 0 {
        Seq::empty()
    } else {
        is[k - 1].file@
    }
}

/// The lines for the `k`-th issue: a blank line and the file's name when
/// the file changes, then the issue.
pub open spec fn issue_block(is: Seq<CheckIssue>, k: int) -> Seq<(Tone, Seq<char>)> {
    (if is[k].file@ != file_before(is, k) {
        seq![blank(), (Tone::Info, is[k].file@)]
    } else {
        Seq::empty()
    }) + seq![(severity_tone(is[k].severity), issue_text(is[k]))]
}

/// The lines for the first `n` issues.
pub open spec fn issue_lines(is: Seq<CheckIssue>, n: nat) -> Seq<(Tone, Seq<char>)>
    decreases n,
{
    if n == 0 {
        Seq::empty()
    } else {
        issue_lines(is, (n - 1) as nat) + issue_block(is, n - 1)
    }
}

/// The counts of a report, written out: errors, warnings, then infos
/// (infos and hints together), each only when there is one.
pub open spec fn count_parts(is: Seq<CheckIssue>) -> Seq<Seq<char>> {
    let e = count_severity(is, Severity::Error);
    let w = count_severity(is, Severity::Warning);
    let n = count_severity(is, Severity::Info) + count_severity(is, Severity::Hint);
    (if e > 0 {
        seq![decimal(e) + " error"@ + plural(e)]
    } else {
        Seq::empty()
    }) + (if w > 0 {
        seq![decimal(w) + " warning"@ + plural(w)]
    } else {
        Seq::empty()
    }) + (if n > 0 {
        seq![decimal(n) + " info"@]
    } else {
        Seq::empty()
    })
}

/// The verdict line of a report.
pub open spec fn verdict_line(r: CheckReport, strict: bool) -> (Tone, Seq<char>) {
    let summary = join(count_parts(r.issues@), ", "@);
    if r.error_count == 0 && (!strict || r.warning_count == 0) {
        (Tone::Success, "Check passed ("@ + summary + ") in "@ + decimal(r.duration_ms as nat) + "ms"@)
    } else {
        (Tone::Error, "Check failed: "@ + summary + " ("@ + decimal(r.duration_ms as nat) + "ms)"@)
    }
}

/// The lines summarising a check report.
pub open spec fn spec_report_summary(r: CheckReport, strict: bool) -> Seq<(Tone, Seq<char>)> {
    if r.issues@.len() == 0 {
        seq![blank(), (Tone::Success, "No issues found!"@)]
    } else {
        seq![blank()] + issue_lines(r.issues@, r.issues@.len()) + seq![blank(), verdict_line(r, strict)]
            + match r.fix_report {
            Some(f) => spec_fix_summary(f),
            None => Seq::empty(),
        } + seq![(Tone::Info, "Checkers: "@ + join(strs(r.providers_run@), ", "@))]
    }
}

fn line(tone: Tone, text: String) -> (r: SummaryLine)
    ensures
        r@ == (tone, text@),
{
    SummaryLine { tone, text }
}

fn blank_line() -> (r: SummaryLine)
    ensures
        r@ == blank(),
{
    let r = SummaryLine { tone: Tone::Blank, text: String::new() };
    assert(r.text@ =~= Seq::<char>::empty());
    r
}

/// `"s"` unless the count is one.
fn plural_text(n: usize) -> (r: &'static str)
    ensures
        r@ == plural(n as nat),
{
    if n == 1 {
        proof {
            reveal_strlit("");
        }
        ""
    } else {
        proof {
            reveal_strlit("s");
        }
        "s"
    }
}

/// A count with its noun: `"3 issues"`, `"1 issue"`.
fn counted(n: usize, noun: &str) -> (r: String)
    ensures
        r@ == decimal(n as nat) + noun@ + plural(n as nat),
{
    let mut s = usize_to_string(n);
    append(&mut s, noun);
    append(&mut s, plural_text(n));
    s
}

/// Appends the lines summarising a fix report.
fn push_fix_summary(out: &mut Vec<SummaryLine>, report: &FixReport)
    ensures
        line_views(final(out)@) == line_views(old(out)@) + spec_fix_summary(*report),
{
    let ghost start = line_views(out@);
    let ghost first: Seq<(Tone, Seq<char>)> = Seq::empty();
    if report.fixed_count > 0 {
        let mut s = String::from_str("Fixed ");
        let c = counted(report.fixed_count, " issue");
        append(&mut s, c.as_str());
        proof {
            reveal_strlit("Fixed ");
            first = seq![(Tone::Success, "Fixed "@ + decimal(report.fixed_count as nat) + " issue"@
                + plural(report.fixed_count as nat))];
            assert(s@ =~= first[0].1);
        }
        out.push(line(Tone::Success, s));
        assert(line_views(out@) =~= start + first);
    }
    assert(line_views(out@) =~= start + first);
    if report.remaining_count > 0 {
        let mut s = counted(report.remaining_count, " issue");
        append(&mut s, " remaining after auto-fix");
        let ghost second = seq![(Tone::Warning, decimal(report.remaining_count as nat)
                + " issue"@ + plural(report.remaining_count as nat) + " remaining after auto-fix"@)];
        assert(s@ =~= second[0].1);
        out.push(line(Tone::Warning, s));
        assert(line_views(out@) =~= start + first + second);
    }
    assert(line_views(out@) =~= start + spec_fix_summary(*report));
}

/// The lines summarising the fix results.
pub fn display_fix_summary(report: &FixReport) -> (r: Vec<SummaryLine>)
    ensures
        line_views(r@) == spec_fix_summary(*report),
{
    let mut out: Vec<SummaryLine> = Vec::new();
    assert(line_views(out@) =~= Seq::<(Tone, Seq<char>)>::empty());
    push_fix_summary(&mut out, report);
    assert(line_views(out@) =~= spec_fix_summary(*report));
    out
}

/// Spaces, then the text, to fill `w` characters.
fn pad_left_exec(s: &str, w: usize) -> (r: String)
    ensures
        r@ == pad_left(s@, w as nat),
{
    let n = s.unicode_len();
    let mut r = String::new();
    if n < w {
        let mut k: usize = 0;
        while k < w - n
            invariant
                n < w,
                k <= w - n,
                r@ == spaces(k as nat),
            decreases w - n - k,
        {
            crate::text::push_char(&mut r, ' ');
            assert(r@ =~= spaces((k + 1) as nat));
            k += 1;
        }
    }
    append(&mut r, s);
    assert(r@ =~= pad_left(s@, w as nat));
    r
}

/// Where an issue is.
fn location_exec(i: &CheckIssue) -> (r: String)
    ensures
        r@ == location_text(*i),
{
    match (i.line, i.column) {
        (Some(l), Some(c)) => {
            let mut s = u64_to_string(l as u64);
            append(&mut s, ":");
            append(&mut s, u64_to_string(c as u64).as_str());
            s
        },
        (Some(l), None) => {
            let mut s = u64_to_string(l as u64);
            append(&mut s, ":1");
            s
        },
        _ => {
            let s = String::new();
            assert(s@ =~= location_text(*i));
            s
        },
    }
}

/// The line that shows one issue.
fn issue_exec(i: &CheckIssue) -> (r: String)
    ensures
        r@ == issue_text(*i),
{
    let sev = i.severity.as_text();
    let mut s = String::from_str("  ");
    append(&mut s, pad_left_exec(sev.as_str(), 8).as_str());
    append(&mut s, " ");
    append(&mut s, pad_left_exec(location_exec(i).as_str(), 10).as_str());
    append(&mut s, "  ");
    append(&mut s, i.message.as_str());
    let ghost before_code = s@;
    match &i.code {
        Some(c) => {
            append(&mut s, " [");
            append(&mut s, c.as_str());
            append(&mut s, "]");
        },
        None => {},
    }
    let ghost before_fix = s@;
    if i.has_safe_fix() {
        append(&mut s, " (fixable)");
    }
    proof {
        reveal_strlit("  ");
        assert(before_fix =~= before_code + code_suffix(i.code));
    }
    assert(s@ =~= issue_text(*i));
    s
}

/// The tone an issue is shown in.
fn tone_of(s: Severity) -> (r: Tone)
    ensures
        r == severity_tone(s),
{
    match s {
        Severity::Error => Tone::Error,
        Severity::Warning => Tone::Warning,
        _ => Tone::Info,
    }
}

/// The counts of the issues, written out and joined with `", "`.
fn counts_text(issues: &Vec<CheckIssue>) -> (r: String)
    ensures
        r@ == join(count_parts(issues@), ", "@),
{
    let e = crate::output::count_issues(issues, Severity::Error);
    let w = crate::output::count_issues(issues, Severity::Warning);
    let n1 = crate::output::count_issues(issues, Severity::Info);
    let n2 = crate::output::count_issues(issues, Severity::Hint);
    proof {
        crate::output::lemma_count_severity_le(issues@, Severity::Info);
        crate::output::lemma_count_severity_le(issues@, Severity::Hint);
        lemma_count_split(issues@);
    }
    let len = issues.len();
    assert(n1 + n2 <= len);
    let n = n1 + n2;
    let mut parts: Vec<String> = Vec::new();
    if e > 0 {
        parts.push(counted(e, " error"));
    }
    if w > 0 {
        parts.push(counted(w, " warning"));
    }
    if n > 0 {
        let mut s = usize_to_string(n);
        append(&mut s, " info");
        parts.push(s);
    }
    assert(strs(parts@) =~= count_parts(issues@));
    join_with(&parts, ", ")
}

/// Info, hint, warning and error issues together are no more than all.
proof fn lemma_count_split(is: Seq<CheckIssue>)
    ensures
        count_severity(is, Severity::Info) + count_severity(is, Severity::Hint)
            + count_severity(is, Severity::Warning) + count_severity(is, Severity::Error) == is.len(),
    decreases is.len(),
{
    if is.len() > 0 {
        lemma_count_split(is.drop_last());
    }
}

/// The lines summarising a check report: each issue under its file, a
/// verdict with the counts and the time, the fix summary, and the checkers
/// that ran.
pub fn display_report_summary(report: &CheckReport, strict: bool) -> (r: Vec<SummaryLine>)
    ensures
        line_views(r@) == spec_report_summary(*report, strict),
{
    let mut out: Vec<SummaryLine> = Vec::new();
    out.push(blank_line());
    if report.issues.len() == 0 {
        out.push(line(Tone::Success, String::from_str("No issues found!")));
        assert(line_views(out@) =~= spec_report_summary(*report, strict));
        return out;
    }
    let issues = &report.issues;
    let mut k: usize = 0;
    while k < issues.len()
        invariant
            k <= issues@.len(),
            issues == &report.issues,
            line_views(out@) == seq![blank()] + issue_lines(issues@, k as nat),
        decreases issues.len() - k,
    {
        let ghost before = line_views(out@);
        let changed = if k == 0 {
            issues[k].file.unicode_len() != 0
        } else {
            !crate::text::str_eq(issues[k].file.as_str(), issues[k - 1].file.as_str())
        };
        proof {
            if k == 0 {
                assert(file_before(issues@, 0) =~= Seq::<char>::empty());
            }
        }
        let ghost item = (severity_tone(issues@[k as int].severity), issue_text(issues@[k as int]));
        if changed {
            out.push(blank_line());
            let f = issues[k].file.clone();
            out.push(line(Tone::Info, f));
            let t = issue_exec(&issues[k]);
            out.push(line(tone_of(issues[k].severity), t));
            assert(line_views(out@) =~= before + seq![blank(), (Tone::Info, issues@[k as int].file@), item]);
            assert(issue_block(issues@, k as int) =~= seq![blank(), (Tone::Info, issues@[k as int].file@), item]);
        } else {
            let t = issue_exec(&issues[k]);
            out.push(line(tone_of(issues[k].severity), t));
            assert(line_views(out@) =~= before + seq![item]);
            assert(issues@[k as int].file@ =~= file_before(issues@, k as int));
            assert(issue_block(issues@, k as int) =~= seq![item]);
        }
        assert(issue_lines(issues@, (k + 1) as nat) == issue_lines(issues@, k as nat) + issue_block(issues@, k as int));
        k += 1;
    }
    out.push(blank_line());
    let summary = counts_text(issues);
    let ms = u64_to_string(report.duration_ms);
    if report.passed(strict) {
        let mut s = String::from_str("Check passed (");
        append(&mut s, summary.as_str());
        append(&mut s, ") in ");
        append(&mut s, ms.as_str());
        append(&mut s, "ms");
        out.push(line(Tone::Success, s));
    } else {
        let mut s = String::from_str("Check failed: ");
        append(&mut s, summary.as_str());
        append(&mut s, " (");
        append(&mut s, ms.as_str());
        append(&mut s, "ms)");
        out.push(line(Tone::Error, s));
    }
    match &report.fix_report {
        Some(f) => push_fix_summary(&mut out, f),
        None => {},
    }
    let ghost last = line_views(out@);
    let mut s = String::from_str("Checkers: ");
    append(&mut s, join_with(&report.providers_run, ", ").as_str());
    out.push(line(Tone::Info, s));
    proof {
        reveal_strlit("Checkers: ");
        assert(line_views(out@) =~= last + seq![(Tone::Info, "Checkers: "@ + join(
            strs(report.providers_run@),
            ", "@,
        ))]);
    }
    assert(line_views(out@) =~= spec_report_summary(*report, strict));
    out
}

// ---------------------------------------------------------------------------
// Combining the providers' fix reports
// ---------------------------------------------------------------------------

/// The sum of the fixed counts of the reports that came.
pub open spec fn fixed_total(rs: Seq<Option<FixReport>>) -> int
    decreases rs.len(),
{
    if rs.len() == 0 {
        0
    } else {
        fixed_total(rs.drop_last()) + match rs.last() {
            Some(r) => r.fixed_count as int,
            None => 0,
        }
    }
}

/// The remaining issues of the reports that came, in order.
pub open spec fn remaining_all(rs: Seq<Option<FixReport>>) -> Seq<CheckIssue>
    decreases rs.len(),
{
    if rs.len() == 0 {
        Seq::empty()
    } else {
        remaining_all(rs.drop_last()) + match rs.last() {
            Some(r) => r.remaining_issues@,
            None => Seq::empty(),
        }
    }
}

/// The descriptions of fixed issues of the reports that came, in order.
pub open spec fn fixed_all(rs: Seq<Option<FixReport>>) -> Seq<Seq<char>>
    decreases rs.len(),
{
    if rs.len() == 0 {
        Seq::empty()
    } else {
        fixed_all(rs.drop_last()) + match rs.last() {
            Some(r) => strs(r.fixed_issues@),
            None => Seq::empty(),
        }
    }
}

/// A fixed count never falls below an earlier one.
proof fn lemma_fixed_total_grows(rs: Seq<Option<FixReport>>, n: int)
    requires
        0 <= n <= rs.len(),
    ensures
        fixed_total(rs.take(n)) <= fixed_total(rs),
    decreases rs.len(),
{
    if n < rs.len() {
        assert(rs.drop_last().take(n) =~= rs.take(n));
        lemma_fixed_total_grows(rs.drop_last(), n);
    } else {
        assert(rs.take(n) =~= rs);
    }
}

/// The fix report of a `--fix` run: the reports of the providers that fix,
/// `None` for one whose fix failed (it adds nothing), combined: the fixed
/// counts summed, the fixed and the remaining issues put together in
/// order.
pub fn combine_fix_reports(reports: &Vec<Option<FixReport>>) -> (r: FixReport)
    requires
        fixed_total(reports@) <= usize::MAX,
    ensures
        r.fixed_count as int == fixed_total(reports@),
        r.remaining_issues@ == remaining_all(reports@),
        strs(r.fixed_issues@) == fixed_all(reports@),
        r.remaining_count == r.remaining_issues@.len(),
{
    let mut total: usize = 0;
    let mut remaining: Vec<CheckIssue> = Vec::new();
    let mut fixed: Vec<String> = Vec::new();
    let mut i: usize = 0;
    while i < reports.len()
        invariant
            i <= reports@.len(),
            fixed_total(reports@) <= usize::MAX,
            total as int == fixed_total(reports@.take(i as int)),
            remaining@ == remaining_all(reports@.take(i as int)),
            strs(fixed@) == fixed_all(reports@.take(i as int)),
        decreases reports.len() - i,
    {
        let ghost t = reports@.take(i + 1);
        assert(t.drop_last() =~= reports@.take(i as int));
        proof {
            lemma_fixed_total_grows(reports@, i + 1);
        }
        match &reports[i] {
            Some(rep) => {
                total = total + rep.fixed_count;
                let mut k: usize = 0;
                let ghost r0 = remaining@;
                while k < rep.remaining_issues.len()
                    invariant
                        k <= rep.remaining_issues@.len(),
                        remaining@ == r0 + rep.remaining_issues@.take(k as int),
                    decreases rep.remaining_issues.len() - k,
                {
                    remaining.push(rep.remaining_issues[k].duplicate());
                    assert(remaining@ =~= r0 + rep.remaining_issues@.take(k + 1));
                    k += 1;
                }
                assert(rep.remaining_issues@.take(rep.remaining_issues@.len() as int) =~= rep.remaining_issues@);
                let mut j: usize = 0;
                let ghost f0 = strs(fixed@);
                while j < rep.fixed_issues.len()
                    invariant
                        j <= rep.fixed_issues@.len(),
                        strs(fixed@) == f0 + strs(rep.fixed_issues@).take(j as int),
                    decreases rep.fixed_issues.len() - j,
                {
                    let ghost before = strs(fixed@);
                    fixed.push(rep.fixed_issues[j].clone());
                    assert(strs(fixed@) =~= before.push(rep.fixed_issues@[j as int]@));
                    assert(strs(fixed@) =~= f0 + strs(rep.fixed_issues@).take(j + 1));
                    j += 1;
                }
                assert(strs(rep.fixed_issues@).take(rep.fixed_issues@.len() as int) =~= strs(rep.fixed_issues@));
            },
            None => {
                assert(remaining@ =~= remaining_all(t));
            },
        }
        i += 1;
    }
    assert(reports@.take(reports@.len() as int) =~= reports@);
    let n = remaining.len();
    FixReport { fixed_count: total, remaining_count: n, fixed_issues: fixed, remaining_issues: remaining }
}

} // verus!
