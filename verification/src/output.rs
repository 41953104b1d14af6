//! Unified output model for all check providers.
//!
//! Every provider parses its tool-specific output into [`CheckIssue`] values,
//! enabling unified display, filtering, caching, and fix orchestration.
use vstd::prelude::*;

verus! {

/// Severity level of a check issue.
#[derive(Debug, Clone, Copy, PartialEq, Eq, Structural, PartialOrd, Ord, Hash)]
pub enum Severity {
    /// Hints and suggestions for improvement.
    Hint,
    /// Informational messages.
    Info,
    /// Warnings that may indicate problems.
    Warning,
    /// Errors that must be fixed.
    Error,
}

/// How a severity is written.
pub open spec fn severity_text(s: Severity) -> Seq<char> {
    match s {
        Severity::Hint => "hint"@,
        Severity::Info => "info"@,
        Severity::Warning => "warning"@,
        Severity::Error => "error"@,
    }
}

impl Severity {
    /// The lowercase name of the severity, as it is displayed.
    pub fn as_text(&self) -> (r: String)
        ensures
            r@ == severity_text(*self),
    {
        match self {
            Severity::Hint => String::from_str("hint"),
            Severity::Info => String::from_str("info"),
            Severity::Warning => String::from_str("warning"),
            Severity::Error => String::from_str("error"),
        }
    }
}

/// Kind of fix available for an issue.
#[derive(Debug, Clone, Copy, PartialEq, Eq, Structural)]
pub enum FixKind {
    /// Safe to apply automatically — no semantic changes.
    Safe,
    /// May change semantics — needs user confirmation.
    Unsafe,
    /// Suggested by AI — always requires human review.
    AiSuggested,
}

/// A suggested fix for an issue.
#[derive(Debug, Clone)]
pub struct FixSuggestion {
    /// Whether this fix is safe, unsafe, or AI-suggested.
    pub kind: FixKind,
    /// Human-readable description of what the fix does.
    pub description: String,
    /// The replacement text (if available for inline fixes).
    pub replacement: Option<String>,
}

/// A single issue found by a check provider.
#[derive(Debug, Clone)]
pub struct CheckIssue {
    /// File path relative to project root.
    pub file: String,
    /// Starting line number (1-based).
    pub line: Option<u32>,
    /// Starting column number (1-based).
    pub column: Option<u32>,
    /// Ending line number (1-based).
    pub end_line: Option<u32>,
    /// Ending column number (1-based).
    pub end_column: Option<u32>,
    /// Issue severity.
    pub severity: Severity,
    /// Rule/error code (e.g. "no-unused-vars", "E501", "E0382").
    pub code: Option<String>,
    /// Human-readable description of the issue.
    pub message: String,
    /// Provider slug that found this issue (e.g. "biome", "ruff").
    pub source: String,
    /// Available fix, if any.
    pub fix: Option<FixSuggestion>,
}


/// What a fix suggestion holds, with strings as character sequences.
pub struct FixView {
    pub kind: FixKind,
    pub description: Seq<char>,
    pub replacement: Option<Seq<char>>,
}

/// What an issue holds, with strings as character sequences.
pub struct IssueView {
    pub file: Seq<char>,
    pub line: Option<u32>,
    pub column: Option<u32>,
    pub end_line: Option<u32>,
    pub end_column: Option<u32>,
    pub severity: Severity,
    pub code: Option<Seq<char>>,
    pub message: Seq<char>,
    pub source: Seq<char>,
    pub fix: Option<FixView>,
}

/// The view of an optional string.
pub open spec fn opt_view(o: Option<String>) -> Option<Seq<char>> {
    match o {
        Some(s) => Some(s@),
        None => None,
    }
}

impl View for FixSuggestion {
    type V = FixView;

    open spec fn view(&self) -> FixView {
        FixView {
            kind: self.kind,
            description: self.description@,
            replacement: opt_view(self.replacement),
        }
    }
}

impl View for CheckIssue {
    type V = IssueView;

    open spec fn view(&self) -> IssueView {
        IssueView {
            file: self.file@,
            line: self.line,
            column: self.column,
            end_line: self.end_line,
            end_column: self.end_column,
            severity: self.severity,
            code: opt_view(self.code),
            message: self.message@,
            source: self.source@,
            fix: match self.fix {
                Some(f) => Some(f@),
                None => None,
            },
        }
    }
}

/// The views of a list of issues.
pub open spec fn issue_views(s: Seq<CheckIssue>) -> Seq<IssueView> {
    Seq::new(s.len(), |i: int| s[i]@)
}

/// A plain issue: the given file, severity, message and source, and nothing
/// else.
pub open spec fn plain_issue(file: Seq<char>, severity: Severity, message: Seq<char>, source: Seq<
    char,
>) -> IssueView {
    IssueView {
        file,
        line: None,
        column: None,
        end_line: None,
        end_column: None,
        severity,
        code: None,
        message,
        source,
        fix: None,
    }
}

impl CheckIssue {
    /// Create a new issue with required fields.
    pub fn new(file: String, severity: Severity, message: String, source: String) -> (r: Self)
        ensures
            r.file == file,
            r.severity == severity,
            r.message == message,
            r.source == source,
            r.line is None,
            r.column is None,
            r.end_line is None,
            r.end_column is None,
            r.code is None,
            r.fix is None,
    {
        CheckIssue {
            file,
            line: None,
            column: None,
            end_line: None,
            end_column: None,
            severity,
            code: None,
            message,
            source,
            fix: None,
        }
    }

    /// Set line/column location.
    pub fn at(self, line: u32, column: u32) -> (r: Self)
        ensures
            r == (CheckIssue { line: Some(line), column: Some(column), ..self }),
    {
        let mut s = self;
        s.line = Some(line);
        s.column = Some(column);
        s
    }

    /// Set end location.
    pub fn to(self, end_line: u32, end_column: u32) -> (r: Self)
        ensures
            r == (CheckIssue { end_line: Some(end_line), end_column: Some(end_column), ..self }),
    {
        let mut s = self;
        s.end_line = Some(end_line);
        s.end_column = Some(end_column);
        s
    }

    /// Set the rule/error code.
    pub fn with_code(self, code: String) -> (r: Self)
        ensures
            r == (CheckIssue { code: Some(code), ..self }),
    {
        let mut s = self;
        s.code = Some(code);
        s
    }

    /// Attach a fix suggestion.
    pub fn with_fix(self, fix: FixSuggestion) -> (r: Self)
        ensures
            r == (CheckIssue { fix: Some(fix), ..self }),
    {
        let mut s = self;
        s.fix = Some(fix);
        s
    }

    /// Whether this issue has a safe auto-fix available.
    pub open spec fn has_safe_fix_spec(&self) -> bool {
        self.fix matches Some(f) && f.kind == FixKind::Safe
    }

    /// Whether this issue has a safe auto-fix available.
    pub fn has_safe_fix(&self) -> (b: bool)
        ensures
            b == self.has_safe_fix_spec(),
    {
        match &self.fix {
            Some(f) => f.kind == FixKind::Safe,
            None => false,
        }
    }
}

/// Report of fixes applied by a provider.
#[derive(Debug, Clone)]
pub struct FixReport {
    /// Number of issues fixed.
    pub fixed_count: usize,
    /// Number of issues remaining after fix.
    pub remaining_count: usize,
    /// Issues that were fixed (for reporting).
    pub fixed_issues: Vec<String>,
    /// Issues that could not be fixed.
    pub remaining_issues: Vec<CheckIssue>,
}

impl FixReport {
    /// An empty report: nothing fixed, nothing remaining.
    pub fn empty() -> (r: Self)
        ensures
            r.fixed_count == 0,
            r.remaining_count == 0,
            r.fixed_issues@.len() == 0,
            r.remaining_issues@.len() == 0,
    {
        FixReport {
            fixed_count: 0,
            remaining_count: 0,
            fixed_issues: Vec::new(),
            remaining_issues: Vec::new(),
        }
    }
}

/// Aggregated report from a full check run.
#[derive(Debug, Clone)]
pub struct CheckReport {
    /// All issues found across all providers.
    pub issues: Vec<CheckIssue>,
    /// Number of files checked.
    pub files_checked: usize,
    /// Total duration of the check run, in milliseconds.
    pub duration_ms: u64,
    /// Provider slugs that were executed.
    pub providers_run: Vec<String>,
    /// Number of errors.
    pub error_count: usize,
    /// Number of warnings.
    pub warning_count: usize,
    /// Fix report, if --fix was used.
    pub fix_report: Option<FixReport>,
}

/// Number of issues of a severity.
pub open spec fn count_severity(issues: Seq<CheckIssue>, sev: Severity) -> nat
    decreases issues.len(),
{
    if issues.len() == 0 {
        0
    } else {
        count_severity(issues.drop_last(), sev) + if issues.last().severity == sev {
            1nat
        } else {
            0nat
        }
    }
}

/// Counting never exceeds the number of issues.
pub proof fn lemma_count_severity_le(issues: Seq<CheckIssue>, sev: Severity)
    ensures
        count_severity(issues, sev) <= issues.len(),
    decreases issues.len(),
{
    if issues.len() > 0 {
        lemma_count_severity_le(issues.drop_last(), sev);
    }
}

/// Number of issues of a severity.
pub fn count_issues(issues: &Vec<CheckIssue>, sev: Severity) -> (n: usize)
    ensures
        n == count_severity(issues@, sev),
{
    let mut n: usize = 0;
    let mut i: usize = 0;
    while i < issues.len()
        invariant
            i <= issues@.len(),
            n == count_severity(issues@.take(i as int), sev),
            n <= i,
        decreases issues.len() - i,
    {
        assert(issues@.take(i + 1).drop_last() =~= issues@.take(i as int));
        if issues[i].severity == sev {
            n += 1;
        }
        i += 1;
    }
    assert(issues@.take(issues@.len() as int) =~= issues@);
    n
}

impl CheckReport {
    /// Create a new empty report.
    pub fn new() -> (r: Self)
        ensures
            r.issues@.len() == 0,
            r.files_checked == 0,
            r.duration_ms == 0,
            r.providers_run@.len() == 0,
            r.error_count == 0,
            r.warning_count == 0,
            r.fix_report is None,
    {
        CheckReport {
            issues: Vec::new(),
            files_checked: 0,
            duration_ms: 0,
            providers_run: Vec::new(),
            error_count: 0,
            warning_count: 0,
            fix_report: None,
        }
    }

    /// Recompute error/warning counts from the issues list.
    pub fn recount(&mut self)
        ensures
            final(self).error_count == count_severity(old(self).issues@, Severity::Error),
            final(self).warning_count == count_severity(old(self).issues@, Severity::Warning),
            final(self).issues == old(self).issues,
            final(self).files_checked == old(self).files_checked,
            final(self).duration_ms == old(self).duration_ms,
            final(self).providers_run == old(self).providers_run,
            final(self).fix_report == old(self).fix_report,
    {
        self.error_count = count_issues(&self.issues, Severity::Error);
        self.warning_count = count_issues(&self.issues, Severity::Warning);
    }

    /// Whether the check passed (no errors; warnings allowed unless strict).
    pub fn passed(&self, strict: bool) -> (b: bool)
        ensures
            b == (self.error_count == 0 && (!strict || self.warning_count == 0)),
    {
        if strict {
            self.error_count == 0 && self.warning_count == 0
        } else {
            self.error_count == 0
        }
    }
}


/// A copy of an optional string.
pub fn copy_opt_string(o: &Option<String>) -> (r: Option<String>)
    ensures
        r == *o,
{
    match o {
        Some(x) => Some(x.clone()),
        None => None,
    }
}

impl FixSuggestion {
    /// A field-for-field copy.
    pub fn duplicate(&self) -> (r: Self)
        ensures
            r == *self,
    {
        FixSuggestion {
            kind: self.kind,
            description: self.description.clone(),
            replacement: copy_opt_string(&self.replacement),
        }
    }
}

impl CheckIssue {
    /// A field-for-field copy.
    pub fn duplicate(&self) -> (r: Self)
        ensures
            r == *self,
    {
        CheckIssue {
            file: self.file.clone(),
            line: self.line,
            column: self.column,
            end_line: self.end_line,
            end_column: self.end_column,
            severity: self.severity,
            code: copy_opt_string(&self.code),
            message: self.message.clone(),
            source: self.source.clone(),
            fix: match &self.fix {
                Some(f) => Some(f.duplicate()),
                None => None,
            },
        }
    }
}

/// A copy of a list of issues.
pub fn copy_issues(issues: &[CheckIssue]) -> (r: Vec<CheckIssue>)
    ensures
        r@ == issues@,
{
    let mut r: Vec<CheckIssue> = Vec::new();
    let mut i: usize = 0;
    while i < issues.len()
        invariant
            i <= issues@.len(),
            r@ == issues@.take(i as int),
        decreases issues.len() - i,
    {
        r.push(issues[i].duplicate());
        i += 1;
        assert(r@ =~= issues@.take(i as int));
    }
    assert(issues@.take(issues@.len() as int) =~= issues@);
    r
}

} // verus!
