//! Parsers that turn the JSON reports of the check tools into issues.
//!
//! Each report is read as JSON with `serde_json`; a parser beside each
//! takes the report so read and states, item by item, which issue each
//! diagnostic becomes.
use vstd::prelude::*;

use crate::error::CheckerError;
use crate::json::{
    json_array, json_array_opt, json_array_parsed, json_bool_opt, json_get, json_get_opt, json_index,
    json_object_opt, json_parsed, json_str, json_str_opt, json_u64_opt, json_wf, jview, jview_items,
    parse_json, parse_json_array, Json, JsonValue,
};
use crate::output::{
    issue_views, plain_issue, CheckIssue, FixKind, FixSuggestion, FixView, IssueView, Severity,
};
use crate::providers::{map_severity, spec_map_severity};
use crate::text::{append, find, find_exec, starts_with, str_eq, str_starts_with, string_of,
    to_chars};

verus! {

// ---------------------------------------------------------------------------
// Common pieces
// ---------------------------------------------------------------------------

/// An optional text, or a default.
pub open spec fn str_or(o: Option<Seq<char>>, d: Seq<char>) -> Seq<char> {
    match o {
        Some(s) => s,
        None => d,
    }
}

/// A number as `u32` (`as u32`, keeping the low bits).
pub open spec fn u32_of(o: Option<u64>) -> Option<u32> {
    match o {
        Some(n) => Some(n as u32),
        None => None,
    }
}

/// The issue with a start location, when both line and column are known.
pub open spec fn at_loc(i: IssueView, l: Option<u32>, c: Option<u32>) -> IssueView {
    match (l, c) {
        (Some(a), Some(b)) => IssueView { line: Some(a), column: Some(b), ..i },
        _ => i,
    }
}

/// The issue with an end location, when both line and column are known.
pub open spec fn to_loc(i: IssueView, l: Option<u32>, c: Option<u32>) -> IssueView {
    match (l, c) {
        (Some(a), Some(b)) => IssueView { end_line: Some(a), end_column: Some(b), ..i },
        _ => i,
    }
}

/// The issue with a code, when there is one.
pub open spec fn with_code(i: IssueView, code: Option<Seq<char>>) -> IssueView {
    match code {
        Some(c) => IssueView { code: Some(c), ..i },
        None => i,
    }
}

/// The issue with a fix, when there is one.
pub open spec fn with_fix(i: IssueView, fix: Option<FixView>) -> IssueView {
    match fix {
        Some(f) => IssueView { fix: Some(f), ..i },
        None => i,
    }
}

/// The string member `key`.
fn get_str<'a>(v: &'a JsonValue, key: &str) -> (r: Option<&'a str>)
    ensures
        r matches Some(s) ==> json_str_opt(json_get(*v, key@)) == Some(s@),
        r is None ==> json_str_opt(json_get(*v, key@)) is None,
{
    match v.get(key) {
        Some(x) => x.as_str(),
        None => None,
    }
}

/// The member `key` as `u32`.
fn get_u32(v: &JsonValue, key: &str) -> (r: Option<u32>)
    ensures
        r == u32_of(json_u64_opt(json_get(*v, key@))),
{
    match v.get(key) {
        Some(x) => match x.as_u64() {
            Some(n) => Some(n as u32),
            None => None,
        },
        None => None,
    }
}

/// The member `key` of the member `outer`, as `u32`.
fn get_u32_in(v: &JsonValue, outer: &str, key: &str) -> (r: Option<u32>)
    ensures
        r == u32_of(json_u64_opt(json_get_opt(json_get(*v, outer@), key@))),
{
    match v.get(outer) {
        Some(o) => get_u32(o, key),
        None => None,
    }
}

/// An owned copy of an optional text, or of a default.
fn owned_or(o: Option<&str>, d: &str) -> (r: String)
    ensures
        r@ == str_or(
            match o {
                Some(s) => Some(s@),
                None => None,
            },
            d@,
        ),
{
    match o {
        Some(s) => String::from_str(s),
        None => String::from_str(d),
    }
}

/// An owned copy of an optional text.
fn owned_opt(o: Option<&str>) -> (r: Option<String>)
    ensures
        crate::output::opt_view(r) == match o {
            Some(s) => Some(s@),
            None => None,
        },
{
    match o {
        Some(s) => Some(String::from_str(s)),
        None => None,
    }
}

/// Sets the start location when both parts are known.
fn set_at(issue: CheckIssue, l: Option<u32>, c: Option<u32>) -> (r: CheckIssue)
    ensures
        r@ == at_loc(issue@, l, c),
{
    match (l, c) {
        (Some(a), Some(b)) => issue.at(a, b),
        _ => issue,
    }
}

/// Sets the end location when both parts are known.
fn set_to(issue: CheckIssue, l: Option<u32>, c: Option<u32>) -> (r: CheckIssue)
    ensures
        r@ == to_loc(issue@, l, c),
{
    match (l, c) {
        (Some(a), Some(b)) => issue.to(a, b),
        _ => issue,
    }
}

/// Sets the code when there is one.
fn set_code(issue: CheckIssue, code: Option<String>) -> (r: CheckIssue)
    ensures
        r@ == with_code(issue@, crate::output::opt_view(code)),
{
    match code {
        Some(c) => issue.with_code(c),
        None => issue,
    }
}

/// Sets the fix when there is one.
fn set_fix(issue: CheckIssue, fix: Option<FixSuggestion>) -> (r: CheckIssue)
    ensures
        r@ == with_fix(
            issue@,
            match fix {
                Some(f) => Some(f@),
                None => None,
            },
        ),
{
    match fix {
        Some(f) => issue.with_fix(f),
        None => issue,
    }
}

/// The error for a report that is not valid JSON.
pub open spec fn invalid_json(provider: Seq<char>, reason: Seq<char>, e: CheckerError) -> bool {
    e matches CheckerError::ParseFailed { provider: p, reason: r } && p@ == provider && r@
        == "Invalid JSON: "@ + reason
}

/// The parse failure of a provider.
fn parse_failed(provider: &str, prefix: &str, reason: &str) -> (e: CheckerError)
    ensures
        e matches CheckerError::ParseFailed { provider: p, reason: r } && p@ == provider@ && r@
            == prefix@ + reason@,
{
    let mut r = String::new();
    append(&mut r, prefix);
    append(&mut r, reason);
    CheckerError::ParseFailed { provider: String::from_str(provider), reason: r }
}

/// Issues for each item, in order.
pub open spec fn each_issue(items: Seq<JsonValue>, f: spec_fn(JsonValue) -> IssueView) -> Seq<
    IssueView,
>
    decreases items.len(),
{
    if items.len() == 0 {
        seq![]
    } else {
        each_issue(items.drop_last(), f) + seq![f(items.last())]
    }
}

// ---------------------------------------------------------------------------
// Ruff
// ---------------------------------------------------------------------------

/// Ruff's severity by code prefix: `E` and `F` are errors, anything else a
/// warning.
pub open spec fn ruff_severity(code: Option<Seq<char>>) -> Severity {
    match code {
        Some(c) => if starts_with(c, seq!['E']) || starts_with(c, seq!['F']) {
            Severity::Error
        } else {
            Severity::Warning
        },
        None => Severity::Warning,
    }
}

/// Ruff's fix: safe when its applicability is `safe`. A `fix` member that
/// is present gives a fix even when it is `null`.
pub open spec fn ruff_fix(f: Option<JsonValue>) -> Option<FixView> {
    match f {
        Some(fv) => Some(
            FixView {
                kind: if json_str_opt(json_get(fv, "applicability"@)) == Some("safe"@) {
                    FixKind::Safe
                } else {
                    FixKind::Unsafe
                },
                description: str_or(json_str_opt(json_get(fv, "message"@)), "Fix available"@),
                replacement: None,
            },
        ),
        None => None,
    }
}

/// The issue of one Ruff diagnostic.
pub open spec fn ruff_issue(d: JsonValue) -> IssueView {
    let code = json_str_opt(json_get(d, "code"@));
    let base = plain_issue(
        str_or(json_str_opt(json_get(d, "filename"@)), "<unknown>"@),
        ruff_severity(code),
        str_or(json_str_opt(json_get(d, "message"@)), "Unknown issue"@),
        "ruff"@,
    );
    let loc = json_get(d, "location"@);
    let end = json_get(d, "end_location"@);
    with_fix(
        to_loc(
            at_loc(
                with_code(base, code),
                u32_of(json_u64_opt(json_get_opt(loc, "row"@))),
                u32_of(json_u64_opt(json_get_opt(loc, "column"@))),
            ),
            u32_of(json_u64_opt(json_get_opt(end, "row"@))),
            u32_of(json_u64_opt(json_get_opt(end, "column"@))),
        ),
        ruff_fix(json_get(d, "fix"@)),
    )
}

/// The issue of one Ruff diagnostic.
fn ruff_diag(d: &JsonValue) -> (r: CheckIssue)
    ensures
        r@ == ruff_issue(*d),
{
    let code = owned_opt(get_str(d, "code"));
    let severity = match &code {
        Some(c) => if str_starts_with(c.as_str(), "E") || str_starts_with(c.as_str(), "F") {
            Severity::Error
        } else {
            Severity::Warning
        },
        None => Severity::Warning,
    };
    proof {
        reveal_strlit("E");
        reveal_strlit("F");
        assert("E"@ =~= seq!['E']);
        assert("F"@ =~= seq!['F']);
    }
    assert(severity == ruff_severity(crate::output::opt_view(code)));
    let fix = match d.get("fix") {
        Some(f) => {
            let safe = match get_str(f, "applicability") {
                Some(a) => str_eq(a, "safe"),
                None => false,
            };
            Some(
                FixSuggestion {
                    kind: if safe {
                        FixKind::Safe
                    } else {
                        FixKind::Unsafe
                    },
                    description: owned_or(get_str(f, "message"), "Fix available"),
                    replacement: None,
                },
            )
        },
        None => None,
    };
    let issue = CheckIssue::new(
        owned_or(get_str(d, "filename"), "<unknown>"),
        severity,
        owned_or(get_str(d, "message"), "Unknown issue"),
        String::from_str("ruff"),
    );
    let issue = set_code(issue, code);
    let issue = set_at(issue, get_u32_in(d, "location", "row"), get_u32_in(d, "location", "column"));
    let issue = set_to(
        issue,
        get_u32_in(d, "end_location", "row"),
        get_u32_in(d, "end_location", "column"),
    );
    set_fix(issue, fix)
}

/// Issues for each diagnostic, in order.
fn issues_for(items: &Vec<JsonValue>, kind: u8) -> (r: Vec<CheckIssue>)
    requires
        kind < 3,
    ensures
        issue_views(r@) == each_issue(items@, item_issue(kind)),
{
    let mut r: Vec<CheckIssue> = Vec::new();
    let mut i: usize = 0;
    while i < items.len()
        invariant
            i <= items@.len(),
            kind < 3,
            issue_views(r@) == each_issue(items@.take(i as int), item_issue(kind)),
        decreases items.len() - i,
    {
        assert(items@.take(i + 1).drop_last() =~= items@.take(i as int));
        assert(items@.take(i + 1).last() == items@[i as int]);
        let issue = if kind == 0 {
            ruff_diag(&items[i])
        } else if kind == 1 {
            gitleaks_finding(&items[i])
        } else {
            biome_diag(&items[i])
        };
        let ghost o = r@;
        r.push(issue);
        assert(issue_views(r@) =~= issue_views(o) + seq![issue@]);
        i += 1;
    }
    assert(items@.take(items@.len() as int) =~= items@);
    r
}

/// The per-item issue of the array reports: Ruff (0), gitleaks (1) and
/// Biome (2).
pub open spec fn item_issue(kind: u8) -> spec_fn(JsonValue) -> IssueView {
    if kind == 0 {
        |d: JsonValue| ruff_issue(d)
    } else if kind == 1 {
        |d: JsonValue| gitleaks_issue(d)
    } else {
        |d: JsonValue| biome_issue(d)
    }
}

/// Parse Ruff's JSON output (an array of diagnostics) into issues, one per
/// diagnostic. `report` is the array, or the reason it could not be read.
pub fn ruff_issues_from(report: Result<Vec<JsonValue>, String>) -> (r: Result<
    Vec<CheckIssue>,
    CheckerError,
>)
    ensures
        report is Ok <==> r is Ok,
        r matches Ok(v) ==> issue_views(v@) == each_issue(
            report->Ok_0@,
            |d: JsonValue| ruff_issue(d),
        ),
        r matches Err(e) ==> invalid_json("ruff"@, report->Err_0@, e),
{
    match report {
        Ok(items) => {
            let r = issues_for(&items, 0);
            assert(item_issue(0) == |d: JsonValue| ruff_issue(d));
            Ok(r)
        },
        Err(e) => Err(parse_failed("ruff", "Invalid JSON: ", e.as_str())),
    }
}

// ---------------------------------------------------------------------------
// gitleaks
// ---------------------------------------------------------------------------

/// The issue of one gitleaks finding.
pub open spec fn gitleaks_issue(f: JsonValue) -> IssueView {
    let description = str_or(json_str_opt(json_get(f, "Description"@)), "Secret detected"@);
    let base = plain_issue(
        str_or(json_str_opt(json_get(f, "File"@)), "<unknown>"@),
        Severity::Error,
        "Potential secret detected: "@ + description
            + ". Remove the secret and rotate credentials immediately."@,
        "secrets"@,
    );
    to_loc(
        at_loc(
            with_code(base, json_str_opt(json_get(f, "RuleID"@))),
            u32_of(json_u64_opt(json_get(f, "StartLine"@))),
            u32_of(json_u64_opt(json_get(f, "StartColumn"@))),
        ),
        u32_of(json_u64_opt(json_get(f, "EndLine"@))),
        u32_of(json_u64_opt(json_get(f, "EndColumn"@))),
    )
}

/// Two findings that agree on every member but `Secret` and `Match`.
pub open spec fn same_but_secret(a: JsonValue, b: JsonValue) -> bool {
    forall|k: Seq<char>| k != "Secret"@ && k != "Match"@ ==> #[trigger] json_get(a, k) == json_get(b, k)
}

/// No secret reaches a report: a finding's issue does not depend on its
/// `Secret` or `Match` members, and it is always an error from `secrets`.
pub proof fn law_gitleaks_secret_unused(a: JsonValue, b: JsonValue)
    requires
        same_but_secret(a, b),
    ensures
        gitleaks_issue(a) == gitleaks_issue(b),
        gitleaks_issue(a).severity == Severity::Error,
        gitleaks_issue(a).source == "secrets"@,
{
    reveal_strlit("Secret");
    reveal_strlit("Match");
    reveal_strlit("Description");
    reveal_strlit("File");
    reveal_strlit("RuleID");
    reveal_strlit("StartLine");
    reveal_strlit("StartColumn");
    reveal_strlit("EndLine");
    reveal_strlit("EndColumn");
    assert("Description"@.len() != "Secret"@.len() && "Description"@.len() != "Match"@.len());
    assert("File"@.len() != "Secret"@.len() && "File"@.len() != "Match"@.len());
    assert("StartLine"@.len() != "Secret"@.len() && "StartLine"@.len() != "Match"@.len());
    assert("StartColumn"@.len() != "Secret"@.len() && "StartColumn"@.len() != "Match"@.len());
    assert("EndLine"@.len() != "Secret"@.len() && "EndLine"@.len() != "Match"@.len());
    assert("EndColumn"@.len() != "Secret"@.len() && "EndColumn"@.len() != "Match"@.len());
    assert("RuleID"@[0] != "Secret"@[0] && "RuleID"@.len() != "Match"@.len());
    lemma_same_member(a, b, "Description"@);
    lemma_same_member(a, b, "File"@);
    lemma_same_member(a, b, "RuleID"@);
    lemma_same_member(a, b, "StartLine"@);
    lemma_same_member(a, b, "StartColumn"@);
    lemma_same_member(a, b, "EndLine"@);
    lemma_same_member(a, b, "EndColumn"@);
}

proof fn lemma_same_member(a: JsonValue, b: JsonValue, k: Seq<char>)
    requires
        same_but_secret(a, b),
        k != "Secret"@,
        k != "Match"@,
    ensures
        json_get(a, k) == json_get(b, k),
{
}

/// Two gitleaks reports whose findings differ only in their `Secret` and
/// `Match` members give the same issues.
pub proof fn law_gitleaks_reports_secret_unused(xs: Seq<JsonValue>, ys: Seq<JsonValue>)
    requires
        xs.len() == ys.len(),
        forall|i: int| 0 <= i < xs.len() ==> same_but_secret(#[trigger] xs[i], ys[i]),
    ensures
        each_issue(xs, |d: JsonValue| gitleaks_issue(d)) == each_issue(ys, |d: JsonValue| gitleaks_issue(d)),
    decreases xs.len(),
{
    if xs.len() > 0 {
        law_gitleaks_secret_unused(xs.last(), ys.last());
        assert(same_but_secret(xs[xs.len() - 1], ys[xs.len() - 1]));
        law_gitleaks_reports_secret_unused(xs.drop_last(), ys.drop_last());
    }
}

/// The issue of one gitleaks finding.
fn gitleaks_finding(f: &JsonValue) -> (r: CheckIssue)
    ensures
        r@ == gitleaks_issue(*f),
{
    let description = owned_or(get_str(f, "Description"), "Secret detected");
    let mut message = String::new();
    append(&mut message, "Potential secret detected: ");
    append(&mut message, description.as_str());
    append(&mut message, ". Remove the secret and rotate credentials immediately.");
    let issue = CheckIssue::new(
        owned_or(get_str(f, "File"), "<unknown>"),
        Severity::Error,
        message,
        String::from_str("secrets"),
    );
    let issue = set_code(issue, owned_opt(get_str(f, "RuleID")));
    let issue = set_at(issue, get_u32(f, "StartLine"), get_u32(f, "StartColumn"));
    set_to(issue, get_u32(f, "EndLine"), get_u32(f, "EndColumn"))
}

/// Parse gitleaks' JSON report (an array of findings) into issues, one per
/// finding.
pub fn gitleaks_issues_from(report: Result<Vec<JsonValue>, String>) -> (r: Result<
    Vec<CheckIssue>,
    CheckerError,
>)
    ensures
        report is Ok <==> r is Ok,
        r matches Ok(v) ==> issue_views(v@) == each_issue(
            report->Ok_0@,
            |d: JsonValue| gitleaks_issue(d),
        ),
        r matches Err(e) ==> invalid_json("secrets"@, report->Err_0@, e),
{
    match report {
        Ok(items) => {
            let r = issues_for(&items, 1);
            assert(item_issue(1) == |d: JsonValue| gitleaks_issue(d));
            Ok(r)
        },
        Err(e) => Err(parse_failed("secrets", "Invalid JSON: ", e.as_str())),
    }
}


// ---------------------------------------------------------------------------
// Stylelint
// ---------------------------------------------------------------------------

/// A tool's severity word, or warning when there is none.
pub open spec fn severity_or_warning(o: Option<Seq<char>>) -> Severity {
    match o {
        Some(s) => spec_map_severity(s),
        None => Severity::Warning,
    }
}

/// The issue of one Stylelint warning in `file`.
pub open spec fn stylelint_warning_issue(file: Seq<char>, w: JsonValue) -> IssueView {
    at_loc(
        with_code(
            plain_issue(
                file,
                severity_or_warning(json_str_opt(json_get(w, "severity"@))),
                str_or(json_str_opt(json_get(w, "text"@)), "Unknown issue"@),
                "stylelint"@,
            ),
            json_str_opt(json_get(w, "rule"@)),
        ),
        u32_of(json_u64_opt(json_get(w, "line"@))),
        u32_of(json_u64_opt(json_get(w, "column"@))),
    )
}

/// The issues of the warnings of one file.
pub open spec fn stylelint_warnings(file: Seq<char>, ws: Seq<JsonValue>) -> Seq<IssueView>
    decreases ws.len(),
{
    if ws.len() == 0 {
        seq![]
    } else {
        stylelint_warnings(file, ws.drop_last()) + seq![stylelint_warning_issue(file, ws.last())]
    }
}

/// The issues of one Stylelint result (one file).
pub open spec fn stylelint_result_issues(r: JsonValue) -> Seq<IssueView> {
    let file = str_or(json_str_opt(json_get(r, "source"@)), "<unknown>"@);
    match json_array_opt(json_get(r, "warnings"@)) {
        Some(ws) => stylelint_warnings(file, ws),
        None => seq![],
    }
}

/// The issues of all Stylelint results, in order.
pub open spec fn stylelint_issues(results: Seq<JsonValue>) -> Seq<IssueView>
    decreases results.len(),
{
    if results.len() == 0 {
        seq![]
    } else {
        stylelint_issues(results.drop_last()) + stylelint_result_issues(results.last())
    }
}

/// A tool's severity word, or warning.
fn severity_of(o: Option<&str>) -> (r: Severity)
    ensures
        r == severity_or_warning(
            match o {
                Some(s) => Some(s@),
                None => None,
            },
        ),
{
    match o {
        Some(s) => map_severity(s),
        None => Severity::Warning,
    }
}

/// Appends the issues of one Stylelint result.
fn push_stylelint_result(out: &mut Vec<CheckIssue>, r: &JsonValue)
    ensures
        issue_views(final(out)@) == issue_views(old(out)@) + stylelint_result_issues(*r),
{
    let file = owned_or(get_str(r, "source"), "<unknown>");
    let ghost base = issue_views(out@);
    match r.get("warnings") {
        Some(wv) => match wv.as_array() {
            Some(ws) => {
                let mut i: usize = 0;
                while i < ws.len()
                    invariant
                        i <= ws@.len(),
                        issue_views(out@) == base + stylelint_warnings(file@, ws@.take(i as int)),
                    decreases ws.len() - i,
                {
                    let w = &ws[i];
                    let issue = CheckIssue::new(
                        file.clone(),
                        severity_of(get_str(w, "severity")),
                        owned_or(get_str(w, "text"), "Unknown issue"),
                        String::from_str("stylelint"),
                    );
                    let issue = set_code(issue, owned_opt(get_str(w, "rule")));
                    let issue = set_at(issue, get_u32(w, "line"), get_u32(w, "column"));
                    let ghost o = out@;
                    out.push(issue);
                    proof {
                        assert(issue_views(out@) =~= issue_views(o) + seq![issue@]);
                        assert(ws@.take(i + 1).drop_last() =~= ws@.take(i as int));
                        assert(ws@.take(i + 1).last() == ws@[i as int]);
                    }
                    i += 1;
                }
                assert(ws@.take(ws@.len() as int) =~= ws@);
            },
            None => {
                assert(issue_views(out@) =~= base + Seq::<IssueView>::empty());
            },
        },
        None => {
            assert(issue_views(out@) =~= base + Seq::<IssueView>::empty());
        },
    }
}

/// Parse Stylelint's JSON report (an array of per-file results) into
/// issues, one per warning.
pub fn stylelint_issues_from(report: Result<Vec<JsonValue>, String>) -> (r: Result<
    Vec<CheckIssue>,
    CheckerError,
>)
    ensures
        report is Ok <==> r is Ok,
        r matches Ok(v) ==> issue_views(v@) == stylelint_issues(report->Ok_0@),
        r matches Err(e) ==> invalid_json("stylelint"@, report->Err_0@, e),
{
    match report {
        Ok(results) => {
            let mut out: Vec<CheckIssue> = Vec::new();
            let mut i: usize = 0;
            while i < results.len()
                invariant
                    i <= results@.len(),
                    issue_views(out@) == stylelint_issues(results@.take(i as int)),
                decreases results.len() - i,
            {
                push_stylelint_result(&mut out, &results[i]);
                assert(results@.take(i + 1).drop_last() =~= results@.take(i as int));
                assert(results@.take(i + 1).last() == results@[i as int]);
                i += 1;
            }
            assert(results@.take(results@.len() as int) =~= results@);
            Ok(out)
        },
        Err(e) => Err(parse_failed("stylelint", "Invalid JSON: ", e.as_str())),
    }
}

// ---------------------------------------------------------------------------
// PHPStan
// ---------------------------------------------------------------------------

/// The issue of one PHPStan message in `file`: an error, at column 1 of its
/// line when the line is known.
pub open spec fn phpstan_message_issue(file: Seq<char>, m: JsonValue) -> IssueView {
    let base = plain_issue(
        file,
        Severity::Error,
        str_or(json_str_opt(json_get(m, "message"@)), "Unknown issue"@),
        "phpstan"@,
    );
    match u32_of(json_u64_opt(json_get(m, "line"@))) {
        Some(l) => IssueView { line: Some(l), column: Some(1), ..base },
        None => base,
    }
}

/// The issues of the messages of one file.
pub open spec fn phpstan_messages(file: Seq<char>, ms: Seq<JsonValue>) -> Seq<IssueView>
    decreases ms.len(),
{
    if ms.len() == 0 {
        seq![]
    } else {
        phpstan_messages(file, ms.drop_last()) + seq![phpstan_message_issue(file, ms.last())]
    }
}

/// The issues of the `files` member, file by file.
pub open spec fn phpstan_files(fs: Seq<(String, JsonValue)>) -> Seq<IssueView>
    decreases fs.len(),
{
    if fs.len() == 0 {
        seq![]
    } else {
        phpstan_files(fs.drop_last()) + match json_array_opt(json_get(fs.last().1, "messages"@)) {
            Some(ms) => phpstan_messages(fs.last().0@, ms),
            None => seq![],
        }
    }
}

/// The issues of the general `errors`: each string is a project error.
pub open spec fn phpstan_errors(es: Seq<JsonValue>) -> Seq<IssueView>
    decreases es.len(),
{
    if es.len() == 0 {
        seq![]
    } else {
        phpstan_errors(es.drop_last()) + match json_str(es.last()) {
            Some(m) => seq![plain_issue("<project>"@, Severity::Error, m, "phpstan"@)],
            None => seq![],
        }
    }
}

/// All issues of a PHPStan report: the file messages, then the general
/// errors.
pub open spec fn phpstan_issues(v: JsonValue) -> Seq<IssueView> {
    (match json_object_opt(json_get(v, "files"@)) {
        Some(fs) => phpstan_files(fs),
        None => seq![],
    }) + match json_array_opt(json_get(v, "errors"@)) {
        Some(es) => phpstan_errors(es),
        None => seq![],
    }
}

/// Appends the issues of one file's messages.
fn push_phpstan_file(out: &mut Vec<CheckIssue>, file: &String, data: &JsonValue)
    ensures
        issue_views(final(out)@) == issue_views(old(out)@) + match json_array_opt(
            json_get(*data, "messages"@),
        ) {
            Some(ms) => phpstan_messages(file@, ms),
            None => seq![],
        },
{
    let ghost base = issue_views(out@);
    match data.get("messages") {
        Some(mv) => match mv.as_array() {
            Some(ms) => {
                let mut i: usize = 0;
                while i < ms.len()
                    invariant
                        i <= ms@.len(),
                        issue_views(out@) == base + phpstan_messages(file@, ms@.take(i as int)),
                    decreases ms.len() - i,
                {
                    let m = &ms[i];
                    let issue = CheckIssue::new(
                        file.clone(),
                        Severity::Error,
                        owned_or(get_str(m, "message"), "Unknown issue"),
                        String::from_str("phpstan"),
                    );
                    let issue = match get_u32(m, "line") {
                        Some(l) => issue.at(l, 1),
                        None => issue,
                    };
                    let ghost o = out@;
                    out.push(issue);
                    proof {
                        assert(issue_views(out@) =~= issue_views(o) + seq![issue@]);
                        assert(ms@.take(i + 1).drop_last() =~= ms@.take(i as int));
                        assert(ms@.take(i + 1).last() == ms@[i as int]);
                    }
                    i += 1;
                }
                assert(ms@.take(ms@.len() as int) =~= ms@);
            },
            None => {
                assert(issue_views(out@) =~= base + Seq::<IssueView>::empty());
            },
        },
        None => {
            assert(issue_views(out@) =~= base + Seq::<IssueView>::empty());
        },
    }
}

/// Parse PHPStan's JSON report into issues.
pub fn phpstan_issues_from(report: Result<JsonValue, String>) -> (r: Result<
    Vec<CheckIssue>,
    CheckerError,
>)
    ensures
        report is Ok <==> r is Ok,
        r matches Ok(v) ==> issue_views(v@) == phpstan_issues(report->Ok_0),
        r matches Err(e) ==> invalid_json("phpstan"@, report->Err_0@, e),
{
    let value = match report {
        Ok(v) => v,
        Err(e) => return Err(parse_failed("phpstan", "Invalid JSON: ", e.as_str())),
    };
    let mut out: Vec<CheckIssue> = Vec::new();
    match value.get("files") {
        Some(fv) => match fv.as_object() {
            Some(fs) => {
                let mut i: usize = 0;
                while i < fs.len()
                    invariant
                        i <= fs@.len(),
                        issue_views(out@) == phpstan_files(fs@.take(i as int)),
                    decreases fs.len() - i,
                {
                    push_phpstan_file(&mut out, &fs[i].0, &fs[i].1);
                    assert(fs@.take(i + 1).drop_last() =~= fs@.take(i as int));
                    assert(fs@.take(i + 1).last() == fs@[i as int]);
                    i += 1;
                }
                assert(fs@.take(fs@.len() as int) =~= fs@);
            },
            None => {},
        },
        None => {},
    }
    let ghost mid = issue_views(out@);
    assert(mid == match json_object_opt(json_get(value, "files"@)) {
        Some(fs) => phpstan_files(fs),
        None => seq![],
    });
    match value.get("errors") {
        Some(ev) => match ev.as_array() {
            Some(es) => {
                let mut i: usize = 0;
                while i < es.len()
                    invariant
                        i <= es@.len(),
                        issue_views(out@) == mid + phpstan_errors(es@.take(i as int)),
                    decreases es.len() - i,
                {
                    assert(es@.take(i + 1).drop_last() =~= es@.take(i as int));
                    assert(es@.take(i + 1).last() == es@[i as int]);
                    let ghost o = out@;
                    match es[i].as_str() {
                        Some(m) => {
                            let issue = CheckIssue::new(
                                String::from_str("<project>"),
                                Severity::Error,
                                String::from_str(m),
                                String::from_str("phpstan"),
                            );
                            out.push(issue);
                            assert(issue_views(out@) =~= issue_views(o) + seq![issue@]);
                        },
                        None => {
                            assert(issue_views(out@) =~= issue_views(o) + Seq::<IssueView>::empty());
                        },
                    }
                    i += 1;
                }
                assert(es@.take(es@.len() as int) =~= es@);
            },
            None => {
                assert(issue_views(out@) =~= mid + Seq::<IssueView>::empty());
            },
        },
        None => {
            assert(issue_views(out@) =~= mid + Seq::<IssueView>::empty());
        },
    }
    Ok(out)
}


// ---------------------------------------------------------------------------
// Biome
// ---------------------------------------------------------------------------

/// The message of a Biome diagnostic: its `description` member when there
/// is one (a non-string one gives no text), else its `message`.
pub open spec fn biome_message(d: JsonValue) -> Seq<char> {
    str_or(
        match json_get(d, "description"@) {
            Some(x) => json_str(x),
            None => json_str_opt(json_get(d, "message"@)),
        },
        "Unknown issue"@,
    )
}

/// The issue of one Biome diagnostic.
pub open spec fn biome_issue(d: JsonValue) -> IssueView {
    let location = json_get(d, "location"@);
    let (l, c) = match json_get_opt(location, "span"@) {
        Some(sp) => (u32_of(json_u64_opt(json_index(sp, 0))), u32_of(json_u64_opt(json_index(sp, 1)))),
        None => (None, None),
    };
    let file = str_or(
        json_str_opt(json_get_opt(json_get_opt(location, "path"@), "file"@)),
        "<unknown>"@,
    );
    let fix = if json_bool_opt(json_get(d, "fixable"@)) == Some(true) {
        Some(FixView { kind: FixKind::Safe, description: "Biome safe fix available"@, replacement: None })
    } else {
        None
    };
    with_fix(
        at_loc(
            with_code(
                plain_issue(
                    file,
                    severity_or_warning(json_str_opt(json_get(d, "severity"@))),
                    biome_message(d),
                    "biome"@,
                ),
                json_str_opt(json_get(d, "category"@)),
            ),
            l,
            c,
        ),
        fix,
    )
}

/// The issues of a Biome report: one per item of its `diagnostics` array.
pub open spec fn biome_issues(v: JsonValue) -> Seq<IssueView> {
    match json_array_opt(json_get(v, "diagnostics"@)) {
        Some(ds) => each_issue(ds, |d: JsonValue| biome_issue(d)),
        None => seq![],
    }
}

/// The issue of one Biome diagnostic.
fn biome_diag(d: &JsonValue) -> (r: CheckIssue)
    ensures
        r@ == biome_issue(*d),
{
    let message = match d.get("description") {
        Some(x) => owned_or(x.as_str(), "Unknown issue"),
        None => owned_or(get_str(d, "message"), "Unknown issue"),
    };
    let (file, l, c) = match d.get("location") {
        Some(loc) => {
            let file = match loc.get("path") {
                Some(p) => owned_or(get_str(p, "file"), "<unknown>"),
                None => String::from_str("<unknown>"),
            };
            let (l, c) = match loc.get("span") {
                Some(sp) => {
                    let l = match sp.at(0) {
                        Some(x) => match x.as_u64() {
                            Some(n) => Some(n as u32),
                            None => None,
                        },
                        None => None,
                    };
                    let c = match sp.at(1) {
                        Some(x) => match x.as_u64() {
                            Some(n) => Some(n as u32),
                            None => None,
                        },
                        None => None,
                    };
                    (l, c)
                },
                None => (None, None),
            };
            (file, l, c)
        },
        None => (String::from_str("<unknown>"), None, None),
    };
    let fixable = match d.get("fixable") {
        Some(f) => f.as_bool() == Some(true),
        None => false,
    };
    let fix = if fixable {
        Some(
            FixSuggestion {
                kind: FixKind::Safe,
                description: String::from_str("Biome safe fix available"),
                replacement: None,
            },
        )
    } else {
        None
    };
    let issue = CheckIssue::new(
        file,
        severity_of(get_str(d, "severity")),
        message,
        String::from_str("biome"),
    );
    let issue = set_code(issue, owned_opt(get_str(d, "category")));
    let issue = set_at(issue, l, c);
    set_fix(issue, fix)
}

/// The text from the first `{` of a report, which is read again when the
/// whole report is not JSON.
pub open spec fn spec_biome_retry_text(output: Seq<char>) -> Option<Seq<char>> {
    match find(output, seq!['{']) {
        Some(i) => Some(output.skip(i)),
        None => None,
    }
}

/// The text from the first `{` of a Biome report, if it has one.
pub fn biome_retry_text(output: &str) -> (r: Option<String>)
    ensures
        r matches Some(t) ==> spec_biome_retry_text(output@) == Some(t@),
        r is None ==> spec_biome_retry_text(output@) is None,
{
    let v = to_chars(output);
    let brace = ['{'];
    assert(brace@ =~= seq!['{']);
    let n = v.len();
    match find_exec(&v, &brace) {
        Some(i) => {
            proof {
                crate::text::lemma_find(v@, seq!['{']);
            }
            assert(v@.skip(i as int) =~= v@.subrange(i as int, n as int));
            Some(string_of(&v, i, n))
        },
        None => None,
    }
}

/// Parse Biome's JSON report into issues. `whole` is the report read as
/// JSON; when it is not JSON, `retry` is the text from its first `{` read
/// as JSON (`None` when there is no `{`, which means no issues).
pub fn biome_issues_from(
    whole: Result<JsonValue, String>,
    retry: Option<Result<JsonValue, String>>,
) -> (r: Result<Vec<CheckIssue>, CheckerError>)
    ensures
        whole matches Ok(v) ==> r matches Ok(is) && issue_views(is@) == biome_issues(v),
        whole is Err ==> match retry {
            None => r matches Ok(is) && is@.len() == 0,
            Some(Ok(v)) => r matches Ok(is) && issue_views(is@) == biome_issues(v),
            Some(Err(e)) => r matches Err(err) && err matches CheckerError::ParseFailed {
                provider,
                reason,
            } && provider@ == "biome"@ && reason@ == "Invalid JSON output: "@ + e@,
        },
{
    let value = match whole {
        Ok(v) => v,
        Err(_) => match retry {
            None => return Ok(Vec::new()),
            Some(Ok(v)) => v,
            Some(Err(e)) => return Err(parse_failed("biome", "Invalid JSON output: ", e.as_str())),
        },
    };
    match value.get("diagnostics") {
        Some(dv) => match dv.as_array() {
            Some(ds) => {
                let r = issues_for(ds, 2);
                assert(item_issue(2) == |d: JsonValue| biome_issue(d));
                Ok(r)
            },
            None => {
                let r: Vec<CheckIssue> = Vec::new();
                assert(issue_views(r@) =~= Seq::<IssueView>::empty());
                Ok(r)
            },
        },
        None => {
            let r: Vec<CheckIssue> = Vec::new();
            assert(issue_views(r@) =~= Seq::<IssueView>::empty());
            Ok(r)
        },
    }
}

// ---------------------------------------------------------------------------
// Cargo / Clippy
// ---------------------------------------------------------------------------

/// The first span marked primary.
pub open spec fn first_primary(ss: Seq<JsonValue>) -> Option<JsonValue>
    decreases ss.len(),
{
    if ss.len() == 0 {
        None
    } else if json_bool_opt(json_get(ss[0], "is_primary"@)) == Some(true) {
        Some(ss[0])
    } else {
        first_primary(ss.drop_first())
    }
}

/// The span an issue is placed at: the first primary span, else the first.
pub open spec fn primary_span(spans: Option<Seq<JsonValue>>) -> Option<JsonValue> {
    match spans {
        None => None,
        Some(ss) => match first_primary(ss) {
            Some(s) => Some(s),
            None => if ss.len() > 0 {
                Some(ss[0])
            } else {
                None
            },
        },
    }
}

/// The fix of a span: safe for a machine-applicable suggestion, unsafe for
/// one that may be incorrect.
pub open spec fn cargo_fix(span: Option<JsonValue>) -> Option<FixView> {
    let app = json_str_opt(json_get_opt(span, "suggestion_applicability"@));
    if app == Some("MachineApplicable"@) || app == Some("MaybeIncorrect"@) {
        Some(
            FixView {
                kind: if app == Some("MachineApplicable"@) {
                    FixKind::Safe
                } else {
                    FixKind::Unsafe
                },
                description: "Clippy suggestion"@,
                replacement: json_str_opt(json_get_opt(span, "suggested_replacement"@)),
            },
        )
    } else {
        None
    }
}

/// The issue of one Cargo message: only compiler messages with a
/// diagnostic that is not a note, help or failure note give one.
pub open spec fn cargo_issue(msg: JsonValue) -> Option<IssueView> {
    if json_str_opt(json_get(msg, "reason"@)) != Some("compiler-message"@) {
        None
    } else {
        match json_get(msg, "message"@) {
            None => None,
            Some(d) => {
                let level = str_or(json_str_opt(json_get(d, "level"@)), "warning"@);
                if level == "note"@ || level == "help"@ || level == "failure-note"@ {
                    None
                } else {
                    let ps = primary_span(json_array_opt(json_get(d, "spans"@)));
                    let file = str_or(json_str_opt(json_get_opt(ps, "file_name"@)), "<unknown>"@);
                    Some(
                        with_fix(
                            at_loc(
                                with_code(
                                    plain_issue(
                                        file,
                                        spec_map_severity(level),
                                        str_or(
                                            json_str_opt(json_get(d, "message"@)),
                                            "Unknown issue"@,
                                        ),
                                        "clippy"@,
                                    ),
                                    json_str_opt(json_get_opt(json_get(d, "code"@), "code"@)),
                                ),
                                u32_of(json_u64_opt(json_get_opt(ps, "line_start"@))),
                                u32_of(json_u64_opt(json_get_opt(ps, "column_start"@))),
                            ),
                            cargo_fix(ps),
                        ),
                    )
                }
            },
        }
    }
}

/// The issues of the messages that were read as JSON, in order.
pub open spec fn cargo_issues(msgs: Seq<Option<JsonValue>>) -> Seq<IssueView>
    decreases msgs.len(),
{
    if msgs.len() == 0 {
        seq![]
    } else {
        cargo_issues(msgs.drop_last()) + match msgs.last() {
            Some(v) => match cargo_issue(v) {
                Some(i) => seq![i],
                None => seq![],
            },
            None => seq![],
        }
    }
}

/// The lines of Cargo's output that may hold a JSON message: trimmed, not
/// empty, starting with `{`.
pub open spec fn spec_cargo_message_lines(ls: Seq<Seq<char>>) -> Seq<Seq<char>>
    decreases ls.len(),
{
    if ls.len() == 0 {
        seq![]
    } else {
        let t = crate::text::trim(ls.last());
        spec_cargo_message_lines(ls.drop_last()) + if t.len() > 0 && t[0] == '{' {
            seq![t]
        } else {
            seq![]
        }
    }
}

/// The lines of Cargo's output that may hold a JSON message.
pub fn cargo_message_lines(output: &str) -> (r: Vec<String>)
    ensures
        crate::text::strs(r@) == spec_cargo_message_lines(crate::text::lines(output@)),
{
    let chars = to_chars(output);
    let ls = crate::text::lines_vec(&chars);
    let ghost vs = crate::text::views(ls@);
    let mut out: Vec<String> = Vec::new();
    let mut i: usize = 0;
    while i < ls.len()
        invariant
            i <= ls@.len(),
            vs == crate::text::views(ls@),
            vs == crate::text::lines(output@),
            crate::text::strs(out@) == spec_cargo_message_lines(vs.take(i as int)),
        decreases ls.len() - i,
    {
        assert(vs.take(i + 1).drop_last() =~= vs.take(i as int));
        assert(vs.take(i + 1).last() == ls@[i as int]@);
        let t = crate::text::trim_vec(&ls[i]);
        let ghost o = out@;
        if t.len() > 0 && t[0] == '{' {
            out.push(crate::text::string_from(&t));
            assert(crate::text::strs(out@) =~= crate::text::strs(o) + seq![t@]);
        } else {
            assert(crate::text::strs(out@) =~= crate::text::strs(o) + Seq::<Seq<char>>::empty());
        }
        i += 1;
    }
    assert(vs.take(ls@.len() as int) =~= vs);
    out
}

/// The span an issue is placed at.
fn primary_span_exec(spans: Option<&Vec<JsonValue>>) -> (r: Option<&JsonValue>)
    ensures
        r matches Some(x) ==> primary_span(
            match spans {
                Some(s) => Some(s@),
                None => None,
            },
        ) == Some(*x),
        r is None ==> primary_span(
            match spans {
                Some(s) => Some(s@),
                None => None,
            },
        ) is None,
{
    let ss = match spans {
        Some(ss) => ss,
        None => return None,
    };
    let mut i: usize = 0;
    assert(ss@.skip(0) =~= ss@);
    while i < ss.len()
        invariant
            i <= ss@.len(),
            (match spans {
                Some(s) => Some(s@),
                None => None,
            }) == Some(ss@),
            first_primary(ss@) == first_primary(ss@.skip(i as int)),
        decreases ss.len() - i,
    {
        assert(ss@.skip(i as int)[0] == ss@[i as int]);
        assert(ss@.skip(i as int).drop_first() =~= ss@.skip(i + 1));
        let primary = match ss[i].get("is_primary") {
            Some(p) => p.as_bool() == Some(true),
            None => false,
        };
        if primary {
            return Some(&ss[i]);
        }
        i += 1;
    }
    if ss.len() > 0 {
        Some(&ss[0])
    } else {
        None
    }
}

/// The string member `key` of an optional value.
fn get_str_opt<'a>(v: Option<&'a JsonValue>, key: &str) -> (r: Option<&'a str>)
    ensures
        r matches Some(s) ==> json_str_opt(
            json_get_opt(
                match v {
                    Some(x) => Some(*x),
                    None => None,
                },
                key@,
            ),
        ) == Some(s@),
        r is None ==> json_str_opt(
            json_get_opt(
                match v {
                    Some(x) => Some(*x),
                    None => None,
                },
                key@,
            ),
        ) is None,
{
    match v {
        Some(x) => get_str(x, key),
        None => None,
    }
}

/// The member `key` of an optional value, as `u32`.
fn get_u32_opt(v: Option<&JsonValue>, key: &str) -> (r: Option<u32>)
    ensures
        r == u32_of(
            json_u64_opt(
                json_get_opt(
                    match v {
                        Some(x) => Some(*x),
                        None => None,
                    },
                    key@,
                ),
            ),
        ),
{
    match v {
        Some(x) => get_u32(x, key),
        None => None,
    }
}

/// The issue of one Cargo message, if it gives one.
fn cargo_message(msg: &JsonValue) -> (r: Option<CheckIssue>)
    ensures
        r matches Some(i) ==> cargo_issue(*msg) == Some(i@),
        r is None ==> cargo_issue(*msg) is None,
{
    match get_str(msg, "reason") {
        Some(reason) => if !str_eq(reason, "compiler-message") {
            return None;
        },
        None => return None,
    }
    let d = match msg.get("message") {
        Some(d) => d,
        None => return None,
    };
    let level = owned_or(get_str(d, "level"), "warning");
    if str_eq(level.as_str(), "note") || str_eq(level.as_str(), "help") || str_eq(
        level.as_str(),
        "failure-note",
    ) {
        return None;
    }
    let spans = match d.get("spans") {
        Some(s) => s.as_array(),
        None => None,
    };
    let ps = primary_span_exec(spans);
    let ghost psv = match ps {
        Some(x) => Some(*x),
        None => None,
    };
    assert(psv == primary_span(json_array_opt(json_get(*d, "spans"@))));
    let file = owned_or(get_str_opt(ps, "file_name"), "<unknown>");
    let app = get_str_opt(ps, "suggestion_applicability");
    let (machine, maybe) = match app {
        Some(a) => (str_eq(a, "MachineApplicable"), str_eq(a, "MaybeIncorrect")),
        None => (false, false),
    };
    let fix = if machine || maybe {
        Some(
            FixSuggestion {
                kind: if machine {
                    FixKind::Safe
                } else {
                    FixKind::Unsafe
                },
                description: String::from_str("Clippy suggestion"),
                replacement: owned_opt(get_str_opt(ps, "suggested_replacement")),
            },
        )
    } else {
        None
    };
    let code = match d.get("code") {
        Some(c) => owned_opt(get_str(c, "code")),
        None => None,
    };
    let issue = CheckIssue::new(
        file,
        map_severity(level.as_str()),
        owned_or(get_str(d, "message"), "Unknown issue"),
        String::from_str("clippy"),
    );
    let issue = set_code(issue, code);
    let issue = set_at(issue, get_u32_opt(ps, "line_start"), get_u32_opt(ps, "column_start"));
    let issue = set_fix(issue, fix);
    Some(issue)
}

/// Parse Cargo's JSON message stream into issues. `messages` holds, for
/// each line of `cargo_message_lines`, the line read as JSON, or `None`
/// when it is not JSON (such lines are skipped).
pub fn cargo_issues_from(messages: &[Option<JsonValue>]) -> (r: Vec<CheckIssue>)
    ensures
        issue_views(r@) == cargo_issues(messages@),
{
    let mut out: Vec<CheckIssue> = Vec::new();
    let mut i: usize = 0;
    while i < messages.len()
        invariant
            i <= messages@.len(),
            issue_views(out@) == cargo_issues(messages@.take(i as int)),
        decreases messages.len() - i,
    {
        assert(messages@.take(i + 1).drop_last() =~= messages@.take(i as int));
        assert(messages@.take(i + 1).last() == messages@[i as int]);
        let ghost o = out@;
        match &messages[i] {
            Some(m) => match cargo_message(m) {
                Some(issue) => {
                    out.push(issue);
                    assert(issue_views(out@) =~= issue_views(o) + seq![issue@]);
                },
                None => {
                    assert(issue_views(out@) =~= issue_views(o) + Seq::<IssueView>::empty());
                },
            },
            None => {
                assert(issue_views(out@) =~= issue_views(o) + Seq::<IssueView>::empty());
            },
        }
        i += 1;
    }
    assert(messages@.take(messages@.len() as int) =~= messages@);
    out
}

// ---------------------------------------------------------------------------
// Reports as text
// ---------------------------------------------------------------------------

/// Values as `serde_json` reads them, whose views are `js`.
pub open spec fn read_as(items: Seq<JsonValue>, js: Seq<Json>) -> bool {
    &&& jview_items(items) == js
    &&& forall|k: int| 0 <= k < items.len() ==> json_wf(#[trigger] items[k])
}

/// Parse a tool's JSON output, or say which provider's output is not JSON.
pub fn parse_json_output(output: &str, provider: &str) -> (r: Result<JsonValue, CheckerError>)
    ensures
        match json_parsed(output@) {
            Ok(j) => r matches Ok(v) && jview(v) == j && json_wf(v),
            Err(e) => r matches Err(err) && invalid_json(provider@, e, err),
        },
{
    match parse_json(output) {
        Ok(v) => Ok(v),
        Err(e) => Err(parse_failed(provider, "Invalid JSON: ", e.as_str())),
    }
}

/// Parse Ruff's JSON output (an array of diagnostics) into issues, one per
/// diagnostic.
pub fn parse_ruff_output(output: &str) -> (r: Result<Vec<CheckIssue>, CheckerError>)
    ensures
        match json_array_parsed(output@) {
            Ok(js) => r matches Ok(v) && exists|items: Seq<JsonValue>| #[trigger] read_as(items, js)
                && issue_views(v@) == each_issue(items, |d: JsonValue| ruff_issue(d)),
            Err(e) => r matches Err(err) && invalid_json("ruff"@, e, err),
        },
{
    let report = parse_json_array(output);
    let ghost items = report->Ok_0@;
    let r = ruff_issues_from(report);
    assert(r is Ok ==> read_as(items, json_array_parsed(output@)->Ok_0));
    r
}

/// Parse gitleaks' JSON report (an array of findings) into issues, one per
/// finding.
pub fn parse_gitleaks_output(output: &str) -> (r: Result<Vec<CheckIssue>, CheckerError>)
    ensures
        match json_array_parsed(output@) {
            Ok(js) => r matches Ok(v) && exists|items: Seq<JsonValue>| #[trigger] read_as(items, js)
                && issue_views(v@) == each_issue(items, |d: JsonValue| gitleaks_issue(d)),
            Err(e) => r matches Err(err) && invalid_json("secrets"@, e, err),
        },
{
    let report = parse_json_array(output);
    let ghost items = report->Ok_0@;
    let r = gitleaks_issues_from(report);
    assert(r is Ok ==> read_as(items, json_array_parsed(output@)->Ok_0));
    r
}

/// Parse Stylelint's JSON report (an array of per-file results) into
/// issues, one per warning.
pub fn parse_stylelint_output(output: &str) -> (r: Result<Vec<CheckIssue>, CheckerError>)
    ensures
        match json_array_parsed(output@) {
            Ok(js) => r matches Ok(v) && exists|items: Seq<JsonValue>| #[trigger] read_as(items, js)
                && issue_views(v@) == stylelint_issues(items),
            Err(e) => r matches Err(err) && invalid_json("stylelint"@, e, err),
        },
{
    let report = parse_json_array(output);
    let ghost items = report->Ok_0@;
    let r = stylelint_issues_from(report);
    assert(r is Ok ==> read_as(items, json_array_parsed(output@)->Ok_0));
    r
}

/// Parse PHPStan's JSON report into issues.
pub fn parse_phpstan_output(output: &str) -> (r: Result<Vec<CheckIssue>, CheckerError>)
    ensures
        match json_parsed(output@) {
            Ok(j) => r matches Ok(v) && exists|x: JsonValue| #[trigger] jview(x) == j && json_wf(x)
                && issue_views(v@) == phpstan_issues(x),
            Err(e) => r matches Err(err) && invalid_json("phpstan"@, e, err),
        },
{
    let report = parse_json(output);
    let ghost x = report->Ok_0;
    let r = phpstan_issues_from(report);
    assert(r is Ok ==> jview(x) == json_parsed(output@)->Ok_0);
    r
}

/// What Biome's report gives when read as text: the issues of the whole
/// report read as JSON; when it is not JSON, those of the text from its
/// first `{` (no issues without a `{`); the error when that is not JSON
/// either.
pub open spec fn biome_report_fits(output: Seq<char>, r: Result<Vec<CheckIssue>, CheckerError>) -> bool {
    match json_parsed(output) {
        Ok(j) => r matches Ok(is) && exists|x: JsonValue| #[trigger] jview(x) == j && json_wf(x)
            && issue_views(is@) == biome_issues(x),
        Err(_) => match spec_biome_retry_text(output) {
            None => r matches Ok(is) && is@.len() == 0,
            Some(t) => match json_parsed(t) {
                Ok(j) => r matches Ok(is) && exists|x: JsonValue| #[trigger] jview(x) == j && json_wf(x)
                    && issue_views(is@) == biome_issues(x),
                Err(e) => r matches Err(err) && err matches CheckerError::ParseFailed {
                    provider,
                    reason,
                } && provider@ == "biome"@ && reason@ == "Invalid JSON output: "@ + e,
            },
        },
    }
}

/// Parse Biome's JSON reporter output into issues.
pub fn parse_biome_output(output: &str) -> (r: Result<Vec<CheckIssue>, CheckerError>)
    ensures
        biome_report_fits(output@, r),
{
    let whole = parse_json(output);
    let ghost w = whole->Ok_0;
    let retry = match &whole {
        Ok(_) => None,
        Err(_) => match biome_retry_text(output) {
            Some(t) => Some(parse_json(t.as_str())),
            None => None,
        },
    };
    let ghost rv = retry->Some_0->Ok_0;
    let r = biome_issues_from(whole, retry);
    assert(biome_report_fits(output@, r)) by {
        if json_parsed(output@) is Ok {
            assert(jview(w) == json_parsed(output@)->Ok_0);
        } else if spec_biome_retry_text(output@) is Some {
            let t = spec_biome_retry_text(output@)->Some_0;
            if json_parsed(t) is Ok {
                assert(jview(rv) == json_parsed(t)->Ok_0);
            }
        }
    }
    r
}

/// What Cargo's output gives when read as text: each message line read as
/// JSON, `None` for one that is not.
pub open spec fn cargo_lines_read(ls: Seq<Seq<char>>, ms: Seq<Option<JsonValue>>) -> bool {
    &&& ms.len() == ls.len()
    &&& forall|k: int|
        0 <= k < ls.len() ==> match json_parsed(#[trigger] ls[k]) {
            Ok(j) => ms[k] matches Some(v) && jview(v) == j && json_wf(v),
            Err(_) => ms[k] is None,
        }
}

/// Parse Cargo's JSON message stream into issues: the compiler messages
/// of its lines that are JSON objects, in order.
pub fn parse_cargo_messages(output: &str) -> (r: Vec<CheckIssue>)
    ensures
        exists|ms: Seq<Option<JsonValue>>| #[trigger] cargo_lines_read(
            spec_cargo_message_lines(crate::text::lines(output@)),
            ms,
        ) && issue_views(r@) == cargo_issues(ms),
{
    let ls = cargo_message_lines(output);
    let ghost lv = crate::text::strs(ls@);
    let mut ms: Vec<Option<JsonValue>> = Vec::new();
    let mut i: usize = 0;
    while i < ls.len()
        invariant
            i <= ls@.len(),
            lv == crate::text::strs(ls@),
            cargo_lines_read(lv.take(i as int), ms@),
        decreases ls.len() - i,
    {
        let m = match parse_json(ls[i].as_str()) {
            Ok(v) => Some(v),
            Err(_) => None,
        };
        let ghost before = ms@;
        ms.push(m);
        assert forall|k: int| 0 <= k < i + 1 implies match json_parsed(#[trigger] lv.take(i + 1)[k]) {
            Ok(j) => ms@[k] matches Some(v) && jview(v) == j && json_wf(v),
            Err(_) => ms@[k] is None,
        } by {
            if k < i {
                assert(lv.take(i + 1)[k] == lv.take(i as int)[k]);
                assert(ms@[k] == before[k]);
            } else {
                assert(lv.take(i + 1)[k] == ls@[i as int]@);
            }
        }
        i += 1;
    }
    assert(lv.take(ls@.len() as int) =~= lv);
    cargo_issues_from(ms.as_slice())
}

} // verus!
