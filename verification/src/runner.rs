//! Check runs: which providers run, the status line of each, and the final
//! report. The providers themselves are run concurrently by the program.
use vstd::prelude::*;

use crate::config::CheckConfig;
use crate::detect::ProjectFacts;
use crate::error::CheckerError;
use crate::output::{count_severity, CheckIssue, CheckReport, FixReport, Severity};
use crate::providers::{applicable, detect_applicable_providers, get_provider, registry, spec_slug,
    Provider};
use crate::text::{append, decimal, join, str_eq, strs, usize_to_string};
use crate::providers::{text_less, text_lt};

verus! {

/// Options for a check run.
#[derive(Debug, Clone)]
pub struct RunOptions {
    /// Fix mode — auto-fix safe issues.
    pub fix: bool,
    /// Format mode — check/fix formatting.
    pub format: bool,
    /// Strict mode — treat warnings as errors.
    pub strict: bool,
    /// JSON output mode.
    pub json_output: bool,
    /// CI mode (non-interactive).
    pub is_ci: bool,
    /// File filter (from git --changed / --staged).
    pub file_filter: Option<Vec<String>>,
    /// Specific checker slug to run (overrides detection).
    pub checker: Option<String>,
    /// Number of concurrent jobs.
    pub jobs: Option<usize>,
    /// Check config from appz.json.
    pub check_config: CheckConfig,
}

/// The provider with a slug, if there is one.
pub open spec fn provider_by_slug(slug: Seq<char>) -> Option<Provider> {
    if exists|i: int| 0 <= i < registry().len() && spec_slug(#[trigger] registry()[i]) == slug {
        Some(choose|p: Provider| registry().contains(p) && spec_slug(p) == slug)
    } else {
        None
    }
}

/// The providers not disabled, in order.
pub open spec fn not_disabled(ps: Seq<Provider>, disabled: Seq<Seq<char>>) -> Seq<Provider>
    decreases ps.len(),
{
    if ps.len() == 0 {
        seq![]
    } else {
        not_disabled(ps.drop_last(), disabled) + if disabled.contains(spec_slug(ps.last())) {
            seq![]
        } else {
            seq![ps.last()]
        }
    }
}

/// The first slug of a list that names no provider.
pub open spec fn first_unknown(slugs: Seq<Seq<char>>) -> Option<Seq<char>>
    decreases slugs.len(),
{
    if slugs.len() == 0 {
        None
    } else if provider_by_slug(slugs[0]) is None {
        Some(slugs[0])
    } else {
        first_unknown(slugs.drop_first())
    }
}

/// The providers named by a list of slugs.
pub open spec fn named_providers(slugs: Seq<Seq<char>>) -> Seq<Provider>
    decreases slugs.len(),
{
    if slugs.len() == 0 {
        seq![]
    } else {
        match provider_by_slug(slugs[0]) {
            Some(p) => seq![p] + named_providers(slugs.drop_first()),
            None => seq![],
        }
    }
}

/// Slugs name providers uniquely.
proof fn lemma_slug_unique(p: Provider, q: Provider)
    requires
        spec_slug(p) == spec_slug(q),
    ensures
        p == q,
{
    reveal_strlit("biome");
    reveal_strlit("tsc");
    reveal_strlit("ruff");
    reveal_strlit("clippy");
    reveal_strlit("phpstan");
    reveal_strlit("stylelint");
    reveal_strlit("secrets");
    if p != q {
        match p {
            Provider::Biome => assert(spec_slug(p)[0] == 'b'),
            Provider::TypeScript => assert(spec_slug(p)[0] == 't'),
            Provider::Ruff => assert(spec_slug(p)[0] == 'r'),
            Provider::Clippy => assert(spec_slug(p)[0] == 'c'),
            Provider::PHPStan => assert(spec_slug(p)[1] == 'h'),
            Provider::Stylelint => assert(spec_slug(p)[1] == 't'),
            Provider::SecretScan => assert(spec_slug(p)[1] == 'e'),
        }
        match q {
            Provider::Biome => assert(spec_slug(q)[0] == 'b'),
            Provider::TypeScript => assert(spec_slug(q)[0] == 't'),
            Provider::Ruff => assert(spec_slug(q)[0] == 'r'),
            Provider::Clippy => assert(spec_slug(q)[0] == 'c'),
            Provider::PHPStan => assert(spec_slug(q)[1] == 'h'),
            Provider::Stylelint => assert(spec_slug(q)[1] == 't'),
            Provider::SecretScan => assert(spec_slug(q)[1] == 'e'),
        }
    }
}

/// The provider `get_provider` finds is the one of its slug.
fn lookup_provider(slug: &str) -> (r: Result<Provider, CheckerError>)
    ensures
        match provider_by_slug(slug@) {
            Some(p) => r matches Ok(q) && q == p,
            None => r matches Err(e) && e matches CheckerError::ProviderNotFound { slug: s } && s@
                == slug@,
        },
{
    let r = get_provider(slug);
    proof {
        match r {
            Ok(p) => {
                let i = choose|i: int| 0 <= i < registry().len() && registry()[i] == p;
                assert(spec_slug(registry()[i]) == slug@);
                let q = choose|q: Provider| registry().contains(q) && spec_slug(q) == slug@;
                lemma_slug_unique(p, q);
            },
            Err(_) => {},
        }
    }
    r
}

/// Which providers run: the requested checker; else the configured list
/// (failing on the first unknown slug); else those that apply to the
/// project, less the disabled ones.
pub open spec fn spec_resolve(options: RunOptions, facts: ProjectFacts) -> Result<Seq<Provider>, Seq<char>> {
    match options.checker {
        Some(slug) => match provider_by_slug(slug@) {
            Some(p) => Ok(seq![p]),
            None => Err(slug@),
        },
        None => match options.check_config.providers {
            Some(list) => match first_unknown(strs(list@)) {
                Some(bad) => Err(bad),
                None => Ok(named_providers(strs(list@))),
            },
            None => Ok(
                match options.check_config.disabled {
                    Some(d) => not_disabled(applicable(registry(), facts), strs(d@)),
                    None => applicable(registry(), facts),
                },
            ),
        },
    }
}

/// Whether a slug is listed.
fn slug_listed(list: &Vec<String>, slug: &str) -> (r: bool)
    ensures
        r == strs(list@).contains(slug@),
{
    let mut i: usize = 0;
    while i < list.len()
        invariant
            i <= list@.len(),
            forall|j: int| 0 <= j < i ==> list@[j]@ != slug@,
        decreases list.len() - i,
    {
        if str_eq(list[i].as_str(), slug) {
            assert(strs(list@)[i as int] == slug@);
            return true;
        }
        i += 1;
    }
    assert(!strs(list@).contains(slug@)) by {
        if strs(list@).contains(slug@) {
            let j = choose|j: int| 0 <= j < strs(list@).len() && strs(list@)[j] == slug@;
            assert(list@[j]@ == slug@);
        }
    }
    false
}

/// Resolve which providers to run based on options and project detection.
/// An unknown slug is a `ProviderNotFound` error.
pub fn resolve_providers(options: &RunOptions, facts: &ProjectFacts) -> (r: Result<
    Vec<Provider>,
    CheckerError,
>)
    ensures
        match spec_resolve(*options, *facts) {
            Ok(ps) => r matches Ok(v) && v@ == ps,
            Err(bad) => r matches Err(e) && e matches CheckerError::ProviderNotFound { slug } && slug@
                == bad,
        },
{
    match &options.checker {
        Some(slug) => {
            return match lookup_provider(slug.as_str()) {
                Ok(p) => Ok(vec![p]),
                Err(e) => Err(e),
            };
        },
        None => {},
    }
    match &options.check_config.providers {
        Some(list) => {
            let ghost ss = strs(list@);
            let mut out: Vec<Provider> = Vec::new();
            let mut i: usize = 0;
            assert(ss.skip(0) =~= ss);
            assert(out@ =~= Seq::<Provider>::empty());
            while i < list.len()
                invariant
                    i <= list@.len(),
                    options.checker is None,
                    options.check_config.providers == Some(*list),
                    ss == strs(list@),
                    first_unknown(ss) == first_unknown(ss.skip(i as int)),
                    first_unknown(ss) is None ==> named_providers(ss) == out@ + named_providers(
                        ss.skip(i as int),
                    ),
                decreases list.len() - i,
            {
                assert(ss.skip(i as int)[0] == list@[i as int]@);
                assert(ss.skip(i as int).drop_first() =~= ss.skip(i + 1));
                match lookup_provider(list[i].as_str()) {
                    Ok(p) => {
                        let ghost o = out@;
                        out.push(p);
                        assert(o + named_providers(ss.skip(i as int)) =~= out@ + named_providers(
                            ss.skip(i + 1),
                        ));
                    },
                    Err(e) => return Err(e),
                }
                i += 1;
            }
            assert(ss.skip(i as int) =~= Seq::<Seq<char>>::empty());
            assert(out@ + Seq::<Provider>::empty() =~= out@);
            Ok(out)
        },
        None => {
            let detected = detect_applicable_providers(facts);
            match &options.check_config.disabled {
                Some(d) => {
                    let mut out: Vec<Provider> = Vec::new();
                    let mut i: usize = 0;
                    while i < detected.len()
                        invariant
                            i <= detected@.len(),
                            options.checker is None,
                            options.check_config.providers is None,
                            options.check_config.disabled == Some(*d),
                            detected@ == applicable(registry(), *facts),
                            out@ == not_disabled(detected@.take(i as int), strs(d@)),
                        decreases detected.len() - i,
                    {
                        assert(detected@.take(i + 1).drop_last() =~= detected@.take(i as int));
                        let ghost o = out@;
                        if !slug_listed(d, detected[i].slug()) {
                            out.push(detected[i]);
                            assert(out@ =~= o + seq![detected@[i as int]]);
                        } else {
                            assert(out@ =~= o + Seq::<Provider>::empty());
                        }
                        i += 1;
                    }
                    assert(detected@.take(detected@.len() as int) =~= detected@);
                    Ok(out)
                },
                None => Ok(detected),
            }
        },
    }
}

// ---------------------------------------------------------------------------
// Status lines
// ---------------------------------------------------------------------------

/// `n thing` or `n things`.
pub open spec fn counted(n: nat, thing: Seq<char>) -> Seq<char> {
    decimal(n) + " "@ + thing + if n == 1 {
        seq![]
    } else {
        "s"@
    }
}

/// The details of a status line.
pub open spec fn status_parts(errors: nat, warnings: nat, fixed: Option<usize>) -> Seq<Seq<char>> {
    (if errors > 0 {
        seq![counted(errors, "error"@)]
    } else {
        seq![]
    }) + (if warnings > 0 {
        seq![counted(warnings, "warning"@)]
    } else {
        seq![]
    }) + match fixed {
        Some(f) => if f > 0 {
            seq![decimal(f as nat) + " fixed"@]
        } else {
            seq![]
        },
        None => seq![],
    }
}

/// A per-provider status line: `[k/n] name (time) — details`, the details
/// being `clean` when there is nothing to report.
pub open spec fn spec_status_line(
    completed: nat,
    total: nat,
    name: Seq<char>,
    errors: nat,
    warnings: nat,
    fixed: Option<usize>,
    time: Seq<char>,
) -> Seq<char> {
    let parts = status_parts(errors, warnings, fixed);
    let detail = if parts.len() == 0 {
        "clean"@
    } else {
        join(parts, ", "@)
    };
    "["@ + decimal(completed) + "/"@ + decimal(total) + "] "@ + name + " ("@ + time + ") — "@
        + detail
}

/// `n thing` or `n things`.
fn counted_exec(n: usize, thing: &str) -> (r: String)
    ensures
        r@ == counted(n as nat, thing@),
{
    let mut s = usize_to_string(n);
    append(&mut s, " ");
    append(&mut s, thing);
    if n != 1 {
        append(&mut s, "s");
    }
    proof {
        reveal_strlit("");
    }
    assert(s@ =~= counted(n as nat, thing@));
    s
}

/// Format a per-provider status line; `time` is the duration as shown
/// (seconds to one decimal).
pub fn format_provider_status(
    completed: usize,
    total: usize,
    name: &str,
    errors: usize,
    warnings: usize,
    fixed_count: Option<usize>,
    time: &str,
) -> (r: String)
    ensures
        r@ == spec_status_line(
            completed as nat,
            total as nat,
            name@,
            errors as nat,
            warnings as nat,
            fixed_count,
            time@,
        ),
{
    let mut parts: Vec<String> = Vec::new();
    if errors > 0 {
        parts.push(counted_exec(errors, "error"));
    }
    let ghost p1 = strs(parts@);
    if warnings > 0 {
        parts.push(counted_exec(warnings, "warning"));
    }
    let ghost p2 = strs(parts@);
    match fixed_count {
        Some(fc) => if fc > 0 {
            let mut f = usize_to_string(fc);
            append(&mut f, " fixed");
            parts.push(f);
        },
        None => {},
    }
    assert(strs(parts@) =~= status_parts(errors as nat, warnings as nat, fixed_count));
    let mut line = String::new();
    append(&mut line, "[");
    let a = usize_to_string(completed);
    append(&mut line, a.as_str());
    append(&mut line, "/");
    let b = usize_to_string(total);
    append(&mut line, b.as_str());
    append(&mut line, "] ");
    append(&mut line, name);
    append(&mut line, " (");
    append(&mut line, time);
    append(&mut line, ") — ");
    if parts.len() == 0 {
        append(&mut line, "clean");
    } else {
        let d = join_with(&parts, ", ");
        append(&mut line, d.as_str());
    }
    assert(line@ =~= spec_status_line(
        completed as nat,
        total as nat,
        name@,
        errors as nat,
        warnings as nat,
        fixed_count,
        time@,
    ));
    line
}

/// Strings joined with a separator.
pub(crate) fn join_with(v: &Vec<String>, sep: &str) -> (r: String)
    ensures
        r@ == join(strs(v@), sep@),
{
    let mut s = String::new();
    let mut i: usize = 0;
    let ghost vs = strs(v@);
    while i < v.len()
        invariant
            i <= v@.len(),
            vs == strs(v@),
            s@ == join(vs.take(i as int), sep@),
        decreases v.len() - i,
    {
        let ghost s0 = s@;
        if i > 0 {
            append(&mut s, sep);
        }
        append(&mut s, v[i].as_str());
        proof {
            let t = vs.take(i + 1);
            assert(t.drop_last() =~= vs.take(i as int));
            assert(t.last() == v@[i as int]@);
            if i == 0 {
                assert(s0 =~= Seq::<char>::empty());
                assert(s@ =~= t[0]);
            } else {
                assert(s@ =~= s0 + sep@ + t.last());
            }
        }
        i += 1;
    }
    assert(vs.take(v@.len() as int) =~= vs);
    s
}

// ---------------------------------------------------------------------------
// The final report
// ---------------------------------------------------------------------------

/// The number of issues with a safe fix.
pub open spec fn safe_fixable(is: Seq<CheckIssue>) -> nat
    decreases is.len(),
{
    if is.len() == 0 {
        0
    } else {
        safe_fixable(is.drop_last()) + if is.last().has_safe_fix_spec() {
            1nat
        } else {
            0nat
        }
    }
}

/// Completes a report: its duration, the error and warning counts, and in
/// fix mode a fix report of what was fixed and what safe fixes remain.
pub fn finish_report(report: CheckReport, duration_ms: u64, fix: bool, total_fixed: usize) -> (r:
    CheckReport)
    ensures
        r.issues == report.issues,
        r.duration_ms == duration_ms,
        r.error_count == count_severity(report.issues@, Severity::Error),
        r.warning_count == count_severity(report.issues@, Severity::Warning),
        r.files_checked == report.files_checked,
        r.providers_run == report.providers_run,
        fix ==> (r.fix_report matches Some(f) && f.fixed_count == total_fixed && f.remaining_count
            == safe_fixable(report.issues@) && f.fixed_issues@.len() == 0
            && f.remaining_issues@.len() == 0),
        !fix ==> r.fix_report == report.fix_report,
{
    let mut report = report;
    report.duration_ms = duration_ms;
    report.recount();
    if fix {
        let mut n: usize = 0;
        let mut i: usize = 0;
        while i < report.issues.len()
            invariant
                i <= report.issues@.len(),
                n == safe_fixable(report.issues@.take(i as int)),
                n <= i,
            decreases report.issues.len() - i,
        {
            assert(report.issues@.take(i + 1).drop_last() =~= report.issues@.take(i as int));
            if report.issues[i].has_safe_fix() {
                n += 1;
            }
            i += 1;
        }
        assert(report.issues@.take(report.issues@.len() as int) =~= report.issues@);
        report.fix_report = Some(
            FixReport {
                fixed_count: total_fixed,
                remaining_count: n,
                fixed_issues: Vec::new(),
                remaining_issues: Vec::new(),
            },
        );
    }
    report
}

// ---------------------------------------------------------------------------
// Aggregating provider results
// ---------------------------------------------------------------------------

/// What one provider's run gave: its issues (the remaining ones after a
/// fix), how many it fixed when it fixed, and whether it failed.
#[derive(Debug)]
pub struct ProviderOutcome {
    pub slug: String,
    pub issues: Vec<CheckIssue>,
    pub fixed_count: Option<usize>,
    pub failed: bool,
}

/// A severity's rank: errors highest.
pub open spec fn severity_rank(s: Severity) -> int {
    match s {
        Severity::Hint => 0,
        Severity::Info => 1,
        Severity::Warning => 2,
        Severity::Error => 3,
    }
}

/// Line order: no line first, then by number.
pub open spec fn line_lt(a: Option<u32>, b: Option<u32>) -> bool {
    match (a, b) {
        (None, Some(_)) => true,
        (Some(x), Some(y)) => x < y,
        _ => false,
    }
}

/// Whether `a` sorts strictly before `b`: higher severity first, then by
/// file, then by line.
pub open spec fn issue_lt(a: CheckIssue, b: CheckIssue) -> bool {
    ||| severity_rank(a.severity) > severity_rank(b.severity)
    ||| severity_rank(a.severity) == severity_rank(b.severity) && text_lt(a.file@, b.file@)
    ||| severity_rank(a.severity) == severity_rank(b.severity) && a.file@ == b.file@ && line_lt(a.line, b.line)
}

/// Where a stable insertion puts `x` in `s`: before the first item that `x`
/// sorts strictly before, after all others.
pub open spec fn insert_pos(s: Seq<CheckIssue>, x: CheckIssue) -> int
    decreases s.len(),
{
    if s.len() == 0 {
        0
    } else if issue_lt(x, s[0]) {
        0
    } else {
        1 + insert_pos(s.drop_first(), x)
    }
}

/// The stable sort of issues by that order: each issue, in turn, goes after
/// every earlier one it does not sort strictly before.
pub open spec fn stable_sort(s: Seq<CheckIssue>) -> Seq<CheckIssue>
    decreases s.len(),
{
    if s.len() == 0 {
        s
    } else {
        let t = stable_sort(s.drop_last());
        t.insert(insert_pos(t, s.last()), s.last())
    }
}

/// The issues of the providers that did not fail, in order.
pub open spec fn kept_issues(rs: Seq<ProviderOutcome>) -> Seq<CheckIssue>
    decreases rs.len(),
{
    if rs.len() == 0 {
        Seq::empty()
    } else {
        kept_issues(rs.drop_last()) + if rs.last().failed {
            Seq::empty()
        } else {
            rs.last().issues@
        }
    }
}

/// The sum of the fixed counts of the providers that did not fail.
pub open spec fn fixed_sum(rs: Seq<ProviderOutcome>) -> int
    decreases rs.len(),
{
    if rs.len() == 0 {
        0
    } else {
        fixed_sum(rs.drop_last()) + if rs.last().failed {
            0
        } else {
            match rs.last().fixed_count {
                Some(n) => n as int,
                None => 0,
            }
        }
    }
}

/// The slugs of the providers, in order.
pub open spec fn outcome_slugs(rs: Seq<ProviderOutcome>) -> Seq<Seq<char>> {
    Seq::new(rs.len(), |i: int| rs[i].slug@)
}

proof fn lemma_insert_pos_bound(s: Seq<CheckIssue>, x: CheckIssue)
    ensures
        0 <= insert_pos(s, x) <= s.len(),
    decreases s.len(),
{
    if s.len() > 0 && !issue_lt(x, s[0]) {
        lemma_insert_pos_bound(s.drop_first(), x);
    }
}

proof fn lemma_fixed_sum_grows(rs: Seq<ProviderOutcome>, n: int)
    requires
        0 <= n <= rs.len(),
    ensures
        fixed_sum(rs.take(n)) <= fixed_sum(rs),
    decreases rs.len(),
{
    if n < rs.len() {
        assert(rs.drop_last().take(n) =~= rs.take(n));
        lemma_fixed_sum_grows(rs.drop_last(), n);
    } else {
        assert(rs.take(n) =~= rs);
    }
}

/// Whether `a` sorts strictly before `b`.
fn issue_less(a: &CheckIssue, b: &CheckIssue) -> (r: bool)
    ensures
        r == issue_lt(*a, *b),
{
    let ra: u8 = match a.severity {
        Severity::Hint => 0,
        Severity::Info => 1,
        Severity::Warning => 2,
        Severity::Error => 3,
    };
    let rb: u8 = match b.severity {
        Severity::Hint => 0,
        Severity::Info => 1,
        Severity::Warning => 2,
        Severity::Error => 3,
    };
    if ra != rb {
        return ra > rb;
    }
    if text_less(a.file.as_str(), b.file.as_str()) {
        return true;
    }
    if !str_eq(a.file.as_str(), b.file.as_str()) {
        return false;
    }
    match (a.line, b.line) {
        (None, Some(_)) => true,
        (Some(x), Some(y)) => x < y,
        _ => false,
    }
}

/// Inserts an issue where a stable sort puts it.
fn insert_sorted_issue(out: &mut Vec<CheckIssue>, x: CheckIssue)
    ensures
        final(out)@ == old(out)@.insert(insert_pos(old(out)@, x), x),
{
    let ghost o = out@;
    let mut k: usize = 0;
    assert(o.skip(0) =~= o);
    while k < out.len() && !issue_less(&x, &out[k])
        invariant
            k <= out@.len(),
            out@ == o,
            insert_pos(o, x) == k + insert_pos(o.skip(k as int), x),
        decreases out.len() - k,
    {
        assert(o.skip(k as int)[0] == o[k as int]);
        assert(o.skip(k as int).drop_first() =~= o.skip(k + 1));
        k += 1;
    }
    if k < out.len() {
        assert(o.skip(k as int)[0] == o[k as int]);
    }
    out.insert(k, x);
}

/// Aggregates the results of the providers into a report, as a check run
/// does: the slugs of all providers in order, the issues of those that did
/// not fail, stably sorted by severity (highest first), then file, then
/// line, and the sum of the fixed counts. The error and warning counts are
/// left for `CheckReport::recount`.
pub fn aggregate_results(results: Vec<ProviderOutcome>) -> (r: (CheckReport, usize))
    requires
        fixed_sum(results@) <= usize::MAX,
    ensures
        strs(r.0.providers_run@) == outcome_slugs(results@),
        r.0.issues@ == stable_sort(kept_issues(results@)),
        r.1 == fixed_sum(results@),
        r.0.files_checked == 0,
        r.0.duration_ms == 0,
        r.0.error_count == 0,
        r.0.warning_count == 0,
        r.0.fix_report is None,
{
    let mut report = CheckReport::new();
    let mut total: usize = 0;
    let mut i: usize = 0;
    assert(report.issues@ =~= stable_sort(kept_issues(results@.take(0))));
    assert(strs(report.providers_run@) =~= outcome_slugs(results@.take(0)));
    while i < results.len()
        invariant
            i <= results@.len(),
            fixed_sum(results@) <= usize::MAX,
            total == fixed_sum(results@.take(i as int)),
            report.issues@ == stable_sort(kept_issues(results@.take(i as int))),
            strs(report.providers_run@) == outcome_slugs(results@.take(i as int)),
            report.files_checked == 0,
            report.duration_ms == 0,
            report.error_count == 0,
            report.warning_count == 0,
            report.fix_report is None,
        decreases results.len() - i,
    {
        let ghost before = results@.take(i as int);
        assert(results@.take(i + 1).drop_last() =~= before);
        assert(results@.take(i + 1).last() == results@[i as int]);
        proof {
            lemma_fixed_sum_grows(results@, i + 1);
        }
        let r = &results[i];
        let ghost slugs0 = strs(report.providers_run@);
        report.providers_run.push(r.slug.clone());
        assert(strs(report.providers_run@) =~= slugs0.push(r.slug@));
        assert(outcome_slugs(results@.take(i + 1)) =~= outcome_slugs(before).push(r.slug@));
        if !r.failed {
            match r.fixed_count {
                Some(n) => {
                    total = total + n;
                },
                None => {},
            }
            let ghost base = kept_issues(before);
            let mut j: usize = 0;
            assert(r.issues@.take(0) =~= Seq::<CheckIssue>::empty());
            assert(base + r.issues@.take(0) =~= base);
            while j < r.issues.len()
                invariant
                    j <= r.issues@.len(),
                    report.issues@ == stable_sort(base + r.issues@.take(j as int)),
                    strs(report.providers_run@) == outcome_slugs(results@.take(i + 1)),
                    report.files_checked == 0,
                    report.duration_ms == 0,
                    report.error_count == 0,
                    report.warning_count == 0,
                    report.fix_report is None,
                decreases r.issues.len() - j,
            {
                let x = r.issues[j].duplicate();
                let ghost prev = base + r.issues@.take(j as int);
                assert((base + r.issues@.take(j + 1)).drop_last() =~= prev);
                assert((base + r.issues@.take(j + 1)).last() == x);
                insert_sorted_issue(&mut report.issues, x);
                j += 1;
            }
            assert(r.issues@.take(r.issues@.len() as int) =~= r.issues@);
        } else {
            assert(kept_issues(results@.take(i + 1)) =~= kept_issues(before));
        }
        i += 1;
    }
    assert(results@.take(results@.len() as int) =~= results@);
    (report, total)
}

} // verus!
