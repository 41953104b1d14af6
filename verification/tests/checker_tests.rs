use appz::cache::{hash_content, CheckCache};
use appz::collect::{build_file_tree, collect_context, collect_context_checked, config_file_names};
use appz::context::{extract_error_region, extract_imports, format_context_for_prompt, resolve_import_path};
use appz::error::CheckerError;
use appz::fixer::{display_fix_summary, display_report_summary, Tone};
use appz::output::{CheckIssue, CheckReport, FixKind, FixReport, FixSuggestion, Severity};
use appz::patch::{apply_file_patch, apply_patch, parse_unified_diff, HunkLine};
use appz::providers::{get_provider, map_severity, map_severity_number, parse_tsc_line};
use appz::safety::{filter_sendable_issues, is_never_send, is_protected, validate_safety, SafetyConfig};

fn issue(file: &str, sev: Severity, msg: &str) -> CheckIssue {
    CheckIssue::new(file.to_string(), sev, msg.to_string(), "biome".to_string())
}

fn reason(e: CheckerError) -> String {
    match e {
        CheckerError::AiFixFailed { reason } => reason,
        other => panic!("unexpected error {:?}", other),
    }
}

// ---------------------------------------------------------------------------
// Unified diffs
// ---------------------------------------------------------------------------

const DIFF: &str = "--- a/src/main.rs\n+++ b/src/main.rs\n@@ -1,3 +1,3 @@\n a\n-b\n+B\n c\n";

#[test]
fn parse_diff_reads_paths_and_lines() {
    let p = parse_unified_diff(DIFF).unwrap();
    assert_eq!(p.file_patches.len(), 1);
    assert_eq!(p.file_patches[0].path, "src/main.rs");
    let h = &p.file_patches[0].hunks[0];
    assert_eq!((h.old_start, h.old_count, h.new_start, h.new_count), (1, 3, 1, 3));
    assert_eq!(h.lines.len(), 4);
    assert!(matches!(&h.lines[1], HunkLine::Remove(s) if s == "b"));
    assert!(matches!(&h.lines[2], HunkLine::Add(s) if s == "B"));
}

#[test]
fn parse_diff_without_files_is_an_error() {
    let e = parse_unified_diff("hello\nworld").unwrap_err();
    assert_eq!(reason(e), "No file patches found in diff output");
}

#[test]
fn parse_diff_missing_new_header_is_an_error() {
    let e = parse_unified_diff("--- a/x\n@@ -1 +1 @@\n").unwrap_err();
    assert_eq!(reason(e), "Malformed diff: expected +++ after ---");
}

#[test]
fn apply_replaces_the_hunk() {
    let p = parse_unified_diff(DIFF).unwrap();
    let r = apply_file_patch("a\nb\nc\n", &p.file_patches[0].hunks).unwrap();
    assert_eq!(r.content, "a\nB\nc");
    assert_eq!(r.lines_added, 1);
    assert_eq!(r.lines_removed, 1);
    assert_eq!(r.original_lines, 3);
}

#[test]
fn apply_finds_a_moved_hunk() {
    let p = parse_unified_diff(DIFF).unwrap();
    let r = apply_file_patch("x\ny\na\nb\nc", &p.file_patches[0].hunks).unwrap();
    assert_eq!(r.content, "x\ny\na\nB\nc");
}

#[test]
fn apply_fails_when_the_hunk_is_missing() {
    let p = parse_unified_diff(DIFF).unwrap();
    let e = apply_file_patch("q\nr\ns", &p.file_patches[0].hunks).unwrap_err();
    assert!(reason(e).starts_with("Could not locate hunk in file (expected near line 1)."));
}

#[test]
fn apply_patch_to_files() {
    let p = parse_unified_diff(DIFF).unwrap();
    let files = vec![("src/main.rs".to_string(), "a\nb\nc".to_string())];
    let out = apply_patch(&p, &files).unwrap();
    assert_eq!(out.len(), 1);
    assert_eq!(out[0].0, "src/main.rs");
    assert_eq!(out[0].1.content, "a\nB\nc");
}

// ---------------------------------------------------------------------------
// Safety
// ---------------------------------------------------------------------------

#[test]
fn default_safety_protects_lock_files_and_secrets() {
    let c = SafetyConfig::default();
    assert_eq!(c.max_files_per_patch, 5);
    assert!(is_protected("Cargo.lock", &c));
    assert!(!is_protected("src/main.rs", &c));
    assert!(is_never_send(".env", &c));
    assert!(!is_never_send("src/lib.rs", &c));
}

#[test]
fn unsafe_patch_is_refused() {
    let c = SafetyConfig::default();
    let diff = "--- a/Cargo.lock\n+++ b/Cargo.lock\n@@ -1 +1 @@\n-a\n+b\n";
    let p = parse_unified_diff(diff).unwrap();
    assert!(validate_safety(&p, &c).is_err());
    let ok = parse_unified_diff(DIFF).unwrap();
    assert!(validate_safety(&ok, &c).is_ok());
}

#[test]
fn secret_files_are_not_sent() {
    let c = SafetyConfig::default();
    let issues = vec![
        issue(".env", Severity::Error, "x"),
        issue("src/a.ts", Severity::Error, "y"),
    ];
    let kept = filter_sendable_issues(&issues, &c);
    assert_eq!(kept.len(), 1);
    assert_eq!(kept[0].file, "src/a.ts");
}

// ---------------------------------------------------------------------------
// Cache
// ---------------------------------------------------------------------------

#[test]
fn cache_lookup_after_store() {
    let mut cache = CheckCache::new();
    assert!(cache.is_empty());
    let h = hash_content(b"fn main() {}");
    cache.store("src/main.rs", "clippy", h, vec![issue("src/main.rs", Severity::Warning, "w")]);
    let hit = cache.lookup("src/main.rs", "clippy", h).unwrap();
    assert_eq!(hit.len(), 1);
    assert!(cache.lookup("src/main.rs", "clippy", h.wrapping_add(1)).is_none());
    assert!(cache.lookup("src/main.rs", "biome", h).is_none());
    assert_eq!(cache.len(), 1);
    cache.clear();
    assert!(cache.is_empty());
}

#[test]
fn cache_store_replaces_entry() {
    let mut cache = CheckCache::new();
    cache.store("a.rs", "clippy", 1, vec![]);
    cache.store("a.rs", "clippy", 2, vec![issue("a.rs", Severity::Error, "e")]);
    assert_eq!(cache.len(), 1);
    assert!(cache.lookup("a.rs", "clippy", 1).is_none());
    assert_eq!(cache.lookup("a.rs", "clippy", 2).unwrap().len(), 1);
}

#[test]
fn cache_len_grows_only_for_new_keys() {
    let mut cache = CheckCache::new();
    cache.store("a.rs", "clippy", 1, vec![]);
    assert_eq!(cache.len(), 1);
    cache.store("a.rs", "clippy", 7, vec![]);
    assert_eq!(cache.len(), 1);
    cache.store("a.rs", "biome", 1, vec![]);
    assert_eq!(cache.len(), 2);
    cache.store("b.rs", "clippy", 1, vec![]);
    assert_eq!(cache.len(), 3);
}

#[test]
fn hash_depends_on_content() {
    assert_eq!(hash_content(b"abc"), hash_content(b"abc"));
    assert_ne!(hash_content(b"abc"), hash_content(b"abd"));
}

// ---------------------------------------------------------------------------
// Providers
// ---------------------------------------------------------------------------

#[test]
fn severity_mapping() {
    assert_eq!(map_severity("ERROR"), Severity::Error);
    assert_eq!(map_severity("warning"), Severity::Warning);
    assert_eq!(map_severity("info"), Severity::Info);
    assert_eq!(map_severity("suggestion"), Severity::Hint);
    assert_eq!(map_severity("whatever"), Severity::Warning);
    assert_eq!(map_severity_number(1), Severity::Warning);
    assert_eq!(map_severity_number(2), Severity::Error);
}

#[test]
fn unknown_provider_is_an_error() {
    assert!(get_provider("biome").is_ok());
    assert!(matches!(get_provider("nope"), Err(CheckerError::ProviderNotFound { .. })));
}

#[test]
fn tsc_line_is_parsed() {
    let i = parse_tsc_line("src/a.ts(3,7): error TS2322: Type 'x' is not assignable.").unwrap();
    assert_eq!(i.file, "src/a.ts");
    assert_eq!(i.line, Some(3));
    assert_eq!(i.column, Some(7));
    assert_eq!(i.severity, Severity::Error);
    assert_eq!(i.code.as_deref(), Some("TS2322"));
    assert!(parse_tsc_line("no location here").is_none());
}

// ---------------------------------------------------------------------------
// Summaries
// ---------------------------------------------------------------------------

#[test]
fn fix_summary_lines() {
    let mut r = FixReport::empty();
    r.fixed_count = 1;
    r.remaining_count = 2;
    let lines = display_fix_summary(&r);
    assert_eq!(lines.len(), 2);
    assert_eq!(lines[0].tone, Tone::Success);
    assert_eq!(lines[0].text, "Fixed 1 issue");
    assert_eq!(lines[1].tone, Tone::Warning);
    assert_eq!(lines[1].text, "2 issues remaining after auto-fix");
    assert!(display_fix_summary(&FixReport::empty()).is_empty());
}

#[test]
fn report_summary_without_issues() {
    let r = CheckReport::new();
    let lines = display_report_summary(&r, false);
    assert_eq!(lines.len(), 2);
    assert_eq!(lines[1].text, "No issues found!");
}

#[test]
fn report_summary_groups_by_file() {
    let mut r = CheckReport::new();
    r.issues.push(issue("a.ts", Severity::Error, "bad").at(3, 4).with_code("E1".to_string()));
    r.issues.push(issue("a.ts", Severity::Warning, "meh"));
    r.recount();
    r.duration_ms = 12;
    r.providers_run = vec!["biome".to_string(), "tsc".to_string()];
    let lines = display_report_summary(&r, false);
    let texts: Vec<&str> = lines.iter().map(|l| l.text.as_str()).collect();
    assert_eq!(
        texts,
        vec![
            "",
            "",
            "a.ts",
            "     error        3:4  bad [E1]",
            "   warning             meh",
            "",
            "Check failed: 1 error, 1 warning (12ms)",
            "Checkers: biome, tsc",
        ]
    );
    assert_eq!(lines[3].tone, Tone::Error);
    assert_eq!(lines[6].tone, Tone::Error);
}

#[test]
fn report_summary_marks_fixable_and_passes() {
    let mut r = CheckReport::new();
    let fix = FixSuggestion {
        description: "d".to_string(),
        replacement: Some("x".to_string()),
        kind: FixKind::Safe,
    };
    r.issues.push(issue("b.py", Severity::Info, "note").at(1, 1).with_fix(fix));
    r.recount();
    let lines = display_report_summary(&r, true);
    assert_eq!(lines[3].text, "      info        1:1  note (fixable)");
    assert_eq!(lines[5].text, "Check passed (1 info) in 0ms");
    assert_eq!(lines[5].tone, Tone::Success);
}

// ---------------------------------------------------------------------------
// Context collection
// ---------------------------------------------------------------------------

#[test]
fn file_tree_listing() {
    let entries = vec![("src".to_string(), true), ("Cargo.toml".to_string(), false)];
    assert_eq!(build_file_tree(Some(&entries)), "Project files:\n  src/\n  Cargo.toml\n");
    assert_eq!(build_file_tree(None), "(file tree unavailable)\n");
}

#[test]
fn context_holds_error_files_and_configs() {
    let issues = vec![issue("src/main.rs", Severity::Error, "e").at(1, 1)];
    let files = vec![
        ("src/main.rs".to_string(), "use crate::util;\nfn main() {}".to_string()),
        ("Cargo.toml".to_string(), "[package]".to_string()),
    ];
    let tree = "Project files:\n".to_string();
    let ctx = collect_context(&issues, None, tree.clone(), &files);
    assert_eq!(ctx.error_files.len(), 1);
    assert_eq!(ctx.error_files[0].0, "src/main.rs");
    assert!(!ctx.error_files[0].1.is_region);
    assert_eq!(ctx.related_files.len(), 1);
    assert_eq!(ctx.related_files[0].0, "Cargo.toml");
    assert_eq!(ctx.total_bytes, tree.len() + files[0].1.len() + files[1].1.len());
    assert_eq!(ctx.max_bytes, 61440);
    let text = format_context_for_prompt(&ctx);
    assert!(text.contains("FILE: src/main.rs\n"));
    assert!(text.contains("RELATED FILE: Cargo.toml\n[package]"));
}

#[test]
fn context_respects_the_cap() {
    let issues = vec![issue("a.rs", Severity::Error, "e")];
    let files = vec![
        ("a.rs".to_string(), "fn a() {}".to_string()),
        ("Cargo.toml".to_string(), "x".repeat(50)),
    ];
    let ctx = collect_context(&issues, Some(30), String::new(), &files);
    assert_eq!(ctx.error_files.len(), 1);
    assert!(ctx.related_files.is_empty());
    assert_eq!(ctx.total_bytes, 9);
}

#[test]
fn context_cuts_long_config_files() {
    let files = vec![("package.json".to_string(), "y".repeat(5000))];
    let ctx = collect_context(&[], Some(100000), String::new(), &files);
    assert_eq!(ctx.related_files.len(), 1);
    assert_eq!(ctx.related_files[0].1, format!("{}...(truncated)", "y".repeat(4096)));
}

#[test]
fn checked_context_refuses_what_would_stop() {
    // A large file whose issue lies far past its end.
    let big = "x\n".repeat(600);
    let issues = vec![issue("big.rs", Severity::Error, "e").at(2000, 1)];
    let files = vec![("big.rs".to_string(), big.clone())];
    assert!(collect_context_checked(&issues, Some(1_000_000), String::new(), &files).is_none());
    // The same file with its issue inside is collected as a region.
    let inside = vec![issue("big.rs", Severity::Error, "e").at(300, 1)];
    let ctx = collect_context_checked(&inside, Some(1_000_000), String::new(), &files).unwrap();
    assert!(ctx.error_files[0].1.is_region);
    // A configuration file with a character across the 4096-byte mark.
    let cfg = format!("{}\u{e9}{}", "a".repeat(4095), "b".repeat(10));
    let cfg_files = vec![("Cargo.toml".to_string(), cfg)];
    assert!(collect_context_checked(&[], Some(100_000), String::new(), &cfg_files).is_none());
    // Otherwise it agrees with `collect_context`.
    let ok_files = vec![("Cargo.toml".to_string(), "[package]".to_string())];
    let a = collect_context_checked(&[], None, "t".to_string(), &ok_files).unwrap();
    let b = collect_context(&[], None, "t".to_string(), &ok_files);
    assert_eq!(a.total_bytes, b.total_bytes);
    assert_eq!(a.related_files, b.related_files);
}

#[test]
fn config_names_are_listed() {
    let names = config_file_names();
    assert_eq!(names.len(), 9);
    assert_eq!(names[0], "Cargo.toml");
}

#[test]
fn imports_by_extension() {
    assert_eq!(extract_imports("use crate::foo::bar;\nmod baz;", "src/lib.rs"), vec!["foo", "baz"]);
    assert_eq!(extract_imports("import x from \"./y\";", "a.ts"), vec!["./y"]);
    assert!(extract_imports("use crate::foo;", "README").is_empty());
}

#[test]
fn import_candidates_for_relative_paths() {
    let c = resolve_import_path("./util", &[]);
    assert!(c.contains(&"./util.ts".to_string()));
}

#[test]
fn error_region_of_a_large_file() {
    let content: Vec<String> = (1..=600).map(|i| format!("line {}", i)).collect();
    let content = content.join("\n");
    let issues = vec![issue("big.rs", Severity::Error, "e").at(300, 1)];
    let fc = extract_error_region(&content, &issues);
    assert!(fc.is_region);
    assert_eq!(fc.region_start_line, Some(250));
    assert!(fc.content.starts_with("// ... (lines 1-249 omitted) ...\nline 250\n"));
    assert!(fc.content.ends_with("line 350\n// ... (lines 351-600 omitted) ..."));
}

// ---------------------------------------------------------------------------
// The repair loop
// ---------------------------------------------------------------------------

use appz::repair::{Phase, RepairAction, RepairEvent, RepairState};

#[test]
fn repair_loop_happy_path() {
    let mut st = RepairState::new(2, true, false, SafetyConfig::default());
    assert!(matches!(st.step(RepairEvent::Start), RepairAction::Plan { attempt: 1 }));
    assert!(matches!(
        st.step(RepairEvent::Planned { has_files: true, usage: None }),
        RepairAction::Fix { reflection: None }
    ));
    match st.step(RepairEvent::Fixed { diff: DIFF.to_string(), usage: None }) {
        RepairAction::ReadFiles { paths } => assert_eq!(paths, vec!["src/main.rs".to_string()]),
        other => panic!("unexpected {:?}", other),
    }
    let read = RepairEvent::FilesRead { contents: vec![("src/main.rs".to_string(), "a\nb\nc".to_string())] };
    assert!(matches!(st.step(read), RepairAction::CheckChanges));
    assert!(matches!(st.step(RepairEvent::ChangesChecked { rejection: None }), RepairAction::Confirm));
    match st.step(RepairEvent::Confirmed { apply: true }) {
        RepairAction::Write { files } => {
            assert_eq!(files, vec![("src/main.rs".to_string(), "a\nB\nc".to_string())])
        }
        other => panic!("unexpected {:?}", other),
    }
    assert!(matches!(
        st.step(RepairEvent::Written { files_fixed: 1 }),
        RepairAction::Finish { total_fixed: 1, exhausted: false }
    ));
    assert_eq!(st.phase, Phase::Finished);
}

#[test]
fn repair_loop_retries_then_gives_up() {
    let mut st = RepairState::new(1, true, false, SafetyConfig::default());
    assert!(matches!(st.step(RepairEvent::Start), RepairAction::Plan { attempt: 1 }));
    st.step(RepairEvent::Planned { has_files: true, usage: None });
    let a = st.step(RepairEvent::FixFailed { message: "boom".to_string() });
    assert!(matches!(a, RepairAction::Finish { total_fixed: 0, exhausted: true }));
    assert_eq!(st.reflection.as_deref(), Some("Fix agent failed with error: boom"));
}

use appz::patch::{display_patch_preview, FilePatch, Hunk, Patch};

#[test]
fn patch_preview_lines() {
    let hunk = Hunk {
        old_start: 3,
        old_count: 2,
        new_start: 3,
        new_count: 2,
        lines: vec![
            HunkLine::Context("a".to_string()),
            HunkLine::Remove("b".to_string()),
            HunkLine::Add("c".to_string()),
        ],
    };
    let patch = Patch { file_patches: vec![FilePatch { path: "src/x.rs".to_string(), hunks: vec![hunk] }] };
    let lines: Vec<(Tone, String)> = display_patch_preview(&patch).into_iter().map(|l| (l.tone, l.text)).collect();
    assert_eq!(
        lines,
        vec![
            (Tone::Info, "--- src/x.rs".to_string()),
            (Tone::Info, "@@ -3,2 +3,2 @@".to_string()),
            (Tone::Info, "  a".to_string()),
            (Tone::Error, "- b".to_string()),
            (Tone::Success, "+ c".to_string()),
        ]
    );
}

#[test]
fn patch_preview_caps_long_hunks() {
    let long = |n: usize| Hunk {
        old_start: 1,
        old_count: 0,
        new_start: 1,
        new_count: n,
        lines: (0..n).map(|i| HunkLine::Add(format!("l{}", i))).collect(),
    };
    let patch = Patch {
        file_patches: vec![
            FilePatch { path: "a".to_string(), hunks: vec![long(62)] },
            FilePatch { path: "b".to_string(), hunks: vec![long(60)] },
        ],
    };
    let lines = display_patch_preview(&patch);
    // a: header, hunk header, 60 lines, marker; b: header, hunk header, 60 lines.
    assert_eq!(lines.len(), 63 + 62);
    assert_eq!(lines[61].text, "+ l59");
    assert_eq!(lines[62].text, "  ... (more lines)");
    assert_eq!(lines[63].text, "--- b");
    assert_eq!(lines[124].text, "+ l59");
}

use appz::providers::{merge_file_lists, text_less};

#[test]
fn changed_files_sorted_once() {
    assert_eq!(
        merge_file_lists(" b.rs\na.rs\n\n", "c.rs\na.rs\nB.rs\n"),
        vec!["B.rs".to_string(), "a.rs".to_string(), "b.rs".to_string(), "c.rs".to_string()]
    );
    assert!(merge_file_lists("", "\n  \n").is_empty());
}

#[test]
fn text_order_matches_string_order() {
    let words = ["", "a", "ab", "b", "B", "é", "z", "a/b", "a.b"];
    for x in words.iter() {
        for y in words.iter() {
            assert_eq!(text_less(x, y), x < y, "{} {}", x, y);
        }
    }
}

use appz::grep::parse_rg_json_line;
use appz::json::JsonValue;
use appz::runtime::ddev_describe_running;
use appz::tools::{
    parse_biome_output, parse_cargo_messages, parse_gitleaks_output, parse_json_output, parse_phpstan_output,
    parse_ruff_output, parse_stylelint_output,
};

#[test]
fn ruff_report_text() {
    let out = r#"[{"code":"F401","message":"unused import","filename":"a.py","location":{"row":3,"column":1},"end_location":{"row":3,"column":9},"fix":null}]"#;
    let issues = parse_ruff_output(out).unwrap();
    assert_eq!(issues.len(), 1);
    assert_eq!(issues[0].file, "a.py");
    assert_eq!(issues[0].severity, Severity::Error);
    assert_eq!(issues[0].line, Some(3));
    assert_eq!(issues[0].end_column, Some(9));
    assert_eq!(issues[0].code.as_deref(), Some("F401"));
    match parse_ruff_output("{}").unwrap_err() {
        CheckerError::ParseFailed { provider, reason } => {
            assert_eq!(provider, "ruff");
            assert!(reason.starts_with("Invalid JSON: "));
        }
        other => panic!("unexpected {:?}", other),
    }
}

#[test]
fn other_reports_text() {
    assert!(parse_gitleaks_output("[]").unwrap().is_empty());
    assert!(parse_stylelint_output("[]").unwrap().is_empty());
    assert!(parse_phpstan_output("{\"files\":{}}").unwrap().is_empty());
    assert!(parse_stylelint_output("not json").is_err());
    match parse_json_output("[1", "tsc").unwrap_err() {
        CheckerError::ParseFailed { provider, .. } => assert_eq!(provider, "tsc"),
        other => panic!("unexpected {:?}", other),
    }
    assert!(matches!(parse_json_output("{\"a\":[1,-2,1.5]}", "x").unwrap(), JsonValue::Object(_)));
}

#[test]
fn gitleaks_secret_never_reaches_the_issue() {
    let a = r#"[{"Description":"AWS key","File":"config.js","RuleID":"aws-access-key","StartLine":4,"StartColumn":7,"EndLine":4,"EndColumn":27,"Secret":"SECRET-REDACTED","Match":"key = SECRET-REDACTED"}]"#;
    let b = r#"[{"Description":"AWS key","File":"config.js","RuleID":"aws-access-key","StartLine":4,"StartColumn":7,"EndLine":4,"EndColumn":27,"Secret":"other","Match":"key = other"}]"#;
    let ia = parse_gitleaks_output(a).unwrap();
    let ib = parse_gitleaks_output(b).unwrap();
    assert_eq!(format!("{:?}", ia), format!("{:?}", ib));
    assert_eq!(ia.len(), 1);
    assert_eq!(ia[0].severity, Severity::Error);
    assert_eq!(ia[0].source, "secrets");
    assert_eq!(ia[0].file, "config.js");
    assert_eq!(ia[0].line, Some(4));
    assert_eq!(ia[0].end_column, Some(27));
    assert_eq!(ia[0].code.as_deref(), Some("aws-access-key"));
    assert_eq!(
        ia[0].message,
        "Potential secret detected: AWS key. Remove the secret and rotate credentials immediately."
    );
    assert!(!ia[0].message.contains("AKIA"));
}

#[test]
fn biome_report_text_with_prefix() {
    let out = "Checked 3 files\n{\"diagnostics\":[{\"severity\":\"error\",\"description\":\"bad\",\"location\":{\"path\":{\"file\":\"x.ts\"}}}]}";
    let issues = parse_biome_output(out).unwrap();
    assert_eq!(issues.len(), 1);
    assert_eq!(issues[0].message, "bad");
    assert!(parse_biome_output("no json at all").unwrap().is_empty());
    match parse_biome_output("oops { broken").unwrap_err() {
        CheckerError::ParseFailed { provider, reason } => {
            assert_eq!(provider, "biome");
            assert!(reason.starts_with("Invalid JSON output: "));
        }
        other => panic!("unexpected {:?}", other),
    }
}

#[test]
fn cargo_messages_text() {
    let out = "   Compiling x v0.1.0\n{\"reason\":\"compiler-artifact\"}\n{not json\n{\"reason\":\"compiler-message\",\"message\":{\"level\":\"warning\",\"message\":\"unused variable\",\"code\":{\"code\":\"unused_variables\"},\"spans\":[{\"file_name\":\"src/main.rs\",\"line_start\":2,\"column_start\":9,\"line_end\":2,\"column_end\":10,\"is_primary\":true}]}}\n";
    let issues = parse_cargo_messages(out);
    assert_eq!(issues.len(), 1);
    assert_eq!(issues[0].file, "src/main.rs");
    assert_eq!(issues[0].line, Some(2));
    assert_eq!(issues[0].severity, Severity::Warning);
}

#[test]
fn rg_line_text() {
    let line = r#"{"type":"match","data":{"line_number":7,"lines":{"text":"  foo()\n"},"submatches":[{"start":2}]}}"#;
    let m = parse_rg_json_line(line).unwrap().unwrap();
    assert_eq!((m.line, m.column, m.snippet.as_str()), (7, Some(2), "foo()"));
    assert!(parse_rg_json_line(r#"{"type":"begin"}"#).unwrap().is_none());
    assert!(parse_rg_json_line("garbage").is_err());
}

#[test]
fn ddev_describe_text() {
    assert!(ddev_describe_running(r#"{"raw":{"status":"running"}}"#));
    assert!(!ddev_describe_running(r#"{"raw":{"status":"stopped"}}"#));
    assert!(!ddev_describe_running("Failed to describe"));
}

#[test]
fn context_skips_error_files_over_the_cap() {
    let issues = vec![issue("big.rs", Severity::Error, "e"), issue("small.rs", Severity::Error, "e")];
    let files = vec![("big.rs".to_string(), "ab".to_string()), ("small.rs".to_string(), "c".to_string())];
    let ctx = collect_context(&issues, Some(1), String::new(), &files);
    assert_eq!(ctx.error_files.len(), 1);
    assert_eq!(ctx.error_files[0].0, "small.rs");
    assert_eq!(ctx.total_bytes, 1);
}

use appz::llm::{extract_code_block, extract_diff_block};

#[test]
fn code_block_stops_at_closing_fence() {
    let r = "Here is the fix:\n```rust\nfn main() {}\nlet x = 1;\n```\nDone";
    assert_eq!(extract_code_block(r), "fn main() {}\nlet x = 1;");
    assert_eq!(extract_code_block("```\n```\nb"), "```\n```\nb");
    assert_eq!(extract_code_block("no fences"), "no fences");
}

#[test]
fn diff_block_from_header_line() {
    let r = "Sure, here it is:\n--- a/x\n+++ b/x\n@@ -1 +1 @@\n-a\n+b";
    assert_eq!(extract_diff_block(r), Some("--- a/x\n+++ b/x\n@@ -1 +1 @@\n-a\n+b".to_string()));
    let fenced = "x\n```diff\n--- a\n+++ b\n```\ny";
    assert_eq!(extract_diff_block(fenced), Some("--- a\n+++ b".to_string()));
    let code = "```\n--- a\n+++ b\n```";
    assert_eq!(extract_diff_block(code), Some("--- a\n+++ b".to_string()));
    assert_eq!(extract_diff_block("nothing here"), None);
}

use appz::runner::{aggregate_results, ProviderOutcome};

#[test]
fn results_aggregate_sorted() {
    let at = |f: &str, sev: Severity, line: Option<u32>| {
        let i = issue(f, sev, "m");
        match line {
            Some(l) => i.at(l, 1),
            None => i,
        }
    };
    let outcomes = vec![
        ProviderOutcome {
            slug: "biome".to_string(),
            issues: vec![issue("b.ts", Severity::Warning, "first").at(3, 1), at("a.ts", Severity::Error, Some(9))],
            fixed_count: Some(2),
            failed: false,
        },
        ProviderOutcome { slug: "ruff".to_string(), issues: vec![at("z.py", Severity::Error, None)], fixed_count: Some(5), failed: true },
        ProviderOutcome {
            slug: "tsc".to_string(),
            issues: vec![at("a.ts", Severity::Error, Some(2)), at("a.ts", Severity::Error, None), at("b.ts", Severity::Warning, Some(3))],
            fixed_count: None,
            failed: false,
        },
    ];
    let (report, fixed) = aggregate_results(outcomes);
    assert_eq!(fixed, 2);
    assert_eq!(report.providers_run, vec!["biome".to_string(), "ruff".to_string(), "tsc".to_string()]);
    let keys: Vec<(Severity, String, Option<u32>)> = report.issues.iter().map(|i| (i.severity, i.file.clone(), i.line)).collect();
    assert_eq!(
        keys,
        vec![
            (Severity::Error, "a.ts".to_string(), None),
            (Severity::Error, "a.ts".to_string(), Some(2)),
            (Severity::Error, "a.ts".to_string(), Some(9)),
            (Severity::Warning, "b.ts".to_string(), Some(3)),
            (Severity::Warning, "b.ts".to_string(), Some(3)),
        ]
    );
    assert_eq!(report.issues[3].message, "first");
    assert_eq!(report.issues[4].message, "m");
}
