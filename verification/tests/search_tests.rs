use appz::crawl::{
    clean_ddg_url, document_type_from_content_type, document_type_from_url, get_html_field,
    DocumentType, SearchOptions, SearchResponse, WebSearchResult,
};
use appz::detect::{analyse_project, DetectedLanguage, Detector, FrameworkDetectors, FrameworkInfo, ProjectAnalysis, ProjectFacts};
use appz::fixer::combine_fix_reports;
use appz::init::{init_plan, BIOME_CONFIG, GITLEAKS_CONFIG, RUFF_CONFIG, RUFF_PYPROJECT_SECTION, STYLELINT_CONFIG};
use appz::json::{JsonNumber, JsonValue};
use appz::output::{CheckIssue, FixReport, Severity};
use appz::search::{
    ddg_page_event, get_next_page_params, next_params_of_forms, searxng_answer_stands, DdgAction, DdgBlock, DdgEvent, DdgSearch, SearxngAction, SearxngEvent, SearxngSearch,
};

fn options(num_results: usize) -> SearchOptions {
    SearchOptions {
        tbs: None,
        filter: None,
        lang: None,
        country: None,
        location: None,
        num_results,
        timeout_ms: 5000,
    }
}

fn pairs(v: &[(&str, &str)]) -> Vec<(String, String)> {
    v.iter().map(|(a, b)| (a.to_string(), b.to_string())).collect()
}

fn block(href: Option<&str>, title: &str, snippet: Option<&str>) -> DdgBlock {
    DdgBlock {
        href: href.map(|s| s.to_string()),
        title: title.to_string(),
        snippet: snippet.map(|s| s.to_string()),
    }
}

fn result(url: &str) -> WebSearchResult {
    WebSearchResult { url: url.to_string(), title: format!("title of {}", url), description: "d".to_string() }
}

fn urls(r: &SearchResponse) -> Option<Vec<String>> {
    r.web.as_ref().map(|v| v.iter().map(|w| w.url.clone()).collect())
}

// ---------------------------------------------------------------------------
// DuckDuckGo links
// ---------------------------------------------------------------------------

#[test]
fn clean_ddg_url_decodes_redirect() {
    let href = "https://duckduckgo.com/l/?uddg=https%3A%2F%2Fex.com%2Fa%3Fq%3D1&rut=x";
    assert_eq!(clean_ddg_url(href), "https://ex.com/a?q=1");
}

#[test]
fn clean_ddg_url_decodes_twice() {
    // The query value is form-decoded once by the URL parser and once more.
    let href = "https://duckduckgo.com/l/?uddg=https%253A%252F%252Fex.com%252Fb";
    assert_eq!(clean_ddg_url(href), "https://ex.com/b");
}

#[test]
fn clean_ddg_url_keeps_plain_links() {
    assert_eq!(clean_ddg_url("https://ex.com/page"), "https://ex.com/page");
}

#[test]
fn clean_ddg_url_keeps_unparsable_links() {
    let href = "//duckduckgo.com/l/?uddg=https%3A%2F%2Fex.com";
    assert_eq!(clean_ddg_url(href), href);
}

#[test]
fn clean_ddg_url_without_uddg_pair() {
    let href = "https://ex.com/?xuddg=1";
    assert_eq!(clean_ddg_url(href), href);
}

// ---------------------------------------------------------------------------
// Documents
// ---------------------------------------------------------------------------

#[test]
fn document_type_by_extension() {
    assert_eq!(document_type_from_url("https://x.com/File.DOCX"), DocumentType::Docx);
    assert_eq!(document_type_from_url("https://x.com/old.doc"), DocumentType::Doc);
    assert_eq!(document_type_from_url("https://x.com/a.odt/"), DocumentType::Odt);
    assert_eq!(document_type_from_url("https://x.com/a.rtf"), DocumentType::Rtf);
    assert_eq!(document_type_from_url("https://x.com/sheet.xls"), DocumentType::Xlsx);
    assert_eq!(document_type_from_url("https://x.com/sheet.xlsx"), DocumentType::Xlsx);
    assert_eq!(document_type_from_url("https://x.com/unknown"), DocumentType::Docx);
}

#[test]
fn document_type_by_content_type() {
    assert_eq!(document_type_from_content_type("Application/MSWord; charset=x"), Some(DocumentType::Doc));
    assert_eq!(
        document_type_from_content_type("application/vnd.openxmlformats-officedocument.wordprocessingml.document"),
        Some(DocumentType::Docx)
    );
    assert_eq!(document_type_from_content_type("text/rtf"), Some(DocumentType::Rtf));
    assert_eq!(document_type_from_content_type("application/vnd.ms-excel"), Some(DocumentType::Xlsx));
    assert_eq!(document_type_from_content_type("application/vnd.oasis.opendocument.text"), Some(DocumentType::Odt));
    assert_eq!(document_type_from_content_type("text/html"), None);
}

#[test]
fn html_field_of_bodies() {
    let obj = JsonValue::Object(vec![("html".to_string(), JsonValue::String("<p>x</p>".to_string()))]);
    assert_eq!(get_html_field(Some(&obj)), Some("<p>x</p>".to_string()));
    let raw = JsonValue::String("raw".to_string());
    assert_eq!(get_html_field(Some(&raw)), Some("raw".to_string()));
    let other = JsonValue::Object(vec![("markdown".to_string(), JsonValue::String("m".to_string()))]);
    assert_eq!(get_html_field(Some(&other)), None);
    let not_text = JsonValue::Object(vec![("html".to_string(), JsonValue::Number(JsonNumber::PosInt(3)))]);
    assert_eq!(get_html_field(Some(&not_text)), None);
    assert_eq!(get_html_field(Some(&JsonValue::Null)), None);
    assert_eq!(get_html_field(None), None);
}

// ---------------------------------------------------------------------------
// DuckDuckGo search
// ---------------------------------------------------------------------------

#[test]
fn ddg_query_parameters() {
    let mut o = options(5);
    o.lang = Some("EN".to_string());
    o.country = Some("GB".to_string());
    o.tbs = Some("w".to_string());
    let s = DdgSearch::new("rust lang", 5, &o);
    assert_eq!(s.params, pairs(&[("q", "rust lang"), ("kp", "1"), ("kl", "gb-en"), ("df", "w")]));
    assert!(s.is_first_page);
    assert_eq!(s.antibot_retries, 0);

    let mut o2 = options(5);
    o2.location = Some("de-de".to_string());
    o2.tbs = Some("2024-01-01..2024-02-01".to_string());
    let s2 = DdgSearch::new("q", 5, &o2);
    assert_eq!(s2.params, pairs(&[("q", "q"), ("kp", "1"), ("kl", "de-de"), ("df", "2024-01-01..2024-02-01")]));

    let mut o3 = options(5);
    o3.tbs = Some("qdr:h".to_string());
    let s3 = DdgSearch::new("q", 5, &o3);
    assert_eq!(s3.params, pairs(&[("q", "q"), ("kp", "1"), ("kl", "us-en")]));
}

#[test]
fn ddg_search_runs_to_enough_results() {
    let mut s = DdgSearch::new("q", 2, &options(2));
    match s.step(DdgEvent::Start) {
        DdgAction::Fetch { post, params, delay_ms } => {
            assert!(!post);
            assert_eq!(params, pairs(&[("q", "q"), ("kp", "1"), ("kl", "us-en")]));
            assert_eq!(delay_ms, 0);
        }
        other => panic!("unexpected {:?}", other),
    }
    let redirect = "https://duckduckgo.com/l/?uddg=https%3A%2F%2Fex.com%2Fa&rut=x";
    let blocks = vec![
        block(Some(redirect), " A ", Some(" first ")),
        block(Some("https://ex.com/a"), "again", Some("same url")),
        block(None, "no link", Some("s")),
        block(Some("https://ex.com/c"), "no snippet", None),
        block(Some("https://ex.com/d"), "   ", Some("blank title")),
    ];
    let next = pairs(&[("s", "30"), ("dc", "31")]);
    match s.step(DdgEvent::Page { anomaly: false, blocks, next_params: Some(next.clone()) }) {
        DdgAction::Fetch { post, params, delay_ms } => {
            assert!(post);
            assert_eq!(params, next);
            assert_eq!(delay_ms, 1000);
        }
        other => panic!("unexpected {:?}", other),
    }
    assert_eq!(s.results.len(), 1);
    assert_eq!(s.results[0].url, "https://ex.com/a");
    assert_eq!(s.results[0].title, "A");
    assert_eq!(s.results[0].description, "first");
    assert_eq!(s.seen, vec!["https://ex.com/a".to_string()]);

    // The anti-bot page: wait longer and post the same form again.
    match s.step(DdgEvent::Page { anomaly: true, blocks: vec![], next_params: None }) {
        DdgAction::Fetch { post, params, delay_ms } => {
            assert!(post);
            assert_eq!(params, next);
            assert_eq!(delay_ms, 2000);
        }
        other => panic!("unexpected {:?}", other),
    }
    assert_eq!(s.antibot_retries, 1);

    let blocks = vec![
        block(Some("https://ex.com/a"), "dup", Some("dup")),
        block(Some("https://ex.com/b"), "B", Some("second")),
        block(Some("https://ex.com/e"), "E", Some("third")),
    ];
    match s.step(DdgEvent::Page { anomaly: false, blocks, next_params: None }) {
        DdgAction::Done(Ok(r)) => {
            assert_eq!(urls(&r), Some(vec!["https://ex.com/a".to_string(), "https://ex.com/b".to_string()]));
        }
        other => panic!("unexpected {:?}", other),
    }
    assert_eq!(s.antibot_retries, 0);
    assert_eq!(s.results.len(), 3);
}

#[test]
fn ddg_search_stops_without_new_results() {
    let mut s = DdgSearch::new("q", 5, &options(5));
    let _ = s.step(DdgEvent::Start);
    match s.step(DdgEvent::Page { anomaly: false, blocks: vec![], next_params: Some(pairs(&[("s", "1")])) }) {
        DdgAction::Done(Ok(r)) => assert!(r.web.is_none()),
        other => panic!("unexpected {:?}", other),
    }
}

#[test]
fn ddg_search_stops_without_next_page() {
    let mut s = DdgSearch::new("q", 5, &options(5));
    let _ = s.step(DdgEvent::Start);
    let blocks = vec![block(Some("https://ex.com/1"), "one", Some("x"))];
    match s.step(DdgEvent::Page { anomaly: false, blocks, next_params: None }) {
        DdgAction::Done(Ok(r)) => assert_eq!(urls(&r), Some(vec!["https://ex.com/1".to_string()])),
        other => panic!("unexpected {:?}", other),
    }
}

#[test]
fn ddg_search_blocked_after_four_anti_bot_pages() {
    let mut s = DdgSearch::new("q", 5, &options(5));
    let _ = s.step(DdgEvent::Start);
    for _ in 0..3 {
        match s.step(DdgEvent::Page { anomaly: true, blocks: vec![], next_params: None }) {
            DdgAction::Fetch { delay_ms, .. } => assert_eq!(delay_ms, 2000),
            other => panic!("unexpected {:?}", other),
        }
    }
    match s.step(DdgEvent::Page { anomaly: true, blocks: vec![], next_params: None }) {
        DdgAction::Done(Err(e)) => assert_eq!(e, "DuckDuckGo: Blocked by anti-bot measures"),
        other => panic!("unexpected {:?}", other),
    }
}

#[test]
fn ddg_search_failures() {
    let mut s = DdgSearch::new("q", 5, &options(5));
    match s.step(DdgEvent::RequestFailed("timed out".to_string())) {
        DdgAction::Done(Err(e)) => assert_eq!(e, "HTTP request failed: timed out"),
        other => panic!("unexpected {:?}", other),
    }
    match s.step(DdgEvent::ReadFailed("eof".to_string())) {
        DdgAction::Done(Err(e)) => assert_eq!(e, "Failed to read response: eof"),
        other => panic!("unexpected {:?}", other),
    }
}

#[test]
fn ddg_search_for_no_results_answers_at_once() {
    let mut s = DdgSearch::new("q", 0, &options(0));
    match s.step(DdgEvent::Start) {
        DdgAction::Done(Ok(r)) => assert!(r.web.is_none()),
        other => panic!("unexpected {:?}", other),
    }
}

// ---------------------------------------------------------------------------
// SearXNG search
// ---------------------------------------------------------------------------

#[test]
fn searxng_first_page_request() {
    let mut o = options(3);
    o.lang = Some("de".to_string());
    let mut s = SearxngSearch::new("rust", "https://sx.example/", &o);
    assert_eq!(s.search_url, "https://sx.example/search");
    assert_eq!(s.pages_to_fetch, 1);
    match s.step(SearxngEvent::Start) {
        SearxngAction::Fetch { url, params } => {
            assert_eq!(url, "https://sx.example/search");
            assert_eq!(params, pairs(&[("q", "rust"), ("pageno", "1"), ("format", "json"), ("language", "de")]));
        }
        other => panic!("unexpected {:?}", other),
    }
    // Fewer results than asked for, and no page left to fetch.
    match s.step(SearxngEvent::Page(vec![result("u1"), result("u2")])) {
        SearxngAction::Done(Ok(r)) => assert_eq!(urls(&r), Some(vec!["u1".to_string(), "u2".to_string()])),
        other => panic!("unexpected {:?}", other),
    }
}

#[test]
fn searxng_fetches_pages_until_enough() {
    let mut s = SearxngSearch::new("q", "https://sx.example", &options(25));
    assert_eq!(s.search_url, "https://sx.example/search");
    assert_eq!(s.pages_to_fetch, 2);
    let _ = s.step(SearxngEvent::Start);
    let page1: Vec<WebSearchResult> = (0..20).map(|i| result(&format!("a{}", i))).collect();
    match s.step(SearxngEvent::Page(page1)) {
        SearxngAction::Fetch { params, .. } => {
            assert_eq!(params, pairs(&[("q", "q"), ("pageno", "2"), ("format", "json")]));
        }
        other => panic!("unexpected {:?}", other),
    }
    let page2: Vec<WebSearchResult> = (0..10).map(|i| result(&format!("b{}", i))).collect();
    match s.step(SearxngEvent::Page(page2)) {
        SearxngAction::Done(Ok(r)) => {
            let u = urls(&r).unwrap();
            assert_eq!(u.len(), 25);
            assert_eq!(u[19], "a19");
            assert_eq!(u[24], "b4");
        }
        other => panic!("unexpected {:?}", other),
    }
    // Results stop being added once there are enough.
    assert_eq!(s.results.len(), 25);
}

#[test]
fn searxng_empty_page_ends_search() {
    let mut s = SearxngSearch::new("q", "https://sx.example", &options(10));
    let _ = s.step(SearxngEvent::Start);
    match s.step(SearxngEvent::Page(vec![])) {
        SearxngAction::Done(Ok(r)) => assert!(r.web.is_none()),
        other => panic!("unexpected {:?}", other),
    }
}

#[test]
fn searxng_failures() {
    let mut s = SearxngSearch::new("q", "https://sx.example", &options(10));
    match s.step(SearxngEvent::RequestFailed("refused".to_string())) {
        SearxngAction::Done(Err(e)) => assert_eq!(e, "SearXNG request failed: refused"),
        other => panic!("unexpected {:?}", other),
    }
    match s.step(SearxngEvent::ParseFailed("bad json".to_string())) {
        SearxngAction::Done(Err(e)) => assert_eq!(e, "Failed to parse SearXNG response: bad json"),
        other => panic!("unexpected {:?}", other),
    }
}

// ---------------------------------------------------------------------------
// init
// ---------------------------------------------------------------------------

fn analysis(languages: Vec<DetectedLanguage>, git: bool) -> ProjectAnalysis {
    ProjectAnalysis {
        languages,
        frameworks: vec![],
        has_biome_config: false,
        has_eslint_config: false,
        has_tsconfig: false,
        has_stylelint_config: false,
        is_git_repo: git,
    }
}

fn facts(existing: &[&str]) -> ProjectFacts {
    ProjectFacts {
        existing: existing.iter().map(|s| s.to_string()).collect(),
    }
}

#[test]
fn init_plan_for_mixed_project() {
    let a = analysis(vec![DetectedLanguage::JavaScript, DetectedLanguage::Python, DetectedLanguage::Css], true);
    let f = facts(&["pyproject.toml"]);
    let py = "[project]\nname = \"x\"\n";
    let plan = init_plan(&a, &f, Some(py));
    let paths: Vec<&str> = plan.iter().map(|p| p.path.as_str()).collect();
    assert_eq!(paths, vec!["biome.json", "pyproject.toml", ".stylelintrc.json", ".gitleaks.toml"]);
    assert_eq!(plan[0].content, BIOME_CONFIG);
    assert_eq!(plan[1].content, format!("{}{}", py, RUFF_PYPROJECT_SECTION));
    assert_eq!(plan[1].label, "pyproject.toml (added [tool.ruff])");
    assert_eq!(plan[2].content, STYLELINT_CONFIG);
    assert_eq!(plan[3].content, GITLEAKS_CONFIG);
}

#[test]
fn init_plan_writes_nothing_that_exists() {
    let a = analysis(vec![DetectedLanguage::TypeScript, DetectedLanguage::Python], true);
    let f = facts(&["biome.json", "ruff.toml", ".gitleaks.toml"]);
    assert!(init_plan(&a, &f, None).is_empty());

    let mut a2 = analysis(vec![DetectedLanguage::JavaScript, DetectedLanguage::Css], false);
    a2.has_eslint_config = true;
    a2.has_stylelint_config = true;
    assert!(init_plan(&a2, &facts(&[]), None).is_empty());
}

#[test]
fn init_plan_python_variants() {
    let a = analysis(vec![DetectedLanguage::Python], false);
    let plan = init_plan(&a, &facts(&[]), None);
    assert_eq!(plan.len(), 1);
    assert_eq!(plan[0].path, "ruff.toml");
    assert_eq!(plan[0].content, RUFF_CONFIG);

    let with_ruff = "[tool.ruff]\nline-length = 80\n";
    assert!(init_plan(&a, &facts(&["pyproject.toml"]), Some(with_ruff)).is_empty());

    // An unreadable pyproject.toml gets the section alone.
    let plan = init_plan(&a, &facts(&["pyproject.toml"]), None);
    assert_eq!(plan.len(), 1);
    assert_eq!(plan[0].content, RUFF_PYPROJECT_SECTION);
}

// ---------------------------------------------------------------------------
// Fix reports
// ---------------------------------------------------------------------------

#[test]
fn fix_reports_combine_in_order() {
    let issue = CheckIssue::new("a.js".to_string(), Severity::Error, "bad".to_string(), "biome".to_string());
    let r1 = FixReport {
        fixed_count: 2,
        remaining_count: 1,
        fixed_issues: vec!["x".to_string(), "y".to_string()],
        remaining_issues: vec![issue],
    };
    let r2 = FixReport { fixed_count: 1, remaining_count: 0, fixed_issues: vec!["z".to_string()], remaining_issues: vec![] };
    let c = combine_fix_reports(&vec![Some(r1), None, Some(r2)]);
    assert_eq!(c.fixed_count, 3);
    assert_eq!(c.fixed_issues, vec!["x".to_string(), "y".to_string(), "z".to_string()]);
    assert_eq!(c.remaining_count, 1);
    assert_eq!(c.remaining_issues[0].file, "a.js");

    let empty = combine_fix_reports(&vec![]);
    assert_eq!(empty.fixed_count, 0);
    assert_eq!(empty.remaining_count, 0);
}

// ---------------------------------------------------------------------------
// Citations
// ---------------------------------------------------------------------------

use appz::postprocess::{citations_from_scan, convert_links_to_citations, resolve_url, LinkMatch};

#[test]
fn citations_number_targets_once() {
    let md = "See [Rust](https://rust-lang.org \"Lang\") and [again](https://rust-lang.org).";
    assert_eq!(
        convert_links_to_citations(md, ""),
        "See Rust⟨1⟩ and again⟨1⟩.\n\n## References\n\n⟨1⟩ https://rust-lang.org: Lang - Rust\n"
    );
}

#[test]
fn citations_of_images_and_relative_links() {
    let md = "![logo](/img/a.png) then [doc](guide/x.html) and [mail](mailto:a@b.c)";
    assert_eq!(
        convert_links_to_citations(md, "https://ex.com/a/b"),
        "![logo⟨1⟩] then doc⟨2⟩ and mail⟨3⟩\n\n## References\n\n\
         ⟨1⟩ https://ex.com/a/b/img/a.png: logo\n\
         ⟨2⟩ https://ex.com/a/guide/x.html: doc\n\
         ⟨3⟩ mailto:a@b.c: mail\n"
    );
}

#[test]
fn citations_without_links_keep_text() {
    assert_eq!(convert_links_to_citations("plain text", "https://ex.com"), "plain text");
}

#[test]
fn citations_suffixes() {
    let md = "[T](http://x.y \"T\") [](http://z.w)";
    assert_eq!(
        convert_links_to_citations(md, ""),
        "T⟨1⟩ ⟨2⟩\n\n## References\n\n⟨1⟩ http://x.y: T\n⟨2⟩ http://z.w\n"
    );
}

#[test]
fn citations_from_given_scan() {
    let link = |full: &str, text: &str, url: &str, title: &str| LinkMatch {
        full: full.to_string(),
        text: text.to_string(),
        url: url.to_string(),
        title: title.to_string(),
    };
    let gaps = vec!["a ".to_string(), " b ".to_string()];
    let links = vec![link("[x](u)", "x", "u", ""), link("![y](v)", "y", "v", "Tv")];
    assert_eq!(
        citations_from_scan(&gaps, &links, " end", ""),
        "a x⟨1⟩ b ![y⟨2⟩] end\n\n## References\n\n⟨1⟩ u: x\n⟨2⟩ v: Tv - y\n"
    );
}

#[test]
fn resolve_url_forms() {
    assert_eq!(resolve_url("https://ex.com//", "/p"), "https://ex.com/p");
    assert_eq!(resolve_url("https://ex.com/a/", "b"), "https://ex.com/a/b");
    assert_eq!(resolve_url("not a url", "b"), "b");
    assert_eq!(resolve_url("https://ex.com", "//cdn.x/y"), "//cdn.x/y");
}

#[test]
fn searxng_answer_fallback_rule() {
    assert!(searxng_answer_stands(&Ok(SearchResponse { web: Some(vec![result("u")]) })));
    assert!(!searxng_answer_stands(&Ok(SearchResponse { web: Some(vec![]) })));
    assert!(!searxng_answer_stands(&Ok(SearchResponse { web: None })));
    assert!(!searxng_answer_stands(&Err("down".to_string())));
}

// ---------------------------------------------------------------------------
// Code search
// ---------------------------------------------------------------------------

use appz::grep::collect_matches;

fn obj(ms: Vec<(&str, JsonValue)>) -> JsonValue {
    JsonValue::Object(ms.into_iter().map(|(k, v)| (k.to_string(), v)).collect())
}

fn rg_match(line: u64, text: &str, start: u64) -> JsonValue {
    obj(vec![
        ("type", JsonValue::String("match".to_string())),
        (
            "data",
            obj(vec![
                ("line_number", JsonValue::Number(JsonNumber::PosInt(line))),
                ("lines", obj(vec![("text", JsonValue::String(text.to_string()))])),
                ("submatches", JsonValue::Array(vec![obj(vec![("start", JsonValue::Number(JsonNumber::PosInt(start)))])])),
            ]),
        ),
    ])
}

fn rg_lines() -> Vec<Result<JsonValue, String>> {
    vec![
        Ok(obj(vec![("type", JsonValue::String("begin".to_string()))])),
        Ok(rg_match(3, "  let x = 1;\n", 6)),
        Ok(rg_match(9, "x += 1", 0)),
        Err("expected value at line 1 column 1".to_string()),
    ]
}

#[test]
fn collect_matches_stops_at_max() {
    let ms = collect_matches(rg_lines(), 2).unwrap();
    assert_eq!(ms.len(), 2);
    assert_eq!((ms[0].line, ms[0].column, ms[0].snippet.as_str()), (3, Some(6), "let x = 1;"));
    assert_eq!((ms[1].line, ms[1].column, ms[1].snippet.as_str()), (9, Some(0), "x += 1"));
}

#[test]
fn collect_matches_reports_unreadable_line() {
    assert_eq!(collect_matches(rg_lines(), 5).unwrap_err(), "expected value at line 1 column 1");
}

#[test]
fn collect_matches_takes_one_when_max_is_zero() {
    let ms = collect_matches(rg_lines(), 0).unwrap();
    assert_eq!(ms.len(), 1);
    assert_eq!(ms[0].line, 3);
    assert!(collect_matches(vec![], 3).unwrap().is_empty());
}

// ---------------------------------------------------------------------------
// PDF
// ---------------------------------------------------------------------------

use appz::pdf::{convert_pdf_to_html, pdf_text_to_html, PDF_HTML_HEAD, PDF_HTML_TAIL};

#[test]
fn pdf_text_paragraphs() {
    let html = pdf_text_to_html("a < b\n\nsecond\npara\n\n  \n");
    assert_eq!(
        html,
        format!("{}<p>a &lt; b</p>\n<p>second<br>\npara</p>{}", PDF_HTML_HEAD, PDF_HTML_TAIL)
    );
    assert!(html.starts_with("<!DOCTYPE html><html lang=\"en\">"));
}

#[test]
fn pdf_text_without_paragraphs() {
    assert_eq!(pdf_text_to_html("  "), format!("{}<p></p>{}", PDF_HTML_HEAD, PDF_HTML_TAIL));
    assert_eq!(
        pdf_text_to_html("\n\nx \"y\"\n\n"),
        format!("{}<p>x &quot;y&quot;</p>{}", PDF_HTML_HEAD, PDF_HTML_TAIL)
    );
}

#[test]
fn pdf_conversion_results() {
    assert_eq!(convert_pdf_to_html(Err("bad xref".to_string())).unwrap_err(), "bad xref");
    assert_eq!(
        convert_pdf_to_html(Ok("a\n\nb".to_string())).unwrap(),
        format!("{}<p>a</p>\n<p>b</p>{}", PDF_HTML_HEAD, PDF_HTML_TAIL)
    );
}

// ---------------------------------------------------------------------------
// DuckDuckGo pages
// ---------------------------------------------------------------------------

const DDG_PAGE: &str = r#"<html><body>
<div class="result results_links web-result">
  <a class="result__a" href="https://duckduckgo.com/l/?uddg=https%3A%2F%2Fex.com%2Fone">  One  </a>
  <a class="result__snippet">First <b>hit</b></a>
</div>
<div class="result web-result">
  <a class="result__a">no href</a>
  <a class="result__snippet">s</a>
</div>
<div class="result web-result"><a class="result__a" href="https://ex.com/two">Two</a></div>
<div class="result">not a web result</div>
<form action="/html/" method="post">
  <input type="submit" value="Previous">
  <input type="hidden" name="s" value="0">
</form>
<form action="/html/" method="post">
  <input type="submit" class="btn" value="Next">
  <input type="hidden" name="q" value="rust">
  <input type="hidden" name="s" value="10">
  <input type="hidden" name="nameless">
</form>
</body></html>"#;

#[test]
fn ddg_page_is_read() {
    match ddg_page_event(DDG_PAGE) {
        DdgEvent::Page { anomaly, blocks, next_params } => {
            assert!(!anomaly);
            assert_eq!(blocks.len(), 3);
            assert_eq!(blocks[0].href.as_deref(), Some("https://duckduckgo.com/l/?uddg=https%3A%2F%2Fex.com%2Fone"));
            assert_eq!(blocks[0].title, "  One  ");
            assert_eq!(blocks[0].snippet.as_deref(), Some("First hit"));
            assert_eq!(blocks[1].href, None);
            assert_eq!(blocks[2].snippet, None);
            assert_eq!(next_params, Some(pairs(&[("q", "rust"), ("s", "10")])));
        }
        other => panic!("unexpected {:?}", other),
    }
}

#[test]
fn ddg_page_feeds_the_search() {
    let mut s = DdgSearch::new("rust", 5, &options(5));
    let _ = s.step(DdgEvent::Start);
    match s.step(ddg_page_event(DDG_PAGE)) {
        DdgAction::Fetch { post, params, delay_ms } => {
            assert!(post);
            assert_eq!(params, pairs(&[("q", "rust"), ("s", "10")]));
            assert_eq!(delay_ms, 1000);
        }
        other => panic!("unexpected {:?}", other),
    }
    assert_eq!(s.results.len(), 1);
    assert_eq!(s.results[0].url, "https://ex.com/one");
    assert_eq!(s.results[0].title, "One");
    assert_eq!(s.results[0].description, "First hit");
}

#[test]
fn ddg_anti_bot_page() {
    let html = r#"<html><body><div class="anomaly-modal__modal">are you a robot?</div></body></html>"#;
    match ddg_page_event(html) {
        DdgEvent::Page { anomaly, blocks, next_params } => {
            assert!(anomaly);
            assert!(blocks.is_empty());
            assert!(next_params.is_none());
        }
        other => panic!("unexpected {:?}", other),
    }
}

#[test]
fn next_page_params_rules() {
    assert_eq!(get_next_page_params("<form><input name=a value=b></form>"), None);
    let forms = vec![
        (true, vec![(Some("x".to_string()), None)]),
        (false, vec![(Some("a".to_string()), Some("1".to_string()))]),
        (true, vec![(None, Some("v".to_string())), (Some("b".to_string()), Some("2".to_string()))]),
    ];
    assert_eq!(next_params_of_forms(&forms), Some(pairs(&[("b", "2")])));
    assert_eq!(next_params_of_forms(&vec![]), None);
}

#[test]
fn analyse_project_from_names() {
    let fws = vec![
        FrameworkInfo {
            slug: Some("nextjs".to_string()),
            detectors: Some(FrameworkDetectors { every: None, some: Some(vec![Detector::MatchPackage("next".to_string())]) }),
        },
        FrameworkInfo {
            slug: Some("astro".to_string()),
            detectors: Some(FrameworkDetectors { every: None, some: Some(vec![Detector::Path("astro.config.mjs".to_string())]) }),
        },
    ];
    let a = analyse_project(&facts(&["package.json", "tsconfig.json", "astro.config.mjs", ".git", "src"]), &fws);
    assert_eq!(a.languages, vec![DetectedLanguage::JavaScript, DetectedLanguage::TypeScript, DetectedLanguage::Css]);
    assert_eq!(a.frameworks, vec!["astro".to_string()]);
    assert!(a.has_tsconfig && a.is_git_repo && !a.has_biome_config);
}
