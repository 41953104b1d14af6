//! Crawling helpers: markdown clean-up, HTML escaping, search result types
//! and PDF metadata.
use vstd::prelude::*;

use crate::json::{json_get, json_str, JsonValue};
use crate::providers::ascii_lower_vec;
use crate::text::{ascii_lower_str, contains, ends_with, ends_with_exec, find_exec, str_contains,
    str_eq};
use crate::text::{occurs_at, occurs_at_exec, replace_char, replace_char_exec, replace_str,
    starts_with, string_from, to_chars};

verus! {

// ---------------------------------------------------------------------------
// Markdown and HTML text
// ---------------------------------------------------------------------------

/// `str::replace` with a non-empty text pattern, on characters.
pub fn replace_str_exec(v: &[char], p: &[char], r: &[char]) -> (out: Vec<char>)
    requires
        p@.len() > 0,
    ensures
        out@ == replace_str(v@, p@, r@),
{
    let mut out: Vec<char> = Vec::new();
    let mut i: usize = 0;
    let n = v.len();
    assert(v@.skip(0) =~= v@);
    while i < n
        invariant
            n == v@.len(),
            i <= n,
            p@.len() > 0,
            out@ + replace_str(v@.skip(i as int), p@, r@) == replace_str(v@, p@, r@),
        decreases n - i,
    {
        let ghost o = out@;
        let ghost t = v@.skip(i as int);
        if occurs_at_exec(v, p, i) {
            assert(t.subrange(0, p@.len() as int) =~= v@.subrange(i as int, i + p@.len()));
            assert(starts_with(t, p@));
            let mut k: usize = 0;
            while k < r.len()
                invariant
                    k <= r@.len(),
                    out@ == o + r@.take(k as int),
                decreases r.len() - k,
            {
                out.push(r[k]);
                k += 1;
                assert(out@ =~= o + r@.take(k as int));
            }
            assert(r@.take(r@.len() as int) =~= r@);
            assert(t.skip(p@.len() as int) =~= v@.skip(i + p@.len()));
            i = i + p.len();
        } else {
            proof {
                if p@.len() <= t.len() {
                    assert(t.subrange(0, p@.len() as int) =~= v@.subrange(i as int, i + p@.len()));
                }
            }
            assert(!starts_with(t, p@));
            out.push(v[i]);
            assert(t.drop_first() =~= v@.skip(i + 1));
            i = i + 1;
        }
        assert(out@ + replace_str(v@.skip(i as int), p@, r@) =~= o + replace_str(t, p@, r@));
    }
    assert(out@ + Seq::<char>::empty() =~= out@);
    out
}

/// Markdown with 4-space-indented code fences moved to the margin.
pub open spec fn spec_fix_code_blocks(markdown: Seq<char>) -> Seq<char> {
    replace_str(markdown, "    ```"@, "```"@)
}

/// Fix malformed fenced code blocks (4-space indented ```).
pub fn fix_code_blocks(markdown: &str) -> (r: String)
    ensures
        r@ == spec_fix_code_blocks(markdown@),
{
    let v = to_chars(markdown);
    let p = to_chars("    ```");
    proof {
        reveal_strlit("    ```");
    }
    let r = to_chars("```");
    string_from(&replace_str_exec(&v, &p, &r))
}

/// Text with `&`, `<`, `>`, `"` and `'` written as HTML entities.
pub open spec fn spec_escape_html(s: Seq<char>) -> Seq<char> {
    replace_char(
        replace_char(
            replace_char(replace_char(replace_char(s, '&', "&amp;"@), '<', "&lt;"@), '>', "&gt;"@),
            '"',
            "&quot;"@,
        ),
        '\'',
        "&#39;"@,
    )
}

/// Escape HTML special characters.
pub fn escape_html(s: &str) -> (r: String)
    ensures
        r@ == spec_escape_html(s@),
{
    let v = to_chars(s);
    let a = replace_char_exec(&v, '&', &to_chars("&amp;"));
    let b = replace_char_exec(&a, '<', &to_chars("&lt;"));
    let c = replace_char_exec(&b, '>', &to_chars("&gt;"));
    let d = replace_char_exec(&c, '"', &to_chars("&quot;"));
    let e = replace_char_exec(&d, '\'', &to_chars("&#39;"));
    string_from(&e)
}

// ---------------------------------------------------------------------------
// Search types
// ---------------------------------------------------------------------------

/// Options of a web search.
#[derive(Debug, Clone)]
pub struct SearchOptions {
    pub tbs: Option<String>,
    pub filter: Option<String>,
    pub lang: Option<String>,
    pub country: Option<String>,
    pub location: Option<String>,
    pub num_results: usize,
    pub timeout_ms: u64,
}

/// The timeout of a search when none is given, in milliseconds.
pub fn default_timeout() -> (r: u64)
    ensures
        r == 5000,
{
    5000
}

/// One web search hit.
#[derive(Debug, Clone)]
pub struct WebSearchResult {
    pub url: String,
    pub title: String,
    pub description: String,
}

/// The answer to a search.
#[derive(Debug)]
pub struct SearchResponse {
    pub web: Option<Vec<WebSearchResult>>,
}

// ---------------------------------------------------------------------------
// PDF metadata
// ---------------------------------------------------------------------------

/// The metadata of a PDF file.
#[derive(Debug, Clone)]
pub struct PDFMetadata {
    pub num_pages: i32,
    pub title: Option<String>,
}

/// The metadata of a PDF from what loading its metadata gave: the page
/// count (as `i32`, keeping the low bits) and the title, or the error's
/// message.
pub fn get_pdf_metadata(loaded: Result<(u32, Option<String>), String>) -> (r: Result<
    PDFMetadata,
    String,
>)
    ensures
        match loaded {
            Ok((pages, title)) => r matches Ok(m) && m.num_pages == pages as i32 && m.title == title,
            Err(e) => r matches Err(msg) && msg@ == "Failed to load PDF metadata: "@ + e@,
        },
{
    match loaded {
        Ok((pages, title)) => Ok(PDFMetadata { num_pages: pages as i32, title }),
        Err(e) => {
            let mut m = String::new();
            crate::text::append(&mut m, "Failed to load PDF metadata: ");
            crate::text::append(&mut m, e.as_str());
            Err(m)
        },
    }
}

// ---------------------------------------------------------------------------
// Documents
// ---------------------------------------------------------------------------

/// The kinds of office documents the converter reads.
#[derive(Debug, Clone, Copy, PartialEq, Eq, Structural)]
pub enum DocumentType {
    Docx,
    Doc,
    Odt,
    Rtf,
    Xlsx,
}

/// A URL names a file with this extension: it ends with it, or the
/// extension is followed by `/`.
pub open spec fn names_ext(url: Seq<char>, ext: Seq<char>) -> bool {
    ends_with(url, ext) || contains(url, ext + "/"@)
}

/// The document type a URL suggests, compared without regard to case
/// (Word by default). `str::to_lowercase` is what the comparison is made
/// on; the extensions are ASCII without a `k`, and the only non-ASCII
/// character whose lowercase is an ASCII letter is the Kelvin sign (to
/// `k`), so ASCII-lowercased text gives the same answers.
pub open spec fn spec_document_type_from_url(url: Seq<char>) -> DocumentType {
    let u = ascii_lower_str(url);
    if names_ext(u, ".docx"@) {
        DocumentType::Docx
    } else if names_ext(u, ".doc"@) {
        DocumentType::Doc
    } else if names_ext(u, ".odt"@) {
        DocumentType::Odt
    } else if names_ext(u, ".rtf"@) {
        DocumentType::Rtf
    } else if names_ext(u, ".xlsx"@) || names_ext(u, ".xls"@) {
        DocumentType::Xlsx
    } else {
        DocumentType::Docx
    }
}

/// Whether a lowercased URL names a file with an extension.
fn names_ext_exec(u: &[char], ext: &str) -> (r: bool)
    ensures
        r == names_ext(u@, ext@),
{
    let e = to_chars(ext);
    if ends_with_exec(u, e.as_slice()) {
        return true;
    }
    let mut es = crate::text::string_from(e.as_slice());
    crate::text::append(&mut es, "/");
    let ev = to_chars(es.as_str());
    find_exec(u, ev.as_slice()).is_some()
}

/// The document type a URL suggests.
pub fn document_type_from_url(url: &str) -> (r: DocumentType)
    ensures
        r == spec_document_type_from_url(url@),
{
    let u = ascii_lower_vec(to_chars(url).as_slice());
    if names_ext_exec(u.as_slice(), ".docx") {
        DocumentType::Docx
    } else if names_ext_exec(u.as_slice(), ".doc") {
        DocumentType::Doc
    } else if names_ext_exec(u.as_slice(), ".odt") {
        DocumentType::Odt
    } else if names_ext_exec(u.as_slice(), ".rtf") {
        DocumentType::Rtf
    } else if names_ext_exec(u.as_slice(), ".xlsx") || names_ext_exec(u.as_slice(), ".xls") {
        DocumentType::Xlsx
    } else {
        DocumentType::Docx
    }
}

/// The document type a `Content-Type` names, compared without regard to
/// case (see `spec_document_type_from_url` on why ASCII case folding gives
/// the same answers here).
pub open spec fn spec_document_type_from_content_type(ct: Seq<char>) -> Option<DocumentType> {
    let c = ascii_lower_str(ct);
    if contains(c, "application/vnd.openxmlformats-officedocument.wordprocessingml.document"@) {
        Some(DocumentType::Docx)
    } else if contains(c, "application/msword"@) {
        Some(DocumentType::Doc)
    } else if contains(c, "application/vnd.oasis.opendocument.text"@) {
        Some(DocumentType::Odt)
    } else if contains(c, "application/rtf"@) || contains(c, "text/rtf"@) {
        Some(DocumentType::Rtf)
    } else if contains(c, "application/vnd.openxmlformats-officedocument.spreadsheetml.sheet"@)
        || contains(c, "application/vnd.ms-excel"@) {
        Some(DocumentType::Xlsx)
    } else {
        None
    }
}

/// Whether lowercased text holds a pattern.
fn holds_text(c: &[char], p: &str) -> (r: bool)
    ensures
        r == contains(c@, p@),
{
    find_exec(c, to_chars(p).as_slice()).is_some()
}

/// The document type a `Content-Type` header names, if any.
pub fn document_type_from_content_type(ct: &str) -> (r: Option<DocumentType>)
    ensures
        r == spec_document_type_from_content_type(ct@),
{
    let c = ascii_lower_vec(to_chars(ct).as_slice());
    if holds_text(c.as_slice(), "application/vnd.openxmlformats-officedocument.wordprocessingml.document") {
        Some(DocumentType::Docx)
    } else if holds_text(c.as_slice(), "application/msword") {
        Some(DocumentType::Doc)
    } else if holds_text(c.as_slice(), "application/vnd.oasis.opendocument.text") {
        Some(DocumentType::Odt)
    } else if holds_text(c.as_slice(), "application/rtf") || holds_text(c.as_slice(), "text/rtf") {
        Some(DocumentType::Rtf)
    } else if holds_text(c.as_slice(), "application/vnd.openxmlformats-officedocument.spreadsheetml.sheet")
        || holds_text(c.as_slice(), "application/vnd.ms-excel") {
        Some(DocumentType::Xlsx)
    } else {
        None
    }
}

/// The HTML a request body carries: its `html` member when it is an
/// object, or itself when it is a string.
pub open spec fn spec_html_field(body: Option<JsonValue>) -> Option<Seq<char>> {
    match body {
        Some(JsonValue::Object(ms)) => match json_get(JsonValue::Object(ms), "html"@) {
            Some(v) => json_str(v),
            None => None,
        },
        Some(JsonValue::String(s)) => Some(s@),
        _ => None,
    }
}

/// The HTML of a request body read as JSON (or as text, a JSON string).
pub fn get_html_field(body: Option<&JsonValue>) -> (r: Option<String>)
    ensures
        match spec_html_field(
            match body {
                Some(b) => Some(*b),
                None => None,
            },
        ) {
            Some(h) => r matches Some(s) && s@ == h,
            None => r is None,
        },
{
    match body {
        Some(b) => match b {
            JsonValue::Object(_) => match b.get("html") {
                Some(v) => match v.as_str() {
                    Some(t) => Some(String::from_str(t)),
                    None => None,
                },
                None => None,
            },
            JsonValue::String(s) => Some(s.clone()),
            _ => None,
        },
        None => None,
    }
}

// ---------------------------------------------------------------------------
// Search result links
// ---------------------------------------------------------------------------

/// The query pairs of a URL as `url::Url::parse` and `Url::query_pairs`
/// give them (names and values percent- and plus-decoded), or `None` when
/// the text is no URL.
pub uninterp spec fn url_query_pairs(url: Seq<char>) -> Option<Seq<(Seq<char>, Seq<char>)>>;

/// The views of pairs of texts.
pub open spec fn text_pairs(v: Seq<(String, String)>) -> Seq<(Seq<char>, Seq<char>)> {
    Seq::new(v.len(), |i: int| (v[i].0@, v[i].1@))
}

/// Parses a URL with `url::Url::parse` and lists its query pairs with
/// `Url::query_pairs`. The contract names the result only: URL parsing and
/// form decoding are the crate's.
#[verifier::external_body]
fn query_pairs_of(url: &str) -> (r: Option<Vec<(String, String)>>)
    ensures
        match r {
            Some(v) => url_query_pairs(url@) == Some(text_pairs(v@)),
            None => url_query_pairs(url@) is None,
        },
{
    match url::Url::parse(url) {
        Ok(u) => Some(u.query_pairs().map(|(k, v)| (k.into_owned(), v.into_owned())).collect()),
        Err(_) => None,
    }
}

/// What `urlencoding::decode` gives: the text with `%XX` escapes decoded,
/// or `None` when the decoded bytes are not UTF-8.
pub uninterp spec fn percent_decoded(s: Seq<char>) -> Option<Seq<char>>;

/// Decodes percent escapes with `urlencoding::decode`. The contract names
/// the result only.
#[verifier::external_body]
fn percent_decode(s: &str) -> (r: Option<String>)
    ensures
        match r {
            Some(d) => percent_decoded(s@) == Some(d@),
            None => percent_decoded(s@) is None,
        },
{
    match urlencoding::decode(s) {
        Ok(d) => Some(d.into_owned()),
        Err(_) => None,
    }
}

/// The value of the first pair with this name.
pub open spec fn first_value(ps: Seq<(Seq<char>, Seq<char>)>, name: Seq<char>) -> Option<Seq<char>>
    decreases ps.len(),
{
    if ps.len() == 0 {
        None
    } else if ps[0].0 == name {
        Some(ps[0].1)
    } else {
        first_value(ps.drop_first(), name)
    }
}

/// The target of a DuckDuckGo result link: the `uddg` query value of a
/// redirect link, decoded once more; the link itself otherwise (or when
/// the value does not decode).
pub open spec fn spec_clean_ddg_url(href: Seq<char>) -> Seq<char> {
    if contains(href, "uddg="@) {
        match url_query_pairs(href) {
            Some(ps) => match first_value(ps, "uddg"@) {
                Some(v) => match percent_decoded(v) {
                    Some(d) => d,
                    None => href,
                },
                None => href,
            },
            None => href,
        }
    } else {
        href
    }
}

/// The target URL of a DuckDuckGo result link.
pub fn clean_ddg_url(href: &str) -> (r: String)
    ensures
        r@ == spec_clean_ddg_url(href@),
{
    if !str_contains(href, "uddg=") {
        return String::from_str(href);
    }
    match query_pairs_of(href) {
        None => String::from_str(href),
        Some(ps) => {
            let ghost tp = text_pairs(ps@);
            let mut i: usize = 0;
            assert(tp.skip(0) =~= tp);
            while i < ps.len()
                invariant
                    i <= ps@.len(),
                    tp == text_pairs(ps@),
                    contains(href@, "uddg="@),
                    url_query_pairs(href@) == Some(tp),
                    first_value(tp, "uddg"@) == first_value(tp.skip(i as int), "uddg"@),
                decreases ps.len() - i,
            {
                assert(tp.skip(i as int).drop_first() =~= tp.skip(i + 1));
                assert(tp.skip(i as int)[0] == (ps@[i as int].0@, ps@[i as int].1@));
                if str_eq(ps[i].0.as_str(), "uddg") {
                    assert(first_value(tp, "uddg"@) == Some(ps@[i as int].1@));
                    let dec = percent_decode(ps[i].1.as_str());
                    assert(contains(href@, "uddg="@));
                    assert(url_query_pairs(href@) == Some(tp));
                    match dec {
                        Some(d) => {
                            assert(percent_decoded(ps@[i as int].1@) == Some(d@));
                            return d;
                        },
                        None => {
                            return String::from_str(href);
                        },
                    }
                }
                i += 1;
            }
            assert(tp.skip(i as int).len() == 0);
            String::from_str(href)
        },
    }
}

} // verus!
