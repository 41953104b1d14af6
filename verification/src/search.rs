//! Web search over DuckDuckGo's HTML pages and SearXNG's JSON API.
//!
//! Each search is a state machine: the program fetches what an action
//! asks for (waiting first when it says so) and hands back what came as an
//! event; `step` decides what to fetch next or what the search returns.
use vstd::prelude::*;

use crate::crawl::{clean_ddg_url, spec_clean_ddg_url, SearchOptions, SearchResponse, WebSearchResult};
use crate::text::{append, contains, str_contains, str_eq, str_trim, strs, trim, usize_to_string, decimal};

verus! {

// ---------------------------------------------------------------------------
// Common parts
// ---------------------------------------------------------------------------

/// A result as text: URL, title, description.
pub open spec fn result_view(r: WebSearchResult) -> (Seq<char>, Seq<char>, Seq<char>) {
    (r.url@, r.title@, r.description@)
}

/// The views of results.
pub open spec fn result_views(v: Seq<WebSearchResult>) -> Seq<(Seq<char>, Seq<char>, Seq<char>)> {
    Seq::new(v.len(), |i: int| result_view(v[i]))
}

/// The views of query parameters.
pub open spec fn param_views(v: Seq<(String, String)>) -> Seq<(Seq<char>, Seq<char>)> {
    Seq::new(v.len(), |i: int| (v[i].0@, v[i].1@))
}

/// What a search returns: nothing when no result came, else at most
/// `n` of the results.
pub open spec fn finish_view(results: Seq<(Seq<char>, Seq<char>, Seq<char>)>, n: int) -> Option<
    Seq<(Seq<char>, Seq<char>, Seq<char>)>,
> {
    if results.len() == 0 {
        None
    } else if results.len() <= n {
        Some(results)
    } else {
        Some(results.take(n))
    }
}

/// The view of a search answer.
pub open spec fn response_view(r: SearchResponse) -> Option<Seq<(Seq<char>, Seq<char>, Seq<char>)>> {
    match r.web {
        Some(v) => Some(result_views(v@)),
        None => None,
    }
}

fn copy_result(r: &WebSearchResult) -> (c: WebSearchResult)
    ensures
        result_view(c) == result_view(*r),
{
    WebSearchResult { url: r.url.clone(), title: r.title.clone(), description: r.description.clone() }
}

/// What a search returns from its results.
fn finish(results: &Vec<WebSearchResult>, n: usize) -> (r: SearchResponse)
    ensures
        response_view(r) == finish_view(result_views(results@), n as int),
{
    if results.len() == 0 {
        return SearchResponse { web: None };
    }
    let mut out: Vec<WebSearchResult> = Vec::new();
    let mut i: usize = 0;
    while i < results.len() && i < n
        invariant
            i <= results@.len(),
            i <= n,
            result_views(out@) == result_views(results@).take(i as int),
        decreases results.len() - i,
    {
        let ghost before = result_views(out@);
        out.push(copy_result(&results[i]));
        assert(result_views(out@) =~= before.push(result_view(results@[i as int])));
        assert(result_views(out@) =~= result_views(results@).take(i + 1));
        i += 1;
    }
    if results.len() <= n {
        assert(result_views(results@).take(i as int) =~= result_views(results@));
    }
    SearchResponse { web: Some(out) }
}

/// A parameter pair.
fn param(k: &str, v: String) -> (r: (String, String))
    ensures
        r.0@ == k@,
        r.1@ == v@,
{
    (String::from_str(k), v)
}

fn copy_params(v: &Vec<(String, String)>) -> (r: Vec<(String, String)>)
    ensures
        param_views(r@) == param_views(v@),
{
    let mut r: Vec<(String, String)> = Vec::new();
    let mut i: usize = 0;
    while i < v.len()
        invariant
            i <= v@.len(),
            param_views(r@) == param_views(v@).take(i as int),
        decreases v.len() - i,
    {
        let ghost before = param_views(r@);
        r.push((v[i].0.clone(), v[i].1.clone()));
        assert(param_views(r@) =~= before.push((v@[i as int].0@, v@[i as int].1@)));
        assert(param_views(r@) =~= param_views(v@).take(i + 1));
        i += 1;
    }
    assert(param_views(v@).take(v@.len() as int) =~= param_views(v@));
    r
}

// ---------------------------------------------------------------------------
// DuckDuckGo
// ---------------------------------------------------------------------------

/// What `str::to_lowercase` gives.
pub uninterp spec fn lowercase(s: Seq<char>) -> Seq<char>;

/// `str::to_lowercase`. The contract names the result only: Unicode case
/// mapping is the standard library's.
#[verifier::external_body]
fn to_lowercase(s: &str) -> (r: String)
    ensures
        r@ == lowercase(s@),
{
    s.to_lowercase()
}

/// The query of a DuckDuckGo search: the terms, safe search on, the
/// region (the location, or country and language lowercased), and the
/// time filter when it is a day, week, month, year or a date range.
pub open spec fn spec_ddg_params(query: Seq<char>, o: SearchOptions) -> Seq<(Seq<char>, Seq<char>)> {
    let lang = match o.lang {
        Some(l) => l@,
        None => "en"@,
    };
    let country = match o.country {
        Some(c) => c@,
        None => "us"@,
    };
    seq![("q"@, query), ("kp"@, "1"@)] + seq![
        (
            "kl"@,
            match o.location {
                Some(l) => l@,
                None => lowercase(country) + "-"@ + lowercase(lang),
            },
        ),
    ] + match o.tbs {
        Some(t) => if t@ == "d"@ || t@ == "w"@ || t@ == "m"@ || t@ == "y"@ || contains(t@, ".."@) {
            seq![("df"@, t@)]
        } else {
            Seq::empty()
        },
        None => Seq::empty(),
    }
}

/// What the program read of one result block of a results page: the
/// title link's `href` (`None` without the link or the attribute), the
/// link's text, and the snippet's text (`None` without a snippet).
#[derive(Debug)]
pub struct DdgBlock {
    pub href: Option<String>,
    pub title: String,
    pub snippet: Option<String>,
}

/// The result a block gives: all three parts trimmed and not empty, the
/// link cleaned of DuckDuckGo's redirect.
pub open spec fn block_result(b: DdgBlock) -> Option<(Seq<char>, Seq<char>, Seq<char>)> {
    match (b.href, b.snippet) {
        (Some(h), Some(s)) => {
            let raw = trim(h@);
            let t = trim(b.title@);
            let d = trim(s@);
            if raw.len() > 0 && t.len() > 0 && d.len() > 0 {
                Some((spec_clean_ddg_url(raw), t, d))
            } else {
                None
            }
        },
        _ => None,
    }
}

/// The new results of a page's blocks, skipping URLs already seen, and the
/// URLs seen after it.
pub open spec fn page_results(bs: Seq<DdgBlock>, seen: Seq<Seq<char>>) -> (
    Seq<(Seq<char>, Seq<char>, Seq<char>)>,
    Seq<Seq<char>>,
)
    decreases bs.len(),
{
    if bs.len() == 0 {
        (Seq::empty(), seen)
    } else {
        let (rs, s) = page_results(bs.drop_last(), seen);
        match block_result(bs.last()) {
            Some(r) => if s.contains(r.0) {
                (rs, s)
            } else {
                (rs.push(r), s.push(r.0))
            },
            None => (rs, s),
        }
    }
}

/// A DuckDuckGo search in progress.
#[derive(Debug)]
pub struct DdgSearch {
    pub num_results: usize,
    pub params: Vec<(String, String)>,
    pub results: Vec<WebSearchResult>,
    pub seen: Vec<String>,
    pub is_first_page: bool,
    pub antibot_retries: u32,
}

/// What came of a fetch.
#[derive(Debug)]
pub enum DdgEvent {
    /// The search begins.
    Start,
    /// The request failed, with the error's text.
    RequestFailed(String),
    /// The page could not be read, with the error's text.
    ReadFailed(String),
    /// A page: whether it is the anti-bot page, its result blocks, and the
    /// parameters of its next-page form, if it has one.
    Page { anomaly: bool, blocks: Vec<DdgBlock>, next_params: Option<Vec<(String, String)>> },
}

/// What to do next.
#[derive(Debug)]
pub enum DdgAction {
    /// Wait `delay_ms`, then fetch the results page with these parameters:
    /// by GET for the first page, else by posting the form.
    Fetch { post: bool, params: Vec<(String, String)>, delay_ms: u64 },
    /// The search is over with this answer.
    Done(Result<SearchResponse, String>),
}

/// An action's view.
#[verifier::ext_equal]
pub enum DdgActionView {
    Fetch(bool, Seq<(Seq<char>, Seq<char>)>, u64),
    Done(Result<Option<Seq<(Seq<char>, Seq<char>, Seq<char>)>>, Seq<char>>),
}

/// The view of an action.
pub open spec fn ddg_action_view(a: DdgAction) -> DdgActionView {
    match a {
        DdgAction::Fetch { post, params, delay_ms } => DdgActionView::Fetch(
            post,
            param_views(params@),
            delay_ms,
        ),
        DdgAction::Done(Ok(r)) => DdgActionView::Done(Ok(response_view(r))),
        DdgAction::Done(Err(e)) => DdgActionView::Done(Err(e@)),
    }
}

/// What a search state holds, as text.
#[verifier::ext_equal]
pub struct DdgView {
    pub num_results: int,
    pub params: Seq<(Seq<char>, Seq<char>)>,
    pub results: Seq<(Seq<char>, Seq<char>, Seq<char>)>,
    pub seen: Seq<Seq<char>>,
    pub is_first_page: bool,
    pub antibot_retries: int,
}

/// The view of a search state.
pub open spec fn ddg_view(s: DdgSearch) -> DdgView {
    DdgView {
        num_results: s.num_results as int,
        params: param_views(s.params@),
        results: result_views(s.results@),
        seen: strs(s.seen@),
        is_first_page: s.is_first_page,
        antibot_retries: s.antibot_retries as int,
    }
}

/// Whether the search fetches again: fewer results than asked for, and at
/// most three anti-bot retries so far.
pub open spec fn goes_on(s: DdgView) -> bool {
    s.results.len() < s.num_results && s.antibot_retries <= 3
}

/// The fetch of the current page.
pub open spec fn fetch_now(s: DdgView, delay: u64) -> DdgActionView {
    DdgActionView::Fetch(!s.is_first_page, s.params, delay)
}

/// The answer from the results so far.
pub open spec fn done_view(s: DdgView) -> DdgActionView {
    DdgActionView::Done(Ok(finish_view(s.results, s.num_results)))
}

/// What a step does: the state after it, and the action.
pub open spec fn spec_ddg_step(s: DdgView, e: DdgEvent) -> (DdgView, DdgActionView) {
    match e {
        DdgEvent::Start => (s, if goes_on(s) {
            fetch_now(s, 0)
        } else {
            done_view(s)
        }),
        DdgEvent::RequestFailed(m) => (s, DdgActionView::Done(Err("HTTP request failed: "@ + m@))),
        DdgEvent::ReadFailed(m) => (s, DdgActionView::Done(Err("Failed to read response: "@ + m@))),
        DdgEvent::Page { anomaly, blocks, next_params } => if anomaly {
            let s2 = DdgView { antibot_retries: s.antibot_retries + 1, ..s };
            (s2, if s2.antibot_retries > 3 {
                DdgActionView::Done(Err("DuckDuckGo: Blocked by anti-bot measures"@))
            } else if goes_on(s2) {
                fetch_now(s2, 2000)
            } else {
                done_view(s2)
            })
        } else {
            let (new, seen) = page_results(blocks@, s.seen);
            let s1 = DdgView { seen, is_first_page: false, antibot_retries: 0, ..s };
            if new.len() == 0 {
                (s1, done_view(s1))
            } else {
                let s2 = DdgView { results: s.results + new, ..s1 };
                if s2.results.len() >= s2.num_results {
                    (s2, done_view(s2))
                } else {
                    match next_params {
                        Some(p) => {
                            let s3 = DdgView { params: param_views(p@), ..s2 };
                            (s3, fetch_now(s3, 1000))
                        },
                        None => (s2, done_view(s2)),
                    }
                }
            }
        },
    }
}

/// The result of one block.
fn block_result_exec(b: &DdgBlock) -> (r: Option<WebSearchResult>)
    ensures
        match block_result(*b) {
            Some(x) => r matches Some(w) && result_view(w) == x,
            None => r is None,
        },
{
    match (&b.href, &b.snippet) {
        (Some(h), Some(s)) => {
            let raw = str_trim(h.as_str());
            let t = str_trim(b.title.as_str());
            let d = str_trim(s.as_str());
            if raw.unicode_len() > 0 && t.unicode_len() > 0 && d.unicode_len() > 0 {
                let url = clean_ddg_url(raw.as_str());
                Some(WebSearchResult { url, title: t, description: d })
            } else {
                None
            }
        },
        _ => None,
    }
}

/// Whether a list of texts holds one.
fn holds(v: &Vec<String>, x: &str) -> (r: bool)
    ensures
        r == strs(v@).contains(x@),
{
    let mut i: usize = 0;
    while i < v.len()
        invariant
            i <= v@.len(),
            forall|k: int| 0 <= k < i ==> v@[k]@ != x@,
        decreases v.len() - i,
    {
        if str_eq(v[i].as_str(), x) {
            assert(strs(v@)[i as int] == x@);
            return true;
        }
        i += 1;
    }
    assert(!strs(v@).contains(x@)) by {
        assert forall|k: int| 0 <= k < strs(v@).len() implies strs(v@)[k] != x@ by {
            assert(strs(v@)[k] == v@[k]@);
        }
    }
    false
}

/// The new results of a page, recording their URLs as seen.
fn extract_results(blocks: &Vec<DdgBlock>, seen: &mut Vec<String>) -> (r: Vec<WebSearchResult>)
    ensures
        (result_views(r@), strs(final(seen)@)) == page_results(blocks@, strs(old(seen)@)),
{
    let mut out: Vec<WebSearchResult> = Vec::new();
    let mut i: usize = 0;
    assert(blocks@.take(0) =~= Seq::<DdgBlock>::empty());
    assert(result_views(out@) =~= Seq::<(Seq<char>, Seq<char>, Seq<char>)>::empty());
    while i < blocks.len()
        invariant
            i <= blocks@.len(),
            (result_views(out@), strs(seen@)) == page_results(blocks@.take(i as int), strs(old(seen)@)),
        decreases blocks.len() - i,
    {
        assert(blocks@.take(i + 1).drop_last() =~= blocks@.take(i as int));
        assert(blocks@.take(i + 1).last() == blocks@[i as int]);
        let ghost ro = result_views(out@);
        let ghost so = strs(seen@);
        match block_result_exec(&blocks[i]) {
            Some(w) => {
                if !holds(seen, w.url.as_str()) {
                    let ghost wv = result_view(w);
                    seen.push(w.url.clone());
                    assert(strs(seen@) =~= so.push(wv.0));
                    out.push(w);
                    assert(result_views(out@) =~= ro.push(wv));
                }
            },
            None => {},
        }
        i += 1;
    }
    assert(blocks@.take(blocks@.len() as int) =~= blocks@);
    out
}

/// Appends copies of results.
fn push_results(results: &mut Vec<WebSearchResult>, new: &Vec<WebSearchResult>)
    ensures
        result_views(final(results)@) == result_views(old(results)@) + result_views(new@),
{
    let ghost before = result_views(results@);
    let mut k: usize = 0;
    while k < new.len()
        invariant
            k <= new@.len(),
            result_views(results@) == before + result_views(new@).take(k as int),
        decreases new.len() - k,
    {
        let ghost b2 = result_views(results@);
        results.push(copy_result(&new[k]));
        assert(result_views(results@) =~= b2.push(result_view(new@[k as int])));
        assert(result_views(results@) =~= before + result_views(new@).take(k + 1));
        k += 1;
    }
    assert(result_views(new@).take(new@.len() as int) =~= result_views(new@));
}

impl DdgSearch {
    /// A DuckDuckGo search for `query`, asking for `num_results` results.
    pub fn new(query: &str, num_results: usize, options: &SearchOptions) -> (r: Self)
        ensures
            ddg_view(r) == (DdgView {
                num_results: num_results as int,
                params: spec_ddg_params(query@, *options),
                results: Seq::empty(),
                seen: Seq::empty(),
                is_first_page: true,
                antibot_retries: 0,
            }),
    {
        let mut params: Vec<(String, String)> = Vec::new();
        params.push(param("q", String::from_str(query)));
        params.push(param("kp", String::from_str("1")));
        match &options.location {
            Some(l) => params.push(param("kl", l.clone())),
            None => {
                let country = match &options.country {
                    Some(c) => c.as_str(),
                    None => "us",
                };
                let lang = match &options.lang {
                    Some(l) => l.as_str(),
                    None => "en",
                };
                let mut kl = to_lowercase(country);
                append(&mut kl, "-");
                append(&mut kl, to_lowercase(lang).as_str());
                params.push(param("kl", kl));
            },
        }
        let ghost base = param_views(params@);
        match &options.tbs {
            Some(t) => {
                if str_eq(t.as_str(), "d") || str_eq(t.as_str(), "w") || str_eq(t.as_str(), "m")
                    || str_eq(t.as_str(), "y") || str_contains(t.as_str(), "..") {
                    params.push(param("df", t.clone()));
                }
            },
            None => {},
        }
        let r = DdgSearch {
            num_results,
            params,
            results: Vec::new(),
            seen: Vec::new(),
            is_first_page: true,
            antibot_retries: 0,
        };
        assert(param_views(r.params@) =~= spec_ddg_params(query@, *options));
        assert(result_views(r.results@) =~= Seq::<(Seq<char>, Seq<char>, Seq<char>)>::empty());
        assert(strs(r.seen@) =~= Seq::<Seq<char>>::empty());
        r
    }

    /// Decides what follows an event.
    pub fn step(&mut self, event: DdgEvent) -> (a: DdgAction)
        requires
            old(self).antibot_retries < u32::MAX,
        ensures
            (ddg_view(*final(self)), ddg_action_view(a)) == spec_ddg_step(ddg_view(*old(self)), event),
    {
        let ghost s = ddg_view(*self);
        let ghost e = event;
        let a = match event {
            DdgEvent::Start => {
                let act = if self.results.len() < self.num_results && self.antibot_retries <= 3 {
                    DdgAction::Fetch { post: !self.is_first_page, params: copy_params(&self.params), delay_ms: 0 }
                } else {
                    DdgAction::Done(Ok(finish(&self.results, self.num_results)))
                };
                assert((ddg_view(*self), ddg_action_view(act)) =~~= spec_ddg_step(s, e));
                act
            },
            DdgEvent::RequestFailed(m) => {
                let mut t = String::from_str("HTTP request failed: ");
                append(&mut t, m.as_str());
                let act = DdgAction::Done(Err(t));
                assert((ddg_view(*self), ddg_action_view(act)) =~~= spec_ddg_step(s, e));
                act
            },
            DdgEvent::ReadFailed(m) => {
                let mut t = String::from_str("Failed to read response: ");
                append(&mut t, m.as_str());
                let act = DdgAction::Done(Err(t));
                assert((ddg_view(*self), ddg_action_view(act)) =~~= spec_ddg_step(s, e));
                act
            },
            DdgEvent::Page { anomaly, blocks, next_params } => {
                if anomaly {
                    self.antibot_retries = self.antibot_retries + 1;
                    let act = if self.antibot_retries > 3 {
                        DdgAction::Done(Err(String::from_str("DuckDuckGo: Blocked by anti-bot measures")))
                    } else if self.results.len() < self.num_results {
                        DdgAction::Fetch { post: !self.is_first_page, params: copy_params(&self.params), delay_ms: 2000 }
                    } else {
                        DdgAction::Done(Ok(finish(&self.results, self.num_results)))
                    };
                    assert((ddg_view(*self), ddg_action_view(act)) =~~= spec_ddg_step(s, e));
                    act
                } else {
                    let new = extract_results(&blocks, &mut self.seen);
                    self.is_first_page = false;
                    self.antibot_retries = 0;
                    let ghost s1 = ddg_view(*self);
                    if new.len() == 0 {
                        let act = DdgAction::Done(Ok(finish(&self.results, self.num_results)));
                        assert((ddg_view(*self), ddg_action_view(act)) =~~= spec_ddg_step(s, e));
                        act
                    } else {
                        let ghost before = result_views(self.results@);
                        push_results(&mut self.results, &new);
                        let ghost s2 = ddg_view(*self);
                        assert(before == s.results);
                        assert(s2.results =~= before + result_views(new@));
                        assert(result_views(new@) == page_results(blocks@, s.seen).0);
                        assert(s2 =~~= DdgView { results: s.results + page_results(blocks@, s.seen).0, ..s1 });
                        if self.results.len() >= self.num_results {
                            let act = DdgAction::Done(Ok(finish(&self.results, self.num_results)));
                            assert((ddg_view(*self), ddg_action_view(act)) =~~= spec_ddg_step(s, e));
                            act
                        } else {
                            match next_params {
                                Some(p) => {
                                    self.params = p;
                                    let act = DdgAction::Fetch { post: !self.is_first_page, params: copy_params(&self.params), delay_ms: 1000 };
                                    assert((ddg_view(*self), ddg_action_view(act)) =~~= spec_ddg_step(s, e));
                                    act
                                },
                                None => {
                                    let act = DdgAction::Done(Ok(finish(&self.results, self.num_results)));
                                    assert((ddg_view(*self), ddg_action_view(act)) =~~= spec_ddg_step(s, e));
                                    act
                                },
                            }
                        }
                    }
                }
            },
        };
        assert((ddg_view(*self), ddg_action_view(a)) =~~= spec_ddg_step(s, e));
        a
    }
}

// ---------------------------------------------------------------------------
// SearXNG
// ---------------------------------------------------------------------------

/// How many result pages a SearXNG search may fetch: enough for the
/// results asked for at 20 a page, and at least one.
pub open spec fn spec_pages_to_fetch(num_results: int) -> int {
    let p = (num_results + 19) / 20;
    if p < 1 {
        1
    } else {
        p
    }
}

/// The search URL of a SearXNG endpoint (one trailing `/` dropped).
pub open spec fn spec_searxng_url(endpoint: Seq<char>) -> Seq<char> {
    (if endpoint.len() > 0 && endpoint.last() == '/' {
        endpoint.drop_last()
    } else {
        endpoint
    }) + "/search"@
}

/// The query of one result page.
pub open spec fn spec_searxng_params(query: Seq<char>, page: int, lang: Option<Seq<char>>) -> Seq<
    (Seq<char>, Seq<char>),
> {
    seq![("q"@, query), ("pageno"@, decimal(page as nat)), ("format"@, "json"@)] + match lang {
        Some(l) => seq![("language"@, l)],
        None => Seq::empty(),
    }
}

/// The results after a page's results are added one by one, stopping as
/// soon as there are enough.
pub open spec fn push_until(
    rs: Seq<(Seq<char>, Seq<char>, Seq<char>)>,
    page: Seq<(Seq<char>, Seq<char>, Seq<char>)>,
    n: int,
) -> Seq<(Seq<char>, Seq<char>, Seq<char>)>
    decreases page.len(),
{
    if page.len() == 0 {
        rs
    } else if rs.push(page[0]).len() >= n {
        rs.push(page[0])
    } else {
        push_until(rs.push(page[0]), page.drop_first(), n)
    }
}

/// A SearXNG search in progress.
#[derive(Debug)]
pub struct SearxngSearch {
    pub num_results: usize,
    pub pages_to_fetch: usize,
    pub page: usize,
    pub search_url: String,
    pub query: String,
    pub lang: Option<String>,
    pub results: Vec<WebSearchResult>,
}

/// What came of a fetch.
#[derive(Debug)]
pub enum SearxngEvent {
    /// The search begins.
    Start,
    /// The request failed, with the error's text.
    RequestFailed(String),
    /// The answer was not the expected JSON, with the error's text.
    ParseFailed(String),
    /// The results of a page, in order.
    Page(Vec<WebSearchResult>),
}

/// What to do next.
#[derive(Debug)]
pub enum SearxngAction {
    /// Fetch the search URL with this query.
    Fetch { url: String, params: Vec<(String, String)> },
    /// The search is over with this answer.
    Done(Result<SearchResponse, String>),
}

/// What a search state holds, as text.
#[verifier::ext_equal]
pub struct SearxngView {
    pub num_results: int,
    pub pages_to_fetch: int,
    pub page: int,
    pub search_url: Seq<char>,
    pub query: Seq<char>,
    pub lang: Option<Seq<char>>,
    pub results: Seq<(Seq<char>, Seq<char>, Seq<char>)>,
}

/// An action's view.
#[verifier::ext_equal]
pub enum SearxngActionView {
    Fetch(Seq<char>, Seq<(Seq<char>, Seq<char>)>),
    Done(Result<Option<Seq<(Seq<char>, Seq<char>, Seq<char>)>>, Seq<char>>),
}

/// The view of a search state.
pub open spec fn searxng_view(s: SearxngSearch) -> SearxngView {
    SearxngView {
        num_results: s.num_results as int,
        pages_to_fetch: s.pages_to_fetch as int,
        page: s.page as int,
        search_url: s.search_url@,
        query: s.query@,
        lang: match s.lang {
            Some(l) => Some(l@),
            None => None,
        },
        results: result_views(s.results@),
    }
}

/// The view of an action.
pub open spec fn searxng_action_view(a: SearxngAction) -> SearxngActionView {
    match a {
        SearxngAction::Fetch { url, params } => SearxngActionView::Fetch(url@, param_views(params@)),
        SearxngAction::Done(Ok(r)) => SearxngActionView::Done(Ok(response_view(r))),
        SearxngAction::Done(Err(e)) => SearxngActionView::Done(Err(e@)),
    }
}

/// The fetch of the current page.
pub open spec fn searxng_fetch(s: SearxngView) -> SearxngActionView {
    SearxngActionView::Fetch(s.search_url, spec_searxng_params(s.query, s.page, s.lang))
}

/// The answer from the results so far.
pub open spec fn searxng_done(s: SearxngView) -> SearxngActionView {
    SearxngActionView::Done(Ok(finish_view(s.results, s.num_results)))
}

/// What a step does: the state after it, and the action.
pub open spec fn spec_searxng_step(s: SearxngView, e: SearxngEvent) -> (SearxngView, SearxngActionView) {
    match e {
        SearxngEvent::Start => {
            let s1 = SearxngView { page: 1, ..s };
            (s1, searxng_fetch(s1))
        },
        SearxngEvent::RequestFailed(m) => (s, SearxngActionView::Done(Err("SearXNG request failed: "@ + m@))),
        SearxngEvent::ParseFailed(m) => (
            s,
            SearxngActionView::Done(Err("Failed to parse SearXNG response: "@ + m@)),
        ),
        SearxngEvent::Page(rs) => if rs@.len() == 0 {
            (s, searxng_done(s))
        } else {
            let s1 = SearxngView { results: push_until(s.results, result_views(rs@), s.num_results), ..s };
            if s1.results.len() >= s1.num_results {
                (s1, searxng_done(s1))
            } else {
                let s2 = SearxngView { page: s1.page + 1, ..s1 };
                if s2.page > s2.pages_to_fetch {
                    (s2, searxng_done(s2))
                } else {
                    (s2, searxng_fetch(s2))
                }
            }
        },
    }
}

/// The query of one result page.
fn searxng_params(query: &String, page: usize, lang: &Option<String>) -> (r: Vec<(String, String)>)
    ensures
        param_views(r@) == spec_searxng_params(
            query@,
            page as int,
            match lang {
                Some(l) => Some(l@),
                None => None,
            },
        ),
{
    let mut r: Vec<(String, String)> = Vec::new();
    r.push(param("q", query.clone()));
    r.push(param("pageno", usize_to_string(page)));
    r.push(param("format", String::from_str("json")));
    match lang {
        Some(l) => r.push(param("language", l.clone())),
        None => {},
    }
    assert(param_views(r@) =~= spec_searxng_params(
        query@,
        page as int,
        match lang {
            Some(l) => Some(l@),
            None => None,
        },
    ));
    r
}

/// Adds a page's results one by one, stopping when there are enough.
fn push_page(results: &mut Vec<WebSearchResult>, page: &Vec<WebSearchResult>, n: usize)
    ensures
        result_views(final(results)@) == push_until(result_views(old(results)@), result_views(page@), n as int),
{
    let ghost target = push_until(result_views(results@), result_views(page@), n as int);
    let mut k: usize = 0;
    assert(result_views(page@).skip(0) =~= result_views(page@));
    while k < page.len()
        invariant
            k <= page@.len(),
            push_until(result_views(results@), result_views(page@).skip(k as int), n as int) == target,
            target == push_until(result_views(old(results)@), result_views(page@), n as int),
        decreases page.len() - k,
    {
        let ghost rest = result_views(page@).skip(k as int);
        assert(rest[0] == result_view(page@[k as int]));
        assert(rest.drop_first() =~= result_views(page@).skip(k + 1));
        let ghost b = result_views(results@);
        results.push(copy_result(&page[k]));
        assert(result_views(results@) =~= b.push(result_view(page@[k as int])));
        if results.len() >= n {
            assert(rest.len() > 0);
            assert(b.push(rest[0]).len() >= n);
            assert(push_until(b, rest, n as int) == b.push(rest[0]));
            return;
        }
        k += 1;
    }
    assert(result_views(page@).skip(k as int).len() == 0);
}

impl SearxngSearch {
    /// A SearXNG search for `query` at `endpoint`.
    pub fn new(query: &str, endpoint: &str, options: &SearchOptions) -> (r: Self)
        requires
            options.num_results + 19 <= usize::MAX,
        ensures
            searxng_view(r) == (SearxngView {
                num_results: options.num_results as int,
                pages_to_fetch: spec_pages_to_fetch(options.num_results as int),
                page: 0,
                search_url: spec_searxng_url(endpoint@),
                query: query@,
                lang: match options.lang {
                    Some(l) => Some(l@),
                    None => None,
                },
                results: Seq::empty(),
            }),
    {
        let n = options.num_results;
        let p = (n + 19) / 20;
        let pages = if p < 1 {
            1
        } else {
            p
        };
        let e = crate::text::to_chars(endpoint);
        let mut url = if e.len() > 0 && e[e.len() - 1] == '/' {
            crate::text::string_of(e.as_slice(), 0, e.len() - 1)
        } else {
            String::from_str(endpoint)
        };
        append(&mut url, "/search");
        let lang = match &options.lang {
            Some(l) => Some(l.clone()),
            None => None,
        };
        let r = SearxngSearch {
            num_results: n,
            pages_to_fetch: pages,
            page: 0,
            search_url: url,
            query: String::from_str(query),
            lang,
            results: Vec::new(),
        };
        assert(searxng_view(r) =~~= SearxngView {
            num_results: options.num_results as int,
            pages_to_fetch: spec_pages_to_fetch(options.num_results as int),
            page: 0,
            search_url: spec_searxng_url(endpoint@),
            query: query@,
            lang: match options.lang {
                Some(l) => Some(l@),
                None => None,
            },
            results: Seq::empty(),
        });
        r
    }

    /// Decides what follows an event.
    pub fn step(&mut self, event: SearxngEvent) -> (a: SearxngAction)
        requires
            old(self).page < usize::MAX,
        ensures
            (searxng_view(*final(self)), searxng_action_view(a)) == spec_searxng_step(
                searxng_view(*old(self)),
                event,
            ),
    {
        let ghost s = searxng_view(*self);
        let ghost e = event;
        match event {
            SearxngEvent::Start => {
                self.page = 1;
                let act = SearxngAction::Fetch {
                    url: self.search_url.clone(),
                    params: searxng_params(&self.query, self.page, &self.lang),
                };
                assert((searxng_view(*self), searxng_action_view(act)) =~~= spec_searxng_step(s, e));
                act
            },
            SearxngEvent::RequestFailed(m) => {
                let mut t = String::from_str("SearXNG request failed: ");
                append(&mut t, m.as_str());
                let act = SearxngAction::Done(Err(t));
                assert((searxng_view(*self), searxng_action_view(act)) =~~= spec_searxng_step(s, e));
                act
            },
            SearxngEvent::ParseFailed(m) => {
                let mut t = String::from_str("Failed to parse SearXNG response: ");
                append(&mut t, m.as_str());
                let act = SearxngAction::Done(Err(t));
                assert((searxng_view(*self), searxng_action_view(act)) =~~= spec_searxng_step(s, e));
                act
            },
            SearxngEvent::Page(rs) => {
                if rs.len() == 0 {
                    let act = SearxngAction::Done(Ok(finish(&self.results, self.num_results)));
                    assert((searxng_view(*self), searxng_action_view(act)) =~~= spec_searxng_step(s, e));
                    return act;
                }
                push_page(&mut self.results, &rs, self.num_results);
                if self.results.len() >= self.num_results {
                    let act = SearxngAction::Done(Ok(finish(&self.results, self.num_results)));
                    assert((searxng_view(*self), searxng_action_view(act)) =~~= spec_searxng_step(s, e));
                    return act;
                }
                self.page = self.page + 1;
                let act = if self.page > self.pages_to_fetch {
                    SearxngAction::Done(Ok(finish(&self.results, self.num_results)))
                } else {
                    SearxngAction::Fetch {
                        url: self.search_url.clone(),
                        params: searxng_params(&self.query, self.page, &self.lang),
                    }
                };
                assert((searxng_view(*self), searxng_action_view(act)) =~~= spec_searxng_step(s, e));
                act
            },
        }
    }
}

// ---------------------------------------------------------------------------
// Reading a results page
// ---------------------------------------------------------------------------

/// Whether a DuckDuckGo page holds the anti-bot modal
/// (`.anomaly-modal__modal`).
pub uninterp spec fn antibot_page(html: Seq<char>) -> bool;

/// Looks for the anti-bot modal with `scraper`. The contract names the
/// result only: HTML parsing and selector matching are the crate's.
#[verifier::external_body]
fn page_is_antibot(html: &str) -> (r: bool)
    ensures
        r == antibot_page(html@),
{
    let doc = scraper::Html::parse_document(html);
    let modal = scraper::Selector::parse(".anomaly-modal__modal").unwrap();
    doc.select(&modal).next().is_some()
}

/// A block as plain values: link target, link text, snippet text.
pub open spec fn block_view(b: DdgBlock) -> (Option<Seq<char>>, Seq<char>, Option<Seq<char>>) {
    (
        match b.href {
            Some(h) => Some(h@),
            None => None,
        },
        b.title@,
        match b.snippet {
            Some(t) => Some(t@),
            None => None,
        },
    )
}

/// The views of blocks.
pub open spec fn block_views(v: Seq<DdgBlock>) -> Seq<(Option<Seq<char>>, Seq<char>, Option<Seq<char>>)> {
    Seq::new(v.len(), |i: int| block_view(v[i]))
}

/// The result blocks (`.result.web-result`) of a page, in document order:
/// for each, the `href` of its first `.result__a` link, that link's text
/// (empty without the link) and the text of its first `.result__snippet`.
pub uninterp spec fn page_blocks(html: Seq<char>) -> Seq<(Option<Seq<char>>, Seq<char>, Option<Seq<char>>)>;

/// Reads the result blocks of a page with `scraper`. The contract names
/// the result only: HTML parsing and selector matching are the crate's.
#[verifier::external_body]
fn result_blocks(html: &str) -> (r: Vec<DdgBlock>)
    ensures
        block_views(r@) == page_blocks(html@),
{
    let doc = scraper::Html::parse_document(html);
    let sel = |s: &str| scraper::Selector::parse(s).unwrap();
    let (title, snippet) = (sel(".result__a"), sel(".result__snippet"));
    doc.select(&sel(".result.web-result")).map(|b| {
        let link = b.select(&title).next();
        DdgBlock {
            href: link.and_then(|l| l.value().attr("href")).map(|h| h.to_string()),
            title: link.map_or(String::new(), |l| l.text().collect()),
            snippet: b.select(&snippet).next().map(|d| d.text().collect()),
        }
    }).collect()
}

/// A form as plain values: whether it holds a `Next` submit button, and
/// the `name` and `value` attributes of its inputs.
pub open spec fn form_view(f: (bool, Vec<(Option<String>, Option<String>)>)) -> (
    bool,
    Seq<(Option<Seq<char>>, Option<Seq<char>>)>,
) {
    (
        f.0,
        Seq::new(
            f.1@.len(),
            |i: int|
                (
                    match f.1@[i].0 {
                        Some(n) => Some(n@),
                        None => None,
                    },
                    match f.1@[i].1 {
                        Some(v) => Some(v@),
                        None => None,
                    },
                ),
        ),
    )
}

/// The views of forms.
pub open spec fn form_views(v: Seq<(bool, Vec<(Option<String>, Option<String>)>)>) -> Seq<
    (bool, Seq<(Option<Seq<char>>, Option<Seq<char>>)>),
> {
    Seq::new(v.len(), |i: int| form_view(v[i]))
}

/// The forms of a page in document order: whether each holds an
/// `input[type="submit"][value="Next"]`, and the `name` and `value` of each
/// of its inputs.
pub uninterp spec fn page_forms(html: Seq<char>) -> Seq<(bool, Seq<(Option<Seq<char>>, Option<Seq<char>>)>)>;

/// Reads the forms of a page with `scraper`. The contract names the
/// result only: HTML parsing and selector matching are the crate's.
#[verifier::external_body]
fn forms_of(html: &str) -> (r: Vec<(bool, Vec<(Option<String>, Option<String>)>)>)
    ensures
        form_views(r@) == page_forms(html@),
{
    let doc = scraper::Html::parse_document(html);
    let sel = |s: &str| scraper::Selector::parse(s).unwrap();
    let (next, input) = (sel(r#"input[type="submit"][value="Next"]"#), sel("input"));
    let attr = |i: scraper::ElementRef, a: &str| i.value().attr(a).map(|x| x.to_string());
    doc.select(&sel("form")).map(|f| {
        (f.select(&next).next().is_some(), f.select(&input).map(|i| (attr(i, "name"), attr(i, "value"))).collect())
    }).collect()
}

/// The inputs of a form that have both a name and a value.
pub open spec fn form_params(inputs: Seq<(Option<Seq<char>>, Option<Seq<char>>)>) -> Seq<(Seq<char>, Seq<char>)>
    decreases inputs.len(),
{
    if inputs.len() == 0 {
        Seq::empty()
    } else {
        form_params(inputs.drop_last()) + match inputs.last() {
            (Some(n), Some(v)) => seq![(n, v)],
            _ => Seq::empty(),
        }
    }
}

/// The parameters of the next results page: those of the first form with
/// a `Next` button that has any.
pub open spec fn spec_next_params(forms: Seq<(bool, Seq<(Option<Seq<char>>, Option<Seq<char>>)>)>) -> Option<
    Seq<(Seq<char>, Seq<char>)>,
>
    decreases forms.len(),
{
    if forms.len() == 0 {
        None
    } else if forms[0].0 && form_params(forms[0].1).len() > 0 {
        Some(form_params(forms[0].1))
    } else {
        spec_next_params(forms.drop_first())
    }
}

/// The parameters of a form's named inputs.
fn params_of_form(inputs: &Vec<(Option<String>, Option<String>)>) -> (r: Vec<(String, String)>)
    ensures
        param_views(r@) == form_params(form_view((true, *inputs)).1),
{
    let ghost iv = form_view((true, *inputs)).1;
    let mut r: Vec<(String, String)> = Vec::new();
    let mut i: usize = 0;
    while i < inputs.len()
        invariant
            i <= inputs@.len(),
            iv == form_view((true, *inputs)).1,
            param_views(r@) == form_params(iv.take(i as int)),
        decreases inputs.len() - i,
    {
        assert(iv.take(i + 1).drop_last() =~= iv.take(i as int));
        let ghost before = param_views(r@);
        match (&inputs[i].0, &inputs[i].1) {
            (Some(n), Some(v)) => {
                r.push((n.clone(), v.clone()));
                assert(param_views(r@) =~= before + seq![(n@, v@)]);
            },
            _ => {
                assert(param_views(r@) =~= before + Seq::<(Seq<char>, Seq<char>)>::empty());
            },
        }
        i += 1;
    }
    assert(iv.take(iv.len() as int) =~= iv);
    r
}

/// The parameters of the next results page, from a page's forms.
pub fn next_params_of_forms(forms: &Vec<(bool, Vec<(Option<String>, Option<String>)>)>) -> (r: Option<
    Vec<(String, String)>,
>)
    ensures
        match spec_next_params(form_views(forms@)) {
            Some(ps) => r matches Some(v) && param_views(v@) == ps,
            None => r is None,
        },
{
    let ghost fv = form_views(forms@);
    let mut i: usize = 0;
    assert(fv.skip(0) =~= fv);
    while i < forms.len()
        invariant
            i <= forms@.len(),
            fv == form_views(forms@),
            spec_next_params(fv) == spec_next_params(fv.skip(i as int)),
        decreases forms.len() - i,
    {
        assert(fv.skip(i as int)[0] == form_view(forms@[i as int]));
        assert(fv.skip(i as int).drop_first() =~= fv.skip(i + 1));
        if forms[i].0 {
            let ps = params_of_form(&forms[i].1);
            if ps.len() > 0 {
                return Some(ps);
            }
        }
        i += 1;
    }
    None
}

/// The parameters of the next results page of a DuckDuckGo page, if it
/// has a `Next` form.
pub fn get_next_page_params(html: &str) -> (r: Option<Vec<(String, String)>>)
    ensures
        match spec_next_params(page_forms(html@)) {
            Some(ps) => r matches Some(v) && param_views(v@) == ps,
            None => r is None,
        },
{
    next_params_of_forms(&forms_of(html))
}

/// The event a fetched DuckDuckGo page gives: whether it is the anti-bot
/// page, its result blocks, and the parameters of its next page.
pub fn ddg_page_event(html: &str) -> (e: DdgEvent)
    ensures
        match e {
            DdgEvent::Page { anomaly, blocks, next_params } => {
                &&& anomaly == antibot_page(html@)
                &&& block_views(blocks@) == page_blocks(html@)
                &&& match spec_next_params(page_forms(html@)) {
                    Some(ps) => next_params matches Some(v) && param_views(v@) == ps,
                    None => next_params is None,
                }
            },
            _ => false,
        },
{
    DdgEvent::Page {
        anomaly: page_is_antibot(html),
        blocks: result_blocks(html),
        next_params: get_next_page_params(html),
    }
}

// ---------------------------------------------------------------------------
// Fallback
// ---------------------------------------------------------------------------

/// Whether a SearXNG answer stands: a success with at least one result.
/// Otherwise the search goes to DuckDuckGo instead.
pub fn searxng_answer_stands(r: &Result<SearchResponse, String>) -> (b: bool)
    ensures
        b <==> (r matches Ok(resp) && resp.web matches Some(w) && w@.len() > 0),
{
    match r {
        Ok(resp) => match &resp.web {
            Some(w) => w.len() > 0,
            None => false,
        },
        Err(_) => false,
    }
}

// ---------------------------------------------------------------------------
// Laws
// ---------------------------------------------------------------------------

/// A DuckDuckGo search state in which no URL occurs twice among the
/// results, every result's URL is recorded as seen, and no URL is
/// recorded twice.
pub open spec fn ddg_results_distinct(s: DdgView) -> bool {
    &&& forall|i: int, j: int|
        0 <= i < j < s.results.len() ==> #[trigger] s.results[i].0 != #[trigger] s.results[j].0
    &&& forall|i: int| 0 <= i < s.results.len() ==> s.seen.contains(#[trigger] s.results[i].0)
    &&& no_repeats(s.seen)
}

/// No text occurs twice.
pub open spec fn no_repeats(v: Seq<Seq<char>>) -> bool {
    forall|i: int, j: int| 0 <= i < j < v.len() ==> #[trigger] v[i] != #[trigger] v[j]
}

proof fn lemma_page_results(bs: Seq<DdgBlock>, seen: Seq<Seq<char>>)
    ensures
        forall|i: int|
            0 <= i < page_results(bs, seen).0.len() ==> page_results(bs, seen).1.contains(
                #[trigger] page_results(bs, seen).0[i].0,
            ) && !seen.contains(page_results(bs, seen).0[i].0),
        forall|i: int, j: int|
            0 <= i < j < page_results(bs, seen).0.len() ==> #[trigger] page_results(bs, seen).0[i].0
                != #[trigger] page_results(bs, seen).0[j].0,
        forall|x: Seq<char>| seen.contains(x) ==> #[trigger] page_results(bs, seen).1.contains(x),
        no_repeats(seen) ==> no_repeats(page_results(bs, seen).1),
    decreases bs.len(),
{
    if bs.len() > 0 {
        lemma_page_results(bs.drop_last(), seen);
        let (rs, s) = page_results(bs.drop_last(), seen);
        match block_result(bs.last()) {
            Some(r) => {
                if !s.contains(r.0) {
                    let rs2 = rs.push(r);
                    let s2 = s.push(r.0);
                    assert(page_results(bs, seen) == (rs2, s2));
                    assert forall|x: Seq<char>| s.contains(x) implies s2.contains(x) by {
                        let k = choose|k: int| 0 <= k < s.len() && s[k] == x;
                        assert(s2[k] == x);
                    }
                    assert(s2[s.len() as int] == r.0);
                    if no_repeats(seen) {
                        assert forall|i: int, j: int| 0 <= i < j < s2.len() implies #[trigger] s2[i]
                            != #[trigger] s2[j] by {
                            assert(s2[i] == s[i]);
                            if j < s.len() {
                                assert(s2[j] == s[j]);
                            } else {
                                assert(s.contains(s[i]));
                            }
                        }
                    }
                    assert forall|i: int| 0 <= i < rs2.len() implies s2.contains(#[trigger] rs2[i].0)
                        && !seen.contains(rs2[i].0) by {
                        if i < rs.len() {
                            assert(rs2[i] == rs[i]);
                        }
                    }
                    assert forall|i: int, j: int| 0 <= i < j < rs2.len() implies #[trigger] rs2[i].0
                        != #[trigger] rs2[j].0 by {
                        assert(rs2[i] == rs[i]);
                        if j < rs.len() {
                            assert(rs2[j] == rs[j]);
                        } else {
                            assert(s.contains(rs[i].0));
                        }
                    }
                }
            },
            None => {},
        }
    }
}

/// A DuckDuckGo search never lists a URL twice: whatever comes, a step
/// keeps the results free of repeated URLs, each recorded as seen.
pub proof fn law_ddg_results_stay_distinct(s: DdgView, e: DdgEvent)
    requires
        ddg_results_distinct(s),
    ensures
        ddg_results_distinct(spec_ddg_step(s, e).0),
{
    match e {
        DdgEvent::Page { anomaly, blocks, next_params } => {
            if !anomaly {
                lemma_page_results(blocks@, s.seen);
                let (new, seen) = page_results(blocks@, s.seen);
                let all = s.results + new;
                assert forall|i: int| 0 <= i < all.len() implies seen.contains(#[trigger] all[i].0) by {
                    if i < s.results.len() {
                        assert(all[i] == s.results[i]);
                        assert(s.seen.contains(s.results[i].0));
                    } else {
                        assert(all[i] == new[i - s.results.len()]);
                    }
                }
                assert forall|i: int, j: int| 0 <= i < j < all.len() implies #[trigger] all[i].0
                    != #[trigger] all[j].0 by {
                    if j < s.results.len() {
                        assert(all[i] == s.results[i]);
                        assert(all[j] == s.results[j]);
                    } else if i >= s.results.len() {
                        assert(all[i] == new[i - s.results.len()]);
                        assert(all[j] == new[j - s.results.len()]);
                    } else {
                        assert(all[i] == s.results[i]);
                        assert(s.seen.contains(s.results[i].0));
                        assert(all[j] == new[j - s.results.len()]);
                    }
                }
                assert forall|i: int| 0 <= i < s.results.len() implies seen.contains(
                    #[trigger] s.results[i].0,
                ) by {
                    assert(s.seen.contains(s.results[i].0));
                }
            }
        },
        _ => {},
    }
}

/// A search answers nothing when it found nothing, and otherwise the
/// first of its results in the order they were found, at most as many as
/// were asked for.
pub proof fn law_answer_within_limit(results: Seq<(Seq<char>, Seq<char>, Seq<char>)>, n: int)
    requires
        n >= 0,
    ensures
        finish_view(results, n) is None <==> results.len() == 0,
        finish_view(results, n) matches Some(rs) ==> (rs.len() <= n && rs == results.take(
            rs.len() as int,
        )),
{
    if results.len() > 0 && results.len() <= n {
        assert(results.take(results.len() as int) =~= results);
    }
}

} // verus!
