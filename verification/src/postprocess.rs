//! Markdown links turned into numbered citations with a reference list.
//!
//! Each `[text](url "title")` (or image `![..](..)`) becomes `text⟨n⟩`
//! (`![text⟨n⟩]`), where `n` numbers the distinct targets in the order they
//! first occur; a `## References` section lists them.
use vstd::prelude::*;

use crate::text::{append, decimal, starts_with, str_eq, str_starts_with, strs, to_chars, trim_end_char,
    trim_end_char_exec, string_from, usize_to_string};

verus! {

/// The links pattern: an optional `!`, the text in brackets, then the
/// target and an optional quoted title in parentheses.
pub const LINK_PATTERN: &'static str = r#"!?\[([^\]]*)\]\(([^)]+?)(?:\s+"([^"]*)")?\)"#;

/// One match of the links pattern: the whole match, the text, the target
/// and the title (empty when absent).
#[derive(Debug)]
pub struct LinkMatch {
    pub full: String,
    pub text: String,
    pub url: String,
    pub title: String,
}

/// A match as text: whole match, text, target, title.
pub open spec fn link_view(m: LinkMatch) -> (Seq<char>, Seq<char>, Seq<char>, Seq<char>) {
    (m.full@, m.text@, m.url@, m.title@)
}

/// The views of matches.
pub open spec fn link_views(v: Seq<LinkMatch>) -> Seq<(Seq<char>, Seq<char>, Seq<char>, Seq<char>)> {
    Seq::new(v.len(), |i: int| link_view(v[i]))
}

/// What scanning markdown for the links pattern gives: the text before
/// each match, the matches in order, and the text after the last one.
pub uninterp spec fn link_scan(markdown: Seq<char>) -> (
    Seq<Seq<char>>,
    Seq<(Seq<char>, Seq<char>, Seq<char>, Seq<char>)>,
    Seq<char>,
);

/// Scans markdown with `regex::Regex::captures_iter` over the links
/// pattern. The contract names the result and says that there is one
/// piece of text before each match; the matching is the crate's.
#[verifier::external_body]
fn scan_links(markdown: &str) -> (r: (Vec<String>, Vec<LinkMatch>, String))
    ensures
        (strs(r.0@), link_views(r.1@), r.2@) == link_scan(markdown@),
        r.0@.len() == r.1@.len(),
{
    let re = regex::Regex::new(LINK_PATTERN).unwrap();
    let (mut gaps, mut links, mut last) = (Vec::new(), Vec::new(), 0);
    for c in re.captures_iter(markdown) {
        let full = c.get(0).unwrap();
        gaps.push(markdown[last..full.start()].to_string());
        let part = |i: usize| c.get(i).map_or("", |m| m.as_str()).to_string();
        links.push(LinkMatch { full: full.as_str().to_string(), text: part(1), url: part(2), title: part(3) });
        last = full.end();
    }
    (gaps, links, markdown[last..].to_string())
}

/// What `url::Url::parse(base)` then `Url::join(rel)` gives, as text;
/// `None` when either fails.
pub uninterp spec fn url_joined(base: Seq<char>, rel: Seq<char>) -> Option<Seq<char>>;

/// Resolves `rel` against `base` with the `url` crate. The contract names
/// the result only: URL resolution is the crate's.
#[verifier::external_body]
fn join_url(base: &str, rel: &str) -> (r: Option<String>)
    ensures
        match r {
            Some(u) => url_joined(base@, rel@) == Some(u@),
            None => url_joined(base@, rel@) is None,
        },
{
    url::Url::parse(base).ok().and_then(|b| b.join(rel).ok()).map(|u| u.to_string())
}

/// A target resolved against the base: absolute, `mailto:` and
/// scheme-relative targets stay; a root-relative one follows the base
/// without its trailing slashes; another is joined to the base, or stays
/// when that fails.
pub open spec fn spec_resolve_url(base: Seq<char>, rel: Seq<char>) -> Seq<char> {
    if starts_with(rel, "http://"@) || starts_with(rel, "https://"@) || starts_with(rel, "mailto:"@)
        || starts_with(rel, "//"@) {
        rel
    } else if starts_with(rel, "/"@) {
        trim_end_char(base, '/') + rel
    } else {
        match url_joined(base, rel) {
            Some(u) => u,
            None => rel,
        }
    }
}

/// The target a link cites: resolved when there is a base and the target
/// is not absolute or `mailto:`.
pub open spec fn cited_url(base: Seq<char>, url: Seq<char>) -> Seq<char> {
    if base.len() > 0 && !starts_with(url, "http://"@) && !starts_with(url, "https://"@)
        && !starts_with(url, "mailto:"@) {
        spec_resolve_url(base, url)
    } else {
        url
    }
}

/// What a reference adds after its target: `: ` and the title, the text,
/// or both joined by ` - ` (the text only when it differs from the title);
/// nothing when both are empty.
pub open spec fn ref_suffix(text: Seq<char>, title: Seq<char>) -> Seq<char> {
    let desc = if text.len() > 0 && text != title {
        if title.len() > 0 {
            title + " - "@ + text
        } else {
            text
        }
    } else {
        title
    };
    if desc.len() == 0 {
        Seq::empty()
    } else {
        ": "@ + desc
    }
}

/// The first reference to a target, or -1.
pub open spec fn ref_index(refs: Seq<(Seq<char>, Seq<char>)>, url: Seq<char>) -> int
    decreases refs.len(),
{
    if refs.len() == 0 {
        -1
    } else {
        let k = ref_index(refs.drop_last(), url);
        if k >= 0 {
            k
        } else if refs.last().0 == url {
            refs.len() - 1
        } else {
            -1
        }
    }
}

/// What replaces a link: the text and its number, inside `![..]` for an
/// image.
pub open spec fn cite_text(full: Seq<char>, text: Seq<char>, num: nat) -> Seq<char> {
    if full.len() > 0 && full[0] == '!' {
        "!["@ + text + "⟨"@ + decimal(num) + "⟩]"@
    } else {
        text + "⟨"@ + decimal(num) + "⟩"@
    }
}

/// The text so far and the references (target, suffix), numbered from 1
/// in order, after the first `n` links.
pub open spec fn cite_state(
    gaps: Seq<Seq<char>>,
    links: Seq<(Seq<char>, Seq<char>, Seq<char>, Seq<char>)>,
    base: Seq<char>,
    n: nat,
) -> (Seq<char>, Seq<(Seq<char>, Seq<char>)>)
    decreases n,
{
    if n == 0 {
        (Seq::empty(), Seq::empty())
    } else {
        let (out, refs) = cite_state(gaps, links, base, (n - 1) as nat);
        let (full, text, url, title) = links[n - 1];
        let u = cited_url(base, url);
        let k = ref_index(refs, u);
        let (refs2, num) = if k >= 0 {
            (refs, k + 1)
        } else {
            (refs.push((u, ref_suffix(text, title))), refs.len() + 1int)
        };
        (out + gaps[n - 1] + cite_text(full, text, num as nat), refs2)
    }
}

/// The references section's lines: `⟨n⟩ target` and the suffix.
pub open spec fn refs_text(refs: Seq<(Seq<char>, Seq<char>)>) -> Seq<char>
    decreases refs.len(),
{
    if refs.len() == 0 {
        Seq::empty()
    } else {
        refs_text(refs.drop_last()) + "⟨"@ + decimal(refs.len()) + "⟩ "@ + refs.last().0 + refs.last().1
            + "\n"@
    }
}

/// Markdown with its links turned into citations, from the scan: the
/// converted text, then, when there was a link, the references section.
pub open spec fn spec_citations(
    gaps: Seq<Seq<char>>,
    links: Seq<(Seq<char>, Seq<char>, Seq<char>, Seq<char>)>,
    tail: Seq<char>,
    base: Seq<char>,
) -> Seq<char> {
    let (out, refs) = cite_state(gaps, links, base, links.len());
    if refs.len() == 0 {
        out + tail
    } else {
        out + tail + "\n\n## References\n\n"@ + refs_text(refs)
    }
}

/// A target resolved against a base.
pub fn resolve_url(base: &str, rel: &str) -> (r: String)
    ensures
        r@ == spec_resolve_url(base@, rel@),
{
    if str_starts_with(rel, "http://") || str_starts_with(rel, "https://") || str_starts_with(rel, "mailto:")
        || str_starts_with(rel, "//") {
        return String::from_str(rel);
    }
    if str_starts_with(rel, "/") {
        let b = trim_end_char_exec(to_chars(base).as_slice(), '/');
        let mut r = string_from(b.as_slice());
        append(&mut r, rel);
        return r;
    }
    match join_url(base, rel) {
        Some(u) => u,
        None => String::from_str(rel),
    }
}

/// The suffix of a new reference.
fn suffix_of(text: &str, title: &str) -> (r: String)
    ensures
        r@ == ref_suffix(text@, title@),
{
    let mut desc = String::from_str(title);
    if text.unicode_len() > 0 && !str_eq(text, title) {
        if title.unicode_len() > 0 {
            append(&mut desc, " - ");
        }
        append(&mut desc, text);
    }
    if desc.unicode_len() == 0 {
        String::new()
    } else {
        let mut r = String::from_str(": ");
        append(&mut r, desc.as_str());
        r
    }
}

proof fn lemma_ref_index_found(refs: Seq<(Seq<char>, Seq<char>)>, url: Seq<char>, i: int)
    requires
        0 <= i < refs.len(),
        refs[i].0 == url,
        forall|j: int| 0 <= j < i ==> refs[j].0 != url,
    ensures
        ref_index(refs, url) == i,
    decreases refs.len(),
{
    if i < refs.len() - 1 {
        lemma_ref_index_found(refs.drop_last(), url, i);
    } else {
        lemma_ref_index_absent(refs.drop_last(), url);
    }
}

proof fn lemma_ref_index_absent(refs: Seq<(Seq<char>, Seq<char>)>, url: Seq<char>)
    requires
        forall|j: int| 0 <= j < refs.len() ==> refs[j].0 != url,
    ensures
        ref_index(refs, url) == -1,
    decreases refs.len(),
{
    if refs.len() > 0 {
        lemma_ref_index_absent(refs.drop_last(), url);
    }
}

/// The views of the references.
pub open spec fn ref_views(v: Seq<(String, String)>) -> Seq<(Seq<char>, Seq<char>)> {
    Seq::new(v.len(), |i: int| (v[i].0@, v[i].1@))
}

/// Where a target is among the references.
fn find_ref(refs: &Vec<(String, String)>, url: &str) -> (r: Option<usize>)
    ensures
        match r {
            Some(i) => i < refs@.len() && ref_index(ref_views(refs@), url@) == i,
            None => ref_index(ref_views(refs@), url@) == -1,
        },
{
    let ghost rv = ref_views(refs@);
    let mut i: usize = 0;
    while i < refs.len()
        invariant
            i <= refs@.len(),
            rv == ref_views(refs@),
            forall|j: int| 0 <= j < i ==> rv[j].0 != url@,
        decreases refs.len() - i,
    {
        if str_eq(refs[i].0.as_str(), url) {
            proof {
                lemma_ref_index_found(rv, url@, i as int);
            }
            return Some(i);
        }
        i += 1;
    }
    proof {
        lemma_ref_index_absent(rv, url@);
    }
    None
}

/// The number of a citation, written out.
fn cite(full: &str, text: &str, num: usize) -> (r: String)
    ensures
        r@ == cite_text(full@, text@, num as nat),
{
    let image = str_starts_with(full, "!");
    let mut r = if image {
        String::from_str("![")
    } else {
        String::new()
    };
    append(&mut r, text);
    append(&mut r, "⟨");
    append(&mut r, usize_to_string(num).as_str());
    if image {
        append(&mut r, "⟩]");
    } else {
        append(&mut r, "⟩");
    }
    proof {
        reveal_strlit("!");
        assert("!"@.len() == 1 && "!"@[0] == '!');
        if full@.len() > 0 && full@[0] == '!' {
            assert(full@.subrange(0, 1) =~= "!"@);
        }
    }
    assert(image == (full@.len() > 0 && full@[0] == '!'));
    r
}

/// Markdown with its links turned into citations, from a scan of it: the
/// text before each link, the links, and the text after the last.
pub fn citations_from_scan(gaps: &Vec<String>, links: &Vec<LinkMatch>, tail: &str, base_url: &str) -> (r: String)
    requires
        gaps@.len() == links@.len(),
    ensures
        r@ == spec_citations(strs(gaps@), link_views(links@), tail@, base_url@),
{
    let ghost gv = strs(gaps@);
    let ghost lv = link_views(links@);
    let mut out = String::new();
    let mut refs: Vec<(String, String)> = Vec::new();
    let mut i: usize = 0;
    while i < links.len()
        invariant
            i <= links@.len(),
            gaps@.len() == links@.len(),
            gv == strs(gaps@),
            lv == link_views(links@),
            (out@, ref_views(refs@)) == cite_state(gv, lv, base_url@, i as nat),
            refs@.len() <= i,
        decreases links.len() - i,
    {
        let m = &links[i];
        let url = if base_url.unicode_len() > 0 && !str_starts_with(m.url.as_str(), "http://")
            && !str_starts_with(m.url.as_str(), "https://") && !str_starts_with(m.url.as_str(), "mailto:") {
            resolve_url(base_url, m.url.as_str())
        } else {
            m.url.clone()
        };
        assert(url@ == cited_url(base_url@, lv[i as int].2));
        let num = match find_ref(&refs, url.as_str()) {
            Some(k) => k + 1,
            None => {
                let sfx = suffix_of(m.text.as_str(), m.title.as_str());
                let ghost before = ref_views(refs@);
                let ghost uv = url@;
                refs.push((url, sfx));
                assert(ref_views(refs@) =~= before.push((uv, ref_suffix(lv[i as int].1, lv[i as int].3))));
                refs.len()
            },
        };
        append(&mut out, gaps[i].as_str());
        append(&mut out, cite(m.full.as_str(), m.text.as_str(), num).as_str());
        i += 1;
    }
    let ghost o = out@;
    let ghost rs = ref_views(refs@);
    assert((o, rs) == cite_state(gv, lv, base_url@, lv.len()));
    append(&mut out, tail);
    if refs.len() > 0 {
        append(&mut out, "\n\n## References\n\n");
        let mut k: usize = 0;
        assert(rs.take(0) =~= Seq::<(Seq<char>, Seq<char>)>::empty());
        while k < refs.len()
            invariant
                k <= refs@.len(),
                rs == ref_views(refs@),
                out@ == o + tail@ + "\n\n## References\n\n"@ + refs_text(rs.take(k as int)),
            decreases refs.len() - k,
        {
            assert(rs.take(k + 1).drop_last() =~= rs.take(k as int));
            append(&mut out, "⟨");
            append(&mut out, usize_to_string(k + 1).as_str());
            append(&mut out, "⟩ ");
            append(&mut out, refs[k].0.as_str());
            append(&mut out, refs[k].1.as_str());
            append(&mut out, "\n");
            k += 1;
        }
        assert(rs.take(rs.len() as int) =~= rs);
    }
    out
}

/// Markdown with its links turned into citations, relative targets
/// resolved against `base_url` when it is not empty.
pub fn convert_links_to_citations(markdown: &str, base_url: &str) -> (r: String)
    ensures
        r@ == {
            let (gaps, links, tail) = link_scan(markdown@);
            spec_citations(gaps, links, tail, base_url@)
        },
{
    let (gaps, links, tail) = scan_links(markdown);
    citations_from_scan(&gaps, &links, tail.as_str(), base_url)
}

proof fn lemma_ref_index_meaning(refs: Seq<(Seq<char>, Seq<char>)>, url: Seq<char>)
    ensures
        ref_index(refs, url) == -1 ==> forall|j: int| 0 <= j < refs.len() ==> refs[j].0 != url,
        ref_index(refs, url) != -1 ==> 0 <= ref_index(refs, url) < refs.len() && refs[ref_index(
            refs,
            url,
        )].0 == url,
    decreases refs.len(),
{
    if refs.len() > 0 {
        lemma_ref_index_meaning(refs.drop_last(), url);
        assert forall|j: int| 0 <= j < refs.len() - 1 implies refs[j] == refs.drop_last()[j] by {}
    }
}

/// Each target is listed once among the references, which are never more
/// than the links: a link to a target already cited takes its number.
pub proof fn law_references_distinct(
    gaps: Seq<Seq<char>>,
    links: Seq<(Seq<char>, Seq<char>, Seq<char>, Seq<char>)>,
    base: Seq<char>,
    n: nat,
)
    requires
        n <= links.len(),
    ensures
        cite_state(gaps, links, base, n).1.len() <= n,
        forall|i: int, j: int|
            0 <= i < j < cite_state(gaps, links, base, n).1.len() ==> #[trigger] cite_state(
                gaps,
                links,
                base,
                n,
            ).1[i].0 != #[trigger] cite_state(gaps, links, base, n).1[j].0,
    decreases n,
{
    if n > 0 {
        law_references_distinct(gaps, links, base, (n - 1) as nat);
        let refs = cite_state(gaps, links, base, (n - 1) as nat).1;
        let u = cited_url(base, links[n - 1].2);
        lemma_ref_index_meaning(refs, u);
        let r2 = cite_state(gaps, links, base, n).1;
        if ref_index(refs, u) == -1 {
            assert forall|i: int, j: int| 0 <= i < j < r2.len() implies #[trigger] r2[i].0 != #[trigger] r2[j].0 by {
                if j < refs.len() {
                    assert(r2[i] == refs[i] && r2[j] == refs[j]);
                } else {
                    assert(r2[i] == refs[i]);
                }
            }
        }
    }
}

} // verus!
