//! PDF to HTML: the text read from a PDF, escaped and cut into paragraphs
//! inside a minimal HTML document.
use vstd::prelude::*;

use crate::crawl::{escape_html, replace_str_exec, spec_escape_html};
use crate::providers::nonblank_lines;
use crate::text::{
    find, join, join_lines, lemma_find, lemma_find_first, lemma_find_none, find_from, occurs_at,
    replace_str, slice_of, string_from, to_chars, trim, trim_vec, views,
};

verus! {

/// What comes before the body of the document.
pub const PDF_HTML_HEAD: &'static str = r#"<!DOCTYPE html><html lang="en"><head><meta charset="UTF-8"><meta name="viewport" content="width=device-width, initial-scale=1.0"><title>Document</title></head><body><main>"#;

/// What comes after the body of the document.
pub const PDF_HTML_TAIL: &'static str = "</main></body></html>";

/// `str::split` with a non-empty pattern: the pieces between its
/// occurrences, found from left to right without overlap.
pub open spec fn split_on(s: Seq<char>, sep: Seq<char>) -> Seq<Seq<char>>
    decreases s.len(),
{
    if sep.len() == 0 {
        seq![s]
    } else {
        match find(s, sep) {
            Some(i) => {
                proof {
                    lemma_find(s, sep);
                }
                seq![s.take(i)] + split_on(s.skip(i + sep.len()), sep)
            },
            None => seq![s],
        }
    }
}

/// A paragraph (trimmed) as HTML: its line breaks kept as `<br>`.
pub open spec fn para_html(p: Seq<char>) -> Seq<char> {
    "<p>"@ + replace_str(p, "\n"@, "<br>\n"@) + "</p>"@
}

/// The body of the document: the non-blank paragraphs of the escaped text
/// (parts between blank lines), trimmed, one per line; the whole text
/// trimmed in one paragraph when there is none.
pub open spec fn pdf_body(text: Seq<char>) -> Seq<char> {
    let escaped = spec_escape_html(text);
    let ps = nonblank_lines(split_on(escaped, "\n\n"@));
    if ps.len() == 0 {
        "<p>"@ + trim(escaped) + "</p>"@
    } else {
        join(Seq::new(ps.len(), |i: int| para_html(ps[i])), "\n"@)
    }
}

/// The HTML document for a PDF's text.
pub open spec fn spec_pdf_html(text: Seq<char>) -> Seq<char> {
    PDF_HTML_HEAD@ + pdf_body(text) + PDF_HTML_TAIL@
}

/// The pieces of a text between the occurrences of a pattern.
pub fn split_exec(v: &[char], sep: &[char]) -> (r: Vec<Vec<char>>)
    requires
        sep@.len() > 0,
    ensures
        views(r@) == split_on(v@, sep@),
{
    let mut out: Vec<Vec<char>> = Vec::new();
    let mut start: usize = 0;
    assert(v@.skip(0) =~= v@);
    loop
        invariant
            start <= v@.len(),
            sep@.len() > 0,
            views(out@) + split_on(v@.skip(start as int), sep@) == split_on(v@, sep@),
        decreases v@.len() - start,
    {
        let ghost rest = v@.skip(start as int);
        let ghost o = views(out@);
        match find_from(v, sep, start) {
            Some(i) => {
                proof {
                    assert forall|j: int| 0 <= j implies occurs_at(rest, sep@, j) == occurs_at(
                        v@,
                        sep@,
                        j + start,
                    ) by {
                        if j + sep@.len() <= rest.len() {
                            assert(rest.subrange(j, j + sep@.len()) =~= v@.subrange(
                                j + start,
                                j + start + sep@.len(),
                            ));
                        }
                    }
                    lemma_find_first(rest, sep@, i - start);
                    assert(rest.take(i - start) =~= v@.subrange(start as int, i as int));
                    assert(rest.skip(i - start + sep@.len()) =~= v@.skip(i + sep@.len()));
                }
                assert(occurs_at(v@, sep@, i as int));
                assert(i + sep@.len() <= v@.len());
                let n = v.len();
                assert(i + sep.len() <= n);
                let piece = slice_of(v, start, i);
                out.push(piece);
                assert(views(out@) =~= o.push(v@.subrange(start as int, i as int)));
                assert(views(out@) + split_on(v@.skip(i + sep@.len()), sep@) =~= o + split_on(
                    rest,
                    sep@,
                ));
                start = i + sep.len();
            },
            None => {
                proof {
                    assert forall|j: int| 0 <= j implies !occurs_at(rest, sep@, j) by {
                        assert(!occurs_at(v@, sep@, j + start));
                        if j + sep@.len() <= rest.len() {
                            assert(rest.subrange(j, j + sep@.len()) =~= v@.subrange(
                                j + start,
                                j + start + sep@.len(),
                            ));
                        }
                    }
                    lemma_find_none(rest, sep@);
                    assert(rest =~= v@.subrange(start as int, v@.len() as int));
                }
                let piece = slice_of(v, start, v.len());
                out.push(piece);
                assert(views(out@) =~= o + split_on(rest, sep@));
                return out;
            },
        }
    }
}

/// The trimmed, non-blank pieces.
fn nonblank_pieces(ps: &Vec<Vec<char>>) -> (r: Vec<Vec<char>>)
    ensures
        views(r@) == nonblank_lines(views(ps@)),
{
    let ghost vs = views(ps@);
    let mut out: Vec<Vec<char>> = Vec::new();
    let mut i: usize = 0;
    while i < ps.len()
        invariant
            i <= ps@.len(),
            vs == views(ps@),
            views(out@) == nonblank_lines(vs.take(i as int)),
        decreases ps.len() - i,
    {
        assert(vs.take(i + 1).drop_last() =~= vs.take(i as int));
        assert(vs.take(i + 1).last() == ps@[i as int]@);
        let t = trim_vec(&ps[i]);
        let ghost o = views(out@);
        if t.len() > 0 {
            out.push(t);
            assert(views(out@) =~= o + seq![trim(vs[i as int])]);
        } else {
            assert(views(out@) =~= o + Seq::<Seq<char>>::empty());
        }
        i += 1;
    }
    assert(vs.take(ps@.len() as int) =~= vs);
    out
}

/// The HTML document for a PDF's text.
pub fn pdf_text_to_html(text: &str) -> (r: String)
    ensures
        r@ == spec_pdf_html(text@),
{
    let escaped = to_chars(escape_html(text).as_str());
    proof {
        reveal_strlit("\n\n");
        reveal_strlit("\n");
    }
    let sep = to_chars("\n\n");
    let ps = nonblank_pieces(&split_exec(escaped.as_slice(), sep.as_slice()));
    let ghost pv = views(ps@);
    let mut body = String::new();
    if ps.len() == 0 {
        crate::text::append(&mut body, "<p>");
        crate::text::push_all(&mut body, trim_vec(escaped.as_slice()).as_slice());
        crate::text::append(&mut body, "</p>");
    } else {
        let nl = to_chars("\n");
        let br = to_chars("<br>\n");
        let mut hs: Vec<Vec<char>> = Vec::new();
        let mut i: usize = 0;
        while i < ps.len()
            invariant
                i <= ps@.len(),
                pv == views(ps@),
                nl@ == "\n"@,
                nl@.len() == 1,
                br@ == "<br>\n"@,
                views(hs@) == Seq::new(i as nat, |k: int| para_html(pv[k])),
            decreases ps.len() - i,
        {
            let mut h = to_chars("<p>");
            let rep = replace_str_exec(ps[i].as_slice(), nl.as_slice(), br.as_slice());
            let mut k: usize = 0;
            let ghost h0 = h@;
            while k < rep.len()
                invariant
                    k <= rep@.len(),
                    h@ == h0 + rep@.take(k as int),
                decreases rep.len() - k,
            {
                h.push(rep[k]);
                k += 1;
                assert(h@ =~= h0 + rep@.take(k as int));
            }
            let tail = to_chars("</p>");
            let mut m: usize = 0;
            let ghost h1 = h@;
            while m < tail.len()
                invariant
                    m <= tail@.len(),
                    h@ == h1 + tail@.take(m as int),
                decreases tail.len() - m,
            {
                h.push(tail[m]);
                m += 1;
                assert(h@ =~= h1 + tail@.take(m as int));
            }
            assert(rep@.take(rep@.len() as int) =~= rep@);
            assert(tail@.take(tail@.len() as int) =~= tail@);
            assert(h@ =~= para_html(pv[i as int]));
            let ghost before = views(hs@);
            let ghost hv = h@;
            hs.push(h);
            assert(views(hs@) =~= before.push(hv));
            assert(views(hs@) =~= Seq::new((i + 1) as nat, |k: int| para_html(pv[k])));
            i += 1;
        }
        body = join_lines(&hs);
        assert(seq!['\n'] =~= "\n"@);
    }
    let mut r = String::from_str(PDF_HTML_HEAD);
    crate::text::append(&mut r, body.as_str());
    crate::text::append(&mut r, PDF_HTML_TAIL);
    r
}

/// A PDF converted to a minimal HTML document, from the text read from it
/// (or the reason it could not be read): the text escaped and cut into
/// paragraphs; the reason when there is no text. The program reads the text
/// with `pdf-extract`, which can stop on malformed input, so that call is
/// made where such a stop can be caught.
pub fn convert_pdf_to_html(extracted: Result<String, String>) -> (r: Result<String, String>)
    ensures
        match extracted {
            Ok(t) => r matches Ok(h) && h@ == spec_pdf_html(t@),
            Err(e) => r matches Err(m) && m@ == e@,
        },
{
    match extracted {
        Ok(t) => Ok(pdf_text_to_html(t.as_str())),
        Err(e) => Err(e),
    }
}

} // verus!
