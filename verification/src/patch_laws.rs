//! Laws of unified diffs: what a hunk header reads as, and what a patched
//! file reports it added and removed.
use vstd::prelude::*;

use crate::patch::{
    cap, count_in_hunks, count_kind, spec_file_result, spec_parse_hunk_header, spec_parse_range,
    HunkView, LineView,
};
use crate::text::{before, decimal, lines, strip_prefix, trim, trim_start_char, words};

verus! {

// ---------------------------------------------------------------------------
// Hunk headers
// ---------------------------------------------------------------------------

/// The text of a hunk header with old range `a,b` and new range `c,d`:
/// `@@ -a,b +c,d @@`.
pub open spec fn header_text(a: nat, b: nat, c: nat, d: nat) -> Seq<char> {
    seq!['@', '@', ' ', '-'] + decimal(a) + seq![','] + decimal(b) + seq![' ', '+'] + decimal(c)
        + seq![','] + decimal(d) + seq![' ', '@', '@']
}

/// A range `a,b` written in decimal reads as `(a, b)`.
pub proof fn lemma_range_text(a: nat, b: nat)
    requires
        a <= usize::MAX,
        b <= usize::MAX,
    ensures
        spec_parse_range(decimal(a) + seq![','] + decimal(b)) == Ok::<(usize, usize), Seq<char>>(
            (a as usize, b as usize),
        ),
{
    let da = decimal(a);
    let db = decimal(b);
    crate::text::lemma_decimal_digits(a);
    crate::text::lemma_decimal_digits(b);
    let t = da + seq![','] + db;
    crate::text::lemma_occurs_char(t, ',', da.len() as int);
    assert forall|j: int| 0 <= j < da.len() implies !crate::text::occurs_at(t, seq![','], j) by {
        crate::text::lemma_occurs_char(t, ',', j);
        assert(t[j] == da[j]);
        assert(crate::text::is_digit(da[j]));
    }
    crate::text::lemma_find_first(t, seq![','], da.len() as int);
    assert(t.take(da.len() as int) =~= da);
    assert(t.skip(da.len() + 1int) =~= db);
    assert forall|j: int| 0 <= j implies !crate::text::occurs_at(db, seq![','], j) by {
        crate::text::lemma_occurs_char(db, ',', j);
        if j < db.len() {
            assert(crate::text::is_digit(db[j]));
        }
    }
    crate::text::lemma_find_none(db, seq![',']);
    assert(crate::text::is_digit(da[0]));
    assert(crate::text::is_digit(db[0]));
}

/// Between `@@ ` and ` @@`, a text without `@` is what the header holds.
pub proof fn lemma_header_inner(t: Seq<char>)
    requires
        forall|k: int| 0 <= k < t.len() ==> #[trigger] t[k] != '@',
    ensures
        ({
            let s = seq![' '] + t + seq![' ', '@', '@'];
            &&& strip_prefix(seq!['@', '@', ' '] + t + seq![' ', '@', '@'], "@@"@) == Some(s)
            &&& before(s, "@@"@) == seq![' '] + t + seq![' ']
        }),
{
    reveal_strlit("@@");
    assert("@@"@ =~= seq!['@', '@']);
    let h = seq!['@', '@', ' '] + t + seq![' ', '@', '@'];
    let s = seq![' '] + t + seq![' ', '@', '@'];
    assert(h.subrange(0, 2) =~= "@@"@);
    assert(h.skip(2) =~= s);
    let e = s.len() - 2;
    assert(s.subrange(e, e + 2) =~= "@@"@);
    assert forall|j: int| 0 <= j < e implies !crate::text::occurs_at(s, "@@"@, j) by {
        if crate::text::occurs_at(s, "@@"@, j) {
            assert(s.subrange(j, j + 2)[0] == s[j]);
            if j >= 1 && j <= t.len() {
                assert(s[j] == t[j - 1]);
            }
        }
    }
    crate::text::lemma_find_first(s, "@@"@, e);
    assert(s.take(e) =~= seq![' '] + t + seq![' ']);
}

/// A text that neither starts nor ends with whitespace, padded with a
/// space on each side and trimmed, is itself.
pub proof fn lemma_trim_padded(t: Seq<char>)
    requires
        t.len() > 0,
        !crate::text::is_ws(t[0]),
        !crate::text::is_ws(t.last()),
    ensures
        trim(seq![' '] + t + seq![' ']) == t,
{
    let inner = seq![' '] + t + seq![' '];
    let u = t + seq![' '];
    assert(inner.drop_first() =~= u);
    assert(crate::text::trim_start(inner) == crate::text::trim_start(u));
    assert(u[0] == t[0]);
    assert(crate::text::trim_start(u) == u);
    assert(u.drop_last() =~= t);
    assert(crate::text::trim_end(u) == crate::text::trim_end(t));
    assert(crate::text::trim_end(t) == t);
}

/// A word without whitespace is split off whole.
pub proof fn lemma_one_word(q: Seq<char>)
    requires
        q.len() > 0,
        forall|k: int| 0 <= k < q.len() ==> !crate::text::is_ws(#[trigger] q[k]),
    ensures
        words(seq![' '] + q) == seq![q],
{
    let rest = seq![' '] + q;
    assert(rest.drop_first() =~= q);
    assert(crate::text::trim_start(rest) == crate::text::trim_start(q));
    assert(crate::text::trim_start(q) == q);
    crate::text::lemma_word_len_at(q, q.len() as int);
    assert(q.take(q.len() as int) =~= q);
    assert(q.skip(q.len() as int) =~= Seq::<char>::empty());
    assert(words(Seq::<char>::empty()) =~= Seq::<Seq<char>>::empty());
    assert(words(rest) =~= seq![q]);
}

/// Two words without whitespace, separated by a space, split into them.
pub proof fn lemma_two_words(p: Seq<char>, q: Seq<char>)
    requires
        p.len() > 0,
        q.len() > 0,
        forall|k: int| 0 <= k < p.len() ==> !crate::text::is_ws(#[trigger] p[k]),
        forall|k: int| 0 <= k < q.len() ==> !crate::text::is_ws(#[trigger] q[k]),
    ensures
        words(p + seq![' '] + q) == seq![p, q],
{
    let t = p + seq![' '] + q;
    assert(t[0] == p[0]);
    assert(crate::text::trim_start(t) == t);
    assert forall|k: int| 0 <= k < p.len() implies !crate::text::is_ws(#[trigger] t[k]) by {
        assert(t[k] == p[k]);
    }
    assert(t[p.len() as int] == ' ');
    crate::text::lemma_word_len_at(t, p.len() as int);
    assert(t.take(p.len() as int) =~= p);
    assert(t.skip(p.len() as int) =~= seq![' '] + q);
    lemma_one_word(q);
    assert(words(t) =~= seq![p, q]);
}

/// A range `a,b` in decimal: no whitespace, no `@`, no sign, and it starts
/// with a digit.
pub proof fn lemma_range_chars(a: nat, b: nat)
    ensures
        ({
            let r = decimal(a) + seq![','] + decimal(b);
            &&& r.len() > 0
            &&& crate::text::is_digit(r[0])
            &&& forall|k: int| 0 <= k < r.len() ==> !crate::text::is_ws(#[trigger] r[k]) && r[k]
                != '@' && r[k] != '-' && r[k] != '+'
        }),
{
    let da = decimal(a);
    let db = decimal(b);
    crate::text::lemma_decimal_digits(a);
    crate::text::lemma_decimal_digits(b);
    let r = da + seq![','] + db;
    assert(r[0] == da[0]);
    assert(crate::text::is_digit(da[0]));
    assert forall|k: int| 0 <= k < r.len() implies !crate::text::is_ws(#[trigger] r[k]) && r[k]
        != '@' && r[k] != '-' && r[k] != '+' by {
        if k < da.len() {
            assert(r[k] == da[k]);
            assert(crate::text::is_digit(da[k]));
        } else if k > da.len() {
            assert(r[k] == db[k - da.len() - 1]);
            assert(crate::text::is_digit(db[k - da.len() - 1]));
        }
    }
}

/// A signed range: the sign, then the range.
pub proof fn lemma_signed_range(c: char, r: Seq<char>)
    requires
        !crate::text::is_ws(c),
        c != '@',
        r.len() > 0,
        r[0] != c,
        forall|k: int| 0 <= k < r.len() ==> !crate::text::is_ws(#[trigger] r[k]) && r[k] != '@',
    ensures
        ({
            let p = seq![c] + r;
            &&& trim_start_char(p, c) == r
            &&& p.len() > 0
            &&& forall|k: int| 0 <= k < p.len() ==> !crate::text::is_ws(#[trigger] p[k]) && p[k]
                != '@'
        }),
{
    let p = seq![c] + r;
    assert(p.drop_first() =~= r);
    assert(p[0] == c);
    assert(trim_start_char(r, c) == r);
    assert forall|k: int| 0 <= k < p.len() implies !crate::text::is_ws(#[trigger] p[k]) && p[k]
        != '@' by {
        if k > 0 {
            assert(p[k] == r[k - 1]);
        }
    }
}

/// A header whose two words are a `-` and a `+` followed by ranges reads
/// the first range as the old one and the second as the new one.
pub proof fn lemma_header_words(old_r: Seq<char>, new_r: Seq<char>)
    requires
        old_r.len() > 0,
        new_r.len() > 0,
        old_r[0] != '-',
        new_r[0] != '+',
        forall|k: int| 0 <= k < old_r.len() ==> !crate::text::is_ws(#[trigger] old_r[k]) && old_r[k] != '@',
        forall|k: int| 0 <= k < new_r.len() ==> !crate::text::is_ws(#[trigger] new_r[k]) && new_r[k] != '@',
    ensures
        spec_parse_hunk_header(
            seq!['@', '@', ' ', '-'] + old_r + seq![' ', '+'] + new_r + seq![' ', '@', '@'],
        ) == match spec_parse_range(old_r) {
            Err(e) => Err(e),
            Ok((a, b)) => match spec_parse_range(new_r) {
                Err(e) => Err(e),
                Ok((c, d)) => Ok::<(usize, usize, usize, usize), Seq<char>>((a, b, c, d)),
            },
        },
{
    lemma_signed_range('-', old_r);
    lemma_signed_range('+', new_r);
    let p = seq!['-'] + old_r;
    let q = seq!['+'] + new_r;
    let t = p + seq![' '] + q;
    assert forall|k: int| 0 <= k < t.len() implies #[trigger] t[k] != '@' by {
        if k < p.len() {
            assert(t[k] == p[k]);
        } else if k > p.len() {
            assert(t[k] == q[k - p.len() - 1]);
        }
    }
    lemma_header_inner(t);
    lemma_two_words(p, q);
    assert(t[0] == p[0]);
    assert(t.last() == q.last());
    lemma_trim_padded(t);
    let h = seq!['@', '@', ' ', '-'] + old_r + seq![' ', '+'] + new_r + seq![' ', '@', '@'];
    assert(h =~= seq!['@', '@', ' '] + t + seq![' ', '@', '@']);
    let s = seq![' '] + t + seq![' ', '@', '@'];
    assert(strip_prefix(h, "@@"@) == Some(s));
    assert(trim(before(s, "@@"@)) == t);
    let parts = words(trim(before(s, "@@"@)));
    assert(parts == seq![p, q]);
    assert(parts[0] == p && parts[1] == q);
}

/// A header `@@ -a,b +c,d @@` gives the old range `a,b` and the new range
/// `c,d`, in that order.
pub proof fn law_hunk_header_ranges(a: nat, b: nat, c: nat, d: nat)
    requires
        a <= usize::MAX,
        b <= usize::MAX,
        c <= usize::MAX,
        d <= usize::MAX,
    ensures
        spec_parse_hunk_header(header_text(a, b, c, d)) == Ok::<
            (usize, usize, usize, usize),
            Seq<char>,
        >((a as usize, b as usize, c as usize, d as usize)),
{
    let old_r = decimal(a) + seq![','] + decimal(b);
    let new_r = decimal(c) + seq![','] + decimal(d);
    lemma_range_text(a, b);
    lemma_range_text(c, d);
    lemma_range_chars(a, b);
    lemma_range_chars(c, d);
    lemma_header_words(old_r, new_r);
    assert(header_text(a, b, c, d) =~= seq!['@', '@', ' ', '-'] + old_r + seq![' ', '+'] + new_r
        + seq![' ', '@', '@']);
}

// ---------------------------------------------------------------------------
// Line counts
// ---------------------------------------------------------------------------

/// The added lines among `ls`, in order.
pub open spec fn added_of(ls: Seq<LineView>) -> Seq<LineView> {
    ls.filter(|l: LineView| l is Add)
}

/// The removed lines among `ls`, in order.
pub open spec fn removed_of(ls: Seq<LineView>) -> Seq<LineView> {
    ls.filter(|l: LineView| l is Remove)
}

/// The lines of all the hunks, one hunk after another.
pub open spec fn all_hunk_lines(hs: Seq<HunkView>) -> Seq<LineView> {
    hs.map_values(|h: HunkView| h.lines).flatten()
}

/// Counting one kind of line is filtering for it.
proof fn lemma_count_kind_filter(ls: Seq<LineView>)
    ensures
        count_kind(ls, true) == added_of(ls).len(),
        count_kind(ls, false) == removed_of(ls).len(),
    decreases ls.len(),
{
    if ls.len() > 0 {
        let x = ls[0];
        let rest = ls.drop_first();
        lemma_count_kind_filter(rest);
        assert(ls =~= seq![x] + rest);
        Seq::filter_distributes_over_add(seq![x], rest, |l: LineView| l is Add);
        Seq::filter_distributes_over_add(seq![x], rest, |l: LineView| l is Remove);
        assert(seq![x].drop_last() =~= Seq::<LineView>::empty());
        reveal_with_fuel(Seq::filter, 2);
    }
}

/// Counting one kind of line over hunks is filtering all their lines.
proof fn lemma_count_in_hunks_filter(hs: Seq<HunkView>)
    ensures
        count_in_hunks(hs, true) == added_of(all_hunk_lines(hs)).len(),
        count_in_hunks(hs, false) == removed_of(all_hunk_lines(hs)).len(),
    decreases hs.len(),
{
    if hs.len() > 0 {
        let rest = hs.drop_first();
        lemma_count_in_hunks_filter(rest);
        lemma_count_kind_filter(hs[0].lines);
        let m = hs.map_values(|h: HunkView| h.lines);
        assert(m.drop_first() =~= rest.map_values(|h: HunkView| h.lines));
        assert(all_hunk_lines(hs) == hs[0].lines + all_hunk_lines(rest));
        Seq::filter_distributes_over_add(hs[0].lines, all_hunk_lines(rest), |l: LineView| l is Add);
        Seq::filter_distributes_over_add(hs[0].lines, all_hunk_lines(rest), |l: LineView| l is Remove);
    } else {
        assert(all_hunk_lines(hs) =~= Seq::<LineView>::empty());
    }
}

/// A patched file reports as added the `Add` lines of all its hunks and
/// as removed their `Remove` lines (each count capped at the largest
/// `usize`), and as original lines those of the file it was applied to.
pub proof fn law_patch_counts(original: Seq<char>, hunks: Seq<HunkView>)
    ensures
        spec_file_result(original, hunks) matches Ok(v) ==> v.1 == cap(
            added_of(all_hunk_lines(hunks)).len() as int,
        ) && v.2 == cap(removed_of(all_hunk_lines(hunks)).len() as int) && v.3 == lines(
            original,
        ).len() as usize,
{
    lemma_count_in_hunks_filter(hunks);
}

} // verus!
