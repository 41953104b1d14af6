//! Character-sequence utilities shared by every parser of the library.
//!
//! Strings are modelled by their `Seq<char>` view. The spec functions here
//! state what the usual `str` operations compute; the executable functions
//! work on `Vec<char>` copies and are proved against those specs.
use vstd::prelude::*;

verus! {

// ---------------------------------------------------------------------------
// Specifications
// ---------------------------------------------------------------------------

/// `char::is_whitespace`: the Unicode `White_Space` property.
pub open spec fn is_ws(c: char) -> bool {
    ||| c == '\t' || c == '\n' || c == '\x0B' || c == '\x0C' || c == '\r' || c == ' '
    ||| c == '\u{85}' || c == '\u{A0}' || c == '\u{1680}'
    ||| ('\u{2000}' <= c && c <= '\u{200A}')
    ||| c == '\u{2028}' || c == '\u{2029}' || c == '\u{202F}' || c == '\u{205F}' || c == '\u{3000}'
}

/// `str::trim_start`.
pub open spec fn trim_start(s: Seq<char>) -> Seq<char>
    decreases s.len(),
{
    if s.len() > 0 && is_ws(s[0]) {
        trim_start(s.drop_first())
    } else {
        s
    }
}

/// `str::trim_end`.
pub open spec fn trim_end(s: Seq<char>) -> Seq<char>
    decreases s.len(),
{
    if s.len() > 0 && is_ws(s.last()) {
        trim_end(s.drop_last())
    } else {
        s
    }
}

/// `str::trim`.
pub open spec fn trim(s: Seq<char>) -> Seq<char> {
    trim_end(trim_start(s))
}

/// `str::starts_with`.
pub open spec fn starts_with(s: Seq<char>, p: Seq<char>) -> bool {
    p.len() <= s.len() && s.subrange(0, p.len() as int) == p
}

/// `str::ends_with`.
pub open spec fn ends_with(s: Seq<char>, p: Seq<char>) -> bool {
    p.len() <= s.len() && s.subrange(s.len() - p.len(), s.len() as int) == p
}

/// `p` occurs in `s` at position `i`.
pub open spec fn occurs_at(s: Seq<char>, p: Seq<char>, i: int) -> bool {
    0 <= i && i + p.len() <= s.len() && s.subrange(i, i + p.len()) == p
}

/// `str::find`: the first position at which `p` occurs.
pub open spec fn find(s: Seq<char>, p: Seq<char>) -> Option<int>
    decreases s.len(),
{
    if starts_with(s, p) {
        Some(0)
    } else if s.len() == 0 {
        None
    } else {
        match find(s.drop_first(), p) {
            Some(i) => Some(i + 1),
            None => None,
        }
    }
}

/// `str::contains`.
pub open spec fn contains(s: Seq<char>, p: Seq<char>) -> bool {
    find(s, p) is Some
}

/// `str::rfind` for one character: the last position of `c`.
pub open spec fn rfind_char(s: Seq<char>, c: char) -> Option<int>
    decreases s.len(),
{
    if s.len() == 0 {
        None
    } else if s.last() == c {
        Some(s.len() - 1)
    } else {
        rfind_char(s.drop_last(), c)
    }
}

/// `str::strip_prefix`.
pub open spec fn strip_prefix(s: Seq<char>, p: Seq<char>) -> Option<Seq<char>> {
    if starts_with(s, p) {
        Some(s.skip(p.len() as int))
    } else {
        None
    }
}

/// `str::strip_suffix`.
pub open spec fn strip_suffix(s: Seq<char>, p: Seq<char>) -> Option<Seq<char>> {
    if ends_with(s, p) {
        Some(s.take(s.len() - p.len()))
    } else {
        None
    }
}

/// `s.strip_prefix(p).unwrap_or(s)`.
pub open spec fn drop_prefix(s: Seq<char>, p: Seq<char>) -> Seq<char> {
    if starts_with(s, p) {
        s.skip(p.len() as int)
    } else {
        s
    }
}

/// `s.split(sep).next().unwrap()`: the text before the first `sep`.
pub open spec fn before(s: Seq<char>, sep: Seq<char>) -> Seq<char> {
    match find(s, sep) {
        Some(i) => s.take(i),
        None => s,
    }
}

/// The text after the first `sep`, if `sep` occurs.
pub open spec fn after(s: Seq<char>, sep: Seq<char>) -> Option<Seq<char>> {
    match find(s, sep) {
        Some(i) => Some(s.skip(i + sep.len())),
        None => None,
    }
}

/// `str::lines`: split at `\n`, dropping a `\r` before each `\n`; a final
/// line ending is optional.
pub open spec fn lines(s: Seq<char>) -> Seq<Seq<char>>
    decreases s.len(),
{
    if s.len() == 0 {
        seq![]
    } else {
        match find(s, seq!['\n']) {
            None => seq![s],
            Some(i) => {
                proof {
                    lemma_find(s, seq!['\n']);
                }
                seq![drop_cr(s.take(i))] + lines(s.skip(i + 1))
            },
        }
    }
}

/// Removes one trailing `\r`.
pub open spec fn drop_cr(s: Seq<char>) -> Seq<char> {
    if s.len() > 0 && s.last() == '\r' {
        s.drop_last()
    } else {
        s
    }
}

/// Number of leading characters that are not whitespace.
pub open spec fn word_len(s: Seq<char>) -> nat
    decreases s.len(),
{
    if s.len() == 0 || is_ws(s[0]) {
        0
    } else {
        1 + word_len(s.drop_first())
    }
}

/// `str::split_whitespace`.
pub open spec fn words(s: Seq<char>) -> Seq<Seq<char>>
    decreases s.len(),
{
    let t = trim_start(s);
    if t.len() == 0 {
        seq![]
    } else {
        let n = word_len(t);
        if n == 0 || t.len() > s.len() {
            seq![]
        } else {
            proof {
                lemma_word_len(t);
            }
            seq![t.take(n as int)] + words(t.skip(n as int))
        }
    }
}

/// `str::replace` for a single character: every `c` becomes `r`.
pub open spec fn replace_char(s: Seq<char>, c: char, r: Seq<char>) -> Seq<char>
    decreases s.len(),
{
    if s.len() == 0 {
        seq![]
    } else {
        (if s[0] == c { r } else { seq![s[0]] }) + replace_char(s.drop_first(), c, r)
    }
}

/// `str::replace` with a non-empty pattern: matches are replaced from left
/// to right, without overlap.
pub open spec fn replace_str(s: Seq<char>, p: Seq<char>, r: Seq<char>) -> Seq<char>
    decreases s.len(),
{
    if s.len() == 0 {
        seq![]
    } else if p.len() > 0 && starts_with(s, p) {
        r + replace_str(s.skip(p.len() as int), p, r)
    } else {
        seq![s[0]] + replace_str(s.drop_first(), p, r)
    }
}

/// `[T]::join` on character sequences.
pub open spec fn join(parts: Seq<Seq<char>>, sep: Seq<char>) -> Seq<char>
    decreases parts.len(),
{
    if parts.len() == 0 {
        seq![]
    } else if parts.len() == 1 {
        parts[0]
    } else {
        join(parts.drop_last(), sep) + sep + parts.last()
    }
}

/// A decimal digit.
pub open spec fn is_digit(c: char) -> bool {
    '0' <= c && c <= '9'
}

/// The value of a string of decimal digits.
pub open spec fn digits_value(s: Seq<char>) -> int
    decreases s.len(),
{
    if s.len() == 0 {
        0
    } else {
        digits_value(s.drop_last()) * 10 + (s.last() as int - '0' as int)
    }
}

/// Whether every character is a decimal digit.
pub open spec fn all_digits(d: Seq<char>) -> bool {
    forall|i: int| 0 <= i < d.len() ==> is_digit(#[trigger] d[i])
}

/// What `str::parse` gives for an unsigned integer type whose largest value
/// is `max`: an optional `+`, then at least one digit, and no overflow.
pub open spec fn parse_unsigned(s: Seq<char>, max: int) -> Option<int> {
    let d = if s.len() > 0 && s[0] == '+' { s.drop_first() } else { s };
    if d.len() > 0 && all_digits(d) && digits_value(d) <= max {
        Some(digits_value(d))
    } else {
        None
    }
}

/// ASCII lowercase of one character.
pub open spec fn ascii_lower(c: char) -> char {
    if 'A' <= c && c <= 'Z' {
        ((c as u32) + 32) as char
    } else {
        c
    }
}

/// ASCII lowercase of a string.
pub open spec fn ascii_lower_str(s: Seq<char>) -> Seq<char> {
    Seq::new(s.len(), |i: int| ascii_lower(s[i]))
}

/// `str::trim_start_matches` with one character.
pub open spec fn trim_start_char(s: Seq<char>, c: char) -> Seq<char>
    decreases s.len(),
{
    if s.len() > 0 && s[0] == c {
        trim_start_char(s.drop_first(), c)
    } else {
        s
    }
}

/// The decimal digit for `d < 10`.
pub open spec fn digit_char(d: int) -> char {
    ((d + '0' as int) as u32) as char
}

/// How `Display` writes a natural number in decimal.
pub open spec fn decimal(n: nat) -> Seq<char>
    decreases n,
{
    if n < 10 {
        seq![digit_char(n as int)]
    } else {
        decimal(n / 10) + seq![digit_char((n % 10) as int)]
    }
}

/// What `{:?}` writes for a string (a quoted, escaped form); given by the
/// standard library.
pub uninterp spec fn debug_text(s: Seq<char>) -> Seq<char>;

// ---------------------------------------------------------------------------
// Lemmas
// ---------------------------------------------------------------------------

/// A word is no longer than the text it starts.
pub proof fn lemma_word_len(s: Seq<char>)
    ensures
        word_len(s) <= s.len(),
    decreases s.len(),
{
    if s.len() > 0 && !is_ws(s[0]) {
        lemma_word_len(s.drop_first());
    }
}

/// Trimming never lengthens a text.
pub proof fn lemma_trim_start_len(s: Seq<char>)
    ensures
        trim_start(s).len() <= s.len(),
        trim_start(s).len() > 0 ==> !is_ws(trim_start(s)[0]),
    decreases s.len(),
{
    if s.len() > 0 && is_ws(s[0]) {
        lemma_trim_start_len(s.drop_first());
    }
}

/// `find` gives the first occurrence, and `None` exactly when there is none.
pub proof fn lemma_find(s: Seq<char>, p: Seq<char>)
    ensures
        find(s, p) matches Some(i) ==> occurs_at(s, p, i) && forall|j: int|
            0 <= j < i ==> !occurs_at(s, p, j),
        find(s, p) is None ==> forall|j: int| !occurs_at(s, p, j),
    decreases s.len(),
{
    if starts_with(s, p) {
        assert(s.subrange(0, p.len() as int) == p);
    } else if s.len() == 0 {
        assert forall|j: int| !occurs_at(s, p, j) by {
            if occurs_at(s, p, j) {
                assert(j == 0 && p.len() == 0);
                assert(s.subrange(0, 0) =~= p);
            }
        }
    } else {
        lemma_find(s.drop_first(), p);
        let t = s.drop_first();
        assert forall|j: int| 0 <= j && occurs_at(s, p, j + 1) <==> occurs_at(t, p, j) by {
            if 0 <= j && j + 1 + p.len() <= s.len() {
                assert(s.subrange(j + 1, j + 1 + p.len()) =~= t.subrange(j, j + p.len()));
            }
        }
        assert(!occurs_at(s, p, 0));
        match find(t, p) {
            Some(i) => {
                assert forall|j: int| 0 <= j < i + 1 implies !occurs_at(s, p, j) by {
                    if j > 0 {
                        assert(!occurs_at(t, p, j - 1));
                    }
                }
            },
            None => {
                assert forall|j: int| !occurs_at(s, p, j) by {
                    if j > 0 {
                        assert(!occurs_at(t, p, j - 1));
                    }
                }
            },
        }
    }
}

/// A text has no more lines than characters.
pub proof fn lemma_lines_len(s: Seq<char>)
    ensures
        lines(s).len() <= s.len(),
    decreases s.len(),
{
    if s.len() > 0 {
        lemma_find(s, seq!['\n']);
        match find(s, seq!['\n']) {
            Some(i) => {
                lemma_lines_len(s.skip(i + 1));
            },
            None => {},
        }
    }
}

/// Replacing characters distributes over concatenation.
pub proof fn lemma_replace_char_concat(a: Seq<char>, b: Seq<char>, c: char, r: Seq<char>)
    ensures
        replace_char(a + b, c, r) == replace_char(a, c, r) + replace_char(b, c, r),
    decreases a.len(),
{
    if a.len() == 0 {
        assert(a + b =~= b);
    } else {
        assert((a + b).drop_first() =~= a.drop_first() + b);
        lemma_replace_char_concat(a.drop_first(), b, c, r);
        assert((a + b)[0] == a[0]);
    }
}

/// The first occurrence determines `find`.
pub proof fn lemma_find_first(s: Seq<char>, p: Seq<char>, i: int)
    requires
        occurs_at(s, p, i),
        forall|j: int| 0 <= j < i ==> !occurs_at(s, p, j),
    ensures
        find(s, p) == Some(i),
{
    lemma_find(s, p);
    match find(s, p) {
        Some(k) => {
            if k < i {
            } else if k > i {
                assert(!occurs_at(s, p, i));
            }
        },
        None => {},
    }
}

/// No occurrence means `find` is `None`.
pub proof fn lemma_find_none(s: Seq<char>, p: Seq<char>)
    requires
        forall|j: int| 0 <= j ==> !occurs_at(s, p, j),
    ensures
        find(s, p) is None,
{
    lemma_find(s, p);
    if let Some(k) = find(s, p) {
        assert(occurs_at(s, p, k));
    }
}

/// A one-character pattern occurs where that character stands.
pub proof fn lemma_occurs_char(s: Seq<char>, c: char, i: int)
    ensures
        occurs_at(s, seq![c], i) <==> (0 <= i < s.len() && s[i] == c),
{
    if 0 <= i < s.len() {
        if s[i] == c {
            assert(s.subrange(i, i + 1) =~= seq![c]);
        } else {
            assert(s.subrange(i, i + 1)[0] == s[i]);
        }
    }
}

/// Occurrences in a suffix are occurrences in the whole, shifted.
pub proof fn lemma_occurs_skip(s: Seq<char>, p: Seq<char>, k: int, j: int)
    requires
        0 <= k <= s.len(),
        0 <= j,
    ensures
        occurs_at(s.skip(k), p, j) <==> occurs_at(s, p, j + k),
{
    if j + p.len() <= s.len() - k {
        assert(s.skip(k).subrange(j, j + p.len()) =~= s.subrange(j + k, j + k + p.len()));
    }
}

/// `find` on a suffix, from the first occurrence at or after `k`.
pub proof fn lemma_find_skip(s: Seq<char>, p: Seq<char>, k: int, i: int)
    requires
        0 <= k <= i,
        occurs_at(s, p, i),
        forall|j: int| k <= j < i ==> !occurs_at(s, p, j),
    ensures
        find(s.skip(k), p) == Some(i - k),
{
    assert forall|j: int| 0 <= j < i - k implies !occurs_at(s.skip(k), p, j) by {
        lemma_occurs_skip(s, p, k, j);
    }
    lemma_occurs_skip(s, p, k, i - k);
    lemma_find_first(s.skip(k), p, i - k);
}

/// No occurrence at or after `k` means `find` on the suffix is `None`.
pub proof fn lemma_find_skip_none(s: Seq<char>, p: Seq<char>, k: int)
    requires
        0 <= k <= s.len(),
        forall|j: int| k <= j ==> !occurs_at(s, p, j),
    ensures
        find(s.skip(k), p) is None,
{
    assert forall|j: int| 0 <= j implies !occurs_at(s.skip(k), p, j) by {
        lemma_occurs_skip(s, p, k, j);
    }
    lemma_find_none(s.skip(k), p);
}

/// The views of a sequence of character vectors.
pub open spec fn views(v: Seq<Vec<char>>) -> Seq<Seq<char>> {
    Seq::new(v.len(), |i: int| v[i]@)
}

/// The length of the first word, read off its end.
pub proof fn lemma_word_len_at(s: Seq<char>, b: int)
    requires
        0 <= b <= s.len(),
        forall|k: int| 0 <= k < b ==> !is_ws(#[trigger] s[k]),
        b == s.len() || is_ws(s[b]),
    ensures
        word_len(s) == b,
    decreases b,
{
    if b > 0 {
        assert forall|k: int| 0 <= k < b - 1 implies !is_ws(#[trigger] s.drop_first()[k]) by {
            assert(s.drop_first()[k] == s[k + 1]);
        }
        lemma_word_len_at(s.drop_first(), b - 1);
    }
}

// ---------------------------------------------------------------------------
// Executable functions
// ---------------------------------------------------------------------------

/// `String::push`: appends one character.
#[verifier::external_body]
pub(crate) fn push_char(s: &mut String, c: char)
    ensures
        final(s)@ == old(s)@.push(c),
{
    s.push(c);
}

/// The digit character of `d < 10` is a digit worth `d`.
pub proof fn lemma_digit_char(d: int)
    requires
        0 <= d < 10,
    ensures
        is_digit(digit_char(d)),
        digit_char(d) as int - '0' as int == d,
{
    assert(digit_char(d) as int == d + 48);
}

/// A number written in decimal is a non-empty string of digits worth the
/// number.
pub proof fn lemma_decimal_digits(n: nat)
    ensures
        decimal(n).len() >= 1,
        all_digits(decimal(n)),
        digits_value(decimal(n)) == n,
    decreases n,
{
    let t = decimal(n);
    if n < 10 {
        lemma_digit_char(n as int);
        assert(t[0] == digit_char(n as int));
        assert(t.drop_last() =~= Seq::<char>::empty());
        assert(digits_value(t) == digits_value(t.drop_last()) * 10 + (t.last() as int - '0' as int));
        assert(digits_value(t.drop_last()) == 0);
    } else {
        lemma_digit_char((n % 10) as int);
        lemma_decimal_digits(n / 10);
        let p = decimal(n / 10);
        assert(t.drop_last() =~= p);
        assert(t.last() == digit_char((n % 10) as int));
        assert(digits_value(t) == digits_value(p) * 10 + (t.last() as int - '0' as int));
        assert((n / 10) * 10 + n % 10 == n) by (nonlinear_arith);
        assert forall|i: int| 0 <= i < t.len() implies is_digit(#[trigger] t[i]) by {
            if i < p.len() {
                assert(t[i] == p[i]);
            }
        }
    }
}

/// A string of digits is worth at least each of its starts.
pub proof fn lemma_digits_value_grows(s: Seq<char>, k: int)
    requires
        0 <= k <= s.len(),
        all_digits(s),
    ensures
        digits_value(s) >= digits_value(s.take(k)) >= 0,
    decreases s.len(),
{
    if s.len() > 0 {
        let p = s.drop_last();
        assert forall|i: int| 0 <= i < p.len() implies is_digit(#[trigger] p[i]) by {
            assert(p[i] == s[i]);
        }
        if k == s.len() {
            assert(s.take(k) =~= s);
            lemma_digits_value_grows(p, p.len() as int);
            assert(p.take(p.len() as int) =~= p);
        } else {
            lemma_digits_value_grows(p, k);
            assert(p.take(k) =~= s.take(k));
            assert(is_digit(s[s.len() - 1]));
        }
    } else {
        assert(s.take(k) =~= s);
    }
}

/// The value of the digits of `d`, when they are all digits, there is at
/// least one, and the value is at most `max`.
fn digits_at_most(d: &[char], max: u64) -> (r: Option<u64>)
    ensures
        match r {
            Some(v) => d@.len() > 0 && all_digits(d@) && digits_value(d@) <= max && v == digits_value(d@),
            None => !(d@.len() > 0 && all_digits(d@) && digits_value(d@) <= max),
        },
{
    if d.len() == 0 {
        return None;
    }
    let mut v: u64 = 0;
    let mut i: usize = 0;
    assert(d@.take(0) =~= Seq::<char>::empty());
    while i < d.len()
        invariant
            i <= d@.len(),
            forall|k: int| 0 <= k < i ==> is_digit(#[trigger] d@[k]),
            v == digits_value(d@.take(i as int)),
            v <= max,
        decreases d.len() - i,
    {
        let c = d[i];
        if !('0' <= c && c <= '9') {
            return None;
        }
        let digit: u64 = (c as u32 - '0' as u32) as u64;
        assert(d@.take(i + 1).drop_last() =~= d@.take(i as int));
        assert(digits_value(d@.take(i + 1)) == v * 10 + digit);
        if digit > max || v > (max - digit) / 10 {
            proof {
                assert forall|k: int| 0 <= k < i + 1 implies is_digit(#[trigger] d@.take(i + 1)[k]) by {
                    assert(d@.take(i + 1)[k] == d@[k]);
                }
                assert(v * 10 + digit > max) by (nonlinear_arith)
                    requires
                        digit > max || v > (max - digit) / 10,
                        v >= 0,
                ;
                if all_digits(d@) {
                    lemma_digits_value_grows(d@, i + 1);
                }
            }
            return None;
        }
        assert(v * 10 + digit <= max) by (nonlinear_arith)
            requires
                digit <= max,
                v <= (max - digit) / 10,
        ;
        v = v * 10 + digit;
        i += 1;
    }
    assert(d@.take(i as int) =~= d@);
    Some(v)
}

/// `str::parse` for an unsigned integer with largest value `max`.
fn parse_unsigned_exec(s: &str, max: u64) -> (r: Option<u64>)
    ensures
        r matches Some(v) ==> parse_unsigned(s@, max as int) == Some(v as int),
        r is None ==> parse_unsigned(s@, max as int) is None,
{
    let chars = to_chars(s);
    let start: usize = if chars.len() > 0 && chars[0] == '+' { 1 } else { 0 };
    let d = chars_from(&chars, start);
    let ghost dd = if s@.len() > 0 && s@[0] == '+' { s@.drop_first() } else { s@ };
    assert(d@ =~= dd);
    let ds = d.as_slice();
    assert(ds@ == dd);
    digits_at_most(ds, max)
}

/// The characters of `v` from `start` on.
fn chars_from(v: &Vec<char>, start: usize) -> (r: Vec<char>)
    requires
        start <= v@.len(),
    ensures
        r@ == v@.skip(start as int),
{
    let mut r: Vec<char> = Vec::new();
    let mut i = start;
    while i < v.len()
        invariant
            start <= i <= v@.len(),
            r@ == v@.subrange(start as int, i as int),
        decreases v.len() - i,
    {
        r.push(v[i]);
        i += 1;
        assert(r@ =~= v@.subrange(start as int, i as int));
    }
    assert(r@ =~= v@.skip(start as int));
    r
}

/// `str::parse::<u32>`: an optional `+`, then digits, at most `u32::MAX`.
pub(crate) fn parse_u32(s: &str) -> (r: Option<u32>)
    ensures
        r matches Some(v) ==> parse_unsigned(s@, u32::MAX as int) == Some(v as int),
        r is None ==> parse_unsigned(s@, u32::MAX as int) is None,
{
    match parse_unsigned_exec(s, u32::MAX as u64) {
        Some(v) => Some(v as u32),
        None => None,
    }
}

/// `str::parse::<usize>`: an optional `+`, then digits, at most
/// `usize::MAX`.
pub(crate) fn parse_usize(s: &str) -> (r: Option<usize>)
    ensures
        r matches Some(v) ==> parse_unsigned(s@, usize::MAX as int) == Some(v as int),
        r is None ==> parse_unsigned(s@, usize::MAX as int) is None,
{
    match parse_unsigned_exec(s, usize::MAX as u64) {
        Some(v) => Some(v as usize),
        None => None,
    }
}

/// The characters of `s`, in order.
pub fn to_chars(s: &str) -> (v: Vec<char>)
    ensures
        v@ == s@,
{
    let mut v: Vec<char> = Vec::new();
    for c in it: s.chars()
        invariant
            v@ == it.seq().take(it.index() as int),
    {
        v.push(c);
    }
    v
}

/// A `String` holding the characters `v[lo..hi]`.
pub fn string_of(v: &[char], lo: usize, hi: usize) -> (s: String)
    requires
        lo <= hi <= v@.len(),
    ensures
        s@ == v@.subrange(lo as int, hi as int),
{
    let mut s = String::new();
    let mut i = lo;
    while i < hi
        invariant
            lo <= i <= hi <= v@.len(),
            s@ == v@.subrange(lo as int, i as int),
        decreases hi - i,
    {
        push_char(&mut s, v[i]);
        i += 1;
        assert(s@ =~= v@.subrange(lo as int, i as int));
    }
    s
}

/// A `String` holding all of `v`.
pub fn string_from(v: &[char]) -> (s: String)
    ensures
        s@ == v@,
{
    let s = string_of(v, 0, v.len());
    assert(v@.subrange(0, v@.len() as int) =~= v@);
    s
}

/// A copy of `v[lo..hi]`.
pub fn slice_of(v: &[char], lo: usize, hi: usize) -> (r: Vec<char>)
    requires
        lo <= hi <= v@.len(),
    ensures
        r@ == v@.subrange(lo as int, hi as int),
{
    let mut r: Vec<char> = Vec::new();
    let mut i = lo;
    while i < hi
        invariant
            lo <= i <= hi <= v@.len(),
            r@ == v@.subrange(lo as int, i as int),
        decreases hi - i,
    {
        r.push(v[i]);
        i += 1;
        assert(r@ =~= v@.subrange(lo as int, i as int));
    }
    r
}

/// Appends `v` to `s`.
pub fn push_all(s: &mut String, v: &[char])
    ensures
        final(s)@ == old(s)@ + v@,
{
    let mut i: usize = 0;
    while i < v.len()
        invariant
            i <= v@.len(),
            s@ == old(s)@ + v@.take(i as int),
        decreases v.len() - i,
    {
        push_char(s, v[i]);
        i += 1;
        assert(s@ =~= old(s)@ + v@.take(i as int));
    }
    assert(v@.take(v@.len() as int) =~= v@);
}

/// `char::is_whitespace`.
pub fn is_whitespace(c: char) -> (b: bool)
    ensures
        b == is_ws(c),
{
    c == '\t' || c == '\n' || c == '\x0B' || c == '\x0C' || c == '\r' || c == ' ' || c
        == '\u{85}' || c == '\u{A0}' || c == '\u{1680}' || ('\u{2000}' <= c && c <= '\u{200A}')
        || c == '\u{2028}' || c == '\u{2029}' || c == '\u{202F}' || c == '\u{205F}' || c
        == '\u{3000}'
}

/// Index of the first character of `v[lo..hi]` that is not whitespace
/// (or `hi`); `v[lo..hi]` trimmed at the start begins there.
pub fn skip_ws(v: &[char], lo: usize, hi: usize) -> (i: usize)
    requires
        lo <= hi <= v@.len(),
    ensures
        lo <= i <= hi,
        trim_start(v@.subrange(lo as int, hi as int)) == v@.subrange(i as int, hi as int),
{
    let mut i = lo;
    while i < hi && is_whitespace(v[i])
        invariant
            lo <= i <= hi <= v@.len(),
            trim_start(v@.subrange(lo as int, hi as int)) == trim_start(
                v@.subrange(i as int, hi as int),
            ),
        decreases hi - i,
    {
        assert(v@.subrange(i as int, hi as int).drop_first() =~= v@.subrange(
            i + 1,
            hi as int,
        ));
        i += 1;
    }
    i
}

/// Index just past the last character of `v[lo..hi]` that is not whitespace
/// (or `lo`); `v[lo..hi]` trimmed at the end stops there.
pub fn skip_ws_back(v: &[char], lo: usize, hi: usize) -> (j: usize)
    requires
        lo <= hi <= v@.len(),
    ensures
        lo <= j <= hi,
        trim_end(v@.subrange(lo as int, hi as int)) == v@.subrange(lo as int, j as int),
{
    let mut j = hi;
    while j > lo && is_whitespace(v[j - 1])
        invariant
            lo <= j <= hi <= v@.len(),
            trim_end(v@.subrange(lo as int, hi as int)) == trim_end(
                v@.subrange(lo as int, j as int),
            ),
        decreases j,
    {
        assert(v@.subrange(lo as int, j as int).drop_last() =~= v@.subrange(
            lo as int,
            j - 1,
        ));
        j -= 1;
    }
    j
}

/// The bounds of `v[lo..hi]` trimmed on both sides.
pub fn trim_bounds(v: &[char], lo: usize, hi: usize) -> (r: (usize, usize))
    requires
        lo <= hi <= v@.len(),
    ensures
        lo <= r.0 <= r.1 <= hi,
        trim(v@.subrange(lo as int, hi as int)) == v@.subrange(r.0 as int, r.1 as int),
{
    let a = skip_ws(v, lo, hi);
    let b = skip_ws_back(v, a, hi);
    (a, b)
}

/// `str::trim`, on a character vector.
pub fn trim_vec(v: &[char]) -> (r: Vec<char>)
    ensures
        r@ == trim(v@),
{
    let (a, b) = trim_bounds(v, 0, v.len());
    assert(v@.subrange(0, v@.len() as int) =~= v@);
    slice_of(v, a, b)
}

/// Whether `p` occurs in `v` at position `i`.
pub fn occurs_at_exec(v: &[char], p: &[char], i: usize) -> (b: bool)
    ensures
        b == occurs_at(v@, p@, i as int),
{
    let vlen = v.len();
    if i > vlen || p.len() > vlen - i {
        return false;
    }
    let mut k: usize = 0;
    while k < p.len()
        invariant
            vlen == v@.len(),
            i <= v@.len(),
            i + p@.len() <= v@.len(),
            k <= p@.len(),
            forall|m: int| 0 <= m < k ==> v@[i + m] == p@[m],
        decreases p.len() - k,
    {
        if v[i + k] != p[k] {
            assert(v@.subrange(i as int, i + p@.len())[k as int] == v@[i + k]);
            return false;
        }
        k += 1;
    }
    assert(v@.subrange(i as int, i + p@.len()) =~= p@);
    true
}

/// `starts_with` on character vectors.
pub fn starts_with_exec(v: &[char], p: &[char]) -> (b: bool)
    ensures
        b == starts_with(v@, p@),
{
    occurs_at_exec(v, p, 0)
}

/// `ends_with` on character vectors.
pub fn ends_with_exec(v: &[char], p: &[char]) -> (b: bool)
    ensures
        b == ends_with(v@, p@),
{
    if p.len() > v.len() {
        false
    } else {
        occurs_at_exec(v, p, v.len() - p.len())
    }
}

/// `find` on character vectors, searching from position `from`.
pub fn find_from(v: &[char], p: &[char], from: usize) -> (r: Option<usize>)
    requires
        from <= v@.len(),
    ensures
        r matches Some(i) ==> from <= i && occurs_at(v@, p@, i as int) && forall|j: int|
            from <= j < i ==> !occurs_at(v@, p@, j),
        r is None ==> forall|j: int| from <= j ==> !occurs_at(v@, p@, j),
{
    let mut i = from;
    loop
        invariant
            from <= i <= v@.len(),
            forall|j: int| from <= j < i ==> !occurs_at(v@, p@, j),
        decreases v.len() - i,
    {
        if occurs_at_exec(v, p, i) {
            return Some(i);
        }
        if i == v.len() {
            assert forall|j: int| from <= j implies !occurs_at(v@, p@, j) by {
                if j > v@.len() {
                    assert(!occurs_at(v@, p@, j));
                }
            }
            return None;
        }
        i += 1;
    }
}

/// `find` on character vectors.
pub fn find_exec(v: &[char], p: &[char]) -> (r: Option<usize>)
    ensures
        r matches Some(i) ==> find(v@, p@) == Some(i as int),
        r is None ==> find(v@, p@) is None,
{
    let r = find_from(v, p, 0);
    proof {
        match r {
            Some(i) => lemma_find_first(v@, p@, i as int),
            None => lemma_find_none(v@, p@),
        }
    }
    r
}

/// `drop_cr` on a slice of a character vector.
pub fn drop_cr_exec(v: &[char], lo: usize, hi: usize) -> (r: Vec<char>)
    requires
        lo <= hi <= v@.len(),
    ensures
        r@ == drop_cr(v@.subrange(lo as int, hi as int)),
{
    if hi > lo && v[hi - 1] == '\r' {
        let r = slice_of(v, lo, hi - 1);
        assert(r@ =~= v@.subrange(lo as int, hi as int).drop_last());
        r
    } else {
        slice_of(v, lo, hi)
    }
}

/// `str::lines`, collected.
pub fn lines_vec(v: &[char]) -> (r: Vec<Vec<char>>)
    ensures
        views(r@) == lines(v@),
{
    let nl: Vec<char> = vec!['\n'];
    assert(nl@ =~= seq!['\n']);
    let mut r: Vec<Vec<char>> = Vec::new();
    let mut st: usize = 0;
    assert(v@.skip(0) =~= v@);
    loop
        invariant
            st <= v@.len(),
            nl@ == seq!['\n'],
            views(r@) + lines(v@.skip(st as int)) == lines(v@),
        decreases v.len() - st,
    {
        if st == v.len() {
            assert(v@.skip(st as int) =~= Seq::<char>::empty());
            assert(views(r@) + lines(v@.skip(st as int)) =~= views(r@));
            return r;
        }
        match find_from(v, &nl, st) {
            Some(i) => {
                proof {
                    lemma_find_skip(v@, nl@, st as int, i as int);
                    lemma_occurs_char(v@, '\n', i as int);
                }
                let line = drop_cr_exec(v, st, i);
                let ghost rest = v@.skip(st as int);
                assert(rest.take(i - st) =~= v@.subrange(st as int, i as int));
                assert(rest.skip(i - st + 1) =~= v@.skip(i + 1));
                assert(lines(rest) == seq![drop_cr(rest.take(i - st))] + lines(rest.skip(i - st + 1)));
                let ghost old_r = r@;
                r.push(line);
                assert(views(r@) =~= views(old_r) + seq![line@]);
                assert(views(r@) + lines(v@.skip(i + 1)) =~= views(old_r) + lines(rest));
                st = i + 1;
            },
            None => {
                proof {
                    lemma_find_skip_none(v@, nl@, st as int);
                }
                let line = slice_of(v, st, v.len());
                let ghost rest = v@.skip(st as int);
                assert(rest =~= v@.subrange(st as int, v@.len() as int));
                assert(lines(rest) == seq![rest]);
                let ghost old_r = r@;
                r.push(line);
                assert(views(r@) =~= views(old_r) + seq![line@]);
                return r;
            },
        }
    }
}

/// `str::split_whitespace`, collected.
pub fn words_vec(v: &[char]) -> (r: Vec<Vec<char>>)
    ensures
        views(r@) == words(v@),
{
    let mut r: Vec<Vec<char>> = Vec::new();
    let mut pos: usize = 0;
    let n = v.len();
    assert(v@.skip(0) =~= v@);
    loop
        invariant
            n == v@.len(),
            pos <= n,
            views(r@) + words(v@.skip(pos as int)) == words(v@),
        decreases n - pos,
    {
        let a = skip_ws(v, pos, n);
        assert(v@.skip(pos as int) =~= v@.subrange(pos as int, n as int));
        assert(v@.skip(a as int) =~= v@.subrange(a as int, n as int));
        let ghost t = v@.skip(a as int);
        assert(trim_start(v@.skip(pos as int)) == t);
        if a == n {
            assert(words(v@.skip(pos as int)) =~= Seq::<Seq<char>>::empty());
            assert(views(r@) + words(v@.skip(pos as int)) =~= views(r@));
            return r;
        }
        let mut b = a;
        while b < n && !is_whitespace(v[b])
            invariant
                n == v@.len(),
                a <= b <= n,
                forall|k: int| a <= k < b ==> !is_ws(#[trigger] v@[k]),
            decreases n - b,
        {
            b += 1;
        }
        proof {
            assert forall|k: int| 0 <= k < b - a implies !is_ws(#[trigger] t[k]) by {
                assert(t[k] == v@[a + k]);
            }
            lemma_word_len_at(t, (b - a) as int);
            lemma_trim_start_len(v@.skip(pos as int));
        }
        assert(t.take((b - a) as int) =~= v@.subrange(a as int, b as int));
        assert(t.skip((b - a) as int) =~= v@.skip(b as int));
        let w = slice_of(v, a, b);
        let ghost old_r = r@;
        r.push(w);
        assert(views(r@) =~= views(old_r) + seq![w@]);
        assert(views(r@) + words(v@.skip(b as int)) =~= views(old_r) + words(v@.skip(pos as int)));
        pos = b;
    }
}

/// `trim_start_char` on a character vector.
pub fn trim_start_char_exec(v: &[char], c: char) -> (r: Vec<char>)
    ensures
        r@ == trim_start_char(v@, c),
{
    let mut i: usize = 0;
    assert(v@.skip(0) =~= v@);
    while i < v.len() && v[i] == c
        invariant
            i <= v@.len(),
            trim_start_char(v@, c) == trim_start_char(v@.skip(i as int), c),
        decreases v.len() - i,
    {
        assert(v@.skip(i as int).drop_first() =~= v@.skip(i + 1));
        i += 1;
    }
    assert(v@.skip(i as int) =~= v@.subrange(i as int, v@.len() as int));
    slice_of(v, i, v.len())
}

/// `drop_prefix` on character vectors.
pub fn drop_prefix_exec(v: &[char], p: &[char]) -> (r: Vec<char>)
    ensures
        r@ == drop_prefix(v@, p@),
{
    if starts_with_exec(v, p) {
        assert(v@.skip(p@.len() as int) =~= v@.subrange(p@.len() as int, v@.len() as int));
        slice_of(v, p.len(), v.len())
    } else {
        assert(v@.subrange(0, v@.len() as int) =~= v@);
        slice_of(v, 0, v.len())
    }
}

/// `before` on character vectors.
pub fn before_exec(v: &[char], sep: &[char]) -> (r: Vec<char>)
    ensures
        r@ == before(v@, sep@),
{
    match find_exec(v, sep) {
        Some(i) => {
            proof { lemma_find(v@, sep@); }
            assert(v@.take(i as int) =~= v@.subrange(0, i as int));
            slice_of(v, 0, i)
        },
        None => {
            assert(v@.subrange(0, v@.len() as int) =~= v@);
            slice_of(v, 0, v.len())
        },
    }
}

/// `after` on character vectors.
pub fn after_exec(v: &[char], sep: &[char]) -> (r: Option<Vec<char>>)
    ensures
        r matches Some(x) ==> after(v@, sep@) == Some(x@),
        r is None ==> after(v@, sep@) is None,
{
    let n = v.len();
    match find_exec(v, sep) {
        Some(i) => {
            proof { lemma_find(v@, sep@); }
            assert(i + sep@.len() <= n);
            assert(v@.skip(i + sep@.len()) =~= v@.subrange(i + sep@.len(), v@.len() as int));
            Some(slice_of(v, i + sep.len(), v.len()))
        },
        None => None,
    }
}

/// `usize` written in decimal, as `Display` does.
pub fn usize_to_string(n: usize) -> (r: String)
    ensures
        r@ == decimal(n as nat),
    decreases n,
{
    let d = n % 10;
    let c = char_of_digit(d);
    if n < 10 {
        let mut r = String::new();
        push_char(&mut r, c);
        assert(r@ =~= seq![digit_char(n as int)]);
        r
    } else {
        let mut r = usize_to_string(n / 10);
        push_char(&mut r, c);
        r
    }
}

/// `u64` written in decimal, as `Display` does.
pub fn u64_to_string(n: u64) -> (r: String)
    ensures
        r@ == decimal(n as nat),
    decreases n,
{
    let c = char_of_digit((n % 10) as usize);
    if n < 10 {
        let mut r = String::new();
        push_char(&mut r, c);
        assert(r@ =~= seq![digit_char(n as int)]);
        r
    } else {
        let mut r = u64_to_string(n / 10);
        push_char(&mut r, c);
        r
    }
}

/// The character of a decimal digit.
fn char_of_digit(d: usize) -> (c: char)
    requires
        d < 10,
    ensures
        c == digit_char(d as int),
{
    if d == 0 {
        '0'
    } else if d == 1 {
        '1'
    } else if d == 2 {
        '2'
    } else if d == 3 {
        '3'
    } else if d == 4 {
        '4'
    } else if d == 5 {
        '5'
    } else if d == 6 {
        '6'
    } else if d == 7 {
        '7'
    } else if d == 8 {
        '8'
    } else {
        '9'
    }
}

/// `format!("{:?}", s)`: the quoted, escaped form of a string.
#[verifier::external_body]
pub(crate) fn debug_string(s: &str) -> (r: String)
    ensures
        r@ == debug_text(s@),
{
    format!("{:?}", s)
}

/// Equality of two character vectors.
pub fn vec_eq(a: &[char], b: &[char]) -> (r: bool)
    ensures
        r == (a@ == b@),
{
    if a.len() != b.len() {
        return false;
    }
    let r = starts_with_exec(a, b);
    assert(r ==> a@.subrange(0, b@.len() as int) =~= a@);
    proof {
        if a@ == b@ {
            assert(a@.subrange(0, b@.len() as int) =~= a@);
        }
    }
    r
}

/// String equality by content.
pub fn str_eq(a: &str, b: &str) -> (r: bool)
    ensures
        r == (a@ == b@),
{
    let x = to_chars(a);
    let y = to_chars(b);
    if x.len() != y.len() {
        return false;
    }
    let r = starts_with_exec(&x, &y);
    assert(r ==> x@.subrange(0, y@.len() as int) =~= x@);
    proof {
        if x@ == y@ {
            assert(x@.subrange(0, y@.len() as int) =~= x@);
        }
    }
    r
}

/// `str::starts_with`.
pub fn str_starts_with(s: &str, p: &str) -> (b: bool)
    ensures
        b == starts_with(s@, p@),
{
    let v = to_chars(s);
    let q = to_chars(p);
    starts_with_exec(&v, &q)
}

/// `str::contains`.
pub fn str_contains(s: &str, p: &str) -> (b: bool)
    ensures
        b == contains(s@, p@),
{
    let v = to_chars(s);
    let q = to_chars(p);
    find_exec(&v, &q).is_some()
}

/// `str::trim`, giving a `String`.
pub fn str_trim(s: &str) -> (r: String)
    ensures
        r@ == trim(s@),
{
    let v = to_chars(s);
    let t = trim_vec(&v);
    string_from(&t)
}

/// `str::trim_end_matches` with one character.
pub open spec fn trim_end_char(s: Seq<char>, c: char) -> Seq<char>
    decreases s.len(),
{
    if s.len() > 0 && s.last() == c {
        trim_end_char(s.drop_last(), c)
    } else {
        s
    }
}

/// What `str::parse` gives for a signed integer type with range
/// `min..=max`: an optional sign, then at least one digit, within range.
pub open spec fn parse_signed(s: Seq<char>, min: int, max: int) -> Option<int> {
    if s.len() > 0 && s[0] == '-' {
        let d = s.drop_first();
        if d.len() > 0 && all_digits(d) && -digits_value(d) >= min {
            Some(-digits_value(d))
        } else {
            None
        }
    } else {
        parse_unsigned(s, max)
    }
}

/// `str::parse::<i64>`: an optional sign, then digits, within range.
pub(crate) fn parse_i64(s: &str) -> (r: Option<i64>)
    ensures
        r matches Some(v) ==> parse_signed(s@, i64::MIN as int, i64::MAX as int) == Some(v as int),
        r is None ==> parse_signed(s@, i64::MIN as int, i64::MAX as int) is None,
{
    let chars = to_chars(s);
    if chars.len() > 0 && chars[0] == '-' {
        let d = chars_from(&chars, 1);
        assert(d@ =~= s@.drop_first());
        match digits_at_most(d.as_slice(), 9223372036854775808u64) {
            Some(v) => {
                if v == 9223372036854775808u64 {
                    Some(i64::MIN)
                } else {
                    Some(-(v as i64))
                }
            },
            None => None,
        }
    } else {
        match parse_unsigned_exec(s, i64::MAX as u64) {
            Some(v) => Some(v as i64),
            None => None,
        }
    }
}

/// `str::trim_matches` with one character.
pub open spec fn trim_char(s: Seq<char>, c: char) -> Seq<char> {
    trim_end_char(trim_start_char(s, c), c)
}

/// The views of a sequence of strings.
pub open spec fn strs(v: Seq<String>) -> Seq<Seq<char>> {
    Seq::new(v.len(), |i: int| v[i]@)
}

/// `trim_end_char` on a character vector.
pub fn trim_end_char_exec(v: &[char], c: char) -> (r: Vec<char>)
    ensures
        r@ == trim_end_char(v@, c),
{
    let mut j = v.len();
    assert(v@.take(j as int) =~= v@);
    while j > 0 && v[j - 1] == c
        invariant
            j <= v@.len(),
            trim_end_char(v@, c) == trim_end_char(v@.take(j as int), c),
        decreases j,
    {
        assert(v@.take(j as int).drop_last() =~= v@.take(j - 1));
        j -= 1;
    }
    assert(v@.take(j as int) =~= v@.subrange(0, j as int));
    slice_of(v, 0, j)
}

/// `replace_char` on a character vector.
pub fn replace_char_exec(v: &[char], c: char, r: &[char]) -> (out: Vec<char>)
    ensures
        out@ == replace_char(v@, c, r@),
{
    let mut out: Vec<char> = Vec::new();
    let mut i: usize = 0;
    assert(v@.skip(0) =~= v@);
    while i < v.len()
        invariant
            i <= v@.len(),
            out@ + replace_char(v@.skip(i as int), c, r@) == replace_char(v@, c, r@),
        decreases v.len() - i,
    {
        let ghost o = out@;
        assert(v@.skip(i as int).drop_first() =~= v@.skip(i + 1));
        if v[i] == c {
            let mut k: usize = 0;
            while k < r.len()
                invariant
                    k <= r@.len(),
                    out@ == o + r@.take(k as int),
                decreases r.len() - k,
            {
                out.push(r[k]);
                k += 1;
                assert(out@ =~= o + r@.take(k as int));
            }
            assert(r@.take(r@.len() as int) =~= r@);
        } else {
            out.push(v[i]);
        }
        i += 1;
        assert(out@ + replace_char(v@.skip(i as int), c, r@) =~= o + replace_char(v@.skip(i - 1), c, r@));
    }
    assert(out@ + Seq::<char>::empty() =~= out@);
    out
}

/// Converts character vectors to strings.
pub fn to_strings(v: &Vec<Vec<char>>) -> (r: Vec<String>)
    ensures
        strs(r@) == views(v@),
{
    let mut r: Vec<String> = Vec::new();
    let mut i: usize = 0;
    while i < v.len()
        invariant
            i <= v@.len(),
            strs(r@) == views(v@).take(i as int),
        decreases v.len() - i,
    {
        let ghost o = r@;
        let x = string_from(&v[i]);
        assert(x@ == views(v@)[i as int]);
        r.push(x);
        assert(strs(r@) =~= strs(o) + seq![x@]);
        i += 1;
        assert(strs(r@) =~= views(v@).take(i as int));
    }
    assert(views(v@).take(v@.len() as int) =~= views(v@));
    r
}

/// Lines joined with `\n`.
pub fn join_lines(ls: &Vec<Vec<char>>) -> (s: String)
    ensures
        s@ == join(views(ls@), seq!['\n']),
{
    let mut s = String::new();
    let mut i: usize = 0;
    let ghost vs = views(ls@);
    while i < ls.len()
        invariant
            i <= ls@.len(),
            vs == views(ls@),
            s@ == join(vs.take(i as int), seq!['\n']),
        decreases ls.len() - i,
    {
        let ghost s0 = s@;
        if i > 0 {
            push_char(&mut s, '\n');
        }
        push_all(&mut s, &ls[i]);
        proof {
            let t = vs.take(i + 1);
            assert(t.drop_last() =~= vs.take(i as int));
            assert(t.last() == ls@[i as int]@);
            if i == 0 {
                assert(s0 =~= Seq::<char>::empty());
                assert(s@ =~= t[0]);
            } else {
                assert(s@ =~= s0 + seq!['\n'] + t.last());
            }
        }
        i += 1;
    }
    assert(vs.take(ls@.len() as int) =~= vs);
    s
}

/// Appends the text of `t` to `s`.
pub fn append(s: &mut String, t: &str)
    ensures
        final(s)@ == old(s)@ + t@,
{
    let v = to_chars(t);
    push_all(s, &v);
}

/// `rfind` for one character.
pub fn rfind_exec(v: &[char], c: char) -> (r: Option<usize>)
    ensures
        r matches Some(i) ==> rfind_char(v@, c) == Some(i as int) && i < v@.len(),
        r is None ==> rfind_char(v@, c) is None,
{
    let mut k = v.len();
    assert(v@.take(k as int) =~= v@);
    while k > 0
        invariant
            k <= v@.len(),
            rfind_char(v@, c) == rfind_char(v@.take(k as int), c),
        decreases k,
    {
        assert(v@.take(k as int).last() == v@[k - 1]);
        assert(v@.take(k as int).drop_last() =~= v@.take(k - 1));
        if v[k - 1] == c {
            return Some(k - 1);
        }
        k -= 1;
    }
    None
}

} // verus!
