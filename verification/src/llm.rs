//! Messages for the AI models and the extraction of code, diffs and JSON
//! from their responses.
use vstd::prelude::*;
use crate::error::CheckerError;
use crate::json::{json_get, json_index, json_str, jstr, jview, jview_items, jview_members,
    number_view, Json, JsonNumber, JsonValue};
use crate::text::{
    contains, ends_with, find, find_exec, join, lines, lines_vec, push_all, push_char,
    rfind_char, slice_of, starts_with, starts_with_exec, str_contains, string_from, string_of,
    to_chars, trim_end, trim_start, views, skip_ws, skip_ws_back, lemma_find, lemma_occurs_char, join_lines, rfind_exec,
};

verus! {

/// Role a model is being used for in the repair pipeline.
#[derive(Debug, Clone, Copy, PartialEq, Eq, Structural, Hash)]
pub enum ModelRole {
    Planner,
    Fixer,
    Verifier,
}

/// A message in a chat completion request.
#[derive(Debug, Clone)]
pub struct ChatMessage {
    /// Role: "system", "user", or "assistant".
    pub role: String,
    /// Message content.
    pub content: String,
}

impl ChatMessage {
    /// A system message.
    pub fn system(content: String) -> (r: Self)
        ensures
            r.role@ == "system"@,
            r.content == content,
    {
        ChatMessage { role: String::from_str("system"), content }
    }

    /// A user message.
    pub fn user(content: String) -> (r: Self)
        ensures
            r.role@ == "user"@,
            r.content == content,
    {
        ChatMessage { role: String::from_str("user"), content }
    }
}

/// Token counts reported by a model call.
#[derive(Debug, Clone, Copy)]
pub struct TokenUsage {
    pub prompt_tokens: u64,
    pub completion_tokens: u64,
    pub total_tokens: u64,
}

impl TokenUsage {
    /// No tokens yet.
    pub fn zero() -> (r: Self)
        ensures
            r.prompt_tokens == 0 && r.completion_tokens == 0 && r.total_tokens == 0,
    {
        TokenUsage { prompt_tokens: 0, completion_tokens: 0, total_tokens: 0 }
    }
}

/// Response from an LLM call.
#[derive(Debug, Clone)]
pub struct LlmResponse {
    /// The text content of the response.
    pub content: String,
    /// Token usage, when the provider reports it.
    pub usage: Option<TokenUsage>,
}

/// Accumulate token usage from an API call into a running total.
pub fn accumulate_usage(total: &mut TokenUsage, usage: Option<TokenUsage>)
    requires
        usage matches Some(u) ==> old(total).prompt_tokens + u.prompt_tokens <= u64::MAX
            && old(total).completion_tokens + u.completion_tokens <= u64::MAX
            && old(total).total_tokens + u.total_tokens <= u64::MAX,
    ensures
        match usage {
            Some(u) => final(total).prompt_tokens == old(total).prompt_tokens + u.prompt_tokens
                && final(total).completion_tokens == old(total).completion_tokens
                + u.completion_tokens && final(total).total_tokens == old(total).total_tokens
                + u.total_tokens,
            None => *final(total) == *old(total),
        },
{
    if let Some(u) = usage {
        total.prompt_tokens = total.prompt_tokens + u.prompt_tokens;
        total.completion_tokens = total.completion_tokens + u.completion_tokens;
        total.total_tokens = total.total_tokens + u.total_tokens;
    }
}

/// The cheaper model used for planning and verification.
pub open spec fn spec_cheap_model(model: Seq<char>) -> Seq<char> {
    if starts_with(model, "gpt-4o"@) && !contains(model, "mini"@) {
        "gpt-4o-mini"@
    } else if starts_with(model, "gpt-4"@) && !contains(model, "mini"@) {
        "gpt-4o-mini"@
    } else {
        model
    }
}

/// Derive a cheaper model name from the main model: a GPT-4 model that is
/// not already a "mini" becomes "gpt-4o-mini"; other models stay as they are.
pub fn cheap_model_for(model: &str) -> (r: String)
    ensures
        r@ == spec_cheap_model(model@),
{
    if crate::text::str_starts_with(model, "gpt-4o") && !str_contains(model, "mini") {
        return String::from_str("gpt-4o-mini");
    }
    if crate::text::str_starts_with(model, "gpt-4") && !str_contains(model, "mini") {
        return String::from_str("gpt-4o-mini");
    }
    String::from_str(model)
}

// ---------------------------------------------------------------------------
// Response extraction
// ---------------------------------------------------------------------------

/// The first line, at or after `i`, that starts with `a` or `b`.
pub open spec fn first_opening(ls: Seq<Seq<char>>, i: int, a: Seq<char>, b: Seq<char>) -> Option<int>
    decreases ls.len() - i,
{
    if i < 0 || i >= ls.len() {
        None
    } else if starts_with(ls[i], a) || starts_with(ls[i], b) {
        Some(i)
    } else {
        first_opening(ls, i + 1, a, b)
    }
}

/// The lines of a fenced block from line `i`: up to the next line starting
/// with three backticks, skipping further opening lines (`a` or `b`).
pub open spec fn fenced_body(ls: Seq<Seq<char>>, i: int, a: Seq<char>, b: Seq<char>) -> Seq<Seq<char>>
    decreases ls.len() - i,
{
    if i < 0 || i >= ls.len() {
        seq![]
    } else if starts_with(ls[i], a) || starts_with(ls[i], b) {
        fenced_body(ls, i + 1, a, b)
    } else if starts_with(ls[i], "```"@) {
        seq![]
    } else {
        seq![ls[i]] + fenced_body(ls, i + 1, a, b)
    }
}

/// The lines of the first block opened by a line starting with `a` or `b`.
pub open spec fn fenced_block(ls: Seq<Seq<char>>, a: Seq<char>, b: Seq<char>) -> Seq<Seq<char>> {
    match first_opening(ls, 0, a, b) {
        Some(k) => fenced_body(ls, k + 1, a, b),
        None => seq![],
    }
}

/// The lines of a code block from line `i`: up to the next line starting
/// with three backticks, which closes it.
pub open spec fn code_body(ls: Seq<Seq<char>>, i: int) -> Seq<Seq<char>>
    decreases ls.len() - i,
{
    if i < 0 || i >= ls.len() || starts_with(ls[i], "```"@) {
        seq![]
    } else {
        seq![ls[i]] + code_body(ls, i + 1)
    }
}

/// The lines of the first ``` ... ``` block: from the line after the first
/// fence line to the next fence line (or the end).
pub open spec fn code_lines(ls: Seq<Seq<char>>) -> Seq<Seq<char>> {
    match first_opening(ls, 0, "```"@, "```"@) {
        Some(k) => code_body(ls, k + 1),
        None => seq![],
    }
}

/// What [`extract_code_block`] gives: the first fenced block, or the whole
/// response when there is none (or it is empty).
pub open spec fn spec_extract_code_block(response: Seq<char>) -> Seq<char> {
    let c = code_lines(lines(response));
    if c.len() > 0 {
        join(c, seq!['\n'])
    } else {
        response
    }
}

/// The lines from the first `---` or `diff --git` line to the end.
pub open spec fn raw_diff_lines(ls: Seq<Seq<char>>) -> Seq<Seq<char>> {
    match first_opening(ls, 0, "---"@, "diff --git"@) {
        Some(k) => ls.skip(k),
        None => seq![],
    }
}

/// What [`extract_diff_block`] gives.
pub open spec fn spec_extract_diff_block(response: Seq<char>) -> Option<Seq<char>> {
    let ls = lines(response);
    let d = fenced_block(ls, "```diff"@, "```patch"@);
    let code = join(code_lines(ls), seq!['\n']);
    if d.len() > 0 {
        Some(join(d, seq!['\n']))
    } else if code_lines(ls).len() > 0 && contains(code, "---"@) && contains(code, "+++"@) {
        Some(code)
    } else if raw_diff_lines(ls).len() > 0 {
        Some(join(raw_diff_lines(ls), seq!['\n']))
    } else {
        None
    }
}

/// What [`extract_json_block`] gives.
pub open spec fn spec_extract_json_block(response: Seq<char>) -> Option<Seq<char>> {
    let ls = lines(response);
    let j = fenced_block(ls, "```json"@, "```json"@);
    let code = spec_extract_code_block(response);
    if j.len() > 0 {
        Some(join(j, seq!['\n']))
    } else if starts_with(trim_start(code), seq!['{']) && ends_with(trim_end(code), seq!['}']) {
        Some(code)
    } else {
        match (find(response, seq!['{']), rfind_char(response, '}')) {
            (Some(s), Some(e)) => if e > s {
                Some(response.subrange(s, e + 1))
            } else {
                None
            },
            _ => None,
        }
    }
}

/// The last position of a character is where it stands, with none after.
pub proof fn lemma_rfind_char(s: Seq<char>, c: char)
    ensures
        rfind_char(s, c) matches Some(e) ==> 0 <= e < s.len() && s[e] == c && forall|k: int|
            e < k < s.len() ==> s[k] != c,
        rfind_char(s, c) is None ==> forall|k: int| 0 <= k < s.len() ==> s[k] != c,
    decreases s.len(),
{
    if s.len() > 0 && s.last() != c {
        let p = s.drop_last();
        lemma_rfind_char(p, c);
        assert forall|k: int| 0 <= k < p.len() implies p[k] == s[k] by {}
    }
}

/// The first position of a character is where it stands, with none before.
pub proof fn lemma_find_char(s: Seq<char>, c: char)
    ensures
        find(s, seq![c]) matches Some(i) ==> 0 <= i < s.len() && s[i] == c && forall|k: int|
            0 <= k < i ==> s[k] != c,
        find(s, seq![c]) is None ==> forall|k: int| 0 <= k < s.len() ==> s[k] != c,
{
    lemma_find(s, seq![c]);
    match find(s, seq![c]) {
        Some(i) => {
            lemma_occurs_char(s, c, i);
            assert forall|k: int| 0 <= k < i implies s[k] != c by {
                lemma_occurs_char(s, c, k);
            }
        },
        None => {
            assert forall|k: int| 0 <= k < s.len() implies s[k] != c by {
                lemma_occurs_char(s, c, k);
            }
        },
    }
}

/// What JSON extraction gives is an object's text. Outside a JSON fence,
/// it starts with `{` and ends with `}` (around whitespace). Without a
/// JSON fence or a code block that holds an object, it is the span of the
/// response from its first `{` through its last `}`, both included; there
/// is none exactly when no `{` comes before a `}`.
pub proof fn law_json_block_is_braced(response: Seq<char>)
    ensures
        spec_extract_json_block(response) matches Some(x) ==> fenced_block(
            lines(response),
            "```json"@,
            "```json"@,
        ).len() > 0 || (starts_with(trim_start(x), seq!['{']) && ends_with(
            trim_end(x),
            seq!['}'],
        )),
        ({
            let code = spec_extract_code_block(response);
            fenced_block(lines(response), "```json"@, "```json"@).len() == 0 && !(starts_with(
                trim_start(code),
                seq!['{'],
            ) && ends_with(trim_end(code), seq!['}']))
        }) ==> match spec_extract_json_block(response) {
            Some(x) => x.len() >= 2 && x[0] == '{' && x[x.len() - 1] == '}' && exists|s: int|
                0 <= s && s + x.len() <= response.len() && #[trigger] response.subrange(
                    s,
                    s + x.len(),
                ) == x && (forall|k: int| 0 <= k < s ==> response[k] != '{') && (forall|k: int|
                    s + x.len() <= k < response.len() ==> response[k] != '}'),
            None => forall|i: int, j: int|
                0 <= i < j < response.len() ==> !(response[i] == '{' && response[j] == '}'),
        },
{
    let code = spec_extract_code_block(response);
    let jf = fenced_block(lines(response), "```json"@, "```json"@);
    if jf.len() == 0 && !(starts_with(trim_start(code), seq!['{']) && ends_with(
        trim_end(code),
        seq!['}'],
    )) {
        lemma_find_char(response, '{');
        lemma_rfind_char(response, '}');
        match (find(response, seq!['{']), rfind_char(response, '}')) {
            (Some(s), Some(e)) => {
                if e > s {
                    let x = response.subrange(s, e + 1);
                    assert(x[0] == response[s]);
                    assert(x[x.len() - 1] == response[e]);
                    assert(response.subrange(s, s + x.len()) == x);
                    assert(trim_start(x) == x);
                    assert(x.subrange(0, 1) =~= seq!['{']);
                    assert(trim_end(x) == x);
                    assert(x.subrange(x.len() - 1, x.len() as int) =~= seq!['}']);
                }
            },
            _ => {},
        }
    }
}

/// The first line at or after `i` that starts with `a` or `b`.
fn first_opening_exec(ls: &Vec<Vec<char>>, i: usize, a: &[char], b: &[char]) -> (r: Option<usize>)
    ensures
        r matches Some(k) ==> first_opening(views(ls@), i as int, a@, b@) == Some(k as int) && k < ls@.len(),
        r is None ==> first_opening(views(ls@), i as int, a@, b@) is None,
{
    let mut k = i;
    while k < ls.len()
        invariant
            i <= k,
            first_opening(views(ls@), i as int, a@, b@) == first_opening(views(ls@), k as int, a@, b@),
        decreases ls.len() - k,
    {
        assert(views(ls@)[k as int] == ls@[k as int]@);
        if starts_with_exec(&ls[k], a) || starts_with_exec(&ls[k], b) {
            return Some(k);
        }
        k += 1;
    }
    None
}

/// The body of a fenced block starting at line `i`.
fn fenced_body_exec(ls: &Vec<Vec<char>>, i: usize, a: &[char], b: &[char]) -> (r: Vec<Vec<char>>)
    ensures
        views(r@) == fenced_body(views(ls@), i as int, a@, b@),
{
    let fence = to_chars("```");
    let mut out: Vec<Vec<char>> = Vec::new();
    let mut k = i;
    let ghost vs = views(ls@);
    while k < ls.len()
        invariant
            i <= k,
            vs == views(ls@),
            fence@ == "```"@,
            views(out@) + fenced_body(vs, k as int, a@, b@) == fenced_body(vs, i as int, a@, b@),
        decreases ls.len() - k,
    {
        assert(vs[k as int] == ls@[k as int]@);
        if starts_with_exec(&ls[k], a) || starts_with_exec(&ls[k], b) {
            k += 1;
        } else if starts_with_exec(&ls[k], &fence) {
            assert(views(out@) + Seq::<Seq<char>>::empty() =~= views(out@));
            return out;
        } else {
            let ghost o = out@;
            let line = slice_of(&ls[k], 0, ls[k].len());
            assert(ls@[k as int]@.subrange(0, ls@[k as int]@.len() as int) =~= ls@[k as int]@);
            out.push(line);
            assert(views(out@) =~= views(o) + seq![line@]);
            k += 1;
        }
    }
    assert(views(out@) + Seq::<Seq<char>>::empty() =~= views(out@));
    out
}

/// The body of a code block starting at line `i`.
fn code_body_exec(ls: &Vec<Vec<char>>, i: usize) -> (r: Vec<Vec<char>>)
    ensures
        views(r@) == code_body(views(ls@), i as int),
{
    let fence = to_chars("```");
    let mut out: Vec<Vec<char>> = Vec::new();
    let mut k = i;
    let ghost vs = views(ls@);
    while k < ls.len()
        invariant
            i <= k,
            vs == views(ls@),
            fence@ == "```"@,
            views(out@) + code_body(vs, k as int) == code_body(vs, i as int),
        decreases ls.len() - k,
    {
        assert(vs[k as int] == ls@[k as int]@);
        if starts_with_exec(&ls[k], &fence) {
            assert(views(out@) + Seq::<Seq<char>>::empty() =~= views(out@));
            return out;
        }
        let ghost o = out@;
        let line = slice_of(&ls[k], 0, ls[k].len());
        assert(ls@[k as int]@.subrange(0, ls@[k as int]@.len() as int) =~= ls@[k as int]@);
        out.push(line);
        assert(views(out@) =~= views(o) + seq![line@]);
        k += 1;
    }
    assert(views(out@) + Seq::<Seq<char>>::empty() =~= views(out@));
    out
}

/// The lines of the first ``` ... ``` block.
fn code_lines_exec(ls: &Vec<Vec<char>>) -> (r: Vec<Vec<char>>)
    ensures
        views(r@) == code_lines(views(ls@)),
{
    let fence = to_chars("```");
    match first_opening_exec(ls, 0, &fence, &fence) {
        Some(k) => {
            let n = ls.len();
            assert(k < n);
            code_body_exec(ls, k + 1)
        },
        None => {
            let r: Vec<Vec<char>> = Vec::new();
            assert(views(r@) =~= Seq::<Seq<char>>::empty());
            r
        },
    }
}

/// The lines of the first block opened by a line starting with `a` or `b`.
fn fenced_block_exec(ls: &Vec<Vec<char>>, a: &[char], b: &[char]) -> (r: Vec<Vec<char>>)
    ensures
        views(r@) == fenced_block(views(ls@), a@, b@),
{
    match first_opening_exec(ls, 0, a, b) {
        Some(k) => {
            let n = ls.len();
            assert(k < n);
            fenced_body_exec(ls, k + 1, a, b)
        },
        None => {
            let r: Vec<Vec<char>> = Vec::new();
            assert(views(r@) =~= Seq::<Seq<char>>::empty());
            r
        },
    }
}

/// Extract a fenced code block from an LLM response.
///
/// Looks for the first ``` ... ``` block and returns its content.
/// If no code fence is found, returns the whole response as-is.
pub fn extract_code_block(response: &str) -> (r: String)
    ensures
        r@ == spec_extract_code_block(response@),
{
    let chars = to_chars(response);
    let ls = lines_vec(&chars);
    let code = code_lines_exec(&ls);
    if code.len() > 0 {
        return join_lines(&code);
    }
    String::from_str(response)
}

/// Extract a unified diff from an LLM response.
///
/// Looks for content inside a code block tagged `diff` or `patch`, then for
/// a fenced code block holding `---` and `+++`, then for the content from
/// the first `---` or `diff --git` line on.
pub fn extract_diff_block(response: &str) -> (r: Option<String>)
    ensures
        r matches Some(x) ==> spec_extract_diff_block(response@) == Some(x@),
        r is None ==> spec_extract_diff_block(response@) is None,
{
    let chars = to_chars(response);
    let ls = lines_vec(&chars);
    let d = fenced_block_exec(&ls, &to_chars("```diff"), &to_chars("```patch"));
    if d.len() > 0 {
        return Some(join_lines(&d));
    }
    let cl = code_lines_exec(&ls);
    let code = join_lines(&cl);
    if cl.len() > 0 && str_contains(code.as_str(), "---") && str_contains(code.as_str(), "+++") {
        return Some(code);
    }
    match first_opening_exec(&ls, 0, &to_chars("---"), &to_chars("diff --git")) {
        Some(k) => {
            let mut raw: Vec<Vec<char>> = Vec::new();
            let mut i = k;
            let ghost vs = views(ls@);
            assert(vs.skip(k as int).take(0) =~= Seq::<Seq<char>>::empty());
            while i < ls.len()
                invariant
                    k <= i <= ls@.len(),
                    vs == views(ls@),
                    views(raw@) == vs.skip(k as int).take(i - k),
                decreases ls.len() - i,
            {
                let ghost o = raw@;
                let line = slice_of(&ls[i], 0, ls[i].len());
                assert(ls@[i as int]@.subrange(0, ls@[i as int]@.len() as int) =~= ls@[i as int]@);
                raw.push(line);
                assert(views(raw@) =~= views(o) + seq![line@]);
                assert(vs.skip(k as int).take(i + 1 - k) =~= vs.skip(k as int).take(i - k) + seq![vs[i as int]]);
                i += 1;
            }
            assert(vs.skip(k as int).take(ls@.len() - k) =~= vs.skip(k as int));
            Some(join_lines(&raw))
        },
        None => None,
    }
}

/// Extract JSON from an LLM response.
///
/// Looks for a JSON code block, then for any code block that looks like an
/// object, then for the span from the first `{` to the last `}`.
pub fn extract_json_block(response: &str) -> (r: Option<String>)
    ensures
        r matches Some(x) ==> spec_extract_json_block(response@) == Some(x@),
        r is None ==> spec_extract_json_block(response@) is None,
{
    let chars = to_chars(response);
    let ls = lines_vec(&chars);
    let tag = to_chars("```json");
    let j = fenced_block_exec(&ls, &tag, &tag);
    if j.len() > 0 {
        return Some(join_lines(&j));
    }
    let code = extract_code_block(response);
    let cv = to_chars(code.as_str());
    let a = skip_ws(&cv, 0, cv.len());
    let b = skip_ws_back(&cv, 0, cv.len());
    let n = cv.len();
    let opens = a < n && cv[a] == '{';
    let closes = b > 0 && cv[b - 1] == '}';
    proof {
        assert(cv@.subrange(0, n as int) =~= cv@);
        let ts = cv@.subrange(a as int, n as int);
        assert(cv@ == code@);
        assert(trim_start(code@) == ts);
        if a < n {
            assert(ts.subrange(0, 1) =~= seq![cv@[a as int]]);
            if cv@[a as int] == '{' {
                assert(ts.subrange(0, 1) =~= seq!['{']);
            } else {
                assert(ts.subrange(0, 1)[0] != seq!['{'][0]);
            }
        }
        assert(starts_with(ts, seq!['{']) == opens);
        let te = cv@.subrange(0, b as int);
        assert(trim_end(code@) == te);
        if b > 0 {
            assert(te.subrange(te.len() - 1, te.len() as int) =~= seq![cv@[b - 1]]);
            if cv@[b - 1] == '}' {
                assert(te.subrange(te.len() - 1, te.len() as int) =~= seq!['}']);
            } else {
                assert(te.subrange(te.len() - 1, te.len() as int)[0] != seq!['}'][0]);
            }
        }
        assert(ends_with(te, seq!['}']) == closes);
    }
    if opens && closes {
        return Some(code);
    }
    let open_brace = ['{'];
    assert(open_brace@ =~= seq!['{']);
    let n = chars.len();
    match find_exec(&chars, &open_brace) {
        Some(s) => {
            proof {
                lemma_find(chars@, seq!['{']);
            }
            match rfind_exec(&chars, '}') {
                Some(e) => {
                    if e > s {
                        assert(e < n);
                        Some(string_of(&chars, s, e + 1))
                    } else {
                        None
                    }
                },
                None => None,
            }
        },
        None => None,
    }
}

// ---------------------------------------------------------------------------
// Provider requests and responses
// ---------------------------------------------------------------------------

/// The AI providers a model can be called at.
#[derive(Debug, Clone, Copy, PartialEq, Eq, Structural)]
pub enum LlmProvider {
    OpenAi,
    Anthropic,
    Ollama,
}

/// The provider named by a configuration, or the error for another name.
pub open spec fn spec_provider(name: Seq<char>) -> Result<LlmProvider, Seq<char>> {
    if name == "openai"@ {
        Ok(LlmProvider::OpenAi)
    } else if name == "anthropic"@ {
        Ok(LlmProvider::Anthropic)
    } else if name == "ollama"@ {
        Ok(LlmProvider::Ollama)
    } else {
        Err("Unknown AI provider: "@ + name + ". Use openai, anthropic, or ollama."@)
    }
}

/// Which provider a configuration's provider name selects; any other name
/// is an error.
pub fn provider_for(name: &str) -> (r: Result<LlmProvider, CheckerError>)
    ensures
        match spec_provider(name@) {
            Ok(p) => r == Ok::<LlmProvider, CheckerError>(p),
            Err(m) => r matches Err(CheckerError::AiFixFailed { reason }) && reason@ == m,
        },
{
    if crate::text::str_eq(name, "openai") {
        Ok(LlmProvider::OpenAi)
    } else if crate::text::str_eq(name, "anthropic") {
        Ok(LlmProvider::Anthropic)
    } else if crate::text::str_eq(name, "ollama") {
        Ok(LlmProvider::Ollama)
    } else {
        let mut m = String::from_str("Unknown AI provider: ");
        crate::text::append(&mut m, name);
        crate::text::append(&mut m, ". Use openai, anthropic, or ollama.");
        Err(CheckerError::AiFixFailed { reason: m })
    }
}

/// An HTTP request to a model: a POST of a JSON body.
#[derive(Debug)]
pub struct LlmRequest {
    pub url: String,
    /// Headers, in order, by name and value.
    pub headers: Vec<(String, String)>,
    pub body: JsonValue,
}

/// The views of headers.
pub open spec fn header_views(h: Seq<(String, String)>) -> Seq<(Seq<char>, Seq<char>)> {
    Seq::new(h.len(), |i: int| (h[i].0@, h[i].1@))
}

/// A message as JSON: its role and content.
pub open spec fn message_json(m: ChatMessage) -> Json {
    Json::Obj(seq![("role"@, Json::Str(m.role@)), ("content"@, Json::Str(m.content@))])
}

/// The messages as JSON, skipping system messages when `skip_system`.
pub open spec fn messages_json(ms: Seq<ChatMessage>, skip_system: bool) -> Seq<Json>
    decreases ms.len(),
{
    if ms.len() == 0 {
        Seq::empty()
    } else {
        messages_json(ms.drop_last(), skip_system) + if skip_system && ms.last().role@
            == "system"@ {
            Seq::empty()
        } else {
            seq![message_json(ms.last())]
        }
    }
}

/// The content of the first system message.
pub open spec fn first_system(ms: Seq<ChatMessage>) -> Option<Seq<char>>
    decreases ms.len(),
{
    if ms.len() == 0 {
        None
    } else if ms[0].role@ == "system"@ {
        Some(ms[0].content@)
    } else {
        first_system(ms.drop_first())
    }
}

/// The OpenAI chat-completions request, or the error without a key.
pub open spec fn spec_openai_request(
    model: Seq<char>,
    api_key: Option<Seq<char>>,
    temperature: JsonNumber,
    ms: Seq<ChatMessage>,
) -> Result<(Seq<char>, Seq<(Seq<char>, Seq<char>)>, Json), Seq<char>> {
    match api_key {
        None => Err("OPENAI_API_KEY environment variable not set"@),
        Some(k) => Ok(
            (
                "https://api.openai.com/v1/chat/completions"@,
                seq![("Authorization"@, "Bearer "@ + k), ("Content-Type"@, "application/json"@)],
                Json::Obj(
                    seq![
                        ("model"@, Json::Str(model)),
                        ("messages"@, Json::Arr(messages_json(ms, false))),
                        ("temperature"@, number_view(temperature)),
                    ],
                ),
            ),
        ),
    }
}

/// The Anthropic messages request (the system message apart, at most
/// 8192 tokens), or the error without a key.
pub open spec fn spec_anthropic_request(
    model: Seq<char>,
    api_key: Option<Seq<char>>,
    temperature: JsonNumber,
    ms: Seq<ChatMessage>,
) -> Result<(Seq<char>, Seq<(Seq<char>, Seq<char>)>, Json), Seq<char>> {
    match api_key {
        None => Err("ANTHROPIC_API_KEY environment variable not set"@),
        Some(k) => Ok(
            (
                "https://api.anthropic.com/v1/messages"@,
                seq![
                    ("x-api-key"@, k),
                    ("anthropic-version"@, "2023-06-01"@),
                    ("Content-Type"@, "application/json"@),
                ],
                Json::Obj(
                    seq![
                        ("model"@, Json::Str(model)),
                        ("max_tokens"@, Json::Int(8192)),
                        ("messages"@, Json::Arr(messages_json(ms, true))),
                        ("temperature"@, number_view(temperature)),
                    ] + match first_system(ms) {
                        Some(s) => seq![("system"@, Json::Str(s))],
                        None => Seq::empty(),
                    },
                ),
            ),
        ),
    }
}

/// The prompt of an Ollama request: the messages' contents, a system one
/// marked `SYSTEM: `, joined by blank lines.
pub open spec fn ollama_prompt(ms: Seq<ChatMessage>) -> Seq<char> {
    join(
        Seq::new(
            ms.len(),
            |i: int|
                if ms[i].role@ == "system"@ {
                    "SYSTEM: "@ + ms[i].content@
                } else {
                    ms[i].content@
                },
        ),
        "\n\n"@,
    )
}

/// The Ollama generate request, at `base_url` (by default the local
/// server).
pub open spec fn spec_ollama_request(
    model: Seq<char>,
    base_url: Option<Seq<char>>,
    temperature: JsonNumber,
    ms: Seq<ChatMessage>,
) -> (Seq<char>, Seq<(Seq<char>, Seq<char>)>, Json) {
    (
        match base_url {
            Some(b) => b,
            None => "http://localhost:11434"@,
        } + "/api/generate"@,
        seq![("Content-Type"@, "application/json"@)],
        Json::Obj(
            seq![
                ("model"@, Json::Str(model)),
                ("prompt"@, Json::Str(ollama_prompt(ms))),
                ("stream"@, Json::Bool(false)),
                ("options"@, Json::Obj(seq![("temperature"@, number_view(temperature))])),
            ],
        ),
    )
}

/// The view of a request.
pub open spec fn request_view(r: LlmRequest) -> (Seq<char>, Seq<(Seq<char>, Seq<char>)>, Json) {
    (r.url@, header_views(r.headers@), jview(r.body))
}

/// A header.
fn header(name: &str, value: String) -> (r: (String, String))
    ensures
        r.0@ == name@,
        r.1@ == value@,
{
    (String::from_str(name), value)
}

/// A member of a JSON object.
fn jmember(key: &str, v: JsonValue) -> (r: (String, JsonValue))
    ensures
        r.0@ == key@,
        r.1 == v,
{
    (String::from_str(key), v)
}

/// The messages as JSON, skipping system messages when `skip_system`.
fn messages_value(ms: &[ChatMessage], skip_system: bool) -> (r: Vec<JsonValue>)
    ensures
        jview_items(r@) == messages_json(ms@, skip_system),
{
    let mut r: Vec<JsonValue> = Vec::new();
    let mut i: usize = 0;
    assert(ms@.take(0) =~= Seq::<ChatMessage>::empty());
    while i < ms.len()
        invariant
            i <= ms@.len(),
            jview_items(r@) == messages_json(ms@.take(i as int), skip_system),
        decreases ms.len() - i,
    {
        let ghost before = r@;
        assert(ms@.take(i + 1).drop_last() =~= ms@.take(i as int));
        assert(ms@.take(i + 1).last() == ms@[i as int]);
        if !(skip_system && crate::text::str_eq(ms[i].role.as_str(), "system")) {
            let mut m: Vec<(String, JsonValue)> = Vec::new();
            assert(jview_members(m@) =~= Seq::<(Seq<char>, Json)>::empty());
            crate::json::push_member(&mut m, "role", JsonValue::String(ms[i].role.clone()));
            crate::json::push_member(&mut m, "content", JsonValue::String(ms[i].content.clone()));
            assert(jview_members(m@) =~~= seq![("role"@, Json::Str(ms@[i as int].role@)), (
                "content"@,
                Json::Str(ms@[i as int].content@),
            )]);
            let x = JsonValue::Object(m);
            assert(jview(x) == message_json(ms@[i as int]));
            proof {
                crate::json::lemma_jview_items_push(r@, x);
            }
            r.push(x);
            assert(jview_items(r@) =~~= messages_json(ms@.take(i as int), skip_system) + seq![
                message_json(ms@[i as int]),
            ]);
        }
        assert(jview_items(r@) =~~= messages_json(ms@.take(i + 1), skip_system));
        i += 1;
    }
    assert(ms@.take(ms@.len() as int) =~= ms@);
    r
}

/// An optional text as a sequence.
pub open spec fn opt_text(o: Option<&str>) -> Option<Seq<char>> {
    match o {
        Some(t) => Some(t@),
        None => None,
    }
}

/// The AI-fix error with a reason.
fn failed(reason: &str) -> (r: CheckerError)
    ensures
        r matches CheckerError::AiFixFailed { reason: m } && m@ == reason@,
{
    CheckerError::AiFixFailed { reason: String::from_str(reason) }
}

/// The request to OpenAI's chat completions for `model`, with the
/// temperature as a JSON number; without an API key, the error that names
/// the missing variable.
pub fn openai_request(
    model: &str,
    api_key: Option<&str>,
    temperature: JsonNumber,
    messages: &[ChatMessage],
) -> (r: Result<LlmRequest, CheckerError>)
    ensures
        match spec_openai_request(model@, opt_text(api_key), temperature, messages@) {
            Ok(v) => r matches Ok(q) && request_view(q) =~~= v,
            Err(m) => r matches Err(CheckerError::AiFixFailed { reason }) && reason@ == m,
        },
{
    let key = match api_key {
        Some(k) => k,
        None => return Err(failed("OPENAI_API_KEY environment variable not set")),
    };
    let mut auth = String::from_str("Bearer ");
    crate::text::append(&mut auth, key);
    let mut headers: Vec<(String, String)> = Vec::new();
    headers.push(header("Authorization", auth));
    headers.push(header("Content-Type", String::from_str("application/json")));
    let ghost tv = number_view(temperature);
    let mut body: Vec<(String, JsonValue)> = Vec::new();
    assert(jview_members(body@) =~= Seq::<(Seq<char>, Json)>::empty());
    crate::json::push_member(&mut body, "model", JsonValue::String(String::from_str(model)));
    let msgs = messages_value(messages, false);
    crate::json::push_member(&mut body, "messages", JsonValue::Array(msgs));
    crate::json::push_member(&mut body, "temperature", JsonValue::Number(temperature));
    let ghost members = jview_members(body@);
    assert(members =~~= seq![
        ("model"@, Json::Str(model@)),
        ("messages"@, Json::Arr(messages_json(messages@, false))),
        ("temperature"@, tv),
    ]);
    let q = LlmRequest {
        url: String::from_str("https://api.openai.com/v1/chat/completions"),
        headers,
        body: JsonValue::Object(body),
    };
    proof {
        assert(header_views(q.headers@) =~~= seq![("Authorization"@, "Bearer "@ + key@), (
            "Content-Type"@,
            "application/json"@,
        )]);
        assert(jview(q.body) == Json::Obj(members));
    }
    Ok(q)
}

/// The first system message's content.
fn first_system_exec(ms: &[ChatMessage]) -> (r: Option<String>)
    ensures
        match first_system(ms@) {
            Some(c) => r matches Some(s) && s@ == c,
            None => r is None,
        },
{
    let mut i: usize = 0;
    assert(ms@.skip(0) =~= ms@);
    while i < ms.len()
        invariant
            i <= ms@.len(),
            first_system(ms@) == first_system(ms@.skip(i as int)),
        decreases ms.len() - i,
    {
        assert(ms@.skip(i as int).drop_first() =~= ms@.skip(i + 1));
        assert(ms@.skip(i as int)[0] == ms@[i as int]);
        if crate::text::str_eq(ms[i].role.as_str(), "system") {
            return Some(ms[i].content.clone());
        }
        i += 1;
    }
    assert(ms@.skip(i as int).len() == 0);
    None
}

/// The request to Anthropic's messages API for `model`: the system message
/// goes apart, the others in `messages`; without an API key, the error that
/// names the missing variable.
pub fn anthropic_request(
    model: &str,
    api_key: Option<&str>,
    temperature: JsonNumber,
    messages: &[ChatMessage],
) -> (r: Result<LlmRequest, CheckerError>)
    ensures
        match spec_anthropic_request(model@, opt_text(api_key), temperature, messages@) {
            Ok(v) => r matches Ok(q) && request_view(q) =~~= v,
            Err(m) => r matches Err(CheckerError::AiFixFailed { reason }) && reason@ == m,
        },
{
    let key = match api_key {
        Some(k) => k,
        None => return Err(failed("ANTHROPIC_API_KEY environment variable not set")),
    };
    let mut headers: Vec<(String, String)> = Vec::new();
    headers.push(header("x-api-key", String::from_str(key)));
    headers.push(header("anthropic-version", String::from_str("2023-06-01")));
    headers.push(header("Content-Type", String::from_str("application/json")));
    let ghost tv = number_view(temperature);
    let mut body: Vec<(String, JsonValue)> = Vec::new();
    assert(jview_members(body@) =~= Seq::<(Seq<char>, Json)>::empty());
    crate::json::push_member(&mut body, "model", JsonValue::String(String::from_str(model)));
    crate::json::push_member(&mut body, "max_tokens", JsonValue::Number(JsonNumber::PosInt(8192)));
    let msgs = messages_value(messages, true);
    crate::json::push_member(&mut body, "messages", JsonValue::Array(msgs));
    crate::json::push_member(&mut body, "temperature", JsonValue::Number(temperature));
    let ghost base = jview_members(body@);
    match first_system_exec(messages) {
        Some(sys) => crate::json::push_member(&mut body, "system", JsonValue::String(sys)),
        None => {},
    }
    let q = LlmRequest {
        url: String::from_str("https://api.anthropic.com/v1/messages"),
        headers,
        body: JsonValue::Object(body),
    };
    proof {
        assert(header_views(q.headers@) =~~= seq![
            ("x-api-key"@, key@),
            ("anthropic-version"@, "2023-06-01"@),
            ("Content-Type"@, "application/json"@),
        ]);
        assert(base =~~= seq![
            ("model"@, Json::Str(model@)),
            ("max_tokens"@, Json::Int(8192)),
            ("messages"@, Json::Arr(messages_json(messages@, true))),
            ("temperature"@, tv),
        ]);
        assert(jview(q.body) =~~= Json::Obj(
            base + match first_system(messages@) {
                Some(s) => seq![("system"@, Json::Str(s))],
                None => Seq::empty(),
            },
        ));
    }
    Ok(q)
}

/// The prompt of an Ollama request.
fn ollama_prompt_exec(ms: &[ChatMessage]) -> (r: String)
    ensures
        r@ == ollama_prompt(ms@),
{
    let ghost parts = Seq::new(
        ms@.len(),
        |i: int|
            if ms@[i].role@ == "system"@ {
                "SYSTEM: "@ + ms@[i].content@
            } else {
                ms@[i].content@
            },
    );
    let mut r = String::new();
    let mut i: usize = 0;
    while i < ms.len()
        invariant
            i <= ms@.len(),
            parts.len() == ms@.len(),
            forall|k: int| 0 <= k < ms@.len() ==> #[trigger] parts[k] == (if ms@[k].role@ == "system"@ {
                "SYSTEM: "@ + ms@[k].content@
            } else {
                ms@[k].content@
            }),
            r@ == join(parts.take(i as int), "\n\n"@),
        decreases ms.len() - i,
    {
        let ghost before = r@;
        if i > 0 {
            crate::text::append(&mut r, "\n\n");
        }
        if crate::text::str_eq(ms[i].role.as_str(), "system") {
            crate::text::append(&mut r, "SYSTEM: ");
        }
        crate::text::append(&mut r, ms[i].content.as_str());
        proof {
            let t = parts.take(i + 1);
            assert(t.drop_last() =~= parts.take(i as int));
            assert(t.last() == parts[i as int]);
            if i == 0 {
                assert(before =~= Seq::<char>::empty());
                assert(r@ =~= t[0]);
            } else {
                assert(r@ =~= before + "\n\n"@ + t.last());
            }
        }
        i += 1;
    }
    assert(parts.take(ms@.len() as int) =~= parts);
    r
}

/// The request to an Ollama server's generate endpoint for `model`: all
/// messages in one prompt, no streaming.
pub fn ollama_request(
    model: &str,
    base_url: Option<&str>,
    temperature: JsonNumber,
    messages: &[ChatMessage],
) -> (r: LlmRequest)
    ensures
        request_view(r) =~~= spec_ollama_request(model@, opt_text(base_url), temperature, messages@),
{
    let mut url = match base_url {
        Some(b) => String::from_str(b),
        None => String::from_str("http://localhost:11434"),
    };
    crate::text::append(&mut url, "/api/generate");
    let mut headers: Vec<(String, String)> = Vec::new();
    headers.push(header("Content-Type", String::from_str("application/json")));
    let ghost tv = number_view(temperature);
    let mut opts: Vec<(String, JsonValue)> = Vec::new();
    assert(jview_members(opts@) =~= Seq::<(Seq<char>, Json)>::empty());
    crate::json::push_member(&mut opts, "temperature", JsonValue::Number(temperature));
    let mut body: Vec<(String, JsonValue)> = Vec::new();
    assert(jview_members(body@) =~= Seq::<(Seq<char>, Json)>::empty());
    crate::json::push_member(&mut body, "model", JsonValue::String(String::from_str(model)));
    crate::json::push_member(&mut body, "prompt", JsonValue::String(ollama_prompt_exec(messages)));
    crate::json::push_member(&mut body, "stream", JsonValue::Bool(false));
    let ghost ov = jview_members(opts@);
    assert(ov =~~= seq![("temperature"@, tv)]);
    crate::json::push_member(&mut body, "options", JsonValue::Object(opts));
    let ghost members = jview_members(body@);
    assert(members =~~= seq![
        ("model"@, Json::Str(model@)),
        ("prompt"@, Json::Str(ollama_prompt(messages@))),
        ("stream"@, Json::Bool(false)),
        ("options"@, Json::Obj(seq![("temperature"@, tv)])),
    ]);
    let q = LlmRequest { url, headers, body: JsonValue::Object(body) };
    proof {
        assert(header_views(q.headers@) =~~= seq![("Content-Type"@, "application/json"@)]);
        assert(jview(q.body) == Json::Obj(members));
    }
    q
}

/// The text of an OpenAI response: `choices[0].message.content`.
pub open spec fn spec_openai_content(v: JsonValue) -> Option<Seq<char>> {
    match json_get(v, "choices"@) {
        Some(c) => match json_index(c, 0) {
            Some(c0) => match json_get(c0, "message"@) {
                Some(m) => match json_get(m, "content"@) {
                    Some(t) => json_str(t),
                    None => None,
                },
                None => None,
            },
            None => None,
        },
        None => None,
    }
}

/// The text of an Anthropic response: `content[0].text`.
pub open spec fn spec_anthropic_content(v: JsonValue) -> Option<Seq<char>> {
    match json_get(v, "content"@) {
        Some(c) => match json_index(c, 0) {
            Some(b) => match json_get(b, "text"@) {
                Some(t) => json_str(t),
                None => None,
            },
            None => None,
        },
        None => None,
    }
}

/// The text of an Ollama response: `response`.
pub open spec fn spec_ollama_content(v: JsonValue) -> Option<Seq<char>> {
    match json_get(v, "response"@) {
        Some(t) => json_str(t),
        None => None,
    }
}

/// The text a provider's response holds.
pub open spec fn spec_response_content(p: LlmProvider, v: JsonValue) -> Option<Seq<char>> {
    match p {
        LlmProvider::OpenAi => spec_openai_content(v),
        LlmProvider::Anthropic => spec_anthropic_content(v),
        LlmProvider::Ollama => spec_ollama_content(v),
    }
}

/// The error for a response without its text.
pub open spec fn format_error(p: LlmProvider) -> Seq<char> {
    match p {
        LlmProvider::Ollama => "Unexpected Ollama response format"@,
        _ => "Unexpected API response format"@,
    }
}

/// The response a provider's JSON answer gives: its text (the usage is not
/// read), or the error for an answer of another shape.
pub fn read_response(p: LlmProvider, v: &JsonValue) -> (r: Result<LlmResponse, CheckerError>)
    ensures
        match spec_response_content(p, *v) {
            Some(t) => r matches Ok(resp) && resp.content@ == t && resp.usage is None,
            None => r matches Err(CheckerError::AiFixFailed { reason }) && reason@ == format_error(p),
        },
{
    let text: Option<&str> = match p {
        LlmProvider::OpenAi => match v.get("choices") {
            Some(c) => match c.at(0) {
                Some(c0) => match c0.get("message") {
                    Some(m) => match m.get("content") {
                        Some(t) => t.as_str(),
                        None => None,
                    },
                    None => None,
                },
                None => None,
            },
            None => None,
        },
        LlmProvider::Anthropic => match v.get("content") {
            Some(c) => match c.at(0) {
                Some(b) => match b.get("text") {
                    Some(t) => t.as_str(),
                    None => None,
                },
                None => None,
            },
            None => None,
        },
        LlmProvider::Ollama => match v.get("response") {
            Some(t) => t.as_str(),
            None => None,
        },
    };
    match text {
        Some(t) => Ok(LlmResponse { content: String::from_str(t), usage: None }),
        None => match p {
            LlmProvider::Ollama => Err(failed("Unexpected Ollama response format")),
            _ => Err(failed("Unexpected API response format")),
        },
    }
}

// ---------------------------------------------------------------------------
// Configured calls
// ---------------------------------------------------------------------------

/// Configuration for an LLM call. The temperature is kept as the JSON
/// number it is sent as.
#[derive(Debug, Clone)]
pub struct LlmConfig {
    /// Provider name ("openai", "anthropic", "ollama").
    pub provider: String,
    /// Model name.
    pub model: String,
    /// API key (from the environment or the configuration).
    pub api_key: Option<String>,
    /// Base URL of the API (for Ollama).
    pub base_url: Option<String>,
    /// Temperature for generation.
    pub temperature: JsonNumber,
}

/// The text of an optional string.
pub open spec fn opt_string(o: Option<String>) -> Option<Seq<char>> {
    match o {
        Some(t) => Some(t@),
        None => None,
    }
}

/// The request a configured call makes: the one of its provider, or the
/// error for an unknown provider.
pub open spec fn spec_llm_request(config: LlmConfig, messages: Seq<ChatMessage>) -> Result<
    (Seq<char>, Seq<(Seq<char>, Seq<char>)>, Json),
    Seq<char>,
> {
    match spec_provider(config.provider@) {
        Err(m) => Err(m),
        Ok(LlmProvider::OpenAi) => spec_openai_request(
            config.model@,
            opt_string(config.api_key),
            config.temperature,
            messages,
        ),
        Ok(LlmProvider::Anthropic) => spec_anthropic_request(
            config.model@,
            opt_string(config.api_key),
            config.temperature,
            messages,
        ),
        Ok(LlmProvider::Ollama) => Ok(
            spec_ollama_request(config.model@, opt_string(config.base_url), config.temperature, messages),
        ),
    }
}

/// A copy of a JSON number.
fn copy_number(n: &JsonNumber) -> (r: JsonNumber)
    ensures
        r == *n,
{
    match n {
        JsonNumber::PosInt(x) => JsonNumber::PosInt(*x),
        JsonNumber::NegInt(x) => JsonNumber::NegInt(*x),
        JsonNumber::Float(t) => JsonNumber::Float(t.clone()),
    }
}

/// The request of a configured call, by provider; an unknown provider is
/// an error.
pub fn llm_request(config: &LlmConfig, messages: &[ChatMessage]) -> (r: Result<LlmRequest, CheckerError>)
    ensures
        match spec_llm_request(*config, messages@) {
            Ok(v) => r matches Ok(q) && request_view(q) =~~= v,
            Err(m) => r matches Err(CheckerError::AiFixFailed { reason }) && reason@ == m,
        },
{
    let key = match &config.api_key {
        Some(k) => Some(k.as_str()),
        None => None,
    };
    let base = match &config.base_url {
        Some(b) => Some(b.as_str()),
        None => None,
    };
    assert(opt_text(key) == opt_string(config.api_key));
    assert(opt_text(base) == opt_string(config.base_url));
    match provider_for(config.provider.as_str()) {
        Err(e) => Err(e),
        Ok(LlmProvider::OpenAi) => openai_request(config.model.as_str(), key, copy_number(&config.temperature), messages),
        Ok(LlmProvider::Anthropic) => anthropic_request(
            config.model.as_str(),
            key,
            copy_number(&config.temperature),
            messages,
        ),
        Ok(LlmProvider::Ollama) => Ok(
            ollama_request(config.model.as_str(), base, copy_number(&config.temperature), messages),
        ),
    }
}

} // verus!
