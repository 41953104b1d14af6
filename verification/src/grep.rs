//! Safe ripgrep execution for code search: requests are checked, the
//! command line is built from whitelisted flags, and ripgrep's JSON lines
//! are read into matches.
use vstd::prelude::*;

use crate::json::{
    json_get, json_get_opt, json_index, json_parsed, json_str_opt, json_u64_opt, json_wf, jview, parse_json,
    JsonValue,
};
use crate::text::{append, contains, str_contains, str_trim, trim};

verus! {

/// Search request — whitelisted fields, no arbitrary flags.
#[derive(Debug, Clone)]
pub struct SearchRequest {
    pub query: String,
    pub is_regex: Option<bool>,
    /// Filter results to source files matching this glob (e.g. "*.rs").
    pub file_glob: Option<String>,
    pub max_results: Option<usize>,
}

/// One match from ripgrep — line-in-file, column, snippet.
#[derive(Debug, Clone)]
pub struct RawMatch {
    pub line: u64,
    pub column: Option<u64>,
    pub snippet: String,
}

/// Search result with source file path (mapped from pack section).
#[derive(Debug, Clone)]
pub struct SearchResult {
    pub file: String,
    pub line: u64,
    pub column: Option<u64>,
    pub snippet: String,
}

/// Why a request is refused, if it is: a blank query, a query over 500
/// bytes, or a glob with `..`.
pub open spec fn request_problem(req: SearchRequest) -> Option<Seq<char>> {
    if trim(req.query@).len() == 0 {
        Some("Query cannot be empty"@)
    } else if (vstd::utf8::encode_utf8(req.query@).len() as usize) > 500 {
        Some("Query too long (max 500 chars)"@)
    } else if req.file_glob matches Some(g) && contains(g@, ".."@) {
        Some("Invalid glob: '..' not allowed"@)
    } else {
        None
    }
}

/// Validate search request — reject empty, too long, or dangerous inputs.
pub fn validate_request(req: &SearchRequest) -> (r: Result<(), String>)
    ensures
        r is Ok <==> request_problem(*req) is None,
        r matches Err(m) ==> request_problem(*req) == Some(m@),
{
    let t = str_trim(req.query.as_str());
    if t.as_str().is_empty() {
        return Err(String::from_str("Query cannot be empty"));
    }
    if req.query.as_str().len() > 500 {
        return Err(String::from_str("Query too long (max 500 chars)"));
    }
    match &req.file_glob {
        Some(g) => if str_contains(g.as_str(), "..") {
            return Err(String::from_str("Invalid glob: '..' not allowed"));
        },
        None => {},
    }
    Ok(())
}

/// The largest number of matches returned when the request sets none.
pub open spec fn spec_max_results(req: SearchRequest) -> usize {
    match req.max_results {
        Some(n) => n,
        None => 20,
    }
}

/// The arguments ripgrep is run with.
pub open spec fn spec_rg_args(req: SearchRequest, path: Seq<char>) -> Seq<Seq<char>> {
    seq!["--json"@, "--no-config"@, "--max-filesize"@, "2M"@, "--max-columns"@, "500"@, "--no-follow"@]
        + (if req.is_regex == Some(true) {
        seq!["-e"@, req.query@]
    } else {
        seq!["--fixed-strings"@, req.query@]
    }) + seq![path]
}

/// The arguments ripgrep is run with: JSON output, no config, size and
/// column limits, no symlinks, and the query as a regex or a fixed string.
pub fn rg_args(req: &SearchRequest, path: &str) -> (r: Vec<String>)
    ensures
        crate::text::strs(r@) == spec_rg_args(*req, path@),
{
    let mut v: Vec<String> = Vec::new();
    v.push(String::from_str("--json"));
    v.push(String::from_str("--no-config"));
    v.push(String::from_str("--max-filesize"));
    v.push(String::from_str("2M"));
    v.push(String::from_str("--max-columns"));
    v.push(String::from_str("500"));
    v.push(String::from_str("--no-follow"));
    if req.is_regex == Some(true) {
        v.push(String::from_str("-e"));
    } else {
        v.push(String::from_str("--fixed-strings"));
    }
    v.push(req.query.clone());
    v.push(String::from_str(path));
    assert(crate::text::strs(v@) =~= spec_rg_args(*req, path@));
    v
}

/// The largest number of matches to return.
pub fn max_results(req: &SearchRequest) -> (r: usize)
    ensures
        r == spec_max_results(*req),
{
    match req.max_results {
        Some(n) => n,
        None => 20,
    }
}

/// The match a ripgrep JSON event stands for: only `match` events give one.
pub open spec fn spec_rg_match(v: JsonValue) -> Option<(u64, Option<u64>, Seq<char>)> {
    if json_str_opt(json_get(v, "type"@)) != Some("match"@) {
        None
    } else {
        let data = json_get(v, "data"@);
        let line = match json_u64_opt(json_get_opt(data, "line_number"@)) {
            Some(n) => n,
            None => 0,
        };
        let snippet = match json_str_opt(json_get_opt(json_get_opt(data, "lines"@), "text"@)) {
            Some(t) => trim(t),
            None => seq![],
        };
        let column = match json_get_opt(data, "submatches"@) {
            Some(sm) => match json_index(sm, 0) {
                Some(m) => json_u64_opt(json_get(m, "start"@)),
                None => None,
            },
            None => None,
        };
        Some((line, column, snippet))
    }
}

/// Parse one line of ripgrep JSON output. `parsed` is the line read as
/// JSON, or the reason it could not be; non-match events give `None`.
pub fn rg_match_of(parsed: Result<JsonValue, String>) -> (r: Result<Option<RawMatch>, String>)
    ensures
        match parsed {
            Err(e) => r matches Err(m) && m@ == e@,
            Ok(v) => match spec_rg_match(v) {
                None => r matches Ok(None),
                Some((l, c, s)) => r matches Ok(Some(m)) && m.line == l && m.column == c && m.snippet@
                    == s,
            },
        },
{
    let v = match parsed {
        Ok(v) => v,
        Err(e) => return Err(e),
    };
    let is_match = match v.get("type") {
        Some(t) => match t.as_str() {
            Some(s) => crate::text::str_eq(s, "match"),
            None => false,
        },
        None => false,
    };
    if !is_match {
        return Ok(None);
    }
    let (line, snippet, column) = match v.get("data") {
        Some(data) => {
            let line = match data.get("line_number") {
                Some(n) => match n.as_u64() {
                    Some(n) => n,
                    None => 0,
                },
                None => 0,
            };
            let snippet = match data.get("lines") {
                Some(ls) => match ls.get("text") {
                    Some(t) => match t.as_str() {
                        Some(t) => str_trim(t),
                        None => String::new(),
                    },
                    None => String::new(),
                },
                None => String::new(),
            };
            let column = match data.get("submatches") {
                Some(sm) => match sm.at(0) {
                    Some(m) => match m.get("start") {
                        Some(x) => x.as_u64(),
                        None => None,
                    },
                    None => None,
                },
                None => None,
            };
            (line, snippet, column)
        },
        None => (0, String::new(), None),
    };
    Ok(Some(RawMatch { line, column, snippet }))
}

/// A match as plain values: line, column, snippet.
pub open spec fn match_view(m: RawMatch) -> (u64, Option<u64>, Seq<char>) {
    (m.line, m.column, m.snippet@)
}

/// What reading ripgrep's output lines gives, from `acc` on: the first
/// line that is not JSON ends it with that error; matches are gathered in
/// order, and the reading stops once `max` of them are gathered (one is
/// taken even when `max` is 0).
pub open spec fn gather_matches(
    lines: Seq<Result<JsonValue, String>>,
    max: usize,
    acc: Seq<(u64, Option<u64>, Seq<char>)>,
) -> Result<Seq<(u64, Option<u64>, Seq<char>)>, Seq<char>>
    decreases lines.len(),
{
    if lines.len() == 0 {
        Ok(acc)
    } else {
        match lines[0] {
            Err(e) => Err(e@),
            Ok(v) => match spec_rg_match(v) {
                None => gather_matches(lines.drop_first(), max, acc),
                Some(m) => if acc.len() + 1 >= max {
                    Ok(acc.push(m))
                } else {
                    gather_matches(lines.drop_first(), max, acc.push(m))
                },
            },
        }
    }
}

/// The matches of ripgrep's output, each line read as JSON (or the reason
/// it could not be), at most `max` of them (at least one when there is
/// one).
pub fn collect_matches(lines: Vec<Result<JsonValue, String>>, max: usize) -> (r: Result<Vec<RawMatch>, String>)
    ensures
        match gather_matches(lines@, max, Seq::empty()) {
            Ok(ms) => r matches Ok(v) && v@.map_values(|m: RawMatch| match_view(m)) == ms,
            Err(e) => r matches Err(x) && x@ == e,
        },
{
    let ghost all = lines@;
    let mut out: Vec<RawMatch> = Vec::new();
    let mut rest = lines;
    proof {
        assert(all.skip(0) =~= all);
        assert(out@.map_values(|m: RawMatch| match_view(m)) =~= Seq::<(u64, Option<u64>, Seq<char>)>::empty());
    }
    let ghost mut k: int = 0;
    while rest.len() > 0
        invariant
            0 <= k <= all.len(),
            all == lines@,
            rest@ == all.skip(k),
            gather_matches(all, max, Seq::empty()) == gather_matches(
                all.skip(k),
                max,
                out@.map_values(|m: RawMatch| match_view(m)),
            ),
            out@.len() < max || out@.len() == 0,
        decreases rest.len(),
    {
        let ghost cur = all.skip(k);
        let ghost acc = out@.map_values(|m: RawMatch| match_view(m));
        assert(cur.len() > 0) by {
            assert(rest@.len() == cur.len());
        }
        let line = rest.remove(0);
        assert(cur.drop_first() =~= all.skip(k + 1));
        assert(rest@ =~= all.skip(k + 1));
        proof {
            k = k + 1;
        }
        match rg_match_of(line) {
            Err(e) => {
                return Err(e);
            },
            Ok(None) => {},
            Ok(Some(m)) => {
                let ghost mv = match_view(m);
                out.push(m);
                assert(out@.map_values(|m: RawMatch| match_view(m)) =~= acc.push(mv));
                if out.len() >= max {
                    return Ok(out);
                }
            },
        }
    }
    assert(all.skip(k).len() == 0);
    Ok(out)
}

/// Parse one line of ripgrep's JSON output: the match it reports, `None`
/// for another event, or the reason the line is not JSON.
pub fn parse_rg_json_line(line: &str) -> (r: Result<Option<RawMatch>, String>)
    ensures
        match json_parsed(line@) {
            Err(e) => r matches Err(m) && m@ == e,
            Ok(j) => exists|v: JsonValue| #[trigger] jview(v) == j && json_wf(v) && match spec_rg_match(v) {
                None => r matches Ok(None),
                Some((l, c, s)) => r matches Ok(Some(m)) && m.line == l && m.column == c && m.snippet@ == s,
            },
        },
{
    let parsed = parse_json(line);
    let ghost v = parsed->Ok_0;
    let r = rg_match_of(parsed);
    assert(json_parsed(line@) is Ok ==> jview(v) == json_parsed(line@)->Ok_0);
    r
}

} // verus!
