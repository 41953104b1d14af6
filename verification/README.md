# appz

Tooling for WordPress projects and code quality, written in Verus: the
decisions are verified functions with contracts, and a thin command line
around them does the fetching, the files and the processes.

## Layout

- `src/` — the verified library.
  - Blueprints: `blueprint` (helpers, errors), `executor` (the actions each
    step asks of a WordPress runtime), `converter` (Playground to generic
    blueprints), `generator` (blueprints from a running site), `runtime`
    (DDEV and Playground commands and blueprints).
  - Checker: `config`, `detect`, `providers` (tool output parsing, git file
    lists), `runner`, `output`, `fixer`, `init`, `cache`, `grep`.
  - AI repair: `safety`, `context`, `collect`, `agents`, `llm`, `patch`
    (unified diffs: parsing, applying, previews), `repair` (the repair loop
    as a state machine).
  - Crawling: `crawl`, `search` (DuckDuckGo and SearXNG searches as state
    machines), `postprocess` (markdown citations), `pdf`.
  - Shared: `text`, `json`, `error`, `tools`.
- `tests/` — tests of the library on concrete values.
- `app/` — the `appz` command line: it runs the actions and fetches that the
  library asks for and prints what it gives back.

Calls into outside crates (`serde_json`, `glob`, `rustc-hash`, `regex`, `url`,
`urlencoding`, `scraper`) go through small trusted wrappers
whose contracts say what the library relies on.
