//! The WordPress runtime abstraction, and the commands and blueprints the
//! DDEV and WordPress Playground runtimes run.
//!
//! Running the commands is the program's part; what they are is decided
//! here.
use vstd::prelude::*;

use crate::blueprint::{php_escape_string, shell_escape, spec_php_escape_string, spec_shell_escape};
use crate::json::{
    json_get, json_parsed, json_str_opt, json_wf, jview, jview_items, jview_members, parse_json, push_item,
    push_member, Json, JsonValue,
};
use crate::text::{
    append, join, lines, lines_vec, slice_of, starts_with, starts_with_exec, str_starts_with,
    str_trim, string_from, strs, to_chars, trim, trim_char, trim_end_char_exec,
    trim_start_char_exec, trim_vec, views,
};

verus! {

/// A WordPress local development runtime (DDEV, WordPress Playground).
/// Paths are the project's directory as text.
pub trait WordPressRuntime {
    /// Human-readable runtime name (e.g. "DDEV", "WordPress Playground").
    fn name(&self) -> String;

    /// Slug identifier (e.g. "ddev", "playground").
    fn slug(&self) -> String;

    /// Whether the runtime's prerequisites are installed.
    fn is_available(&self) -> bool;

    /// Whether the runtime is configured for the project.
    fn is_configured(&self, project_path: &str) -> bool;

    /// Configure the runtime for a new project.
    fn configure(&self, project_path: &str, project_type: &str, docroot: Option<&str>) -> Result<
        (),
        String,
    >;

    /// Start the runtime.
    fn start(&self, project_path: &str) -> Result<(), String>;

    /// Stop the runtime.
    fn stop(&self, project_path: &str) -> Result<(), String>;

    /// Open the site in the default browser.
    fn open_browser(&self, project_path: &str) -> Result<(), String>;

    /// Stream logs (blocking).
    fn stream_logs(&self, project_path: &str) -> Result<(), String>;

    /// Whether the runtime can reach the internet.
    fn check_connectivity(&self, project_path: &str) -> bool;

    /// Whether WordPress core is installed.
    fn wp_is_installed(&self, project_path: &str) -> bool;

    /// Run `wp core install`.
    fn wp_install(&self, project_path: &str, url: &str, admin_user: &str, admin_pass: &str) -> Result<
        (),
        String,
    >;

    /// The site URL of the project.
    fn site_url(&self, project_path: &str) -> String;

    /// Run a WP-CLI command.
    fn wp_cli(&self, project_path: &str, args: &Vec<String>) -> Result<(), String>;

    /// Run a WP-CLI command and capture its output.
    fn wp_cli_output(&self, project_path: &str, args: &Vec<String>) -> Option<String>;

    /// Execute a shell command inside the runtime.
    fn exec_shell(&self, project_path: &str, cmd: &str) -> Result<(), String>;

    /// Execute a command with arguments inside the runtime.
    fn exec_args(&self, project_path: &str, args: &Vec<String>) -> Result<(), String>;

    /// Pipe SQL to the WordPress database.
    fn exec_sql(&self, project_path: &str, sql: &str) -> Result<(), String>;

    /// Set the PHP version for the project.
    fn set_php_version(&self, project_path: &str, version: &str) -> Result<(), String>;

    /// The PHP version configured for the project.
    fn php_version(&self, project_path: &str) -> Option<String>;

    /// Download a URL to a path inside the runtime, with curl: the runtime's
    /// shell is handed `download_url_command(url, dest_path)`, and its answer
    /// is returned as it comes.
    fn download_url(&self, project_path: &str, url: &str, dest_path: &str) -> Result<(), String> {
        let cmd = download_url_command(url, dest_path);
        self.exec_shell(project_path, cmd.as_str())
    }

    /// Download a ZIP from a URL and extract it, with curl and unzip: the
    /// runtime's shell is handed `download_and_unzip_command(url,
    /// extract_to)`, and its answer is returned as it comes.
    fn download_and_unzip(&self, project_path: &str, url: &str, extract_to: &str) -> Result<
        (),
        String,
    > {
        let cmd = download_and_unzip_command(url, extract_to);
        self.exec_shell(project_path, cmd.as_str())
    }

    /// Evaluate PHP code with `wp eval`: the runtime's WP-CLI is handed
    /// `wp_eval_args(code)`, and its answer is returned as it comes.
    fn wp_eval(&self, project_path: &str, code: &str) -> Result<(), String> {
        let args = wp_eval_args(code);
        self.wp_cli(project_path, &args)
    }

    /// Make an HTTP request from inside the runtime, with curl.
    fn http_request(&self, project_path: &str, method: &str, url: &str) -> Result<(), String> {
        let cmd = http_request_command(method, url);
        self.exec_shell(project_path, cmd.as_str())
    }
}

// ---------------------------------------------------------------------------
// Shell commands of the default operations
// ---------------------------------------------------------------------------

/// The WP-CLI arguments that evaluate PHP code: `eval` and the code.
pub fn wp_eval_args(code: &str) -> (r: Vec<String>)
    ensures
        crate::text::strs(r@) == seq!["eval"@, code@],
{
    let mut args: Vec<String> = Vec::new();
    args.push(String::from_str("eval"));
    args.push(String::from_str(code));
    assert(crate::text::strs(args@) =~= seq!["eval"@, code@]);
    args
}

/// `curl -sL '<url>' -o '<dest>'`, both single-quote escaped.
pub open spec fn spec_download_url_command(url: Seq<char>, dest: Seq<char>) -> Seq<char> {
    "curl -sL '"@ + spec_shell_escape(url) + "' -o '"@ + spec_shell_escape(dest) + "'"@
}

/// The shell command that downloads a URL to a path.
pub fn download_url_command(url: &str, dest: &str) -> (r: String)
    ensures
        r@ == spec_download_url_command(url@, dest@),
{
    let mut s = String::from_str("curl -sL '");
    append(&mut s, shell_escape(url).as_str());
    append(&mut s, "' -o '");
    append(&mut s, shell_escape(dest).as_str());
    append(&mut s, "'");
    s
}

/// Download to a temporary ZIP, extract it to the destination, remove it.
pub open spec fn spec_download_and_unzip_command(url: Seq<char>, dest: Seq<char>) -> Seq<char> {
    "curl -sL '"@ + spec_shell_escape(url)
        + "' -o /tmp/_bp_download.zip && unzip -o /tmp/_bp_download.zip -d '"@ + spec_shell_escape(
        dest,
    ) + "' && rm /tmp/_bp_download.zip"@
}

/// The shell command that downloads a ZIP and extracts it.
pub fn download_and_unzip_command(url: &str, dest: &str) -> (r: String)
    ensures
        r@ == spec_download_and_unzip_command(url@, dest@),
{
    let mut s = String::from_str("curl -sL '");
    append(&mut s, shell_escape(url).as_str());
    append(&mut s, "' -o /tmp/_bp_download.zip && unzip -o /tmp/_bp_download.zip -d '");
    append(&mut s, shell_escape(dest).as_str());
    append(&mut s, "' && rm /tmp/_bp_download.zip");
    s
}

/// `curl -sS -X <method> '<url>'`, both escaped.
pub open spec fn spec_http_request_command(method: Seq<char>, url: Seq<char>) -> Seq<char> {
    "curl -sS -X "@ + spec_shell_escape(method) + " '"@ + spec_shell_escape(url) + "'"@
}

/// The shell command that makes an HTTP request.
pub fn http_request_command(method: &str, url: &str) -> (r: String)
    ensures
        r@ == spec_http_request_command(method@, url@),
{
    let mut s = String::from_str("curl -sS -X ");
    append(&mut s, shell_escape(method).as_str());
    append(&mut s, " '");
    append(&mut s, shell_escape(url).as_str());
    append(&mut s, "'");
    s
}

// ---------------------------------------------------------------------------
// Helpers
// ---------------------------------------------------------------------------

fn lit(x: &str) -> (r: String)
    ensures
        r@ == x@,
{
    String::from_str(x)
}

/// Appends a text.
fn push_text(v: &mut Vec<String>, x: String)
    ensures
        strs(final(v)@) == strs(old(v)@).push(x@),
{
    v.push(x);
    assert(strs(v@) =~= strs(old(v)@).push(x@));
}

/// A copy of a list of texts.
fn copy_texts(v: &Vec<String>) -> (r: Vec<String>)
    ensures
        strs(r@) == strs(v@),
{
    let mut r: Vec<String> = Vec::new();
    let mut i: usize = 0;
    while i < v.len()
        invariant
            i <= v@.len(),
            strs(r@) == strs(v@).take(i as int),
        decreases v.len() - i,
    {
        push_text(&mut r, v[i].clone());
        assert(strs(r@) =~= strs(v@).take(i + 1));
        i += 1;
    }
    assert(strs(v@).take(v@.len() as int) =~= strs(v@));
    r
}

/// Texts joined by a separator.
fn join_texts(v: &Vec<String>, sep: &str) -> (r: String)
    ensures
        r@ == join(strs(v@), sep@),
{
    crate::runner::join_with(v, sep)
}

/// What a command printed, trimmed, if anything is left.
pub open spec fn spec_output_text(stdout: Seq<char>) -> Option<Seq<char>> {
    if trim(stdout).len() == 0 {
        None
    } else {
        Some(trim(stdout))
    }
}

/// The output of a successful WP-CLI command: trimmed, `None` when empty.
pub fn output_text(stdout: &str) -> (r: Option<String>)
    ensures
        match spec_output_text(stdout@) {
            Some(t) => r matches Some(s) && s@ == t,
            None => r is None,
        },
{
    let t = str_trim(stdout);
    if t.unicode_len() == 0 {
        None
    } else {
        Some(t)
    }
}

// ---------------------------------------------------------------------------
// DDEV
// ---------------------------------------------------------------------------

/// `ddev config` arguments for a new project: its type, its docroot if
/// given, and PHP 8.2 for a plain PHP project.
pub open spec fn spec_ddev_configure_args(project_type: Seq<char>, docroot: Option<Seq<char>>) -> Seq<
    Seq<char>,
> {
    seq!["config"@, "--project-type="@ + project_type] + (match docroot {
        Some(d) => seq!["--docroot="@ + d],
        None => Seq::empty(),
    }) + if project_type == "php"@ {
        seq!["--php-version=8.2"@]
    } else {
        Seq::empty()
    }
}

/// The `ddev` arguments that configure a project.
pub fn ddev_configure_args(project_type: &str, docroot: Option<&str>) -> (r: Vec<String>)
    ensures
        strs(r@) == spec_ddev_configure_args(
            project_type@,
            match docroot {
                Some(d) => Some(d@),
                None => None,
            },
        ),
{
    let mut args: Vec<String> = Vec::new();
    push_text(&mut args, lit("config"));
    let mut t = lit("--project-type=");
    append(&mut t, project_type);
    push_text(&mut args, t);
    match docroot {
        Some(d) => {
            let mut x = lit("--docroot=");
            append(&mut x, d);
            push_text(&mut args, x);
        },
        None => {},
    }
    if crate::text::str_eq(project_type, "php") {
        push_text(&mut args, lit("--php-version=8.2"));
    }
    assert(strs(args@) =~= spec_ddev_configure_args(
        project_type@,
        match docroot {
            Some(d) => Some(d@),
            None => None,
        },
    ));
    args
}

/// `ddev exec wp` with the WP-CLI arguments.
pub open spec fn spec_ddev_wp_args(args: Seq<Seq<char>>) -> Seq<Seq<char>> {
    seq!["exec"@, "wp"@] + args
}

/// The `ddev` arguments that run WP-CLI.
pub fn ddev_wp_args(args: &Vec<String>) -> (r: Vec<String>)
    ensures
        strs(r@) == spec_ddev_wp_args(strs(args@)),
{
    let mut r: Vec<String> = Vec::new();
    push_text(&mut r, lit("exec"));
    push_text(&mut r, lit("wp"));
    let ghost head = strs(r@);
    let mut i: usize = 0;
    while i < args.len()
        invariant
            i <= args@.len(),
            strs(r@) == head + strs(args@).take(i as int),
        decreases args.len() - i,
    {
        push_text(&mut r, args[i].clone());
        assert(strs(r@) =~= head + strs(args@).take(i + 1));
        i += 1;
    }
    assert(strs(args@).take(args@.len() as int) =~= strs(args@));
    r
}

/// The WP-CLI arguments of `wp core install`.
pub open spec fn spec_wp_install_args(url: Seq<char>, user: Seq<char>, pass: Seq<char>) -> Seq<
    Seq<char>,
> {
    seq![
        "core"@,
        "install"@,
        "--url="@ + url,
        "--title=WordPress"@,
        "--admin_user="@ + user,
        "--admin_password="@ + pass,
        "--admin_email=admin@example.com"@,
        "--skip-email"@,
    ]
}

/// The WP-CLI arguments that install WordPress with an admin account.
pub fn wp_install_args(url: &str, user: &str, pass: &str) -> (r: Vec<String>)
    ensures
        strs(r@) == spec_wp_install_args(url@, user@, pass@),
{
    let mut r: Vec<String> = Vec::new();
    push_text(&mut r, lit("core"));
    push_text(&mut r, lit("install"));
    let mut u = lit("--url=");
    append(&mut u, url);
    push_text(&mut r, u);
    push_text(&mut r, lit("--title=WordPress"));
    let mut a = lit("--admin_user=");
    append(&mut a, user);
    push_text(&mut r, a);
    let mut p = lit("--admin_password=");
    append(&mut p, pass);
    push_text(&mut r, p);
    push_text(&mut r, lit("--admin_email=admin@example.com"));
    push_text(&mut r, lit("--skip-email"));
    assert(strs(r@) =~= spec_wp_install_args(url@, user@, pass@));
    r
}

/// The DDEV site URL of a project named by its directory (`wordpress`
/// when the path has no last name).
pub open spec fn spec_ddev_site_url(name: Option<Seq<char>>) -> Seq<char> {
    "https://"@ + match name {
        Some(n) => n,
        None => "wordpress"@,
    } + ".ddev.site"@
}

/// The DDEV site URL of a project, from the last name of its path.
pub fn ddev_site_url(dir_name: Option<&str>) -> (r: String)
    ensures
        r@ == spec_ddev_site_url(
            match dir_name {
                Some(n) => Some(n@),
                None => None,
            },
        ),
{
    let mut s = lit("https://");
    match dir_name {
        Some(n) => append(&mut s, n),
        None => append(&mut s, "wordpress"),
    }
    append(&mut s, ".ddev.site");
    s
}

/// How a failed `ddev` command is named: `ddev` and its arguments.
pub open spec fn spec_ddev_command_text(args: Seq<Seq<char>>) -> Seq<char> {
    "ddev "@ + join(args, " "@)
}

/// The text naming a `ddev` command in errors.
pub fn ddev_command_text(args: &Vec<String>) -> (r: String)
    ensures
        r@ == spec_ddev_command_text(strs(args@)),
{
    let mut s = lit("ddev ");
    append(&mut s, join_texts(args, " ").as_str());
    s
}

/// Whether `ddev describe -j` says the project runs: `raw.status` is
/// `running`.
pub open spec fn spec_ddev_running(describe: Option<JsonValue>) -> bool {
    match describe {
        Some(v) => match json_get(v, "raw"@) {
            Some(r) => json_str_opt(json_get(r, "status"@)) == Some("running"@),
            None => false,
        },
        None => false,
    }
}

/// Whether a DDEV project runs, from what `ddev describe -j` printed
/// (not running when that is not JSON).
pub fn ddev_describe_running(output: &str) -> (r: bool)
    ensures
        match json_parsed(output@) {
            Ok(j) => exists|v: JsonValue| #[trigger] jview(v) == j && json_wf(v) && r == spec_ddev_running(Some(v)),
            Err(_) => !r,
        },
{
    match parse_json(output) {
        Ok(v) => {
            let r = ddev_is_running(Some(&v));
            assert(jview(v) == json_parsed(output@)->Ok_0);
            r
        },
        Err(_) => {
            let r = ddev_is_running(None);
            r
        },
    }
}

/// Whether a DDEV project runs, from what `ddev describe -j` printed read
/// as JSON (`None` when the command failed or did not print JSON).
pub fn ddev_is_running(describe: Option<&JsonValue>) -> (r: bool)
    ensures
        r == spec_ddev_running(
            match describe {
                Some(v) => Some(*v),
                None => None,
            },
        ),
{
    match describe {
        Some(v) => match v.get("raw") {
            Some(raw) => match raw.get("status") {
                Some(s) => match s.as_str() {
                    Some(t) => crate::text::str_eq(t, "running"),
                    None => false,
                },
                None => false,
            },
            None => false,
        },
        None => false,
    }
}

/// The PHP version a line of `.ddev/config.yaml` sets: the text after
/// `php_version:`, trimmed of blanks and quotes, if not empty.
pub open spec fn php_in_line(line: Seq<char>) -> Option<Seq<char>> {
    let t = trim(line);
    if starts_with(t, "php_version:"@) {
        let v = trim_char(trim_char(trim(t.skip(12)), '"'), '\'');
        if v.len() > 0 {
            Some(v)
        } else {
            None
        }
    } else {
        None
    }
}

/// The PHP version of the first line that sets one.
pub open spec fn php_in_lines(ls: Seq<Seq<char>>) -> Option<Seq<char>>
    decreases ls.len(),
{
    if ls.len() == 0 {
        None
    } else {
        match php_in_line(ls[0]) {
            Some(v) => Some(v),
            None => php_in_lines(ls.drop_first()),
        }
    }
}

/// The PHP version a DDEV configuration (`.ddev/config.yaml`) sets.
pub fn ddev_php_version(config: &str) -> (r: Option<String>)
    ensures
        match php_in_lines(lines(config@)) {
            Some(v) => r matches Some(s) && s@ == v,
            None => r is None,
        },
{
    let chars = to_chars(config);
    let ls = lines_vec(&chars);
    let prefix = to_chars("php_version:");
    proof {
        reveal_strlit("php_version:");
    }
    assert(prefix@.len() == 12);
    let mut i: usize = 0;
    assert(views(ls@).skip(0) =~= views(ls@));
    while i < ls.len()
        invariant
            i <= ls@.len(),
            prefix@ == "php_version:"@,
            prefix@.len() == 12,
            views(ls@) == lines(config@),
            php_in_lines(views(ls@)) == php_in_lines(views(ls@).skip(i as int)),
        decreases ls.len() - i,
    {
        assert(views(ls@).skip(i as int).drop_first() =~= views(ls@).skip(i + 1));
        assert(views(ls@).skip(i as int)[0] == ls@[i as int]@);
        let t = trim_vec(ls[i].as_slice());
        if starts_with_exec(t.as_slice(), prefix.as_slice()) {
            let rest = slice_of(t.as_slice(), 12, t.len());
            assert(rest@ =~= t@.skip(12));
            let a = trim_vec(rest.as_slice());
            let b = trim_end_char_exec(trim_start_char_exec(a.as_slice(), '"').as_slice(), '"');
            let c = trim_end_char_exec(trim_start_char_exec(b.as_slice(), '\'').as_slice(), '\'');
            assert(c@ == trim_char(trim_char(trim(t@.skip(12)), '"'), '\''));
            if c.len() > 0 {
                assert(php_in_line(ls@[i as int]@) == Some(c@));
                return Some(string_from(c.as_slice()));
            }
            assert(php_in_line(ls@[i as int]@) is None);
        } else {
            assert(php_in_line(ls@[i as int]@) is None);
        }
        i += 1;
    }
    assert(views(ls@).skip(i as int).len() == 0);
    None
}

// ---------------------------------------------------------------------------
// WordPress Playground
// ---------------------------------------------------------------------------

/// A blueprint of one step.
pub open spec fn one_step(step: Seq<(Seq<char>, Json)>) -> Json {
    Json::Obj(seq![("steps"@, Json::Arr(seq![Json::Obj(step)]))])
}

/// The blueprint of one step with these members.
fn one_step_value(step: Vec<(String, JsonValue)>) -> (r: JsonValue)
    ensures
        jview(r) =~~= one_step(jview_members(step@)),
{
    let ghost sv = jview_members(step@);
    let mut items: Vec<JsonValue> = Vec::new();
    assert(jview_items(items@) =~= Seq::<Json>::empty());
    push_item(&mut items, JsonValue::Object(step));
    let mut top: Vec<(String, JsonValue)> = Vec::new();
    assert(jview_members(top@) =~= Seq::<(Seq<char>, Json)>::empty());
    let ghost iv = jview_items(items@);
    assert(iv =~~= seq![Json::Obj(sv)]);
    push_member(&mut top, "steps", JsonValue::Array(items));
    let r = JsonValue::Object(top);
    assert(jview(r) =~~= Json::Obj(seq![("steps"@, Json::Arr(iv))]));
    r
}

/// A JSON string.
fn jtext(s: &str) -> (r: JsonValue)
    ensures
        jview(r) == Json::Str(s@),
{
    JsonValue::String(String::from_str(s))
}

/// The views of texts as JSON strings.
pub open spec fn texts_json(v: Seq<Seq<char>>) -> Seq<Json> {
    Seq::new(v.len(), |i: int| Json::Str(v[i]))
}

/// Running WP-CLI in Playground: a `wp-cli` step with the arguments as an
/// array.
pub open spec fn spec_playground_wp_cli(args: Seq<Seq<char>>) -> Json {
    one_step(seq![("step"@, Json::Str("wp-cli"@)), ("command"@, Json::Arr(texts_json(args)))])
}

/// The blueprint that runs WP-CLI with these arguments.
pub fn playground_wp_cli_blueprint(args: &Vec<String>) -> (r: JsonValue)
    ensures
        jview(r) =~~= spec_playground_wp_cli(strs(args@)),
{
    let mut items: Vec<JsonValue> = Vec::new();
    let mut i: usize = 0;
    while i < args.len()
        invariant
            i <= args@.len(),
            jview_items(items@) =~~= texts_json(strs(args@).take(i as int)),
        decreases args.len() - i,
    {
        push_item(&mut items, JsonValue::String(args[i].clone()));
        assert(jview_items(items@) =~~= texts_json(strs(args@).take(i + 1)));
        i += 1;
    }
    assert(strs(args@).take(args@.len() as int) =~= strs(args@));
    let ghost iv = jview_items(items@);
    let mut step: Vec<(String, JsonValue)> = Vec::new();
    assert(jview_members(step@) =~= Seq::<(Seq<char>, Json)>::empty());
    push_member(&mut step, "step", jtext("wp-cli"));
    push_member(&mut step, "command", JsonValue::Array(items));
    let ghost sv = jview_members(step@);
    assert(sv =~~= seq![("step"@, Json::Str("wp-cli"@)), ("command"@, Json::Arr(iv))]);
    one_step_value(step)
}

/// Capturing WP-CLI output in Playground: a `wp-cli` step with the
/// arguments joined by spaces.
pub open spec fn spec_playground_wp_cli_output(args: Seq<Seq<char>>) -> Json {
    one_step(seq![("step"@, Json::Str("wp-cli"@)), ("command"@, Json::Str(join(args, " "@)))])
}

/// The blueprint that runs WP-CLI to capture its output.
pub fn playground_wp_cli_output_blueprint(args: &Vec<String>) -> (r: JsonValue)
    ensures
        jview(r) =~~= spec_playground_wp_cli_output(strs(args@)),
{
    let mut step: Vec<(String, JsonValue)> = Vec::new();
    assert(jview_members(step@) =~= Seq::<(Seq<char>, Json)>::empty());
    push_member(&mut step, "step", jtext("wp-cli"));
    push_member(&mut step, "command", JsonValue::String(join_texts(args, " ")));
    let ghost sv = jview_members(step@);
    assert(sv =~~= seq![("step"@, Json::Str("wp-cli"@)), ("command"@, Json::Str(join(strs(args@), " "@)))]);
    one_step_value(step)
}

/// A URL resource.
pub open spec fn url_resource(url: Seq<char>) -> Json {
    Json::Obj(seq![("resource"@, Json::Str("url"@)), ("url"@, Json::Str(url))])
}

fn url_resource_value(url: &str) -> (r: JsonValue)
    ensures
        jview(r) =~~= url_resource(url@),
{
    let mut m: Vec<(String, JsonValue)> = Vec::new();
    assert(jview_members(m@) =~= Seq::<(Seq<char>, Json)>::empty());
    push_member(&mut m, "resource", jtext("url"));
    push_member(&mut m, "url", jtext(url));
    let ghost mv = jview_members(m@);
    assert(mv =~~= seq![("resource"@, Json::Str("url"@)), ("url"@, Json::Str(url@))]);
    JsonValue::Object(m)
}

/// Downloading in Playground: a `writeFile` step with a URL resource.
pub open spec fn spec_playground_download(url: Seq<char>, dest: Seq<char>) -> Json {
    one_step(
        seq![
            ("step"@, Json::Str("writeFile"@)),
            ("path"@, Json::Str(dest)),
            ("data"@, url_resource(url)),
        ],
    )
}

/// The blueprint that downloads a URL to a path.
pub fn playground_download_blueprint(url: &str, dest: &str) -> (r: JsonValue)
    ensures
        jview(r) =~~= spec_playground_download(url@, dest@),
{
    let mut step: Vec<(String, JsonValue)> = Vec::new();
    assert(jview_members(step@) =~= Seq::<(Seq<char>, Json)>::empty());
    push_member(&mut step, "step", jtext("writeFile"));
    push_member(&mut step, "path", jtext(dest));
    push_member(&mut step, "data", url_resource_value(url));
    let ghost sv = jview_members(step@);
    assert(sv =~~= seq![
        ("step"@, Json::Str("writeFile"@)),
        ("path"@, Json::Str(dest@)),
        ("data"@, url_resource(url@)),
    ]);
    one_step_value(step)
}

/// Unzipping in Playground: an `unzip` step with a URL resource.
pub open spec fn spec_playground_unzip(url: Seq<char>, dest: Seq<char>) -> Json {
    one_step(
        seq![
            ("step"@, Json::Str("unzip"@)),
            ("zipFile"@, url_resource(url)),
            ("extractToPath"@, Json::Str(dest)),
        ],
    )
}

/// The blueprint that downloads a ZIP and extracts it.
pub fn playground_unzip_blueprint(url: &str, dest: &str) -> (r: JsonValue)
    ensures
        jview(r) =~~= spec_playground_unzip(url@, dest@),
{
    let mut step: Vec<(String, JsonValue)> = Vec::new();
    assert(jview_members(step@) =~= Seq::<(Seq<char>, Json)>::empty());
    push_member(&mut step, "step", jtext("unzip"));
    push_member(&mut step, "zipFile", url_resource_value(url));
    push_member(&mut step, "extractToPath", jtext(dest));
    let ghost sv = jview_members(step@);
    assert(sv =~~= seq![
        ("step"@, Json::Str("unzip"@)),
        ("zipFile"@, url_resource(url@)),
        ("extractToPath"@, Json::Str(dest@)),
    ]);
    one_step_value(step)
}

/// PHP code as Playground runs it: with a leading `<?php `, unless it has
/// one.
pub open spec fn spec_php_code(code: Seq<char>) -> Seq<char> {
    if starts_with(code, "<?php"@) {
        code
    } else {
        "<?php "@ + code
    }
}

/// A `runPHP` step.
pub open spec fn spec_playground_run_php(code: Seq<char>) -> Json {
    one_step(seq![("step"@, Json::Str("runPHP"@)), ("code"@, Json::Str(code))])
}

fn run_php_blueprint(code: String) -> (r: JsonValue)
    ensures
        jview(r) =~~= spec_playground_run_php(code@),
{
    let ghost c = code@;
    let mut step: Vec<(String, JsonValue)> = Vec::new();
    assert(jview_members(step@) =~= Seq::<(Seq<char>, Json)>::empty());
    push_member(&mut step, "step", jtext("runPHP"));
    push_member(&mut step, "code", JsonValue::String(code));
    let ghost sv = jview_members(step@);
    assert(sv =~~= seq![("step"@, Json::Str("runPHP"@)), ("code"@, Json::Str(c))]);
    one_step_value(step)
}

/// The blueprint that evaluates PHP code.
pub fn playground_eval_blueprint(code: &str) -> (r: JsonValue)
    ensures
        jview(r) =~~= spec_playground_run_php(spec_php_code(code@)),
{
    let full = if str_starts_with(code, "<?php") {
        lit(code)
    } else {
        let mut f = lit("<?php ");
        append(&mut f, code);
        f
    };
    run_php_blueprint(full)
}

/// A shell command run by PHP's `shell_exec`, the command as a PHP
/// string.
pub open spec fn spec_shell_php(cmd: Seq<char>) -> Seq<char> {
    "<?php shell_exec("@ + spec_php_escape_string(cmd) + ");"@
}

/// The blueprint that runs a shell command through PHP.
pub fn playground_shell_blueprint(cmd: &str) -> (r: JsonValue)
    ensures
        jview(r) =~~= spec_playground_run_php(spec_shell_php(cmd@)),
{
    let mut code = lit("<?php shell_exec(");
    append(&mut code, php_escape_string(cmd).as_str());
    append(&mut code, ");");
    run_php_blueprint(code)
}

/// Making an HTTP request in Playground: a `request` step.
pub open spec fn spec_playground_request(method: Seq<char>, url: Seq<char>) -> Json {
    one_step(
        seq![
            ("step"@, Json::Str("request"@)),
            (
                "request"@,
                Json::Obj(seq![("method"@, Json::Str(method)), ("url"@, Json::Str(url))]),
            ),
        ],
    )
}

/// The blueprint that makes an HTTP request.
pub fn playground_request_blueprint(method: &str, url: &str) -> (r: JsonValue)
    ensures
        jview(r) =~~= spec_playground_request(method@, url@),
{
    let mut req: Vec<(String, JsonValue)> = Vec::new();
    assert(jview_members(req@) =~= Seq::<(Seq<char>, Json)>::empty());
    push_member(&mut req, "method", jtext(method));
    push_member(&mut req, "url", jtext(url));
    let ghost rv = jview_members(req@);
    assert(rv =~~= seq![("method"@, Json::Str(method@)), ("url"@, Json::Str(url@))]);
    let mut step: Vec<(String, JsonValue)> = Vec::new();
    assert(jview_members(step@) =~= Seq::<(Seq<char>, Json)>::empty());
    push_member(&mut step, "step", jtext("request"));
    push_member(&mut step, "request", JsonValue::Object(req));
    let ghost sv = jview_members(step@);
    assert(sv =~~= seq![("step"@, Json::Str("request"@)), ("request"@, Json::Obj(rv))]);
    one_step_value(step)
}

/// Running SQL in Playground: a `runSql` step with a literal resource.
pub open spec fn spec_playground_sql(sql: Seq<char>) -> Json {
    one_step(
        seq![
            ("step"@, Json::Str("runSql"@)),
            (
                "sql"@,
                Json::Obj(
                    seq![
                        ("resource"@, Json::Str("literal"@)),
                        ("name"@, Json::Str("query.sql"@)),
                        ("contents"@, Json::Str(sql)),
                    ],
                ),
            ),
        ],
    )
}

/// The blueprint that runs SQL.
pub fn playground_sql_blueprint(sql: &str) -> (r: JsonValue)
    ensures
        jview(r) =~~= spec_playground_sql(sql@),
{
    let mut res: Vec<(String, JsonValue)> = Vec::new();
    assert(jview_members(res@) =~= Seq::<(Seq<char>, Json)>::empty());
    push_member(&mut res, "resource", jtext("literal"));
    push_member(&mut res, "name", jtext("query.sql"));
    push_member(&mut res, "contents", jtext(sql));
    let ghost rv = jview_members(res@);
    assert(rv =~~= seq![
        ("resource"@, Json::Str("literal"@)),
        ("name"@, Json::Str("query.sql"@)),
        ("contents"@, Json::Str(sql@)),
    ]);
    let mut step: Vec<(String, JsonValue)> = Vec::new();
    assert(jview_members(step@) =~= Seq::<(Seq<char>, Json)>::empty());
    push_member(&mut step, "step", jtext("runSql"));
    push_member(&mut step, "sql", JsonValue::Object(res));
    let ghost sv = jview_members(step@);
    assert(sv =~~= seq![("step"@, Json::Str("runSql"@)), ("sql"@, Json::Obj(rv))]);
    one_step_value(step)
}

/// Installing WordPress in Playground: a `runWpInstallationWizard` step.
pub open spec fn spec_playground_install(user: Seq<char>, pass: Seq<char>) -> Json {
    one_step(
        seq![
            ("step"@, Json::Str("runWpInstallationWizard"@)),
            (
                "options"@,
                Json::Obj(
                    seq![("adminUsername"@, Json::Str(user)), ("adminPassword"@, Json::Str(pass))],
                ),
            ),
        ],
    )
}

/// The blueprint that installs WordPress with an admin account.
pub fn playground_install_blueprint(user: &str, pass: &str) -> (r: JsonValue)
    ensures
        jview(r) =~~= spec_playground_install(user@, pass@),
{
    let mut o: Vec<(String, JsonValue)> = Vec::new();
    assert(jview_members(o@) =~= Seq::<(Seq<char>, Json)>::empty());
    push_member(&mut o, "adminUsername", jtext(user));
    push_member(&mut o, "adminPassword", jtext(pass));
    let ghost ov = jview_members(o@);
    assert(ov =~~= seq![("adminUsername"@, Json::Str(user@)), ("adminPassword"@, Json::Str(pass@))]);
    let mut step: Vec<(String, JsonValue)> = Vec::new();
    assert(jview_members(step@) =~= Seq::<(Seq<char>, Json)>::empty());
    push_member(&mut step, "step", jtext("runWpInstallationWizard"));
    push_member(&mut step, "options", JsonValue::Object(o));
    let ghost sv = jview_members(step@);
    assert(sv =~~= seq![("step"@, Json::Str("runWpInstallationWizard"@)), ("options"@, Json::Obj(ov))]);
    one_step_value(step)
}

/// The PHP version Playground uses: the state file's `php_version`, else
/// 8.5.
pub open spec fn spec_playground_php_version(state: Option<JsonValue>) -> Seq<char> {
    match state {
        Some(v) => match json_str_opt(json_get(v, "php_version"@)) {
            Some(p) => p,
            None => "8.5"@,
        },
        None => "8.5"@,
    }
}

/// The PHP version of a Playground project, from its state file read as
/// JSON (`None` when it could not be read or parsed).
pub fn playground_php_version(state: Option<&JsonValue>) -> (r: String)
    ensures
        r@ == spec_playground_php_version(
            match state {
                Some(v) => Some(*v),
                None => None,
            },
        ),
{
    match state {
        Some(v) => match v.get("php_version") {
            Some(p) => match p.as_str() {
                Some(t) => lit(t),
                None => lit("8.5"),
            },
            None => lit("8.5"),
        },
        None => lit("8.5"),
    }
}

/// The arguments of `npx` that serve a Playground project: mounted at
/// `/wordpress`, on port 9400, logged in, with the PHP version if any.
pub open spec fn spec_playground_server_args(mount: Seq<char>, php: Option<Seq<char>>) -> Seq<
    Seq<char>,
> {
    seq![
        "@wp-playground/cli@latest"@,
        "server"@,
        "--mount"@,
        mount + ":/wordpress"@,
        "--port"@,
        "9400"@,
        "--login"@,
    ] + match php {
        Some(p) => seq!["--php"@, p],
        None => Seq::empty(),
    }
}

/// The `npx` arguments that serve a Playground project at `project`.
pub fn playground_server_args(project: &str, php: Option<String>) -> (r: Vec<String>)
    ensures
        strs(r@) == spec_playground_server_args(
            project@,
            match php {
                Some(p) => Some(p@),
                None => None,
            },
        ),
{
    let mut r: Vec<String> = Vec::new();
    push_text(&mut r, lit("@wp-playground/cli@latest"));
    push_text(&mut r, lit("server"));
    push_text(&mut r, lit("--mount"));
    let mut m = lit(project);
    append(&mut m, ":/wordpress");
    push_text(&mut r, m);
    push_text(&mut r, lit("--port"));
    push_text(&mut r, lit("9400"));
    push_text(&mut r, lit("--login"));
    let ghost ph = match &php {
        Some(p) => Some(p@),
        None => None::<Seq<char>>,
    };
    match php {
        Some(p) => {
            push_text(&mut r, lit("--php"));
            push_text(&mut r, p);
        },
        None => {},
    }
    assert(strs(r@) =~= spec_playground_server_args(project@, ph));
    r
}

/// The arguments of `npx` that run a blueprint on a Playground project:
/// mounted at `/wordpress`, the blueprint from `source` (`-` for the
/// standard input, or a file).
pub open spec fn spec_playground_run_args(mount: Seq<char>, source: Seq<char>) -> Seq<Seq<char>> {
    seq![
        "@wp-playground/cli@latest"@,
        "run-blueprint"@,
        "--mount"@,
        mount + ":/wordpress"@,
        "--blueprint"@,
        source,
    ]
}

/// The `npx` arguments that run a blueprint.
pub fn playground_run_args(project: &str, source: &str) -> (r: Vec<String>)
    ensures
        strs(r@) == spec_playground_run_args(project@, source@),
{
    let mut r: Vec<String> = Vec::new();
    push_text(&mut r, lit("@wp-playground/cli@latest"));
    push_text(&mut r, lit("run-blueprint"));
    push_text(&mut r, lit("--mount"));
    let mut m = lit(project);
    append(&mut m, ":/wordpress");
    push_text(&mut r, m);
    push_text(&mut r, lit("--blueprint"));
    push_text(&mut r, lit(source));
    assert(strs(r@) =~= spec_playground_run_args(project@, source@));
    r
}

} // verus!
