//! WordPress blueprint helpers: version checks, escaping, slugs, and path
//! containment.
use vstd::prelude::*;

use crate::json::{json_get, json_str, json_str_opt, json_written, jview, to_json_text,
    JsonValue};
use crate::text::{
    rfind_char, rfind_exec, join,
    after, append, before, lemma_replace_char_concat, contains, decimal, drop_prefix, parse_u32, parse_unsigned, replace_char,
    replace_char_exec, starts_with, str_eq, str_starts_with, string_from, strip_prefix, strs,
    to_chars,
};

verus! {

// ---------------------------------------------------------------------------
// Errors
// ---------------------------------------------------------------------------

/// Errors of blueprint application.
#[derive(Debug)]
pub enum BlueprintError {
    /// A blueprint file could not be read; the I/O failure by its message.
    Io { path: String, reason: String },
    /// The blueprint JSON could not be parsed.
    Parse(String),
    /// A step failed.
    StepFailed { step_index: usize, step_type: String, message: String },
    /// A DDEV command failed.
    DdevFailed { command: String, message: String },
    /// DDEV is not installed.
    DdevNotAvailable,
    /// The project is not a WordPress DDEV project.
    NotWordPressProject,
    /// A resource of a kind that is not supported, or a path that leaves the
    /// project.
    UnsupportedResource(String),
}

/// The message shown for a blueprint error.
pub open spec fn spec_blueprint_message(e: BlueprintError) -> Seq<char> {
    match e {
        BlueprintError::Io { path, reason } => "Failed to read blueprint file "@ + path@ + ": "@ + reason@,
        BlueprintError::Parse(m) => "Failed to parse blueprint JSON: "@ + m@,
        BlueprintError::StepFailed { step_index, step_type, message } => "Step "@ + decimal(
            step_index as nat,
        ) + " ("@ + step_type@ + ") failed: "@ + message@,
        BlueprintError::DdevFailed { command, message } => "DDEV command failed: "@ + command@ + "\n"@
            + message@,
        BlueprintError::DdevNotAvailable =>
            "DDEV is not available. Install it: https://docs.ddev.com/en/stable/users/install/ddev-installation/"@,
        BlueprintError::NotWordPressProject =>
            "Not a WordPress DDEV project. blueprint apply requires a WordPress project with DDEV configured."@,
        BlueprintError::UnsupportedResource(m) => "Unsupported resource type: "@ + m@,
    }
}

impl BlueprintError {
    /// The message shown for the error.
    pub fn message(&self) -> (r: String)
        ensures
            r@ == spec_blueprint_message(*self),
    {
        let mut m = String::new();
        match self {
            BlueprintError::Io { path, reason } => {
                append(&mut m, "Failed to read blueprint file ");
                append(&mut m, path.as_str());
                append(&mut m, ": ");
                append(&mut m, reason.as_str());
            },
            BlueprintError::Parse(t) => {
                append(&mut m, "Failed to parse blueprint JSON: ");
                append(&mut m, t.as_str());
            },
            BlueprintError::StepFailed { step_index, step_type, message } => {
                append(&mut m, "Step ");
                let n = crate::text::usize_to_string(*step_index);
                append(&mut m, n.as_str());
                append(&mut m, " (");
                append(&mut m, step_type.as_str());
                append(&mut m, ") failed: ");
                append(&mut m, message.as_str());
            },
            BlueprintError::DdevFailed { command, message } => {
                append(&mut m, "DDEV command failed: ");
                append(&mut m, command.as_str());
                append(&mut m, "\n");
                append(&mut m, message.as_str());
            },
            BlueprintError::DdevNotAvailable => {
                append(
                    &mut m,
                    "DDEV is not available. Install it: https://docs.ddev.com/en/stable/users/install/ddev-installation/",
                );
            },
            BlueprintError::NotWordPressProject => {
                append(
                    &mut m,
                    "Not a WordPress DDEV project. blueprint apply requires a WordPress project with DDEV configured.",
                );
            },
            BlueprintError::UnsupportedResource(t) => {
                append(&mut m, "Unsupported resource type: ");
                append(&mut m, t.as_str());
            },
        }
        m
    }
}

/// Errors of a WordPress runtime.
#[derive(Debug)]
pub enum RuntimeError {
    NotAvailable { runtime: String, install_hint: String },
    NotConfigured { runtime: String },
    CommandFailed { command: String, message: String },
    /// An I/O failure at a path, by its message.
    Io { path: String, reason: String },
}

/// An error of the Playground converter.
#[derive(Debug)]
pub struct ConvertError(pub String);

impl ConvertError {
    /// The message shown for the error.
    pub fn message(&self) -> (r: String)
        ensures
            r@ == "playground converter: "@ + self.0@,
    {
        let mut m = String::new();
        append(&mut m, "playground converter: ");
        append(&mut m, self.0.as_str());
        m
    }
}

// ---------------------------------------------------------------------------
// Node and PHP versions
// ---------------------------------------------------------------------------

/// A parsed number, or 0 when the text is not one.
pub open spec fn number_or_zero(s: Seq<char>) -> int {
    match parse_unsigned(s, u32::MAX as int) {
        Some(n) => n,
        None => 0,
    }
}

/// Whether a Node.js version `major.minor[...]` is at least 20.18; a
/// version without a `.` is not.
pub open spec fn spec_node_version_ok(v: Seq<char>) -> bool {
    match after(v, seq!['.']) {
        None => false,
        Some(rest) => {
            let major = number_or_zero(before(v, seq!['.']));
            let minor = number_or_zero(before(rest, seq!['.']));
            major > 20 || (major == 20 && minor >= 18)
        },
    }
}

/// `str::parse::<u32>` on characters, with 0 for text that is not a number.
fn u32_or_zero(v: &[char]) -> (r: u32)
    ensures
        r == number_or_zero(v@),
{
    let s = string_from(v);
    match parse_u32(s.as_str()) {
        Some(n) => n,
        None => 0,
    }
}

/// Check if a Node.js version string meets the minimum 20.18 requirement.
pub fn parse_node_version_ok(version: &str) -> (r: bool)
    ensures
        r == spec_node_version_ok(version@),
{
    let v = to_chars(version);
    let dot = ['.'];
    assert(dot@ =~= seq!['.']);
    match crate::text::after_exec(&v, &dot) {
        None => false,
        Some(rest) => {
            let major = u32_or_zero(&crate::text::before_exec(&v, &dot));
            let minor = u32_or_zero(&crate::text::before_exec(&rest, &dot));
            major > 20 || (major == 20 && minor >= 18)
        },
    }
}

/// The PHP version DDEV is given: `latest` for `latest` or a URL, else the
/// `major.minor` of a dotted version, else the text as it is.
pub open spec fn spec_normalize_php_version(v: Seq<char>) -> Seq<char> {
    if v == "latest"@ || starts_with(v, "http"@) {
        "latest"@
    } else {
        match after(v, seq!['.']) {
            Some(rest) => before(v, seq!['.']) + "."@ + before(rest, seq!['.']),
            None => v,
        }
    }
}

/// Normalize a PHP version string to major.minor for DDEV.
pub fn normalize_php_version(version: &str) -> (r: String)
    ensures
        r@ == spec_normalize_php_version(version@),
{
    if str_eq(version, "latest") || str_starts_with(version, "http") {
        return String::from_str("latest");
    }
    let v = to_chars(version);
    let dot = ['.'];
    assert(dot@ =~= seq!['.']);
    match crate::text::after_exec(&v, &dot) {
        Some(rest) => {
            let mut r = string_from(&crate::text::before_exec(&v, &dot));
            append(&mut r, ".");
            let m = string_from(&crate::text::before_exec(&rest, &dot));
            append(&mut r, m.as_str());
            r
        },
        None => String::from_str(version),
    }
}

// ---------------------------------------------------------------------------
// Escaping
// ---------------------------------------------------------------------------

/// `s` inside PHP single quotes: backslashes are doubled, then quotes are
/// escaped with a backslash.
pub open spec fn spec_php_escape_string(s: Seq<char>) -> Seq<char> {
    seq!['\''] + replace_char(replace_char(s, '\\', seq!['\\', '\\']), '\'', seq!['\\', '\''])
        + seq!['\'']
}

/// Escape a string for use inside PHP single-quoted strings.
pub fn php_escape_string(s: &str) -> (r: String)
    ensures
        r@ == spec_php_escape_string(s@),
{
    let v = to_chars(s);
    let bs2 = ['\\', '\\'];
    assert(bs2@ =~= seq!['\\', '\\']);
    let q2 = ['\\', '\''];
    assert(q2@ =~= seq!['\\', '\'']);
    let once = replace_char_exec(&v, '\\', &bs2);
    let twice = replace_char_exec(&once, '\'', &q2);
    let mut r = String::new();
    crate::text::push_char(&mut r, '\'');
    crate::text::push_all(&mut r, &twice);
    crate::text::push_char(&mut r, '\'');
    assert(r@ =~= spec_php_escape_string(s@));
    r
}

/// What PHP reads from the inside of a single-quoted string: `\\` is a
/// backslash and `\'` a quote; any other character stands for itself.
pub open spec fn php_unquote(t: Seq<char>) -> Seq<char>
    decreases t.len(),
{
    if t.len() == 0 {
        seq![]
    } else if t.len() >= 2 && t[0] == '\\' && (t[1] == '\\' || t[1] == '\'') {
        seq![t[1]] + php_unquote(t.skip(2))
    } else {
        seq![t[0]] + php_unquote(t.drop_first())
    }
}

/// `s` with single quotes closed, escaped and reopened for a POSIX shell.
pub open spec fn spec_shell_escape(s: Seq<char>) -> Seq<char> {
    replace_char(s, '\'', "'\\''"@)
}

/// Escape single quotes for shell strings.
pub fn shell_escape(s: &str) -> (r: String)
    ensures
        r@ == spec_shell_escape(s@),
{
    let v = to_chars(s);
    let rep = to_chars("'\\''");
    string_from(&replace_char_exec(&v, '\'', &rep))
}

// ---------------------------------------------------------------------------
// Slugs and paths
// ---------------------------------------------------------------------------

/// The plugin directory named by a plugin path such as
/// `wp-content/plugins/gutenberg/gutenberg.php`.
pub open spec fn spec_extract_plugin_slug(path: Seq<char>) -> Seq<char> {
    let p = match strip_prefix(path, "/wordpress/"@) {
        Some(x) => x,
        None => drop_prefix(path, "/var/www/html/"@),
    };
    before(drop_prefix(p, "wp-content/plugins/"@), seq!['/'])
}

/// Extract plugin slug from a plugin path like "wp-content/plugins/gutenberg/gutenberg.php".
pub fn extract_plugin_slug(path: &str) -> (r: String)
    ensures
        r@ == spec_extract_plugin_slug(path@),
{
    let v = to_chars(path);
    let wp = to_chars("/wordpress/");
    let p = if crate::text::starts_with_exec(&v, &wp) {
        crate::text::drop_prefix_exec(&v, &wp)
    } else {
        crate::text::drop_prefix_exec(&v, &to_chars("/var/www/html/"))
    };
    let q = crate::text::drop_prefix_exec(&p, &to_chars("wp-content/plugins/"));
    let slash = ['/'];
    assert(slash@ =~= seq!['/']);
    string_from(&crate::text::before_exec(&q, &slash))
}

/// A Playground path without its `/wordpress/` or `/wordpress` prefix.
pub open spec fn spec_strip_wordpress_prefix(path: Seq<char>) -> Seq<char> {
    match strip_prefix(path, "/wordpress/"@) {
        Some(x) => x,
        None => drop_prefix(path, "/wordpress"@),
    }
}

/// Strip the `/wordpress/` or `/wordpress` prefix that Playground uses.
pub fn strip_wordpress_prefix(path: &str) -> (r: String)
    ensures
        r@ == spec_strip_wordpress_prefix(path@),
{
    let v = to_chars(path);
    let wp = to_chars("/wordpress/");
    if crate::text::starts_with_exec(&v, &wp) {
        string_from(&crate::text::drop_prefix_exec(&v, &wp))
    } else {
        string_from(&crate::text::drop_prefix_exec(&v, &to_chars("/wordpress")))
    }
}

/// The Elementor asset patterns copied by the static exporter.
pub open spec fn elementor_globs() -> Seq<Seq<char>> {
    seq![
        "wp-content/plugins/elementor/assets/js/*.bundle.min.js"@,
        "wp-content/plugins/elementor/assets/css/conditionals/*.css"@,
        "wp-content/plugins/elementor/assets/lib/**/*.min.js"@,
        "wp-content/plugins/elementor/assets/lib/**/*.min.css"@,
    ]
}

/// Glob patterns for JS-dynamically-loaded assets that can't be discovered
/// via HTML parsing: Elementor's, when the webroot has its asset directory.
pub fn default_copy_globs(has_elementor_assets: bool) -> (r: Vec<String>)
    ensures
        strs(r@) == if has_elementor_assets {
            elementor_globs()
        } else {
            seq![]
        },
{
    let mut globs: Vec<String> = Vec::new();
    if has_elementor_assets {
        globs.push(String::from_str("wp-content/plugins/elementor/assets/js/*.bundle.min.js"));
        globs.push(String::from_str("wp-content/plugins/elementor/assets/css/conditionals/*.css"));
        globs.push(String::from_str("wp-content/plugins/elementor/assets/lib/**/*.min.js"));
        globs.push(String::from_str("wp-content/plugins/elementor/assets/lib/**/*.min.css"));
    }
    assert(strs(globs@) =~= if has_elementor_assets {
        elementor_globs()
    } else {
        seq![]
    });
    globs
}



// ---------------------------------------------------------------------------
// JSON values as command arguments
// ---------------------------------------------------------------------------

/// A JSON value as a WP-CLI option value: strings as they are, booleans
/// as `1`/`0`, `null` as nothing, anything else (numbers too) as
/// `serde_json` writes it.
pub open spec fn spec_json_value_to_string(v: JsonValue) -> Seq<char> {
    match v {
        JsonValue::String(s) => s@,
        JsonValue::Bool(b) => if b {
            "1"@
        } else {
            "0"@
        },
        JsonValue::Null => seq![],
        _ => json_written(jview(v)),
    }
}

/// Convert a JSON value to a string suitable for WP-CLI option values.
pub fn json_value_to_string(value: &JsonValue) -> (r: String)
    ensures
        r@ == spec_json_value_to_string(*value),
{
    match value {
        JsonValue::String(s) => s.clone(),
        JsonValue::Bool(b) => if *b {
            String::from_str("1")
        } else {
            String::from_str("0")
        },
        JsonValue::Null => String::new(),
        _ => to_json_text(value),
    }
}

/// A JSON value as a `wp-config.php` constant: strings as they are,
/// booleans as `true`/`false`, anything else as `serde_json` writes it.
pub open spec fn spec_json_value_to_wp_config_string(v: JsonValue) -> Seq<char> {
    match v {
        JsonValue::String(s) => s@,
        JsonValue::Bool(b) => if b {
            "true"@
        } else {
            "false"@
        },
        _ => json_written(jview(v)),
    }
}

/// Convert a JSON value to wp config constant string.
pub fn json_value_to_wp_config_string(value: &JsonValue) -> (r: String)
    ensures
        r@ == spec_json_value_to_wp_config_string(*value),
{
    match value {
        JsonValue::String(s) => s.clone(),
        JsonValue::Bool(b) => if *b {
            String::from_str("true")
        } else {
            String::from_str("false")
        },
        _ => to_json_text(value),
    }
}

/// A text between single quotes.
pub open spec fn single_quoted(t: Seq<char>) -> Seq<char> {
    seq!['\''] + t + seq!['\'']
}

/// Puts a text between single quotes (the JSON of a command-line argument).
pub fn quote_single(t: &str) -> (r: String)
    ensures
        r@ == single_quoted(t@),
{
    let mut r = String::new();
    crate::text::push_char(&mut r, '\'');
    append(&mut r, t);
    crate::text::push_char(&mut r, '\'');
    assert(r@ =~= single_quoted(t@));
    r
}

/// A JSON value as a command-line argument: strings with a space in double
/// quotes, booleans as `true`/`false`, numbers as `serde_json` writes them,
/// anything else as `serde_json` writes it, in single quotes.
pub open spec fn spec_json_value_to_cli_arg(v: JsonValue) -> Seq<char> {
    match v {
        JsonValue::String(s) => if contains(s@, seq![' ']) {
            seq!['"'] + s@ + seq!['"']
        } else {
            s@
        },
        JsonValue::Bool(b) => if b {
            "true"@
        } else {
            "false"@
        },
        JsonValue::Number(_) => json_written(jview(v)),
        _ => single_quoted(json_written(jview(v))),
    }
}

/// Convert a JSON value to a CLI-friendly string (quoted if contains spaces).
pub fn json_value_to_cli_arg(v: &JsonValue) -> (r: String)
    ensures
        r@ == spec_json_value_to_cli_arg(*v),
{
    match v {
        JsonValue::String(s) => {
            let sp = [' '];
            assert(sp@ =~= seq![' ']);
            let chars = to_chars(s.as_str());
            if crate::text::find_exec(&chars, &sp).is_some() {
                let mut r = String::new();
                crate::text::push_char(&mut r, '"');
                append(&mut r, s.as_str());
                crate::text::push_char(&mut r, '"');
                assert(r@ =~= seq!['"'] + s@ + seq!['"']);
                r
            } else {
                s.clone()
            }
        },
        JsonValue::Bool(b) => if *b {
            String::from_str("true")
        } else {
            String::from_str("false")
        },
        JsonValue::Number(_) => to_json_text(v),
        _ => quote_single(to_json_text(v).as_str()),
    }
}

/// The string items of an array, in order.
pub open spec fn string_items(a: Seq<JsonValue>) -> Seq<Seq<char>>
    decreases a.len(),
{
    if a.len() == 0 {
        seq![]
    } else {
        string_items(a.drop_last()) + match json_str(a.last()) {
            Some(s) => seq![s],
            None => seq![],
        }
    }
}

/// A `wp-cli` command value: a string as it is, the string items of an
/// array joined with spaces, or nothing.
pub open spec fn spec_wpcli_command_string(v: JsonValue) -> Seq<char> {
    match v {
        JsonValue::String(s) => s@,
        JsonValue::Array(a) => join(string_items(a@), seq![' ']),
        _ => seq![],
    }
}

/// Convert a `wp-cli` command value (string or array) to a string.
pub fn wpcli_command_string(v: &JsonValue) -> (r: String)
    ensures
        r@ == spec_wpcli_command_string(*v),
{
    match v {
        JsonValue::String(s) => s.clone(),
        JsonValue::Array(a) => {
            let mut parts: Vec<Vec<char>> = Vec::new();
            let mut i: usize = 0;
            while i < a.len()
                invariant
                    i <= a@.len(),
                    crate::text::views(parts@) == string_items(a@.take(i as int)),
                decreases a.len() - i,
            {
                assert(a@.take(i + 1).drop_last() =~= a@.take(i as int));
                assert(a@.take(i + 1).last() == a@[i as int]);
                let ghost o = parts@;
                match a[i].as_str() {
                    Some(s) => {
                        let c = to_chars(s);
                        parts.push(c);
                        assert(crate::text::views(parts@) =~= crate::text::views(o) + seq![c@]);
                    },
                    None => {
                        assert(crate::text::views(parts@) =~= crate::text::views(o) + Seq::<
                            Seq<char>,
                        >::empty());
                    },
                }
                i += 1;
            }
            assert(a@.take(a@.len() as int) =~= a@);
            join_words(&parts)
        },
        _ => String::new(),
    }
}

/// Words joined with single spaces.
fn join_words(ls: &Vec<Vec<char>>) -> (s: String)
    ensures
        s@ == join(crate::text::views(ls@), seq![' ']),
{
    let mut s = String::new();
    let mut i: usize = 0;
    let ghost vs = crate::text::views(ls@);
    while i < ls.len()
        invariant
            i <= ls@.len(),
            vs == crate::text::views(ls@),
            s@ == join(vs.take(i as int), seq![' ']),
        decreases ls.len() - i,
    {
        let ghost s0 = s@;
        if i > 0 {
            crate::text::push_char(&mut s, ' ');
        }
        crate::text::push_all(&mut s, &ls[i]);
        proof {
            let t = vs.take(i + 1);
            assert(t.drop_last() =~= vs.take(i as int));
            assert(t.last() == ls@[i as int]@);
            if i == 0 {
                assert(s0 =~= Seq::<char>::empty());
                assert(s@ =~= t[0]);
            } else {
                assert(s@ =~= s0 + seq![' '] + t.last());
            }
        }
        i += 1;
    }
    assert(vs.take(ls@.len() as int) =~= vs);
    s
}

/// The slug of a plugin/theme shorthand: the string itself, or an
/// object's `slug`, or `unknown`.
pub open spec fn spec_plugin_slug_from_value(v: JsonValue) -> Seq<char> {
    match json_str(v) {
        Some(s) => s,
        None => match json_str_opt(json_get(v, "slug"@)) {
            Some(s) => s,
            None => "unknown"@,
        },
    }
}

/// Extract the slug string from a plugin/theme shorthand value.
pub fn plugin_slug_from_value(v: &JsonValue) -> (r: String)
    ensures
        r@ == spec_plugin_slug_from_value(*v),
{
    match v.as_str() {
        Some(s) => String::from_str(s),
        None => match v.get("slug") {
            Some(x) => match x.as_str() {
                Some(s) => String::from_str(s),
                None => String::from_str("unknown"),
            },
            None => String::from_str("unknown"),
        },
    }
}

/// The text after the last `/`, or all of it.
pub open spec fn last_segment(s: Seq<char>) -> Seq<char> {
    match rfind_char(s, '/') {
        Some(i) => s.skip(i + 1),
        None => s,
    }
}

/// The slug of a resource object: its `slug`, or the last segment of its
/// `url`.
pub open spec fn spec_slug_from_resource(v: Option<JsonValue>) -> Option<Seq<char>> {
    match v {
        None => None,
        Some(x) => match json_str_opt(json_get(x, "slug"@)) {
            Some(s) => Some(s),
            None => match json_str_opt(json_get(x, "url"@)) {
                Some(u) => Some(last_segment(u)),
                None => None,
            },
        },
    }
}

/// Extract a slug from a resource object (`pluginData` / `themeData`).
pub fn slug_from_resource(v: Option<&JsonValue>) -> (r: Option<String>)
    ensures
        r matches Some(s) ==> spec_slug_from_resource(
            match v {
                Some(x) => Some(*x),
                None => None,
            },
        ) == Some(s@),
        r is None ==> spec_slug_from_resource(
            match v {
                Some(x) => Some(*x),
                None => None,
            },
        ) is None,
{
    let x = match v {
        Some(x) => x,
        None => return None,
    };
    match x.get("slug") {
        Some(s) => match s.as_str() {
            Some(t) => return Some(String::from_str(t)),
            None => {},
        },
        None => {},
    }
    match x.get("url") {
        Some(u) => match u.as_str() {
            Some(t) => {
                let c = to_chars(t);
                let n = c.len();
                match rfind_exec(&c, '/') {
                    Some(i) => {
                        assert(c@.skip(i + 1) =~= c@.subrange(i + 1, n as int));
                        Some(crate::text::string_of(&c, i + 1, n))
                    },
                    None => Some(String::from_str(t)),
                }
            },
            None => None,
        },
        None => None,
    }
}


// ---------------------------------------------------------------------------
// Blueprint types
// ---------------------------------------------------------------------------

/// Blueprint metadata.
#[derive(Debug, Clone)]
pub struct Meta {
    pub title: Option<String>,
    pub description: Option<String>,
    pub author: Option<String>,
    pub categories: Vec<String>,
}

/// Preferred PHP and WordPress versions.
#[derive(Debug, Clone)]
pub struct PreferredVersions {
    pub php: Option<String>,
    pub wp: Option<String>,
}

/// Playground features.
#[derive(Debug, Clone)]
pub struct Features {
    pub networking: Option<bool>,
    pub intl: Option<bool>,
}

/// The top-level `login` shorthand: a flag, or credentials.
#[derive(Debug, Clone)]
pub enum LoginShorthand {
    Bool(bool),
    Credentials { username: Option<String>, password: Option<String> },
}

/// PHP code: inline, or a file.
#[derive(Debug, Clone)]
pub enum PhpCode {
    String(String),
    File { filename: Option<String>, content: String },
}

/// A `wp-cli` command: one string, or its arguments.
#[derive(Debug, Clone)]
pub enum WpCliCommand {
    String(String),
    Args(Vec<String>),
}

/// Options of `installPlugin`.
#[derive(Debug, Clone)]
pub struct InstallPluginOptions {
    pub activate: Option<bool>,
    pub target_folder_name: Option<String>,
}

/// Options of `installTheme`.
#[derive(Debug, Clone)]
pub struct InstallThemeOptions {
    pub activate: Option<bool>,
    pub import_starter_content: Option<bool>,
    pub target_folder_name: Option<String>,
}

/// Options of `runWpInstallationWizard`.
#[derive(Debug, Clone)]
pub struct WpInstallationOptions {
    pub admin_username: Option<String>,
    pub admin_password: Option<String>,
}

// ---------------------------------------------------------------------------
// Runtimes, executor and exporter
// ---------------------------------------------------------------------------

/// The DDEV runtime.
#[derive(Debug, Clone, Copy)]
pub struct DdevRuntime;

impl DdevRuntime {
    /// The DDEV runtime.
    pub fn new() -> (r: Self) {
        DdevRuntime
    }
}

/// The WordPress Playground runtime.
#[derive(Debug, Clone, Copy)]
pub struct PlaygroundRuntime;

impl PlaygroundRuntime {
    /// The Playground runtime.
    pub fn new() -> (r: Self) {
        PlaygroundRuntime
    }
}

/// Which WordPress runtime runs the commands.
#[derive(Debug, Clone, Copy, PartialEq, Eq, Structural)]
pub enum RuntimeKind {
    Ddev,
    Playground,
}

/// Applies blueprints to a project through a runtime.
#[derive(Debug, Clone)]
pub struct BlueprintExecutor {
    pub project_path: String,
    pub runtime: RuntimeKind,
}

impl BlueprintExecutor {
    /// Create a new executor with a specific runtime.
    pub fn new(project_path: String, runtime: RuntimeKind) -> (r: Self)
        ensures
            r.project_path == project_path,
            r.runtime == runtime,
    {
        BlueprintExecutor { project_path, runtime }
    }

    /// Create an executor using the DDEV runtime.
    pub fn with_ddev(project_path: String) -> (r: Self)
        ensures
            r.project_path == project_path,
            r.runtime == RuntimeKind::Ddev,
    {
        Self::new(project_path, RuntimeKind::Ddev)
    }
}

/// What a static export produced.
#[derive(Debug, Clone)]
pub struct ExportResult {
    pub output_dir: String,
    pub pages_crawled: u64,
    pub assets_copied: u64,
    /// How long the export took, in milliseconds.
    pub duration_ms: u64,
}

/// Exports a CMS site as static HTML.
#[derive(Debug, Clone)]
pub struct StaticExporter {
    pub project_path: String,
    pub runtime: RuntimeKind,
}

impl StaticExporter {
    /// An exporter of the project through the runtime.
    pub fn new(project_path: String, runtime: RuntimeKind) -> (r: Self)
        ensures
            r.project_path == project_path,
            r.runtime == runtime,
    {
        StaticExporter { project_path, runtime }
    }

    /// The directory the site is served from: the project directory.
    pub fn resolve_webroot(&self) -> (r: Result<String, RuntimeError>)
        ensures
            r matches Ok(p) && p == self.project_path,
    {
        Ok(self.project_path.clone())
    }
}


// ---------------------------------------------------------------------------
// Path containment
// ---------------------------------------------------------------------------

/// A component of a path.
#[derive(Debug, Clone)]
pub enum PathPart {
    /// A Windows prefix such as `C:`.
    Prefix(String),
    /// The root `/`.
    Root,
    /// `.`
    Cur,
    /// `..`
    Parent,
    /// A name.
    Normal(String),
}

/// A path component with its text as characters.
pub enum PartView {
    Prefix(Seq<char>),
    Root,
    Cur,
    Parent,
    Normal(Seq<char>),
}

impl View for PathPart {
    type V = PartView;

    open spec fn view(&self) -> PartView {
        match self {
            PathPart::Prefix(p) => PartView::Prefix(p@),
            PathPart::Root => PartView::Root,
            PathPart::Cur => PartView::Cur,
            PathPart::Parent => PartView::Parent,
            PathPart::Normal(n) => PartView::Normal(n@),
        }
    }
}

/// The views of path components.
pub open spec fn part_views(ps: Seq<PathPart>) -> Seq<PartView> {
    Seq::new(ps.len(), |i: int| ps[i]@)
}

/// The components of a path, as `std::path::Path::components` gives them.
pub uninterp spec fn path_components(path: Seq<char>) -> Seq<PartView>;

/// Splits a path with `std::path::Path::components`, converting each
/// component. The contract claims only that the result is a function of
/// the path, named `path_components`.
#[verifier::external_body]
fn components_of(path: &str) -> (r: Vec<PathPart>)
    ensures
        part_views(r@) == path_components(path@),
{
    let mut v = Vec::new();
    for c in std::path::Path::new(path).components() {
        v.push(match c {
            std::path::Component::Prefix(p) => PathPart::Prefix(p.as_os_str().to_string_lossy().into_owned()),
            std::path::Component::RootDir => PathPart::Root,
            std::path::Component::CurDir => PathPart::Cur,
            std::path::Component::ParentDir => PathPart::Parent,
            std::path::Component::Normal(n) => PathPart::Normal(n.to_string_lossy().into_owned()),
        });
    }
    v
}

/// The path after one more component, as `PathBuf` builds it: `..` drops
/// the last name (a root or prefix stays), `.` is skipped, a root or prefix
/// starts the path over, and a name is appended.
pub open spec fn push_part(acc: Seq<PartView>, c: PartView) -> Seq<PartView> {
    match c {
        PartView::Parent => if acc.len() > 0 && acc.last() is Normal {
            acc.drop_last()
        } else {
            acc
        },
        PartView::Cur => acc,
        PartView::Root => seq![PartView::Root],
        PartView::Prefix(p) => seq![PartView::Prefix(p)],
        PartView::Normal(n) => acc.push(PartView::Normal(n)),
    }
}

/// A path with `.` and `..` resolved, without looking at the file system.
pub open spec fn normalized(ps: Seq<PartView>) -> Seq<PartView>
    decreases ps.len(),
{
    if ps.len() == 0 {
        seq![]
    } else {
        push_part(normalized(ps.drop_last()), ps.last())
    }
}

/// Whether `a`'s components begin `b`.
pub open spec fn parts_prefix(b: Seq<PartView>, a: Seq<PartView>) -> bool {
    b.len() <= a.len() && a.take(b.len() as int) == b
}

/// Normalizes a list of components.
fn normalize_parts(ps: &Vec<PathPart>) -> (r: Vec<PathPart>)
    ensures
        part_views(r@) == normalized(part_views(ps@)),
{
    let mut out: Vec<PathPart> = Vec::new();
    let mut i: usize = 0;
    while i < ps.len()
        invariant
            i <= ps@.len(),
            part_views(out@) == normalized(part_views(ps@).take(i as int)),
        decreases ps.len() - i,
    {
        let ghost acc = part_views(out@);
        assert(part_views(ps@).take(i + 1).drop_last() =~= part_views(ps@).take(i as int));
        assert(part_views(ps@).take(i + 1).last() == ps@[i as int]@);
        match &ps[i] {
            PathPart::Parent => {
                let n = out.len();
                if n > 0 {
                    let is_name = match &out[n - 1] {
                        PathPart::Normal(_) => true,
                        _ => false,
                    };
                    if is_name {
                        out.pop();
                        assert(part_views(out@) =~= acc.drop_last());
                    }
                }
            },
            PathPart::Cur => {},
            PathPart::Root => {
                out = Vec::new();
                out.push(PathPart::Root);
                assert(part_views(out@) =~= seq![PartView::Root]);
            },
            PathPart::Prefix(p) => {
                out = Vec::new();
                out.push(PathPart::Prefix(p.clone()));
                assert(part_views(out@) =~= seq![PartView::Prefix(p@)]);
            },
            PathPart::Normal(nm) => {
                out.push(PathPart::Normal(nm.clone()));
                assert(part_views(out@) =~= acc.push(PartView::Normal(nm@)));
            },
        }
        i += 1;
    }
    assert(part_views(ps@).take(ps@.len() as int) =~= part_views(ps@));
    out
}

/// Normalize a path by resolving `.` and `..` components without
/// filesystem access.
pub fn normalize_path(path: &str) -> (r: Vec<PathPart>)
    ensures
        part_views(r@) == normalized(path_components(path@)),
{
    let ps = components_of(path);
    normalize_parts(&ps)
}

/// Whether two components are the same.
fn same_part(a: &PathPart, b: &PathPart) -> (r: bool)
    ensures
        r == (a@ == b@),
{
    match (a, b) {
        (PathPart::Prefix(x), PathPart::Prefix(y)) => str_eq(x.as_str(), y.as_str()),
        (PathPart::Root, PathPart::Root) => true,
        (PathPart::Cur, PathPart::Cur) => true,
        (PathPart::Parent, PathPart::Parent) => true,
        (PathPart::Normal(x), PathPart::Normal(y)) => str_eq(x.as_str(), y.as_str()),
        _ => false,
    }
}

/// Ensure a target path is contained within the project root (no path
/// traversal): the normalized target must begin with the normalized base.
pub fn ensure_path_within(base: &str, target: &str) -> (r: Result<(), BlueprintError>)
    ensures
        r is Ok <==> parts_prefix(
            normalized(path_components(base@)),
            normalized(path_components(target@)),
        ),
        r matches Err(e) ==> e matches BlueprintError::UnsupportedResource(m) && m@
            == "path escapes project root: "@ + target@,
{
    let t = normalize_path(target);
    let b = normalize_path(base);
    let ghost tv = part_views(t@);
    let ghost bv = part_views(b@);
    let mut within = b.len() <= t.len();
    let mut i: usize = 0;
    if within {
        while i < b.len()
            invariant
                b@.len() <= t@.len(),
                i <= b@.len(),
                tv == part_views(t@),
                bv == part_views(b@),
                within == (forall|j: int| 0 <= j < i ==> tv[j] == bv[j]),
            decreases b.len() - i,
        {
            assert(tv[i as int] == t@[i as int]@ && bv[i as int] == b@[i as int]@);
            if !same_part(&t[i], &b[i]) {
                within = false;
            }
            i += 1;
        }
        assert(within == (tv.take(bv.len() as int) =~= bv));
    }
    if within {
        Ok(())
    } else {
        let mut m = String::new();
        append(&mut m, "path escapes project root: ");
        append(&mut m, target);
        Err(BlueprintError::UnsupportedResource(m))
    }
}

/// Normalizing twice gives what normalizing once gives.
pub proof fn law_normalize_idempotent(ps: Seq<PartView>)
    ensures
        normalized(normalized(ps)) == normalized(ps),
    decreases ps.len(),
{
    if ps.len() > 0 {
        law_normalize_idempotent(ps.drop_last());
        lemma_normalized_clean(ps.drop_last());
        lemma_normalized_clean(ps);
        lemma_clean_fixed(normalized(ps));
    }
}

/// A normalized path holds no `.` or `..`, and a root or prefix only at its
/// start.
pub open spec fn clean(ps: Seq<PartView>) -> bool {
    forall|i: int|
        0 <= i < ps.len() ==> (#[trigger] ps[i] is Normal || (i == 0 && (ps[i] is Root
            || ps[i] is Prefix)))
}

/// Normalizing gives a clean path.
proof fn lemma_normalized_clean(ps: Seq<PartView>)
    ensures
        clean(normalized(ps)),
    decreases ps.len(),
{
    if ps.len() > 0 {
        lemma_normalized_clean(ps.drop_last());
        let acc = normalized(ps.drop_last());
        let r = normalized(ps);
        assert forall|i: int| 0 <= i < r.len() implies (#[trigger] r[i] is Normal || (i == 0 && (r[i] is Root
            || r[i] is Prefix))) by {
            match ps.last() {
                PartView::Parent => {
                    if acc.len() > 0 && acc.last() is Normal {
                        assert(r[i] == acc[i]);
                    }
                },
                PartView::Normal(n) => {
                    if i < acc.len() {
                        assert(r[i] == acc[i]);
                    }
                },
                _ => {},
            }
        }
    }
}

/// Normalizing a clean path leaves it as it is.
proof fn lemma_clean_fixed(ps: Seq<PartView>)
    requires
        clean(ps),
    ensures
        normalized(ps) == ps,
    decreases ps.len(),
{
    if ps.len() > 0 {
        let init = ps.drop_last();
        assert(clean(init)) by {
            assert forall|i: int| 0 <= i < init.len() implies (#[trigger] init[i] is Normal || (i
                == 0 && (init[i] is Root || init[i] is Prefix))) by {
                assert(init[i] == ps[i]);
            }
        }
        lemma_clean_fixed(init);
        assert(ps[ps.len() - 1] is Normal || (ps.len() == 1 && (ps[0] is Root || ps[0] is Prefix)));
        if ps.last() is Normal {
            assert(init.push(ps.last()) =~= ps);
        } else {
            assert(init.len() == 0);
            if ps[0] is Root {
                assert(seq![PartView::Root] =~= ps);
            } else {
                assert(seq![PartView::Prefix(ps[0]->Prefix_0)] =~= ps);
            }
        }
    }
}

// ---------------------------------------------------------------------------
// Laws
// ---------------------------------------------------------------------------

/// The escaped form of one character inside PHP single quotes.
pub open spec fn php_piece(c: char) -> Seq<char> {
    if c == '\\' {
        seq!['\\', '\\']
    } else if c == '\'' {
        seq!['\\', '\'']
    } else {
        seq![c]
    }
}

/// The two replacements escape each character on its own.
proof fn lemma_php_escape_step(s: Seq<char>)
    requires
        s.len() > 0,
    ensures
        replace_char(replace_char(s, '\\', seq!['\\', '\\']), '\'', seq!['\\', '\''])
            == php_piece(s[0]) + replace_char(
            replace_char(s.drop_first(), '\\', seq!['\\', '\\']),
            '\'',
            seq!['\\', '\''],
        ),
{
    let first = if s[0] == '\\' {
        seq!['\\', '\\']
    } else {
        seq![s[0]]
    };
    let r1 = replace_char(s.drop_first(), '\\', seq!['\\', '\\']);
    assert(replace_char(s, '\\', seq!['\\', '\\']) == first + r1);
    lemma_replace_char_concat(first, r1, '\'', seq!['\\', '\'']);
    reveal_with_fuel(replace_char, 3);
    if s[0] == '\\' {
        assert(first.drop_first().drop_first() =~= Seq::<char>::empty());
        assert(replace_char(first, '\'', seq!['\\', '\'']) =~= seq!['\\', '\\']);
    } else {
        assert(first.drop_first() =~= Seq::<char>::empty());
        if s[0] == '\'' {
            assert(replace_char(first, '\'', seq!['\\', '\'']) =~= seq!['\\', '\''] + Seq::<
                char,
            >::empty());
        } else {
            assert(replace_char(first, '\'', seq!['\\', '\'']) =~= seq![s[0]] + Seq::<
                char,
            >::empty());
        }
    }
}

/// Reading back what `php_escape_string` wrote gives the original text:
/// PHP sees exactly `s` between the quotes.
pub proof fn law_php_escape_roundtrip(s: Seq<char>)
    ensures
        php_unquote(
            spec_php_escape_string(s).subrange(1, spec_php_escape_string(s).len() - 1),
        ) == s,
    decreases s.len(),
{
    let e = spec_php_escape_string(s);
    let inner = replace_char(replace_char(s, '\\', seq!['\\', '\\']), '\'', seq!['\\', '\'']);
    assert(e.subrange(1, e.len() - 1) =~= inner);
    if s.len() == 0 {
        assert(inner =~= Seq::<char>::empty());
    } else {
        lemma_php_escape_step(s);
        let rest = s.drop_first();
        let ir = replace_char(replace_char(rest, '\\', seq!['\\', '\\']), '\'', seq!['\\', '\'']);
        law_php_escape_roundtrip(rest);
        assert(spec_php_escape_string(rest).subrange(1, spec_php_escape_string(rest).len() - 1)
            =~= ir);
        let p = php_piece(s[0]);
        assert(inner == p + ir);
        if s[0] == '\\' || s[0] == '\'' {
            assert((p + ir).skip(2) =~= ir);
            assert(php_unquote(p + ir) == seq![s[0]] + php_unquote(ir));
        } else {
            assert((p + ir).drop_first() =~= ir);
            assert(php_unquote(p + ir) == seq![s[0]] + php_unquote(ir));
        }
        assert(seq![s[0]] + rest =~= s);
    }
}

} // verus!
