//! Generates a Playground blueprint from what a running WordPress site
//! reports: its PHP and WordPress versions, plugins, themes, options,
//! `wp-config.php` constants and language.
//!
//! The program asks the site (through WP-CLI) and reads the answers; the
//! choice of what goes into the blueprint, and how, is here.
use vstd::prelude::*;

use crate::blueprint::BlueprintError;
use crate::json::{
    jarr, jobj, jstr, jview, jview_items, jview_members, lemma_jview_items_push,
    lemma_jview_members_push, member, Json, JsonNumber, JsonValue,
};
use crate::text::{
    append, lines, parse_i64, parse_signed, starts_with, str_eq, str_starts_with, str_trim,
    strip_prefix, trim, trim_char, trim_end_char_exec, trim_start_char_exec, trim_vec,
};

verus! {

/// A plugin from `wp plugin list --format=json`.
#[derive(Debug, Clone)]
pub struct WpPlugin {
    pub name: String,
    pub status: String,
}

/// A theme from `wp theme list --format=json`.
#[derive(Debug, Clone)]
pub struct WpTheme {
    pub name: String,
    pub status: String,
}

/// A wp-config entry from `wp config list --format=json`.
#[derive(Debug, Clone)]
pub struct WpConfigEntry {
    pub name: String,
    pub value: String,
    pub entry_type: String,
}

/// Introspects a running WordPress DDEV project and generates a blueprint.
#[derive(Debug, Clone)]
pub struct BlueprintGenerator {
    pub project_path: String,
}

/// What the site reported, as the generator uses it.
#[derive(Debug)]
pub struct SiteReport {
    /// `.ddev/config.yaml`, if it could be read.
    pub ddev_config: Option<String>,
    /// `wp core version`.
    pub wp_version: Option<String>,
    /// `wp plugin list`: absent, unreadable (with the reason), or read.
    pub plugins: Option<Result<Vec<WpPlugin>, String>>,
    /// `wp theme list`: absent, unreadable (with the reason), or read.
    pub themes: Option<Result<Vec<WpTheme>, String>>,
    /// The answer to `wp option get` for each of [`site_option_keys`].
    pub option_answers: Vec<Option<String>>,
    /// `wp config list`, if it was answered and could be read.
    pub config_entries: Option<Vec<WpConfigEntry>>,
    /// `wp option get WPLANG`.
    pub language: Option<String>,
}

// ---------------------------------------------------------------------------
// Reading the answers
// ---------------------------------------------------------------------------

/// The PHP version a trimmed config line sets, if it is a `php_version:`
/// line with a value.
pub open spec fn php_line_version(t: Seq<char>) -> Option<Seq<char>> {
    match strip_prefix(t, "php_version:"@) {
        Some(rest) => {
            let v = trim_char(trim_char(trim(rest), '"'), '\'');
            if v.len() > 0 {
                Some(v)
            } else {
                None
            }
        },
        None => None,
    }
}

/// The PHP version of the first line that sets one.
pub open spec fn php_version_in(ls: Seq<Seq<char>>) -> Option<Seq<char>>
    decreases ls.len(),
{
    if ls.len() == 0 {
        None
    } else {
        match php_line_version(trim(ls[0])) {
            Some(v) => Some(v),
            None => php_version_in(ls.drop_first()),
        }
    }
}

/// The PHP version set in `.ddev/config.yaml`.
pub fn php_version_from_config(config: Option<&str>) -> (r: Option<String>)
    ensures
        r matches Some(v) ==> config matches Some(c) && php_version_in(lines(c@)) == Some(v@),
        r is None ==> config is None || php_version_in(lines(config->0@)) is None,
{
    let c = match config {
        Some(c) => c,
        None => return None,
    };
    let chars = crate::text::to_chars(c);
    let ls = crate::text::lines_vec(&chars);
    let ghost vs = crate::text::views(ls@);
    let prefix = crate::text::to_chars("php_version:");
    let mut i: usize = 0;
    assert(vs.skip(0) =~= vs);
    while i < ls.len()
        invariant
            i <= ls@.len(),
            config == Some(c),
            vs == crate::text::views(ls@),
            vs == lines(c@),
            prefix@ == "php_version:"@,
            php_version_in(vs) == php_version_in(vs.skip(i as int)),
        decreases ls.len() - i,
    {
        assert(vs.skip(i as int)[0] == ls@[i as int]@);
        assert(vs.skip(i as int).drop_first() =~= vs.skip(i + 1));
        let t = trim_vec(&ls[i]);
        assert(t@ == trim(vs.skip(i as int)[0]));
        if crate::text::starts_with_exec(&t, &prefix) {
            let rest = crate::text::drop_prefix_exec(&t, &prefix);
            let a = trim_vec(&rest);
            let b = trim_end_char_exec(&trim_start_char_exec(&a, '"'), '"');
            let v = trim_end_char_exec(&trim_start_char_exec(&b, '\''), '\'');
            assert(strip_prefix(t@, "php_version:"@) == Some(rest@));
            assert(v@ == trim_char(trim_char(trim(rest@), '"'), '\''));
            if v.len() > 0 {
                assert(php_line_version(t@) == Some(v@));
                assert(php_version_in(vs.skip(i as int)) == Some(v@));
                return Some(crate::text::string_from(&v));
            }
            assert(php_line_version(t@) is None);
        } else {
            assert(php_line_version(t@) is None);
        }
        i += 1;
    }
    None
}

/// The statuses of installed plugins.
pub open spec fn installed_status(s: Seq<char>) -> bool {
    s == "active"@ || s == "inactive"@ || s == "active-network"@
}

/// The installed plugins, in order.
pub open spec fn installed(ps: Seq<WpPlugin>) -> Seq<WpPlugin>
    decreases ps.len(),
{
    if ps.len() == 0 {
        seq![]
    } else {
        installed(ps.drop_last()) + if installed_status(ps.last().status@) {
            seq![ps.last()]
        } else {
            seq![]
        }
    }
}

/// The plugin list: none when WP-CLI gave no answer, an error when its
/// answer could not be read, else the installed plugins (active, inactive
/// or network-active; not must-use or drop-ins).
pub fn plugins_from(answer: Option<Result<Vec<WpPlugin>, String>>) -> (r: Result<
    Vec<WpPlugin>,
    BlueprintError,
>)
    ensures
        match answer {
            None => r matches Ok(v) && v@.len() == 0,
            Some(Err(e)) => r matches Err(BlueprintError::Parse(m)) && m@
                == "Failed to parse plugin list: "@ + e@,
            Some(Ok(ps)) => r matches Ok(v) && v@ == installed(ps@),
        },
{
    match answer {
        None => Ok(Vec::new()),
        Some(Err(e)) => {
            let mut m = String::new();
            append(&mut m, "Failed to parse plugin list: ");
            append(&mut m, e.as_str());
            Err(BlueprintError::Parse(m))
        },
        Some(Ok(ps)) => {
            let mut out: Vec<WpPlugin> = Vec::new();
            let mut i: usize = 0;
            while i < ps.len()
                invariant
                    i <= ps@.len(),
                    out@ == installed(ps@.take(i as int)),
                decreases ps.len() - i,
            {
                assert(ps@.take(i + 1).drop_last() =~= ps@.take(i as int));
                let st = ps[i].status.as_str();
                let ghost o = out@;
                if str_eq(st, "active") || str_eq(st, "inactive") || str_eq(st, "active-network") {
                    out.push(WpPlugin { name: ps[i].name.clone(), status: ps[i].status.clone() });
                    assert(out@ =~= o + seq![ps@[i as int]]);
                } else {
                    assert(out@ =~= o + Seq::<WpPlugin>::empty());
                }
                i += 1;
            }
            assert(ps@.take(ps@.len() as int) =~= ps@);
            Ok(out)
        },
    }
}

/// The theme list: none when WP-CLI gave no answer, an error when its
/// answer could not be read, else all themes.
pub fn themes_from(answer: Option<Result<Vec<WpTheme>, String>>) -> (r: Result<
    Vec<WpTheme>,
    BlueprintError,
>)
    ensures
        match answer {
            None => r matches Ok(v) && v@.len() == 0,
            Some(Err(e)) => r matches Err(BlueprintError::Parse(m)) && m@
                == "Failed to parse theme list: "@ + e@,
            Some(Ok(ts)) => r matches Ok(v) && v@ == ts@,
        },
{
    match answer {
        None => Ok(Vec::new()),
        Some(Err(e)) => {
            let mut m = String::new();
            append(&mut m, "Failed to parse theme list: ");
            append(&mut m, e.as_str());
            Err(BlueprintError::Parse(m))
        },
        Some(Ok(ts)) => Ok(ts),
    }
}

/// The options asked of the site, in order.
pub open spec fn spec_site_option_keys() -> Seq<Seq<char>> {
    seq![
        "blogname"@,
        "blogdescription"@,
        "permalink_structure"@,
        "timezone_string"@,
        "date_format"@,
        "time_format"@,
        "start_of_week"@,
        "posts_per_page"@,
        "default_comment_status"@,
        "default_ping_status"@,
        "show_on_front"@,
        "page_on_front"@,
        "page_for_posts"@,
        "WPLANG"@,
    ]
}

/// The options asked of the site, in order.
pub fn site_option_keys() -> (r: Vec<&'static str>)
    ensures
        r@.len() == spec_site_option_keys().len(),
        forall|i: int| 0 <= i < r@.len() ==> #[trigger] r@[i]@ == spec_site_option_keys()[i],
{
    vec![
        "blogname",
        "blogdescription",
        "permalink_structure",
        "timezone_string",
        "date_format",
        "time_format",
        "start_of_week",
        "posts_per_page",
        "default_comment_status",
        "default_ping_status",
        "show_on_front",
        "page_on_front",
        "page_for_posts",
        "WPLANG",
    ]
}

/// The options that have a non-blank value, trimmed, in order.
pub open spec fn answered_options(keys: Seq<Seq<char>>, answers: Seq<Option<String>>) -> Seq<(Seq<char>, Seq<char>)>
    decreases answers.len(),
{
    if answers.len() == 0 || keys.len() < answers.len() {
        seq![]
    } else {
        let i = answers.len() - 1;
        answered_options(keys, answers.drop_last()) + match answers.last() {
            Some(v) => if trim(v@).len() > 0 {
                seq![(keys[i], trim(v@))]
            } else {
                seq![]
            },
            None => seq![],
        }
    }
}

/// The views of key/value pairs.
pub open spec fn pair_views(ps: Seq<(String, String)>) -> Seq<(Seq<char>, Seq<char>)> {
    Seq::new(ps.len(), |i: int| (ps[i].0@, ps[i].1@))
}

/// The site options from the answers to [`site_option_keys`].
pub fn site_options_from(answers: &Vec<Option<String>>) -> (r: Vec<(String, String)>)
    requires
        answers@.len() == spec_site_option_keys().len(),
    ensures
        pair_views(r@) == answered_options(spec_site_option_keys(), answers@),
{
    let keys = site_option_keys();
    let mut out: Vec<(String, String)> = Vec::new();
    let mut i: usize = 0;
    while i < answers.len()
        invariant
            i <= answers@.len() == keys@.len() == spec_site_option_keys().len(),
            forall|j: int| 0 <= j < keys@.len() ==> #[trigger] keys@[j]@ == spec_site_option_keys()[j],
            pair_views(out@) == answered_options(spec_site_option_keys(), answers@.take(i as int)),
        decreases answers.len() - i,
    {
        assert(answers@.take(i + 1).drop_last() =~= answers@.take(i as int));
        assert(answers@.take(i + 1).last() == answers@[i as int]);
        let ghost o = out@;
        match &answers[i] {
            Some(v) => {
                let t = str_trim(v.as_str());
                if !t.as_str().is_empty() {
                    let k = String::from_str(keys[i]);
                    out.push((k, t));
                    assert(pair_views(out@) =~= pair_views(o) + seq![(spec_site_option_keys()[i as int], trim(v@))]);
                } else {
                    assert(pair_views(out@) =~= pair_views(o) + Seq::<(Seq<char>, Seq<char>)>::empty());
                }
            },
            None => {
                assert(pair_views(out@) =~= pair_views(o) + Seq::<(Seq<char>, Seq<char>)>::empty());
            },
        }
        i += 1;
    }
    assert(answers@.take(answers@.len() as int) =~= answers@);
    out
}

/// Constants managed by WordPress/DDEV, skipped during generation.
pub open spec fn skip_constants() -> Seq<Seq<char>> {
    seq![
        "ABSPATH"@,
        "DB_NAME"@,
        "DB_USER"@,
        "DB_PASSWORD"@,
        "DB_HOST"@,
        "DB_CHARSET"@,
        "DB_COLLATE"@,
        "AUTH_KEY"@,
        "SECURE_AUTH_KEY"@,
        "LOGGED_IN_KEY"@,
        "NONCE_KEY"@,
        "AUTH_SALT"@,
        "SECURE_AUTH_SALT"@,
        "LOGGED_IN_SALT"@,
        "NONCE_SALT"@,
        "WP_HOME"@,
        "WP_SITEURL"@,
        "table_prefix"@,
    ]
}

/// Whether a config entry is a custom constant with a value.
pub open spec fn custom_constant(e: WpConfigEntry) -> bool {
    e.entry_type@ == "constant"@ && !skip_constants().contains(e.name@) && e.value@.len() > 0
}

/// A map with a key set: an existing key keeps its place and takes the new
/// value; a new key goes at the end.
pub open spec fn upsert(m: Seq<(Seq<char>, Seq<char>)>, k: Seq<char>, v: Seq<char>) -> Seq<(Seq<char>, Seq<char>)>
    decreases m.len(),
{
    if m.len() == 0 {
        seq![(k, v)]
    } else if m[0].0 == k {
        seq![(k, v)] + m.drop_first()
    } else {
        seq![m[0]] + upsert(m.drop_first(), k, v)
    }
}

/// The custom constants, each name once with its last value.
pub open spec fn constants_of(es: Seq<WpConfigEntry>) -> Seq<(Seq<char>, Seq<char>)>
    decreases es.len(),
{
    if es.len() == 0 {
        seq![]
    } else if custom_constant(es.last()) {
        upsert(constants_of(es.drop_last()), es.last().name@, es.last().value@)
    } else {
        constants_of(es.drop_last())
    }
}

/// Setting a key past a prefix that does not hold it.
proof fn lemma_upsert_skip(m: Seq<(Seq<char>, Seq<char>)>, k: Seq<char>, v: Seq<char>, i: int)
    requires
        0 <= i <= m.len(),
        forall|j: int| 0 <= j < i ==> m[j].0 != k,
    ensures
        upsert(m, k, v) == m.take(i) + upsert(m.skip(i), k, v),
    decreases i,
{
    if i == 0 {
        assert(m.take(0) =~= Seq::<(Seq<char>, Seq<char>)>::empty());
        assert(m.skip(0) =~= m);
    } else {
        let t = m.drop_first();
        lemma_upsert_skip(t, k, v, i - 1);
        assert(m[0].0 != k);
        assert(t.take(i - 1) =~= m.take(i).drop_first());
        assert(t.skip(i - 1) =~= m.skip(i));
        assert(m.take(i) =~= seq![m[0]] + t.take(i - 1));
    }
}

/// Sets a key in a list of pairs.
fn upsert_exec(m: &mut Vec<(String, String)>, k: String, v: String)
    ensures
        pair_views(final(m)@) == upsert(pair_views(old(m)@), k@, v@),
{
    let ghost m0 = pair_views(m@);
    let ghost kk = k@;
    let ghost vv = v@;
    let mut i: usize = 0;
    while i < m.len()
        invariant
            i <= m@.len(),
            pair_views(m@) == m0,
            kk == k@,
            vv == v@,
            m0 == pair_views(old(m)@),
            forall|j: int| 0 <= j < i ==> m0[j].0 != k@,
        decreases m.len() - i,
    {
        if str_eq(m[i].0.as_str(), k.as_str()) {
            proof {
                lemma_upsert_skip(m0, k@, v@, i as int);
                let s = m0.skip(i as int);
                assert(s[0].0 == k@);
                assert(upsert(s, k@, v@) == seq![(k@, v@)] + s.drop_first());
            }
            let kv = (k, v);
            m.set(i, kv);
            proof {
                assert(pair_views(m@) =~= m0.take(i as int) + (seq![(kk, vv)] + m0.skip(i as int).drop_first()));
                assert(pair_views(m@) == upsert(m0, kk, vv));
            }
            return;
        }
        i += 1;
    }
    proof {
        lemma_upsert_skip(m0, k@, v@, i as int);
        assert(m0.skip(i as int) =~= Seq::<(Seq<char>, Seq<char>)>::empty());
        assert(m0.take(i as int) =~= m0);
    }
    let kv = (k, v);
    m.push(kv);
    assert(pair_views(m@) =~= m0 + seq![(kv.0@, kv.1@)]);
}

/// Whether `s` is one of the listed names.
fn listed(s: &str, names: &[&str]) -> (r: bool)
    ensures
        r == (exists|i: int| 0 <= i < names@.len() && #[trigger] names@[i]@ == s@),
{
    let mut i: usize = 0;
    while i < names.len()
        invariant
            i <= names@.len(),
            forall|j: int| 0 <= j < i ==> #[trigger] names@[j]@ != s@,
        decreases names.len() - i,
    {
        if str_eq(names[i], s) {
            return true;
        }
        i += 1;
    }
    false
}

/// The custom `wp-config.php` constants of `wp config list`: constants
/// (not variables) that WordPress and DDEV do not manage, with a value.
pub fn constants_from(entries: Option<Vec<WpConfigEntry>>) -> (r: Vec<(String, String)>)
    ensures
        pair_views(r@) == match entries {
            Some(es) => constants_of(es@),
            None => seq![],
        },
{
    let es = match entries {
        Some(es) => es,
        None => {
            let r: Vec<(String, String)> = Vec::new();
            assert(pair_views(r@) =~= Seq::<(Seq<char>, Seq<char>)>::empty());
            return r;
        },
    };
    let skip: [&str; 18] = [
        "ABSPATH",
        "DB_NAME",
        "DB_USER",
        "DB_PASSWORD",
        "DB_HOST",
        "DB_CHARSET",
        "DB_COLLATE",
        "AUTH_KEY",
        "SECURE_AUTH_KEY",
        "LOGGED_IN_KEY",
        "NONCE_KEY",
        "AUTH_SALT",
        "SECURE_AUTH_SALT",
        "LOGGED_IN_SALT",
        "NONCE_SALT",
        "WP_HOME",
        "WP_SITEURL",
        "table_prefix",
    ];
    let mut out: Vec<(String, String)> = Vec::new();
    assert(pair_views(out@) =~= Seq::<(Seq<char>, Seq<char>)>::empty());
    let mut i: usize = 0;
    while i < es.len()
        invariant
            i <= es@.len(),
            forall|j: int| 0 <= j < skip@.len() ==> #[trigger] skip@[j]@ == skip_constants()[j],
            skip@.len() == skip_constants().len(),
            pair_views(out@) == constants_of(es@.take(i as int)),
        decreases es.len() - i,
    {
        assert(es@.take(i + 1).drop_last() =~= es@.take(i as int));
        assert(es@.take(i + 1).last() == es@[i as int]);
        let e = &es[i];
        let skipped = listed(e.name.as_str(), &skip);
        assert(skipped == skip_constants().contains(e.name@)) by {
            if skipped {
                let j = choose|j: int| 0 <= j < skip@.len() && #[trigger] skip@[j]@ == e.name@;
                assert(skip_constants()[j] == e.name@);
            }
            if skip_constants().contains(e.name@) {
                let j = choose|j: int| 0 <= j < skip_constants().len() && skip_constants()[j] == e.name@;
                assert(skip@[j]@ == e.name@);
            }
        }
        if str_eq(e.entry_type.as_str(), "constant") && !skipped && !e.value.as_str().is_empty() {
            upsert_exec(&mut out, e.name.clone(), e.value.clone());
        }
        i += 1;
    }
    assert(es@.take(es@.len() as int) =~= es@);
    out
}


// ---------------------------------------------------------------------------
// The blueprint
// ---------------------------------------------------------------------------

/// The last component of a path, as `std::path::Path::file_name` gives it
/// (none for a path ending in `..`, or for the root).
pub uninterp spec fn path_file_name(path: Seq<char>) -> Option<Seq<char>>;

/// Calls `std::path::Path::file_name`. The contract claims only that the
/// result is a function of the path, named `path_file_name`.
#[verifier::external_body]
fn file_name(path: &str) -> (r: Option<String>)
    ensures
        r matches Some(n) ==> path_file_name(path@) == Some(n@),
        r is None ==> path_file_name(path@) is None,
{
    match std::path::Path::new(path).file_name() {
        Some(n) => Some(n.to_string_lossy().into_owned()),
        None => None,
    }
}

/// The value of the first pair with key `k`.
pub open spec fn lookup(ps: Seq<(Seq<char>, Seq<char>)>, k: Seq<char>) -> Option<Seq<char>>
    decreases ps.len(),
{
    if ps.len() == 0 {
        None
    } else if ps[0].0 == k {
        Some(ps[0].1)
    } else {
        lookup(ps.drop_first(), k)
    }
}

/// A JSON object with one member.
pub open spec fn obj1(k: Seq<char>, v: Json) -> Json {
    Json::Obj(seq![(k, v)])
}

/// The plugins WordPress ships with.
pub open spec fn default_plugin(name: Seq<char>) -> bool {
    name == "akismet"@ || name == "hello"@
}

/// The themes WordPress ships with.
pub open spec fn default_theme(name: Seq<char>) -> bool {
    starts_with(name, "twentytwenty"@) || starts_with(name, "twentynineteen"@) || starts_with(
        name,
        "twentyseventeen"@,
    )
}

/// An install step of a plugin or theme from wordpress.org.
pub open spec fn install_step(step: Seq<char>, data_key: Seq<char>, resource: Seq<char>, slug: Seq<char>, activate: bool) -> Json {
    Json::Obj(
        seq![
            ("step"@, Json::Str(step)),
            (data_key, Json::Obj(seq![("resource"@, Json::Str(resource)), ("slug"@, Json::Str(slug))])),
            ("options"@, obj1("activate"@, Json::Bool(activate))),
        ],
    )
}

/// The plugin install steps: every plugin but the bundled ones, activated
/// when it is active (or network-active).
pub open spec fn plugin_steps_json(ps: Seq<WpPlugin>) -> Seq<Json>
    decreases ps.len(),
{
    if ps.len() == 0 {
        seq![]
    } else {
        let p = ps.last();
        plugin_steps_json(ps.drop_last()) + if default_plugin(p.name@) {
            seq![]
        } else {
            seq![
                install_step(
                    "installPlugin"@,
                    "pluginData"@,
                    "wordpress.org/plugins"@,
                    p.name@,
                    p.status@ == "active"@ || p.status@ == "active-network"@,
                ),
            ]
        }
    }
}

/// The theme install steps: every theme but inactive bundled ones,
/// activated when it is active.
pub open spec fn theme_steps_json(ts: Seq<WpTheme>) -> Seq<Json>
    decreases ts.len(),
{
    if ts.len() == 0 {
        seq![]
    } else {
        let t = ts.last();
        theme_steps_json(ts.drop_last()) + if default_theme(t.name@) && t.status@ != "active"@ {
            seq![]
        } else {
            seq![
                install_step(
                    "installTheme"@,
                    "themeData"@,
                    "wordpress.org/themes"@,
                    t.name@,
                    t.status@ == "active"@,
                ),
            ]
        }
    }
}

/// The language step, for a language other than US English.
pub open spec fn language_steps(lang: Option<Seq<char>>) -> Seq<Json> {
    match lang {
        Some(l) => if trim(l).len() > 0 && trim(l) != "en_US"@ {
            seq![Json::Obj(seq![("step"@, Json::Str("setSiteLanguage"@)), ("language"@, Json::Str(trim(l)))])]
        } else {
            seq![]
        },
        None => seq![],
    }
}

/// The site options a blueprint carries.
pub open spec fn carried_option(k: Seq<char>) -> bool {
    spec_site_option_keys().contains(k) && k != "WPLANG"@
}

/// The carried options as JSON members, in order.
pub open spec fn option_members(os: Seq<(Seq<char>, Seq<char>)>) -> Seq<(Seq<char>, Json)>
    decreases os.len(),
{
    if os.len() == 0 {
        seq![]
    } else {
        option_members(os.drop_last()) + if carried_option(os.last().0) {
            seq![(os.last().0, Json::Str(os.last().1))]
        } else {
            seq![]
        }
    }
}

/// A constant's value: a boolean, an integer, or the text.
pub open spec fn constant_json(v: Seq<char>) -> Json {
    if v == "true"@ {
        Json::Bool(true)
    } else if v == "false"@ {
        Json::Bool(false)
    } else {
        match parse_signed(v, i64::MIN as int, i64::MAX as int) {
            Some(n) => Json::Int(n),
            None => Json::Str(v),
        }
    }
}

/// The constants as JSON members.
pub open spec fn constant_members(cs: Seq<(Seq<char>, Seq<char>)>) -> Seq<(Seq<char>, Json)>
    decreases cs.len(),
{
    if cs.len() == 0 {
        seq![]
    } else {
        constant_members(cs.drop_last()) + seq![(cs.last().0, constant_json(cs.last().1))]
    }
}

/// A step with a name and one member, when the member's object is not
/// empty.
pub open spec fn object_step(step: Seq<char>, key: Seq<char>, ms: Seq<(Seq<char>, Json)>) -> Seq<Json> {
    if ms.len() == 0 {
        seq![]
    } else {
        seq![Json::Obj(seq![("step"@, Json::Str(step)), (key, Json::Obj(ms))])]
    }
}

/// The steps of a generated blueprint.
pub open spec fn generated_steps(
    plugins: Seq<WpPlugin>,
    themes: Seq<WpTheme>,
    options: Seq<(Seq<char>, Seq<char>)>,
    constants: Seq<(Seq<char>, Seq<char>)>,
    language: Option<Seq<char>>,
) -> Seq<Json> {
    seq![Json::Obj(seq![("step"@, Json::Str("login"@)), ("username"@, Json::Str("admin"@))])]
        + plugin_steps_json(plugins) + theme_steps_json(themes) + language_steps(language)
        + object_step("setSiteOptions"@, "options"@, option_members(options)) + object_step(
        "defineWpConfigConsts"@,
        "consts"@,
        constant_members(constants),
    )
}

/// The preferred versions: the PHP version, and the trimmed WordPress
/// version when it is not blank.
pub open spec fn version_members(php: Option<Seq<char>>, wp: Option<Seq<char>>) -> Seq<(Seq<char>, Json)> {
    (match php {
        Some(p) => seq![("php"@, Json::Str(p))],
        None => seq![],
    }) + match wp {
        Some(w) => if trim(w).len() > 0 {
            seq![("wp"@, Json::Str(trim(w)))]
        } else {
            seq![]
        },
        None => seq![],
    }
}

/// The generated blueprint.
pub open spec fn generated_blueprint(
    project_name: Seq<char>,
    php: Option<Seq<char>>,
    wp: Option<Seq<char>>,
    plugins: Seq<WpPlugin>,
    themes: Seq<WpTheme>,
    options: Seq<(Seq<char>, Seq<char>)>,
    constants: Seq<(Seq<char>, Seq<char>)>,
    language: Option<Seq<char>>,
) -> Json {
    let blogname = match lookup(options, "blogname"@) {
        Some(b) => b,
        None => project_name,
    };
    let versions = version_members(php, wp);
    Json::Obj(
        seq![
            ("$schema"@, Json::Str("https://playground.wordpress.net/blueprint-schema.json"@)),
            (
                "meta"@,
                Json::Obj(
                    seq![
                        ("title"@, Json::Str(blogname)),
                        ("description"@, Json::Str("Blueprint generated from "@ + project_name)),
                    ],
                ),
            ),
            ("landingPage"@, Json::Str("/wp-admin/"@)),
        ] + (if versions.len() > 0 {
            seq![("preferredVersions"@, Json::Obj(versions))]
        } else {
            seq![]
        }) + seq![
            ("features"@, obj1("networking"@, Json::Bool(true))),
            ("steps"@, Json::Arr(generated_steps(plugins, themes, options, constants, language))),
        ],
    )
}

/// A JSON object `{key: value}`.
fn obj_of(key: &str, v: JsonValue) -> (r: JsonValue)
    ensures
        jview(r) == obj1(key@, jview(v)),
{
    let mut ms: Vec<(String, JsonValue)> = Vec::new();
    let m = member(key, v);
    let ghost mv = m;
    ms.push(m);
    proof {
        lemma_jview_members_push(Seq::empty(), mv);
        assert(Seq::<(String, JsonValue)>::empty().push(mv) =~= ms@);
        assert(jview_members(Seq::<(String, JsonValue)>::empty()) =~= Seq::<(Seq<char>, Json)>::empty());
    }
    let r = jobj(ms);
    assert(jview_members(ms@) =~= seq![(key@, jview(mv.1))]);
    r
}

/// Builds a JSON object from members, in order.
fn push_member(ms: &mut Vec<(String, JsonValue)>, key: &str, v: JsonValue)
    ensures
        jview_members(final(ms)@) == jview_members(old(ms)@) + seq![(key@, jview(v))],
{
    let m = member(key, v);
    let ghost o = ms@;
    let ghost mv = m;
    ms.push(m);
    proof {
        lemma_jview_members_push(o, mv);
    }
}

/// Builds a JSON array, in order.
fn push_item(items: &mut Vec<JsonValue>, v: JsonValue)
    ensures
        jview_items(final(items)@) == jview_items(old(items)@) + seq![jview(v)],
{
    let ghost o = items@;
    let ghost x = v;
    items.push(v);
    proof {
        lemma_jview_items_push(o, x);
    }
}

/// An install step.
fn install_step_exec(step: &str, data_key: &str, resource: &str, slug: &str, activate: bool) -> (r:
    JsonValue)
    ensures
        jview(r) == install_step(step@, data_key@, resource@, slug@, activate),
{
    proof {
        assert(jview_members(Seq::<(String, JsonValue)>::empty()) =~= Seq::<(Seq<char>, Json)>::empty());
    }
    let mut data: Vec<(String, JsonValue)> = Vec::new();
    push_member(&mut data, "resource", jstr(resource));
    push_member(&mut data, "slug", jstr(slug));
    assert(jview_members(data@) =~= seq![("resource"@, Json::Str(resource@)), ("slug"@, Json::Str(slug@))]);
    let d = jobj(data);
    assert(jview(d) == Json::Obj(seq![("resource"@, Json::Str(resource@)), ("slug"@, Json::Str(slug@))]));
    let o = obj_of("activate", JsonValue::Bool(activate));
    assert(jview(o) == obj1("activate"@, Json::Bool(activate)));
    let mut ms: Vec<(String, JsonValue)> = Vec::new();
    push_member(&mut ms, "step", jstr(step));
    push_member(&mut ms, data_key, d);
    push_member(&mut ms, "options", o);
    assert(jview_members(ms@) =~= seq![
        ("step"@, Json::Str(step@)),
        (data_key@, Json::Obj(seq![("resource"@, Json::Str(resource@)), ("slug"@, Json::Str(slug@))])),
        ("options"@, obj1("activate"@, Json::Bool(activate))),
    ]);
    jobj(ms)
}

/// The value of the first pair with key `k`.
fn lookup_exec(ps: &Vec<(String, String)>, k: &str) -> (r: Option<String>)
    ensures
        r matches Some(v) ==> lookup(pair_views(ps@), k@) == Some(v@),
        r is None ==> lookup(pair_views(ps@), k@) is None,
{
    let ghost pv = pair_views(ps@);
    let mut i: usize = 0;
    assert(pv.skip(0) =~= pv);
    while i < ps.len()
        invariant
            i <= ps@.len(),
            pv == pair_views(ps@),
            lookup(pv, k@) == lookup(pv.skip(i as int), k@),
        decreases ps.len() - i,
    {
        assert(pv.skip(i as int)[0] == (ps@[i as int].0@, ps@[i as int].1@));
        assert(pv.skip(i as int).drop_first() =~= pv.skip(i + 1));
        if str_eq(ps[i].0.as_str(), k) {
            return Some(ps[i].1.clone());
        }
        i += 1;
    }
    None
}

/// A constant's value as JSON.
fn constant_value(v: &str) -> (r: JsonValue)
    ensures
        jview(r) == constant_json(v@),
{
    if str_eq(v, "true") {
        JsonValue::Bool(true)
    } else if str_eq(v, "false") {
        JsonValue::Bool(false)
    } else {
        match parse_i64(v) {
            Some(n) => if n >= 0 {
                JsonValue::Number(JsonNumber::PosInt(n as u64))
            } else {
                JsonValue::Number(JsonNumber::NegInt(n))
            },
            None => jstr(v),
        }
    }
}

/// Whether `ws` starts with one of the bundled theme prefixes.
fn is_default_theme(name: &str) -> (r: bool)
    ensures
        r == default_theme(name@),
{
    str_starts_with(name, "twentytwenty") || str_starts_with(name, "twentynineteen")
        || str_starts_with(name, "twentyseventeen")
}

/// The steps of the blueprint.
fn build_steps(
    plugins: &Vec<WpPlugin>,
    themes: &Vec<WpTheme>,
    options: &Vec<(String, String)>,
    constants: &Vec<(String, String)>,
    language: &Option<String>,
) -> (r: Vec<JsonValue>)
    ensures
        jview_items(r@) == generated_steps(
            plugins@,
            themes@,
            pair_views(options@),
            pair_views(constants@),
            match language {
                Some(l) => Some(l@),
                None => None,
            },
        ),
{
    let mut steps: Vec<JsonValue> = Vec::new();
    let mut login: Vec<(String, JsonValue)> = Vec::new();
    proof {
        assert(jview_members(Seq::<(String, JsonValue)>::empty()) =~= Seq::<(Seq<char>, Json)>::empty());
        assert(jview_items(Seq::<JsonValue>::empty()) =~= Seq::<Json>::empty());
    }
    push_member(&mut login, "step", jstr("login"));
    push_member(&mut login, "username", jstr("admin"));
    assert(jview_members(login@) =~= seq![("step"@, Json::Str("login"@)), ("username"@, Json::Str("admin"@))]);
    push_item(&mut steps, jobj(login));
    let ghost s0 = jview_items(steps@);
    assert(s0 =~= seq![Json::Obj(seq![("step"@, Json::Str("login"@)), ("username"@, Json::Str("admin"@))])]);
    let mut i: usize = 0;
    while i < plugins.len()
        invariant
            i <= plugins@.len(),
            jview_items(steps@) == s0 + plugin_steps_json(plugins@.take(i as int)),
        decreases plugins.len() - i,
    {
        assert(plugins@.take(i + 1).drop_last() =~= plugins@.take(i as int));
        assert(plugins@.take(i + 1).last() == plugins@[i as int]);
        let p = &plugins[i];
        let ghost o = jview_items(steps@);
        if !(str_eq(p.name.as_str(), "akismet") || str_eq(p.name.as_str(), "hello")) {
            let activate = str_eq(p.status.as_str(), "active") || str_eq(p.status.as_str(), "active-network");
            push_item(
                &mut steps,
                install_step_exec("installPlugin", "pluginData", "wordpress.org/plugins", p.name.as_str(), activate),
            );
        } else {
            assert(jview_items(steps@) =~= o + Seq::<Json>::empty());
        }
        i += 1;
    }
    assert(plugins@.take(plugins@.len() as int) =~= plugins@);
    let ghost s1 = jview_items(steps@);
    let mut j: usize = 0;
    while j < themes.len()
        invariant
            j <= themes@.len(),
            jview_items(steps@) == s1 + theme_steps_json(themes@.take(j as int)),
        decreases themes.len() - j,
    {
        assert(themes@.take(j + 1).drop_last() =~= themes@.take(j as int));
        assert(themes@.take(j + 1).last() == themes@[j as int]);
        let t = &themes[j];
        let ghost o = jview_items(steps@);
        let active = str_eq(t.status.as_str(), "active");
        if !(is_default_theme(t.name.as_str()) && !active) {
            push_item(
                &mut steps,
                install_step_exec("installTheme", "themeData", "wordpress.org/themes", t.name.as_str(), active),
            );
        } else {
            assert(jview_items(steps@) =~= o + Seq::<Json>::empty());
        }
        j += 1;
    }
    assert(themes@.take(themes@.len() as int) =~= themes@);
    let ghost s2 = jview_items(steps@);
    match language {
        Some(l) => {
            let t = str_trim(l.as_str());
            if !t.as_str().is_empty() && !str_eq(t.as_str(), "en_US") {
                let mut ms: Vec<(String, JsonValue)> = Vec::new();
                proof {
                    assert(jview_members(Seq::<(String, JsonValue)>::empty()) =~= Seq::<(Seq<char>, Json)>::empty());
                }
                push_member(&mut ms, "step", jstr("setSiteLanguage"));
                push_member(&mut ms, "language", jstr(t.as_str()));
                assert(jview_members(ms@) =~= seq![("step"@, Json::Str("setSiteLanguage"@)), ("language"@, Json::Str(t@))]);
                push_item(&mut steps, jobj(ms));
                assert(jview_items(steps@) =~= s2 + language_steps(Some(l@)));
            } else {
                assert(jview_items(steps@) =~= s2 + language_steps(Some(l@)));
            }
        },
        None => {
            assert(jview_items(steps@) =~= s2 + Seq::<Json>::empty());
        },
    }
    let ghost s3 = jview_items(steps@);
    let keys = site_option_keys();
    let mut opts: Vec<(String, JsonValue)> = Vec::new();
    assert(jview_members(opts@) =~= Seq::<(Seq<char>, Json)>::empty());
    let mut k: usize = 0;
    while k < options.len()
        invariant
            k <= options@.len(),
            keys@.len() == spec_site_option_keys().len(),
            forall|x: int| 0 <= x < keys@.len() ==> #[trigger] keys@[x]@ == spec_site_option_keys()[x],
            jview_members(opts@) == option_members(pair_views(options@).take(k as int)),
        decreases options.len() - k,
    {
        let ghost pv = pair_views(options@);
        assert(pv.take(k + 1).drop_last() =~= pv.take(k as int));
        assert(pv.take(k + 1).last() == (options@[k as int].0@, options@[k as int].1@));
        let key = options[k].0.as_str();
        let carried = listed(key, keys.as_slice()) && !str_eq(key, "WPLANG");
        assert(carried == carried_option(key@)) by {
            if spec_site_option_keys().contains(key@) {
                let x = choose|x: int| 0 <= x < spec_site_option_keys().len() && spec_site_option_keys()[x] == key@;
                assert(keys@[x]@ == key@);
            }
            if exists|x: int| 0 <= x < keys@.len() && #[trigger] keys@[x]@ == key@ {
                let x = choose|x: int| 0 <= x < keys@.len() && #[trigger] keys@[x]@ == key@;
                assert(spec_site_option_keys()[x] == key@);
            }
        }
        let ghost o = jview_members(opts@);
        if carried {
            push_member(&mut opts, key, jstr(options[k].1.as_str()));
        } else {
            assert(jview_members(opts@) =~= o + Seq::<(Seq<char>, Json)>::empty());
        }
        k += 1;
    }
    assert(pair_views(options@).take(options@.len() as int) =~= pair_views(options@));
    if opts.len() > 0 {
        let mut ms: Vec<(String, JsonValue)> = Vec::new();
        proof {
            assert(jview_members(Seq::<(String, JsonValue)>::empty()) =~= Seq::<(Seq<char>, Json)>::empty());
        }
        let ghost om = jview_members(opts@);
        push_member(&mut ms, "step", jstr("setSiteOptions"));
        push_member(&mut ms, "options", jobj(opts));
        assert(jview_members(ms@) =~= seq![("step"@, Json::Str("setSiteOptions"@)), ("options"@, Json::Obj(om))]);
        push_item(&mut steps, jobj(ms));
    } else {
        assert(jview_items(steps@) =~= s3 + Seq::<Json>::empty());
    }
    let ghost s4 = jview_items(steps@);
    let mut consts: Vec<(String, JsonValue)> = Vec::new();
    assert(jview_members(consts@) =~= Seq::<(Seq<char>, Json)>::empty());
    let mut c: usize = 0;
    while c < constants.len()
        invariant
            c <= constants@.len(),
            jview_members(consts@) == constant_members(pair_views(constants@).take(c as int)),
        decreases constants.len() - c,
    {
        let ghost pv = pair_views(constants@);
        assert(pv.take(c + 1).drop_last() =~= pv.take(c as int));
        assert(pv.take(c + 1).last() == (constants@[c as int].0@, constants@[c as int].1@));
        push_member(&mut consts, constants[c].0.as_str(), constant_value(constants[c].1.as_str()));
        c += 1;
    }
    assert(pair_views(constants@).take(constants@.len() as int) =~= pair_views(constants@));
    if consts.len() > 0 {
        let mut ms: Vec<(String, JsonValue)> = Vec::new();
        proof {
            assert(jview_members(Seq::<(String, JsonValue)>::empty()) =~= Seq::<(Seq<char>, Json)>::empty());
        }
        let ghost cm = jview_members(consts@);
        push_member(&mut ms, "step", jstr("defineWpConfigConsts"));
        push_member(&mut ms, "consts", jobj(consts));
        assert(jview_members(ms@) =~= seq![("step"@, Json::Str("defineWpConfigConsts"@)), ("consts"@, Json::Obj(cm))]);
        push_item(&mut steps, jobj(ms));
    } else {
        assert(jview_items(steps@) =~= s4 + Seq::<Json>::empty());
    }
    assert(jview_items(steps@) =~= generated_steps(
        plugins@,
        themes@,
        pair_views(options@),
        pair_views(constants@),
        match language {
            Some(l) => Some(l@),
            None => None,
        },
    ));
    steps
}

impl BlueprintGenerator {
    /// A generator for the project at `project_path`.
    pub fn new(project_path: String) -> (r: Self)
        ensures
            r.project_path == project_path,
    {
        BlueprintGenerator { project_path }
    }

    /// The project's name: its directory's name, or `wordpress`.
    pub open spec fn spec_project_name(&self) -> Seq<char> {
        match path_file_name(self.project_path@) {
            Some(n) => n,
            None => "wordpress"@,
        }
    }

    /// Generate a blueprint from what the site reported.
    pub fn generate(&self, report: SiteReport) -> (r: Result<JsonValue, BlueprintError>)
        requires
            report.option_answers@.len() == spec_site_option_keys().len(),
        ensures
            match (report.plugins, report.themes) {
                (Some(Err(e)), _) => r matches Err(BlueprintError::Parse(m)) && m@
                    == "Failed to parse plugin list: "@ + e@,
                (_, Some(Err(e))) if !(report.plugins matches Some(Err(_))) => r matches Err(
                    BlueprintError::Parse(m),
                ) && m@ == "Failed to parse theme list: "@ + e@,
                _ => r matches Ok(v) && jview(v) == generated_blueprint(
                    self.spec_project_name(),
                    match report.ddev_config {
                        Some(c) => php_version_in(lines(c@)),
                        None => None,
                    },
                    match report.wp_version {
                        Some(w) => Some(w@),
                        None => None,
                    },
                    match report.plugins {
                        Some(Ok(ps)) => installed(ps@),
                        _ => seq![],
                    },
                    match report.themes {
                        Some(Ok(ts)) => ts@,
                        _ => seq![],
                    },
                    answered_options(spec_site_option_keys(), report.option_answers@),
                    match report.config_entries {
                        Some(es) => constants_of(es@),
                        None => seq![],
                    },
                    match report.language {
                        Some(l) => Some(l@),
                        None => None,
                    },
                ),
            },
    {
        let ghost rep = report;
        let php = match &report.ddev_config {
            Some(c) => php_version_from_config(Some(c.as_str())),
            None => None,
        };
        let plugins = match plugins_from(report.plugins) {
            Ok(p) => p,
            Err(e) => return Err(e),
        };
        let themes = match themes_from(report.themes) {
            Ok(t) => t,
            Err(e) => return Err(e),
        };
        let options = site_options_from(&report.option_answers);
        let constants = constants_from(report.config_entries);
        let project_name = match file_name(self.project_path.as_str()) {
            Some(n) => n,
            None => String::from_str("wordpress"),
        };
        let blogname = match lookup_exec(&options, "blogname") {
            Some(b) => b,
            None => project_name.clone(),
        };
        proof {
            assert(jview_members(Seq::<(String, JsonValue)>::empty()) =~= Seq::<(Seq<char>, Json)>::empty());
        }
        let mut meta: Vec<(String, JsonValue)> = Vec::new();
        push_member(&mut meta, "title", jstr(blogname.as_str()));
        let mut desc = String::new();
        append(&mut desc, "Blueprint generated from ");
        append(&mut desc, project_name.as_str());
        push_member(&mut meta, "description", jstr(desc.as_str()));
        let ghost metav = jview_members(meta@);
        assert(metav =~= seq![("title"@, Json::Str(blogname@)), ("description"@, Json::Str(desc@))]);
        let mut versions: Vec<(String, JsonValue)> = Vec::new();
        match &php {
            Some(p) => push_member(&mut versions, "php", jstr(p.as_str())),
            None => {},
        }
        let ghost v0 = jview_members(versions@);
        match &report.wp_version {
            Some(w) => {
                let t = str_trim(w.as_str());
                if !t.as_str().is_empty() {
                    push_member(&mut versions, "wp", jstr(t.as_str()));
                } else {
                    assert(jview_members(versions@) =~= v0 + Seq::<(Seq<char>, Json)>::empty());
                }
            },
            None => {
                assert(jview_members(versions@) =~= v0 + Seq::<(Seq<char>, Json)>::empty());
            },
        }
        let ghost vv = jview_members(versions@);
        assert(vv =~= version_members(
            match php {
                Some(p) => Some(p@),
                None => None,
            },
            match report.wp_version {
                Some(w) => Some(w@),
                None => None,
            },
        ));
        let steps = build_steps(&plugins, &themes, &options, &constants, &report.language);
        let ghost stv = jview_items(steps@);
        let mut bp: Vec<(String, JsonValue)> = Vec::new();
        push_member(
            &mut bp,
            "$schema",
            jstr("https://playground.wordpress.net/blueprint-schema.json"),
        );
        push_member(&mut bp, "meta", jobj(meta));
        push_member(&mut bp, "landingPage", jstr("/wp-admin/"));
        let ghost b0 = jview_members(bp@);
        if versions.len() > 0 {
            push_member(&mut bp, "preferredVersions", jobj(versions));
        } else {
            assert(jview_members(bp@) =~= b0 + Seq::<(Seq<char>, Json)>::empty());
        }
        push_member(&mut bp, "features", obj_of("networking", JsonValue::Bool(true)));
        push_member(&mut bp, "steps", jarr(steps));
        assert(jview_members(bp@) =~= seq![
            ("$schema"@, Json::Str("https://playground.wordpress.net/blueprint-schema.json"@)),
            ("meta"@, Json::Obj(metav)),
            ("landingPage"@, Json::Str("/wp-admin/"@)),
        ] + (if vv.len() > 0 {
            seq![("preferredVersions"@, Json::Obj(vv))]
        } else {
            seq![]
        }) + seq![
            ("features"@, obj1("networking"@, Json::Bool(true))),
            ("steps"@, Json::Arr(stv)),
        ]);
        let r = jobj(bp);
        assert(project_name@ == file_name_spec_or(self.project_path@));
        assert(jview(r) == generated_blueprint(
            file_name_spec_or(self.project_path@),
            match php {
                Some(p) => Some(p@),
                None => None,
            },
            match report.wp_version {
                Some(w) => Some(w@),
                None => None,
            },
            plugins@,
            themes@,
            pair_views(options@),
            pair_views(constants@),
            match report.language {
                Some(l) => Some(l@),
                None => None,
            },
        ));
        Ok(r)
    }
}

/// The project name of a path.
pub open spec fn file_name_spec_or(path: Seq<char>) -> Seq<char> {
    match path_file_name(path) {
        Some(n) => n,
        None => "wordpress"@,
    }
}

} // verus!
