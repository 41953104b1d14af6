//! WordPress Playground JSON → generic blueprint converter.
//!
//! Converts a Playground blueprint (identified by its `$schema` URL or
//! top-level `steps` / `plugins` shape) into a framework-neutral
//! `GenericBlueprint`. The blueprint is read from JSON by the program; the
//! conversion of what was read is here.
use vstd::prelude::*;

use crate::blueprint::{
    json_value_to_cli_arg, plugin_slug_from_value, slug_from_resource,
    spec_json_value_to_cli_arg, spec_plugin_slug_from_value, spec_slug_from_resource,
    spec_strip_wordpress_prefix, spec_wpcli_command_string, strip_wordpress_prefix,
    wpcli_command_string,
};
use crate::json::{json_array, json_bool_opt, json_get, json_get_opt, json_object, json_object_opt,
    json_parsed, json_str, json_str_opt, json_wf, jview, parse_json, JsonValue};
use crate::text::{append, before, contains, starts_with, str_eq, str_starts_with};

verus! {

// ---------------------------------------------------------------------------
// Output types
// ---------------------------------------------------------------------------

/// Framework-neutral blueprint produced by the converter.
#[derive(Debug, Clone)]
pub struct GenericBlueprint {
    pub meta: Option<GenericMeta>,
    pub setup: Option<Vec<GenericSetupStep>>,
}

/// Name and framework of a blueprint.
#[derive(Debug, Clone)]
pub struct GenericMeta {
    pub name: Option<String>,
    pub framework: Option<String>,
}

/// A single setup step in the generic blueprint.
#[derive(Debug, Clone)]
pub struct GenericSetupStep {
    pub desc: Option<String>,
    pub run_locally: Option<String>,
    pub write_file: Option<GenericWriteFile>,
    pub mkdir: Option<String>,
    pub add_dependency: Option<String>,
    pub dev: Option<bool>,
    pub set_env: Option<Vec<(String, String)>>,
    pub cd: Option<String>,
    pub rm: Option<String>,
    pub cp: Option<GenericCopy>,
    pub patch_file: Option<GenericPatchFile>,
    pub once: Option<bool>,
}

/// A file to write.
#[derive(Debug, Clone)]
pub struct GenericWriteFile {
    pub path: String,
    pub content: Option<String>,
    pub template: Option<String>,
}

/// A copy from one path to another.
#[derive(Debug, Clone)]
pub struct GenericCopy {
    pub src: String,
    pub dest: String,
}

/// A textual patch of a file.
#[derive(Debug, Clone)]
pub struct GenericPatchFile {
    pub path: String,
    pub after: Option<String>,
    pub before: Option<String>,
    pub replace: Option<String>,
    pub content: Option<String>,
}

/// An error of the Playground converter.
pub use crate::blueprint::ConvertError;

/// What a setup step holds that the converter sets.
pub struct StepView {
    pub run_locally: Option<Seq<char>>,
    pub write_file: Option<(Seq<char>, Option<Seq<char>>)>,
    pub mkdir: Option<Seq<char>>,
    pub rm: Option<Seq<char>>,
    pub cp: Option<(Seq<char>, Seq<char>)>,
    /// Whether every other field is unset.
    pub rest_unset: bool,
}

/// The view of an optional string.
pub open spec fn ostr(o: Option<String>) -> Option<Seq<char>> {
    match o {
        Some(s) => Some(s@),
        None => None,
    }
}

impl View for GenericSetupStep {
    type V = StepView;

    open spec fn view(&self) -> StepView {
        StepView {
            run_locally: ostr(self.run_locally),
            write_file: match self.write_file {
                Some(w) => Some((w.path@, ostr(w.content))),
                None => None,
            },
            mkdir: ostr(self.mkdir),
            rm: ostr(self.rm),
            cp: match self.cp {
                Some(c) => Some((c.src@, c.dest@)),
                None => None,
            },
            rest_unset: self.desc is None && self.add_dependency is None && self.dev is None
                && self.set_env is None && self.cd is None && self.patch_file is None
                && self.once is None && (self.write_file matches Some(w) ==> w.template is None),
        }
    }
}

/// The views of a list of steps.
pub open spec fn step_views(s: Seq<GenericSetupStep>) -> Seq<StepView> {
    Seq::new(s.len(), |i: int| s[i]@)
}

/// A step with nothing set.
pub open spec fn empty_step() -> StepView {
    StepView { run_locally: None, write_file: None, mkdir: None, rm: None, cp: None, rest_unset: true }
}

/// A step that runs a shell command locally.
pub open spec fn local(cmd: Seq<char>) -> StepView {
    StepView { run_locally: Some(cmd), ..empty_step() }
}

/// A step with nothing set.
fn blank_step() -> (r: GenericSetupStep)
    ensures
        r@ == empty_step(),
{
    GenericSetupStep {
        desc: None,
        run_locally: None,
        write_file: None,
        mkdir: None,
        add_dependency: None,
        dev: None,
        set_env: None,
        cd: None,
        rm: None,
        cp: None,
        patch_file: None,
        once: None,
    }
}

/// Build a step that runs a shell command locally.
pub fn run_locally(cmd: String) -> (r: GenericSetupStep)
    ensures
        r@ == local(cmd@),
{
    let mut s = blank_step();
    s.run_locally = Some(cmd);
    s
}

// ---------------------------------------------------------------------------
// Detection
// ---------------------------------------------------------------------------

/// Whether a JSON value looks like a Playground blueprint: its `$schema`
/// names `playground.wordpress.net`, or it has a `steps` array together with
/// `plugins`, `siteOptions` or `preferredVersions`.
pub open spec fn spec_is_playground(v: JsonValue) -> bool {
    let schema_says = match json_str_opt(json_get(v, "$schema"@)) {
        Some(s) => contains(s, "playground.wordpress.net"@),
        None => false,
    };
    let has_steps = match json_get(v, "steps"@) {
        Some(x) => json_array(x) is Some,
        None => false,
    };
    let has_wp_key = json_get(v, "plugins"@) is Some || json_get(v, "siteOptions"@) is Some
        || json_get(v, "preferredVersions"@) is Some;
    schema_says || (has_steps && has_wp_key)
}

/// Heuristic: does this JSON text look like a WordPress Playground
/// blueprint? Text that is not JSON is none.
pub fn is_playground_blueprint(raw: &str) -> (r: bool)
    ensures
        match json_parsed(raw@) {
            Ok(j) => exists|v: JsonValue| #[trigger] jview(v) == j && json_wf(v) && r == spec_is_playground(v),
            Err(_) => !r,
        },
{
    match parse_json(raw) {
        Ok(v) => {
            let r = is_playground_value(Some(&v));
            assert(jview(v) == json_parsed(raw@)->Ok_0);
            r
        },
        Err(_) => false,
    }
}

/// Heuristic: does this JSON look like a WordPress Playground blueprint?
/// `parsed` is the raw text read as JSON, `None` when it is not JSON (which
/// is no blueprint).
pub fn is_playground_value(parsed: Option<&JsonValue>) -> (r: bool)
    ensures
        r == match parsed {
            Some(v) => spec_is_playground(*v),
            None => false,
        },
{
    let v = match parsed {
        Some(v) => v,
        None => return false,
    };
    match v.get("$schema") {
        Some(s) => match s.as_str() {
            Some(t) => if crate::text::str_contains(t, "playground.wordpress.net") {
                return true;
            },
            None => {},
        },
        None => {},
    }
    let has_steps = match v.get("steps") {
        Some(x) => x.as_array().is_some(),
        None => false,
    };
    let has_wp_key = v.get("plugins").is_some() || v.get("siteOptions").is_some() || v.get(
        "preferredVersions",
    ).is_some();
    has_steps && has_wp_key
}

// ---------------------------------------------------------------------------
// Steps
// ---------------------------------------------------------------------------

/// The install step of a plugin or theme: its slug from the resource, else
/// from the zip resource, else `unknown-<type>`; activated unless
/// `options.activate` is `false`.
pub open spec fn wp_install(obj: JsonValue, wp_type: Seq<char>, data_key: Seq<char>, zip_key: Seq<char>) -> StepView {
    let slug = match spec_slug_from_resource(json_get(obj, data_key)) {
        Some(s) => s,
        None => match spec_slug_from_resource(json_get(obj, zip_key)) {
            Some(s) => s,
            None => "unknown-"@ + wp_type,
        },
    };
    let activate = match json_bool_opt(json_get_opt(json_get(obj, "options"@), "activate"@)) {
        Some(b) => b,
        None => true,
    };
    local("wp "@ + wp_type + " install "@ + slug + if activate {
        " --activate"@
    } else {
        seq![]
    })
}

/// The option-update steps of an options object, in member order.
pub open spec fn option_updates(ms: Seq<(String, JsonValue)>) -> Seq<StepView>
    decreases ms.len(),
{
    if ms.len() == 0 {
        seq![]
    } else {
        option_updates(ms.drop_last()) + seq![
            local(
                "wp option update "@ + ms.last().0@ + " "@ + spec_json_value_to_cli_arg(
                    ms.last().1,
                ),
            ),
        ]
    }
}

/// A `wp-cli` command, prefixed with `wp ` when it does not start with it.
pub open spec fn full_wp_command(cmd: Seq<char>) -> Seq<char> {
    if starts_with(cmd, "wp "@) || cmd == "wp"@ {
        cmd
    } else {
        "wp "@ + cmd
    }
}

/// A string member, or a default.
pub open spec fn str_member_or(obj: JsonValue, key: Seq<char>, d: Seq<char>) -> Seq<char> {
    match json_str_opt(json_get(obj, key)) {
        Some(s) => s,
        None => d,
    }
}

/// The steps a Playground step becomes, before empty results are dropped;
/// `None` when the step has no type or its required members are missing.
pub open spec fn step_steps(obj: JsonValue) -> Option<Seq<StepView>> {
    match json_str_opt(json_get(obj, "step"@)) {
        None => None,
        Some(t) => if t == "installPlugin"@ {
            Some(seq![wp_install(obj, "plugin"@, "pluginData"@, "pluginZipFile"@)])
        } else if t == "installTheme"@ {
            Some(seq![wp_install(obj, "theme"@, "themeData"@, "themeZipFile"@)])
        } else if t == "activatePlugin"@ {
            Some(
                seq![
                    local(
                        "wp plugin activate "@ + before(
                            str_member_or(obj, "pluginPath"@, "unknown"@),
                            seq!['/'],
                        ),
                    ),
                ],
            )
        } else if t == "activateTheme"@ {
            Some(seq![local("wp theme activate "@ + str_member_or(obj, "themeFolderName"@, "unknown"@))])
        } else if t == "setSiteOptions"@ {
            match json_object_opt(json_get(obj, "options"@)) {
                Some(ms) => Some(option_updates(ms)),
                None => None,
            }
        } else if t == "setSiteLanguage"@ {
            Some(
                seq![
                    local(
                        "wp language core install "@ + str_member_or(obj, "language"@, "en_US"@)
                            + " --activate"@,
                    ),
                ],
            )
        } else if t == "writeFile"@ {
            Some(
                seq![
                    StepView {
                        write_file: Some(
                            (
                                spec_strip_wordpress_prefix(str_member_or(obj, "path"@, seq![])),
                                json_str_opt(json_get(obj, "data"@)),
                            ),
                        ),
                        ..empty_step()
                    },
                ],
            )
        } else if t == "mkdir"@ {
            Some(
                seq![
                    StepView {
                        mkdir: Some(spec_strip_wordpress_prefix(str_member_or(obj, "path"@, seq![]))),
                        ..empty_step()
                    },
                ],
            )
        } else if t == "wp-cli"@ {
            match json_get(obj, "command"@) {
                Some(c) => Some(seq![local(full_wp_command(spec_wpcli_command_string(c)))]),
                None => None,
            }
        } else if t == "runSql"@ {
            Some(seq![local("wp db query"@)])
        } else if t == "runPHP"@ {
            Some(seq![local("wp eval"@)])
        } else if t == "cp"@ {
            Some(
                seq![
                    StepView {
                        cp: Some(
                            (
                                str_member_or(obj, "fromPath"@, seq![]),
                                str_member_or(obj, "toPath"@, seq![]),
                            ),
                        ),
                        ..empty_step()
                    },
                ],
            )
        } else if t == "mv"@ {
            Some(
                seq![
                    local(
                        "mv "@ + str_member_or(obj, "fromPath"@, seq![]) + " "@ + str_member_or(
                            obj,
                            "toPath"@,
                            seq![],
                        ),
                    ),
                ],
            )
        } else if t == "rm"@ || t == "rmdir"@ {
            Some(seq![StepView { rm: Some(str_member_or(obj, "path"@, seq![])), ..empty_step() }])
        } else {
            Some(seq![])
        },
    }
}

/// The steps a Playground step becomes; `None` for a value that is not an
/// object, has no step type, lacks what the type needs, or gives no step.
pub open spec fn spec_convert_step(v: JsonValue) -> Option<Seq<StepView>> {
    if json_object(v) is None {
        None
    } else {
        match step_steps(v) {
            Some(s) => if s.len() == 0 {
                None
            } else {
                Some(s)
            },
            None => None,
        }
    }
}

/// A `cp` step copies from its `fromPath` to its `toPath`: it becomes one
/// generic step, whose copy has the `fromPath` string as its source and
/// the `toPath` string as its destination, and nothing else set.
pub proof fn law_cp_copies_from_to(obj: JsonValue, from: String, to: String)
    requires
        obj is Object,
        json_get(obj, "step"@) matches Some(JsonValue::String(t)) && t@ == "cp"@,
        json_get(obj, "fromPath"@) == Some(JsonValue::String(from)),
        json_get(obj, "toPath"@) == Some(JsonValue::String(to)),
    ensures
        spec_convert_step(obj) matches Some(steps) && steps.len() == 1 && steps[0].cp == Some(
            (from@, to@),
        ) && steps[0].run_locally is None && steps[0].write_file is None && steps[0].mkdir is None
            && steps[0].rm is None && steps[0].rest_unset,
{
    reveal_strlit("cp");
    reveal_strlit("installPlugin");
    reveal_strlit("installTheme");
    reveal_strlit("activatePlugin");
    reveal_strlit("activateTheme");
    reveal_strlit("setSiteOptions");
    reveal_strlit("setSiteLanguage");
    reveal_strlit("writeFile");
    reveal_strlit("mkdir");
    reveal_strlit("wp-cli");
    reveal_strlit("runSql");
    reveal_strlit("runPHP");
    assert("cp"@.len() == 2);
    assert("cp"@ != "installPlugin"@ && "cp"@ != "installTheme"@ && "cp"@ != "activatePlugin"@);
    assert("cp"@ != "activateTheme"@ && "cp"@ != "setSiteOptions"@ && "cp"@ != "setSiteLanguage"@);
    assert("cp"@ != "writeFile"@ && "cp"@ != "mkdir"@ && "cp"@ != "wp-cli"@);
    assert("cp"@ != "runSql"@ && "cp"@ != "runPHP"@);
}

/// A string member, or a default, owned.
fn member_or(obj: &JsonValue, key: &str, d: &str) -> (r: String)
    ensures
        r@ == str_member_or(*obj, key@, d@),
{
    match obj.get(key) {
        Some(x) => match x.as_str() {
            Some(s) => String::from_str(s),
            None => String::from_str(d),
        },
        None => String::from_str(d),
    }
}

/// Shared helper for installPlugin / installTheme conversion.
fn convert_wp_install(obj: &JsonValue, wp_type: &str, data_key: &str, zip_key: &str) -> (r:
    GenericSetupStep)
    ensures
        r@ == wp_install(*obj, wp_type@, data_key@, zip_key@),
{
    let slug = match slug_from_resource(obj.get(data_key)) {
        Some(s) => s,
        None => match slug_from_resource(obj.get(zip_key)) {
            Some(s) => s,
            None => {
                let mut s = String::new();
                append(&mut s, "unknown-");
                append(&mut s, wp_type);
                s
            },
        },
    };
    let activate = match obj.get("options") {
        Some(o) => match o.get("activate") {
            Some(a) => match a.as_bool() {
                Some(b) => b,
                None => true,
            },
            None => true,
        },
        None => true,
    };
    let mut cmd = String::new();
    append(&mut cmd, "wp ");
    append(&mut cmd, wp_type);
    append(&mut cmd, " install ");
    append(&mut cmd, slug.as_str());
    if activate {
        append(&mut cmd, " --activate");
    }
    proof {
        reveal_strlit("");
    }
    assert(cmd@ =~= "wp "@ + wp_type@ + " install "@ + slug@ + if activate {
        " --activate"@
    } else {
        seq![]
    });
    run_locally(cmd)
}

/// One step in a list.
fn one(s: GenericSetupStep) -> (r: Vec<GenericSetupStep>)
    ensures
        step_views(r@) == seq![s@],
{
    let r = vec![s];
    assert(step_views(r@) =~= seq![s@]);
    r
}

/// The option-update steps of an options object.
fn option_update_steps(ms: &Vec<(String, JsonValue)>) -> (r: Vec<GenericSetupStep>)
    ensures
        step_views(r@) == option_updates(ms@),
{
    let mut out: Vec<GenericSetupStep> = Vec::new();
    let mut i: usize = 0;
    while i < ms.len()
        invariant
            i <= ms@.len(),
            step_views(out@) == option_updates(ms@.take(i as int)),
        decreases ms.len() - i,
    {
        let arg = json_value_to_cli_arg(&ms[i].1);
        let mut cmd = String::new();
        append(&mut cmd, "wp option update ");
        append(&mut cmd, ms[i].0.as_str());
        append(&mut cmd, " ");
        append(&mut cmd, arg.as_str());
        let step = run_locally(cmd);
        let ghost o = out@;
        out.push(step);
        proof {
            assert(step_views(out@) =~= step_views(o) + seq![step@]);
            assert(ms@.take(i + 1).drop_last() =~= ms@.take(i as int));
            assert(ms@.take(i + 1).last() == ms@[i as int]);
        }
        i += 1;
    }
    assert(ms@.take(ms@.len() as int) =~= ms@);
    out
}

/// The steps of a Playground step, before empty results are dropped.
fn steps_of(obj: &JsonValue) -> (r: Option<Vec<GenericSetupStep>>)
    ensures
        match step_steps(*obj) {
            Some(s) => r matches Some(v) && step_views(v@) == s,
            None => r is None,
        },
{
    proof {
        reveal_strlit("");
        assert(""@ =~= Seq::<char>::empty());
    }
    let t = match obj.get("step") {
        Some(x) => match x.as_str() {
            Some(t) => t,
            None => return None,
        },
        None => return None,
    };
    if str_eq(t, "installPlugin") {
        Some(one(convert_wp_install(obj, "plugin", "pluginData", "pluginZipFile")))
    } else if str_eq(t, "installTheme") {
        Some(one(convert_wp_install(obj, "theme", "themeData", "themeZipFile")))
    } else if str_eq(t, "activatePlugin") {
        let path = member_or(obj, "pluginPath", "unknown");
        let slash = ['/'];
        assert(slash@ =~= seq!['/']);
        let slug = crate::text::before_exec(&crate::text::to_chars(path.as_str()), &slash);
        let mut cmd = String::new();
        append(&mut cmd, "wp plugin activate ");
        crate::text::push_all(&mut cmd, &slug);
        assert(cmd@ =~= "wp plugin activate "@ + before(str_member_or(*obj, "pluginPath"@, "unknown"@), seq!['/']));
        Some(one(run_locally(cmd)))
    } else if str_eq(t, "activateTheme") {
        let folder = member_or(obj, "themeFolderName", "unknown");
        let mut cmd = String::new();
        append(&mut cmd, "wp theme activate ");
        append(&mut cmd, folder.as_str());
        assert(cmd@ =~= "wp theme activate "@ + str_member_or(*obj, "themeFolderName"@, "unknown"@));
        Some(one(run_locally(cmd)))
    } else if str_eq(t, "setSiteOptions") {
        match obj.get("options") {
            Some(o) => match o.as_object() {
                Some(ms) => Some(option_update_steps(ms)),
                None => None,
            },
            None => None,
        }
    } else if str_eq(t, "setSiteLanguage") {
        let lang = member_or(obj, "language", "en_US");
        let mut cmd = String::new();
        append(&mut cmd, "wp language core install ");
        append(&mut cmd, lang.as_str());
        append(&mut cmd, " --activate");
        assert(cmd@ =~= "wp language core install "@ + str_member_or(*obj, "language"@, "en_US"@) + " --activate"@);
        Some(one(run_locally(cmd)))
    } else if str_eq(t, "writeFile") {
        let raw = member_or(obj, "path", "");
        let path = strip_wordpress_prefix(raw.as_str());
        let content = match obj.get("data") {
            Some(d) => match d.as_str() {
                Some(s) => Some(String::from_str(s)),
                None => None,
            },
            None => None,
        };
        let mut s = blank_step();
        s.write_file = Some(GenericWriteFile { path, content, template: None });
        proof {
            reveal_strlit("");
        }
        Some(one(s))
    } else if str_eq(t, "mkdir") {
        let raw = member_or(obj, "path", "");
        let mut s = blank_step();
        s.mkdir = Some(strip_wordpress_prefix(raw.as_str()));
        proof {
            reveal_strlit("");
        }
        Some(one(s))
    } else if str_eq(t, "wp-cli") {
        match obj.get("command") {
            Some(c) => {
                let cmd = wpcli_command_string(c);
                let full = if str_starts_with(cmd.as_str(), "wp ") || str_eq(cmd.as_str(), "wp") {
                    cmd
                } else {
                    let mut f = String::new();
                    append(&mut f, "wp ");
                    append(&mut f, cmd.as_str());
                    f
                };
                assert(full@ == full_wp_command(spec_wpcli_command_string(*c)));
                Some(one(run_locally(full)))
            },
            None => None,
        }
    } else if str_eq(t, "runSql") {
        Some(one(run_locally(String::from_str("wp db query"))))
    } else if str_eq(t, "runPHP") {
        Some(one(run_locally(String::from_str("wp eval"))))
    } else if str_eq(t, "cp") {
        let from = member_or(obj, "fromPath", "");
        let to = member_or(obj, "toPath", "");
        let mut s = blank_step();
        s.cp = Some(GenericCopy { src: from, dest: to });
        proof {
            reveal_strlit("");
        }
        Some(one(s))
    } else if str_eq(t, "mv") {
        let from = member_or(obj, "fromPath", "");
        let to = member_or(obj, "toPath", "");
        let mut cmd = String::new();
        append(&mut cmd, "mv ");
        append(&mut cmd, from.as_str());
        append(&mut cmd, " ");
        append(&mut cmd, to.as_str());
        proof {
            reveal_strlit("");
        }
        assert(cmd@ =~= "mv "@ + str_member_or(*obj, "fromPath"@, seq![]) + " "@ + str_member_or(*obj, "toPath"@, seq![]));
        Some(one(run_locally(cmd)))
    } else if str_eq(t, "rm") || str_eq(t, "rmdir") {
        let path = member_or(obj, "path", "");
        let mut s = blank_step();
        s.rm = Some(path);
        proof {
            reveal_strlit("");
        }
        Some(one(s))
    } else {
        let r: Vec<GenericSetupStep> = Vec::new();
        assert(step_views(r@) =~= Seq::<StepView>::empty());
        Some(r)
    }
}

/// Convert one Playground step into generic steps.
pub fn convert_step(val: &JsonValue) -> (r: Option<Vec<GenericSetupStep>>)
    ensures
        match spec_convert_step(*val) {
            Some(s) => r matches Some(v) && step_views(v@) == s,
            None => r is None,
        },
{
    if val.as_object().is_none() {
        return None;
    }
    match steps_of(val) {
        Some(v) => if v.len() == 0 {
            None
        } else {
            Some(v)
        },
        None => None,
    }
}


// ---------------------------------------------------------------------------
// Whole blueprints
// ---------------------------------------------------------------------------

/// The parts of a Playground blueprint the converter reads.
#[derive(Debug)]
pub struct PlaygroundBlueprint {
    /// `$schema`.
    pub schema: Option<String>,
    /// `meta`.
    pub meta: Option<PlaygroundMeta>,
    /// `plugins` (empty when absent).
    pub plugins: Vec<JsonValue>,
    /// `siteOptions`, in the order they were read.
    pub site_options: Option<Vec<(String, JsonValue)>>,
    /// `steps` (empty when absent).
    pub steps: Vec<JsonValue>,
}

/// `meta` of a Playground blueprint.
#[derive(Debug)]
pub struct PlaygroundMeta {
    pub title: Option<String>,
}

/// The install steps of the `plugins` shorthand.
pub open spec fn plugin_steps(ps: Seq<JsonValue>) -> Seq<StepView>
    decreases ps.len(),
{
    if ps.len() == 0 {
        seq![]
    } else {
        plugin_steps(ps.drop_last()) + seq![
            local("wp plugin install "@ + spec_plugin_slug_from_value(ps.last()) + " --activate"@),
        ]
    }
}

/// The steps of the `steps` array, in order.
pub open spec fn converted_steps(ss: Seq<JsonValue>) -> Seq<StepView>
    decreases ss.len(),
{
    if ss.len() == 0 {
        seq![]
    } else {
        converted_steps(ss.drop_last()) + match spec_convert_step(ss.last()) {
            Some(v) => v,
            None => seq![],
        }
    }
}

/// All steps of a blueprint: plugins, then site options, then steps.
pub open spec fn blueprint_steps(pg: PlaygroundBlueprint) -> Seq<StepView> {
    plugin_steps(pg.plugins@) + match pg.site_options {
        Some(ms) => option_updates(ms@),
        None => seq![],
    } + converted_steps(pg.steps@)
}

/// The name of a converted blueprint: the meta title, else
/// `WordPress Playground` when the blueprint names its schema.
pub open spec fn blueprint_name(pg: PlaygroundBlueprint) -> Option<Seq<char>> {
    match pg.meta {
        Some(m) if m.title is Some => Some(m.title->0@),
        _ => if pg.schema is Some {
            Some("WordPress Playground"@)
        } else {
            None
        },
    }
}

/// Appends steps.
fn extend_steps(out: &mut Vec<GenericSetupStep>, more: Vec<GenericSetupStep>)
    ensures
        step_views(final(out)@) == step_views(old(out)@) + step_views(more@),
{
    let mut more = more;
    let ghost m = more@;
    let ghost base = step_views(out@);
    out.append(&mut more);
    assert(step_views(out@) =~= base + step_views(m));
}

/// Convert a Playground blueprint into a `GenericBlueprint`. `parsed` is
/// the blueprint as read from JSON, or the reason it could not be read.
pub fn convert_playground_to_generic(parsed: Result<PlaygroundBlueprint, String>) -> (r: Result<
    GenericBlueprint,
    ConvertError,
>)
    ensures
        parsed is Ok <==> r is Ok,
        r matches Err(e) ==> e.0@ == "JSON parse error: "@ + parsed->Err_0@,
        r matches Ok(bp) ==> {
            let pg = parsed->Ok_0;
            &&& bp.meta matches Some(m) && ostr(m.name) == blueprint_name(pg) && ostr(m.framework)
                == Some("wordpress"@)
            &&& if blueprint_steps(pg).len() == 0 {
                bp.setup is None
            } else {
                bp.setup matches Some(v) && step_views(v@) == blueprint_steps(pg)
            }
        },
{
    let pg = match parsed {
        Ok(pg) => pg,
        Err(e) => {
            let mut m = String::new();
            append(&mut m, "JSON parse error: ");
            append(&mut m, e.as_str());
            return Err(ConvertError(m));
        },
    };
    let mut steps: Vec<GenericSetupStep> = Vec::new();
    let mut i: usize = 0;
    while i < pg.plugins.len()
        invariant
            i <= pg.plugins@.len(),
            step_views(steps@) == plugin_steps(pg.plugins@.take(i as int)),
        decreases pg.plugins.len() - i,
    {
        let slug = plugin_slug_from_value(&pg.plugins[i]);
        let mut cmd = String::new();
        append(&mut cmd, "wp plugin install ");
        append(&mut cmd, slug.as_str());
        append(&mut cmd, " --activate");
        let step = run_locally(cmd);
        let ghost o = steps@;
        steps.push(step);
        proof {
            assert(step_views(steps@) =~= step_views(o) + seq![step@]);
            assert(pg.plugins@.take(i + 1).drop_last() =~= pg.plugins@.take(i as int));
            assert(pg.plugins@.take(i + 1).last() == pg.plugins@[i as int]);
        }
        i += 1;
    }
    assert(pg.plugins@.take(pg.plugins@.len() as int) =~= pg.plugins@);
    match &pg.site_options {
        Some(ms) => {
            let more = option_update_steps(ms);
            extend_steps(&mut steps, more);
        },
        None => {
            assert(step_views(steps@) =~= step_views(steps@) + Seq::<StepView>::empty());
        },
    }
    let ghost mid = step_views(steps@);
    let mut k: usize = 0;
    while k < pg.steps.len()
        invariant
            k <= pg.steps@.len(),
            step_views(steps@) == mid + converted_steps(pg.steps@.take(k as int)),
        decreases pg.steps.len() - k,
    {
        let ghost o = step_views(steps@);
        match convert_step(&pg.steps[k]) {
            Some(v) => extend_steps(&mut steps, v),
            None => {
                assert(step_views(steps@) =~= o + Seq::<StepView>::empty());
            },
        }
        proof {
            assert(pg.steps@.take(k + 1).drop_last() =~= pg.steps@.take(k as int));
            assert(pg.steps@.take(k + 1).last() == pg.steps@[k as int]);
        }
        k += 1;
    }
    assert(pg.steps@.take(pg.steps@.len() as int) =~= pg.steps@);
    assert(step_views(steps@) =~= blueprint_steps(pg));
    let name = match &pg.meta {
        Some(m) => match &m.title {
            Some(t) => Some(t.clone()),
            None => match &pg.schema {
                Some(_) => Some(String::from_str("WordPress Playground")),
                None => None,
            },
        },
        None => match &pg.schema {
            Some(_) => Some(String::from_str("WordPress Playground")),
            None => None,
        },
    };
    let meta = GenericMeta { name, framework: Some(String::from_str("wordpress")) };
    let setup = if steps.len() == 0 {
        None
    } else {
        Some(steps)
    };
    Ok(GenericBlueprint { meta: Some(meta), setup })
}

} // verus!
