use appz::blueprint::{parse_node_version_ok, php_escape_string};
use appz::converter::{is_playground_blueprint, is_playground_value};
use appz::json::{JsonNumber, JsonValue};

fn obj(members: Vec<(&str, JsonValue)>) -> JsonValue {
    JsonValue::Object(members.into_iter().map(|(k, v)| (k.to_string(), v)).collect())
}

#[test]
fn test_node_version_check() {
    assert!(parse_node_version_ok("20.18.0"));
    assert!(parse_node_version_ok("20.19.0"));
    assert!(parse_node_version_ok("22.0.0"));
    assert!(!parse_node_version_ok("20.17.0"));
    assert!(!parse_node_version_ok("18.20.0"));
    assert!(!parse_node_version_ok("16.0.0"));
}

#[test]
fn test_php_escape_string() {
    assert_eq!(php_escape_string("hello"), "'hello'");
    assert_eq!(php_escape_string("it's"), "'it\\'s'");
    assert_eq!(php_escape_string("path\\to"), "'path\\\\to'");
}

#[test]
fn detect_non_playground_json() {
    let raw = r#"{"version": 1, "meta": {"framework": "nextjs"}}"#;
    assert!(!is_playground_blueprint(raw));
}

use appz::blueprint::{
    ensure_path_within, extract_plugin_slug, json_value_to_string, json_value_to_wp_config_string,
    normalize_php_version, shell_escape, BlueprintError, InstallPluginOptions, PhpCode,
    WpCliCommand,
};
use appz::executor::{
    entry_actions, entry_failure, progress_line, run_failure, step_failed, step_actions, PlanRun, RunEvent,
    RunMove, top_level_actions, Action, Blueprint, FileResource,
    FilesTreeData, PluginShorthand, ResourceData, ResourceValue, Step, StepEntry, WriteFileData,
    ActivatePluginStep, ImportWxrStep, InstallPluginStep, RunPhpStep, WpCliStep, WriteFileStep,
    WriteFilesStep,
};

fn s(x: &str) -> String {
    x.to_string()
}

fn args_of(a: &Action) -> Vec<String> {
    match a {
        Action::WpCli(v) | Action::WpCliTry(v) | Action::ExecArgs(v) => v.clone(),
        other => panic!("not a command: {:?}", other),
    }
}

#[test]
fn php_versions_are_normalised() {
    assert_eq!(normalize_php_version("8.3.1"), "8.3");
    assert_eq!(normalize_php_version("latest"), "latest");
    assert_eq!(normalize_php_version("https://example.com/php.zip"), "latest");
    assert_eq!(normalize_php_version("8"), "8");
}

#[test]
fn escapes() {
    assert_eq!(shell_escape("it's"), "it'\\''s");
    assert_eq!(php_escape_string("a'b\\c"), "'a\\'b\\\\c'");
}

#[test]
fn plugin_slugs() {
    assert_eq!(extract_plugin_slug("/wordpress/wp-content/plugins/gutenberg/gutenberg.php"), "gutenberg");
    assert_eq!(extract_plugin_slug("hello-dolly/hello.php"), "hello-dolly");
}

#[test]
fn json_values_as_wp_cli_text() {
    assert_eq!(json_value_to_string(&JsonValue::Bool(true)), "1");
    assert_eq!(json_value_to_string(&JsonValue::Bool(false)), "0");
    assert_eq!(json_value_to_string(&JsonValue::Null), "");
    assert_eq!(json_value_to_string(&JsonValue::Number(JsonNumber::PosInt(42))), "42");
    assert_eq!(json_value_to_wp_config_string(&JsonValue::Bool(true)), "true");
    assert_eq!(json_value_to_wp_config_string(&JsonValue::String(s("x"))), "x");
}

#[test]
fn json_values_written_by_serde_json() {
    let arr = JsonValue::Array(vec![
        JsonValue::Number(JsonNumber::PosInt(1)),
        JsonValue::Number(JsonNumber::NegInt(-2)),
        JsonValue::String(s("a \"b\"")),
        JsonValue::Null,
    ]);
    assert_eq!(json_value_to_string(&arr), "[1,-2,\"a \\\"b\\\"\",null]");
    let obj = JsonValue::Object(vec![(s("k"), JsonValue::Bool(false))]);
    assert_eq!(json_value_to_wp_config_string(&obj), "{\"k\":false}");
    assert_eq!(json_value_to_wp_config_string(&JsonValue::Null), "null");
    assert_eq!(json_value_to_string(&JsonValue::Number(JsonNumber::NegInt(-7))), "-7");
    assert_eq!(json_value_to_string(&JsonValue::Number(JsonNumber::Float(s("1.5")))), "1.5");
}

#[test]
fn paths_inside_and_outside_the_project() {
    assert!(ensure_path_within("/srv/site", "/srv/site/wp-content/a.txt").is_ok());
    assert!(ensure_path_within("/srv/site", "/srv/site/./a/../b.txt").is_ok());
    match ensure_path_within("/srv/site", "/srv/site/../etc/passwd") {
        Err(BlueprintError::UnsupportedResource(m)) => {
            assert_eq!(m, "path escapes project root: /srv/site/../etc/passwd")
        }
        other => panic!("unexpected {:?}", other),
    }
}

#[test]
fn activate_plugin_step() {
    let step = Step::ActivatePlugin(ActivatePluginStep { plugin_path: s("/wordpress/wp-content/plugins/akismet/akismet.php"), plugin_name: None });
    let a = step_actions(&step, "/srv/site");
    assert_eq!(a.len(), 1);
    assert_eq!(args_of(&a[0]), vec!["plugin", "activate", "akismet"]);
    assert_eq!(step.type_label(), "activatePlugin");
}

#[test]
fn install_plugin_activates_by_default() {
    let step = Step::InstallPlugin(InstallPluginStep {
        plugin_data: Some(ResourceData::File(FileResource::WordPressPlugin { slug: s("woocommerce") })),
        plugin_zip_file: None,
        options: None,
    });
    let a = step_actions(&step, "/srv/site");
    assert_eq!(args_of(&a[0]), vec!["plugin", "install", "woocommerce", "--force", "--activate"]);
    let quiet = Step::InstallPlugin(InstallPluginStep {
        plugin_data: None,
        plugin_zip_file: Some(ResourceValue::Resource(FileResource::Url { url: s("https://x/p.zip"), caption: None })),
        options: Some(InstallPluginOptions { activate: Some(false), target_folder_name: None }),
    });
    let b = step_actions(&quiet, "/srv/site");
    assert_eq!(args_of(&b[0]), vec!["plugin", "install", "https://x/p.zip", "--force"]);
}

#[test]
fn wp_cli_string_is_split_on_whitespace() {
    let step = Step::WpCli(WpCliStep { command: WpCliCommand::String(s("  cache   flush ")) });
    let a = step_actions(&step, "/srv/site");
    assert_eq!(args_of(&a[0]), vec!["cache", "flush"]);
    let empty = Step::WpCli(WpCliStep { command: WpCliCommand::String(s("   ")) });
    assert!(step_actions(&empty, "/srv/site").is_empty());
}

#[test]
fn run_php_strips_the_open_tag() {
    let step = Step::RunPhp(RunPhpStep { code: PhpCode::String(s("<?php echo 1; ")) });
    let a = step_actions(&step, "/srv/site");
    assert_eq!(args_of(&a[0]), vec!["eval", "echo 1;"]);
}

#[test]
fn write_file_inside_and_outside() {
    let ok = Step::WriteFile(WriteFileStep { path: s("/wordpress/wp-content/x.txt"), data: WriteFileData::String(s("hi")) });
    let a = step_actions(&ok, "/srv/site");
    match &a[0] {
        Action::WriteFile { path, content } => {
            assert_eq!(path, "/srv/site/wp-content/x.txt");
            assert_eq!(content, "hi");
        }
        other => panic!("unexpected {:?}", other),
    }
    let bad = Step::WriteFile(WriteFileStep { path: s("../outside.txt"), data: WriteFileData::String(s("hi")) });
    let b = step_actions(&bad, "/srv/site");
    assert!(matches!(&b[0], Action::Fail(m) if m == "path escapes project root: /srv/site/../outside.txt"));
}

#[test]
fn write_files_tree() {
    let tree = obj(vec![
        ("a.txt", JsonValue::String(s("A"))),
        ("dir", obj(vec![("b.txt", JsonValue::String(s("B")))])),
        ("n", JsonValue::Number(JsonNumber::PosInt(1))),
    ]);
    let step = Step::WriteFiles(WriteFilesStep { write_to_path: s("/wordpress/site"), files_tree: FilesTreeData::Raw(tree) });
    let a = step_actions(&step, "/p");
    assert_eq!(a.len(), 2);
    assert!(matches!(&a[0], Action::WriteFile { path, content } if path == "/p/site/a.txt" && content == "A"));
    assert!(matches!(&a[1], Action::WriteFile { path, content } if path == "/p/site/dir/b.txt" && content == "B"));
}

#[test]
fn import_wxr_from_url() {
    let step = Step::ImportWxr(ImportWxrStep { file: ResourceValue::Resource(FileResource::Url { url: s("https://x/a.wxr"), caption: None }) });
    let a = step_actions(&step, "/p");
    assert_eq!(a.len(), 3);
    assert_eq!(args_of(&a[0]), vec!["plugin", "install", "wordpress-importer", "--activate"]);
    assert!(matches!(&a[0], Action::WpCliTry(_)));
    assert!(matches!(&a[1], Action::DownloadUrl { url, dest } if url == "https://x/a.wxr" && dest == "/tmp/import.wxr"));
}

#[test]
fn top_level_shorthands_and_entries() {
    let bp = Blueprint {
        schema: None,
        meta: None,
        landing_page: None,
        description: None,
        preferred_versions: Some(appz::blueprint::PreferredVersions { php: Some(s("8.2.10")), wp: None }),
        features: None,
        extra_libraries: vec![],
        constants: Some(vec![(s("WP_DEBUG"), JsonValue::Bool(true))]),
        plugins: vec![PluginShorthand::Slug(s("jetpack"))],
        site_options: Some(vec![(s("blogname"), JsonValue::String(s("My Site")))]),
        login: None,
        steps: vec![StepEntry::String(s("akismet")), StepEntry::Null],
    };
    let a = top_level_actions(&bp);
    assert_eq!(a.len(), 4);
    assert!(matches!(&a[0], Action::SetPhpVersion(v) if v == "8.2"));
    assert_eq!(args_of(&a[1]), vec!["config", "set", "WP_DEBUG", "true", "--type=constant", "--raw"]);
    assert_eq!(args_of(&a[2]), vec!["plugin", "install", "jetpack", "--force", "--activate"]);
    assert_eq!(args_of(&a[3]), vec!["option", "update", "blogname", "My Site"]);
    assert_eq!(args_of(&entry_actions(&bp.steps[0], "/p")[0]), vec!["plugin", "install", "akismet", "--force", "--activate"]);
    assert!(entry_actions(&bp.steps[1], "/p").is_empty());
}

// ---------------------------------------------------------------------------
// Playground conversion
// ---------------------------------------------------------------------------

use appz::converter::{convert_playground_to_generic, PlaygroundBlueprint, PlaygroundMeta};

fn from_serde(v: &serde_json::Value) -> JsonValue {
    match v {
        serde_json::Value::Null => JsonValue::Null,
        serde_json::Value::Bool(b) => JsonValue::Bool(*b),
        serde_json::Value::Number(n) => match (n.as_u64(), n.as_i64()) {
            (Some(u), _) => JsonValue::Number(JsonNumber::PosInt(u)),
            (None, Some(i)) => JsonValue::Number(JsonNumber::NegInt(i)),
            _ => JsonValue::Number(JsonNumber::Float(n.to_string())),
        },
        serde_json::Value::String(t) => JsonValue::String(t.clone()),
        serde_json::Value::Array(a) => JsonValue::Array(a.iter().map(from_serde).collect()),
        serde_json::Value::Object(m) => JsonValue::Object(m.iter().map(|(k, x)| (k.clone(), from_serde(x))).collect()),
    }
}

const PLAYGROUND_SIMPLE: &str = r#"{
  "$schema": "https://playground.wordpress.net/blueprint-schema.json",
  "meta": {"title": "Simple shop"},
  "plugins": ["woocommerce", "jetpack"],
  "siteOptions": {"blogname": "My Shop"},
  "steps": [
    {"step": "installTheme", "themeData": {"resource": "wordpress.org/themes", "slug": "astra"}},
    {"step": "writeFile", "path": "/wordpress/test.txt", "data": "hello"},
    {"step": "wp-cli", "command": "wp cache flush"},
    {"step": "login", "username": "admin"}
  ]
}"#;

fn playground(raw: &str) -> PlaygroundBlueprint {
    let v: serde_json::Value = serde_json::from_str(raw).unwrap();
    PlaygroundBlueprint {
        schema: v.get("$schema").and_then(|s| s.as_str()).map(|s| s.to_string()),
        meta: v.get("meta").map(|m| PlaygroundMeta { title: m.get("title").and_then(|t| t.as_str()).map(|t| t.to_string()) }),
        plugins: v.get("plugins").and_then(|p| p.as_array()).map(|a| a.iter().map(from_serde).collect()).unwrap_or_default(),
        site_options: v
            .get("siteOptions")
            .and_then(|o| o.as_object())
            .map(|m| m.iter().map(|(k, x)| (k.clone(), from_serde(x))).collect()),
        steps: v.get("steps").and_then(|p| p.as_array()).map(|a| a.iter().map(from_serde).collect()).unwrap_or_default(),
    }
}

fn local_commands(raw: &str) -> Vec<String> {
    let bp = convert_playground_to_generic(Ok(playground(raw))).unwrap();
    bp.setup.unwrap().iter().filter_map(|s| s.run_locally.clone()).collect()
}

#[test]
fn playground_blueprint_detected() {
    assert!(is_playground_blueprint(PLAYGROUND_SIMPLE));
    assert!(is_playground_blueprint(r#"{"steps": [], "plugins": []}"#));
    assert!(!is_playground_blueprint(r#"{"steps": []}"#));
    assert!(!is_playground_blueprint("not json"));
    assert!(is_playground_value(Some(&obj(vec![("$schema", JsonValue::String("https://playground.wordpress.net/x".to_string()))]))));
    assert!(!is_playground_value(None));
}

#[test]
fn playground_conversion_in_order() {
    assert_eq!(
        local_commands(PLAYGROUND_SIMPLE),
        vec![
            "wp plugin install woocommerce --activate",
            "wp plugin install jetpack --activate",
            "wp option update blogname \"My Shop\"",
            "wp theme install astra --activate",
            "wp cache flush",
        ]
    );
    let bp = convert_playground_to_generic(Ok(playground(PLAYGROUND_SIMPLE))).unwrap();
    let meta = bp.meta.unwrap();
    assert_eq!(meta.name.as_deref(), Some("Simple shop"));
    assert_eq!(meta.framework.as_deref(), Some("wordpress"));
    let setup = bp.setup.unwrap();
    let written: Vec<_> = setup.iter().filter_map(|s| s.write_file.as_ref()).collect();
    assert_eq!(written.len(), 1);
    assert_eq!(written[0].path, "test.txt");
    assert_eq!(written[0].content.as_deref(), Some("hello"));
}

#[test]
fn playground_conversion_errors_and_empty() {
    match convert_playground_to_generic(Err("expected value".to_string())) {
        Err(e) => assert_eq!(e.0, "JSON parse error: expected value"),
        Ok(_) => panic!("expected an error"),
    }
    let bp = convert_playground_to_generic(Ok(playground(r#"{"steps": [{"step": "login"}]}"#))).unwrap();
    assert!(bp.setup.is_none());
    assert_eq!(bp.meta.unwrap().name, None);
}

#[test]
fn step_progress_and_failure_text() {
    let step = StepEntry::Step(Step::ActivatePlugin(ActivatePluginStep { plugin_path: s("a/a.php"), plugin_name: None }));
    assert_eq!(progress_line(0, 3, &step).unwrap(), "  [1/3] activatePlugin...");
    assert_eq!(progress_line(2, 3, &StepEntry::String(s("akismet"))).unwrap(), "  [3/3] installPlugin (akismet)...");
    assert!(progress_line(1, 3, &StepEntry::Null).is_none());
    assert_eq!(entry_failure(4, &step, s("boom")), "Step 4 (activatePlugin) failed: boom");
    assert_eq!(entry_failure(4, &StepEntry::String(s("x")), s("boom")), "boom");
    let wp = Step::WpCli(WpCliStep { command: WpCliCommand::String(s("cache flush")) });
    match step_failed(7, &wp, s("exit 1")) {
        BlueprintError::StepFailed { step_index, step_type, message } => {
            assert_eq!(step_index, 7);
            assert_eq!(step_type, "wp-cli");
            assert_eq!(message, "exit 1");
        }
        other => panic!("unexpected {:?}", other),
    }
    assert_eq!(step_failed(7, &wp, s("exit 1")).message(), "Step 7 (wp-cli) failed: exit 1");
    assert_eq!(BlueprintError::Parse(s("eof")).message(), "Failed to parse blueprint JSON: eof");
    assert_eq!(
        BlueprintError::DdevFailed { command: s("ddev start"), message: s("no docker") }.message(),
        "DDEV command failed: ddev start\nno docker"
    );
}

fn show(m: RunMove) -> String {
    format!("{:?}", m)
}

#[test]
fn plan_run_goes_part_by_part() {
    let mut run = PlanRun::new(vec![1, 0, 2]);
    assert_eq!(show(run.step(RunEvent::Start)), "Perform { part: 0, pos: 0 }");
    assert_eq!(show(run.step(RunEvent::Done)), "Announce(0)");
    assert_eq!(show(run.step(RunEvent::Done)), "Announce(1)");
    assert_eq!(show(run.step(RunEvent::Done)), "Perform { part: 2, pos: 0 }");
    assert_eq!(show(run.step(RunEvent::Done)), "Perform { part: 2, pos: 1 }");
    assert_eq!(show(run.step(RunEvent::Done)), "Finish(Ok(()))");
    assert_eq!(show(run.step(RunEvent::Done)), "Finish(Ok(()))");
}

#[test]
fn plan_run_ends_at_first_failure() {
    let mut run = PlanRun::new(vec![0, 2, 1]);
    assert_eq!(show(run.step(RunEvent::Start)), "Announce(0)");
    assert_eq!(show(run.step(RunEvent::Done)), "Perform { part: 1, pos: 0 }");
    assert_eq!(show(run.step(RunEvent::Failed(s("no docker")))), "Finish(Err((1, \"no docker\")))");
    assert_eq!(show(run.step(RunEvent::Done)), "Finish(Err((1, \"no docker\")))");
    assert_eq!(show(run.step(RunEvent::Start)), "Finish(Err((1, \"no docker\")))");
    let mut empty = PlanRun::new(vec![0]);
    assert_eq!(show(empty.step(RunEvent::Start)), "Finish(Ok(()))");
}

#[test]
fn run_failure_names_the_step() {
    let bp = Blueprint {
        schema: None,
        meta: None,
        landing_page: None,
        description: None,
        preferred_versions: None,
        features: None,
        extra_libraries: vec![],
        constants: None,
        plugins: vec![],
        site_options: None,
        login: None,
        steps: vec![
            StepEntry::String(s("akismet")),
            StepEntry::Step(Step::ActivatePlugin(ActivatePluginStep { plugin_path: s("a/a.php"), plugin_name: None })),
        ],
    };
    assert_eq!(run_failure(&bp, 0, s("top")), "top");
    assert_eq!(run_failure(&bp, 1, s("slug")), "slug");
    assert_eq!(run_failure(&bp, 2, s("bad")), "Step 1 (activatePlugin) failed: bad");
}
