use appz::json::{JsonNumber, JsonValue};
use appz::llm::{anthropic_request, ollama_request, openai_request, provider_for, read_response, ChatMessage, LlmProvider};
use appz::runtime::{
    ddev_command_text, ddev_configure_args, ddev_is_running, ddev_php_version, ddev_site_url,
    ddev_wp_args, download_and_unzip_command, download_url_command, http_request_command,
    output_text, playground_download_blueprint, playground_eval_blueprint,
    playground_install_blueprint, playground_php_version, playground_run_args,
    playground_server_args, playground_shell_blueprint, playground_sql_blueprint,
    playground_wp_cli_blueprint, playground_wp_cli_output_blueprint, wp_install_args,
};

fn to_serde(v: &JsonValue) -> serde_json::Value {
    match v {
        JsonValue::Null => serde_json::Value::Null,
        JsonValue::Bool(b) => serde_json::Value::Bool(*b),
        JsonValue::Number(JsonNumber::PosInt(n)) => serde_json::Value::from(*n),
        JsonValue::Number(JsonNumber::NegInt(n)) => serde_json::Value::from(*n),
        JsonValue::Number(JsonNumber::Float(t)) => serde_json::from_str(t).unwrap(),
        JsonValue::String(s) => serde_json::Value::String(s.clone()),
        JsonValue::Array(a) => serde_json::Value::Array(a.iter().map(to_serde).collect()),
        JsonValue::Object(ms) => {
            let mut m = serde_json::Map::new();
            for (k, x) in ms {
                m.insert(k.clone(), to_serde(x));
            }
            serde_json::Value::Object(m)
        }
    }
}

fn from_serde(v: &serde_json::Value) -> JsonValue {
    match v {
        serde_json::Value::Null => JsonValue::Null,
        serde_json::Value::Bool(b) => JsonValue::Bool(*b),
        serde_json::Value::Number(n) => match (n.as_u64(), n.as_i64()) {
            (Some(u), _) => JsonValue::Number(JsonNumber::PosInt(u)),
            (None, Some(i)) => JsonValue::Number(JsonNumber::NegInt(i)),
            _ => JsonValue::Number(JsonNumber::Float(n.to_string())),
        },
        serde_json::Value::String(s) => JsonValue::String(s.clone()),
        serde_json::Value::Array(a) => JsonValue::Array(a.iter().map(from_serde).collect()),
        serde_json::Value::Object(m) => {
            JsonValue::Object(m.iter().map(|(k, x)| (k.clone(), from_serde(x))).collect())
        }
    }
}

fn parse(text: &str) -> serde_json::Value {
    serde_json::from_str(text).unwrap()
}

fn strings(v: &[&str]) -> Vec<String> {
    v.iter().map(|s| s.to_string()).collect()
}

#[test]
fn shell_commands_of_the_default_operations() {
    assert_eq!(download_url_command("https://x/a'b", "/tmp/f"), "curl -sL 'https://x/a'\\''b' -o '/tmp/f'");
    assert_eq!(
        download_and_unzip_command("https://x/p.zip", "/var/www/html/"),
        "curl -sL 'https://x/p.zip' -o /tmp/_bp_download.zip && unzip -o /tmp/_bp_download.zip -d '/var/www/html/' && rm /tmp/_bp_download.zip"
    );
    assert_eq!(http_request_command("POST", "https://x/"), "curl -sS -X POST 'https://x/'");
}

#[test]
fn ddev_arguments() {
    assert_eq!(ddev_configure_args("php", Some("web")), strings(&["config", "--project-type=php", "--docroot=web", "--php-version=8.2"]));
    assert_eq!(ddev_configure_args("wordpress", None), strings(&["config", "--project-type=wordpress"]));
    assert_eq!(ddev_wp_args(&strings(&["plugin", "list"])), strings(&["exec", "wp", "plugin", "list"]));
    assert_eq!(
        wp_install_args("https://s.ddev.site", "admin", "pw"),
        strings(&["core", "install", "--url=https://s.ddev.site", "--title=WordPress", "--admin_user=admin", "--admin_password=pw", "--admin_email=admin@example.com", "--skip-email"])
    );
    assert_eq!(ddev_site_url(Some("mysite")), "https://mysite.ddev.site");
    assert_eq!(ddev_site_url(None), "https://wordpress.ddev.site");
    assert_eq!(ddev_command_text(&strings(&["exec", "wp"])), "ddev exec wp");
}

#[test]
fn ddev_php_version_from_config() {
    assert_eq!(ddev_php_version("name: site\n  php_version: \"8.1\"\n").as_deref(), Some("8.1"));
    assert_eq!(ddev_php_version("php_version: ''\nphp_version: 7.4"), Some("7.4".to_string()));
    assert_eq!(ddev_php_version("name: site"), None);
}

#[test]
fn ddev_running_state() {
    let running = from_serde(&parse(r#"{"raw": {"status": "running"}}"#));
    let stopped = from_serde(&parse(r#"{"raw": {"status": "stopped"}}"#));
    assert!(ddev_is_running(Some(&running)));
    assert!(!ddev_is_running(Some(&stopped)));
    assert!(!ddev_is_running(None));
}

#[test]
fn command_output_is_trimmed() {
    assert_eq!(output_text("  8.2\n"), Some("8.2".to_string()));
    assert_eq!(output_text(" \n"), None);
}

#[test]
fn playground_blueprints() {
    let args = strings(&["plugin", "list", "--format=json"]);
    assert_eq!(to_serde(&playground_wp_cli_blueprint(&args)), parse(r#"{"steps":[{"step":"wp-cli","command":["plugin","list","--format=json"]}]}"#));
    assert_eq!(to_serde(&playground_wp_cli_output_blueprint(&args)), parse(r#"{"steps":[{"step":"wp-cli","command":"plugin list --format=json"}]}"#));
    assert_eq!(to_serde(&playground_download_blueprint("https://x/f", "/tmp/f")), parse(r#"{"steps":[{"step":"writeFile","path":"/tmp/f","data":{"resource":"url","url":"https://x/f"}}]}"#));
    assert_eq!(to_serde(&playground_eval_blueprint("echo 1;")), parse(r#"{"steps":[{"step":"runPHP","code":"<?php echo 1;"}]}"#));
    assert_eq!(to_serde(&playground_eval_blueprint("<?php echo 2;")), parse(r#"{"steps":[{"step":"runPHP","code":"<?php echo 2;"}]}"#));
    assert_eq!(to_serde(&playground_shell_blueprint("ls 'a'")), parse(r#"{"steps":[{"step":"runPHP","code":"<?php shell_exec('ls \\'a\\'');"}]}"#));
    assert_eq!(to_serde(&playground_sql_blueprint("SELECT 1")), parse(r#"{"steps":[{"step":"runSql","sql":{"resource":"literal","name":"query.sql","contents":"SELECT 1"}}]}"#));
    assert_eq!(to_serde(&playground_install_blueprint("u", "p")), parse(r#"{"steps":[{"step":"runWpInstallationWizard","options":{"adminUsername":"u","adminPassword":"p"}}]}"#));
}

#[test]
fn playground_arguments_and_state() {
    assert_eq!(
        playground_server_args("/p", Some("8.3".to_string())),
        strings(&["@wp-playground/cli@latest", "server", "--mount", "/p:/wordpress", "--port", "9400", "--login", "--php", "8.3"])
    );
    assert_eq!(playground_run_args("/p", "-"), strings(&["@wp-playground/cli@latest", "run-blueprint", "--mount", "/p:/wordpress", "--blueprint", "-"]));
    let state = from_serde(&parse(r#"{"runtime":"playground","php_version":"8.1"}"#));
    assert_eq!(playground_php_version(Some(&state)), "8.1");
    assert_eq!(playground_php_version(None), "8.5");
}

#[test]
fn providers_by_name() {
    assert_eq!(provider_for("openai").unwrap(), LlmProvider::OpenAi);
    assert_eq!(provider_for("ollama").unwrap(), LlmProvider::Ollama);
    match provider_for("gemini") {
        Err(appz::error::CheckerError::AiFixFailed { reason }) => {
            assert_eq!(reason, "Unknown AI provider: gemini. Use openai, anthropic, or ollama.")
        }
        other => panic!("unexpected {:?}", other),
    }
}

#[test]
fn openai_request_body() {
    let msgs = vec![ChatMessage::system("sys".to_string()), ChatMessage::user("hi".to_string())];
    let t = JsonNumber::Float("0.2".to_string());
    assert!(openai_request("gpt-4o", None, t.clone(), &msgs).is_err());
    let q = openai_request("gpt-4o", Some("k"), t, &msgs).unwrap();
    assert_eq!(q.url, "https://api.openai.com/v1/chat/completions");
    assert_eq!(q.headers[0], ("Authorization".to_string(), "Bearer k".to_string()));
    assert_eq!(
        to_serde(&q.body),
        parse(r#"{"model":"gpt-4o","messages":[{"role":"system","content":"sys"},{"role":"user","content":"hi"}],"temperature":0.2}"#)
    );
}

#[test]
fn anthropic_request_takes_the_system_message_apart() {
    let msgs = vec![ChatMessage::system("sys".to_string()), ChatMessage::user("hi".to_string())];
    let q = anthropic_request("model-a", Some("k"), JsonNumber::PosInt(0), &msgs).unwrap();
    assert_eq!(q.url, "https://api.anthropic.com/v1/messages");
    assert_eq!(
        to_serde(&q.body),
        parse(r#"{"model":"model-a","max_tokens":8192,"messages":[{"role":"user","content":"hi"}],"temperature":0,"system":"sys"}"#)
    );
}

#[test]
fn ollama_request_joins_the_messages() {
    let msgs = vec![ChatMessage::system("sys".to_string()), ChatMessage::user("hi".to_string())];
    let q = ollama_request("llama3", None, JsonNumber::PosInt(1), &msgs);
    assert_eq!(q.url, "http://localhost:11434/api/generate");
    assert_eq!(
        to_serde(&q.body),
        parse(r#"{"model":"llama3","prompt":"SYSTEM: sys\n\nhi","stream":false,"options":{"temperature":1}}"#)
    );
}

#[test]
fn responses_are_read() {
    let open = from_serde(&parse(r#"{"choices":[{"message":{"content":"done"}}]}"#));
    assert_eq!(read_response(LlmProvider::OpenAi, &open).unwrap().content, "done");
    let anth = from_serde(&parse(r#"{"content":[{"type":"text","text":"ok"}]}"#));
    assert_eq!(read_response(LlmProvider::Anthropic, &anth).unwrap().content, "ok");
    let bad = from_serde(&parse(r#"{"error":"x"}"#));
    match read_response(LlmProvider::Ollama, &bad) {
        Err(appz::error::CheckerError::AiFixFailed { reason }) => assert_eq!(reason, "Unexpected Ollama response format"),
        other => panic!("unexpected {:?}", other),
    }
}

use appz::config::{AiEnvironment, AiModelConfig, AiRepairConfig, CheckConfig};
use appz::llm::{llm_request, LlmConfig};

fn env() -> AiEnvironment {
    AiEnvironment {
        openai_api_key: Some("sk-open".to_string()),
        anthropic_api_key: Some("sk-ant".to_string()),
        ai_api_key: Some("sk-other".to_string()),
        ollama_base_url: None,
    }
}

#[test]
fn repair_config_defaults() {
    let c = AiRepairConfig::from_check_config(&CheckConfig::empty(), None, None, false, &env());
    assert_eq!(c.planner_llm.provider, "openai");
    assert_eq!(c.planner_llm.model, "gpt-4o-mini");
    assert_eq!(c.fixer_llm.model, "gpt-4o");
    assert_eq!(c.verifier_llm.model, "gpt-4o-mini");
    assert_eq!(c.fixer_llm.api_key.as_deref(), Some("sk-open"));
    assert_eq!(c.fixer_llm.base_url, None);
    assert!(matches!(&c.fixer_llm.temperature, JsonNumber::Float(t) if t == "0.1"));
    assert_eq!(c.safety.max_attempts, 3);
    assert_eq!(c.safety.max_files_per_patch, 5);
    assert!(c.verify_enabled);
    assert!(!c.verbose);
    assert_eq!(c.max_context_bytes, None);
}

#[test]
fn repair_config_overrides() {
    let mut cfg = CheckConfig::empty();
    cfg.ai_provider = Some("ollama".to_string());
    cfg.ai_model = Some("llama3".to_string());
    cfg.ai_models = Some(AiModelConfig { planner: None, fixer: None, verifier: Some("tiny".to_string()) });
    cfg.ai_max_attempts = Some(7);
    let c = AiRepairConfig::from_check_config(&cfg, None, Some(false), true, &env());
    assert_eq!(c.planner_llm.model, "llama3");
    assert_eq!(c.fixer_llm.model, "llama3");
    assert_eq!(c.verifier_llm.model, "tiny");
    assert_eq!(c.planner_llm.api_key, None);
    assert_eq!(c.planner_llm.base_url.as_deref(), Some("http://localhost:11434"));
    assert_eq!(c.safety.max_attempts, 7);
    assert!(!c.verify_enabled);
    assert!(c.verbose);

    let c2 = AiRepairConfig::from_check_config(&cfg, Some(2), None, false, &env());
    assert_eq!(c2.safety.max_attempts, 2);

    let mut other = CheckConfig::empty();
    other.ai_provider = Some("mistral".to_string());
    let c3 = AiRepairConfig::from_check_config(&other, None, None, false, &env());
    assert_eq!(c3.fixer_llm.api_key.as_deref(), Some("sk-other"));
}

#[test]
fn configured_requests() {
    let cfg = |provider: &str, key: Option<&str>| LlmConfig {
        provider: provider.to_string(),
        model: "m".to_string(),
        api_key: key.map(|k| k.to_string()),
        base_url: Some("http://ollama:1".to_string()),
        temperature: JsonNumber::Float("0.1".to_string()),
    };
    let msgs = vec![ChatMessage::system("sys".to_string()), ChatMessage::user("hi".to_string())];
    assert_eq!(llm_request(&cfg("openai", Some("k")), &msgs).unwrap().url, "https://api.openai.com/v1/chat/completions");
    assert_eq!(llm_request(&cfg("anthropic", Some("k")), &msgs).unwrap().url, "https://api.anthropic.com/v1/messages");
    assert_eq!(llm_request(&cfg("ollama", None), &msgs).unwrap().url, "http://ollama:1/api/generate");
    assert_eq!(
        llm_request(&cfg("openai", None), &msgs).unwrap_err().message(),
        "AI fix failed: OPENAI_API_KEY environment variable not set"
    );
    assert_eq!(
        llm_request(&cfg("bard", Some("k")), &msgs).unwrap_err().message(),
        "AI fix failed: Unknown AI provider: bard. Use openai, anthropic, or ollama."
    );
}

#[test]
fn wp_eval_arguments() {
    assert_eq!(appz::runtime::wp_eval_args("echo 1;"), vec!["eval".to_string(), "echo 1;".to_string()]);
}
