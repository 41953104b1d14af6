//! Checker configuration: the `check` section of `appz.json`, the settings
//! of a check run, and the AI repair settings derived from them.
use vstd::prelude::*;

use crate::json::JsonNumber;
use crate::llm::{cheap_model_for, spec_cheap_model, LlmConfig};
use crate::output::copy_opt_string;
use crate::safety::SafetyConfig;
use crate::text::{join, str_eq, strs};

verus! {

/// Per-role model overrides for AI repair.
#[derive(Debug, Clone)]
pub struct AiModelConfig {
    pub planner: Option<String>,
    pub fixer: Option<String>,
    pub verifier: Option<String>,
}

/// Checker configuration from `appz.json` under the `check` key.
#[derive(Debug, Clone)]
pub struct CheckConfig {
    pub strict: Option<bool>,
    pub ignore: Option<Vec<String>>,
    pub providers: Option<Vec<String>>,
    pub disabled: Option<Vec<String>>,
    pub ai_provider: Option<String>,
    pub ai_model: Option<String>,
    pub ai_models: Option<AiModelConfig>,
    pub ai_safety: Option<SafetyConfig>,
    pub ai_max_attempts: Option<u32>,
}

impl CheckConfig {
    /// A configuration with nothing set.
    pub fn empty() -> (r: Self)
        ensures
            r.strict is None && r.ignore is None && r.providers is None && r.disabled is None
                && r.ai_provider is None && r.ai_model is None && r.ai_models is None
                && r.ai_safety is None && r.ai_max_attempts is None,
    {
        CheckConfig {
            strict: None,
            ignore: None,
            providers: None,
            disabled: None,
            ai_provider: None,
            ai_model: None,
            ai_models: None,
            ai_safety: None,
            ai_max_attempts: None,
        }
    }
}

/// The settings of a check run (the project's sandbox is kept beside it by
/// the program).
#[derive(Debug, Clone)]
pub struct CheckContext {
    /// Project root directory.
    pub project_dir: String,
    /// Check configuration from `appz.json`.
    pub check_config: CheckConfig,
    /// Whether to apply safe fixes.
    pub fix: bool,
    /// Whether to run formatting checks.
    pub format: bool,
    /// Whether warnings fail the run.
    pub strict: bool,
    /// Only check these files.
    pub file_filter: Option<Vec<String>>,
    /// Whether to print JSON.
    pub json_output: bool,
    /// Whether running in CI.
    pub is_ci: bool,
}

impl CheckContext {
    /// Default settings for a project.
    pub fn new(project_dir: String) -> (r: Self)
        ensures
            r.project_dir == project_dir,
            r.check_config == CheckConfig::empty_spec(),
            !r.fix && !r.format && !r.strict && r.file_filter is None && !r.json_output && !r.is_ci,
    {
        CheckContext {
            project_dir,
            check_config: CheckConfig::empty(),
            fix: false,
            format: false,
            strict: false,
            file_filter: None,
            json_output: false,
            is_ci: false,
        }
    }

    /// Set the configuration; its `strict` setting, when given, decides
    /// strictness.
    pub fn with_config(self, config: CheckConfig) -> (r: Self)
        ensures
            r == (CheckContext {
                check_config: config,
                strict: match config.strict {
                    Some(s) => s,
                    None => self.strict,
                },
                ..self
            }),
    {
        let mut s = self;
        match config.strict {
            Some(strict) => s.strict = strict,
            None => {},
        }
        s.check_config = config;
        s
    }

    /// Set whether to apply safe fixes.
    pub fn with_fix(self, fix: bool) -> (r: Self)
        ensures
            r == (CheckContext { fix, ..self }),
    {
        let mut s = self;
        s.fix = fix;
        s
    }

    /// Set whether to run formatting checks.
    pub fn with_format(self, format: bool) -> (r: Self)
        ensures
            r == (CheckContext { format, ..self }),
    {
        let mut s = self;
        s.format = format;
        s
    }

    /// Set strict mode.
    pub fn with_strict(self, strict: bool) -> (r: Self)
        ensures
            r == (CheckContext { strict, ..self }),
    {
        let mut s = self;
        s.strict = strict;
        s
    }

    /// Restrict the run to some files.
    pub fn with_file_filter(self, files: Option<Vec<String>>) -> (r: Self)
        ensures
            r == (CheckContext { file_filter: files, ..self }),
    {
        let mut s = self;
        s.file_filter = files;
        s
    }

    /// Set JSON output.
    pub fn with_json_output(self, json: bool) -> (r: Self)
        ensures
            r == (CheckContext { json_output: json, ..self }),
    {
        let mut s = self;
        s.json_output = json;
        s
    }

    /// Set CI mode.
    pub fn with_ci(self, is_ci: bool) -> (r: Self)
        ensures
            r == (CheckContext { is_ci, ..self }),
    {
        let mut s = self;
        s.is_ci = is_ci;
        s
    }

    /// The files argument for tool commands: the filtered files joined with
    /// spaces, or `.` for the whole project.
    pub fn file_args(&self) -> (r: String)
        ensures
            r@ == match self.file_filter {
                Some(files) if files@.len() > 0 => join(strs(files@), seq![' ']),
                _ => "."@,
            },
    {
        match &self.file_filter {
            Some(files) => if files.len() > 0 {
                join_spaced(files)
            } else {
                String::from_str(".")
            },
            None => String::from_str("."),
        }
    }
}

impl CheckConfig {
    /// A configuration with nothing set.
    pub open spec fn empty_spec() -> Self {
        CheckConfig {
            strict: None,
            ignore: None,
            providers: None,
            disabled: None,
            ai_provider: None,
            ai_model: None,
            ai_models: None,
            ai_safety: None,
            ai_max_attempts: None,
        }
    }
}

/// Strings joined with single spaces.
fn join_spaced(v: &Vec<String>) -> (r: String)
    ensures
        r@ == join(strs(v@), seq![' ']),
{
    let mut s = String::new();
    let mut i: usize = 0;
    let ghost vs = strs(v@);
    while i < v.len()
        invariant
            i <= v@.len(),
            vs == strs(v@),
            s@ == join(vs.take(i as int), seq![' ']),
        decreases v.len() - i,
    {
        let ghost s0 = s@;
        if i > 0 {
            crate::text::push_char(&mut s, ' ');
        }
        crate::text::append(&mut s, v[i].as_str());
        proof {
            let t = vs.take(i + 1);
            assert(t.drop_last() =~= vs.take(i as int));
            assert(t.last() == v@[i as int]@);
            if i == 0 {
                assert(s0 =~= Seq::<char>::empty());
                assert(s@ =~= t[0]);
            } else {
                assert(s@ =~= s0 + seq![' '] + t.last());
            }
        }
        i += 1;
    }
    assert(vs.take(v@.len() as int) =~= vs);
    s
}

// ---------------------------------------------------------------------------
// AI repair configuration
// ---------------------------------------------------------------------------

/// The environment variables the AI repair configuration reads.
#[derive(Debug, Clone)]
pub struct AiEnvironment {
    pub openai_api_key: Option<String>,
    pub anthropic_api_key: Option<String>,
    pub ai_api_key: Option<String>,
    pub ollama_base_url: Option<String>,
}

/// Configuration of an AI repair run (the fractional safety limits are
/// added by the program).
#[derive(Debug, Clone)]
pub struct AiRepairConfig {
    /// The model call of the Planner agent.
    pub planner_llm: LlmConfig,
    /// The model call of the Fix agent.
    pub fixer_llm: LlmConfig,
    /// The model call of the Verify agent.
    pub verifier_llm: LlmConfig,
    /// Safety guardrails.
    pub safety: SafetyConfig,
    /// Whether verification is enabled.
    pub verify_enabled: bool,
    /// Whether to print verbose AI reasoning.
    pub verbose: bool,
    /// Maximum context bytes for the AI.
    pub max_context_bytes: Option<usize>,
    /// Project directory for custom prompt resolution.
    pub project_dir: Option<String>,
}

/// A model call as the repair configuration sets it up: the provider, its
/// key and (for Ollama) base URL, the model, and a temperature of 0.1.
pub open spec fn llm_set_up(l: LlmConfig, config: CheckConfig, env: AiEnvironment, model: Seq<char>) -> bool {
    &&& l.provider@ == spec_provider(config)
    &&& l.model@ == model
    &&& l.api_key == spec_api_key(spec_provider(config), env)
    &&& spec_provider(config) != "ollama"@ ==> l.base_url is None
    &&& spec_provider(config) == "ollama"@ ==> (l.base_url matches Some(u) && u@ == match env.ollama_base_url {
        Some(x) => x@,
        None => "http://localhost:11434"@,
    })
    &&& l.temperature matches JsonNumber::Float(t) && t@ == "0.1"@
}

/// The provider: the configured one, or `openai`.
pub open spec fn spec_provider(config: CheckConfig) -> Seq<char> {
    match config.ai_provider {
        Some(p) => p@,
        None => "openai"@,
    }
}

/// The API key of a provider: from `OPENAI_API_KEY`, `ANTHROPIC_API_KEY`,
/// none for Ollama, else `AI_API_KEY`.
pub open spec fn spec_api_key(provider: Seq<char>, env: AiEnvironment) -> Option<String> {
    if provider == "openai"@ {
        env.openai_api_key
    } else if provider == "anthropic"@ {
        env.anthropic_api_key
    } else if provider == "ollama"@ {
        None
    } else {
        env.ai_api_key
    }
}

/// The main model: the configured one, or `gpt-4o`.
pub open spec fn spec_default_model(config: CheckConfig) -> Seq<char> {
    match config.ai_model {
        Some(m) => m@,
        None => "gpt-4o"@,
    }
}

/// The number of attempts: the command line's, else the configuration's,
/// else the safety configuration's.
pub open spec fn spec_max_attempts(config: CheckConfig, cli: Option<u32>, base: u32) -> u32 {
    match cli {
        Some(a) => a,
        None => match config.ai_max_attempts {
            Some(a) => a,
            None => base,
        },
    }
}

/// A model override, or a default.
fn model_or(o: &Option<String>, d: &String) -> (r: String)
    ensures
        r@ == match o {
            Some(m) => m@,
            None => d@,
        },
{
    match o {
        Some(m) => m.clone(),
        None => d.clone(),
    }
}

/// A model call for the repair agents, at a temperature of 0.1.
fn llm_config(provider: &String, model: String, api_key: &Option<String>, base_url: &Option<String>) -> (r: LlmConfig)
    ensures
        r.provider@ == provider@,
        r.model@ == model@,
        r.api_key == *api_key,
        r.base_url == *base_url,
        r.temperature matches JsonNumber::Float(t) && t@ == "0.1"@,
{
    LlmConfig {
        provider: provider.clone(),
        model,
        api_key: copy_opt_string(api_key),
        base_url: copy_opt_string(base_url),
        temperature: JsonNumber::Float(String::from_str("0.1")),
    }
}

impl AiRepairConfig {
    /// Build the repair configuration from the check configuration, the
    /// command-line flags and the environment, with sensible defaults for
    /// anything missing.
    pub fn from_check_config(
        config: &CheckConfig,
        max_attempts: Option<u32>,
        ai_verify: Option<bool>,
        verbose_ai: bool,
        env: &AiEnvironment,
    ) -> (r: Self)
        ensures
            llm_set_up(
                r.planner_llm,
                *config,
                *env,
                match config.ai_models {
                    Some(m) if m.planner is Some => m.planner->0@,
                    _ => spec_cheap_model(spec_default_model(*config)),
                },
            ),
            llm_set_up(
                r.fixer_llm,
                *config,
                *env,
                match config.ai_models {
                    Some(m) if m.fixer is Some => m.fixer->0@,
                    _ => spec_default_model(*config),
                },
            ),
            llm_set_up(
                r.verifier_llm,
                *config,
                *env,
                match config.ai_models {
                    Some(m) if m.verifier is Some => m.verifier->0@,
                    _ => spec_cheap_model(spec_default_model(*config)),
                },
            ),
            r.safety.max_attempts == spec_max_attempts(
                *config,
                max_attempts,
                match config.ai_safety {
                    Some(s) => s.max_attempts,
                    None => 3,
                },
            ),
            r.safety.max_files_per_patch == match config.ai_safety {
                Some(s) => s.max_files_per_patch,
                None => 5,
            },
            strs(r.safety.protected_files@) == match config.ai_safety {
                Some(s) => strs(s.protected_files@),
                None => crate::safety::spec_default_protected_files(),
            },
            strs(r.safety.never_send@) == match config.ai_safety {
                Some(s) => strs(s.never_send@),
                None => crate::safety::spec_default_never_send(),
            },
            r.verify_enabled == match ai_verify {
                Some(v) => v,
                None => true,
            },
            r.verbose == verbose_ai,
            r.max_context_bytes is None,
            r.project_dir is None,
    {
        let provider = match &config.ai_provider {
            Some(p) => p.clone(),
            None => String::from_str("openai"),
        };
        let p = provider.as_str();
        let api_key = if str_eq(p, "openai") {
            copy_opt_string(&env.openai_api_key)
        } else if str_eq(p, "anthropic") {
            copy_opt_string(&env.anthropic_api_key)
        } else if str_eq(p, "ollama") {
            None
        } else {
            copy_opt_string(&env.ai_api_key)
        };
        let base_url = if str_eq(p, "ollama") {
            Some(
                match &env.ollama_base_url {
                    Some(u) => u.clone(),
                    None => String::from_str("http://localhost:11434"),
                },
            )
        } else {
            None
        };
        let default_model = match &config.ai_model {
            Some(m) => m.clone(),
            None => String::from_str("gpt-4o"),
        };
        let cheap = cheap_model_for(default_model.as_str());
        let (planner_model, fixer_model, verifier_model) = match &config.ai_models {
            Some(m) => (
                model_or(&m.planner, &cheap),
                model_or(&m.fixer, &default_model),
                model_or(&m.verifier, &cheap),
            ),
            None => (cheap.clone(), default_model.clone(), cheap.clone()),
        };
        let mut safety = match &config.ai_safety {
            Some(s) => s.duplicate(),
            None => SafetyConfig::default(),
        };
        match max_attempts {
            Some(a) => safety.max_attempts = a,
            None => match config.ai_max_attempts {
                Some(a) => safety.max_attempts = a,
                None => {},
            },
        }
        let verify_enabled = match ai_verify {
            Some(v) => v,
            None => true,
        };
        proof {
            reveal_strlit("0.1");
        }
        AiRepairConfig {
            planner_llm: llm_config(&provider, planner_model, &api_key, &base_url),
            fixer_llm: llm_config(&provider, fixer_model, &api_key, &base_url),
            verifier_llm: llm_config(&provider, verifier_model, &api_key, &base_url),
            safety,
            verify_enabled,
            verbose: verbose_ai,
            max_context_bytes: None,
            project_dir: None,
        }
    }
}

} // verus!
