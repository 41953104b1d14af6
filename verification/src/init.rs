//! Best-practice config file generation for `appz check --init`.
//!
//! Decides which starter configuration files a project gets: `biome.json`
//! for JavaScript/TypeScript, ruff settings for Python, `.stylelintrc.json`
//! for CSS, and a `.gitleaks.toml` baseline for a git repository. The
//! program writes them.
use vstd::prelude::*;

use crate::detect::{exists_exec, exists_in, DetectedLanguage, ProjectAnalysis, ProjectFacts};
use crate::text::{append, contains, str_contains};

verus! {

/// A configuration file to write, and how it is reported.
#[derive(Debug)]
pub struct InitFile {
    pub path: String,
    pub content: String,
    pub label: String,
}

/// The view of a file to write: path, content, label.
pub open spec fn init_view(f: InitFile) -> (Seq<char>, Seq<char>, Seq<char>) {
    (f.path@, f.content@, f.label@)
}

/// The views of files to write.
pub open spec fn init_views(v: Seq<InitFile>) -> Seq<(Seq<char>, Seq<char>, Seq<char>)> {
    Seq::new(v.len(), |i: int| init_view(v[i]))
}

/// Whether the analysis found a language.
pub open spec fn has_language(a: ProjectAnalysis, l: DetectedLanguage) -> bool {
    a.languages@.contains(l)
}

/// The files `init` writes, in order: `biome.json` for JavaScript or
/// TypeScript without a Biome or ESLint config; for Python without a ruff
/// config file, a `[tool.ruff]` section appended to `pyproject.toml` when
/// that exists and has none (its content as read, `None` when it could not
/// be read), else `ruff.toml`; `.stylelintrc.json` for CSS without a
/// Stylelint config; `.gitleaks.toml` for a git repository. No file that
/// exists is written anew.
pub open spec fn spec_init_plan(
    a: ProjectAnalysis,
    facts: ProjectFacts,
    pyproject: Option<Seq<char>>,
) -> Seq<(Seq<char>, Seq<char>, Seq<char>)> {
    let js = (has_language(a, DetectedLanguage::JavaScript) || has_language(
        a,
        DetectedLanguage::TypeScript,
    )) && !a.has_biome_config && !a.has_eslint_config && !exists_in(facts, "biome.json"@);
    let py: Seq<(Seq<char>, Seq<char>, Seq<char>)> = if has_language(a, DetectedLanguage::Python)
        && !exists_in(facts, "ruff.toml"@) && !exists_in(facts, ".ruff.toml"@) {
        if exists_in(facts, "pyproject.toml"@) {
            let content = match pyproject {
                Some(c) => c,
                None => Seq::empty(),
            };
            if contains(content, "[tool.ruff]"@) {
                Seq::empty()
            } else {
                seq![
                    (
                        "pyproject.toml"@,
                        content + RUFF_PYPROJECT_SECTION@,
                        "pyproject.toml (added [tool.ruff])"@,
                    ),
                ]
            }
        } else {
            seq![("ruff.toml"@, RUFF_CONFIG@, "ruff.toml"@)]
        }
    } else {
        Seq::empty()
    };
    let css = has_language(a, DetectedLanguage::Css) && !a.has_stylelint_config && !exists_in(
        facts,
        ".stylelintrc.json"@,
    );
    let git = a.is_git_repo && !exists_in(facts, ".gitleaks.toml"@);
    (if js {
        seq![("biome.json"@, BIOME_CONFIG@, "biome.json"@)]
    } else {
        Seq::empty()
    }) + py + (if css {
        seq![(".stylelintrc.json"@, STYLELINT_CONFIG@, ".stylelintrc.json"@)]
    } else {
        Seq::empty()
    }) + if git {
        seq![(".gitleaks.toml"@, GITLEAKS_CONFIG@, ".gitleaks.toml"@)]
    } else {
        Seq::empty()
    }
}

/// Whether the analysis found a language.
fn has_language_exec(a: &ProjectAnalysis, l: DetectedLanguage) -> (r: bool)
    ensures
        r == has_language(*a, l),
{
    let mut i: usize = 0;
    while i < a.languages.len()
        invariant
            i <= a.languages@.len(),
            forall|j: int| 0 <= j < i ==> a.languages@[j] != l,
        decreases a.languages.len() - i,
    {
        if a.languages[i] == l {
            assert(a.languages@[i as int] == l);
            return true;
        }
        i += 1;
    }
    false
}

fn init_file(path: &str, content: String, label: &str) -> (r: InitFile)
    ensures
        init_view(r) == (path@, content@, label@),
{
    InitFile { path: String::from_str(path), content, label: String::from_str(label) }
}

/// Appends a file to write.
fn push_file(v: &mut Vec<InitFile>, f: InitFile)
    ensures
        init_views(final(v)@) == init_views(old(v)@).push(init_view(f)),
{
    v.push(f);
    assert(init_views(v@) =~= init_views(old(v)@).push(init_view(f)));
}

/// The starter configuration files to write for a project, from its
/// analysis, which files exist, and `pyproject.toml` as read.
pub fn init_plan(analysis: &ProjectAnalysis, facts: &ProjectFacts, pyproject: Option<&str>) -> (r: Vec<InitFile>)
    ensures
        init_views(r@) == spec_init_plan(
            *analysis,
            *facts,
            match pyproject {
                Some(p) => Some(p@),
                None => None,
            },
        ),
{
    let mut out: Vec<InitFile> = Vec::new();
    assert(init_views(out@) =~= Seq::<(Seq<char>, Seq<char>, Seq<char>)>::empty());
    let js = (has_language_exec(analysis, DetectedLanguage::JavaScript) || has_language_exec(
        analysis,
        DetectedLanguage::TypeScript,
    )) && !analysis.has_biome_config && !analysis.has_eslint_config && !exists_exec(
        facts,
        "biome.json",
    );
    if js {
        push_file(&mut out, init_file("biome.json", String::from_str(BIOME_CONFIG), "biome.json"));
    }
    let ghost a1 = init_views(out@);
    if has_language_exec(analysis, DetectedLanguage::Python) && !exists_exec(facts, "ruff.toml")
        && !exists_exec(facts, ".ruff.toml") {
        if exists_exec(facts, "pyproject.toml") {
            let content = match pyproject {
                Some(c) => String::from_str(c),
                None => String::new(),
            };
            if !str_contains(content.as_str(), "[tool.ruff]") {
                let mut c = content;
                append(&mut c, RUFF_PYPROJECT_SECTION);
                push_file(&mut out, init_file("pyproject.toml", c, "pyproject.toml (added [tool.ruff])"));
            }
        } else {
            push_file(&mut out, init_file("ruff.toml", String::from_str(RUFF_CONFIG), "ruff.toml"));
        }
    }
    let ghost a2 = init_views(out@);
    if has_language_exec(analysis, DetectedLanguage::Css) && !analysis.has_stylelint_config
        && !exists_exec(facts, ".stylelintrc.json") {
        push_file(
            &mut out,
            init_file(".stylelintrc.json", String::from_str(STYLELINT_CONFIG), ".stylelintrc.json"),
        );
    }
    if analysis.is_git_repo && !exists_exec(facts, ".gitleaks.toml") {
        push_file(&mut out, init_file(".gitleaks.toml", String::from_str(GITLEAKS_CONFIG), ".gitleaks.toml"));
    }
    assert(Seq::<char>::empty() + RUFF_PYPROJECT_SECTION@ =~= RUFF_PYPROJECT_SECTION@);
    assert(init_views(out@) =~~= spec_init_plan(
        *analysis,
        *facts,
        match pyproject {
            Some(p) => Some(p@),
            None => None,
        },
    ));
    out
}

/// The starter `biome.json`.
pub const BIOME_CONFIG: &'static str = r#"{
  "$schema": "https://biomejs.dev/schemas/1.9.4/schema.json",
  "vcs": {
    "enabled": true,
    "clientKind": "git",
    "useIgnoreFile": true
  },
  "organizeImports": {
    "enabled": true
  },
  "linter": {
    "enabled": true,
    "rules": {
      "recommended": true,
      "complexity": {
        "noExtraBooleanCast": "error",
        "noMultipleSpacesInRegularExpressionLiterals": "error",
        "noUselessCatch": "error",
        "noUselessTypeConstraint": "error"
      },
      "correctness": {
        "noConstAssign": "error",
        "noConstantCondition": "warn",
        "noEmptyCharacterClassInRegex": "error",
        "noEmptyPattern": "error",
        "noGlobalObjectCalls": "error",
        "noInvalidUseBeforeDeclaration": "error",
        "noUndeclaredVariables": "error",
        "noUnusedImports": "warn",
        "noUnusedVariables": "warn",
        "useArrayLiterals": "error",
        "useExhaustiveDependencies": "warn",
        "useHookAtTopLevel": "error"
      },
      "suspicious": {
        "noDebugger": "error",
        "noDoubleEquals": "warn",
        "noDuplicateCase": "error",
        "noDuplicateObjectKeys": "error",
        "noFallthroughSwitchClause": "error",
        "noRedeclare": "error"
      }
    }
  },
  "formatter": {
    "enabled": true,
    "indentStyle": "space",
    "indentWidth": 2,
    "lineEnding": "lf",
    "lineWidth": 100
  },
  "javascript": {
    "formatter": {
      "quoteStyle": "single",
      "trailingCommas": "all",
      "semicolons": "always"
    }
  }
}
"#;

/// The starter `ruff.toml`.
pub const RUFF_CONFIG: &'static str = r#"# Ruff configuration — https://docs.astral.sh/ruff/configuration/
target-version = "py311"
line-length = 100

[lint]
# Enable recommended + additional rules.
select = [
    "E",     # pycodestyle errors
    "W",     # pycodestyle warnings
    "F",     # pyflakes
    "I",     # isort
    "N",     # pep8-naming
    "UP",    # pyupgrade
    "B",     # flake8-bugbear
    "S",     # flake8-bandit (security)
    "C4",    # flake8-comprehensions
    "SIM",   # flake8-simplify
    "TCH",   # flake8-type-checking
    "RUF",   # ruff-specific rules
]
ignore = [
    "E501",  # line-too-long (handled by formatter)
    "S101",  # assert usage (common in tests)
]

[lint.per-file-ignores]
"tests/**/*.py" = ["S101", "S106"]

[format]
quote-style = "double"
indent-style = "space"
"#;

/// The `[tool.ruff]` section added to `pyproject.toml`.
pub const RUFF_PYPROJECT_SECTION: &'static str = r#"

[tool.ruff]
target-version = "py311"
line-length = 100

[tool.ruff.lint]
select = ["E", "W", "F", "I", "N", "UP", "B", "S", "C4", "SIM", "TCH", "RUF"]
ignore = ["E501", "S101"]

[tool.ruff.lint.per-file-ignores]
"tests/**/*.py" = ["S101", "S106"]

[tool.ruff.format]
quote-style = "double"
indent-style = "space"
"#;

/// The starter `.stylelintrc.json`.
pub const STYLELINT_CONFIG: &'static str = r#"{
  "extends": ["stylelint-config-standard"],
  "rules": {
    "color-no-invalid-hex": true,
    "font-family-no-duplicate-names": true,
    "function-calc-no-unspaced-operator": true,
    "unit-no-unknown": true,
    "declaration-block-no-duplicate-properties": true,
    "selector-pseudo-class-no-unknown": true,
    "selector-pseudo-element-no-unknown": true,
    "selector-type-no-unknown": true,
    "no-duplicate-selectors": true,
    "no-empty-source": true,
    "no-invalid-double-slash-comments": true
  }
}
"#;

/// The starter `.gitleaks.toml`.
pub const GITLEAKS_CONFIG: &'static str = r#"# Gitleaks configuration — https://github.com/gitleaks/gitleaks
title = "Gitleaks config"

[allowlist]
description = "Allowlist for known false positives"
paths = [
    '''^\.gitleaks\.toml$''',
    '''(.*?)(png|jpg|gif|svg|ico|woff|woff2|ttf|eot)$''',
    '''node_modules''',
    '''vendor''',
    '''\.lock$''',
    '''pnpm-lock\.yaml$''',
    '''package-lock\.json$''',
]
"#;

} // verus!
