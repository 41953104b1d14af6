//! Language and framework detection for provider selection.
//!
//! Decides, from which marker files a project has and what its manifests
//! hold, which languages and frameworks it uses. Multiple languages can
//! match simultaneously (e.g. a Next.js project is JavaScript, TypeScript
//! and CSS).
use vstd::prelude::*;

use crate::text::{append, contains, str_contains, str_eq, strs};

verus! {

/// Detected language/stack in the project.
#[derive(Debug, Clone, Copy, PartialEq, Eq, Structural, Hash)]
pub enum DetectedLanguage {
    JavaScript,
    TypeScript,
    Python,
    Rust,
    Php,
    Css,
}

/// Result of project analysis for checker detection.
#[derive(Debug, Clone)]
pub struct ProjectAnalysis {
    /// Languages detected in the project.
    pub languages: Vec<DetectedLanguage>,
    /// Framework slugs.
    pub frameworks: Vec<String>,
    /// Whether the project has an existing Biome config.
    pub has_biome_config: bool,
    /// Whether the project has an existing ESLint config.
    pub has_eslint_config: bool,
    /// Whether the project has a tsconfig.json.
    pub has_tsconfig: bool,
    /// Whether the project has Stylelint config.
    pub has_stylelint_config: bool,
    /// Whether the project is a git repository.
    pub is_git_repo: bool,
}

impl ProjectAnalysis {
    /// Whether any JS/TS language was detected.
    pub fn has_js_ts(&self) -> (r: bool)
        ensures
            r == (self.languages@.contains(DetectedLanguage::JavaScript)
                || self.languages@.contains(DetectedLanguage::TypeScript)),
    {
        let mut i: usize = 0;
        while i < self.languages.len()
            invariant
                i <= self.languages@.len(),
                forall|j: int|
                    0 <= j < i ==> self.languages@[j] != DetectedLanguage::JavaScript
                        && self.languages@[j] != DetectedLanguage::TypeScript,
            decreases self.languages.len() - i,
        {
            if self.languages[i] == DetectedLanguage::JavaScript || self.languages[i]
                == DetectedLanguage::TypeScript {
                return true;
            }
            i += 1;
        }
        false
    }
}

/// One rule of a framework's detection.
#[derive(Debug, Clone)]
pub enum Detector {
    /// The framework's package is a dependency in `package.json` (never
    /// evaluated: the scan reads no file contents).
    MatchPackage(String),
    /// A path exists in the project.
    Path(String),
    /// A file's content matches (never evaluated: skipped for speed).
    MatchContent,
    /// The package is a dependency in `composer.json` (never evaluated).
    MatchComposerPackage(String),
}

/// A framework's detection rules: all of `every`, or else any of `some`.
#[derive(Debug, Clone)]
pub struct FrameworkDetectors {
    pub every: Option<Vec<Detector>>,
    pub some: Option<Vec<Detector>>,
}

/// A known framework.
#[derive(Debug, Clone)]
pub struct FrameworkInfo {
    pub slug: Option<String>,
    pub detectors: Option<FrameworkDetectors>,
}

/// What is known of the project directory: which of the paths that the
/// rules ask about exist. No file contents are read.
#[derive(Debug, Clone)]
pub struct ProjectFacts {
    /// Paths (relative to the project root) that exist.
    pub existing: Vec<String>,
}

/// Whether `p` exists in the project.
pub open spec fn exists_in(facts: ProjectFacts, p: Seq<char>) -> bool {
    strs(facts.existing@).contains(p)
}

/// Whether any of the paths exists.
pub open spec fn any_exists(facts: ProjectFacts, ps: Seq<Seq<char>>) -> bool {
    exists|i: int| 0 <= i < ps.len() && exists_in(facts, #[trigger] ps[i])
}

/// Stylelint configuration files.
pub open spec fn stylelint_configs() -> Seq<Seq<char>> {
    seq![
        ".stylelintrc"@,
        ".stylelintrc.json"@,
        ".stylelintrc.yml"@,
        "stylelint.config.js"@,
        "stylelint.config.mjs"@,
        "stylelint.config.cjs"@,
    ]
}

/// ESLint configuration files.
pub open spec fn eslint_configs() -> Seq<Seq<char>> {
    seq![
        ".eslintrc"@,
        ".eslintrc.js"@,
        ".eslintrc.cjs"@,
        ".eslintrc.json"@,
        ".eslintrc.yml"@,
        "eslint.config.js"@,
        "eslint.config.mjs"@,
        "eslint.config.cjs"@,
        "eslint.config.ts"@,
    ]
}

/// Python project markers.
pub open spec fn python_markers() -> Seq<Seq<char>> {
    seq!["pyproject.toml"@, "requirements.txt"@, "setup.py"@, "Pipfile"@]
}

/// Biome configuration files.
pub open spec fn biome_configs() -> Seq<Seq<char>> {
    seq!["biome.json"@, "biome.jsonc"@]
}

/// A language, if its condition holds.
pub open spec fn lang_if(b: bool, l: DetectedLanguage) -> Seq<DetectedLanguage> {
    if b {
        seq![l]
    } else {
        seq![]
    }
}

/// The languages detected, in order: JavaScript (a `package.json` or
/// `jsconfig.json`), TypeScript (`tsconfig.json`), Python, Rust
/// (`Cargo.toml`), PHP (`composer.json`), CSS (a Stylelint config, or a
/// `package.json` with a `src` directory).
pub open spec fn spec_languages(f: ProjectFacts) -> Seq<DetectedLanguage> {
    let pkg = exists_in(f, "package.json"@);
    lang_if(pkg || exists_in(f, "jsconfig.json"@), DetectedLanguage::JavaScript) + lang_if(
        exists_in(f, "tsconfig.json"@),
        DetectedLanguage::TypeScript,
    ) + lang_if(any_exists(f, python_markers()), DetectedLanguage::Python) + lang_if(
        exists_in(f, "Cargo.toml"@),
        DetectedLanguage::Rust,
    ) + lang_if(exists_in(f, "composer.json"@), DetectedLanguage::Php) + lang_if(
        any_exists(f, stylelint_configs()) || (pkg && exists_in(f, "src"@)),
        DetectedLanguage::Css,
    )
}

/// Whether one detection rule holds. Only path rules are checked: the
/// scan reads no file contents, so rules on a manifest's dependencies or
/// on file contents do not hold.
pub open spec fn detector_holds(f: ProjectFacts, d: Detector) -> bool {
    match d {
        Detector::Path(p) => exists_in(f, p@),
        _ => false,
    }
}

/// Whether a framework's rules match.
pub open spec fn framework_matches(f: ProjectFacts, d: FrameworkDetectors) -> bool {
    let all_hold = match d.every {
        Some(e) => forall|i: int| 0 <= i < e@.len() ==> detector_holds(f, #[trigger] e@[i]),
        None => false,
    };
    let any_holds = match d.some {
        Some(s) => exists|i: int| 0 <= i < s@.len() && detector_holds(f, #[trigger] s@[i]),
        None => false,
    };
    all_hold || any_holds
}

/// The slugs of the frameworks that match, in order.
pub open spec fn spec_frameworks(f: ProjectFacts, fws: Seq<FrameworkInfo>) -> Seq<Seq<char>>
    decreases fws.len(),
{
    if fws.len() == 0 {
        seq![]
    } else {
        let fw = fws.last();
        spec_frameworks(f, fws.drop_last()) + match (fw.slug, fw.detectors) {
            (Some(slug), Some(d)) => if framework_matches(f, d) {
                seq![slug@]
            } else {
                seq![]
            },
            _ => seq![],
        }
    }
}

/// Whether `p` exists in the project.
pub fn exists_exec(facts: &ProjectFacts, p: &str) -> (r: bool)
    ensures
        r == exists_in(*facts, p@),
{
    let mut i: usize = 0;
    while i < facts.existing.len()
        invariant
            i <= facts.existing@.len(),
            forall|j: int| 0 <= j < i ==> facts.existing@[j]@ != p@,
        decreases facts.existing.len() - i,
    {
        if str_eq(facts.existing[i].as_str(), p) {
            assert(strs(facts.existing@)[i as int] == p@);
            return true;
        }
        i += 1;
    }
    assert(!strs(facts.existing@).contains(p@)) by {
        if strs(facts.existing@).contains(p@) {
            let j = choose|j: int| 0 <= j < strs(facts.existing@).len() && strs(facts.existing@)[j] == p@;
            assert(facts.existing@[j]@ == p@);
        }
    }
    false
}

/// Whether any of the listed paths exists.
pub fn any_exists_exec(facts: &ProjectFacts, ps: &[&str]) -> (r: bool)
    ensures
        r == (exists|i: int| 0 <= i < ps@.len() && exists_in(*facts, #[trigger] ps@[i]@)),
{
    let mut i: usize = 0;
    while i < ps.len()
        invariant
            i <= ps@.len(),
            forall|j: int| 0 <= j < i ==> !exists_in(*facts, #[trigger] ps@[j]@),
        decreases ps.len() - i,
    {
        if exists_exec(facts, ps[i]) {
            return true;
        }
        i += 1;
    }
    false
}

/// Whether one detection rule holds.
fn detector_holds_exec(f: &ProjectFacts, d: &Detector) -> (r: bool)
    ensures
        r == detector_holds(*f, *d),
{
    match d {
        Detector::Path(p) => exists_exec(f, p.as_str()),
        _ => false,
    }
}

/// Whether a framework's rules match.
fn framework_matches_exec(f: &ProjectFacts, d: &FrameworkDetectors) -> (r: bool)
    ensures
        r == framework_matches(*f, *d),
{
    let mut matches = false;
    match &d.every {
        Some(e) => {
            let mut i: usize = 0;
            matches = true;
            while i < e.len()
                invariant
                    i <= e@.len(),
                    d.every == Some(*e),
                    matches == (forall|j: int| 0 <= j < i ==> detector_holds(*f, #[trigger] e@[j])),
                decreases e.len() - i,
            {
                if !detector_holds_exec(f, &e[i]) {
                    matches = false;
                }
                i += 1;
            }
        },
        None => {},
    }
    if !matches {
        match &d.some {
            Some(s) => {
                let mut i: usize = 0;
                while i < s.len()
                    invariant
                        i <= s@.len(),
                        !matches,
                        d.some == Some(*s),
                        forall|j: int| 0 <= j < i ==> !detector_holds(*f, #[trigger] s@[j]),
                    decreases s.len() - i,
                {
                    if detector_holds_exec(f, &s[i]) {
                        assert(detector_holds(*f, s@[i as int]));
                        let ghost ss = d.some->0;
                        assert(ss@[i as int] == s@[i as int]);
                        assert(exists|j: int| 0 <= j < ss@.len() && detector_holds(*f, #[trigger] ss@[j]));
                        assert(framework_matches(*f, *d));
                        return true;
                    }
                    i += 1;
                }
            },
            None => {},
        }
    }
    matches
}

/// Analyse a project to determine languages and tooling, from the marker
/// files that exist alone: no file contents are read.
pub fn analyse_project(facts: &ProjectFacts, known_frameworks: &[FrameworkInfo]) -> (r:
    ProjectAnalysis)
    ensures
        r.languages@ == spec_languages(*facts),
        strs(r.frameworks@) == spec_frameworks(*facts, known_frameworks@),
        r.has_biome_config == any_exists(*facts, biome_configs()),
        r.has_eslint_config == any_exists(*facts, eslint_configs()),
        r.has_tsconfig == exists_in(*facts, "tsconfig.json"@),
        r.has_stylelint_config == any_exists(*facts, stylelint_configs()),
        r.is_git_repo == exists_in(*facts, ".git"@),
{
    let mut languages: Vec<DetectedLanguage> = Vec::new();
    let has_package_json = exists_exec(facts, "package.json");
    let has_tsconfig = exists_exec(facts, "tsconfig.json");
    let has_jsconfig = exists_exec(facts, "jsconfig.json");
    if has_package_json || has_jsconfig {
        languages.push(DetectedLanguage::JavaScript);
    }
    if has_tsconfig {
        languages.push(DetectedLanguage::TypeScript);
    }
    let py: [&str; 4] = ["pyproject.toml", "requirements.txt", "setup.py", "Pipfile"];
    assert(py@.map_values(|s: &str| s@) =~= python_markers());
    let has_python = any_exists_exec(facts, &py);
    assert(has_python == any_exists(*facts, python_markers())) by {
        if has_python {
            let i = choose|i: int| 0 <= i < py@.len() && exists_in(*facts, #[trigger] py@[i]@);
            assert(python_markers()[i] == py@[i]@);
        }
        if any_exists(*facts, python_markers()) {
            let i = choose|i: int| 0 <= i < python_markers().len() && exists_in(*facts, #[trigger] python_markers()[i]);
            assert(python_markers()[i] == py@[i]@);
        }
    }
    if has_python {
        languages.push(DetectedLanguage::Python);
    }
    if exists_exec(facts, "Cargo.toml") {
        languages.push(DetectedLanguage::Rust);
    }
    let has_composer = exists_exec(facts, "composer.json");
    if has_composer {
        languages.push(DetectedLanguage::Php);
    }
    let has_css_files = exists_exec(facts, "src");
    let sl: [&str; 6] = [
        ".stylelintrc",
        ".stylelintrc.json",
        ".stylelintrc.yml",
        "stylelint.config.js",
        "stylelint.config.mjs",
        "stylelint.config.cjs",
    ];
    let has_stylelint_config = any_exists_exec(facts, &sl);
    assert(has_stylelint_config == any_exists(*facts, stylelint_configs())) by {
        if has_stylelint_config {
            let i = choose|i: int| 0 <= i < sl@.len() && exists_in(*facts, #[trigger] sl@[i]@);
            assert(stylelint_configs()[i] == sl@[i]@);
        }
        if any_exists(*facts, stylelint_configs()) {
            let i = choose|i: int| 0 <= i < stylelint_configs().len() && exists_in(*facts, #[trigger] stylelint_configs()[i]);
            assert(stylelint_configs()[i] == sl@[i]@);
        }
    }
    if has_stylelint_config || (has_package_json && has_css_files) {
        languages.push(DetectedLanguage::Css);
    }
    assert(languages@ =~= spec_languages(*facts));
    let bc: [&str; 2] = ["biome.json", "biome.jsonc"];
    let has_biome_config = any_exists_exec(facts, &bc);
    assert(has_biome_config == any_exists(*facts, biome_configs())) by {
        if has_biome_config {
            let i = choose|i: int| 0 <= i < bc@.len() && exists_in(*facts, #[trigger] bc@[i]@);
            assert(biome_configs()[i] == bc@[i]@);
        }
        if any_exists(*facts, biome_configs()) {
            let i = choose|i: int| 0 <= i < biome_configs().len() && exists_in(*facts, #[trigger] biome_configs()[i]);
            assert(biome_configs()[i] == bc@[i]@);
        }
    }
    let es: [&str; 9] = [
        ".eslintrc",
        ".eslintrc.js",
        ".eslintrc.cjs",
        ".eslintrc.json",
        ".eslintrc.yml",
        "eslint.config.js",
        "eslint.config.mjs",
        "eslint.config.cjs",
        "eslint.config.ts",
    ];
    let has_eslint_config = any_exists_exec(facts, &es);
    assert(has_eslint_config == any_exists(*facts, eslint_configs())) by {
        if has_eslint_config {
            let i = choose|i: int| 0 <= i < es@.len() && exists_in(*facts, #[trigger] es@[i]@);
            assert(eslint_configs()[i] == es@[i]@);
        }
        if any_exists(*facts, eslint_configs()) {
            let i = choose|i: int| 0 <= i < eslint_configs().len() && exists_in(*facts, #[trigger] eslint_configs()[i]);
            assert(eslint_configs()[i] == es@[i]@);
        }
    }
    let is_git_repo = exists_exec(facts, ".git");
    let mut frameworks: Vec<String> = Vec::new();
    let mut k: usize = 0;
    while k < known_frameworks.len()
        invariant
            k <= known_frameworks@.len(),
            strs(frameworks@) == spec_frameworks(*facts, known_frameworks@.take(k as int)),
        decreases known_frameworks.len() - k,
    {
        assert(known_frameworks@.take(k + 1).drop_last() =~= known_frameworks@.take(k as int));
        let fw = &known_frameworks[k];
        let ghost o = frameworks@;
        match (&fw.slug, &fw.detectors) {
            (Some(slug), Some(d)) => {
                if framework_matches_exec(facts, d) {
                    frameworks.push(slug.clone());
                    assert(strs(frameworks@) =~= strs(o) + seq![slug@]);
                } else {
                    assert(strs(frameworks@) =~= strs(o) + Seq::<Seq<char>>::empty());
                }
            },
            _ => {
                assert(strs(frameworks@) =~= strs(o) + Seq::<Seq<char>>::empty());
            },
        }
        k += 1;
    }
    assert(known_frameworks@.take(known_frameworks@.len() as int) =~= known_frameworks@);
    ProjectAnalysis {
        languages,
        frameworks,
        has_biome_config,
        has_eslint_config,
        has_tsconfig,
        has_stylelint_config,
        is_git_repo,
    }
}

} // verus!
