//! What executing a blueprint asks of the WordPress runtime.
//!
//! Each step of a parsed blueprint becomes a list of actions (WP-CLI
//! commands, shell commands in the runtime, downloads, file writes). A
//! `PlanRun` orders them, the top-level actions first and then each entry
//! announced before its own, and ends at the first that fails; the program
//! performs what it asks for. A `Fail` action always fails, with its
//! message.
use vstd::prelude::*;

use crate::blueprint::{
    ensure_path_within, extract_plugin_slug, json_value_to_string,
    json_value_to_wp_config_string, normalize_path, normalized, parts_prefix, path_components,
    spec_extract_plugin_slug, spec_json_value_to_string, spec_json_value_to_wp_config_string,
    spec_normalize_php_version, normalize_php_version, BlueprintError, Features,
    InstallPluginOptions, InstallThemeOptions, LoginShorthand, Meta, PhpCode, PreferredVersions,
    WpCliCommand, WpInstallationOptions,
};
use crate::json::{json_get, json_str, json_str_opt, JsonValue};
use crate::text::{
    append, drop_prefix, drop_prefix_exec, starts_with, str_starts_with, str_trim, string_from,
    decimal, strs, to_chars, trim, u64_to_string, usize_to_string, views, words, words_vec,
};

verus! {

// ---------------------------------------------------------------------------
// The parsed blueprint
// ---------------------------------------------------------------------------

/// A file resource reference.
#[derive(Debug)]
pub enum FileResource {
    WordPressPlugin { slug: String },
    WordPressTheme { slug: String },
    Url { url: String, caption: Option<String> },
    Vfs { path: String },
    Literal { name: Option<String>, contents: JsonValue },
    Bundled { path: String },
    Zip { inner: JsonValue, name: Option<String> },
}

/// A directory resource reference.
#[derive(Debug)]
pub enum DirectoryResource {
    Git { url: String, git_ref: Option<String>, ref_type: Option<String>, path: Option<String> },
    Literal { name: Option<String>, files: JsonValue },
}

/// `pluginData` / `themeData`: a file resource, a directory resource, or
/// JSON of any other shape.
#[derive(Debug)]
pub enum ResourceData {
    File(FileResource),
    Directory(DirectoryResource),
    Raw(JsonValue),
}

/// A JSON field that a step reads as a file resource: the resource when
/// the JSON is one, else the JSON itself.
#[derive(Debug)]
pub enum ResourceValue {
    Resource(FileResource),
    Raw(JsonValue),
}

/// `writeFile.data`: text, a file resource, or other JSON.
#[derive(Debug)]
pub enum WriteFileData {
    String(String),
    Resource(FileResource),
    Raw(JsonValue),
}

/// `writeFiles.filesTree`: a directory resource, or other JSON.
#[derive(Debug)]
pub enum FilesTreeData {
    Directory(DirectoryResource),
    Raw(JsonValue),
}

/// A blueprint step. Maps hold their members in the order they were read.
#[derive(Debug)]
pub enum Step {
    ActivatePlugin(ActivatePluginStep),
    ActivateTheme(ActivateThemeStep),
    Cp(CpStep),
    DefineWpConfigConsts(DefineWpConfigConstsStep),
    DefineSiteUrl(DefineSiteUrlStep),
    EnableMultisite(EnableMultisiteStep),
    ImportThemeStarterContent(ImportThemeStarterContentStep),
    ImportWordPressFiles(ImportWordPressFilesStep),
    ImportWxr(ImportWxrStep),
    InstallPlugin(InstallPluginStep),
    InstallTheme(InstallThemeStep),
    Login(LoginStep),
    Mkdir(MkdirStep),
    Mv(MvStep),
    Request(RequestStep),
    ResetData(ResetDataStep),
    Rm(RmStep),
    Rmdir(RmdirStep),
    RunPhp(RunPhpStep),
    RunPhpWithOptions(RunPhpWithOptionsStep),
    RunWpInstallationWizard(RunWpInstallationWizardStep),
    RunSql(RunSqlStep),
    SetSiteLanguage(SetSiteLanguageStep),
    SetSiteOptions(SetSiteOptionsStep),
    Unzip(UnzipStep),
    UpdateUserMeta(UpdateUserMetaStep),
    WriteFile(WriteFileStep),
    WriteFiles(WriteFilesStep),
    WpCli(WpCliStep),
}

/// What the `activatePlugin` step reads.
#[derive(Debug)]
pub struct ActivatePluginStep {
    pub plugin_path: String,
    pub plugin_name: Option<String>,
}

/// What the `activateTheme` step reads.
#[derive(Debug)]
pub struct ActivateThemeStep {
    pub theme_folder_name: String,
}

/// What the `cp` step reads.
#[derive(Debug)]
pub struct CpStep {
    pub from_path: String,
    pub to_path: String,
}

/// What the `defineWpConfigConsts` step reads.
#[derive(Debug)]
pub struct DefineWpConfigConstsStep {
    pub consts: Vec<(String, JsonValue)>,
}

/// What the `defineSiteUrl` step reads.
#[derive(Debug)]
pub struct DefineSiteUrlStep {
    pub site_url: String,
}

/// The `enableMultisite` step, which reads nothing.
#[derive(Debug)]
pub struct EnableMultisiteStep {}

/// What the `importThemeStarterContent` step reads.
#[derive(Debug)]
pub struct ImportThemeStarterContentStep {
    pub theme_slug: Option<String>,
}

/// What the `importWordPressFiles` step reads.
#[derive(Debug)]
pub struct ImportWordPressFilesStep {
    pub wordpress_files_zip: ResourceValue,
}

/// What the `importWxr` step reads.
#[derive(Debug)]
pub struct ImportWxrStep {
    pub file: ResourceValue,
}

/// What the `installPlugin` step reads.
#[derive(Debug)]
pub struct InstallPluginStep {
    pub plugin_data: Option<ResourceData>,
    pub plugin_zip_file: Option<ResourceValue>,
    pub options: Option<InstallPluginOptions>,
}

/// What the `installTheme` step reads.
#[derive(Debug)]
pub struct InstallThemeStep {
    pub theme_data: Option<ResourceData>,
    pub theme_zip_file: Option<ResourceValue>,
    pub options: Option<InstallThemeOptions>,
}

/// What the `login` step reads.
#[derive(Debug)]
pub struct LoginStep {
    pub username: Option<String>,
    pub password: Option<String>,
}

/// What the `mkdir` step reads.
#[derive(Debug)]
pub struct MkdirStep {
    pub path: String,
}

/// What the `mv` step reads.
#[derive(Debug)]
pub struct MvStep {
    pub from_path: String,
    pub to_path: String,
}

/// What the `request` step reads.
#[derive(Debug)]
pub struct RequestStep {
    pub request: JsonValue,
}

/// The `resetData` step, which reads nothing.
#[derive(Debug)]
pub struct ResetDataStep {}

/// What the `rm` step reads.
#[derive(Debug)]
pub struct RmStep {
    pub path: String,
}

/// What the `rmdir` step reads.
#[derive(Debug)]
pub struct RmdirStep {
    pub path: String,
}

/// What the `runPHP` step reads.
#[derive(Debug)]
pub struct RunPhpStep {
    pub code: PhpCode,
}

/// What the `runPHPWithOptions` step reads.
#[derive(Debug)]
pub struct RunPhpWithOptionsStep {
    pub options: JsonValue,
}

/// What the `runWpInstallationWizard` step reads.
#[derive(Debug)]
pub struct RunWpInstallationWizardStep {
    pub options: Option<WpInstallationOptions>,
}

/// What the `runSql` step reads.
#[derive(Debug)]
pub struct RunSqlStep {
    pub sql: ResourceValue,
}

/// What the `setSiteLanguage` step reads.
#[derive(Debug)]
pub struct SetSiteLanguageStep {
    pub language: String,
}

/// What the `setSiteOptions` step reads.
#[derive(Debug)]
pub struct SetSiteOptionsStep {
    pub options: Vec<(String, JsonValue)>,
}

/// What the `unzip` step reads.
#[derive(Debug)]
pub struct UnzipStep {
    pub zip_file: ResourceValue,
    pub extract_to_path: String,
}

/// What the `updateUserMeta` step reads.
#[derive(Debug)]
pub struct UpdateUserMetaStep {
    pub user_id: u64,
    pub meta: Vec<(String, JsonValue)>,
}

/// What the `writeFile` step reads.
#[derive(Debug)]
pub struct WriteFileStep {
    pub path: String,
    pub data: WriteFileData,
}

/// What the `writeFiles` step reads.
#[derive(Debug)]
pub struct WriteFilesStep {
    pub write_to_path: String,
    pub files_tree: FilesTreeData,
}

/// What the `wp-cli` step reads.
#[derive(Debug)]
pub struct WpCliStep {
    pub command: WpCliCommand,
}

/// An entry of the `steps` array: a step, a plugin slug, or a flag or
/// null (both skipped).
#[derive(Debug)]
pub enum StepEntry {
    Step(Step),
    String(String),
    Bool(bool),
    Null,
}

/// A plugin of the top-level `plugins` list.
#[derive(Debug)]
pub enum PluginShorthand {
    Slug(String),
    Resource(FileResource),
}

/// A parsed blueprint.
#[derive(Debug)]
pub struct Blueprint {
    pub schema: Option<String>,
    pub meta: Option<Meta>,
    pub landing_page: Option<String>,
    pub description: Option<String>,
    pub preferred_versions: Option<PreferredVersions>,
    pub features: Option<Features>,
    pub extra_libraries: Vec<String>,
    pub constants: Option<Vec<(String, JsonValue)>>,
    pub plugins: Vec<PluginShorthand>,
    pub site_options: Option<Vec<(String, JsonValue)>>,
    pub login: Option<LoginShorthand>,
    pub steps: Vec<StepEntry>,
}

/// The step type string of a step, as logged.
pub open spec fn spec_type_name(s: Step) -> Seq<char> {
    match s {
        Step::ActivatePlugin(..) => "activatePlugin"@,
        Step::ActivateTheme(..) => "activateTheme"@,
        Step::Cp(..) => "cp"@,
        Step::DefineWpConfigConsts(..) => "defineWpConfigConsts"@,
        Step::DefineSiteUrl(..) => "defineSiteUrl"@,
        Step::EnableMultisite(..) => "enableMultisite"@,
        Step::ImportThemeStarterContent(..) => "importThemeStarterContent"@,
        Step::ImportWordPressFiles(..) => "importWordPressFiles"@,
        Step::ImportWxr(..) => "importWxr"@,
        Step::InstallPlugin(..) => "installPlugin"@,
        Step::InstallTheme(..) => "installTheme"@,
        Step::Login(..) => "login"@,
        Step::Mkdir(..) => "mkdir"@,
        Step::Mv(..) => "mv"@,
        Step::Request(..) => "request"@,
        Step::ResetData(..) => "resetData"@,
        Step::Rm(..) => "rm"@,
        Step::Rmdir(..) => "rmdir"@,
        Step::RunPhp(..) => "runPHP"@,
        Step::RunPhpWithOptions(..) => "runPHPWithOptions"@,
        Step::RunWpInstallationWizard(..) => "runWpInstallationWizard"@,
        Step::RunSql(..) => "runSql"@,
        Step::SetSiteLanguage(..) => "setSiteLanguage"@,
        Step::SetSiteOptions(..) => "setSiteOptions"@,
        Step::Unzip(..) => "unzip"@,
        Step::UpdateUserMeta(..) => "updateUserMeta"@,
        Step::WriteFile(..) => "writeFile"@,
        Step::WriteFiles(..) => "writeFiles"@,
        Step::WpCli(..) => "wp-cli"@,
    }
}

impl Step {
    /// Return the step type string for logging.
    pub fn type_label(&self) -> (r: &'static str)
        ensures
            r@ == spec_type_name(*self),
    {
        match self {
            Step::ActivatePlugin(..) => "activatePlugin",
            Step::ActivateTheme(..) => "activateTheme",
            Step::Cp(..) => "cp",
            Step::DefineWpConfigConsts(..) => "defineWpConfigConsts",
            Step::DefineSiteUrl(..) => "defineSiteUrl",
            Step::EnableMultisite(..) => "enableMultisite",
            Step::ImportThemeStarterContent(..) => "importThemeStarterContent",
            Step::ImportWordPressFiles(..) => "importWordPressFiles",
            Step::ImportWxr(..) => "importWxr",
            Step::InstallPlugin(..) => "installPlugin",
            Step::InstallTheme(..) => "installTheme",
            Step::Login(..) => "login",
            Step::Mkdir(..) => "mkdir",
            Step::Mv(..) => "mv",
            Step::Request(..) => "request",
            Step::ResetData(..) => "resetData",
            Step::Rm(..) => "rm",
            Step::Rmdir(..) => "rmdir",
            Step::RunPhp(..) => "runPHP",
            Step::RunPhpWithOptions(..) => "runPHPWithOptions",
            Step::RunWpInstallationWizard(..) => "runWpInstallationWizard",
            Step::RunSql(..) => "runSql",
            Step::SetSiteLanguage(..) => "setSiteLanguage",
            Step::SetSiteOptions(..) => "setSiteOptions",
            Step::Unzip(..) => "unzip",
            Step::UpdateUserMeta(..) => "updateUserMeta",
            Step::WriteFile(..) => "writeFile",
            Step::WriteFiles(..) => "writeFiles",
            Step::WpCli(..) => "wp-cli",
        }
    }
}

// ---------------------------------------------------------------------------
// Running the steps
// ---------------------------------------------------------------------------

/// The progress line of the entry at `index` of `total`: a step by its
/// type, a plugin slug as its install; nothing for the other entries.
pub open spec fn spec_progress_line(index: nat, total: nat, e: StepEntry) -> Option<Seq<char>> {
    let head = "  ["@ + decimal(index + 1) + "/"@ + decimal(total) + "] "@;
    match e {
        StepEntry::Step(s) => Some(head + spec_type_name(s) + "..."@),
        StepEntry::String(slug) => Some(head + "installPlugin ("@ + slug@ + ")..."@),
        _ => None,
    }
}

/// The line announcing an entry before its actions run.
pub fn progress_line(index: usize, total: usize, entry: &StepEntry) -> (r: Option<String>)
    requires
        index < total,
    ensures
        match spec_progress_line(index as nat, total as nat, *entry) {
            Some(t) => r matches Some(x) && x@ == t,
            None => r is None,
        },
{
    let mut head = String::from_str("  [");
    let a = usize_to_string(index + 1);
    append(&mut head, a.as_str());
    append(&mut head, "/");
    let b = usize_to_string(total);
    append(&mut head, b.as_str());
    append(&mut head, "] ");
    match entry {
        StepEntry::Step(s) => {
            append(&mut head, s.type_label());
            append(&mut head, "...");
            Some(head)
        },
        StepEntry::String(slug) => {
            append(&mut head, "installPlugin (");
            append(&mut head, slug.as_str());
            append(&mut head, ")...");
            Some(head)
        },
        _ => None,
    }
}

/// The error of an entry one of whose actions failed with `message`: a
/// step's failure names the step by its index and type; any other failure
/// stands as it is.
pub open spec fn spec_entry_failure(index: nat, e: StepEntry, message: Seq<char>) -> Seq<char> {
    match e {
        StepEntry::Step(s) => "Step "@ + decimal(index) + " ("@ + spec_type_name(s) + ") failed: "@
            + message,
        _ => message,
    }
}

/// The error of a step whose action failed.
pub fn step_failed(index: usize, step: &Step, message: String) -> (r: BlueprintError)
    ensures
        r matches BlueprintError::StepFailed { step_index, step_type, message: m } && step_index
            == index && step_type@ == spec_type_name(*step) && m == message,
{
    BlueprintError::StepFailed { step_index: index, step_type: String::from_str(step.type_label()), message }
}

/// The message of an entry one of whose actions failed with `message`.
pub fn entry_failure(index: usize, entry: &StepEntry, message: String) -> (r: String)
    ensures
        r@ == spec_entry_failure(index as nat, *entry, message@),
{
    match entry {
        StepEntry::Step(s) => step_failed(index, s, message).message(),
        _ => message,
    }
}

/// What a run of a blueprint's plan is told: it starts, the move it asked
/// for was made, or the action it asked for failed with a message.
#[derive(Debug)]
pub enum RunEvent {
    Start,
    Done,
    Failed(String),
}

/// What a run of a blueprint's plan asks for next.
#[derive(Debug)]
pub enum RunMove {
    /// Announce entry `i` of the steps (its progress line).
    Announce(usize),
    /// Perform action `pos` of part `part`: part 0 is the top-level
    /// actions, part `i + 1` the actions of entry `i`.
    Perform { part: usize, pos: usize },
    /// The run is over: all went well, or the part whose action failed
    /// and the failure's message.
    Finish(Result<(), (usize, String)>),
}

/// A run of a blueprint's plan, one part after another: the top-level
/// actions, then each entry, announced before its actions. The first
/// failure ends it.
#[derive(Debug)]
pub struct PlanRun {
    /// The number of actions of each part.
    pub sizes: Vec<usize>,
    /// The part under way.
    pub part: usize,
    /// The next action of that part.
    pub pos: usize,
    /// Whether the part under way was announced.
    pub announced: bool,
    /// Whether the last move asked for an action.
    pub performing: bool,
    /// How the run ended, once it has.
    pub outcome: Option<Result<(), (usize, String)>>,
}

/// How a run ended, with the message as text.
pub open spec fn outcome_view(o: Result<(), (usize, String)>) -> Result<(), (int, Seq<char>)> {
    match o {
        Ok(()) => Ok(()),
        Err((p, m)) => Err((p as int, m@)),
    }
}

/// A move as plain values.
pub enum MoveView {
    Announce(int),
    Perform(int, int),
    Finish(Result<(), (int, Seq<char>)>),
}

/// The view of a move.
pub open spec fn move_view(m: RunMove) -> MoveView {
    match m {
        RunMove::Announce(i) => MoveView::Announce(i as int),
        RunMove::Perform { part, pos } => MoveView::Perform(part as int, pos as int),
        RunMove::Finish(o) => MoveView::Finish(outcome_view(o)),
    }
}

/// A run as plain values.
pub struct RunView {
    pub sizes: Seq<usize>,
    pub part: int,
    pub pos: int,
    pub announced: bool,
    pub performing: bool,
    pub outcome: Option<Result<(), (int, Seq<char>)>>,
}

/// The view of a run.
pub open spec fn run_view(r: PlanRun) -> RunView {
    RunView {
        sizes: r.sizes@,
        part: r.part as int,
        pos: r.pos as int,
        announced: r.announced,
        performing: r.performing,
        outcome: match r.outcome {
            Some(o) => Some(outcome_view(o)),
            None => None,
        },
    }
}

/// The next move from a position: announce an entry not yet announced,
/// perform the next action of the part, or go on to the next part; finish
/// after the last. With the position it is made from.
pub open spec fn next_move(sizes: Seq<usize>, part: int, pos: int, announced: bool) -> (
    int,
    int,
    bool,
    MoveView,
)
    decreases sizes.len() - part,
{
    if part < 0 || part >= sizes.len() {
        (part, pos, announced, MoveView::Finish(Ok(())))
    } else if part > 0 && !announced {
        (part, pos, true, MoveView::Announce(part - 1))
    } else if pos < sizes[part] {
        (part, pos, announced, MoveView::Perform(part, pos))
    } else {
        next_move(sizes, part + 1, 0, false)
    }
}

/// The run after a move is found.
pub open spec fn moved(r: RunView, m: (int, int, bool, MoveView)) -> RunView {
    RunView {
        sizes: r.sizes,
        part: m.0,
        pos: m.1,
        announced: m.2,
        performing: m.3 is Perform,
        outcome: if m.3 is Finish {
            Some(Ok(()))
        } else {
            None
        },
    }
}

/// One step of a run: what it becomes and what it asks for. Once over, it
/// answers every event with how it ended.
pub open spec fn spec_run_step(r: RunView, e: RunEvent) -> (RunView, MoveView) {
    match r.outcome {
        Some(o) => (r, MoveView::Finish(o)),
        None => match e {
            RunEvent::Failed(m) => (
                RunView { outcome: Some(Err((r.part, m@))), performing: false, ..r },
                MoveView::Finish(Err((r.part, m@))),
            ),
            RunEvent::Start => {
                let m = next_move(r.sizes, r.part, r.pos, r.announced);
                (moved(r, m), m.3)
            },
            RunEvent::Done => {
                let pos = if r.performing {
                    r.pos + 1
                } else {
                    r.pos
                };
                let m = next_move(r.sizes, r.part, pos, r.announced);
                (moved(r, m), m.3)
            },
        },
    }
}

/// A position of a run stays within its parts.
pub open spec fn run_wf(r: PlanRun) -> bool {
    &&& r.part <= r.sizes@.len()
    &&& r.part < r.sizes@.len() ==> r.pos <= r.sizes@[r.part as int]
    &&& (r.outcome is None && r.performing) ==> (r.part < r.sizes@.len() && r.pos
        < r.sizes@[r.part as int])
}

/// A position that `next_move` gives stays within the parts.
pub proof fn lemma_next_move_wf(sizes: Seq<usize>, part: int, pos: int, announced: bool)
    requires
        0 <= part <= sizes.len(),
        0 <= pos,
        part < sizes.len() ==> pos <= sizes[part],
    ensures
        ({
            let m = next_move(sizes, part, pos, announced);
            &&& 0 <= m.0 <= sizes.len()
            &&& 0 <= m.1
            &&& m.0 < sizes.len() ==> m.1 <= sizes[m.0]
            &&& m.3 is Perform ==> m.0 < sizes.len() && m.1 < sizes[m.0] && m.3 == MoveView::Perform(
                m.0,
                m.1,
            )
        }),
    decreases sizes.len() - part,
{
    if part < sizes.len() && !(part > 0 && !announced) && pos >= sizes[part] {
        lemma_next_move_wf(sizes, part + 1, 0, false);
    }
}

impl PlanRun {
    /// A run of parts with these numbers of actions, not started.
    pub fn new(sizes: Vec<usize>) -> (r: Self)
        ensures
            r.sizes@ == sizes@,
            r.part == 0 && r.pos == 0 && !r.announced && !r.performing && r.outcome is None,
            run_wf(r),
    {
        PlanRun { sizes, part: 0, pos: 0, announced: false, performing: false, outcome: None }
    }

    /// The next move from the run's position, which it takes.
    fn advance(&mut self) -> (m: RunMove)
        requires
            old(self).part <= old(self).sizes@.len(),
            old(self).part < old(self).sizes@.len() ==> old(self).pos <= old(self).sizes@[old(self).part as int],
        ensures
            run_view(*final(self)) == moved(
                run_view(*old(self)),
                next_move(old(self).sizes@, old(self).part as int, old(self).pos as int, old(self).announced),
            ),
            move_view(m) == next_move(
                old(self).sizes@,
                old(self).part as int,
                old(self).pos as int,
                old(self).announced,
            ).3,
    {
        let ghost target = next_move(self.sizes@, self.part as int, self.pos as int, self.announced);
        loop
            invariant
                self.part <= self.sizes@.len(),
                self.part < self.sizes@.len() ==> self.pos <= self.sizes@[self.part as int],
                next_move(self.sizes@, self.part as int, self.pos as int, self.announced) == target,
                target == next_move(
                    old(self).sizes@,
                    old(self).part as int,
                    old(self).pos as int,
                    old(self).announced,
                ),
                self.sizes@ == old(self).sizes@,
            decreases self.sizes@.len() - self.part,
        {
            if self.part >= self.sizes.len() {
                self.outcome = Some(Ok(()));
                self.performing = false;
                return RunMove::Finish(Ok(()));
            }
            if self.part > 0 && !self.announced {
                self.announced = true;
                self.performing = false;
                self.outcome = None;
                return RunMove::Announce(self.part - 1);
            }
            if self.pos < self.sizes[self.part] {
                self.performing = true;
                self.outcome = None;
                return RunMove::Perform { part: self.part, pos: self.pos };
            }
            self.part = self.part + 1;
            self.pos = 0;
            self.announced = false;
        }
    }

    /// Takes one event and answers with the next move. A failure ends the
    /// run with the failing part and its message; once over, the run
    /// answers every event with how it ended.
    pub fn step(&mut self, event: RunEvent) -> (m: RunMove)
        requires
            run_wf(*old(self)),
        ensures
            (run_view(*final(self)), move_view(m)) == spec_run_step(run_view(*old(self)), event),
            run_wf(*final(self)),
    {
        match &self.outcome {
            Some(o) => {
                return RunMove::Finish(copy_outcome(o));
            },
            None => {},
        }
        match event {
            RunEvent::Failed(message) => {
                let part = self.part;
                self.performing = false;
                self.outcome = Some(Err((part, message.clone())));
                RunMove::Finish(Err((part, message)))
            },
            RunEvent::Start => {
                proof {
                    lemma_next_move_wf(self.sizes@, self.part as int, self.pos as int, self.announced);
                }
                self.advance()
            },
            RunEvent::Done => {
                if self.performing {
                    self.pos = self.pos + 1;
                }
                proof {
                    lemma_next_move_wf(self.sizes@, self.part as int, self.pos as int, self.announced);
                }
                self.advance()
            },
        }
    }
}

/// A run ends at its first failure: it answers the failure with the
/// failing part and the failure's message, and every event after it the
/// same way, asking for nothing more.
pub proof fn law_run_ends_at_first_failure(r: RunView, message: String, e: RunEvent)
    requires
        r.outcome is None,
    ensures
        spec_run_step(r, RunEvent::Failed(message)).1 == MoveView::Finish(Err((r.part, message@))),
        spec_run_step(spec_run_step(r, RunEvent::Failed(message)).0, e) == (
            spec_run_step(r, RunEvent::Failed(message)).0,
            MoveView::Finish(Err((r.part, message@))),
        ),
{
}

/// A run only asks for actions that its parts have.
pub proof fn law_run_performs_within_parts(r: PlanRun, e: RunEvent)
    requires
        run_wf(r),
        r.outcome is None,
    ensures
        spec_run_step(run_view(r), e).1 matches MoveView::Perform(part, pos) ==> 0 <= part
            < r.sizes@.len() && 0 <= pos < r.sizes@[part],
{
    let v = run_view(r);
    let pos = if v.performing {
        v.pos + 1
    } else {
        v.pos
    };
    lemma_next_move_wf(v.sizes, v.part, v.pos, v.announced);
    if r.performing {
        lemma_next_move_wf(v.sizes, v.part, pos, v.announced);
    }
}

/// The message of a run that ended with a failure in `part`: a top-level
/// failure as it is, an entry's as `entry_failure` gives it.
pub open spec fn spec_run_failure(bp: Blueprint, part: int, message: Seq<char>) -> Seq<char> {
    if part == 0 {
        message
    } else {
        spec_entry_failure((part - 1) as nat, bp.steps@[part - 1], message)
    }
}

/// The message of a run that ended with a failure in `part`.
pub fn run_failure(bp: &Blueprint, part: usize, message: String) -> (r: String)
    requires
        part <= bp.steps@.len(),
    ensures
        r@ == spec_run_failure(*bp, part as int, message@),
{
    if part == 0 {
        message
    } else {
        entry_failure(part - 1, &bp.steps[part - 1], message)
    }
}

/// A copy of how a run ended.
fn copy_outcome(o: &Result<(), (usize, String)>) -> (r: Result<(), (usize, String)>)
    ensures
        outcome_view(r) == outcome_view(*o),
{
    match o {
        Ok(()) => Ok(()),
        Err((p, m)) => Err((*p, m.clone())),
    }
}

// ---------------------------------------------------------------------------
// Actions
// ---------------------------------------------------------------------------

/// What executing a blueprint asks for.
#[derive(Debug)]
pub enum Action {
    /// Run WP-CLI with these arguments.
    WpCli(Vec<String>),
    /// Run WP-CLI with these arguments, going on whatever it gives.
    WpCliTry(Vec<String>),
    /// Run a command with these arguments inside the runtime.
    ExecArgs(Vec<String>),
    /// Evaluate PHP code with `wp eval`.
    WpEval(String),
    /// Download a URL to a path inside the runtime.
    DownloadUrl { url: String, dest: String },
    /// Download a ZIP and extract it to a path inside the runtime.
    DownloadAndUnzip { url: String, dest: String },
    /// Make an HTTP request from inside the runtime.
    HttpRequest { method: String, url: String },
    /// Pipe SQL to the WordPress database.
    ExecSql(String),
    /// Set the PHP version of the project.
    SetPhpVersion(String),
    /// Run `wp core install` at the runtime's site URL.
    WpInstall { user: String, pass: String },
    /// Write a file of the project (creating its directories).
    WriteFile { path: String, content: String },
    /// Fetch a URL with `curl -sL` and write what it gives to a file of the
    /// project (creating its directories).
    WriteFetched { path: String, url: String },
    /// Fetch a URL with `curl -sL`, keeping nothing.
    Fetch(String),
    /// Write WXR text into the project, import it, and remove it.
    ImportWxrText(String),
    /// Fail with `BlueprintError::UnsupportedResource` and this message.
    Fail(String),
}

/// What an action holds, with strings as character sequences.
#[verifier::ext_equal]
pub enum ActionView {
    WpCli(Seq<Seq<char>>),
    WpCliTry(Seq<Seq<char>>),
    ExecArgs(Seq<Seq<char>>),
    WpEval(Seq<char>),
    DownloadUrl(Seq<char>, Seq<char>),
    DownloadAndUnzip(Seq<char>, Seq<char>),
    HttpRequest(Seq<char>, Seq<char>),
    ExecSql(Seq<char>),
    SetPhpVersion(Seq<char>),
    WpInstall(Seq<char>, Seq<char>),
    WriteFile(Seq<char>, Seq<char>),
    WriteFetched(Seq<char>, Seq<char>),
    Fetch(Seq<char>),
    ImportWxrText(Seq<char>),
    Fail(Seq<char>),
}

impl View for Action {
    type V = ActionView;

    open spec fn view(&self) -> ActionView {
        match self {
            Action::WpCli(a) => ActionView::WpCli(strs(a@)),
            Action::WpCliTry(a) => ActionView::WpCliTry(strs(a@)),
            Action::ExecArgs(a) => ActionView::ExecArgs(strs(a@)),
            Action::WpEval(c) => ActionView::WpEval(c@),
            Action::DownloadUrl { url, dest } => ActionView::DownloadUrl(url@, dest@),
            Action::DownloadAndUnzip { url, dest } => ActionView::DownloadAndUnzip(url@, dest@),
            Action::HttpRequest { method, url } => ActionView::HttpRequest(method@, url@),
            Action::ExecSql(s) => ActionView::ExecSql(s@),
            Action::SetPhpVersion(v) => ActionView::SetPhpVersion(v@),
            Action::WpInstall { user, pass } => ActionView::WpInstall(user@, pass@),
            Action::WriteFile { path, content } => ActionView::WriteFile(path@, content@),
            Action::WriteFetched { path, url } => ActionView::WriteFetched(path@, url@),
            Action::Fetch(u) => ActionView::Fetch(u@),
            Action::ImportWxrText(t) => ActionView::ImportWxrText(t@),
            Action::Fail(m) => ActionView::Fail(m@),
        }
    }
}

/// The views of a list of actions.
pub open spec fn action_views(v: Seq<Action>) -> Seq<ActionView> {
    Seq::new(v.len(), |i: int| v[i]@)
}

// ---------------------------------------------------------------------------
// Specification of the steps
// ---------------------------------------------------------------------------

/// `"wp-content/..."` paths of a Playground site map to the project root.
pub open spec fn site_relative(p: Seq<char>) -> Seq<char> {
    if starts_with(p, "/wordpress/"@) {
        drop_prefix(p, "/wordpress/"@)
    } else {
        drop_prefix(p, "/var/www/html/"@)
    }
}

/// `PathBuf::join`: an absolute path replaces the base; else the two are
/// joined with one `/`.
pub open spec fn join_path(base: Seq<char>, rel: Seq<char>) -> Seq<char> {
    if starts_with(rel, "/"@) {
        rel
    } else if base.len() == 0 || base.last() == '/' {
        base + rel
    } else {
        base + "/"@ + rel
    }
}

/// Whether a target stays inside the project.
pub open spec fn within(project: Seq<char>, target: Seq<char>) -> bool {
    parts_prefix(normalized(path_components(project)), normalized(path_components(target)))
}

/// The failure of a target that leaves the project.
pub open spec fn escape_message(target: Seq<char>) -> Seq<char> {
    "path escapes project root: "@ + target
}

/// Code of a `runPHP` step: without a leading `<?php`, trimmed.
pub open spec fn php_body(c: Seq<char>) -> Seq<char> {
    trim(drop_prefix(c, "<?php"@))
}

/// `wp config set` of one constant.
pub open spec fn const_args(name: Seq<char>, v: JsonValue) -> Seq<Seq<char>> {
    seq!["config"@, "set"@, name, spec_json_value_to_wp_config_string(v), "--type=constant"@] + if (
    v is Bool || v is Number) {
        seq!["--raw"@]
    } else {
        Seq::empty()
    }
}

/// `wp config set` of each constant, in order.
pub open spec fn consts_plan(cs: Seq<(String, JsonValue)>) -> Seq<ActionView>
    decreases cs.len(),
{
    if cs.len() == 0 {
        Seq::empty()
    } else {
        consts_plan(cs.drop_last()) + seq![ActionView::WpCli(const_args(cs.last().0@, cs.last().1))]
    }
}

/// `wp option update` of each option, in order.
pub open spec fn options_plan(os: Seq<(String, JsonValue)>) -> Seq<ActionView>
    decreases os.len(),
{
    if os.len() == 0 {
        Seq::empty()
    } else {
        options_plan(os.drop_last()) + seq![
            ActionView::WpCli(
                seq!["option"@, "update"@, os.last().0@, spec_json_value_to_string(os.last().1)],
            ),
        ]
    }
}

/// `wp user meta update` of each member, in order.
pub open spec fn meta_plan(user: Seq<char>, ms: Seq<(String, JsonValue)>) -> Seq<ActionView>
    decreases ms.len(),
{
    if ms.len() == 0 {
        Seq::empty()
    } else {
        meta_plan(user, ms.drop_last()) + seq![
            ActionView::WpCli(
                seq![
                    "user"@,
                    "meta"@,
                    "update"@,
                    user,
                    ms.last().0@,
                    spec_json_value_to_string(ms.last().1),
                ],
            ),
        ]
    }
}

/// What is installed: `"plugin"` or `"theme"`.
pub open spec fn kind_word(is_plugin: bool) -> Seq<char> {
    if is_plugin {
        "plugin"@
    } else {
        "theme"@
    }
}

/// Installing a plugin or a theme from a resource: by its WordPress.org
/// slug (of the right kind) or its URL; any other resource is skipped.
pub open spec fn install_plan(is_plugin: bool, r: FileResource, activate: bool) -> Seq<ActionView> {
    let source: Option<Seq<char>> = match r {
        FileResource::WordPressPlugin { slug } => if is_plugin {
            Some(slug@)
        } else {
            None
        },
        FileResource::WordPressTheme { slug } => if is_plugin {
            None
        } else {
            Some(slug@)
        },
        FileResource::Url { url, .. } => Some(url@),
        _ => None,
    };
    match source {
        Some(s) => seq![
            ActionView::WpCli(
                seq![kind_word(is_plugin), "install"@, s, "--force"@] + if activate {
                    seq!["--activate"@]
                } else {
                    Seq::empty()
                },
            ),
        ],
        None => Seq::empty(),
    }
}

/// Installing from `pluginData`/`themeData` when it is a file resource,
/// else, without it, from the ZIP field when that is one; anything else is
/// skipped.
pub open spec fn install_step_plan(
    is_plugin: bool,
    data: Option<ResourceData>,
    zip: Option<ResourceValue>,
    activate: bool,
) -> Seq<ActionView> {
    match data {
        Some(ResourceData::File(r)) => install_plan(is_plugin, r, activate),
        Some(_) => Seq::empty(),
        None => match zip {
            Some(ResourceValue::Resource(r)) => install_plan(is_plugin, r, activate),
            _ => Seq::empty(),
        },
    }
}

/// Writing a text to a file of the project, after checking the path.
pub open spec fn write_plan(project: Seq<char>, path: Seq<char>, text: Seq<char>) -> Seq<ActionView> {
    let target = join_path(project, path);
    if within(project, target) {
        seq![ActionView::WriteFile(target, text)]
    } else {
        seq![ActionView::Fail(escape_message(target))]
    }
}

/// Writing a tree of files: each string member is a file, each object
/// member a directory, under `base`.
pub open spec fn tree_plan(project: Seq<char>, base: Seq<char>, v: JsonValue) -> Seq<ActionView>
    decreases v,
{
    match v {
        JsonValue::Object(ms) => members_plan(project, base, ms@),
        _ => Seq::empty(),
    }
}

/// Writing the members of a tree, in order.
pub open spec fn members_plan(
    project: Seq<char>,
    base: Seq<char>,
    ms: Seq<(String, JsonValue)>,
) -> Seq<ActionView>
    decreases ms,
{
    if ms.len() == 0 {
        Seq::empty()
    } else {
        let path = base + "/"@ + ms.last().0@;
        members_plan(project, base, ms.drop_last()) + match ms.last().1 {
            JsonValue::Object(inner) => members_plan(project, path, inner@),
            JsonValue::String(t) => write_plan(project, path, t@),
            _ => Seq::empty(),
        }
    }
}

/// The text of a JSON string, or nothing.
pub open spec fn text_or_empty(v: JsonValue) -> Seq<char> {
    match v {
        JsonValue::String(s) => s@,
        _ => Seq::empty(),
    }
}

/// The actions of one step, for the project at `project`.
pub open spec fn step_plan(s: Step, project: Seq<char>) -> Seq<ActionView> {
    match s {
        Step::ActivatePlugin(ActivatePluginStep { plugin_path, .. }) => seq![
            ActionView::WpCli(seq!["plugin"@, "activate"@, spec_extract_plugin_slug(plugin_path@)]),
        ],
        Step::ActivateTheme(ActivateThemeStep { theme_folder_name }) => seq![
            ActionView::WpCli(seq!["theme"@, "activate"@, theme_folder_name@]),
        ],
        Step::Cp(CpStep { from_path, to_path }) => seq![
            ActionView::ExecArgs(seq!["exec"@, "cp"@, "-r"@, "--"@, from_path@, to_path@]),
        ],
        Step::DefineWpConfigConsts(DefineWpConfigConstsStep { consts }) => consts_plan(consts@),
        Step::DefineSiteUrl(DefineSiteUrlStep { site_url }) => seq![
            ActionView::WpCli(seq!["option"@, "update"@, "siteurl"@, site_url@]),
            ActionView::WpCli(seq!["option"@, "update"@, "home"@, site_url@]),
        ],
        Step::EnableMultisite(..) => seq![ActionView::WpCli(seq!["core"@, "multisite-convert"@])],
        Step::ImportThemeStarterContent(ImportThemeStarterContentStep { theme_slug }) => (match theme_slug {
            Some(t) => seq![ActionView::WpCli(seq!["theme"@, "activate"@, t@])],
            None => Seq::empty(),
        }) + seq![ActionView::WpEval("do_action(\"after_switch_theme\");"@)],
        Step::ImportWordPressFiles(ImportWordPressFilesStep { wordpress_files_zip }) => match wordpress_files_zip {
            ResourceValue::Resource(FileResource::Url { url, .. }) => seq![
                ActionView::DownloadAndUnzip(url@, "/var/www/html/"@),
            ],
            _ => Seq::empty(),
        },
        Step::ImportWxr(ImportWxrStep { file }) => seq![
            ActionView::WpCliTry(seq!["plugin"@, "install"@, "wordpress-importer"@, "--activate"@]),
        ] + match file {
            ResourceValue::Resource(FileResource::Url { url, .. }) => seq![
                ActionView::DownloadUrl(url@, "/tmp/import.wxr"@),
                ActionView::WpCli(seq!["import"@, "/tmp/import.wxr"@, "--authors=create"@]),
            ],
            ResourceValue::Resource(FileResource::Literal { contents, .. }) => match json_str(
                contents,
            ) {
                Some(t) => seq![ActionView::ImportWxrText(t)],
                None => Seq::empty(),
            },
            _ => Seq::empty(),
        },
        Step::InstallPlugin(InstallPluginStep { plugin_data, plugin_zip_file, options }) => install_step_plan(
            true,
            plugin_data,
            plugin_zip_file,
            match options {
                Some(o) => match o.activate {
                    Some(a) => a,
                    None => true,
                },
                None => true,
            },
        ),
        Step::InstallTheme(InstallThemeStep { theme_data, theme_zip_file, options }) => {
            let activate = match options {
                Some(o) => o.activate == Some(true),
                None => false,
            };
            let starter = match options {
                Some(o) => o.import_starter_content == Some(true),
                None => false,
            };
            install_step_plan(false, theme_data, theme_zip_file, activate) + if starter {
                seq![ActionView::WpEval("do_action(\"after_switch_theme\");"@)]
            } else {
                Seq::empty()
            }
        },
        Step::Login(LoginStep { username, password }) => match password {
            Some(p) => seq![
                ActionView::WpCli(
                    seq![
                        "user"@,
                        "update"@,
                        match username {
                            Some(u) => u@,
                            None => "admin"@,
                        },
                        "--user_pass="@ + p@,
                    ],
                ),
            ],
            None => Seq::empty(),
        },
        Step::Mkdir(MkdirStep { path }) => seq![ActionView::ExecArgs(seq!["exec"@, "mkdir"@, "-p"@, path@])],
        Step::Mv(MvStep { from_path, to_path }) => seq![
            ActionView::ExecArgs(seq!["exec"@, "mv"@, "--"@, from_path@, to_path@]),
        ],
        Step::Request(RequestStep { request }) => match json_str_opt(json_get(request, "url"@)) {
            Some(url) => seq![
                ActionView::HttpRequest(
                    match json_str_opt(json_get(request, "method"@)) {
                        Some(m) => m,
                        None => "GET"@,
                    },
                    url,
                ),
            ],
            None => Seq::empty(),
        },
        Step::ResetData(..) => seq![
            ActionView::WpCli(seq!["db"@, "reset"@, "--yes"@]),
        ],
        Step::Rm(RmStep { path }) => seq![ActionView::ExecArgs(seq!["exec"@, "rm"@, "-f"@, "--"@, path@])],
        Step::Rmdir(RmdirStep { path }) => seq![
            ActionView::ExecArgs(seq!["exec"@, "rm"@, "-rf"@, "--"@, path@]),
        ],
        Step::RunPhp(RunPhpStep { code }) => seq![
            ActionView::WpCli(
                seq![
                    "eval"@,
                    php_body(
                        match code {
                            PhpCode::String(c) => c@,
                            PhpCode::File { content, .. } => content@,
                        },
                    ),
                ],
            ),
        ],
        Step::RunPhpWithOptions(RunPhpWithOptionsStep { options }) => match json_str_opt(json_get(options, "code"@)) {
            Some(c) => seq![ActionView::WpCli(seq!["eval"@, php_body(c)])],
            None => Seq::empty(),
        },
        Step::RunWpInstallationWizard(RunWpInstallationWizardStep { options }) => seq![
            ActionView::WpInstall(
                match options {
                    Some(o) => match o.admin_username {
                        Some(u) => u@,
                        None => "admin"@,
                    },
                    None => "admin"@,
                },
                match options {
                    Some(o) => match o.admin_password {
                        Some(p) => p@,
                        None => "admin"@,
                    },
                    None => "admin"@,
                },
            ),
        ],
        Step::RunSql(RunSqlStep { sql }) => match sql {
            ResourceValue::Resource(FileResource::Url { url, .. }) => seq![
                ActionView::DownloadUrl(url@, "/tmp/_bp_sql.sql"@),
                ActionView::WpCli(seq!["db"@, "import"@, "/tmp/_bp_sql.sql"@]),
            ],
            ResourceValue::Resource(FileResource::Literal { contents, .. }) => match json_str(
                contents,
            ) {
                Some(t) => seq![ActionView::ExecSql(t)],
                None => Seq::empty(),
            },
            ResourceValue::Resource(_) => Seq::empty(),
            ResourceValue::Raw(v) => match json_str(v) {
                Some(t) => seq![ActionView::ExecSql(t)],
                None => Seq::empty(),
            },
        },
        Step::SetSiteLanguage(SetSiteLanguageStep { language }) => seq![
            ActionView::WpCli(seq!["language"@, "core"@, "install"@, language@]),
            ActionView::WpCli(seq!["site"@, "switch-language"@, language@]),
        ],
        Step::SetSiteOptions(SetSiteOptionsStep { options }) => options_plan(options@),
        Step::Unzip(UnzipStep { zip_file, extract_to_path }) => match zip_file {
            ResourceValue::Resource(FileResource::Url { url, .. }) => seq![
                ActionView::DownloadAndUnzip(url@, extract_to_path@),
            ],
            _ => Seq::empty(),
        },
        Step::UpdateUserMeta(UpdateUserMetaStep { user_id, meta }) => meta_plan(
            crate::text::decimal(user_id as nat),
            meta@,
        ),
        Step::WriteFile(WriteFileStep { path, data }) => {
            let target = join_path(project, site_relative(path@));
            match data {
                WriteFileData::String(t) => write_plan(project, site_relative(path@), t@),
                WriteFileData::Resource(FileResource::Literal { contents, .. }) => write_plan(
                    project,
                    site_relative(path@),
                    text_or_empty(contents),
                ),
                WriteFileData::Resource(FileResource::Url { url, .. }) => if within(
                    project,
                    target,
                ) {
                    seq![ActionView::WriteFetched(target, url@)]
                } else {
                    seq![ActionView::Fetch(url@), ActionView::Fail(escape_message(target))]
                },
                _ => Seq::empty(),
            }
        },
        Step::WriteFiles(WriteFilesStep { write_to_path, files_tree }) => match files_tree {
            FilesTreeData::Directory(DirectoryResource::Literal { files, .. }) => tree_plan(
                project,
                site_relative(write_to_path@),
                files,
            ),
            FilesTreeData::Raw(v) => match v {
                JsonValue::Object(ms) => members_plan(project, site_relative(write_to_path@), ms@),
                _ => Seq::empty(),
            },
            _ => Seq::empty(),
        },
        Step::WpCli(WpCliStep { command }) => match command {
            WpCliCommand::String(c) => if words(c@).len() == 0 {
                Seq::empty()
            } else {
                seq![ActionView::WpCli(words(c@))]
            },
            WpCliCommand::Args(a) => seq![ActionView::WpCli(strs(a@))],
        },
    }
}

// ---------------------------------------------------------------------------
// The top level of a blueprint
// ---------------------------------------------------------------------------

/// Installing and activating a plugin by its slug.
pub open spec fn slug_install(slug: Seq<char>) -> ActionView {
    ActionView::WpCli(seq!["plugin"@, "install"@, slug, "--force"@, "--activate"@])
}

/// The top-level `plugins`, in order.
pub open spec fn plugins_plan(ps: Seq<PluginShorthand>) -> Seq<ActionView>
    decreases ps.len(),
{
    if ps.len() == 0 {
        Seq::empty()
    } else {
        plugins_plan(ps.drop_last()) + match ps.last() {
            PluginShorthand::Slug(slug) => seq![slug_install(slug@)],
            PluginShorthand::Resource(r) => install_plan(true, r, true),
        }
    }
}

/// Setting a user's password, when there is one.
pub open spec fn login_plan(username: Option<String>, password: Option<String>) -> Seq<ActionView> {
    match password {
        Some(p) => seq![
            ActionView::WpCli(
                seq![
                    "user"@,
                    "update"@,
                    match username {
                        Some(u) => u@,
                        None => "admin"@,
                    },
                    "--user_pass="@ + p@,
                ],
            ),
        ],
        None => Seq::empty(),
    }
}

/// The actions of the top-level shorthands, before the steps: the PHP
/// version (unless it comes out as `latest`), the constants, the plugins,
/// the site options, and the login.
pub open spec fn top_level_plan(bp: Blueprint) -> Seq<ActionView> {
    (match bp.preferred_versions {
        Some(v) => match v.php {
            Some(php) => if spec_normalize_php_version(php@) != "latest"@ {
                seq![ActionView::SetPhpVersion(spec_normalize_php_version(php@))]
            } else {
                Seq::empty()
            },
            None => Seq::empty(),
        },
        None => Seq::empty(),
    }) + (match bp.constants {
        Some(cs) => consts_plan(cs@),
        None => Seq::empty(),
    }) + plugins_plan(bp.plugins@) + (match bp.site_options {
        Some(os) => options_plan(os@),
        None => Seq::empty(),
    }) + match bp.login {
        Some(LoginShorthand::Credentials { username, password }) => login_plan(username, password),
        _ => Seq::empty(),
    }
}

/// The actions of an entry of `steps`.
pub open spec fn entry_plan(e: StepEntry, project: Seq<char>) -> Seq<ActionView> {
    match e {
        StepEntry::Step(s) => step_plan(s, project),
        StepEntry::String(slug) => seq![slug_install(slug@)],
        _ => Seq::empty(),
    }
}

// ---------------------------------------------------------------------------
// Executable planning
// ---------------------------------------------------------------------------

fn lit(x: &str) -> (r: String)
    ensures
        r@ == x@,
{
    String::from_str(x)
}

/// Appends one action.
fn emit(out: &mut Vec<Action>, a: Action)
    ensures
        action_views(final(out)@) == action_views(old(out)@).push(a@),
{
    out.push(a);
    assert(action_views(out@) =~= action_views(old(out)@).push(a@));
}

/// `wp config set` of each constant.
fn consts_actions(cs: &Vec<(String, JsonValue)>, out: &mut Vec<Action>)
    ensures
        action_views(final(out)@) == action_views(old(out)@) + consts_plan(cs@),
{
    let ghost start = action_views(out@);
    let mut i: usize = 0;
    assert(cs@.take(0) =~= Seq::<(String, JsonValue)>::empty());
    while i < cs.len()
        invariant
            i <= cs@.len(),
            action_views(out@) == start + consts_plan(cs@.take(i as int)),
        decreases cs.len() - i,
    {
        let ghost before = action_views(out@);
        let (name, v) = (&cs[i].0, &cs[i].1);
        let mut a: Vec<String> = Vec::new();
        a.push(lit("config"));
        a.push(lit("set"));
        a.push(name.clone());
        a.push(json_value_to_wp_config_string(v));
        a.push(lit("--type=constant"));
        let raw = match v {
            JsonValue::Bool(_) => true,
            JsonValue::Number(_) => true,
            _ => false,
        };
        if raw {
            a.push(lit("--raw"));
        }
        assert(strs(a@) =~= const_args(name@, *v));
        emit(out, Action::WpCli(a));
        assert(cs@.take(i + 1).drop_last() =~= cs@.take(i as int));
        assert(action_views(out@) =~= start + consts_plan(cs@.take(i + 1)));
        i += 1;
    }
    assert(cs@.take(cs@.len() as int) =~= cs@);
}

/// `wp option update` of each option.
fn options_actions(os: &Vec<(String, JsonValue)>, out: &mut Vec<Action>)
    ensures
        action_views(final(out)@) == action_views(old(out)@) + options_plan(os@),
{
    let ghost start = action_views(out@);
    let mut i: usize = 0;
    assert(os@.take(0) =~= Seq::<(String, JsonValue)>::empty());
    while i < os.len()
        invariant
            i <= os@.len(),
            action_views(out@) == start + options_plan(os@.take(i as int)),
        decreases os.len() - i,
    {
        let mut a: Vec<String> = Vec::new();
        a.push(lit("option"));
        a.push(lit("update"));
        a.push(os[i].0.clone());
        a.push(json_value_to_string(&os[i].1));
        assert(strs(a@) =~= seq!["option"@, "update"@, os@[i as int].0@, spec_json_value_to_string(
            os@[i as int].1,
        )]);
        emit(out, Action::WpCli(a));
        assert(os@.take(i + 1).drop_last() =~= os@.take(i as int));
        assert(action_views(out@) =~= start + options_plan(os@.take(i + 1)));
        i += 1;
    }
    assert(os@.take(os@.len() as int) =~= os@);
}

/// `wp user meta update` of each member.
fn meta_actions(user: &String, ms: &Vec<(String, JsonValue)>, out: &mut Vec<Action>)
    ensures
        action_views(final(out)@) == action_views(old(out)@) + meta_plan(user@, ms@),
{
    let ghost start = action_views(out@);
    let mut i: usize = 0;
    assert(ms@.take(0) =~= Seq::<(String, JsonValue)>::empty());
    while i < ms.len()
        invariant
            i <= ms@.len(),
            action_views(out@) == start + meta_plan(user@, ms@.take(i as int)),
        decreases ms.len() - i,
    {
        let mut a: Vec<String> = Vec::new();
        a.push(lit("user"));
        a.push(lit("meta"));
        a.push(lit("update"));
        a.push(user.clone());
        a.push(ms[i].0.clone());
        a.push(json_value_to_string(&ms[i].1));
        assert(strs(a@) =~= seq!["user"@, "meta"@, "update"@, user@, ms@[i as int].0@,
            spec_json_value_to_string(ms@[i as int].1)]);
        emit(out, Action::WpCli(a));
        assert(ms@.take(i + 1).drop_last() =~= ms@.take(i as int));
        assert(action_views(out@) =~= start + meta_plan(user@, ms@.take(i + 1)));
        i += 1;
    }
    assert(ms@.take(ms@.len() as int) =~= ms@);
}

/// Installing a plugin or a theme from a resource.
fn install_actions(is_plugin: bool, r: &FileResource, activate: bool, out: &mut Vec<Action>)
    ensures
        action_views(final(out)@) == action_views(old(out)@) + install_plan(is_plugin, *r, activate),
{
    let source: Option<String> = match r {
        FileResource::WordPressPlugin { slug } => if is_plugin {
            Some(slug.clone())
        } else {
            None
        },
        FileResource::WordPressTheme { slug } => if is_plugin {
            None
        } else {
            Some(slug.clone())
        },
        FileResource::Url { url, .. } => Some(url.clone()),
        _ => None,
    };
    match source {
        Some(src) => {
            let mut a: Vec<String> = Vec::new();
            a.push(if is_plugin {
                lit("plugin")
            } else {
                lit("theme")
            });
            a.push(lit("install"));
            let ghost sv = src@;
            a.push(src);
            a.push(lit("--force"));
            if activate {
                a.push(lit("--activate"));
            }
            assert(strs(a@) =~= seq![kind_word(is_plugin), "install"@, sv, "--force"@] + if activate {
                seq!["--activate"@]
            } else {
                Seq::empty()
            });
            emit(out, Action::WpCli(a));
            assert(action_views(out@) =~= action_views(old(out)@) + install_plan(is_plugin, *r, activate));
        },
        None => {
            assert(action_views(out@) =~= action_views(old(out)@) + install_plan(is_plugin, *r, activate));
        },
    }
}

/// Installing from the data field, else from the ZIP field.
fn install_step_actions(
    is_plugin: bool,
    data: &Option<ResourceData>,
    zip: &Option<ResourceValue>,
    activate: bool,
    out: &mut Vec<Action>,
)
    ensures
        action_views(final(out)@) == action_views(old(out)@) + install_step_plan(
            is_plugin,
            *data,
            *zip,
            activate,
        ),
{
    match data {
        Some(ResourceData::File(r)) => install_actions(is_plugin, r, activate, out),
        Some(_) => {
            assert(action_views(out@) =~= action_views(old(out)@) + Seq::<ActionView>::empty());
        },
        None => match zip {
            Some(ResourceValue::Resource(r)) => install_actions(is_plugin, r, activate, out),
            _ => {
                assert(action_views(out@) =~= action_views(old(out)@) + Seq::<ActionView>::empty());
            },
        },
    }
}

/// `PathBuf::join` of two paths.
fn join_path_exec(base: &str, rel: &str) -> (r: String)
    ensures
        r@ == join_path(base@, rel@),
{
    if str_starts_with(rel, "/") {
        return lit(rel);
    }
    let b = to_chars(base);
    let mut r = lit(base);
    if b.len() > 0 && b[b.len() - 1] != '/' {
        append(&mut r, "/");
    }
    append(&mut r, rel);
    r
}

/// The path of a Playground site file relative to the project.
fn site_relative_exec(p: &str) -> (r: String)
    ensures
        r@ == site_relative(p@),
{
    let v = to_chars(p);
    if str_starts_with(p, "/wordpress/") {
        string_from(&drop_prefix_exec(&v, &to_chars("/wordpress/")))
    } else {
        string_from(&drop_prefix_exec(&v, &to_chars("/var/www/html/")))
    }
}

/// Writing a text to a file of the project, after checking the path.
fn write_actions(project: &str, path: &str, text: String, out: &mut Vec<Action>)
    ensures
        action_views(final(out)@) == action_views(old(out)@) + write_plan(project@, path@, text@),
{
    let target = join_path_exec(project, path);
    match ensure_path_within(project, target.as_str()) {
        Ok(()) => emit(out, Action::WriteFile { path: target, content: text }),
        Err(_) => {
            let mut m = lit("path escapes project root: ");
            append(&mut m, target.as_str());
            emit(out, Action::Fail(m));
        },
    }
    assert(action_views(out@) =~= action_views(old(out)@) + write_plan(project@, path@, text@));
}

/// Writing the members of a tree of files under `base`.
fn members_actions(
    project: &str,
    base: &str,
    ms: &Vec<(String, JsonValue)>,
    out: &mut Vec<Action>,
)
    ensures
        action_views(final(out)@) == action_views(old(out)@) + members_plan(project@, base@, ms@),
    decreases ms@,
{
    let ghost start = action_views(out@);
    let mut i: usize = 0;
    assert(ms@.take(0) =~= Seq::<(String, JsonValue)>::empty());
    while i < ms.len()
        invariant
            i <= ms@.len(),
            action_views(out@) == start + members_plan(project@, base@, ms@.take(i as int)),
        decreases ms.len() - i,
    {
        let ghost before = action_views(out@);
        let mut path = lit(base);
        append(&mut path, "/");
        append(&mut path, ms[i].0.as_str());
        let ghost t = ms@.take(i + 1);
        assert(t.drop_last() =~= ms@.take(i as int));
        assert(t.last() == ms@[i as int]);
        match &ms[i].1 {
            JsonValue::Object(inner) => {
                proof {
                    assert(decreases_to!(ms@ => ms@[i as int]));
                    assert(decreases_to!(ms@[i as int] => ms@[i as int].1));
                    assert(decreases_to!(ms@[i as int].1 => *inner));
                    assert(decreases_to!(*inner => inner@));
                }
                members_actions(project, path.as_str(), inner, out);
            },
            JsonValue::String(text) => write_actions(project, path.as_str(), text.clone(), out),
            _ => {},
        }
        assert(action_views(out@) =~= start + members_plan(project@, base@, ms@.take(i + 1)));
        i += 1;
    }
    assert(ms@.take(ms@.len() as int) =~= ms@);
}

/// `<?php`-less, trimmed code.
fn php_body_exec(c: &str) -> (r: String)
    ensures
        r@ == php_body(c@),
{
    let v = to_chars(c);
    let d = string_from(&drop_prefix_exec(&v, &to_chars("<?php")));
    str_trim(d.as_str())
}

/// Two-argument WP-CLI action.
fn wp2(a: &str, b: &str) -> (r: Action)
    ensures
        r@ == ActionView::WpCli(seq![a@, b@]),
{
    let mut v: Vec<String> = Vec::new();
    v.push(lit(a));
    v.push(lit(b));
    assert(strs(v@) =~= seq![a@, b@]);
    Action::WpCli(v)
}

/// Three-argument WP-CLI action.
fn wp3(a: &str, b: &str, c: &str) -> (r: Action)
    ensures
        r@ == ActionView::WpCli(seq![a@, b@, c@]),
{
    let mut v: Vec<String> = Vec::new();
    v.push(lit(a));
    v.push(lit(b));
    v.push(lit(c));
    assert(strs(v@) =~= seq![a@, b@, c@]);
    Action::WpCli(v)
}

/// Four-argument WP-CLI action.
fn wp4(a: &str, b: &str, c: &str, d: &str) -> (r: Action)
    ensures
        r@ == ActionView::WpCli(seq![a@, b@, c@, d@]),
{
    let mut v: Vec<String> = Vec::new();
    v.push(lit(a));
    v.push(lit(b));
    v.push(lit(c));
    v.push(lit(d));
    assert(strs(v@) =~= seq![a@, b@, c@, d@]);
    Action::WpCli(v)
}

/// A command in the runtime.
fn exec_args(parts: Vec<String>) -> (r: Action)
    ensures
        r@ == ActionView::ExecArgs(strs(parts@)),
{
    Action::ExecArgs(parts)
}

/// Strings from texts.
fn strings(parts: &[&str]) -> (r: Vec<String>)
    ensures
        strs(r@) == Seq::new(parts@.len(), |i: int| parts@[i]@),
{
    let mut r: Vec<String> = Vec::new();
    let mut i: usize = 0;
    while i < parts.len()
        invariant
            i <= parts@.len(),
            strs(r@) == Seq::new(i as nat, |k: int| parts@[k]@),
        decreases parts.len() - i,
    {
        let ghost before = strs(r@);
        r.push(lit(parts[i]));
        assert(strs(r@) =~= before.push(parts@[i as int]@));
        assert(strs(r@) =~= Seq::new((i + 1) as nat, |k: int| parts@[k]@));
        i += 1;
    }
    r
}

/// The actions of one step, for the project at `project`.
pub fn step_actions(step: &Step, project: &str) -> (r: Vec<Action>)
    ensures
        action_views(r@) == step_plan(*step, project@),
{
    let mut out: Vec<Action> = Vec::new();
    assert(action_views(out@) =~= Seq::<ActionView>::empty());
    match step {
        Step::ActivatePlugin(ActivatePluginStep { plugin_path, .. }) => {
            let slug = extract_plugin_slug(plugin_path.as_str());
            emit(&mut out, wp3("plugin", "activate", slug.as_str()));
        },
        Step::ActivateTheme(ActivateThemeStep { theme_folder_name }) => {
            emit(&mut out, wp3("theme", "activate", theme_folder_name.as_str()));
        },
        Step::Cp(CpStep { from_path, to_path }) => {
            let p = strings(&["exec", "cp", "-r", "--", from_path.as_str(), to_path.as_str()]);
            assert(strs(p@) =~= seq!["exec"@, "cp"@, "-r"@, "--"@, from_path@, to_path@]);
            emit(&mut out, exec_args(p));
        },
        Step::DefineWpConfigConsts(DefineWpConfigConstsStep { consts }) => consts_actions(consts, &mut out),
        Step::DefineSiteUrl(DefineSiteUrlStep { site_url }) => {
            emit(&mut out, wp4("option", "update", "siteurl", site_url.as_str()));
            emit(&mut out, wp4("option", "update", "home", site_url.as_str()));
        },
        Step::EnableMultisite(..) => emit(&mut out, wp2("core", "multisite-convert")),
        Step::ImportThemeStarterContent(ImportThemeStarterContentStep { theme_slug }) => {
            match theme_slug {
                Some(t) => emit(&mut out, wp3("theme", "activate", t.as_str())),
                None => {},
            }
            emit(&mut out, Action::WpEval(lit("do_action(\"after_switch_theme\");")));
        },
        Step::ImportWordPressFiles(ImportWordPressFilesStep { wordpress_files_zip }) => match wordpress_files_zip {
            ResourceValue::Resource(FileResource::Url { url, .. }) => {
                emit(
                    &mut out,
                    Action::DownloadAndUnzip { url: url.clone(), dest: lit("/var/www/html/") },
                );
            },
            _ => {},
        },
        Step::ImportWxr(ImportWxrStep { file }) => {
            let p = strings(&["plugin", "install", "wordpress-importer", "--activate"]);
            assert(strs(p@) =~= seq!["plugin"@, "install"@, "wordpress-importer"@, "--activate"@]);
            emit(&mut out, Action::WpCliTry(p));
            match file {
                ResourceValue::Resource(FileResource::Url { url, .. }) => {
                    emit(&mut out, Action::DownloadUrl { url: url.clone(), dest: lit("/tmp/import.wxr") });
                    emit(&mut out, wp3("import", "/tmp/import.wxr", "--authors=create"));
                },
                ResourceValue::Resource(FileResource::Literal { contents, .. }) => {
                    match contents.as_str() {
                        Some(t) => emit(&mut out, Action::ImportWxrText(lit(t))),
                        None => {},
                    }
                },
                _ => {},
            }
        },
        Step::InstallPlugin(InstallPluginStep { plugin_data, plugin_zip_file, options }) => {
            let activate = match options {
                Some(o) => match o.activate {
                    Some(a) => a,
                    None => true,
                },
                None => true,
            };
            install_step_actions(true, plugin_data, plugin_zip_file, activate, &mut out);
        },
        Step::InstallTheme(InstallThemeStep { theme_data, theme_zip_file, options }) => {
            let activate = match options {
                Some(o) => o.activate == Some(true),
                None => false,
            };
            let starter = match options {
                Some(o) => o.import_starter_content == Some(true),
                None => false,
            };
            install_step_actions(false, theme_data, theme_zip_file, activate, &mut out);
            if starter {
                emit(&mut out, Action::WpEval(lit("do_action(\"after_switch_theme\");")));
            }
        },
        Step::Login(LoginStep { username, password }) => login_actions(username, password, &mut out),
        Step::Mkdir(MkdirStep { path }) => {
            let p = strings(&["exec", "mkdir", "-p", path.as_str()]);
            assert(strs(p@) =~= seq!["exec"@, "mkdir"@, "-p"@, path@]);
            emit(&mut out, exec_args(p));
        },
        Step::Mv(MvStep { from_path, to_path }) => {
            let p = strings(&["exec", "mv", "--", from_path.as_str(), to_path.as_str()]);
            assert(strs(p@) =~= seq!["exec"@, "mv"@, "--"@, from_path@, to_path@]);
            emit(&mut out, exec_args(p));
        },
        Step::Request(RequestStep { request }) => {
            let url = match request.get("url") {
                Some(u) => u.as_str(),
                None => None,
            };
            match url {
                Some(u) => {
                    let method = match request.get("method") {
                        Some(m) => m.as_str(),
                        None => None,
                    };
                    let m = match method {
                        Some(m) => lit(m),
                        None => lit("GET"),
                    };
                    emit(&mut out, Action::HttpRequest { method: m, url: lit(u) });
                },
                None => {},
            }
        },
        Step::ResetData(..) => emit(&mut out, wp3("db", "reset", "--yes")),
        Step::Rm(RmStep { path }) => {
            let p = strings(&["exec", "rm", "-f", "--", path.as_str()]);
            assert(strs(p@) =~= seq!["exec"@, "rm"@, "-f"@, "--"@, path@]);
            emit(&mut out, exec_args(p));
        },
        Step::Rmdir(RmdirStep { path }) => {
            let p = strings(&["exec", "rm", "-rf", "--", path.as_str()]);
            assert(strs(p@) =~= seq!["exec"@, "rm"@, "-rf"@, "--"@, path@]);
            emit(&mut out, exec_args(p));
        },
        Step::RunPhp(RunPhpStep { code }) => {
            let c = match code {
                PhpCode::String(c) => c.as_str(),
                PhpCode::File { content, .. } => content.as_str(),
            };
            let body = php_body_exec(c);
            emit(&mut out, wp2("eval", body.as_str()));
        },
        Step::RunPhpWithOptions(RunPhpWithOptionsStep { options }) => {
            let code = match options.get("code") {
                Some(c) => c.as_str(),
                None => None,
            };
            match code {
                Some(c) => {
                    let body = php_body_exec(c);
                    emit(&mut out, wp2("eval", body.as_str()));
                },
                None => {},
            }
        },
        Step::RunWpInstallationWizard(RunWpInstallationWizardStep { options }) => {
            let (user, pass) = match options {
                Some(o) => (
                    match &o.admin_username {
                        Some(u) => u.clone(),
                        None => lit("admin"),
                    },
                    match &o.admin_password {
                        Some(p) => p.clone(),
                        None => lit("admin"),
                    },
                ),
                None => (lit("admin"), lit("admin")),
            };
            emit(&mut out, Action::WpInstall { user, pass });
        },
        Step::RunSql(RunSqlStep { sql }) => match sql {
            ResourceValue::Resource(FileResource::Url { url, .. }) => {
                emit(&mut out, Action::DownloadUrl { url: url.clone(), dest: lit("/tmp/_bp_sql.sql") });
                emit(&mut out, wp3("db", "import", "/tmp/_bp_sql.sql"));
            },
            ResourceValue::Resource(FileResource::Literal { contents, .. }) => {
                match contents.as_str() {
                    Some(t) => emit(&mut out, Action::ExecSql(lit(t))),
                    None => {},
                }
            },
            ResourceValue::Resource(_) => {},
            ResourceValue::Raw(v) => match v.as_str() {
                Some(t) => emit(&mut out, Action::ExecSql(lit(t))),
                None => {},
            },
        },
        Step::SetSiteLanguage(SetSiteLanguageStep { language }) => {
            emit(&mut out, wp4("language", "core", "install", language.as_str()));
            emit(&mut out, wp3("site", "switch-language", language.as_str()));
        },
        Step::SetSiteOptions(SetSiteOptionsStep { options }) => options_actions(options, &mut out),
        Step::Unzip(UnzipStep { zip_file, extract_to_path }) => match zip_file {
            ResourceValue::Resource(FileResource::Url { url, .. }) => {
                emit(
                    &mut out,
                    Action::DownloadAndUnzip { url: url.clone(), dest: extract_to_path.clone() },
                );
            },
            _ => {},
        },
        Step::UpdateUserMeta(UpdateUserMetaStep { user_id, meta }) => {
            let user = u64_to_string(*user_id);
            meta_actions(&user, meta, &mut out);
        },
        Step::WriteFile(WriteFileStep { path, data }) => {
            let rel = site_relative_exec(path.as_str());
            match data {
                WriteFileData::String(t) => write_actions(project, rel.as_str(), t.clone(), &mut out),
                WriteFileData::Resource(FileResource::Literal { contents, .. }) => {
                    let text = match contents.as_str() {
                        Some(t) => lit(t),
                        None => String::new(),
                    };
                    assert(text@ =~= text_or_empty(*contents));
                    write_actions(project, rel.as_str(), text, &mut out);
                },
                WriteFileData::Resource(FileResource::Url { url, .. }) => {
                    let target = join_path_exec(project, rel.as_str());
                    match ensure_path_within(project, target.as_str()) {
                        Ok(()) => emit(&mut out, Action::WriteFetched { path: target, url: url.clone() }),
                        Err(_) => {
                            emit(&mut out, Action::Fetch(url.clone()));
                            let mut m = lit("path escapes project root: ");
                            append(&mut m, target.as_str());
                            emit(&mut out, Action::Fail(m));
                        },
                    }
                },
                _ => {},
            }
        },
        Step::WriteFiles(WriteFilesStep { write_to_path, files_tree }) => {
            let base = site_relative_exec(write_to_path.as_str());
            match files_tree {
                FilesTreeData::Directory(DirectoryResource::Literal { files, .. }) => {
                    match files {
                        JsonValue::Object(ms) => members_actions(project, base.as_str(), ms, &mut out),
                        _ => {},
                    }
                },
                FilesTreeData::Raw(v) => match v {
                    JsonValue::Object(ms) => members_actions(project, base.as_str(), ms, &mut out),
                    _ => {},
                },
                _ => {},
            }
        },
        Step::WpCli(WpCliStep { command }) => match command {
            WpCliCommand::String(c) => {
                let ws = words_vec(&to_chars(c.as_str()));
                if ws.len() > 0 {
                    emit(&mut out, Action::WpCli(crate::text::to_strings(&ws)));
                }
            },
            WpCliCommand::Args(a) => {
                let mut v: Vec<String> = Vec::new();
                let mut i: usize = 0;
                while i < a.len()
                    invariant
                        i <= a@.len(),
                        strs(v@) == strs(a@).take(i as int),
                    decreases a.len() - i,
                {
                    let ghost before = strs(v@);
                    v.push(a[i].clone());
                    assert(strs(v@) =~= before.push(a@[i as int]@));
                    assert(strs(v@) =~= strs(a@).take(i + 1));
                    i += 1;
                }
                assert(strs(a@).take(a@.len() as int) =~= strs(a@));
                emit(&mut out, Action::WpCli(v));
            },
        },
    }
    assert(action_views(out@) =~~= step_plan(*step, project@));
    out
}

/// Setting a user's password, when there is one.
fn login_actions(username: &Option<String>, password: &Option<String>, out: &mut Vec<Action>)
    ensures
        action_views(final(out)@) == action_views(old(out)@) + login_plan(*username, *password),
{
    match password {
        Some(p) => {
            let user = match username {
                Some(u) => u.clone(),
                None => lit("admin"),
            };
            let mut flag = lit("--user_pass=");
            append(&mut flag, p.as_str());
            let mut a: Vec<String> = Vec::new();
            a.push(lit("user"));
            a.push(lit("update"));
            let ghost uv = user@;
            assert(uv == match *username {
                Some(u) => u@,
                None => "admin"@,
            });
            a.push(user);
            a.push(flag);
            assert(strs(a@) =~= seq!["user"@, "update"@, uv, "--user_pass="@ + p@]);
            let ghost av = strs(a@);
            emit(out, Action::WpCli(a));
            assert(login_plan(*username, *password) =~~= seq![ActionView::WpCli(av)]);
        },
        None => {},
    }
    assert(action_views(out@) =~= action_views(old(out)@) + login_plan(*username, *password));
}

/// Installing and activating a plugin by its slug.
fn slug_install_action(slug: &str) -> (r: Action)
    ensures
        r@ == slug_install(slug@),
{
    let p = strings(&["plugin", "install", slug, "--force", "--activate"]);
    assert(strs(p@) =~= seq!["plugin"@, "install"@, slug@, "--force"@, "--activate"@]);
    Action::WpCli(p)
}

/// The actions of the top-level shorthands, applied before the steps.
pub fn top_level_actions(bp: &Blueprint) -> (r: Vec<Action>)
    ensures
        action_views(r@) == top_level_plan(*bp),
{
    let mut out: Vec<Action> = Vec::new();
    assert(action_views(out@) =~= Seq::<ActionView>::empty());
    match &bp.preferred_versions {
        Some(v) => match &v.php {
            Some(php) => {
                let n = normalize_php_version(php.as_str());
                if !crate::text::str_eq(n.as_str(), "latest") {
                    emit(&mut out, Action::SetPhpVersion(n));
                }
            },
            None => {},
        },
        None => {},
    }
    let ghost a1 = action_views(out@);
    match &bp.constants {
        Some(cs) => consts_actions(cs, &mut out),
        None => {},
    }
    let ghost a2 = action_views(out@);
    let mut i: usize = 0;
    assert(bp.plugins@.take(0) =~= Seq::<PluginShorthand>::empty());
    assert(a2 =~= a2 + plugins_plan(bp.plugins@.take(0)));
    while i < bp.plugins.len()
        invariant
            i <= bp.plugins@.len(),
            action_views(out@) == a2 + plugins_plan(bp.plugins@.take(i as int)),
        decreases bp.plugins.len() - i,
    {
        match &bp.plugins[i] {
            PluginShorthand::Slug(slug) => emit(&mut out, slug_install_action(slug.as_str())),
            PluginShorthand::Resource(r) => install_actions(true, r, true, &mut out),
        }
        assert(bp.plugins@.take(i + 1).drop_last() =~= bp.plugins@.take(i as int));
        assert(action_views(out@) =~= a2 + plugins_plan(bp.plugins@.take(i + 1)));
        i += 1;
    }
    assert(bp.plugins@.take(bp.plugins@.len() as int) =~= bp.plugins@);
    let ghost a3 = action_views(out@);
    match &bp.site_options {
        Some(os) => options_actions(os, &mut out),
        None => {},
    }
    let ghost a4 = action_views(out@);
    match &bp.login {
        Some(LoginShorthand::Credentials { username, password }) => login_actions(
            username,
            password,
            &mut out,
        ),
        _ => {},
    }
    assert(action_views(out@) =~= top_level_plan(*bp));
    out
}

/// The actions of an entry of `steps`: a step's, a plugin slug's install,
/// or nothing.
pub fn entry_actions(entry: &StepEntry, project: &str) -> (r: Vec<Action>)
    ensures
        action_views(r@) == entry_plan(*entry, project@),
{
    match entry {
        StepEntry::Step(s) => step_actions(s, project),
        StepEntry::String(slug) => {
            let mut out: Vec<Action> = Vec::new();
            out.push(slug_install_action(slug.as_str()));
            assert(action_views(out@) =~= entry_plan(*entry, project@));
            out
        },
        _ => {
            let out: Vec<Action> = Vec::new();
            assert(action_views(out@) =~= entry_plan(*entry, project@));
            out
        },
    }
}

// ---------------------------------------------------------------------------
// Laws
// ---------------------------------------------------------------------------

/// Every file a plan writes is inside the project.
pub open spec fn writes_within(project: Seq<char>, plan: Seq<ActionView>) -> bool {
    forall|i: int|
        0 <= i < plan.len() ==> match #[trigger] plan[i] {
            ActionView::WriteFile(t, _) => within(project, t),
            ActionView::WriteFetched(t, _) => within(project, t),
            _ => true,
        }
}

/// Plans that write inside the project, one after the other, still do.
pub proof fn lemma_writes_within_concat(project: Seq<char>, a: Seq<ActionView>, b: Seq<ActionView>)
    requires
        writes_within(project, a),
        writes_within(project, b),
    ensures
        writes_within(project, a + b),
{
    assert forall|i: int| 0 <= i < (a + b).len() implies match #[trigger] (a + b)[i] {
        ActionView::WriteFile(t, _) => within(project, t),
        ActionView::WriteFetched(t, _) => within(project, t),
        _ => true,
    } by {
        if i < a.len() {
            assert((a + b)[i] == a[i]);
        } else {
            assert((a + b)[i] == b[i - a.len()]);
        }
    }
}

/// Setting constants writes no file.
pub proof fn lemma_consts_within(project: Seq<char>, cs: Seq<(String, JsonValue)>)
    ensures
        writes_within(project, consts_plan(cs)),
    decreases cs.len(),
{
    if cs.len() > 0 {
        lemma_consts_within(project, cs.drop_last());
        lemma_writes_within_concat(
            project,
            consts_plan(cs.drop_last()),
            seq![ActionView::WpCli(const_args(cs.last().0@, cs.last().1))],
        );
    }
}

/// Setting options writes no file.
pub proof fn lemma_options_within(project: Seq<char>, os: Seq<(String, JsonValue)>)
    ensures
        writes_within(project, options_plan(os)),
    decreases os.len(),
{
    if os.len() > 0 {
        lemma_options_within(project, os.drop_last());
        lemma_writes_within_concat(
            project,
            options_plan(os.drop_last()),
            seq![
                ActionView::WpCli(
                    seq!["option"@, "update"@, os.last().0@, spec_json_value_to_string(os.last().1)],
                ),
            ],
        );
    }
}

/// Setting user meta writes no file.
pub proof fn lemma_meta_within(project: Seq<char>, user: Seq<char>, ms: Seq<(String, JsonValue)>)
    ensures
        writes_within(project, meta_plan(user, ms)),
    decreases ms.len(),
{
    if ms.len() > 0 {
        lemma_meta_within(project, user, ms.drop_last());
        lemma_writes_within_concat(
            project,
            meta_plan(user, ms.drop_last()),
            seq![
                ActionView::WpCli(
                    seq![
                        "user"@,
                        "meta"@,
                        "update"@,
                        user,
                        ms.last().0@,
                        spec_json_value_to_string(ms.last().1),
                    ],
                ),
            ],
        );
    }
}

/// Writing a tree of files stays inside the project.
pub proof fn lemma_members_within(project: Seq<char>, base: Seq<char>, ms: Seq<(String, JsonValue)>)
    ensures
        writes_within(project, members_plan(project, base, ms)),
    decreases ms,
{
    if ms.len() > 0 {
        let path = base + "/"@ + ms.last().0@;
        lemma_members_within(project, base, ms.drop_last());
        let tail: Seq<ActionView> = match ms.last().1 {
            JsonValue::Object(inner) => {
                lemma_members_within(project, path, inner@);
                members_plan(project, path, inner@)
            },
            JsonValue::String(t) => write_plan(project, path, t@),
            _ => Seq::empty(),
        };
        lemma_writes_within_concat(project, members_plan(project, base, ms.drop_last()), tail);
    }
}

/// Executing a step never writes a file outside the project: each file
/// write in a step's plan has passed the path check.
pub proof fn law_writes_stay_in_project(s: Step, project: Seq<char>)
    ensures
        writes_within(project, step_plan(s, project)),
{
    match s {
        Step::WriteFiles(WriteFilesStep { write_to_path, files_tree }) => match files_tree {
            FilesTreeData::Directory(DirectoryResource::Literal { files, .. }) => match files {
                JsonValue::Object(ms) => {
                    lemma_members_within(project, site_relative(write_to_path@), ms@);
                    assert(step_plan(s, project) == members_plan(
                        project,
                        site_relative(write_to_path@),
                        ms@,
                    ));
                },
                _ => {
                    assert(step_plan(s, project) =~= Seq::<ActionView>::empty());
                },
            },
            FilesTreeData::Raw(v) => match v {
                JsonValue::Object(ms) => {
                    lemma_members_within(project, site_relative(write_to_path@), ms@);
                    assert(step_plan(s, project) == members_plan(
                        project,
                        site_relative(write_to_path@),
                        ms@,
                    ));
                },
                _ => {
                    assert(step_plan(s, project) =~= Seq::<ActionView>::empty());
                },
            },
            _ => {
                assert(step_plan(s, project) =~= Seq::<ActionView>::empty());
            },
        },
        Step::WriteFile(WriteFileStep { path, data }) => {
            let target = join_path(project, site_relative(path@));
            let plan = step_plan(s, project);
            assert forall|i: int| 0 <= i < plan.len() implies match #[trigger] plan[i] {
                ActionView::WriteFile(t, _) => within(project, t),
                ActionView::WriteFetched(t, _) => within(project, t),
                _ => true,
            } by {
                match data {
                    WriteFileData::Resource(FileResource::Url { url, .. }) => {
                        if within(project, target) {
                            assert(plan[i] == ActionView::WriteFetched(target, url@));
                        }
                    },
                    _ => {},
                }
            }
        },
        Step::InstallTheme(InstallThemeStep { theme_data, theme_zip_file, options }) => {
            let activate = match options {
                Some(o) => o.activate == Some(true),
                None => false,
            };
            let starter = match options {
                Some(o) => o.import_starter_content == Some(true),
                None => false,
            };
            lemma_writes_within_concat(
                project,
                install_step_plan(false, theme_data, theme_zip_file, activate),
                if starter {
                    seq![ActionView::WpEval("do_action(\"after_switch_theme\");"@)]
                } else {
                    Seq::empty()
                },
            );
        },
        Step::DefineWpConfigConsts(DefineWpConfigConstsStep { consts }) => lemma_consts_within(project, consts@),
        Step::SetSiteOptions(SetSiteOptionsStep { options }) => lemma_options_within(project, options@),
        Step::UpdateUserMeta(UpdateUserMetaStep { user_id, meta }) => lemma_meta_within(
            project,
            crate::text::decimal(user_id as nat),
            meta@,
        ),
        Step::ImportThemeStarterContent(ImportThemeStarterContentStep { theme_slug }) => {
            lemma_writes_within_concat(
                project,
                match theme_slug {
                    Some(t) => seq![ActionView::WpCli(seq!["theme"@, "activate"@, t@])],
                    None => Seq::empty(),
                },
                seq![ActionView::WpEval("do_action(\"after_switch_theme\");"@)],
            );
        },
        Step::ImportWxr(ImportWxrStep { file }) => {
            lemma_writes_within_concat(
                project,
                seq![
                    ActionView::WpCliTry(
                        seq!["plugin"@, "install"@, "wordpress-importer"@, "--activate"@],
                    ),
                ],
                match file {
                    ResourceValue::Resource(FileResource::Url { url, .. }) => seq![
                        ActionView::DownloadUrl(url@, "/tmp/import.wxr"@),
                        ActionView::WpCli(seq!["import"@, "/tmp/import.wxr"@, "--authors=create"@]),
                    ],
                    ResourceValue::Resource(FileResource::Literal { contents, .. }) => match json_str(
                        contents,
                    ) {
                        Some(t) => seq![ActionView::ImportWxrText(t)],
                        None => Seq::empty(),
                    },
                    _ => Seq::empty(),
                },
            );
        },
        _ => {},
    }
}

} // verus!
