//! The retry-with-reflection repair loop, as a state machine.
//!
//! ```text
//! loop {
//!     plan = planner(diagnostics, context)
//!     diff = fixer(plan, context, reflection)
//!     parse and check the diff; read the files it touches
//!     if verified (when verification is on) and the user confirms:
//!         apply and write; stop
//!     else:
//!         reflect and retry
//!     if attempts >= max: stop (give up)
//! }
//! ```
//!
//! The program runs the agents, reads and writes the files, checks the
//! fractional change limits and asks the user; each time it reports what
//! came of an action, [`RepairState::step`] decides what to do next.
use vstd::prelude::*;

use crate::error::CheckerError;
use crate::llm::TokenUsage;
use crate::patch::{apply_patch, parse_unified_diff, spec_apply_patch, spec_parse_unified_diff,
    FilePatchView, Patch, PatchResult, file_views, result_map, distinct_paths};
use crate::safety::{safety_verdict, validate_safety, SafetyConfig};
use crate::text::{append, strs};

verus! {

/// Where the loop stands: what it is waiting for.
#[derive(Debug, Clone, Copy, PartialEq, Eq, Structural)]
pub enum Phase {
    /// Not started.
    Idle,
    /// Waiting for the planner.
    Planning,
    /// Waiting for the fixer.
    Fixing,
    /// Waiting for the contents of the files the patch touches.
    Reading,
    /// Waiting for the check of the change limits.
    Checking,
    /// Waiting for the verifier.
    Verifying,
    /// Waiting for the user's answer.
    Confirming,
    /// Waiting for the patched files to be written.
    Writing,
    /// Finished.
    Finished,
}

/// What the program is asked to do next.
#[derive(Debug)]
pub enum RepairAction {
    /// Run the planner for this attempt; report `Planned` or `PlanFailed`.
    Plan { attempt: u32 },
    /// Run the fixer with the plan and the feedback on the last attempt;
    /// report `Fixed` or `FixFailed`.
    Fix { reflection: Option<String> },
    /// Read these files; report `FilesRead` with those that could be read.
    ReadFiles { paths: Vec<String> },
    /// Check the patch's change limits against the files read; report
    /// `ChangesChecked`.
    CheckChanges,
    /// Run the verifier on the diff; report `Verified` or `VerifyFailed`.
    Verify,
    /// Show the patch and ask whether to apply it; report `Confirmed`.
    Confirm,
    /// Write these contents to these files; report `Written`.
    Write { files: Vec<(String, String)> },
    /// Stop. `exhausted` when the attempts ran out.
    Finish { total_fixed: usize, exhausted: bool },
}

/// What came of the last action.
#[derive(Debug)]
pub enum RepairEvent {
    /// Begin the loop.
    Start,
    /// The planner answered; `has_files` when its plan edits some file.
    Planned { has_files: bool, usage: Option<TokenUsage> },
    /// The planner failed.
    PlanFailed,
    /// The fixer answered with a diff.
    Fixed { diff: String, usage: Option<TokenUsage> },
    /// The fixer failed, with the error's message.
    FixFailed { message: String },
    /// The files that could be read, with their contents.
    FilesRead { contents: Vec<(String, String)> },
    /// The change limits were checked; the rejection's message when the
    /// patch exceeds them.
    ChangesChecked { rejection: Option<String> },
    /// The verifier answered. `low_confidence` holds the confidence, as
    /// shown, when it is below the minimum.
    Verified { valid: bool, reason: String, low_confidence: Option<String>, usage: Option<TokenUsage> },
    /// The verifier failed (the patch goes on unverified).
    VerifyFailed,
    /// The user's answer.
    Confirmed { apply: bool },
    /// How many of the patched files were written.
    Written { files_fixed: usize },
}

/// The state of the loop.
#[derive(Debug)]
pub struct RepairState {
    pub phase: Phase,
    /// Attempts begun.
    pub attempt: u32,
    pub max_attempts: u32,
    /// Whether there are issues to repair.
    pub has_issues: bool,
    pub verify_enabled: bool,
    pub safety: SafetyConfig,
    /// Files fixed so far.
    pub total_fixed: usize,
    /// Feedback for the next fixer call.
    pub reflection: Option<String>,
    /// Token usage so far.
    pub usage: TokenUsage,
    /// The patch of the current attempt, once parsed.
    pub patch: Option<Patch>,
    /// The contents of the files the patch touches, once read.
    pub contents: Vec<(String, String)>,
}

// ---------------------------------------------------------------------------
// Specification
// ---------------------------------------------------------------------------

/// The view of an optional string.
pub open spec fn ov(o: Option<String>) -> Option<Seq<char>> {
    match o {
        Some(s) => Some(s@),
        None => None,
    }
}

/// Whether the loop goes on from its head: attempts are left and there are
/// issues.
pub open spec fn goes_on(s: RepairState) -> bool {
    s.attempt < s.max_attempts && s.has_issues
}

/// Token usage after adding a call's usage.
pub open spec fn added(t: TokenUsage, u: Option<TokenUsage>) -> TokenUsage {
    match u {
        Some(x) => TokenUsage {
            prompt_tokens: (t.prompt_tokens + x.prompt_tokens) as u64,
            completion_tokens: (t.completion_tokens + x.completion_tokens) as u64,
            total_tokens: (t.total_tokens + x.total_tokens) as u64,
        },
        None => t,
    }
}

/// Adding a call's usage does not overflow.
pub open spec fn usage_fits(t: TokenUsage, u: Option<TokenUsage>) -> bool {
    match u {
        Some(x) => t.prompt_tokens + x.prompt_tokens <= u64::MAX && t.completion_tokens
            + x.completion_tokens <= u64::MAX && t.total_tokens + x.total_tokens <= u64::MAX,
        None => true,
    }
}

/// The settings do not change.
pub open spec fn same_settings(a: RepairState, b: RepairState) -> bool {
    &&& b.max_attempts == a.max_attempts
    &&& b.has_issues == a.has_issues
    &&& b.verify_enabled == a.verify_enabled
    &&& b.safety == a.safety
}

/// The step back to the head of the loop with new feedback: the next
/// attempt is planned, or the loop finishes.
pub open spec fn back_to_head(
    old: RepairState,
    new: RepairState,
    a: RepairAction,
    reflection: Option<Seq<char>>,
    usage: TokenUsage,
) -> bool {
    &&& same_settings(old, new)
    &&& new.total_fixed == old.total_fixed
    &&& ov(new.reflection) == reflection
    &&& new.usage == usage
    &&& if goes_on(old) {
        &&& new.phase == Phase::Planning
        &&& new.attempt == old.attempt + 1
        &&& a == RepairAction::Plan { attempt: new.attempt }
    } else {
        finished(old, new, a)
    }
}

/// The loop stops.
pub open spec fn finished(old: RepairState, new: RepairState, a: RepairAction) -> bool {
    &&& new.phase == Phase::Finished
    &&& new.attempt == old.attempt
    &&& a matches RepairAction::Finish { total_fixed, exhausted } && total_fixed
        == new.total_fixed && exhausted == (old.attempt >= old.max_attempts && old.has_issues)
}

/// Everything but the phase stays.
pub open spec fn only_phase(old: RepairState, new: RepairState) -> bool {
    &&& same_settings(old, new)
    &&& new.attempt == old.attempt
    &&& new.total_fixed == old.total_fixed
    &&& new.reflection == old.reflection
    &&& new.usage == old.usage
}

/// The feedback after a failed fixer.
pub open spec fn fix_failed_text(message: Seq<char>) -> Seq<char> {
    "Fix agent failed with error: "@ + message
}

/// The feedback after a diff that does not parse.
pub open spec fn malformed_text(reason: Seq<char>) -> Seq<char> {
    "The previous diff was malformed and could not be parsed: AI fix failed: "@ + reason
        + ".\nPlease produce a valid unified diff."@
}

/// The feedback after a patch rejected by the safety checks.
pub open spec fn unsafe_text(reason: Seq<char>) -> Seq<char> {
    "The previous patch was rejected by safety checks: AI fix failed: "@ + reason
        + ".\nMake smaller, more targeted changes."@
}

/// The feedback after a patch over the change limits.
pub open spec fn too_large_text(rejection: Seq<char>) -> Seq<char> {
    "The previous patch was rejected: "@ + rejection + ".\nReduce the scope of changes."@
}

/// The feedback after a patch the verifier rejected.
pub open spec fn rejected_text(reason: Seq<char>) -> Seq<char> {
    "The verifier rejected the patch: "@ + reason
        + ".\nPlease address these concerns in the next attempt."@
}

/// The feedback after a verification with too little confidence.
pub open spec fn low_confidence_text(confidence: Seq<char>, reason: Seq<char>) -> Seq<char> {
    "The verifier gave a low confidence score ("@ + confidence + "): "@ + reason
        + ".\nMake simpler, more targeted changes."@
}

/// The feedback after a patch that does not apply.
pub open spec fn apply_failed_text(reason: Seq<char>) -> Seq<char> {
    "The previous patch failed to apply: AI fix failed: "@ + reason
        + ".\nEnsure line numbers and context match the current file content."@
}

/// The paths a patch touches.
pub open spec fn patch_paths(p: Seq<FilePatchView>) -> Seq<Seq<char>> {
    Seq::new(p.len(), |i: int| p[i].path)
}

/// What the loop does on an event in a phase. Events that do not belong to
/// the phase leave the state as it is and finish the loop.
pub open spec fn spec_step(old: RepairState, e: RepairEvent, new: RepairState, a: RepairAction) -> bool {
    match (old.phase, e) {
        (Phase::Idle, RepairEvent::Start) => back_to_head(old, new, a, ov(old.reflection), old.usage),
        (Phase::Planning, RepairEvent::PlanFailed) => only_phase(old, new) && finished(old, new, a),
        (Phase::Planning, RepairEvent::Planned { has_files, usage }) => {
            &&& same_settings(old, new)
            &&& new.total_fixed == old.total_fixed
            &&& new.reflection == old.reflection
            &&& new.usage == added(old.usage, usage)
            &&& if has_files {
                &&& new.phase == Phase::Fixing
                &&& new.attempt == old.attempt
                &&& a matches RepairAction::Fix { reflection } && ov(reflection) == ov(
                    old.reflection,
                )
            } else {
                finished(old, new, a)
            }
        },
        (Phase::Fixing, RepairEvent::FixFailed { message }) => back_to_head(
            old,
            new,
            a,
            Some(fix_failed_text(message@)),
            old.usage,
        ),
        (Phase::Fixing, RepairEvent::Fixed { diff, usage }) => match spec_parse_unified_diff(
            diff@,
        ) {
            Err(reason) => back_to_head(
                old,
                new,
                a,
                Some(malformed_text(reason)),
                added(old.usage, usage),
            ),
            Ok(fps) => match new.patch {
                None => false,
                Some(p) => if p@ != fps {
                    false
                } else {
                    match safety_verdict(p, old.safety) {
                        Some(reason) => back_to_head(
                            old,
                            new,
                            a,
                            Some(unsafe_text(reason)),
                            added(old.usage, usage),
                        ),
                        None => {
                            &&& same_settings(old, new)
                            &&& new.attempt == old.attempt
                            &&& new.total_fixed == old.total_fixed
                            &&& new.reflection == old.reflection
                            &&& new.usage == added(old.usage, usage)
                            &&& new.phase == Phase::Reading
                            &&& a matches RepairAction::ReadFiles { paths } && strs(paths@)
                                == patch_paths(fps)
                        },
                    }
                },
            },
        },
        (Phase::Reading, RepairEvent::FilesRead { contents }) => {
            &&& only_phase(old, new)
            &&& new.phase == Phase::Checking
            &&& new.patch == old.patch
            &&& new.contents == contents
            &&& a == RepairAction::CheckChanges
        },
        (Phase::Checking, RepairEvent::ChangesChecked { rejection }) => match rejection {
            Some(r) => back_to_head(old, new, a, Some(too_large_text(r@)), old.usage),
            None => {
                &&& only_phase(old, new)
                &&& new.patch == old.patch
                &&& new.contents == old.contents
                &&& if old.verify_enabled {
                    new.phase == Phase::Verifying && a == RepairAction::Verify
                } else {
                    new.phase == Phase::Confirming && a == RepairAction::Confirm
                }
            },
        },
        (Phase::Verifying, RepairEvent::VerifyFailed) => {
            &&& only_phase(old, new)
            &&& new.patch == old.patch
            &&& new.contents == old.contents
            &&& new.phase == Phase::Confirming
            &&& a == RepairAction::Confirm
        },
        (Phase::Verifying, RepairEvent::Verified { valid, reason, low_confidence, usage }) => {
            if !valid {
                back_to_head(old, new, a, Some(rejected_text(reason@)), added(old.usage, usage))
            } else {
                match low_confidence {
                    Some(c) => back_to_head(
                        old,
                        new,
                        a,
                        Some(low_confidence_text(c@, reason@)),
                        added(old.usage, usage),
                    ),
                    None => {
                        &&& same_settings(old, new)
                        &&& new.attempt == old.attempt
                        &&& new.total_fixed == old.total_fixed
                        &&& new.reflection == old.reflection
                        &&& new.usage == added(old.usage, usage)
                        &&& new.patch == old.patch
                        &&& new.contents == old.contents
                        &&& new.phase == Phase::Confirming
                        &&& a == RepairAction::Confirm
                    },
                }
            }
        },
        (Phase::Confirming, RepairEvent::Confirmed { apply }) => if !apply {
            only_phase(old, new) && finished(old, new, a)
        } else {
            match old.patch {
                None => only_phase(old, new) && finished(old, new, a),
                Some(p) => match spec_apply_patch(p@, file_views(old.contents@)) {
                    Err(reason) => back_to_head(
                        old,
                        new,
                        a,
                        Some(apply_failed_text(reason)),
                        old.usage,
                    ),
                    Ok(m) => {
                        &&& only_phase(old, new)
                        &&& new.phase == Phase::Writing
                        &&& a matches RepairAction::Write { files } && written_map(files@) == m.map_values(
                            |r: crate::patch::PatchResultView| r.0,
                        ) && distinct_written(files@)
                    },
                },
            }
        },
        (Phase::Writing, RepairEvent::Written { files_fixed }) => {
            &&& same_settings(old, new)
            &&& new.total_fixed == old.total_fixed + files_fixed
            &&& new.reflection == old.reflection
            &&& new.usage == old.usage
            &&& finished(old, new, a)
        },
        _ => only_phase(old, new) && finished(old, new, a),
    }
}

/// The map of written files: path to new content.
pub open spec fn written_map(fs: Seq<(String, String)>) -> Map<Seq<char>, Seq<char>>
    decreases fs.len(),
{
    if fs.len() == 0 {
        Map::empty()
    } else {
        written_map(fs.drop_last()).insert(fs.last().0@, fs.last().1@)
    }
}

/// The written paths are distinct.
pub open spec fn distinct_written(fs: Seq<(String, String)>) -> bool {
    forall|i: int, j: int| 0 <= i < j < fs.len() ==> fs[i].0@ != fs[j].0@
}

/// The step does not overflow.
pub open spec fn step_fits(s: RepairState, e: RepairEvent) -> bool {
    match e {
        RepairEvent::Planned { usage, .. } => usage_fits(s.usage, usage),
        RepairEvent::Fixed { usage, .. } => usage_fits(s.usage, usage),
        RepairEvent::Verified { usage, .. } => usage_fits(s.usage, usage),
        RepairEvent::Written { files_fixed } => s.total_fixed + files_fixed <= usize::MAX,
        _ => true,
    }
}


// ---------------------------------------------------------------------------
// Steps
// ---------------------------------------------------------------------------

/// Builds a message from pieces.
fn text3(a: &str, b: &str, c: &str) -> (r: String)
    ensures
        r@ == a@ + b@ + c@,
{
    let mut r = String::new();
    append(&mut r, a);
    append(&mut r, b);
    append(&mut r, c);
    r
}

/// The reason of an `AiFixFailed` error.
fn ai_reason(e: CheckerError) -> (r: String)
    ensures
        e matches CheckerError::AiFixFailed { reason } ==> r == reason,
{
    match e {
        CheckerError::AiFixFailed { reason } => reason,
        _ => String::new(),
    }
}

/// The files to write: each patched path with its new content.
fn written_files(rs: Vec<(String, PatchResult)>) -> (r: Vec<(String, String)>)
    requires
        distinct_paths(rs@),
    ensures
        written_map(r@) == result_map(rs@).map_values(|v: crate::patch::PatchResultView| v.0),
        distinct_written(r@),
{
    let mut out: Vec<(String, String)> = Vec::new();
    let mut i: usize = 0;
    while i < rs.len()
        invariant
            i <= rs@.len(),
            out@.len() == i,
            forall|k: int| 0 <= k < i ==> #[trigger] out@[k].0@ == rs@[k].0@,
            distinct_paths(rs@),
            written_map(out@) == result_map(rs@.take(i as int)).map_values(
                |v: crate::patch::PatchResultView| v.0,
            ),
        decreases rs.len() - i,
    {
        let ghost o = out@;
        let path = rs[i].0.clone();
        let content = rs[i].1.content.clone();
        out.push((path, content));
        proof {
            assert(out@.drop_last() =~= o);
            assert forall|k: int| 0 <= k < i + 1 implies #[trigger] out@[k].0@ == rs@[k].0@ by {
                if k < i {
                    assert(out@[k] == o[k]);
                }
            }
            assert(rs@.take(i + 1).drop_last() =~= rs@.take(i as int));
            assert(written_map(out@) =~= result_map(rs@.take(i + 1)).map_values(
                |v: crate::patch::PatchResultView| v.0,
            ));
        }
        i += 1;
    }
    assert(rs@.take(rs@.len() as int) =~= rs@);
    assert(distinct_written(out@)) by {
        assert forall|a: int, b: int| 0 <= a < b < out@.len() implies out@[a].0@ != out@[b].0@ by {
            assert(out@[a].0@ == rs@[a].0@);
            assert(out@[b].0@ == rs@[b].0@);
        }
    }
    out
}

impl RepairState {
    /// A loop that has not started.
    pub fn new(max_attempts: u32, has_issues: bool, verify_enabled: bool, safety: SafetyConfig) -> (r:
        Self)
        ensures
            r.phase == Phase::Idle,
            r.attempt == 0,
            r.max_attempts == max_attempts,
            r.has_issues == has_issues,
            r.verify_enabled == verify_enabled,
            r.safety == safety,
            r.total_fixed == 0,
            r.reflection is None,
            r.usage == (TokenUsage { prompt_tokens: 0, completion_tokens: 0, total_tokens: 0 }),
            r.patch is None,
            r.contents@.len() == 0,
    {
        RepairState {
            phase: Phase::Idle,
            attempt: 0,
            max_attempts,
            has_issues,
            verify_enabled,
            safety,
            total_fixed: 0,
            reflection: None,
            usage: TokenUsage::zero(),
            patch: None,
            contents: Vec::new(),
        }
    }

    /// Stops the loop.
    fn finish(&mut self) -> (a: RepairAction)
        ensures
            finished(*old(self), *final(self), a),
            only_phase(*old(self), *final(self)),
            final(self).patch == old(self).patch,
    {
        self.phase = Phase::Finished;
        RepairAction::Finish {
            total_fixed: self.total_fixed,
            exhausted: self.attempt >= self.max_attempts && self.has_issues,
        }
    }

    /// Back to the head of the loop with new feedback.
    fn retry(&mut self, reflection: Option<String>) -> (a: RepairAction)
        ensures
            back_to_head(*old(self), *final(self), a, ov(reflection), old(self).usage),
    {
        self.reflection = reflection;
        if self.attempt < self.max_attempts && self.has_issues {
            self.attempt = self.attempt + 1;
            self.phase = Phase::Planning;
            RepairAction::Plan { attempt: self.attempt }
        } else {
            self.phase = Phase::Finished;
            RepairAction::Finish {
                total_fixed: self.total_fixed,
                exhausted: self.attempt >= self.max_attempts && self.has_issues,
            }
        }
    }

    /// Adds a call's token usage.
    fn add_usage(&mut self, usage: Option<TokenUsage>)
        requires
            usage_fits(old(self).usage, usage),
        ensures
            final(self).usage == added(old(self).usage, usage),
            final(self).phase == old(self).phase,
            final(self).attempt == old(self).attempt,
            final(self).total_fixed == old(self).total_fixed,
            final(self).reflection == old(self).reflection,
            final(self).patch == old(self).patch,
            final(self).contents == old(self).contents,
            same_settings(*old(self), *final(self)),
    {
        crate::llm::accumulate_usage(&mut self.usage, usage);
    }

    /// Decide what to do next, given what came of the last action.
    pub fn step(&mut self, event: RepairEvent) -> (a: RepairAction)
        requires
            step_fits(*old(self), event),
        ensures
            spec_step(*old(self), event, *final(self), a),
    {
        let ghost e = event;
        match (self.phase, event) {
            (Phase::Idle, RepairEvent::Start) => {
                let r = self.reflection.take();
                self.retry(r)
            },
            (Phase::Planning, RepairEvent::PlanFailed) => self.finish(),
            (Phase::Planning, RepairEvent::Planned { has_files, usage }) => {
                self.add_usage(usage);
                if has_files {
                    self.phase = Phase::Fixing;
                    let reflection = match &self.reflection {
                        Some(r) => Some(r.clone()),
                        None => None,
                    };
                    RepairAction::Fix { reflection }
                } else {
                    self.finish()
                }
            },
            (Phase::Fixing, RepairEvent::FixFailed { message }) => {
                let r = text3("Fix agent failed with error: ", message.as_str(), "");
                proof {
                    reveal_strlit("");
                    assert(r@ =~= fix_failed_text(message@));
                }
                self.retry(Some(r))
            },
            (Phase::Fixing, RepairEvent::Fixed { diff, usage }) => {
                self.add_usage(usage);
                let ghost mid = *self;
                match parse_unified_diff(diff.as_str()) {
                    Err(err) => {
                        let reason = ai_reason(err);
                        let r = text3(
                            "The previous diff was malformed and could not be parsed: AI fix failed: ",
                            reason.as_str(),
                            ".\nPlease produce a valid unified diff.",
                        );
                        self.retry(Some(r))
                    },
                    Ok(p) => {
                        match validate_safety(&p, &self.safety) {
                            Err(err) => {
                                let reason = ai_reason(err);
                                let r = text3(
                                    "The previous patch was rejected by safety checks: AI fix failed: ",
                                    reason.as_str(),
                                    ".\nMake smaller, more targeted changes.",
                                );
                                let a = self.retry(Some(r));
                                self.patch = Some(p);
                                a
                            },
                            Ok(()) => {
                                let mut paths: Vec<String> = Vec::new();
                                let mut i: usize = 0;
                                while i < p.file_patches.len()
                                    invariant
                                        i <= p.file_patches@.len(),
                                        strs(paths@) == patch_paths(p@).take(i as int),
                                    decreases p.file_patches.len() - i,
                                {
                                    let ghost o = paths@;
                                    let x = p.file_patches[i].path.clone();
                                    paths.push(x);
                                    assert(p@[i as int].path == p.file_patches@[i as int].path@);
                                    assert(strs(paths@) =~= strs(o) + seq![x@]);
                                    i += 1;
                                    assert(strs(paths@) =~= patch_paths(p@).take(i as int));
                                }
                                assert(patch_paths(p@).take(p@.len() as int) =~= patch_paths(p@));
                                self.phase = Phase::Reading;
                                self.patch = Some(p);
                                RepairAction::ReadFiles { paths }
                            },
                        }
                    },
                }
            },
            (Phase::Reading, RepairEvent::FilesRead { contents }) => {
                self.contents = contents;
                self.phase = Phase::Checking;
                RepairAction::CheckChanges
            },
            (Phase::Checking, RepairEvent::ChangesChecked { rejection }) => match rejection {
                Some(rej) => {
                    let r = text3(
                        "The previous patch was rejected: ",
                        rej.as_str(),
                        ".\nReduce the scope of changes.",
                    );
                    self.retry(Some(r))
                },
                None => if self.verify_enabled {
                    self.phase = Phase::Verifying;
                    RepairAction::Verify
                } else {
                    self.phase = Phase::Confirming;
                    RepairAction::Confirm
                },
            },
            (Phase::Verifying, RepairEvent::VerifyFailed) => {
                self.phase = Phase::Confirming;
                RepairAction::Confirm
            },
            (Phase::Verifying, RepairEvent::Verified { valid, reason, low_confidence, usage }) => {
                self.add_usage(usage);
                if !valid {
                    let r = text3(
                        "The verifier rejected the patch: ",
                        reason.as_str(),
                        ".\nPlease address these concerns in the next attempt.",
                    );
                    self.retry(Some(r))
                } else {
                    match low_confidence {
                        Some(c) => {
                            let mut r = String::new();
                            append(&mut r, "The verifier gave a low confidence score (");
                            append(&mut r, c.as_str());
                            append(&mut r, "): ");
                            append(&mut r, reason.as_str());
                            append(&mut r, ".\nMake simpler, more targeted changes.");
                            assert(r@ =~= low_confidence_text(c@, reason@));
                            self.retry(Some(r))
                        },
                        None => {
                            self.phase = Phase::Confirming;
                            RepairAction::Confirm
                        },
                    }
                }
            },
            (Phase::Confirming, RepairEvent::Confirmed { apply }) => {
                if !apply {
                    return self.finish();
                }
                let applied = match &self.patch {
                    None => None,
                    Some(p) => Some(apply_patch(p, &self.contents)),
                };
                match applied {
                    None => self.finish(),
                    Some(Err(err)) => {
                        let reason = ai_reason(err);
                        let r = text3(
                            "The previous patch failed to apply: AI fix failed: ",
                            reason.as_str(),
                            ".\nEnsure line numbers and context match the current file content.",
                        );
                        self.retry(Some(r))
                    },
                    Some(Ok(results)) => {
                        let files = written_files(results);
                        self.phase = Phase::Writing;
                        RepairAction::Write { files }
                    },
                }
            },
            (Phase::Writing, RepairEvent::Written { files_fixed }) => {
                self.total_fixed = self.total_fixed + files_fixed;
                self.finish()
            },
            _ => self.finish(),
        }
    }
}


// ---------------------------------------------------------------------------
// Laws
// ---------------------------------------------------------------------------

/// The loop never begins more attempts than allowed: a step from a state
/// within the limit stays within it, and an attempt is planned only while
/// attempts are left.
pub proof fn law_attempts_bounded(old: RepairState, e: RepairEvent, new: RepairState, a: RepairAction)
    requires
        old.attempt <= old.max_attempts,
        spec_step(old, e, new, a),
    ensures
        new.attempt <= new.max_attempts,
        a matches RepairAction::Plan { attempt } ==> attempt == old.attempt + 1 && attempt
            <= old.max_attempts,
{
}

/// The count of fixed files never goes down.
pub proof fn law_total_fixed_monotone(old: RepairState, e: RepairEvent, new: RepairState, a: RepairAction)
    requires
        spec_step(old, e, new, a),
    ensures
        new.total_fixed >= old.total_fixed,
{
}

/// Once finished, the loop stays finished and keeps its count.
pub proof fn law_finished_is_final(old: RepairState, e: RepairEvent, new: RepairState, a: RepairAction)
    requires
        old.phase == Phase::Finished,
        spec_step(old, e, new, a),
    ensures
        new.phase == Phase::Finished,
        new.total_fixed == old.total_fixed,
        new.attempt == old.attempt,
        a matches RepairAction::Finish { total_fixed, .. } && total_fixed == old.total_fixed,
{
}

/// A patch is written only after the user agreed to it, and only files
/// of the patch, with what applying it gives.
pub proof fn law_write_only_confirmed(old: RepairState, e: RepairEvent, new: RepairState, a: RepairAction)
    requires
        spec_step(old, e, new, a),
        a is Write,
    ensures
        old.phase == Phase::Confirming,
        e matches RepairEvent::Confirmed { apply } && apply,
        old.patch matches Some(p) && spec_apply_patch(p@, file_views(old.contents@)) is Ok,
{
}

/// The settings of the loop never change.
pub proof fn law_settings_kept(old: RepairState, e: RepairEvent, new: RepairState, a: RepairAction)
    requires
        spec_step(old, e, new, a),
    ensures
        same_settings(old, new),
{
}

} // verus!
