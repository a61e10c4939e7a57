//! Core data types: steps, jobs, runs, repositories and the records that
//! describe diffs and the results of a pipeline.

use std::collections::BTreeMap;
use std::collections::HashMap;
use vstd::prelude::*;

verus! {

// =============================================================================
// Approval mode
// =============================================================================

/// Controls when a step pauses for user approval.
///
/// In YAML: `false` or omitted is `Never`, `true` is `Always`, and
/// `"if_patches"` is `IfPatches` (pause only when unapplied patches exist).
#[derive(Debug, Clone, Copy, PartialEq, Eq, Structural)]
pub enum ApprovalMode {
    /// Never pause for approval (default).
    Never,
    /// Always pause for approval after the step completes.
    Always,
    /// Pause only when there are pending (unapplied) patches.
    IfPatches,
}

impl Default for ApprovalMode {
    fn default() -> (r: Self)
        ensures
            r == ApprovalMode::Never,
    {
        ApprovalMode::Never
    }
}

/// What a YAML or JSON boolean means as an approval mode.
pub open spec fn approval_from_bool_spec(v: bool) -> ApprovalMode {
    if v {
        ApprovalMode::Always
    } else {
        ApprovalMode::Never
    }
}

/// Reads a boolean approval setting.
pub fn approval_mode_from_bool(v: bool) -> (r: ApprovalMode)
    ensures
        r == approval_from_bool_spec(v),
{
    if v {
        ApprovalMode::Always
    } else {
        ApprovalMode::Never
    }
}

/// Reads a string approval setting: `"if_patches"`, `"true"` or `"false"`;
/// any other string is refused.
pub fn approval_mode_from_str(v: &str) -> (r: Option<ApprovalMode>)
    ensures
        v@ == "if_patches"@ ==> r == Some(ApprovalMode::IfPatches),
        v@ == "true"@ ==> r == Some(ApprovalMode::Always),
        v@ == "false"@ ==> r == Some(ApprovalMode::Never),
        v@ != "if_patches"@ && v@ != "true"@ && v@ != "false"@ ==> r is None,
{
    proof {
        reveal_strlit("if_patches");
        reveal_strlit("true");
        reveal_strlit("false");
        assert("true"@.len() != "if_patches"@.len());
        assert("false"@.len() != "if_patches"@.len());
        assert("false"@.len() != "true"@.len());
    }
    if crate::text::str_eq(v, "if_patches") {
        Some(ApprovalMode::IfPatches)
    } else if crate::text::str_eq(v, "true") {
        Some(ApprovalMode::Always)
    } else if crate::text::str_eq(v, "false") {
        Some(ApprovalMode::Never)
    } else {
        None
    }
}

/// The stored form of an approval mode: a boolean, or a string.
#[derive(Debug, Clone, PartialEq, Eq)]
pub enum ApprovalValue {
    Flag(bool),
    Text(String),
}

/// Whether `v` is how `mode` is written: `Never` and `Always` as booleans,
/// `IfPatches` as the string `"if_patches"`.
pub open spec fn written_as(mode: ApprovalMode, v: ApprovalValue) -> bool {
    match mode {
        ApprovalMode::Never => v == ApprovalValue::Flag(false),
        ApprovalMode::Always => v == ApprovalValue::Flag(true),
        ApprovalMode::IfPatches => (v matches ApprovalValue::Text(t) && t@ == "if_patches"@),
    }
}

/// What a stored approval value reads as: a boolean as by
/// `approval_mode_from_bool`; the strings `"if_patches"`, `"true"` and
/// `"false"`; no other string.
pub open spec fn read_as(v: ApprovalValue) -> Option<ApprovalMode> {
    match v {
        ApprovalValue::Flag(b) => Some(approval_from_bool_spec(b)),
        ApprovalValue::Text(t) => if t@ == "if_patches"@ {
            Some(ApprovalMode::IfPatches)
        } else if t@ == "true"@ {
            Some(ApprovalMode::Always)
        } else if t@ == "false"@ {
            Some(ApprovalMode::Never)
        } else {
            None
        },
    }
}

/// How an approval mode is written.
pub fn approval_mode_to_value(mode: ApprovalMode) -> (r: ApprovalValue)
    ensures
        written_as(mode, r),
{
    match mode {
        ApprovalMode::Never => ApprovalValue::Flag(false),
        ApprovalMode::Always => ApprovalValue::Flag(true),
        ApprovalMode::IfPatches => ApprovalValue::Text("if_patches".to_string()),
    }
}

/// Reads a stored approval value.
pub fn approval_mode_from_value(v: &ApprovalValue) -> (r: Option<ApprovalMode>)
    ensures
        r == read_as(*v),
{
    match v {
        ApprovalValue::Flag(b) => Some(approval_mode_from_bool(*b)),
        ApprovalValue::Text(t) => approval_mode_from_str(t.as_str()),
    }
}

/// Writing an approval mode and reading it back gives the same mode.
pub proof fn law_approval_value_round_trip(mode: ApprovalMode, v: ApprovalValue)
    requires
        written_as(mode, v),
    ensures
        read_as(v) == Some(mode),
{
}

// =============================================================================
// Step and job status
// =============================================================================

/// Status of a pipeline step.
#[derive(Debug, Clone, Copy, PartialEq, Eq, Structural)]
pub enum StepStatus {
    /// Step has not started yet.
    Pending,
    /// Step is currently executing.
    Running,
    /// Step completed successfully.
    Passed,
    /// Step failed (or was rejected during approval).
    Failed,
    /// Step was skipped.
    Skipped,
    /// Step requires approval and awaits the user.
    AwaitingApproval,
}

impl Default for StepStatus {
    fn default() -> (r: Self)
        ensures
            r == StepStatus::Pending,
    {
        StepStatus::Pending
    }
}

/// A step status from which no further transition is expected.
pub open spec fn step_final(s: StepStatus) -> bool {
    s == StepStatus::Passed || s == StepStatus::Failed || s == StepStatus::Skipped
}

impl StepStatus {
    /// Returns true if this is a final status (no more transitions expected).
    pub fn is_final(&self) -> (r: bool)
        ensures
            r == step_final(*self),
    {
        matches!(self, StepStatus::Passed | StepStatus::Failed | StepStatus::Skipped)
    }
}

/// Status of a job in the pipeline.
#[derive(Debug, Clone, Copy, PartialEq, Eq, Structural)]
pub enum JobStatus {
    /// Job has not started yet.
    Pending,
    /// Job is currently executing.
    Running,
    /// Job completed successfully.
    Passed,
    /// Job failed.
    Failed,
    /// Job was skipped (e.g., due to a failed dependency).
    Skipped,
    /// Job has a step awaiting user approval.
    AwaitingApproval,
}

impl Default for JobStatus {
    fn default() -> (r: Self)
        ensures
            r == JobStatus::Pending,
    {
        JobStatus::Pending
    }
}

/// A job status from which no further transition is expected.
pub open spec fn job_final(s: JobStatus) -> bool {
    s == JobStatus::Passed || s == JobStatus::Failed || s == JobStatus::Skipped
}

impl JobStatus {
    /// Returns true if this is a final status (no more transitions expected).
    pub fn is_final(&self) -> (r: bool)
        ensures
            r == job_final(*self),
    {
        matches!(self, JobStatus::Passed | JobStatus::Failed | JobStatus::Skipped)
    }
}

/// The wire name of a step status.
pub open spec fn step_status_text(s: StepStatus) -> Seq<char> {
    match s {
        StepStatus::Pending => "pending"@,
        StepStatus::Running => "running"@,
        StepStatus::Passed => "passed"@,
        StepStatus::Failed => "failed"@,
        StepStatus::Skipped => "skipped"@,
        StepStatus::AwaitingApproval => "awaiting_approval"@,
    }
}

/// The name of a step status as `Debug` prints it (its variant's name).
pub open spec fn step_status_variant(s: StepStatus) -> Seq<char> {
    match s {
        StepStatus::Pending => "Pending"@,
        StepStatus::Running => "Running"@,
        StepStatus::Passed => "Passed"@,
        StepStatus::Failed => "Failed"@,
        StepStatus::Skipped => "Skipped"@,
        StepStatus::AwaitingApproval => "AwaitingApproval"@,
    }
}

/// The name of a step status as `Debug` prints it.
pub fn step_status_variant_name(s: StepStatus) -> (r: &'static str)
    ensures
        r@ == step_status_variant(s),
{
    match s {
        StepStatus::Pending => "Pending",
        StepStatus::Running => "Running",
        StepStatus::Passed => "Passed",
        StepStatus::Failed => "Failed",
        StepStatus::Skipped => "Skipped",
        StepStatus::AwaitingApproval => "AwaitingApproval",
    }
}

/// The wire name of a job status.
pub open spec fn job_status_text(s: JobStatus) -> Seq<char> {
    match s {
        JobStatus::Pending => "pending"@,
        JobStatus::Running => "running"@,
        JobStatus::Passed => "passed"@,
        JobStatus::Failed => "failed"@,
        JobStatus::Skipped => "skipped"@,
        JobStatus::AwaitingApproval => "awaiting_approval"@,
    }
}

/// Converts a step status to its wire name.
pub fn step_status_to_string(s: StepStatus) -> (r: &'static str)
    ensures
        r@ == step_status_text(s),
{
    match s {
        StepStatus::Pending => "pending",
        StepStatus::Running => "running",
        StepStatus::Passed => "passed",
        StepStatus::Failed => "failed",
        StepStatus::Skipped => "skipped",
        StepStatus::AwaitingApproval => "awaiting_approval",
    }
}

/// Converts a job status to its wire name.
pub fn job_status_to_string(s: JobStatus) -> (r: &'static str)
    ensures
        r@ == job_status_text(s),
{
    match s {
        JobStatus::Pending => "pending",
        JobStatus::Running => "running",
        JobStatus::Passed => "passed",
        JobStatus::Failed => "failed",
        JobStatus::Skipped => "skipped",
        JobStatus::AwaitingApproval => "awaiting_approval",
    }
}

// =============================================================================
// Step definitions and results
// =============================================================================

/// Definition of a pipeline step (within a job).
#[derive(Debug, Clone)]
pub struct StepDefinition {
    /// Step display name.
    pub name: String,
    /// Shell command to execute. Optional when `uses` is provided.
    pub run: Option<String>,
    /// Reference to a reusable action (e.g., "owner/repo/path@version").
    pub uses: Option<String>,
    /// Shell to use (sh, bash, zsh). When omitted, the user's login shell.
    pub shell: Option<String>,
    /// Environment variables for this step.
    pub env: BTreeMap<String, String>,
    /// Continue the pipeline if this step fails.
    pub continue_on_error: bool,
    /// Pause for user approval after this step completes.
    pub require_approval: ApprovalMode,
    /// Maximum execution time for this step in seconds.
    pub timeout: Option<u64>,
    /// Auto-apply pending patches after this step passes.
    pub apply_patch: bool,
}

impl StepDefinition {
    /// Returns the effective run command for this step, if any.
    pub fn effective_run(&self) -> (r: Option<&str>)
        ensures
            r matches Some(c) ==> self.run matches Some(s) && c@ == s@,
            r is None <==> self.run is None,
    {
        match &self.run {
            Some(s) => Some(s.as_str()),
            None => None,
        }
    }

    /// Returns true if this step uses a reusable action reference.
    pub fn is_reusable(&self) -> (r: bool)
        ensures
            r == self.uses is Some,
    {
        self.uses.is_some()
    }
}

/// Result of a single step execution.
#[derive(Debug, Clone)]
pub struct StepResult {
    /// Unique identifier for this step result.
    pub id: String,
    /// ID of the run this step belongs to.
    pub run_id: String,
    /// ID of the job this step belongs to.
    pub job_id: String,
    /// Step name (matches `StepDefinition::name`).
    pub name: String,
    /// Current status of the step.
    pub status: StepStatus,
    /// Order of this step within the job (0-indexed).
    pub step_order: i32,
    /// Exit code of the step command (if completed).
    pub exit_code: Option<i32>,
    /// Duration of the step execution in milliseconds.
    pub duration_ms: Option<i64>,
    /// Error message if the step failed.
    pub error: Option<String>,
    /// Timestamp when the step started (Unix epoch seconds).
    pub started_at: Option<i64>,
    /// Timestamp when the step completed (Unix epoch seconds).
    pub completed_at: Option<i64>,
}

/// Result of a job execution.
#[derive(Debug, Clone)]
pub struct JobResult {
    /// Unique identifier for this job result.
    pub id: String,
    /// ID of the run this job belongs to.
    pub run_id: String,
    /// Key from the jobs map (e.g., "lint", "verify").
    pub job_key: String,
    /// Display name for the job.
    pub name: Option<String>,
    /// Current status of the job.
    pub status: JobStatus,
    /// Topological order for display.
    pub job_order: i32,
    /// Timestamp when the job started (Unix epoch seconds).
    pub started_at: Option<i64>,
    /// Timestamp when the job completed (Unix epoch seconds).
    pub completed_at: Option<i64>,
    /// Error message if the job failed.
    pub error: Option<String>,
    /// Path to the worktree used by this job.
    pub worktree_path: Option<String>,
}

/// A repository enrolled in Airlock.
#[derive(Debug, Clone)]
pub struct Repo {
    /// Unique identifier for the repo.
    pub id: String,
    /// Path to the working repository.
    pub working_path: String,
    /// Original upstream URL (e.g., git@github.com:user/repo.git).
    pub upstream_url: String,
    /// Path to the local bare repo gate.
    pub gate_path: String,
    /// Timestamp of last sync with upstream (Unix epoch seconds).
    pub last_sync: Option<i64>,
    /// Timestamp when the repo was enrolled (Unix epoch seconds).
    pub created_at: i64,
}

/// A ref update received from a push.
#[derive(Debug, Clone)]
pub struct RefUpdate {
    /// The ref name (e.g., refs/heads/main).
    pub ref_name: String,
    /// The old commit SHA (all zeros for new refs).
    pub old_sha: String,
    /// The new commit SHA.
    pub new_sha: String,
}

/// A pipeline run triggered by a push.
#[derive(Debug, Clone)]
pub struct Run {
    /// Unique identifier for the run.
    pub id: String,
    /// ID of the repository this run belongs to.
    pub repo_id: String,
    /// Ref updates that triggered this run.
    pub ref_updates: Vec<RefUpdate>,
    /// Branch being pushed.
    pub branch: String,
    /// Base commit SHA (before push).
    pub base_sha: String,
    /// Head commit SHA (after push).
    pub head_sha: String,
    /// Name of the currently executing step (for display purposes).
    pub current_step: Option<String>,
    /// Error message if the run failed (pipeline-level errors).
    pub error: Option<String>,
    /// Whether this run was superseded by a newer push to the same branch.
    pub superseded: bool,
    /// Workflow file that triggered this run (e.g., "main.yml").
    pub workflow_file: String,
    /// Display name from the workflow's `name:` field.
    pub workflow_name: Option<String>,
    /// Timestamp when the run started (Unix epoch seconds).
    pub created_at: i64,
    /// Timestamp when the run was last updated (Unix epoch seconds).
    pub updated_at: i64,
}

// =============================================================================
// Derived run status
// =============================================================================

/// The status of a run, derived from its step or job results.
#[derive(Debug, Clone, Copy, PartialEq, Eq, Structural)]
pub enum RunState {
    Superseded,
    Failed,
    Pending,
    Running,
    AwaitingApproval,
    Completed,
}

/// The wire name of a derived run status.
pub open spec fn run_state_text(s: RunState) -> Seq<char> {
    match s {
        RunState::Superseded => "superseded"@,
        RunState::Failed => "failed"@,
        RunState::Pending => "pending"@,
        RunState::Running => "running"@,
        RunState::AwaitingApproval => "awaiting_approval"@,
        RunState::Completed => "completed"@,
    }
}

/// Converts a derived run status to its wire name.
pub fn run_state_str(s: RunState) -> (r: &'static str)
    ensures
        r@ == run_state_text(s),
{
    match s {
        RunState::Superseded => "superseded",
        RunState::Failed => "failed",
        RunState::Pending => "pending",
        RunState::Running => "running",
        RunState::AwaitingApproval => "awaiting_approval",
        RunState::Completed => "completed",
    }
}

/// Some step has a status in the class `p`.
pub open spec fn any_step(steps: Seq<StepResult>, p: spec_fn(StepStatus) -> bool) -> bool {
    exists|i: int| 0 <= i < steps.len() && p(#[trigger] steps[i].status)
}

/// Every step has a status in the class `p`.
pub open spec fn all_steps(steps: Seq<StepResult>, p: spec_fn(StepStatus) -> bool) -> bool {
    forall|i: int| 0 <= i < steps.len() ==> p(#[trigger] steps[i].status)
}

/// Some job has a status in the class `p`.
pub open spec fn any_job(jobs: Seq<JobResult>, p: spec_fn(JobStatus) -> bool) -> bool {
    exists|i: int| 0 <= i < jobs.len() && p(#[trigger] jobs[i].status)
}

/// Every job has a status in the class `p`.
pub open spec fn all_jobs(jobs: Seq<JobResult>, p: spec_fn(JobStatus) -> bool) -> bool {
    forall|i: int| 0 <= i < jobs.len() ==> p(#[trigger] jobs[i].status)
}

/// Step statuses that keep a run active.
pub open spec fn step_active(s: StepStatus) -> bool {
    s == StepStatus::Pending || s == StepStatus::Running || s == StepStatus::AwaitingApproval
}

/// Step statuses that count as success.
pub open spec fn step_ok(s: StepStatus) -> bool {
    s == StepStatus::Passed || s == StepStatus::Skipped
}

/// Job statuses that keep a run active.
pub open spec fn job_active(s: JobStatus) -> bool {
    s == JobStatus::Pending || s == JobStatus::Running || s == JobStatus::AwaitingApproval
}

/// Job statuses that count as success.
pub open spec fn job_ok(s: JobStatus) -> bool {
    s == JobStatus::Passed || s == JobStatus::Skipped
}

/// Status of a run derived from step results.
pub open spec fn derived_from_steps(run: Run, steps: Seq<StepResult>) -> RunState {
    if run.superseded {
        RunState::Superseded
    } else if steps.len() == 0 {
        RunState::Pending
    } else if any_step(steps, |s: StepStatus| s == StepStatus::AwaitingApproval) {
        RunState::AwaitingApproval
    } else if any_step(steps, |s: StepStatus| s == StepStatus::Failed) {
        RunState::Failed
    } else if all_steps(steps, |s: StepStatus| step_ok(s)) {
        RunState::Completed
    } else if any_step(steps, |s: StepStatus| step_active(s)) {
        RunState::Running
    } else {
        RunState::Pending
    }
}

/// Status of a run derived from job results.
pub open spec fn derived_from_jobs(run: Run, jobs: Seq<JobResult>) -> RunState {
    if run.superseded {
        RunState::Superseded
    } else if run.error is Some {
        RunState::Failed
    } else if jobs.len() == 0 {
        RunState::Pending
    } else if any_job(jobs, |s: JobStatus| s == JobStatus::Running) {
        RunState::Running
    } else if any_job(jobs, |s: JobStatus| s == JobStatus::AwaitingApproval) {
        RunState::AwaitingApproval
    } else if any_job(jobs, |s: JobStatus| s == JobStatus::Failed) {
        RunState::Failed
    } else if all_jobs(jobs, |s: JobStatus| job_ok(s)) {
        RunState::Completed
    } else if any_job(jobs, |s: JobStatus| job_active(s)) {
        RunState::Running
    } else {
        RunState::Pending
    }
}

/// A run that carries an error (for instance "Stopped by user") and was
/// not superseded is failed, whatever state its jobs are in.
pub proof fn law_run_error_means_failed(run: Run, jobs: Seq<JobResult>)
    requires
        !run.superseded,
        run.error is Some,
    ensures
        derived_from_jobs(run, jobs) == RunState::Failed,
{
}

/// Whether some step status matches `target`.
fn steps_have(steps: &[StepResult], target: StepStatus) -> (r: bool)
    ensures
        r == any_step(steps@, |s: StepStatus| s == target),
{
    let mut i: usize = 0;
    while i < steps.len()
        invariant
            i <= steps@.len(),
            forall|j: int| 0 <= j < i ==> steps@[j].status != target,
        decreases steps.len() - i,
    {
        if steps[i].status == target {
            assert(steps@[i as int].status == target);
            return true;
        }
        i = i + 1;
    }
    false
}

/// Whether some job status matches `target`.
fn jobs_have(jobs: &[JobResult], target: JobStatus) -> (r: bool)
    ensures
        r == any_job(jobs@, |s: JobStatus| s == target),
{
    let mut i: usize = 0;
    while i < jobs.len()
        invariant
            i <= jobs@.len(),
            forall|j: int| 0 <= j < i ==> jobs@[j].status != target,
        decreases jobs.len() - i,
    {
        if jobs[i].status == target {
            assert(jobs@[i as int].status == target);
            return true;
        }
        i = i + 1;
    }
    false
}

impl Run {
    /// Returns true if this run was superseded by a newer push to the same branch.
    pub fn is_superseded(&self) -> (r: bool)
        ensures
            r == self.superseded,
    {
        self.superseded
    }

    /// Returns true if any step is `Pending`, `Running`, or `AwaitingApproval`.
    pub fn is_running(&self, steps: &[StepResult]) -> (r: bool)
        ensures
            r == any_step(steps@, |s: StepStatus| step_active(s)),
    {
        let mut i: usize = 0;
        while i < steps.len()
            invariant
                i <= steps@.len(),
                forall|j: int| 0 <= j < i ==> !step_active(#[trigger] steps@[j].status),
            decreases steps.len() - i,
        {
            if matches!(
                steps[i].status,
                StepStatus::Pending | StepStatus::Running | StepStatus::AwaitingApproval
            ) {
                assert(step_active(steps@[i as int].status));
                return true;
            }
            i = i + 1;
        }
        false
    }

    /// Returns true if there are steps and all have a final status.
    pub fn is_completed(&self, steps: &[StepResult]) -> (r: bool)
        ensures
            r == (steps@.len() > 0 && all_steps(steps@, |s: StepStatus| step_final(s))),
    {
        if steps.len() == 0 {
            return false;
        }
        let mut i: usize = 0;
        while i < steps.len()
            invariant
                i <= steps@.len(),
                forall|j: int| 0 <= j < i ==> step_final(#[trigger] steps@[j].status),
            decreases steps.len() - i,
        {
            if !steps[i].status.is_final() {
                return false;
            }
            i = i + 1;
        }
        true
    }

    /// Returns true if any step is `Failed`.
    pub fn is_failed(&self, steps: &[StepResult]) -> (r: bool)
        ensures
            r == any_step(steps@, |s: StepStatus| s == StepStatus::Failed),
    {
        steps_have(steps, StepStatus::Failed)
    }

    /// Returns true if there are steps and all are `Passed` or `Skipped`.
    pub fn is_successful(&self, steps: &[StepResult]) -> (r: bool)
        ensures
            r == (steps@.len() > 0 && all_steps(steps@, |s: StepStatus| step_ok(s))),
    {
        if steps.len() == 0 {
            return false;
        }
        let mut i: usize = 0;
        while i < steps.len()
            invariant
                i <= steps@.len(),
                forall|j: int| 0 <= j < i ==> step_ok(#[trigger] steps@[j].status),
            decreases steps.len() - i,
        {
            if !matches!(steps[i].status, StepStatus::Passed | StepStatus::Skipped) {
                return false;
            }
            i = i + 1;
        }
        true
    }

    /// Returns true if any step is awaiting user approval.
    pub fn is_awaiting_approval(&self, steps: &[StepResult]) -> (r: bool)
        ensures
            r == any_step(steps@, |s: StepStatus| s == StepStatus::AwaitingApproval),
    {
        steps_have(steps, StepStatus::AwaitingApproval)
    }

    /// The derived status from step results: "superseded", "pending",
    /// "awaiting_approval", "failed", "completed" or "running".
    pub fn derived_status(&self, steps: &[StepResult]) -> (r: &'static str)
        ensures
            r@ == run_state_text(derived_from_steps(*self, steps@)),
    {
        run_state_str(self.derived_state(steps))
    }

    /// The derived status from step results, as a value.
    pub fn derived_state(&self, steps: &[StepResult]) -> (r: RunState)
        ensures
            r == derived_from_steps(*self, steps@),
    {
        if self.is_superseded() {
            return RunState::Superseded;
        }
        if steps.len() == 0 {
            return RunState::Pending;
        }
        if self.is_awaiting_approval(steps) {
            RunState::AwaitingApproval
        } else if self.is_failed(steps) {
            RunState::Failed
        } else if self.is_successful(steps) {
            RunState::Completed
        } else if self.is_running(steps) {
            RunState::Running
        } else {
            RunState::Pending
        }
    }

    /// Returns true if any job is `Pending`, `Running`, or `AwaitingApproval`.
    pub fn is_running_from_jobs(&self, jobs: &[JobResult]) -> (r: bool)
        ensures
            r == any_job(jobs@, |s: JobStatus| job_active(s)),
    {
        let mut i: usize = 0;
        while i < jobs.len()
            invariant
                i <= jobs@.len(),
                forall|j: int| 0 <= j < i ==> !job_active(#[trigger] jobs@[j].status),
            decreases jobs.len() - i,
        {
            if matches!(
                jobs[i].status,
                JobStatus::Pending | JobStatus::Running | JobStatus::AwaitingApproval
            ) {
                assert(job_active(jobs@[i as int].status));
                return true;
            }
            i = i + 1;
        }
        false
    }

    /// Returns true if there are jobs and all have a final status.
    pub fn is_completed_from_jobs(&self, jobs: &[JobResult]) -> (r: bool)
        ensures
            r == (jobs@.len() > 0 && all_jobs(jobs@, |s: JobStatus| job_final(s))),
    {
        if jobs.len() == 0 {
            return false;
        }
        let mut i: usize = 0;
        while i < jobs.len()
            invariant
                i <= jobs@.len(),
                forall|j: int| 0 <= j < i ==> job_final(#[trigger] jobs@[j].status),
            decreases jobs.len() - i,
        {
            if !jobs[i].status.is_final() {
                return false;
            }
            i = i + 1;
        }
        true
    }

    /// Returns true if any job has failed.
    pub fn is_failed_from_jobs(&self, jobs: &[JobResult]) -> (r: bool)
        ensures
            r == any_job(jobs@, |s: JobStatus| s == JobStatus::Failed),
    {
        jobs_have(jobs, JobStatus::Failed)
    }

    /// Returns true if there are jobs and all passed or were skipped.
    pub fn is_successful_from_jobs(&self, jobs: &[JobResult]) -> (r: bool)
        ensures
            r == (jobs@.len() > 0 && all_jobs(jobs@, |s: JobStatus| job_ok(s))),
    {
        if jobs.len() == 0 {
            return false;
        }
        let mut i: usize = 0;
        while i < jobs.len()
            invariant
                i <= jobs@.len(),
                forall|j: int| 0 <= j < i ==> job_ok(#[trigger] jobs@[j].status),
            decreases jobs.len() - i,
        {
            if !matches!(jobs[i].status, JobStatus::Passed | JobStatus::Skipped) {
                return false;
            }
            i = i + 1;
        }
        true
    }

    /// Returns true if any job is awaiting approval.
    pub fn is_awaiting_approval_from_jobs(&self, jobs: &[JobResult]) -> (r: bool)
        ensures
            r == any_job(jobs@, |s: JobStatus| s == JobStatus::AwaitingApproval),
    {
        jobs_have(jobs, JobStatus::AwaitingApproval)
    }

    /// The derived status from job results: "superseded", "failed",
    /// "pending", "running", "awaiting_approval" or "completed".
    pub fn derived_status_from_jobs(&self, jobs: &[JobResult]) -> (r: &'static str)
        ensures
            r@ == run_state_text(derived_from_jobs(*self, jobs@)),
    {
        run_state_str(self.derived_state_from_jobs(jobs))
    }

    /// The derived status from job results, as a value.
    pub fn derived_state_from_jobs(&self, jobs: &[JobResult]) -> (r: RunState)
        ensures
            r == derived_from_jobs(*self, jobs@),
    {
        if self.is_superseded() {
            return RunState::Superseded;
        }
        if self.error.is_some() {
            return RunState::Failed;
        }
        if jobs.len() == 0 {
            return RunState::Pending;
        }
        if jobs_have(jobs, JobStatus::Running) {
            return RunState::Running;
        }
        if self.is_awaiting_approval_from_jobs(jobs) {
            return RunState::AwaitingApproval;
        }
        if self.is_failed_from_jobs(jobs) {
            return RunState::Failed;
        }
        if self.is_successful_from_jobs(jobs) {
            return RunState::Completed;
        }
        if self.is_running_from_jobs(jobs) {
            return RunState::Running;
        }
        RunState::Pending
    }
}

// =============================================================================
// Laws of the derived status
// =============================================================================

/// A superseded run reports "superseded" whatever its steps or jobs are.
pub proof fn law_superseded_overrides(run: Run, steps: Seq<StepResult>, jobs: Seq<JobResult>)
    requires
        run.superseded,
    ensures
        derived_from_steps(run, steps) == RunState::Superseded,
        derived_from_jobs(run, jobs) == RunState::Superseded,
{
}

/// A run whose jobs are all final is not running, and a successful one is
/// completed.
pub proof fn law_completed_jobs_not_running(jobs: Seq<JobResult>)
    requires
        jobs.len() > 0,
        all_jobs(jobs, |s: JobStatus| job_final(s)),
    ensures
        !any_job(jobs, |s: JobStatus| job_active(s)),
{
    assert forall|i: int| 0 <= i < jobs.len() implies !job_active(#[trigger] jobs[i].status) by {
        assert(job_final(jobs[i].status));
    }
}

/// Success implies completion: all passed or skipped means all final.
pub proof fn law_successful_jobs_completed(jobs: Seq<JobResult>)
    requires
        all_jobs(jobs, |s: JobStatus| job_ok(s)),
    ensures
        all_jobs(jobs, |s: JobStatus| job_final(s)),
{
    assert forall|i: int| 0 <= i < jobs.len() implies job_final(#[trigger] jobs[i].status) by {
        assert(job_ok(jobs[i].status));
    }
}

/// A run that is neither superseded nor in error, with at least one job
/// running, reports "running" even when others await approval.
pub proof fn law_running_job_overrides_awaiting(run: Run, jobs: Seq<JobResult>, i: int)
    requires
        !run.superseded,
        run.error is None,
        0 <= i < jobs.len(),
        jobs[i].status == JobStatus::Running,
    ensures
        derived_from_jobs(run, jobs) == RunState::Running,
{
    assert(any_job(jobs, |s: JobStatus| s == JobStatus::Running));
}

/// A pending job (with no job running, awaiting or failed) keeps the run
/// "running".
pub proof fn law_pending_job_keeps_run_running(run: Run, jobs: Seq<JobResult>, i: int)
    requires
        !run.superseded,
        run.error is None,
        0 <= i < jobs.len(),
        jobs[i].status == JobStatus::Pending,
        !any_job(jobs, |s: JobStatus| s == JobStatus::AwaitingApproval),
        !any_job(jobs, |s: JobStatus| s == JobStatus::Failed),
    ensures
        derived_from_jobs(run, jobs) == RunState::Running,
{
    assert(!job_ok(jobs[i].status));
    assert(job_active(jobs[i].status));
    assert(any_job(jobs, |s: JobStatus| job_active(s)));
}

// =============================================================================
// Legacy intent types
// =============================================================================

/// Category of an intent.
#[derive(Debug, Clone, Copy, PartialEq, Eq, Structural)]
pub enum IntentCategory {
    Feature,
    Fix,
    Refactor,
    Docs,
    Schema,
    Chore,
    Test,
    Unknown,
}

impl Default for IntentCategory {
    fn default() -> (r: Self)
        ensures
            r == IntentCategory::Unknown,
    {
        IntentCategory::Unknown
    }
}

/// Status of an individual intent in the pipeline.
#[derive(Debug, Clone, Copy, PartialEq, Eq, Structural)]
pub enum IntentStatus {
    Pending,
    Processing,
    ReadyForReview,
    Approved,
    Rejected,
    Forwarded,
    Failed,
}

impl Default for IntentStatus {
    fn default() -> (r: Self)
        ensures
            r == IntentStatus::Pending,
    {
        IntentStatus::Pending
    }
}

/// A logical unit of change within a run.
#[derive(Debug, Clone)]
pub struct Intent {
    pub id: String,
    pub run_id: String,
    pub title: String,
    pub category: IntentCategory,
    pub files: Vec<String>,
    pub description: Option<String>,
    pub depends_on: Vec<String>,
    pub order: i32,
    pub status: IntentStatus,
    pub hunk_ids: Vec<String>,
    pub branch_name: Option<String>,
    pub pr_url: Option<String>,
    pub pr_number: Option<u32>,
    pub error: Option<String>,
}

/// Dependency graph for hunks: hunk id to the hunk ids it depends on, and
/// the connected components.
#[derive(Debug, Clone)]
pub struct DependencyGraph {
    pub dependencies: HashMap<String, Vec<String>>,
    pub components: Vec<Vec<String>>,
}

/// A hunk with full context for intent splitting.
#[derive(Debug, Clone)]
pub struct SplitHunk {
    /// Unique identifier for this hunk (format: "file_path:hunk_index").
    pub id: String,
    /// Path to the file this hunk belongs to.
    pub file_path: String,
    /// Index of this hunk within the file (0-based).
    pub hunk_index: u32,
    /// Starting line number in the old version.
    pub old_start: u32,
    /// Number of lines in the old version.
    pub old_lines: u32,
    /// Starting line number in the new version.
    pub new_start: u32,
    /// Number of lines in the new version.
    pub new_lines: u32,
    /// Lines added in this hunk.
    pub additions: u32,
    /// Lines deleted in this hunk.
    pub deletions: u32,
    /// The actual diff content of this hunk (unified diff format).
    pub content: String,
    /// Detected programming language for the file.
    pub language: Option<String>,
}

/// Result of intent splitting analysis.
#[derive(Debug, Clone)]
pub struct SplitAnalysis {
    pub run_id: String,
    pub intents: Vec<SplitIntent>,
    pub total_hunks: u32,
    pub analyzed_at: i64,
}

/// An intent generated from the split analysis.
#[derive(Debug, Clone)]
pub struct SplitIntent {
    pub id: String,
    pub title: String,
    pub category: IntentCategory,
    pub description: Option<String>,
    pub hunk_ids: Vec<String>,
    pub files: Vec<String>,
    pub depends_on: Vec<String>,
    pub order: i32,
}

/// Analysis of a single ref update.
#[derive(Debug, Clone)]
pub struct RefAnalysis {
    pub ref_name: String,
    pub old_sha: String,
    pub new_sha: String,
    pub is_new_ref: bool,
    pub is_deletion: bool,
    pub files: Vec<FileChange>,
    pub total_additions: u32,
    pub total_deletions: u32,
    pub languages: Vec<String>,
    pub suggested_category: IntentCategory,
}

/// Complete diff analysis for a run.
#[derive(Debug, Clone)]
pub struct DiffAnalysis {
    pub run_id: String,
    pub refs: Vec<RefAnalysis>,
    pub languages: Vec<String>,
    pub files: Vec<String>,
    pub total_additions: u32,
    pub total_deletions: u32,
    pub analyzed_at: i64,
}

/// A guided tour for an intent.
#[derive(Debug, Clone)]
pub struct GuidedTour {
    pub intent_id: String,
    pub title: String,
    pub overview: String,
    pub steps: Vec<TourStep>,
    pub estimated_minutes: u32,
    pub generated_at: i64,
}

/// A single step in a guided tour.
#[derive(Debug, Clone)]
pub struct TourStep {
    pub step_number: u32,
    pub title: String,
    pub explanation: String,
    pub file: String,
    pub start_line: u32,
    pub end_line: u32,
    pub code_snippet: String,
    pub annotations: Vec<LineAnnotation>,
    pub deep_dive: Option<String>,
}

/// An annotation attached to a specific line in a tour step.
#[derive(Debug, Clone)]
pub struct LineAnnotation {
    pub line_offset: u32,
    pub text: String,
    /// "info", "warning" or "important".
    pub annotation_type: String,
}

/// The annotation type used when none is given: "info".
pub fn default_annotation_type() -> (r: String)
    ensures
        r@ == "info"@,
{
    String::from_str("info")
}

/// Result of the tour generation stage for all intents.
#[derive(Debug, Clone)]
pub struct TourResult {
    pub run_id: String,
    pub tours: Vec<GuidedTour>,
    pub generated_at: i64,
}

// =============================================================================
// Sync, diff and clean-stage records
// =============================================================================

/// A record of an upstream sync operation.
#[derive(Debug, Clone)]
pub struct SyncLog {
    pub id: String,
    pub repo_id: String,
    pub success: bool,
    pub error: Option<String>,
    pub synced_at: i64,
}

/// Status of a file in the diff.
#[derive(Debug, Clone, Copy, PartialEq, Eq, Structural)]
pub enum FileStatus {
    Added,
    Deleted,
    Modified,
    Renamed,
    Copied,
}

/// A hunk in a diff showing a contiguous block of changes.
#[derive(Debug, Clone)]
pub struct DiffHunk {
    pub old_start: u32,
    pub old_lines: u32,
    pub new_start: u32,
    pub new_lines: u32,
    pub additions: u32,
    pub deletions: u32,
    pub content: Option<String>,
}

/// Information about a changed file in the diff.
#[derive(Debug, Clone)]
pub struct FileChange {
    pub path: String,
    pub old_path: Option<String>,
    pub status: FileStatus,
    pub language: Option<String>,
    pub additions: u32,
    pub deletions: u32,
    pub hunks: Vec<DiffHunk>,
}

/// Result of the clean stage.
#[derive(Debug, Clone)]
pub struct CleanResult {
    pub run_id: String,
    pub lint: Option<LintResult>,
    pub format: Option<FormatResult>,
    pub secrets: SecretsResult,
    pub success: bool,
    pub cleaned_at: i64,
}

/// Result of running the linter.
#[derive(Debug, Clone)]
pub struct LintResult {
    pub command: String,
    pub passed: bool,
    pub auto_fixed: bool,
    pub error_count: u32,
    pub warning_count: u32,
    pub issues: Vec<LintIssue>,
    pub exit_code: i32,
    pub raw_output: String,
}

/// A single lint issue.
#[derive(Debug, Clone)]
pub struct LintIssue {
    pub file: String,
    pub line: Option<u32>,
    pub column: Option<u32>,
    pub severity: String,
    pub rule: Option<String>,
    pub message: String,
}

/// Result of running the formatter.
#[derive(Debug, Clone)]
pub struct FormatResult {
    pub command: String,
    pub formatted: bool,
    pub files_changed: Vec<String>,
    pub exit_code: i32,
    pub raw_output: String,
}

/// Result of scanning for secrets.
#[derive(Debug, Clone)]
pub struct SecretsResult {
    pub found_secrets: bool,
    pub findings: Vec<SecretFinding>,
}

/// A potential secret found in the diff.
#[derive(Debug, Clone)]
pub struct SecretFinding {
    pub file: String,
    pub line: u32,
    pub secret_type: String,
    pub matched: String,
    pub confidence: String,
}

} // verus!
