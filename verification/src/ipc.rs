//! The daemon's request, result and event records, its error codes, and the
//! routing of requests to handlers. Serialisation lives with the callers.

use vstd::prelude::*;

verus! {

// =============================================================================
// Runs, jobs, steps and artifacts
// =============================================================================

/// Basic run information.
#[derive(Debug, Clone)]
pub struct RunInfo {
    pub id: String,

    pub repo_id: Option<String>,

    /// Human-readable `owner/repo` name of the run's repository.
    pub repo_name: Option<String>,

    /// Derived from job/step results.
    pub status: String,

    pub branch: Option<String>,

    pub base_sha: Option<String>,

    pub head_sha: Option<String>,

    /// Currently executing step name (for running pipelines).
    pub current_step: Option<String>,

    pub created_at: i64,

    pub updated_at: Option<i64>,

    pub completed_at: Option<i64>,

    pub error: Option<String>,
}

/// Information about a job execution result.
#[derive(Debug, Clone)]
pub struct JobResultInfo {
    pub id: String,

    /// Job key from workflow YAML (e.g., "lint", "test", "deploy").
    pub job_key: String,

    pub name: Option<String>,

    pub status: String,

    /// Topological order for display.
    pub job_order: i32,

    /// Unix timestamp.
    pub started_at: Option<i64>,

    /// Unix timestamp.
    pub completed_at: Option<i64>,

    pub error: Option<String>,
}

/// Information about a pipeline step execution.
#[derive(Debug, Clone)]
pub struct StepResultInfo {
    pub id: String,

    pub job_id: String,

    /// For convenience; duplicates the parent job's key.
    pub job_key: String,

    /// Step name (e.g., "lint", "test", "push", "create-pr").
    pub step: String,

    pub status: String,

    pub exit_code: Option<i32>,

    /// Duration in milliseconds.
    pub duration_ms: Option<u64>,

    pub error: Option<String>,

    /// Unix timestamp.
    pub started_at: Option<i64>,

    /// Unix timestamp.
    pub completed_at: Option<i64>,
}

/// Information about a generated artifact.
#[derive(Debug, Clone)]
pub struct ArtifactInfo {
    pub name: String,

    /// Full path to the artifact file.
    pub path: String,

    /// Type of artifact (e.g., "json", "patch", "text").
    pub artifact_type: String,

    pub size_bytes: u64,

    /// Unix timestamp seconds (from file mtime).
    pub created_at: i64,
}

/// Result for the `approve_step` method.
#[derive(Debug, Clone)]
pub struct ApproveStepResult {
    pub run_id: String,
    pub job_key: String,
    pub step_name: String,
    pub success: bool,

    /// Should be "passed" after successful approval.
    pub new_step_status: String,

    /// Whether the pipeline resumed and completed.
    pub pipeline_completed: bool,

    /// Set if the pipeline is paused at another step awaiting approval.
    pub paused_at_step: Option<String>,
}

/// Result for the `apply_patches` method.
#[derive(Debug, Clone)]
pub struct ApplyPatchesResult {
    pub run_id: String,
    pub success: bool,
    pub applied_count: u32,

    /// New HEAD SHA after committing applied patches.
    pub new_head_sha: Option<String>,

    pub error: Option<String>,

    /// Per-patch errors (patches that failed to apply).
    pub patch_errors: Vec<PatchError>,
}

/// Error for a specific patch that failed to apply.
#[derive(Debug, Clone)]
pub struct PatchError {
    pub path: String,
    pub error: String,
}

/// Result for the `get_config` method.
#[derive(Debug, Clone)]
pub struct GetConfigResult {
    pub global: GlobalConfigInfo,

    /// Present if `repo_id` was provided and the repo exists.
    pub repo: Option<RepoConfigInfo>,
}

/// Result for the `update_config` method.
#[derive(Debug, Clone)]
pub struct UpdateConfigResult {
    pub success: bool,
    pub global_updated: bool,
    pub repo_updated: bool,

    pub global_config_path: Option<String>,

    pub repo_config_path: Option<String>,
}

/// Global configuration information.
#[derive(Debug, Clone)]
pub struct GlobalConfigInfo {
    pub config_exists: bool,
    pub config_path: String,
    pub sync: SyncConfigInfo,
    pub storage: StorageConfigInfo,
    pub agent: AgentConfigInfo,
}

/// Sync configuration information.
#[derive(Debug, Clone)]
pub struct SyncConfigInfo {
    /// Whether to sync on fetch operations.
    pub on_fetch: bool,
}

/// Storage configuration information.
#[derive(Debug, Clone)]
pub struct StorageConfigInfo {
    /// Maximum age of artifacts in days.
    pub max_artifact_age_days: u32,
}

/// Agent configuration information.
#[derive(Debug, Clone)]
pub struct AgentConfigInfo {
    /// Which adapter is configured (an adapter name, or "auto").
    pub adapter: String,
    pub model: Option<String>,
    pub max_turns: Option<u32>,
}

/// Repository-specific configuration information.
#[derive(Debug, Clone)]
pub struct RepoConfigInfo {
    pub repo_id: String,
    pub working_path: String,

    /// Whether `.airlock/workflows/` directory exists in the repo.
    pub config_exists: bool,

    /// Path to the workflows directory.
    pub config_path: String,

    /// Workflow files found in `.airlock/workflows/`.
    pub workflows: Vec<WorkflowFileInfo>,
}

/// Information about a workflow file.
#[derive(Debug, Clone)]
pub struct WorkflowFileInfo {
    /// Filename (e.g., "main.yml").
    pub filename: String,

    /// Display name from the workflow's `name:` field.
    pub name: Option<String>,
}

/// Updates to apply to global configuration.
#[derive(Debug, Clone, Default)]
pub struct GlobalConfigUpdate {
    pub sync: Option<SyncConfigUpdate>,

    pub storage: Option<StorageConfigUpdate>,
}

/// Updates to apply to sync configuration.
#[derive(Debug, Clone, Default)]
pub struct SyncConfigUpdate {
    pub on_fetch: Option<bool>,
}

/// Updates to apply to storage configuration.
#[derive(Debug, Clone, Default)]
pub struct StorageConfigUpdate {
    pub max_artifact_age_days: Option<u32>,
}

/// Updates to apply to repository configuration.
#[derive(Debug, Clone)]
pub struct RepoConfigUpdate {
    pub repo_id: String,
}

impl GlobalConfigUpdate {
    /// Applies the update to the global settings: each field it gives
    /// replaces the current one; the others are kept.
    pub fn apply(&self, sync: &mut SyncConfigInfo, storage: &mut StorageConfigInfo)
        ensures
            final(sync).on_fetch == match self.sync {
                Some(u) => match u.on_fetch {
                    Some(v) => v,
                    None => old(sync).on_fetch,
                },
                None => old(sync).on_fetch,
            },
            final(storage).max_artifact_age_days == match self.storage {
                Some(u) => match u.max_artifact_age_days {
                    Some(v) => v,
                    None => old(storage).max_artifact_age_days,
                },
                None => old(storage).max_artifact_age_days,
            },
    {
        match &self.sync {
            Some(u) => match u.on_fetch {
                Some(v) => {
                    sync.on_fetch = v;
                },
                None => {},
            },
            None => {},
        }
        match &self.storage {
            Some(u) => match u.max_artifact_age_days {
                Some(v) => {
                    storage.max_artifact_age_days = v;
                },
                None => {},
            },
            None => {},
        }
    }
}

/// Information about a single commit with its diff.
#[derive(Debug, Clone)]
pub struct CommitDiffInfo {
    /// Full commit SHA.
    pub sha: String,
    /// Commit message (subject line).
    pub message: String,
    /// Author name.
    pub author: String,
    /// Author timestamp (Unix epoch seconds).
    pub timestamp: i64,
    /// Unified diff patch for this commit.
    pub patch: String,
    /// Files changed in this commit.
    pub files_changed: Vec<String>,
    /// Number of lines added.
    pub additions: u32,
    /// Number of lines deleted.
    pub deletions: u32,
}

/// Result for the `get_run_diff` method.
#[derive(Debug, Clone)]
pub struct GetRunDiffResult {
    /// Run ID.
    pub run_id: String,

    /// Branch name.
    pub branch: String,

    /// Base commit SHA.
    pub base_sha: String,

    /// Head commit SHA.
    pub head_sha: String,

    /// Full unified diff patch string.
    pub patch: String,

    /// Files changed in this run.
    pub files_changed: Vec<String>,

    /// Number of lines added.
    pub additions: u32,

    /// Number of lines deleted.
    pub deletions: u32,

    /// Per-commit diff information (empty for single-commit pushes).
    pub commits: Vec<CommitDiffInfo>,
}

/// Diff hunk information.
#[derive(Debug, Clone)]
pub struct DiffHunkInfo {
    pub id: String,
    pub file_path: String,
    pub old_start: u32,
    pub old_lines: u32,
    pub new_start: u32,
    pub new_lines: u32,
    pub additions: u32,
    pub deletions: u32,
    pub content: String,
    pub language: Option<String>,
}

/// Intent diff result.
#[derive(Debug, Clone)]
pub struct IntentDiffResult {
    pub intent_id: String,
    pub hunks: Vec<DiffHunkInfo>,
}

/// Intent tour result.
#[derive(Debug, Clone)]
pub struct IntentTourResult {
    pub intent_id: String,
    pub tour: Option<TourInfo>,
}

/// Guided tour information.
#[derive(Debug, Clone)]
pub struct TourInfo {
    pub title: String,
    pub overview: String,
    pub steps: Vec<TourStepInfo>,
    pub estimated_minutes: u32,
}

/// A single step in a guided tour.
#[derive(Debug, Clone)]
pub struct TourStepInfo {
    pub step_number: u32,
    pub title: String,
    pub explanation: String,
    pub file: String,
    pub start_line: u32,
    pub end_line: u32,
    pub code_snippet: String,
    pub annotations: Vec<LineAnnotationInfo>,
    pub deep_dive: Option<String>,
}

/// An annotation attached to a specific line in a tour step.
#[derive(Debug, Clone)]
pub struct LineAnnotationInfo {
    pub line_offset: u32,
    pub text: String,
    pub annotation_type: String,
}

/// Result of approving an intent.
#[derive(Debug, Clone)]
pub struct ApproveIntentResult {
    pub intent_id: String,
    pub success: bool,
    pub new_status: String,
}

/// Result of rejecting an intent.
#[derive(Debug, Clone)]
pub struct RejectIntentResult {
    pub intent_id: String,
    pub success: bool,
    pub new_status: String,
}

/// Events emitted by the daemon for real-time updates.
#[derive(Debug, Clone)]
pub enum AirlockEvent {
    /// A new run was created.
    RunCreated {
        repo_id: String,
        run_id: String,
        branch: String,
    },
    /// A run's status was updated.
    RunUpdated {
        repo_id: String,
        run_id: String,
        status: String,
    },
    /// A job started executing.
    JobStarted {
        repo_id: String,
        run_id: String,
        job_key: String,
    },
    /// A job completed.
    JobCompleted {
        repo_id: String,
        run_id: String,
        job_key: String,
        status: String,
    },
    /// A step started executing.
    StepStarted {
        repo_id: String,
        run_id: String,
        job_key: String,
        step_name: String,
    },
    /// A step completed (passed, failed, or awaiting approval).
    StepCompleted {
        repo_id: String,
        run_id: String,
        job_key: String,
        step_name: String,
        status: String,
    },
    /// A pipeline run completed.
    RunCompleted {
        repo_id: String,
        run_id: String,
        success: bool,
    },
    /// A run was superseded by a newer push to the same refs.
    RunSuperseded {
        repo_id: String,
        run_id: String,
    },
    /// A chunk of log output from a running step.
    LogChunk {
        repo_id: String,
        run_id: String,
        job_key: String,
        step_name: String,
        /// "stdout" or "stderr"
        stream: String,
        /// The log content (may be multiple lines)
        content: String,
    },
}

// =============================================================================
// Request parameter types
// =============================================================================

/// Parameters for the `init` method.
#[derive(Debug, Clone)]
pub struct InitParams {
    pub working_path: String,
}

/// Parameters for the `eject` method.
#[derive(Debug, Clone)]
pub struct EjectParams {
    pub working_path: String,
}

/// Parameters for the `sync` method.
#[derive(Debug, Clone)]
pub struct SyncParams {
    pub repo_id: String,
}

/// Parameters for the `status` method.
#[derive(Debug, Clone)]
pub struct StatusParams {
    pub repo_id: String,
}

/// Parameters for the `get_runs` method.
#[derive(Debug, Clone)]
pub struct GetRunsParams {
    pub repo_id: String,
    pub limit: Option<u32>,
}

/// Parameters for the `get_run_detail` method.
#[derive(Debug, Clone)]
pub struct GetRunDetailParams {
    pub run_id: String,
}

/// Parameters for the `mark_forwarded` method.
#[derive(Debug, Clone)]
pub struct MarkForwardedParams {
    pub run_id: String,
    pub ref_name: String,
    pub sha: String,
}

/// Parameters for the `push_received` notification (from post-receive hook).
#[derive(Debug, Clone)]
pub struct PushReceivedParams {
    pub gate_path: String,
    pub ref_updates: Vec<RefUpdateParam>,
}

/// A single ref update parameter.
#[derive(Debug, Clone)]
pub struct RefUpdateParam {
    pub ref_name: String,
    pub old_sha: String,
    pub new_sha: String,
}

/// Parameters for the `fetch_notification` method (from upload-pack wrapper).
#[derive(Debug, Clone)]
pub struct FetchNotificationParams {
    pub gate_path: String,
}

/// Parameters for the `reprocess_run` method.
#[derive(Debug, Clone)]
pub struct ReprocessRunParams {
    pub run_id: String,
}

// =============================================================================
// Step-based pipeline parameters
// =============================================================================

/// Parameters for the `approve_step` method.
#[derive(Debug, Clone)]
pub struct ApproveStepParams {
    pub run_id: String,
    pub job_key: String,
    /// Must be in AwaitingApproval status.
    pub step_name: String,
}

/// Parameters for the `get_run_diff` method.
#[derive(Debug, Clone)]
pub struct GetRunDiffParams {
    pub run_id: String,
}

/// Parameters for the `apply_patches` method.
#[derive(Debug, Clone)]
pub struct ApplyPatchesParams {
    pub run_id: String,

    /// Required when multiple jobs may be paused concurrently.
    /// Falls back to the first AwaitingApproval job if omitted.
    pub job_key: Option<String>,

    /// Paths to patch artifact JSON files.
    pub patch_paths: Vec<String>,
}

/// Parameters for the `cancel_run` method.
#[derive(Debug, Clone)]
pub struct CancelRunParams {
    pub run_id: String,
}

/// Parameters for the `retry_job` method.
#[derive(Debug, Clone)]
pub struct RetryJobParams {
    pub run_id: String,
    pub job_key: String,
}

/// Parameters for the `get_config` method.
#[derive(Debug, Clone, Default)]
pub struct GetConfigParams {
    /// If omitted, only global configuration is returned.
    pub repo_id: Option<String>,
}

/// Parameters for the `update_config` method.
#[derive(Debug, Clone)]
pub struct UpdateConfigParams {
    pub global: Option<GlobalConfigUpdate>,

    pub repo: Option<RepoConfigUpdate>,
}

// =============================================================================
// Response result types
// =============================================================================

/// Result for the `init` method.
#[derive(Debug, Clone)]
pub struct InitResult {
    pub repo_id: String,
    pub gate_path: String,
}

/// Result for the `eject` method.
#[derive(Debug, Clone)]
pub struct EjectResult {
    /// Original upstream URL that was restored.
    pub upstream_url: String,
}

/// Result for the `sync` method.
#[derive(Debug, Clone)]
pub struct SyncResult {
    pub success: bool,
    pub error: Option<String>,
    pub synced_at: i64,
}

/// Result for the `sync_all` method.
#[derive(Debug, Clone)]
pub struct SyncAllResult {
    pub synced_count: u32,
    pub failed_count: u32,
    pub errors: Vec<SyncError>,
}

/// A sync error for a specific repo.
#[derive(Debug, Clone)]
pub struct SyncError {
    pub repo_id: String,
    pub error: String,
}

/// Result for the `status` method.
#[derive(Debug, Clone)]
pub struct StatusResult {
    pub repo: RepoInfo,
    /// Running or pending approval.
    pub pending_runs: u32,
    pub latest_run: Option<RunInfo>,
    pub last_sync: Option<SyncInfo>,
}

/// Basic repository information.
#[derive(Debug, Clone)]
pub struct RepoInfo {
    pub id: String,
    pub working_path: String,
    pub upstream_url: String,
    pub gate_path: String,
    pub created_at: i64,
}

/// Sync information.
#[derive(Debug, Clone)]
pub struct SyncInfo {
    pub success: bool,
    pub synced_at: i64,
    pub error: Option<String>,
}

/// Result for the `health` method.
#[derive(Debug, Clone)]
pub struct HealthResult {
    pub healthy: bool,
    pub version: String,
    pub repo_count: u32,
    pub database_ok: bool,
    pub socket_path: String,
}

/// Result for the `get_runs` method.
#[derive(Debug, Clone)]
pub struct GetRunsResult {
    pub runs: Vec<RunInfo>,
}

/// Result for the `get_run_detail` method.
#[derive(Debug, Clone)]
pub struct GetRunDetailResult {
    pub run: RunDetailInfo,
    pub jobs: Vec<JobResultInfo>,
    pub step_results: Vec<StepResultInfo>,
    pub artifacts: Vec<ArtifactInfo>,
}

/// Detailed run information.
#[derive(Debug, Clone)]
pub struct RunDetailInfo {
    pub id: String,
    pub repo_id: String,
    /// Derived from job/step results: running, completed, failed, awaiting_approval.
    pub status: String,
    pub branch: String,
    pub base_sha: String,
    pub head_sha: String,
    /// Currently executing step name (for running pipelines).
    pub current_step: Option<String>,
    pub workflow_file: String,
    pub workflow_name: Option<String>,
    pub ref_updates: Vec<RefUpdateParam>,
    pub error: Option<String>,
    pub created_at: i64,
    pub updated_at: i64,
    pub completed_at: Option<i64>,
}

/// Result for the `push_received` method.
#[derive(Debug, Clone)]
pub struct PushReceivedResult {
    pub will_create_run: bool,
}

/// Result for the `mark_forwarded` method.
#[derive(Debug, Clone)]
pub struct MarkForwardedResult {
    pub success: bool,
}

/// Result for the `fetch_notification` method.
#[derive(Debug, Clone)]
pub struct FetchNotificationResult {
    pub synced: bool,
    /// Only meaningful if `synced` is true.
    pub success: bool,
    pub error: Option<String>,
    /// Skipped because repo wasn't stale.
    pub skipped_not_stale: bool,
    pub repo_id: Option<String>,
}

/// Result for the `shutdown` method.
#[derive(Debug, Clone)]
pub struct ShutdownResult {
    pub acknowledged: bool,
}

/// Result for the `get_repos` method.
#[derive(Debug, Clone)]
pub struct GetReposResult {
    pub repos: Vec<RepoWithStatus>,
}

/// Repository information with current status.
#[derive(Debug, Clone)]
pub struct RepoWithStatus {
    pub id: String,
    pub working_path: String,
    pub upstream_url: String,
    pub gate_path: String,
    pub created_at: i64,
    /// Running or pending approval.
    pub pending_runs: u32,
    pub last_sync: Option<i64>,
    pub gate_healthy: bool,
}

/// Result for the `reprocess_run` method.
#[derive(Debug, Clone)]
pub struct ReprocessRunResult {
    pub run_id: String,
    pub success: bool,
    pub new_status: String,
}

/// Result for the `cancel_run` method.
#[derive(Debug, Clone)]
pub struct CancelRunResult {
    pub run_id: String,
    pub success: bool,
}

/// Result for the `retry_job` method.
#[derive(Debug, Clone)]
pub struct RetryJobResult {
    pub run_id: String,
    pub job_key: String,
    pub success: bool,
    /// Job keys that were reset (target + downstream dependents).
    pub reset_jobs: Vec<String>,
}

// =============================================================================
// Step-based pipeline results
// =============================================================================

// =============================================================================
// Error codes and methods
// =============================================================================

/// Invalid JSON was received.
pub const PARSE_ERROR: i32 = -32700;
/// The JSON sent is not a valid request.
pub const INVALID_REQUEST: i32 = -32600;
/// The method does not exist.
pub const METHOD_NOT_FOUND: i32 = -32601;
/// Invalid method parameters.
pub const INVALID_PARAMS: i32 = -32602;
/// Internal error.
pub const INTERNAL_ERROR: i32 = -32603;
/// The repository is not enrolled.
pub const REPO_NOT_FOUND: i32 = -32001;
/// The run does not exist.
pub const RUN_NOT_FOUND: i32 = -32002;
/// The repository or run is in a state that refuses the request.
pub const INVALID_REPO_STATE: i32 = -32010;
/// A git operation failed.
pub const GIT_ERROR: i32 = -32020;
/// A database operation failed.
pub const DATABASE_ERROR: i32 = -32021;
/// The step is not in a status that allows the request.
pub const INVALID_STEP_STATUS: i32 = -32023;
/// The step (or job) does not exist.
pub const STEP_NOT_FOUND: i32 = -32024;
/// The job is not in a state that can be retried.
pub const JOB_NOT_RETRYABLE: i32 = -32025;

/// The methods a request can name and the daemon routes.
#[derive(Debug, Clone, Copy, PartialEq, Eq, Structural)]
pub enum Method {
    Subscribe,
    Init,
    Eject,
    Sync,
    SyncAll,
    Status,
    Health,
    GetRuns,
    GetRunDetail,
    MarkForwarded,
    PushReceived,
    FetchNotification,
    Shutdown,
    GetRepos,
    ReprocessRun,
    GetConfig,
    UpdateConfig,
    ApproveStep,
    GetRunDiff,
    ApplyPatches,
    CancelRun,
    RetryJob,
}

/// The wire name of a method.
pub open spec fn method_text(m: Method) -> Seq<char> {
    match m {
        Method::Subscribe => "subscribe"@,
        Method::Init => "init"@,
        Method::Eject => "eject"@,
        Method::Sync => "sync"@,
        Method::SyncAll => "sync_all"@,
        Method::Status => "status"@,
        Method::Health => "health"@,
        Method::GetRuns => "get_runs"@,
        Method::GetRunDetail => "get_run_detail"@,
        Method::MarkForwarded => "mark_forwarded"@,
        Method::PushReceived => "push_received"@,
        Method::FetchNotification => "fetch_notification"@,
        Method::Shutdown => "shutdown"@,
        Method::GetRepos => "get_repos"@,
        Method::ReprocessRun => "reprocess_run"@,
        Method::GetConfig => "get_config"@,
        Method::UpdateConfig => "update_config"@,
        Method::ApproveStep => "approve_step"@,
        Method::GetRunDiff => "get_run_diff"@,
        Method::ApplyPatches => "apply_patches"@,
        Method::CancelRun => "cancel_run"@,
        Method::RetryJob => "retry_job"@,
    }
}

/// The methods that a request is routed to a handler for: every method
/// but `subscribe`, which turns the connection into an event stream.
pub open spec fn routed(m: Method) -> bool {
    m != Method::Subscribe
}

/// The wire name of a method.
pub fn method_name(m: Method) -> (r: &'static str)
    ensures
        r@ == method_text(m),
{
    match m {
        Method::Subscribe => "subscribe",
        Method::Init => "init",
        Method::Eject => "eject",
        Method::Sync => "sync",
        Method::SyncAll => "sync_all",
        Method::Status => "status",
        Method::Health => "health",
        Method::GetRuns => "get_runs",
        Method::GetRunDetail => "get_run_detail",
        Method::MarkForwarded => "mark_forwarded",
        Method::PushReceived => "push_received",
        Method::FetchNotification => "fetch_notification",
        Method::Shutdown => "shutdown",
        Method::GetRepos => "get_repos",
        Method::ReprocessRun => "reprocess_run",
        Method::GetConfig => "get_config",
        Method::UpdateConfig => "update_config",
        Method::ApproveStep => "approve_step",
        Method::GetRunDiff => "get_run_diff",
        Method::ApplyPatches => "apply_patches",
        Method::CancelRun => "cancel_run",
        Method::RetryJob => "retry_job",
    }
}

/// The handler a request for method `name` goes to: a routed method with
/// that wire name, or `None` (answered "method not found").
pub fn route(name: &str) -> (r: Option<Method>)
    ensures
        r matches Some(m) ==> routed(m) && method_text(m) == name@,
        r is None ==> forall|m: Method| routed(m) ==> method_text(m) != name@,
{
    let all: [Method; 21] = [
        Method::Init,
        Method::Eject,
        Method::Sync,
        Method::SyncAll,
        Method::Status,
        Method::Health,
        Method::GetRuns,
        Method::GetRunDetail,
        Method::MarkForwarded,
        Method::PushReceived,
        Method::FetchNotification,
        Method::Shutdown,
        Method::GetRepos,
        Method::ReprocessRun,
        Method::GetConfig,
        Method::UpdateConfig,
        Method::ApproveStep,
        Method::GetRunDiff,
        Method::ApplyPatches,
        Method::CancelRun,
        Method::RetryJob,
    ];
    let mut i: usize = 0;
    while i < 21
        invariant
            i <= 21,
            all@.len() == 21,
            forall|k: int| 0 <= k < 21 ==> routed(#[trigger] all@[k]),
            forall|m: Method| routed(m) ==> exists|k: int| 0 <= k < 21 && all@[k] == m,
            forall|k: int| 0 <= k < i ==> method_text(#[trigger] all@[k]) != name@,
        decreases 21 - i,
    {
        let m = all[i];
        if crate::text::str_eq(method_name(m), name) {
            return Some(m);
        }
        i = i + 1;
    }
    proof {
        assert forall|m: Method| routed(m) implies method_text(m) != name@ by {
            let k = choose|k: int| 0 <= k < 21 && all@[k] == m;
            assert(method_text(all@[k]) != name@);
        }
    }
    None
}

/// The message of a request for a method that is not routed.
pub fn method_not_found_message(name: &str) -> (r: String)
    ensures
        r@ == "Method '"@ + name@ + "' not found"@,
{
    let mut m = "Method '".to_string();
    crate::text::push_str(&mut m, name);
    crate::text::push_str(&mut m, "' not found");
    m
}

} // verus!
