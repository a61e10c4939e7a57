//! The decisions of pipeline execution: which branch a push is for, how a
//! step's result moves its job on, when a job is skipped, which worktree a
//! job uses, which jobs a resumed DAG starts next, and what a run's final
//! state is. Running commands, the database and events are the caller's.

use crate::text::{push_str, starts_with, str_eq, strip_prefix};
use crate::types::{
    job_final, JobResult, JobStatus, RefUpdate, Run, StepDefinition, StepResult, StepStatus,
    job_status_text, step_status_text, ApprovalMode,
};
use crate::workflow::{JobConfig, WorkflowConfig, key_of};
use vstd::prelude::*;

verus! {

// =============================================================================
// Null SHAs and branch names
// =============================================================================

/// Git's null SHA: forty zeros (the old sha of a created ref, the new sha
/// of a deleted one).
pub open spec fn null_sha(s: Seq<char>) -> bool {
    s.len() == 40 && forall|i: int| 0 <= i < s.len() ==> s[i] == '0'
}

/// Whether `sha` is Git's null SHA.
pub fn is_null_sha(sha: &str) -> (r: bool)
    ensures
        r == null_sha(sha@),
{
    let n = sha.unicode_len();
    if n != 40 {
        return false;
    }
    let mut i: usize = 0;
    while i < n
        invariant
            n == sha@.len(),
            i <= n,
            forall|k: int| 0 <= k < i ==> sha@[k] == '0',
        decreases n - i,
    {
        if sha.get_char(i) != '0' {
            return false;
        }
        i = i + 1;
    }
    true
}

/// The update names a branch (`refs/heads/...`) and does not delete it.
pub open spec fn names_live_branch(u: RefUpdate) -> bool {
    !null_sha(u.new_sha@) && crate::text::seq_starts_with(u.ref_name@, "refs/heads/"@)
}

/// The primary branch of a push: that of the first update that names a
/// branch and does not delete it, without the `refs/heads/` prefix.
pub fn extract_branch_name(ref_updates: &[RefUpdate]) -> (r: Option<String>)
    ensures
        r matches Some(b) ==> exists|i: int|
            0 <= i < ref_updates@.len() && names_live_branch(#[trigger] ref_updates@[i]) && (forall|
                k: int,
            | 0 <= k < i ==> !names_live_branch(#[trigger] ref_updates@[k])) && b@
                == ref_updates@[i].ref_name@.skip(11),
        r is None ==> forall|i: int|
            0 <= i < ref_updates@.len() ==> !names_live_branch(#[trigger] ref_updates@[i]),
{
    proof {
        reveal_strlit("refs/heads/");
    }
    let mut i: usize = 0;
    while i < ref_updates.len()
        invariant
            i <= ref_updates@.len(),
            "refs/heads/"@.len() == 11,
            forall|k: int| 0 <= k < i ==> !names_live_branch(#[trigger] ref_updates@[k]),
        decreases ref_updates.len() - i,
    {
        let u = &ref_updates[i];
        if !is_null_sha(u.new_sha.as_str()) {
            match strip_prefix(u.ref_name.as_str(), "refs/heads/") {
                Some(b) => {
                    assert(names_live_branch(ref_updates@[i as int]));
                    return Some(b.to_string());
                },
                None => {},
            }
        }
        i = i + 1;
    }
    None
}

// =============================================================================
// Steps
// =============================================================================

/// Converts a step status to the name used in events.
pub fn step_status_str(status: StepStatus) -> (r: &'static str)
    ensures
        r@ == step_status_text(status),
{
    crate::types::step_status_to_string(status)
}

/// Whether the job goes on after a step with this result: yes after a pass,
/// a skip, or a failure of a step that may fail; no while awaiting approval
/// (the job pauses) or after any other failure.
pub fn should_continue_pipeline(stage: &StepDefinition, result: &StepResult) -> (r: bool)
    ensures
        r == match result.status {
            StepStatus::AwaitingApproval => false,
            StepStatus::Failed => stage.continue_on_error,
            _ => true,
        },
{
    match result.status {
        StepStatus::Passed => true,
        StepStatus::AwaitingApproval => false,
        StepStatus::Failed => stage.continue_on_error,
        StepStatus::Skipped => true,
        StepStatus::Pending | StepStatus::Running => true,
    }
}

/// Whether the job pauses for approval after a step with this result.
pub fn should_pause_for_approval(result: &StepResult) -> (r: bool)
    ensures
        r == (result.status == StepStatus::AwaitingApproval),
{
    result.status == StepStatus::AwaitingApproval
}

/// What a job does after one of its steps has run.
#[derive(Debug, Clone, Copy, PartialEq, Eq, Structural)]
pub enum StepOutcome {
    /// Run the next step.
    Continue,
    /// Stop and wait for approval.
    Pause,
    /// Stop: the job has failed.
    Stop,
}

/// The outcome of a step after it has run.
pub open spec fn step_outcome_spec(stage: StepDefinition, result: StepResult) -> StepOutcome {
    if result.status == StepStatus::AwaitingApproval {
        StepOutcome::Pause
    } else if result.status == StepStatus::Failed && !stage.continue_on_error {
        StepOutcome::Stop
    } else {
        StepOutcome::Continue
    }
}

/// What the job does after a step with this result: pause for approval,
/// stop on a failure the step may not have, or go on.
pub fn step_outcome(stage: &StepDefinition, result: &StepResult) -> (r: StepOutcome)
    ensures
        r == step_outcome_spec(*stage, *result),
{
    if should_pause_for_approval(result) {
        StepOutcome::Pause
    } else if !should_continue_pipeline(stage, result) {
        StepOutcome::Stop
    } else {
        StepOutcome::Continue
    }
}

/// A step's approval setting asks for a pause: always, or only while
/// unapplied patches exist.
pub open spec fn requires_pause(mode: ApprovalMode, has_pending_patches: bool) -> bool {
    mode == ApprovalMode::Always || (mode == ApprovalMode::IfPatches && has_pending_patches)
}

/// The status of a step that has run: a pass pauses for approval where the
/// step asks for it; any other exit code fails.
pub fn finished_step_status(passed: bool, mode: ApprovalMode, has_pending_patches: bool) -> (r:
    StepStatus)
    ensures
        r == if !passed {
            StepStatus::Failed
        } else if requires_pause(mode, has_pending_patches) {
            StepStatus::AwaitingApproval
        } else {
            StepStatus::Passed
        },
{
    if passed {
        match mode {
            ApprovalMode::Always => StepStatus::AwaitingApproval,
            ApprovalMode::IfPatches => if has_pending_patches {
                StepStatus::AwaitingApproval
            } else {
                StepStatus::Passed
            },
            ApprovalMode::Never => StepStatus::Passed,
        }
    } else {
        StepStatus::Failed
    }
}

/// Marks every pending step skipped; the others are unchanged. Returns the
/// indices of the steps it changed, in order.
pub fn skip_pending_steps(steps: &mut Vec<StepResult>) -> (r: Vec<usize>)
    ensures
        final(steps)@.len() == old(steps)@.len(),
        forall|i: int|
            0 <= i < old(steps)@.len() ==> (#[trigger] final(steps)@[i]).status == (if old(
                steps,
            )@[i].status == StepStatus::Pending {
                StepStatus::Skipped
            } else {
                old(steps)@[i].status
            }),
        forall|i: int|
            0 <= i < old(steps)@.len() ==> (#[trigger] final(steps)@[i]).id == old(steps)@[i].id
                && final(steps)@[i].name == old(steps)@[i].name && final(steps)@[i].job_id == old(
                steps,
            )@[i].job_id && final(steps)@[i].run_id == old(steps)@[i].run_id
                && final(steps)@[i].step_order == old(steps)@[i].step_order
                && final(steps)@[i].exit_code == old(steps)@[i].exit_code
                && final(steps)@[i].error == old(steps)@[i].error,
        forall|k: int| 0 <= k < r@.len() ==> #[trigger] r@[k] < old(steps)@.len(),
        forall|i: int|
            0 <= i < old(steps)@.len() ==> (old(steps)@[i].status == StepStatus::Pending <==> r@.contains(
                i as usize,
            )),
{
    let mut changed: Vec<usize> = Vec::new();
    let mut i: usize = 0;
    while i < steps.len()
        invariant
            i <= steps@.len(),
            steps@.len() == old(steps)@.len(),
            forall|j: int|
                0 <= j < i ==> (#[trigger] steps@[j]).status == (if old(steps)@[j].status
                    == StepStatus::Pending {
                    StepStatus::Skipped
                } else {
                    old(steps)@[j].status
                }),
            forall|j: int| i <= j < steps@.len() ==> steps@[j] == old(steps)@[j],
            forall|j: int|
                0 <= j < steps@.len() ==> (#[trigger] steps@[j]).id == old(steps)@[j].id
                    && steps@[j].name == old(steps)@[j].name && steps@[j].job_id == old(
                    steps,
                )@[j].job_id && steps@[j].run_id == old(steps)@[j].run_id
                    && steps@[j].step_order == old(steps)@[j].step_order
                    && steps@[j].exit_code == old(steps)@[j].exit_code
                    && steps@[j].error == old(steps)@[j].error,
            forall|k: int| 0 <= k < changed@.len() ==> #[trigger] changed@[k] < i,
            forall|j: int|
                0 <= j < i ==> (old(steps)@[j].status == StepStatus::Pending <==> changed@.contains(
                    j as usize,
                )),
        decreases steps.len() - i,
    {
        if steps[i].status == StepStatus::Pending {
            steps[i].status = StepStatus::Skipped;
            let ghost before = changed@;
            changed.push(i);
            proof {
                assert(changed@[changed@.len() - 1] == i);
                assert forall|j: int|
                    0 <= j < i + 1 implies (old(steps)@[j].status == StepStatus::Pending
                    <==> changed@.contains(j as usize)) by {
                    if j < i {
                        if before.contains(j as usize) {
                            let k = choose|k: int| 0 <= k < before.len() && before[k] == j as usize;
                            assert(changed@[k] == j as usize);
                        }
                        if changed@.contains(j as usize) {
                            let k = choose|k: int| 0 <= k < changed@.len() && changed@[k] == j as usize;
                            if k < before.len() {
                                assert(before[k] == j as usize);
                            }
                        }
                    }
                }
            }
        } else {
            proof {
                assert(!changed@.contains(i as usize));
            }
        }
        i = i + 1;
    }
    changed
}

// =============================================================================
// Jobs
// =============================================================================

/// Something that ends or advances the step loop of a job.
#[derive(Debug)]
pub enum JobStepEvent {
    /// The run was cancelled before the next step.
    Cancelled,
    /// The step has no result record.
    MissingResult,
    /// The step's reusable action could not be resolved.
    ResolveFailed { step_name: String, error: String },
    /// The step's environment could not be built.
    EnvironmentFailed { error: String },
    /// The step ran; `continue_on_error` is that of the resolved step.
    Executed { result: StepResult, continue_on_error: bool },
    /// The step could not be run.
    ExecutionError { error: String },
}

/// The state of a job's step loop.
#[derive(Debug)]
pub struct JobProgress {
    /// No step has failed the job so far.
    pub success: bool,
    /// The error recorded for the job.
    pub error: Option<String>,
    /// The job stopped to wait for approval.
    pub paused: bool,
}

/// The error text of a step whose reusable action could not be resolved.
pub open spec fn resolve_failed_text(step_name: Seq<char>, error: Seq<char>) -> Seq<char> {
    "Failed to resolve reusable action '"@ + step_name + "': "@ + error
}

/// The error text of a step whose environment could not be built.
pub open spec fn env_failed_text(error: Seq<char>) -> Seq<char> {
    "Failed to build environment: "@ + error
}

/// The view of an optional text.
pub open spec fn opt_text(o: Option<String>) -> Option<Seq<char>> {
    match o {
        Some(s) => Some(s@),
        None => None,
    }
}

impl JobProgress {
    /// A job about to run its first step.
    pub fn new() -> (r: Self)
        ensures
            r.success && !r.paused && r.error is None,
    {
        JobProgress { success: true, error: None, paused: false }
    }

    /// Applies one event. Returns true when the job's step loop stops.
    pub fn on_event(&mut self, ev: JobStepEvent) -> (stop: bool)
        ensures
            match ev {
                JobStepEvent::Cancelled => stop && !final(self).success && !final(self).paused
                    && opt_text(final(self).error) == Some("Superseded by newer push"@),
                JobStepEvent::MissingResult => stop && !final(self).success && final(self).paused
                    == old(self).paused && final(self).error == old(self).error,
                JobStepEvent::ResolveFailed { step_name, error } => stop && !final(self).success
                    && final(self).paused == old(self).paused && opt_text(final(self).error) == Some(
                    resolve_failed_text(step_name@, error@),
                ),
                JobStepEvent::EnvironmentFailed { error } => stop && !final(self).success
                    && final(self).paused == old(self).paused && opt_text(final(self).error) == Some(
                    env_failed_text(error@),
                ),
                JobStepEvent::ExecutionError { error } => stop && !final(self).success
                    && final(self).paused == old(self).paused && opt_text(final(self).error) == Some(
                    error@,
                ),
                JobStepEvent::Executed { result, continue_on_error } => {
                    if result.status == StepStatus::AwaitingApproval {
                        stop && final(self).paused && final(self).success == old(self).success
                            && final(self).error == old(self).error
                    } else if result.status == StepStatus::Failed && !continue_on_error {
                        stop && !final(self).success && final(self).paused == old(self).paused
                            && final(self).error == result.error
                    } else {
                        !stop && final(self).success == old(self).success && final(self).paused
                            == old(self).paused && final(self).error == old(self).error
                    }
                },
            },
    {
        match ev {
            JobStepEvent::Cancelled => {
                self.success = false;
                self.paused = false;
                self.error = Some("Superseded by newer push".to_string());
                true
            },
            JobStepEvent::MissingResult => {
                self.success = false;
                true
            },
            JobStepEvent::ResolveFailed { step_name, error } => {
                let mut msg = "Failed to resolve reusable action '".to_string();
                push_str(&mut msg, step_name.as_str());
                push_str(&mut msg, "': ");
                push_str(&mut msg, error.as_str());
                self.success = false;
                self.error = Some(msg);
                true
            },
            JobStepEvent::EnvironmentFailed { error } => {
                let mut msg = "Failed to build environment: ".to_string();
                push_str(&mut msg, error.as_str());
                self.success = false;
                self.error = Some(msg);
                true
            },
            JobStepEvent::ExecutionError { error } => {
                self.success = false;
                self.error = Some(error);
                true
            },
            JobStepEvent::Executed { result, continue_on_error } => {
                if result.status == StepStatus::AwaitingApproval {
                    self.paused = true;
                    true
                } else if result.status == StepStatus::Failed && !continue_on_error {
                    self.success = false;
                    self.error = result.error;
                    true
                } else {
                    false
                }
            },
        }
    }

    /// The job's status once its step loop has stopped.
    pub fn final_status(&self) -> (r: JobStatus)
        ensures
            r == final_job_status_spec(self.paused, self.success),
    {
        final_job_status(self.paused, self.success)
    }
}

/// The status a job ends with.
pub open spec fn final_job_status_spec(paused: bool, success: bool) -> JobStatus {
    if paused {
        JobStatus::AwaitingApproval
    } else if success {
        JobStatus::Passed
    } else {
        JobStatus::Failed
    }
}

/// The status a job ends with: awaiting approval when paused, else passed
/// or failed.
pub fn final_job_status(paused: bool, success: bool) -> (r: JobStatus)
    ensures
        r == final_job_status_spec(paused, success),
{
    if paused {
        JobStatus::AwaitingApproval
    } else if success {
        JobStatus::Passed
    } else {
        JobStatus::Failed
    }
}

/// When a job that ends with `status` is complete: now, unless it waits for
/// approval.
pub fn job_completed_at(status: JobStatus, now: i64) -> (r: Option<i64>)
    ensures
        r == if status == JobStatus::AwaitingApproval {
            None::<i64>
        } else {
            Some(now)
        },
{
    if status == JobStatus::AwaitingApproval {
        None
    } else {
        Some(now)
    }
}

/// The status reported when a job resumed after an approval ends: "passed"
/// or, for anything else, "failed".
pub fn resumed_job_status_str(status: JobStatus) -> (r: &'static str)
    ensures
        r@ == if status == JobStatus::Passed {
            "passed"@
        } else {
            "failed"@
        },
{
    if status == JobStatus::Passed {
        "passed"
    } else {
        "failed"
    }
}

/// Converts a job status to the name used in events.
pub fn job_status_str(status: JobStatus) -> (r: &'static str)
    ensures
        r@ == job_status_text(status),
{
    crate::types::job_status_to_string(status)
}

// =============================================================================
// Job status maps
// =============================================================================

/// Index of the first entry with key `key`.
pub open spec fn key_index<V>(s: Seq<(Seq<char>, V)>, key: Seq<char>) -> Option<int>
    decreases s.len(),
{
    if s.len() == 0 {
        None
    } else {
        match key_index(s.drop_last(), key) {
            Some(i) => Some(i),
            None => if s.last().0 == key {
                Some(s.len() - 1)
            } else {
                None
            },
        }
    }
}

/// The value of the first entry with key `key`.
pub open spec fn value_of<V>(s: Seq<(Seq<char>, V)>, key: Seq<char>) -> Option<V> {
    match key_index(s, key) {
        Some(i) => Some(s[i].1),
        None => None,
    }
}

/// A map from job keys to statuses, as text.
pub open spec fn statuses_view(s: Seq<(String, JobStatus)>) -> Seq<(Seq<char>, JobStatus)> {
    s.map_values(|p: (String, JobStatus)| (p.0@, p.1))
}

/// A map from job keys to paths, as text.
pub open spec fn paths_view(s: Seq<(String, String)>) -> Seq<(Seq<char>, Seq<char>)> {
    s.map_values(|p: (String, String)| (p.0@, p.1@))
}

/// Sets the value of `key`: the first entry with that key changes, or an
/// entry is added at the end.
pub open spec fn set_value<V>(s: Seq<(Seq<char>, V)>, key: Seq<char>, v: V) -> Seq<(Seq<char>, V)> {
    match key_index(s, key) {
        Some(i) => s.update(i, (key, v)),
        None => s.push((key, v)),
    }
}

pub proof fn lemma_key_index_props<V>(s: Seq<(Seq<char>, V)>, key: Seq<char>)
    ensures
        key_index(s, key) matches Some(i) ==> 0 <= i < s.len() && s[i].0 == key && forall|k: int|
            0 <= k < i ==> (#[trigger] s[k]).0 != key,
        key_index(s, key) is None ==> forall|k: int| 0 <= k < s.len() ==> (#[trigger] s[k]).0 != key,
    decreases s.len(),
{
    if s.len() > 0 {
        lemma_key_index_props(s.drop_last(), key);
        assert forall|k: int| 0 <= k < s.len() - 1 implies s[k] == s.drop_last()[k] by {}
    }
}

proof fn lemma_key_index_at<V>(s: Seq<(Seq<char>, V)>, key: Seq<char>, j: int)
    requires
        0 <= j < s.len(),
        s[j].0 == key,
        forall|k: int| 0 <= k < j ==> (#[trigger] s[k]).0 != key,
    ensures
        key_index(s, key) == Some(j),
{
    lemma_key_index_props(s, key);
}

proof fn lemma_key_index_none<V>(s: Seq<(Seq<char>, V)>, key: Seq<char>)
    requires
        forall|k: int| 0 <= k < s.len() ==> (#[trigger] s[k]).0 != key,
    ensures
        key_index(s, key) is None,
{
    lemma_key_index_props(s, key);
}

/// A status recorded with `set_job_status` is what `lookup_status` then
/// reads for that job, and the status of every other job is unchanged.
pub proof fn law_status_read_after_write<V>(s: Seq<(Seq<char>, V)>, key: Seq<char>, v: V, other: Seq<char>)
    ensures
        value_of(set_value(s, key, v), key) == Some(v),
        other != key ==> value_of(set_value(s, key, v), other) == value_of(s, other),
{
    let t = set_value(s, key, v);
    lemma_key_index_props(s, key);
    lemma_key_index_props(s, other);
    lemma_key_index_props(t, key);
    lemma_key_index_props(t, other);
    assert forall|k: int| 0 <= k < s.len() implies (#[trigger] t[k]).0 == s[k].0 by {}
    match key_index(s, key) {
        Some(i) => {
            lemma_key_index_at(t, key, i);
            if other != key {
                match key_index(s, other) {
                    Some(j) => {
                        lemma_key_index_at(t, other, j);
                    },
                    None => {
                        lemma_key_index_none(t, other);
                    },
                }
            }
        },
        None => {
            lemma_key_index_at(t, key, s.len() as int);
            if other != key {
                match key_index(s, other) {
                    Some(j) => {
                        lemma_key_index_at(t, other, j);
                    },
                    None => {
                        lemma_key_index_none(t, other);
                    },
                }
            }
        },
    }
}

/// The status recorded for job `key`.
pub fn lookup_status(statuses: &Vec<(String, JobStatus)>, key: &str) -> (r: Option<JobStatus>)
    ensures
        r == value_of(statuses_view(statuses@), key@),
{
    let ghost v = statuses_view(statuses@);
    let mut i: usize = 0;
    while i < statuses.len()
        invariant
            i <= statuses@.len(),
            v == statuses_view(statuses@),
            forall|k: int| 0 <= k < i ==> (#[trigger] v[k]).0 != key@,
        decreases statuses.len() - i,
    {
        if str_eq(statuses[i].0.as_str(), key) {
            proof {
                lemma_key_index_at(v, key@, i as int);
            }
            return Some(statuses[i].1);
        }
        i = i + 1;
    }
    proof {
        lemma_key_index_none(v, key@);
    }
    None
}

/// Records the status of job `key`.
pub fn set_job_status(statuses: &mut Vec<(String, JobStatus)>, key: &str, status: JobStatus)
    ensures
        statuses_view(final(statuses)@) == set_value(statuses_view(old(statuses)@), key@, status),
{
    let ghost v = statuses_view(statuses@);
    let mut i: usize = 0;
    while i < statuses.len()
        invariant
            i <= statuses@.len(),
            statuses@ == old(statuses)@,
            v == statuses_view(statuses@),
            forall|k: int| 0 <= k < i ==> (#[trigger] v[k]).0 != key@,
        decreases statuses.len() - i,
    {
        if str_eq(statuses[i].0.as_str(), key) {
            proof {
                lemma_key_index_at(v, key@, i as int);
            }
            let k = statuses[i].0.clone();
            statuses.set(i, (k, status));
            proof {
                assert(statuses_view(statuses@) =~= v.update(i as int, (key@, status)));
            }
            return;
        }
        i = i + 1;
    }
    proof {
        lemma_key_index_none(v, key@);
    }
    statuses.push((key.to_string(), status));
    proof {
        assert(statuses_view(statuses@) =~= v.push((key@, status)));
    }
}

/// Some dependency of the job has failed or was skipped.
pub open spec fn skip_spec(cfg: JobConfig, st: Seq<(Seq<char>, JobStatus)>) -> bool {
    exists|j: int|
        0 <= j < cfg.needs@.len() && (value_of(st, (#[trigger] cfg.needs@[j])@) == Some(
            JobStatus::Failed,
        ) || value_of(st, cfg.needs@[j]@) == Some(JobStatus::Skipped))
}

/// Every dependency of the job has reached a final status.
pub open spec fn deps_done_spec(cfg: JobConfig, st: Seq<(Seq<char>, JobStatus)>) -> bool {
    forall|j: int|
        0 <= j < cfg.needs@.len() ==> (value_of(st, (#[trigger] cfg.needs@[j])@) matches Some(s)
            && job_final(s))
}

/// A job with a dependency that failed, or one that was skipped, is
/// skipped, whatever its other dependencies did.
pub proof fn law_failed_or_skipped_dependency_skips(cfg: JobConfig, st: Seq<(Seq<char>, JobStatus)>, j: int)
    requires
        0 <= j < cfg.needs@.len(),
        value_of(st, cfg.needs@[j]@) == Some(JobStatus::Failed) || value_of(st, cfg.needs@[j]@) == Some(
            JobStatus::Skipped,
        ),
    ensures
        skip_spec(cfg, st),
{
}

/// A job none of whose dependencies failed or was skipped is not skipped.
pub proof fn law_job_without_failed_dependency_runs(cfg: JobConfig, st: Seq<(Seq<char>, JobStatus)>)
    requires
        forall|j: int|
            0 <= j < cfg.needs@.len() ==> value_of(st, (#[trigger] cfg.needs@[j])@) != Some(JobStatus::Failed)
                && value_of(st, cfg.needs@[j]@) != Some(JobStatus::Skipped),
    ensures
        !skip_spec(cfg, st),
{
}

/// Whether the job is to be skipped because a dependency failed or was
/// skipped.
pub fn should_skip_job(_job_key: &str, job_config: &JobConfig, job_statuses: &Vec<(String, JobStatus)>) -> (r:
    bool)
    ensures
        r == skip_spec(*job_config, statuses_view(job_statuses@)),
{
    let mut j: usize = 0;
    while j < job_config.needs.len()
        invariant
            j <= job_config.needs@.len(),
            forall|k: int|
                0 <= k < j ==> !(value_of(
                    statuses_view(job_statuses@),
                    (#[trigger] job_config.needs@[k])@,
                ) == Some(JobStatus::Failed) || value_of(
                    statuses_view(job_statuses@),
                    job_config.needs@[k]@,
                ) == Some(JobStatus::Skipped)),
        decreases job_config.needs.len() - j,
    {
        match lookup_status(job_statuses, job_config.needs[j].as_str()) {
            Some(JobStatus::Failed) | Some(JobStatus::Skipped) => {
                return true;
            },
            _ => {},
        }
        j = j + 1;
    }
    false
}

/// Whether every dependency of the job has reached a final status.
pub fn deps_done(job_config: &JobConfig, job_statuses: &Vec<(String, JobStatus)>) -> (r: bool)
    ensures
        r == deps_done_spec(*job_config, statuses_view(job_statuses@)),
{
    let mut j: usize = 0;
    while j < job_config.needs.len()
        invariant
            j <= job_config.needs@.len(),
            forall|k: int|
                0 <= k < j ==> (value_of(
                    statuses_view(job_statuses@),
                    (#[trigger] job_config.needs@[k])@,
                ) matches Some(s) && job_final(s)),
        decreases job_config.needs.len() - j,
    {
        match lookup_status(job_statuses, job_config.needs[j].as_str()) {
            Some(s) => {
                if !s.is_final() {
                    return false;
                }
            },
            None => {
                return false;
            },
        }
        j = j + 1;
    }
    true
}

// =============================================================================
// Resuming a DAG
// =============================================================================

/// One pass over the workflow's jobs, in order, after a job has finished: a
/// pending job whose dependencies have all finished is skipped if one of
/// them failed or was skipped (which also drops the jobs found runnable so
/// far in this pass), and is otherwise runnable. Gives the new statuses, the
/// skipped keys and the runnable keys.
pub open spec fn scan_jobs(jobs: Seq<(String, JobConfig)>, st: Seq<(Seq<char>, JobStatus)>) -> (
    Seq<(Seq<char>, JobStatus)>,
    Seq<Seq<char>>,
    Seq<Seq<char>>,
)
    decreases jobs.len(),
{
    if jobs.len() == 0 {
        (st, Seq::empty(), Seq::empty())
    } else {
        let (st1, skipped, runnable) = scan_jobs(jobs.drop_last(), st);
        let key = jobs.last().0@;
        let cfg = jobs.last().1;
        if value_of(st1, key) != Some(JobStatus::Pending) || !deps_done_spec(cfg, st1) {
            (st1, skipped, runnable)
        } else if skip_spec(cfg, st1) {
            (set_value(st1, key, JobStatus::Skipped), skipped.push(key), Seq::empty())
        } else {
            (st1, skipped, runnable.push(key))
        }
    }
}

/// One pass of a resumed DAG: marks skipped (in `job_statuses`) the pending
/// jobs with a failed or skipped dependency, and returns the keys of the
/// skipped jobs and of the jobs that can start now.
pub fn scan_ready_jobs(workflow: &WorkflowConfig, job_statuses: &mut Vec<(String, JobStatus)>) -> (r: (
    Vec<String>,
    Vec<String>,
))
    ensures
        (statuses_view(final(job_statuses)@), r.0@.map_values(|k: String| k@), r.1@.map_values(
            |k: String| k@,
        )) == scan_jobs(workflow.jobs@, statuses_view(old(job_statuses)@)),
{
    let jobs = &workflow.jobs;
    let mut skipped: Vec<String> = Vec::new();
    let mut runnable: Vec<String> = Vec::new();
    let mut i: usize = 0;
    while i < jobs.len()
        invariant
            i <= jobs@.len(),
            (statuses_view(job_statuses@), skipped@.map_values(|k: String| k@), runnable@.map_values(
                |k: String| k@,
            )) == scan_jobs(jobs@.take(i as int), statuses_view(old(job_statuses)@)),
        decreases jobs.len() - i,
    {
        proof {
            assert(jobs@.take(i + 1).drop_last() =~= jobs@.take(i as int));
            assert(jobs@.take(i + 1).last() == jobs@[i as int]);
        }
        let key = jobs[i].0.as_str();
        let cfg = &jobs[i].1;
        let pending = match lookup_status(job_statuses, key) {
            Some(JobStatus::Pending) => true,
            _ => false,
        };
        if pending && deps_done(cfg, job_statuses) {
            if should_skip_job(key, cfg, job_statuses) {
                set_job_status(job_statuses, key, JobStatus::Skipped);
                let ghost before = skipped@;
                skipped.push(key.to_string());
                runnable = Vec::new();
                proof {
                    assert(skipped@.map_values(|k: String| k@) =~= before.map_values(|k: String| k@).push(
                        key@,
                    ));
                    assert(runnable@.map_values(|k: String| k@) =~= Seq::<Seq<char>>::empty());
                }
            } else {
                let ghost before = runnable@;
                runnable.push(key.to_string());
                proof {
                    assert(runnable@.map_values(|k: String| k@) =~= before.map_values(|k: String| k@).push(
                        key@,
                    ));
                }
            }
        }
        i = i + 1;
    }
    proof {
        assert(jobs@.take(jobs@.len() as int) =~= jobs@);
    }
    (skipped, runnable)
}

/// Job `key` of `jobs` is pending in `st`, all of its dependencies have
/// finished, and none of them failed or was skipped.
pub open spec fn ready_in(jobs: Seq<(String, JobConfig)>, st: Seq<(Seq<char>, JobStatus)>, key: Seq<char>) -> bool {
    exists|i: int|
        0 <= i < jobs.len() && (#[trigger] jobs[i]).0@ == key && value_of(st, key) == Some(
            JobStatus::Pending,
        ) && deps_done_spec(jobs[i].1, st) && !skip_spec(jobs[i].1, st)
}

/// A job that a pass of a resumed DAG finds runnable is still pending, all
/// of its dependencies have finished, and none of them failed or was
/// skipped.
pub proof fn law_runnable_jobs_are_ready(jobs: Seq<(String, JobConfig)>, st: Seq<(Seq<char>, JobStatus)>)
    ensures
        forall|x: int|
            0 <= x < scan_jobs(jobs, st).2.len() ==> ready_in(
                jobs,
                scan_jobs(jobs, st).0,
                #[trigger] scan_jobs(jobs, st).2[x],
            ),
    decreases jobs.len(),
{
    if jobs.len() > 0 {
        let d = jobs.drop_last();
        law_runnable_jobs_are_ready(d, st);
        let (st1, skipped, runnable) = scan_jobs(d, st);
        let r = scan_jobs(jobs, st);
        assert forall|x: int| 0 <= x < r.2.len() implies ready_in(jobs, r.0, #[trigger] r.2[x]) by {
            if x < runnable.len() && r.2[x] == runnable[x] && r.0 == st1 {
                assert(ready_in(d, st1, runnable[x]));
                let i = choose|i: int|
                    0 <= i < d.len() && (#[trigger] d[i]).0@ == runnable[x] && value_of(st1, runnable[x])
                        == Some(JobStatus::Pending) && deps_done_spec(d[i].1, st1) && !skip_spec(
                        d[i].1,
                        st1,
                    );
                assert(jobs[i] == d[i]);
            } else {
                assert(jobs[jobs.len() - 1] == jobs.last());
            }
        }
    }
}

// =============================================================================
// Workflows of a run
// =============================================================================

/// The short form of a sha in messages: its first eight characters.
pub open spec fn short_sha(sha: Seq<char>) -> Seq<char> {
    if sha.len() <= 8 {
        sha
    } else {
        sha.take(8)
    }
}

/// The workflows of a run, as `load_workflows_for_run` gives them.
pub open spec fn workflows_for_run_spec(
    head_sha: Seq<char>,
    loaded: Result<Seq<(String, WorkflowConfig)>, Seq<char>>,
    branch_filter: Option<(Seq<char>, Seq<(String, WorkflowConfig)>)>,
) -> Result<Seq<(String, WorkflowConfig)>, Seq<char>> {
    match loaded {
        Err(e) => Err(
            "Failed to load workflows from commit "@ + short_sha(head_sha) + " in gate: "@ + e
                + ". Run 'airlock init' to create them."@,
        ),
        Ok(all) => if all.len() == 0 {
            Err(
                ".airlock/workflows/ not found or empty at commit "@ + short_sha(head_sha)
                    + " in gate. Run 'airlock init' to create it."@,
            )
        } else {
            match branch_filter {
                None => Ok(all),
                Some((branch, matching)) => if matching.len() == 0 {
                    Err(
                        "No workflow matched branch '"@ + branch
                            + "'. Check your .airlock/workflows/*.yml trigger filters."@,
                    )
                } else {
                    Ok(matching)
                },
            }
        },
    }
}

/// The workflows a run executes, from what loading the pushed commit's
/// workflows gave (`loaded`) and, when the run's branch is known, the
/// branch and the workflows whose triggers match it (`branch_filter`): an
/// error when they could not be read, when there are none, or when none
/// matches the branch.
pub fn load_workflows_for_run(
    head_sha: &str,
    loaded: Result<Vec<(String, WorkflowConfig)>, String>,
    branch_filter: Option<(&str, Vec<(String, WorkflowConfig)>)>,
) -> (r: Result<Vec<(String, WorkflowConfig)>, String>)
    ensures
        match r {
            Ok(v) => workflows_for_run_spec(
                head_sha@,
                match loaded {
                    Ok(a) => Ok(a@),
                    Err(e) => Err(e@),
                },
                match branch_filter {
                    Some((b, m)) => Some((b@, m@)),
                    None => None,
                },
            ) == Ok::<Seq<(String, WorkflowConfig)>, Seq<char>>(v@),
            Err(m) => workflows_for_run_spec(
                head_sha@,
                match loaded {
                    Ok(a) => Ok(a@),
                    Err(e) => Err(e@),
                },
                match branch_filter {
                    Some((b, m)) => Some((b@, m@)),
                    None => None,
                },
            ) == Err::<Seq<(String, WorkflowConfig)>, Seq<char>>(m@),
        },
{
    let n = head_sha.unicode_len();
    let k = if n <= 8 { n } else { 8 };
    let short = head_sha.substring_char(0, k);
    proof {
        assert(short@ =~= short_sha(head_sha@));
    }
    match loaded {
        Err(e) => {
            let mut m = "Failed to load workflows from commit ".to_string();
            push_str(&mut m, short);
            push_str(&mut m, " in gate: ");
            push_str(&mut m, e.as_str());
            push_str(&mut m, ". Run 'airlock init' to create them.");
            Err(m)
        },
        Ok(all) => {
            if all.len() == 0 {
                let mut m = ".airlock/workflows/ not found or empty at commit ".to_string();
                push_str(&mut m, short);
                push_str(&mut m, " in gate. Run 'airlock init' to create it.");
                return Err(m);
            }
            match branch_filter {
                None => Ok(all),
                Some((branch, matching)) => {
                    if matching.len() == 0 {
                        let mut m = "No workflow matched branch '".to_string();
                        push_str(&mut m, branch);
                        push_str(&mut m, "'. Check your .airlock/workflows/*.yml trigger filters.");
                        Err(m)
                    } else {
                        Ok(matching)
                    }
                },
            }
        },
    }
}

// =============================================================================
// Worktrees
// =============================================================================

/// `PathBuf::with_extension` applied to `path`, as text.
pub uninterp spec fn with_extension(path: Seq<char>, ext: Seq<char>) -> Seq<char>;

/// `ext` holds no path separator.
pub open spec fn no_separator(ext: Seq<char>) -> bool {
    forall|i: int| 0 <= i < ext.len() ==> ext[i] != '/'
}

/// Whether a job key can serve as a worktree's extension: it holds no `/`.
pub fn is_separator_free(key: &str) -> (r: bool)
    ensures
        r == no_separator(key@),
{
    let n = key.unicode_len();
    let mut i: usize = 0;
    while i < n
        invariant
            n == key@.len(),
            i <= n,
            forall|k: int| 0 <= k < i ==> key@[k] != '/',
        decreases n - i,
    {
        if key.get_char(i) == '/' {
            return false;
        }
        i = i + 1;
    }
    true
}

/// `path` with its extension set to `ext`
/// (`std::path::PathBuf::with_extension`, which panics on an extension that
/// holds a path separator).
#[verifier::external_body]
pub(crate) fn path_with_extension(path: &str, ext: &str) -> (r: String)
    requires
        no_separator(ext@),
    ensures
        r@ == with_extension(path@, ext@),
{
    std::path::PathBuf::from(path).with_extension(ext).to_string_lossy().into_owned()
}

/// The worktree a job runs in.
#[derive(Debug)]
pub enum WorktreeChoice {
    /// The worktree of its only dependency.
    Inherit(String),
    /// The repository's persistent worktree (the first job of a run).
    Persistent,
    /// A fresh worktree of its own.
    Ephemeral,
}

/// Which worktree a job runs in: a job with exactly one dependency that has
/// a worktree inherits it; the first job (no dependencies, no worktree yet)
/// uses the persistent worktree; any other gets a fresh one.
pub fn choose_job_worktree(job_config: &JobConfig, job_worktrees: &Vec<(String, String)>) -> (r:
    WorktreeChoice)
    ensures
        match r {
            WorktreeChoice::Inherit(p) => job_config.needs@.len() == 1 && value_of(
                paths_view(job_worktrees@),
                job_config.needs@[0]@,
            ) == Some(p@),
            WorktreeChoice::Persistent => !(job_config.needs@.len() == 1 && value_of(
                paths_view(job_worktrees@),
                job_config.needs@[0]@,
            ) is Some) && job_config.needs@.len() == 0 && job_worktrees@.len() == 0,
            WorktreeChoice::Ephemeral => !(job_config.needs@.len() == 1 && value_of(
                paths_view(job_worktrees@),
                job_config.needs@[0]@,
            ) is Some) && !(job_config.needs@.len() == 0 && job_worktrees@.len() == 0),
        },
{
    if job_config.needs.len() == 1 {
        let dep = job_config.needs[0].as_str();
        let ghost v = paths_view(job_worktrees@);
        let mut i: usize = 0;
        while i < job_worktrees.len()
            invariant
                i <= job_worktrees@.len(),
                v == paths_view(job_worktrees@),
                job_config.needs@.len() == 1,
                dep@ == job_config.needs@[0]@,
                forall|k: int| 0 <= k < i ==> (#[trigger] v[k]).0 != dep@,
            decreases job_worktrees.len() - i,
        {
            if str_eq(job_worktrees[i].0.as_str(), dep) {
                proof {
                    lemma_key_index_at(v, dep@, i as int);
                }
                return WorktreeChoice::Inherit(job_worktrees[i].1.clone());
            }
            i = i + 1;
        }
        proof {
            lemma_key_index_none(v, dep@);
        }
    }
    if job_config.needs.len() == 0 && job_worktrees.len() == 0 {
        WorktreeChoice::Persistent
    } else {
        WorktreeChoice::Ephemeral
    }
}

/// The fresh worktree of job `job_key`: the run's worktree path with the job
/// key as its extension. A job key holding a `/` has no such path.
pub fn job_worktree_path(paths: &crate::paths::AirlockPaths, repo_id: &str, run_id: &str, job_key: &str) -> (r:
    String)
    requires
        no_separator(job_key@),
    ensures
        r@ == with_extension(crate::paths::path_join(crate::paths::path_join(crate::paths::path_join(
            paths.root_path(),
            "worktrees"@,
        ), repo_id@), run_id@), job_key@),
{
    let base = paths.run_worktree(repo_id, run_id);
    path_with_extension(base.as_str(), job_key)
}

/// The worktree of a job that paused: the persistent worktree if it exists,
/// else the job's own worktree if it exists, else the run's worktree.
pub fn find_job_worktree(
    paths: &crate::paths::AirlockPaths,
    repo_id: &str,
    run_id: &str,
    job_key: &str,
    persistent_exists: bool,
    job_specific_exists: bool,
) -> (r: String)
    requires
        !persistent_exists && job_specific_exists ==> no_separator(job_key@),
    ensures
        persistent_exists ==> r@ == crate::paths::path_join(
            crate::paths::path_join(crate::paths::path_join(paths.root_path(), "worktrees"@), repo_id@),
            "persistent"@,
        ),
        !persistent_exists && job_specific_exists ==> r@ == with_extension(crate::paths::path_join(
            crate::paths::path_join(crate::paths::path_join(paths.root_path(), "worktrees"@), repo_id@),
            run_id@,
        ), job_key@),
        !persistent_exists && !job_specific_exists ==> r@ == crate::paths::path_join(
            crate::paths::path_join(crate::paths::path_join(paths.root_path(), "worktrees"@), repo_id@),
            run_id@,
        ),
{
    if persistent_exists {
        return paths.repo_worktree(repo_id);
    }
    let standard = paths.run_worktree(repo_id, run_id);
    if job_specific_exists {
        path_with_extension(standard.as_str(), job_key)
    } else {
        standard
    }
}

/// The job keeps its worktree after it finishes.
pub open spec fn keeps_worktree(jobs: Seq<(String, JobConfig)>, key: Seq<char>) -> bool {
    exists|i: int| 0 <= i < jobs.len() && key_of(jobs, i) == key && (forall|j: int| 0 <= j < i ==> key_of(jobs, j) != key) && (#[trigger] jobs[i]).1.keep_worktrees
}

/// The worktree of job `key` at `path` is removed after the DAG: it is not
/// the persistent worktree, the job does not keep it, the job is not
/// waiting for approval, and (where `require_final`) the job has finished.
pub open spec fn removable_worktree(
    jobs: Seq<(String, JobConfig)>,
    st: Seq<(Seq<char>, JobStatus)>,
    persistent: Seq<char>,
    require_final: bool,
    key: Seq<char>,
    path: Seq<char>,
) -> bool {
    &&& path != persistent
    &&& !keeps_worktree(jobs, key)
    &&& value_of(st, key) != Some(JobStatus::AwaitingApproval)
    &&& (require_final ==> (value_of(st, key) matches Some(s) && job_final(s)))
}

/// The paths of the removable worktrees among `wts`, in order.
pub open spec fn removable_paths(
    jobs: Seq<(String, JobConfig)>,
    st: Seq<(Seq<char>, JobStatus)>,
    persistent: Seq<char>,
    require_final: bool,
    wts: Seq<(Seq<char>, Seq<char>)>,
) -> Seq<Seq<char>>
    decreases wts.len(),
{
    if wts.len() == 0 {
        Seq::empty()
    } else {
        let rest = removable_paths(jobs, st, persistent, require_final, wts.drop_last());
        if removable_worktree(jobs, st, persistent, require_final, wts.last().0, wts.last().1) {
            rest.push(wts.last().1)
        } else {
            rest
        }
    }
}

fn is_removable(
    workflow: &WorkflowConfig,
    job_statuses: &Vec<(String, JobStatus)>,
    persistent: &str,
    require_final: bool,
    key: &str,
    path: &str,
) -> (r: bool)
    ensures
        r == removable_worktree(
            workflow.jobs@,
            statuses_view(job_statuses@),
            persistent@,
            require_final,
            key@,
            path@,
        ),
{
    let keep = match crate::workflow::find_job(&workflow.jobs, key) {
        Some(j) => workflow.jobs[j].1.keep_worktrees,
        None => false,
    };
    proof {
        if keep {
            let j = choose|j: int|
                0 <= j < workflow.jobs@.len() && key_of(workflow.jobs@, j) == key@ && (forall|m: int|
                    0 <= m < j ==> key_of(workflow.jobs@, m) != key@) && workflow.jobs@[j].1.keep_worktrees;
            assert(keeps_worktree(workflow.jobs@, key@));
        } else if keeps_worktree(workflow.jobs@, key@) {
            let j = choose|j: int|
                0 <= j < workflow.jobs@.len() && key_of(workflow.jobs@, j) == key@ && (forall|m: int|
                    0 <= m < j ==> key_of(workflow.jobs@, m) != key@) && (#[trigger] workflow.jobs@[j]).1.keep_worktrees;
            assert(false);
        }
    }
    let status = lookup_status(job_statuses, key);
    let paused = match status {
        Some(JobStatus::AwaitingApproval) => true,
        _ => false,
    };
    let finished = match status {
        Some(s) => s.is_final(),
        None => false,
    };
    !str_eq(path, persistent) && !keep && !paused && (!require_final || finished)
}

/// The worktrees to remove once a DAG has run, in order (each still to be
/// checked for existence): not the persistent one, not kept by their job,
/// not of a job waiting for approval, and (where `require_final`) of a job
/// that has finished.
pub fn worktrees_to_remove(
    workflow: &WorkflowConfig,
    job_worktrees: &Vec<(String, String)>,
    job_statuses: &Vec<(String, JobStatus)>,
    persistent: &str,
    require_final: bool,
) -> (r: Vec<String>)
    ensures
        r@.map_values(|p: String| p@) == removable_paths(
            workflow.jobs@,
            statuses_view(job_statuses@),
            persistent@,
            require_final,
            paths_view(job_worktrees@),
        ),
{
    let ghost wv = paths_view(job_worktrees@);
    let mut out: Vec<String> = Vec::new();
    let mut i: usize = 0;
    while i < job_worktrees.len()
        invariant
            i <= job_worktrees@.len(),
            wv == paths_view(job_worktrees@),
            out@.map_values(|p: String| p@) == removable_paths(
                workflow.jobs@,
                statuses_view(job_statuses@),
                persistent@,
                require_final,
                wv.take(i as int),
            ),
        decreases job_worktrees.len() - i,
    {
        proof {
            assert(wv.take(i + 1).drop_last() =~= wv.take(i as int));
            assert(wv.take(i + 1).last() == wv[i as int]);
        }
        if is_removable(
            workflow,
            job_statuses,
            persistent,
            require_final,
            job_worktrees[i].0.as_str(),
            job_worktrees[i].1.as_str(),
        ) {
            let ghost before = out@;
            out.push(job_worktrees[i].1.clone());
            proof {
                assert(out@.map_values(|p: String| p@) =~= before.map_values(|p: String| p@).push(
                    job_worktrees@[i as int].1@,
                ));
            }
        }
        i = i + 1;
    }
    proof {
        assert(wv.take(i as int) =~= wv);
    }
    out
}

// =============================================================================
// Run outcomes
// =============================================================================

/// How a run stands once its DAG has run as far as it can.
#[derive(Debug, Clone, Copy, PartialEq, Eq, Structural)]
pub enum RunOutcome {
    /// Some job waits for approval.
    AwaitingApproval,
    /// The run is over.
    Completed { success: bool },
}

/// The outcome of a DAG run: awaiting approval when some job waits for it,
/// else completed, successfully unless some job failed or was skipped.
pub fn dag_run_outcome(job_statuses: &Vec<(String, JobStatus)>, workflow_failed: bool) -> (r:
    RunOutcome)
    ensures
        r == if exists|i: int|
            0 <= i < job_statuses@.len() && (#[trigger] job_statuses@[i]).1
                == JobStatus::AwaitingApproval {
            RunOutcome::AwaitingApproval
        } else {
            RunOutcome::Completed { success: !workflow_failed }
        },
{
    let mut i: usize = 0;
    while i < job_statuses.len()
        invariant
            i <= job_statuses@.len(),
            forall|k: int| 0 <= k < i ==> (#[trigger] job_statuses@[k]).1 != JobStatus::AwaitingApproval,
        decreases job_statuses.len() - i,
    {
        if job_statuses[i].1 == JobStatus::AwaitingApproval {
            return RunOutcome::AwaitingApproval;
        }
        i = i + 1;
    }
    RunOutcome::Completed { success: !workflow_failed }
}

/// What is announced of a run once its jobs have been looked at again.
#[derive(Debug, Clone, Copy, PartialEq, Eq, Structural)]
pub enum RunAnnouncement {
    /// Some job waits for approval and not all are done.
    AwaitingApproval,
    /// All jobs passed.
    Succeeded,
    /// All jobs are done and some failed: the run records the error
    /// "One or more jobs failed".
    Failed,
    /// All jobs are done, none failed, not all passed (some were skipped).
    Ended,
    /// Jobs are still running: nothing to announce.
    Nothing,
}

/// What is announced of a run with these jobs.
pub open spec fn announcement_spec(jobs: Seq<JobResult>) -> RunAnnouncement {
    let all_done = forall|i: int| 0 <= i < jobs.len() ==> job_final(#[trigger] jobs[i].status);
    let any_paused = exists|i: int|
        0 <= i < jobs.len() && (#[trigger] jobs[i]).status == JobStatus::AwaitingApproval;
    let any_failed = exists|i: int| 0 <= i < jobs.len() && (#[trigger] jobs[i]).status == JobStatus::Failed;
    let all_passed = forall|i: int| 0 <= i < jobs.len() ==> (#[trigger] jobs[i]).status == JobStatus::Passed;
    if any_paused && !all_done {
        RunAnnouncement::AwaitingApproval
    } else if all_done {
        if all_passed {
            RunAnnouncement::Succeeded
        } else if any_failed {
            RunAnnouncement::Failed
        } else {
            RunAnnouncement::Ended
        }
    } else {
        RunAnnouncement::Nothing
    }
}

/// Once every job has passed, failed or been skipped, a run with a failed
/// job is announced as failed; one whose jobs all passed as succeeded; any
/// other (some skipped, none failed) as ended.
pub proof fn law_settled_run_announcement(jobs: Seq<JobResult>)
    requires
        forall|i: int|
            0 <= i < jobs.len() ==> (#[trigger] jobs[i]).status == JobStatus::Passed || jobs[i].status
                == JobStatus::Failed || jobs[i].status == JobStatus::Skipped,
    ensures
        (exists|i: int| 0 <= i < jobs.len() && (#[trigger] jobs[i]).status == JobStatus::Failed)
            ==> announcement_spec(jobs) == RunAnnouncement::Failed,
        (forall|i: int| 0 <= i < jobs.len() ==> (#[trigger] jobs[i]).status == JobStatus::Passed)
            ==> announcement_spec(jobs) == RunAnnouncement::Succeeded,
        !(exists|i: int| 0 <= i < jobs.len() && (#[trigger] jobs[i]).status == JobStatus::Failed) && (exists|
            i: int,
        | 0 <= i < jobs.len() && (#[trigger] jobs[i]).status == JobStatus::Skipped)
            ==> announcement_spec(jobs) == RunAnnouncement::Ended,
{
    assert forall|i: int| 0 <= i < jobs.len() implies job_final(#[trigger] jobs[i].status) by {}
    if exists|i: int| 0 <= i < jobs.len() && (#[trigger] jobs[i]).status == JobStatus::Failed {
        let i = choose|i: int| 0 <= i < jobs.len() && (#[trigger] jobs[i]).status == JobStatus::Failed;
        assert(jobs[i].status != JobStatus::Passed);
    }
    if exists|i: int| 0 <= i < jobs.len() && (#[trigger] jobs[i]).status == JobStatus::Skipped {
        let i = choose|i: int| 0 <= i < jobs.len() && (#[trigger] jobs[i]).status == JobStatus::Skipped;
        assert(jobs[i].status != JobStatus::Passed);
    }
}

/// What is announced of a run once its jobs have settled: awaiting
/// approval, succeeded, failed, ended, or (while jobs run) nothing.
pub fn run_announcement(jobs: &[JobResult]) -> (r: RunAnnouncement)
    ensures
        r == announcement_spec(jobs@),
{
    let mut all_done = true;
    let mut any_paused = false;
    let mut any_failed = false;
    let mut all_passed = true;
    let mut i: usize = 0;
    while i < jobs.len()
        invariant
            i <= jobs@.len(),
            all_done == forall|k: int| 0 <= k < i ==> job_final(#[trigger] jobs@[k].status),
            any_paused == exists|k: int|
                0 <= k < i && (#[trigger] jobs@[k]).status == JobStatus::AwaitingApproval,
            any_failed == exists|k: int| 0 <= k < i && (#[trigger] jobs@[k]).status == JobStatus::Failed,
            all_passed == forall|k: int| 0 <= k < i ==> (#[trigger] jobs@[k]).status == JobStatus::Passed,
        decreases jobs.len() - i,
    {
        let s = jobs[i].status;
        if !s.is_final() {
            all_done = false;
        }
        if s == JobStatus::AwaitingApproval {
            any_paused = true;
        }
        if s == JobStatus::Failed {
            any_failed = true;
        }
        if s != JobStatus::Passed {
            all_passed = false;
        }
        i = i + 1;
    }
    if any_paused && !all_done {
        RunAnnouncement::AwaitingApproval
    } else if all_done {
        if all_passed {
            RunAnnouncement::Succeeded
        } else if any_failed {
            RunAnnouncement::Failed
        } else {
            RunAnnouncement::Ended
        }
    } else {
        RunAnnouncement::Nothing
    }
}

/// A run none of whose jobs has failed is never announced as failed, and a
/// run announced as succeeded has only passed jobs.
pub proof fn law_announcement_matches_jobs(jobs: Seq<JobResult>)
    ensures
        announcement_spec(jobs) == RunAnnouncement::Failed ==> exists|i: int|
            0 <= i < jobs.len() && (#[trigger] jobs[i]).status == JobStatus::Failed,
        announcement_spec(jobs) == RunAnnouncement::Succeeded ==> forall|i: int|
            0 <= i < jobs.len() ==> (#[trigger] jobs[i]).status == JobStatus::Passed,
        announcement_spec(jobs) == RunAnnouncement::AwaitingApproval ==> exists|i: int|
            0 <= i < jobs.len() && (#[trigger] jobs[i]).status == JobStatus::AwaitingApproval,
{
}

// =============================================================================
// Job and step records
// =============================================================================

/// The job keys of the waves, in order.
pub open spec fn flat_keys(waves: Seq<Vec<String>>) -> Seq<Seq<char>>
    decreases waves.len(),
{
    if waves.len() == 0 {
        Seq::empty()
    } else {
        flat_keys(waves.drop_last()) + waves.last()@.map_values(|k: String| k@)
    }
}

/// Every key of the waves names a job of the workflow.
pub open spec fn waves_known(jobs: Seq<(String, JobConfig)>, waves: Seq<Vec<String>>) -> bool {
    forall|w: int, k: int|
        0 <= w < waves.len() && 0 <= k < waves[w]@.len() ==> exists|i: int|
            0 <= i < jobs.len() && key_of(jobs, i) == (#[trigger] waves[w]@[k])@
}

/// `i` is the first job with key `key`.
pub open spec fn first_job(jobs: Seq<(String, JobConfig)>, key: Seq<char>, i: int) -> bool {
    0 <= i < jobs.len() && key_of(jobs, i) == key && forall|m: int| 0 <= m < i ==> key_of(jobs, m) != key
}

/// The step records of a job: one pending record per step, in order.
pub open spec fn step_records_ok(
    steps: Seq<StepResult>,
    run_id: Seq<char>,
    job_id: Seq<char>,
    defs: Seq<StepDefinition>,
) -> bool {
    &&& steps.len() == defs.len()
    &&& forall|s: int|
        0 <= s < steps.len() ==> {
            let r = #[trigger] steps[s];
            &&& r.run_id@ == run_id
            &&& r.job_id@ == job_id
            &&& r.name@ == defs[s].name@
            &&& r.status == StepStatus::Pending
            &&& r.step_order == s
            &&& r.exit_code is None
            &&& r.duration_ms is None
            &&& r.error is None
            &&& r.started_at is None
            &&& r.completed_at is None
        }
}

/// The record of a job at position `order`, with key `key`, and its steps.
pub open spec fn job_record_ok(
    rec: (JobResult, Vec<StepResult>),
    run_id: Seq<char>,
    jobs: Seq<(String, JobConfig)>,
    order: int,
    key: Seq<char>,
) -> bool {
    let j = rec.0;
    &&& j.run_id@ == run_id
    &&& j.job_key@ == key
    &&& j.status == JobStatus::Pending
    &&& j.job_order == order
    &&& j.started_at is None
    &&& j.completed_at is None
    &&& j.error is None
    &&& j.worktree_path is None
    &&& exists|i: int|
        first_job(jobs, key, i) && opt_text(j.name) == opt_text((#[trigger] jobs[i]).1.name)
            && step_records_ok(rec.1@, run_id, j.id@, jobs[i].1.steps@)
}

fn copy_opt(o: &Option<String>) -> (r: Option<String>)
    ensures
        opt_text(r) == opt_text(*o),
{
    match o {
        Some(s) => Some(s.clone()),
        None => None,
    }
}

fn plan_steps(run_id: &str, job_id: &str, defs: &Vec<StepDefinition>) -> (r: Vec<StepResult>)
    requires
        defs@.len() <= i32::MAX,
    ensures
        step_records_ok(r@, run_id@, job_id@, defs@),
{
    let mut out: Vec<StepResult> = Vec::new();
    let mut s: usize = 0;
    while s < defs.len()
        invariant
            s <= defs@.len(),
            defs@.len() <= i32::MAX,
            out@.len() == s,
            forall|k: int|
                0 <= k < s ==> {
                    let r = #[trigger] out@[k];
                    &&& r.run_id@ == run_id@
                    &&& r.job_id@ == job_id@
                    &&& r.name@ == defs@[k].name@
                    &&& r.status == StepStatus::Pending
                    &&& r.step_order == k
                    &&& r.exit_code is None
                    &&& r.duration_ms is None
                    &&& r.error is None
                    &&& r.started_at is None
                    &&& r.completed_at is None
                },
        decreases defs.len() - s,
    {
        let order: i32 = s as i32;
        out.push(
            StepResult {
                id: crate::ids::new_id(),
                run_id: run_id.to_string(),
                job_id: job_id.to_string(),
                name: defs[s].name.clone(),
                status: StepStatus::Pending,
                step_order: order,
                exit_code: None,
                duration_ms: None,
                error: None,
                started_at: None,
                completed_at: None,
            },
        );
        s = s + 1;
    }
    out
}

/// The job and step records of a run, job by job in wave order: each job
/// pending, numbered by its position, with fresh identifiers; each step
/// pending, numbered within its job.
pub fn plan_job_records(run_id: &str, workflow: &WorkflowConfig, waves: &Vec<Vec<String>>) -> (r: Vec<
    (JobResult, Vec<StepResult>),
>)
    requires
        waves_known(workflow.jobs@, waves@),
        flat_keys(waves@).len() <= i32::MAX,
        forall|i: int| 0 <= i < workflow.jobs@.len() ==> (#[trigger] workflow.jobs@[i]).1.steps@.len() <= i32::MAX,
    ensures
        r@.len() == flat_keys(waves@).len(),
        forall|x: int|
            0 <= x < r@.len() ==> job_record_ok(#[trigger] r@[x], run_id@, workflow.jobs@, x, flat_keys(waves@)[x]),
{
    let jobs = &workflow.jobs;
    let mut out: Vec<(JobResult, Vec<StepResult>)> = Vec::new();
    let mut w: usize = 0;
    while w < waves.len()
        invariant
            w <= waves@.len(),
            waves_known(jobs@, waves@),
            flat_keys(waves@).len() <= i32::MAX,
            forall|i: int| 0 <= i < jobs@.len() ==> (#[trigger] jobs@[i]).1.steps@.len() <= i32::MAX,
            out@.len() == flat_keys(waves@.take(w as int)).len(),
            forall|x: int|
                0 <= x < out@.len() ==> job_record_ok(
                    #[trigger] out@[x],
                    run_id@,
                    jobs@,
                    x,
                    flat_keys(waves@.take(w as int))[x],
                ),
        decreases waves.len() - w,
    {
        let ghost base = flat_keys(waves@.take(w as int));
        let ghost wave = waves@[w as int]@.map_values(|k: String| k@);
        proof {
            assert(waves@.take(w + 1).drop_last() =~= waves@.take(w as int));
            assert(waves@.take(w + 1).last() == waves@[w as int]);
            assert(flat_keys(waves@.take(w + 1)) == base + wave);
            lemma_flat_keys_prefix(waves@, w as int + 1);
        }
        let wave_keys = &waves[w];
        let mut k: usize = 0;
        while k < wave_keys.len()
            invariant
                w < waves@.len(),
                k <= wave_keys@.len(),
                wave_keys@ == waves@[w as int]@,
                wave == wave_keys@.map_values(|k: String| k@),
                base == flat_keys(waves@.take(w as int)),
                flat_keys(waves@.take(w + 1)) == base + wave,
                flat_keys(waves@.take(w + 1)).len() <= flat_keys(waves@).len(),
                waves_known(jobs@, waves@),
                flat_keys(waves@).len() <= i32::MAX,
                forall|i: int| 0 <= i < jobs@.len() ==> (#[trigger] jobs@[i]).1.steps@.len() <= i32::MAX,
                out@.len() == base.len() + k,
                forall|x: int|
                    0 <= x < out@.len() ==> job_record_ok(
                        #[trigger] out@[x],
                        run_id@,
                        jobs@,
                        x,
                        (base + wave)[x],
                    ),
            decreases wave_keys.len() - k,
        {
            let key = wave_keys[k].as_str();
            proof {
                assert(wave_keys@[k as int] == waves@[w as int]@[k as int]);
                let i0 = choose|i: int|
                    0 <= i < jobs@.len() && key_of(jobs@, i) == (#[trigger] waves@[w as int]@[k as int])@;
            }
            let i = match crate::workflow::find_job(jobs, key) {
                Some(i) => i,
                None => {
                    proof {
                        let i0 = choose|i: int|
                            0 <= i < jobs@.len() && key_of(jobs@, i) == (#[trigger] waves@[w as int]@[k as int])@;
                        assert(key_of(jobs@, i0) != key@);
                    }
                    return out;
                },
            };
            let cfg = &jobs[i].1;
            let job_id = crate::ids::new_id();
            let steps = plan_steps(run_id, job_id.as_str(), &cfg.steps);
            let order: i32 = out.len() as i32;
            let job = JobResult {
                id: job_id,
                run_id: run_id.to_string(),
                job_key: key.to_string(),
                name: copy_opt(&cfg.name),
                status: JobStatus::Pending,
                job_order: order,
                started_at: None,
                completed_at: None,
                error: None,
                worktree_path: None,
            };
            let ghost before = out@;
            out.push((job, steps));
            proof {
                assert((base + wave)[base.len() + k] == key@);
                assert(first_job(jobs@, key@, i as int));
                assert(job_record_ok(out@[out@.len() - 1], run_id@, jobs@, out@.len() - 1, (base + wave)[out@.len() - 1]));
                assert forall|x: int| 0 <= x < out@.len() implies job_record_ok(
                    #[trigger] out@[x],
                    run_id@,
                    jobs@,
                    x,
                    (base + wave)[x],
                ) by {
                    if x < before.len() {
                        assert(out@[x] == before[x]);
                    }
                }
            }
            k = k + 1;
        }
        proof {
            assert(wave.len() == wave_keys@.len());
        }
        w = w + 1;
    }
    proof {
        assert(waves@.take(waves@.len() as int) =~= waves@);
    }
    out
}

proof fn lemma_flat_keys_prefix(waves: Seq<Vec<String>>, w: int)
    requires
        0 <= w <= waves.len(),
    ensures
        flat_keys(waves.take(w)).len() <= flat_keys(waves).len(),
    decreases waves.len() - w,
{
    if w < waves.len() {
        lemma_flat_keys_prefix(waves, w + 1);
        assert(waves.take(w + 1).drop_last() =~= waves.take(w));
    } else {
        assert(waves.take(w) =~= waves);
    }
}

// =============================================================================
// Preparing a run
// =============================================================================

/// Fills in what a run lacks before it starts: a missing branch (empty or
/// bare `refs/heads/`) becomes `refs/heads/` and the push's branch, and a
/// missing head sha becomes that of the first update that does not delete
/// its ref (with that update's old sha as the base).
pub fn prepare_run(run: &mut Run)
    ensures
        final(run).id == old(run).id,
        final(run).repo_id == old(run).repo_id,
        final(run).ref_updates == old(run).ref_updates,
        final(run).error == old(run).error,
        final(run).superseded == old(run).superseded,
        final(run).workflow_file == old(run).workflow_file,
        final(run).workflow_name == old(run).workflow_name,
        final(run).created_at == old(run).created_at,
        final(run).updated_at == old(run).updated_at,
        final(run).current_step == old(run).current_step,
        ({
            let needs = old(run).branch@.len() == 0 || old(run).branch@ == "refs/heads/"@;
            let found = exists|i: int|
                0 <= i < old(run).ref_updates@.len() && names_live_branch(
                    #[trigger] old(run).ref_updates@[i],
                );
            if needs && found {
                exists|i: int|
                    0 <= i < old(run).ref_updates@.len() && names_live_branch(
                        #[trigger] old(run).ref_updates@[i],
                    ) && (forall|k: int|
                        0 <= k < i ==> !names_live_branch(#[trigger] old(run).ref_updates@[k]))
                        && final(run).branch@ == "refs/heads/"@ + old(run).ref_updates@[i].ref_name@.skip(
                        11,
                    )
            } else {
                final(run).branch == old(run).branch
            }
        }),
        old(run).head_sha@.len() != 0 ==> final(run).head_sha == old(run).head_sha && final(run).base_sha == old(run).base_sha,
        old(run).head_sha@.len() == 0 ==> (if exists|i: int|
            0 <= i < old(run).ref_updates@.len() && !null_sha(
                (#[trigger] old(run).ref_updates@[i]).new_sha@,
            ) {
            exists|i: int|
                0 <= i < old(run).ref_updates@.len() && !null_sha(
                    (#[trigger] old(run).ref_updates@[i]).new_sha@,
                ) && (forall|k: int|
                    0 <= k < i ==> null_sha((#[trigger] old(run).ref_updates@[k]).new_sha@))
                    && final(run).head_sha@ == old(run).ref_updates@[i].new_sha@ && final(run).base_sha@ == old(run).ref_updates@[i].old_sha@
        } else {
            final(run).head_sha == old(run).head_sha && final(run).base_sha == old(run).base_sha
        }),
{
    match extract_branch_name(&run.ref_updates) {
        Some(b) => {
            if run.branch.unicode_len() == 0 || str_eq(run.branch.as_str(), "refs/heads/") {
                let mut nb = "refs/heads/".to_string();
                push_str(&mut nb, b.as_str());
                run.branch = nb;
            }
        },
        None => {},
    }
    if run.head_sha.unicode_len() == 0 {
        match first_non_deletion(&run.ref_updates) {
            Some(i) => {
                let h = run.ref_updates[i].new_sha.clone();
                let b = run.ref_updates[i].old_sha.clone();
                run.head_sha = h;
                run.base_sha = b;
            },
            None => {},
        }
    }
}

/// Index of the first update that does not delete its ref.
fn first_non_deletion(ref_updates: &Vec<RefUpdate>) -> (r: Option<usize>)
    ensures
        r matches Some(i) ==> i < ref_updates@.len() && !null_sha(ref_updates@[i as int].new_sha@)
            && forall|k: int| 0 <= k < i ==> null_sha((#[trigger] ref_updates@[k]).new_sha@),
        r is None ==> forall|k: int|
            0 <= k < ref_updates@.len() ==> null_sha((#[trigger] ref_updates@[k]).new_sha@),
{
    let mut i: usize = 0;
    while i < ref_updates.len()
        invariant
            i <= ref_updates@.len(),
            forall|k: int| 0 <= k < i ==> null_sha((#[trigger] ref_updates@[k]).new_sha@),
        decreases ref_updates.len() - i,
    {
        if !is_null_sha(ref_updates[i].new_sha.as_str()) {
            return Some(i);
        }
        i = i + 1;
    }
    None
}

} // verus!
