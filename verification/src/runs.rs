//! What the run handlers decide: repository names for display, the run
//! summaries and details they answer with, and which retries, approvals and
//! cancellations they accept.

use crate::ipc::{
    JobResultInfo, RefUpdateParam, RunDetailInfo, RunInfo, StepResultInfo, INVALID_REPO_STATE,
    INVALID_STEP_STATUS, JOB_NOT_RETRYABLE, STEP_NOT_FOUND,
};
use crate::pipeline::opt_text;
use crate::text::{
    contains, last_index_of, push_str, rfind_char, seq_contains, str_eq, trim_end_matches,
    trim_end_matches_seq,
};
use crate::types::{
    derived_from_jobs, job_status_text, step_status_text, JobResult, JobStatus, RunState, Run,
    StepResult, StepStatus,
};
use crate::workflow::WorkflowConfig;
use vstd::prelude::*;

verus! {

// =============================================================================
// Repository names
// =============================================================================

/// The repository part of an SCP-style address (`user@host:owner/repo`):
/// what follows the last `:`, when there is no `://`, the part before the
/// colon holds an `@`, and the part after is not empty and does not start
/// with a digit (which would be a port).
pub open spec fn scp_path(url: Seq<char>) -> Option<Seq<char>> {
    if seq_contains(url, "://"@) {
        None
    } else {
        match last_index_of(url, ':') {
            None => None,
            Some(c) => {
                let after = url.skip(c + 1);
                if seq_contains(url.take(c), "@"@) && after.len() > 0 && !('0' <= after[0]
                    && after[0] <= '9') {
                    Some(after)
                } else {
                    None
                }
            },
        }
    }
}

/// The `owner/repo` name shown for an upstream URL: for an SCP-style
/// address, its path without trailing `.git`; otherwise the last two
/// `/`-separated segments of the URL without trailing `.git`; and the URL
/// itself when it has no `/`.
pub open spec fn repo_name_spec(url: Seq<char>) -> Seq<char> {
    match scp_path(url) {
        Some(after) => trim_end_matches_seq(after, ".git"@),
        None => {
            let t = trim_end_matches_seq(url, ".git"@);
            match last_index_of(t, '/') {
                None => url,
                Some(p) => {
                    let rest = t.take(p);
                    let last = t.skip(p + 1);
                    let prev = match last_index_of(rest, '/') {
                        Some(q) => rest.skip(q + 1),
                        None => rest,
                    };
                    prev + "/"@ + last
                },
            }
        },
    }
}

/// Extracts a human-readable `owner/repo` name from a git URL (SCP-style
/// SSH, `ssh://`, HTTPS, or a path).
pub fn repo_name_from_url(url: &str) -> (r: String)
    ensures
        r@ == repo_name_spec(url@),
{
    proof {
        reveal_strlit(".git");
        reveal_strlit("@");
        reveal_strlit("/");
    }
    if !contains(url, "://") {
        match rfind_char(url, ':') {
            Some(colon) => {
                let n = url.unicode_len();
                let before = url.substring_char(0, colon);
                let after = url.substring_char(colon + 1, n);
                let after_len = after.unicode_len();
                if contains(before, "@") && after_len > 0 {
                    let c0 = after.get_char(0);
                    if !('0' <= c0 && c0 <= '9') {
                        proof {
                            assert(before@ =~= url@.take(colon as int));
                            assert(after@ =~= url@.skip(colon + 1));
                        }
                        return trim_end_matches(after, ".git").to_string();
                    }
                }
                proof {
                    assert(before@ =~= url@.take(colon as int));
                    assert(after@ =~= url@.skip(colon + 1));
                }
            },
            None => {},
        }
    }
    let t = trim_end_matches(url, ".git");
    match rfind_char(t, '/') {
        None => url.to_string(),
        Some(p) => {
            let n = t.unicode_len();
            let rest = t.substring_char(0, p);
            let last = t.substring_char(p + 1, n);
            proof {
                assert(rest@ =~= t@.take(p as int));
                assert(last@ =~= t@.skip(p + 1));
            }
            let prev = match rfind_char(rest, '/') {
                Some(q) => {
                    let m = rest.unicode_len();
                    let s = rest.substring_char(q + 1, m);
                    proof {
                        assert(s@ =~= rest@.skip(q + 1));
                    }
                    s
                },
                None => rest,
            };
            let mut out = prev.to_string();
            push_str(&mut out, "/");
            push_str(&mut out, last);
            out
        },
    }
}

// =============================================================================
// Run summaries
// =============================================================================

/// The wire name of a run state.
pub open spec fn state_text(s: RunState) -> Seq<char> {
    crate::types::run_state_text(s)
}

/// The latest completion time among the jobs, if any job has one.
pub open spec fn max_completed(jobs: Seq<JobResult>) -> Option<i64>
    decreases jobs.len(),
{
    if jobs.len() == 0 {
        None
    } else {
        let rest = max_completed(jobs.drop_last());
        match jobs.last().completed_at {
            None => rest,
            Some(t) => match rest {
                None => Some(t),
                Some(m) => Some(if t > m {
                    t
                } else {
                    m
                }),
            },
        }
    }
}

/// The run has ended: completed, failed or superseded.
pub open spec fn run_over(s: RunState) -> bool {
    s == RunState::Completed || s == RunState::Failed || s == RunState::Superseded
}

/// When a run in state `state` ended: the latest completion time of its
/// jobs once it is over, else none.
pub fn run_completed_at(state: RunState, jobs: &[JobResult]) -> (r: Option<i64>)
    ensures
        r == if run_over(state) {
            max_completed(jobs@)
        } else {
            None::<i64>
        },
{
    if !(state == RunState::Completed || state == RunState::Failed || state == RunState::Superseded) {
        return None;
    }
    let mut best: Option<i64> = None;
    let mut i: usize = 0;
    while i < jobs.len()
        invariant
            i <= jobs@.len(),
            best == max_completed(jobs@.take(i as int)),
        decreases jobs.len() - i,
    {
        proof {
            assert(jobs@.take(i + 1).drop_last() =~= jobs@.take(i as int));
            assert(jobs@.take(i + 1).last() == jobs@[i as int]);
        }
        match jobs[i].completed_at {
            None => {},
            Some(t) => {
                best = match best {
                    None => Some(t),
                    Some(m) => Some(if t > m { t } else { m }),
                };
            },
        }
        i = i + 1;
    }
    proof {
        assert(jobs@.take(jobs@.len() as int) =~= jobs@);
    }
    best
}

fn copy_opt(o: &Option<String>) -> (r: Option<String>)
    ensures
        opt_text(r) == opt_text(*o),
{
    match o {
        Some(s) => Some(s.clone()),
        None => None,
    }
}

/// The summary of a run: its status derived from its jobs, its branch
/// (none when empty), and when it ended.
pub fn build_run_info(r: &Run, job_results: &[JobResult], repo_name: Option<String>) -> (info: RunInfo)
    ensures
        info.id@ == r.id@,
        opt_text(info.repo_id) == Some(r.repo_id@),
        info.repo_name == repo_name,
        info.status@ == state_text(derived_from_jobs(*r, job_results@)),
        opt_text(info.branch) == if r.branch@.len() == 0 {
            None::<Seq<char>>
        } else {
            Some(r.branch@)
        },
        info.base_sha is None,
        info.head_sha is None,
        opt_text(info.current_step) == opt_text(r.current_step),
        info.created_at == r.created_at,
        info.updated_at == Some(r.updated_at),
        info.completed_at == if run_over(derived_from_jobs(*r, job_results@)) {
            max_completed(job_results@)
        } else {
            None::<i64>
        },
        opt_text(info.error) == opt_text(r.error),
{
    let state = r.derived_state_from_jobs(job_results);
    let completed_at = run_completed_at(state, job_results);
    RunInfo {
        id: r.id.clone(),
        repo_id: Some(r.repo_id.clone()),
        repo_name,
        status: crate::types::run_state_str(state).to_string(),
        branch: if r.branch.unicode_len() == 0 {
            None
        } else {
            Some(r.branch.clone())
        },
        base_sha: None,
        head_sha: None,
        current_step: copy_opt(&r.current_step),
        created_at: r.created_at,
        updated_at: Some(r.updated_at),
        completed_at,
        error: copy_opt(&r.error),
    }
}

/// The detail of a run: its fields, its ref updates, its status derived
/// from its jobs, and when it ended.
pub fn build_run_detail(run: &Run, jobs: &[JobResult]) -> (d: RunDetailInfo)
    ensures
        d.id@ == run.id@,
        d.repo_id@ == run.repo_id@,
        d.status@ == state_text(derived_from_jobs(*run, jobs@)),
        d.branch@ == run.branch@,
        d.base_sha@ == run.base_sha@,
        d.head_sha@ == run.head_sha@,
        opt_text(d.current_step) == opt_text(run.current_step),
        d.workflow_file@ == run.workflow_file@,
        opt_text(d.workflow_name) == opt_text(run.workflow_name),
        d.ref_updates@.len() == run.ref_updates@.len(),
        forall|i: int|
            0 <= i < run.ref_updates@.len() ==> (#[trigger] d.ref_updates@[i]).ref_name@
                == run.ref_updates@[i].ref_name@ && d.ref_updates@[i].old_sha@
                == run.ref_updates@[i].old_sha@ && d.ref_updates@[i].new_sha@
                == run.ref_updates@[i].new_sha@,
        opt_text(d.error) == opt_text(run.error),
        d.created_at == run.created_at,
        d.updated_at == run.updated_at,
        d.completed_at == if run_over(derived_from_jobs(*run, jobs@)) {
            max_completed(jobs@)
        } else {
            None::<i64>
        },
{
    let state = run.derived_state_from_jobs(jobs);
    let completed_at = run_completed_at(state, jobs);
    let mut refs: Vec<RefUpdateParam> = Vec::new();
    let mut i: usize = 0;
    while i < run.ref_updates.len()
        invariant
            i <= run.ref_updates@.len(),
            refs@.len() == i,
            forall|k: int|
                0 <= k < i ==> (#[trigger] refs@[k]).ref_name@ == run.ref_updates@[k].ref_name@
                    && refs@[k].old_sha@ == run.ref_updates@[k].old_sha@ && refs@[k].new_sha@
                    == run.ref_updates@[k].new_sha@,
        decreases run.ref_updates.len() - i,
    {
        let u = &run.ref_updates[i];
        refs.push(
            RefUpdateParam {
                ref_name: u.ref_name.clone(),
                old_sha: u.old_sha.clone(),
                new_sha: u.new_sha.clone(),
            },
        );
        i = i + 1;
    }
    RunDetailInfo {
        id: run.id.clone(),
        repo_id: run.repo_id.clone(),
        status: crate::types::run_state_str(state).to_string(),
        branch: run.branch.clone(),
        base_sha: run.base_sha.clone(),
        head_sha: run.head_sha.clone(),
        current_step: copy_opt(&run.current_step),
        workflow_file: run.workflow_file.clone(),
        workflow_name: copy_opt(&run.workflow_name),
        ref_updates: refs,
        error: copy_opt(&run.error),
        created_at: run.created_at,
        updated_at: run.updated_at,
        completed_at,
    }
}

/// The wire form of a job result.
pub fn job_result_info(jr: &JobResult) -> (i: JobResultInfo)
    ensures
        i.id@ == jr.id@,
        i.job_key@ == jr.job_key@,
        opt_text(i.name) == opt_text(jr.name),
        i.status@ == job_status_text(jr.status),
        i.job_order == jr.job_order,
        i.started_at == jr.started_at,
        i.completed_at == jr.completed_at,
        opt_text(i.error) == opt_text(jr.error),
{
    JobResultInfo {
        id: jr.id.clone(),
        job_key: jr.job_key.clone(),
        name: copy_opt(&jr.name),
        status: crate::types::job_status_to_string(jr.status).to_string(),
        job_order: jr.job_order,
        started_at: jr.started_at,
        completed_at: jr.completed_at,
        error: copy_opt(&jr.error),
    }
}

/// The key of the first job with identifier `id`, or empty.
pub open spec fn job_key_of(jobs: Seq<JobResult>, id: Seq<char>) -> Seq<char>
    decreases jobs.len(),
{
    if jobs.len() == 0 {
        Seq::empty()
    } else if jobs[0].id@ == id {
        jobs[0].job_key@
    } else {
        job_key_of(jobs.drop_first(), id)
    }
}

/// The wire form of a step result, with the key of its job looked up among
/// `jobs` (empty when none matches) and a negative duration wrapped as the
/// unsigned value of the same bits.
pub fn step_result_info(sr: &StepResult, jobs: &[JobResult]) -> (i: StepResultInfo)
    ensures
        i.id@ == sr.id@,
        i.job_id@ == sr.job_id@,
        i.job_key@ == job_key_of(jobs@, sr.job_id@),
        i.step@ == sr.name@,
        i.status@ == step_status_text(sr.status),
        i.exit_code == sr.exit_code,
        i.duration_ms == match sr.duration_ms {
            Some(d) => Some(d as u64),
            None => None::<u64>,
        },
        opt_text(i.error) == opt_text(sr.error),
        i.started_at == sr.started_at,
        i.completed_at == sr.completed_at,
{
    let mut key = String::new();
    let mut k: usize = 0;
    let mut found = false;
    assert(jobs@.skip(0) =~= jobs@);
    while k < jobs.len() && !found
        invariant
            k <= jobs@.len(),
            !found ==> key@ == Seq::<char>::empty(),
            !found ==> job_key_of(jobs@, sr.job_id@) == job_key_of(jobs@.skip(k as int), sr.job_id@),
            found ==> key@ == job_key_of(jobs@, sr.job_id@),
        decreases jobs.len() - k,
    {
        proof {
            assert(jobs@.skip(k as int).drop_first() =~= jobs@.skip(k + 1));
        }
        if str_eq(jobs[k].id.as_str(), sr.job_id.as_str()) {
            key = jobs[k].job_key.clone();
            found = true;
        }
        k = k + 1;
    }
    proof {
        if !found {
            assert(jobs@.skip(jobs@.len() as int).len() == 0);
        }
    }
    StepResultInfo {
        id: sr.id.clone(),
        job_id: sr.job_id.clone(),
        job_key: key,
        step: sr.name.clone(),
        status: crate::types::step_status_to_string(sr.status).to_string(),
        exit_code: sr.exit_code,
        duration_ms: match sr.duration_ms {
            Some(d) => Some(d as u64),
            None => None,
        },
        error: copy_opt(&sr.error),
        started_at: sr.started_at,
        completed_at: sr.completed_at,
    }
}

// =============================================================================
// Retrying a job
// =============================================================================

/// Index of the first job with key `key`.
pub open spec fn job_index(jobs: Seq<JobResult>, key: Seq<char>, i: int) -> bool {
    0 <= i < jobs.len() && jobs[i].job_key@ == key && forall|k: int| 0 <= k < i ==> (#[trigger] jobs[k]).job_key@ != key
}

fn find_job_result(jobs: &[JobResult], key: &str) -> (r: Option<usize>)
    ensures
        r matches Some(i) ==> job_index(jobs@, key@, i as int),
        r is None ==> forall|k: int| 0 <= k < jobs@.len() ==> (#[trigger] jobs@[k]).job_key@ != key@,
{
    let mut i: usize = 0;
    while i < jobs.len()
        invariant
            i <= jobs@.len(),
            forall|k: int| 0 <= k < i ==> (#[trigger] jobs@[k]).job_key@ != key@,
        decreases jobs.len() - i,
    {
        if str_eq(jobs[i].job_key.as_str(), key) {
            return Some(i);
        }
        i = i + 1;
    }
    None
}

/// A job can be retried only once it has failed or was skipped.
pub open spec fn retryable(s: JobStatus) -> bool {
    s == JobStatus::Failed || s == JobStatus::Skipped
}

/// Some job of the run is still pending, running or awaiting approval.
pub open spec fn busy(jobs: Seq<JobResult>) -> bool {
    crate::types::any_job(jobs, |s: JobStatus| crate::types::job_active(s))
}

/// Whether job `job_key` of the run can be retried: not while the run is
/// running (`INVALID_REPO_STATE`); the job must exist (`STEP_NOT_FOUND`) and
/// have failed or been skipped (`JOB_NOT_RETRYABLE`). Gives the job's index.
pub fn check_retry(run: &Run, jobs: &[JobResult], job_key: &str) -> (r: Result<usize, (i32, String)>)
    ensures
        busy(jobs@) ==> (r matches Err(e) && e.0
            == INVALID_REPO_STATE && e.1@ == "Cannot retry a job while the run is still running"@),
        !busy(jobs@) && (forall|k: int|
            0 <= k < jobs@.len() ==> (#[trigger] jobs@[k]).job_key@ != job_key@) ==> (r matches Err(
            e,
        ) && e.0 == STEP_NOT_FOUND && e.1@ == "Job '"@ + job_key@ + "' not found in run "@
            + run.id@),
        r matches Ok(i) ==> !busy(jobs@) && job_index(
            jobs@,
            job_key@,
            i as int,
        ) && retryable(jobs@[i as int].status),
        r is Err && r->Err_0.0 == JOB_NOT_RETRYABLE ==> !busy(jobs@) && exists|i: int|
            job_index(jobs@, job_key@, i) && !retryable(#[trigger] jobs@[i].status) && r->Err_0.1@ == "Job '"@
                + job_key@ + "' has status '"@ + job_status_text(jobs@[i].status)
                + "' \u{2014} only failed or skipped jobs can be retried"@,
        r is Err ==> r->Err_0.0 == INVALID_REPO_STATE || r->Err_0.0 == STEP_NOT_FOUND
            || r->Err_0.0 == JOB_NOT_RETRYABLE,
        forall|i: int|
            !busy(jobs@) && #[trigger] job_index(jobs@, job_key@, i) && !retryable(jobs@[i].status)
                ==> (r matches Err(e) && e.0 == JOB_NOT_RETRYABLE && e.1@ == "Job '"@ + job_key@
                + "' has status '"@ + job_status_text(jobs@[i].status)
                + "' \u{2014} only failed or skipped jobs can be retried"@),
        !busy(jobs@) && (exists|i: int|
            job_index(jobs@, job_key@, i) && retryable(#[trigger] jobs@[i].status)) ==> r is Ok,
{
    if run.is_running_from_jobs(jobs) {
        return Err((INVALID_REPO_STATE, "Cannot retry a job while the run is still running".to_string()));
    }
    match find_job_result(jobs, job_key) {
        None => {
            let mut m = "Job '".to_string();
            push_str(&mut m, job_key);
            push_str(&mut m, "' not found in run ");
            push_str(&mut m, run.id.as_str());
            Err((STEP_NOT_FOUND, m))
        },
        Some(i) => {
            let s = jobs[i].status;
            if s != JobStatus::Failed && s != JobStatus::Skipped {
                let mut m = "Job '".to_string();
                push_str(&mut m, job_key);
                push_str(&mut m, "' has status '");
                push_str(&mut m, crate::types::job_status_to_string(s));
                push_str(&mut m, "' \u{2014} only failed or skipped jobs can be retried");
                Err((JOB_NOT_RETRYABLE, m))
            } else {
                proof {
                    if exists|j: int| job_index(jobs@, job_key@, j) && retryable(#[trigger] jobs@[j].status) {
                    }
                }
                Ok(i)
            }
        },
    }
}

/// Some job with key `key` depends on `target`, directly or transitively.
pub open spec fn downstream_key(
    jobs: Seq<(String, crate::workflow::JobConfig)>,
    target: Seq<char>,
    key: Seq<char>,
) -> bool {
    exists|i: int|
        0 <= i < jobs.len() && crate::workflow::key_of(jobs, i) == key
            && #[trigger] crate::workflow::is_downstream(jobs, target, i)
}

/// The jobs a retry resets: the job itself, then every job downstream of it.
pub fn retry_reset_keys(job_key: &str, workflow: &WorkflowConfig) -> (r: Vec<String>)
    ensures
        r@.len() >= 1,
        r@[0]@ == job_key@,
        forall|x: int|
            1 <= x < r@.len() ==> downstream_key(workflow.jobs@, job_key@, (#[trigger] r@[x])@),
        forall|i: int|
            0 <= i < workflow.jobs@.len() && #[trigger] crate::workflow::is_downstream(
                workflow.jobs@,
                job_key@,
                i,
            ) ==> exists|x: int| 1 <= x < r@.len() && r@[x]@ == crate::workflow::key_of(workflow.jobs@, i),
{
    let downstream = crate::workflow::collect_downstream(job_key, workflow);
    let mut out: Vec<String> = Vec::new();
    out.push(job_key.to_string());
    let mut i: usize = 0;
    while i < downstream.len()
        invariant
            i <= downstream@.len(),
            out@.len() == i + 1,
            out@[0]@ == job_key@,
            forall|k: int| 0 <= k < i ==> out@[k + 1] == downstream@[k],
        decreases downstream.len() - i,
    {
        out.push(downstream[i].clone());
        i = i + 1;
    }
    proof {
        assert forall|x: int| 1 <= x < out@.len() implies downstream_key(
            workflow.jobs@,
            job_key@,
            (#[trigger] out@[x])@,
        ) by {
            assert(out@[x] == downstream@[x - 1]);
            let i = choose|i: int|
                0 <= i < workflow.jobs@.len() && crate::workflow::key_of(workflow.jobs@, i) == (
                #[trigger] downstream@[x - 1])@ && crate::workflow::is_downstream(workflow.jobs@, job_key@, i);
            assert(crate::workflow::key_of(workflow.jobs@, i) == out@[x]@);
        }
        assert forall|i: int|
            0 <= i < workflow.jobs@.len() && #[trigger] crate::workflow::is_downstream(
                workflow.jobs@,
                job_key@,
                i,
            ) implies exists|x: int| 1 <= x < out@.len() && out@[x]@ == crate::workflow::key_of(workflow.jobs@, i) by {
            let y = choose|y: int| 0 <= y < downstream@.len() && downstream@[y]@ == crate::workflow::key_of(workflow.jobs@, i);
            assert(out@[y + 1] == downstream@[y]);
        }
    }
    out
}

/// The index of the first job with key `key`, if any.
pub open spec fn job_position(jobs: Seq<JobResult>, key: Seq<char>) -> Option<int> {
    if exists|j: int| job_index(jobs, key, j) {
        Some(choose|j: int| job_index(jobs, key, j))
    } else {
        None
    }
}

/// The jobs a retry resets (with their steps): for each key of `keys`, in
/// order, the first job with that key; keys without a job are passed over.
pub open spec fn reset_positions(jobs: Seq<JobResult>, keys: Seq<Seq<char>>) -> Seq<int>
    decreases keys.len(),
{
    if keys.len() == 0 {
        Seq::empty()
    } else {
        let prev = reset_positions(jobs, keys.drop_last());
        match job_position(jobs, keys.last()) {
            Some(j) => prev.push(j),
            None => prev,
        }
    }
}

/// Which job records a retry resets to pending, with their steps: those
/// of the reset keys (the job itself and its downstream jobs), and no other.
pub fn jobs_to_reset(jobs: &[JobResult], reset_keys: &Vec<String>) -> (r: Vec<usize>)
    ensures
        r@.map_values(|j: usize| j as int) == reset_positions(jobs@, reset_keys@.map_values(|k: String| k@)),
{
    let ghost kv = reset_keys@.map_values(|k: String| k@);
    let mut out: Vec<usize> = Vec::new();
    let mut i: usize = 0;
    while i < reset_keys.len()
        invariant
            i <= reset_keys@.len(),
            kv == reset_keys@.map_values(|k: String| k@),
            out@.map_values(|j: usize| j as int) == reset_positions(jobs@, kv.take(i as int)),
        decreases reset_keys.len() - i,
    {
        proof {
            assert(kv.take(i + 1).drop_last() =~= kv.take(i as int));
            assert(kv.take(i + 1).last() == reset_keys@[i as int]@);
        }
        match find_job_result(jobs, reset_keys[i].as_str()) {
            Some(j) => {
                proof {
                    let c = choose|c: int| job_index(jobs@, reset_keys@[i as int]@, c);
                    lemma_job_index_unique(jobs@, reset_keys@[i as int]@, c, j as int);
                }
                let ghost before = out@.map_values(|x: usize| x as int);
                out.push(j);
                proof {
                    assert(out@.map_values(|x: usize| x as int) =~= before.push(j as int));
                }
            },
            None => {
                proof {
                    assert(!exists|c: int| job_index(jobs@, reset_keys@[i as int]@, c));
                }
            },
        }
        i = i + 1;
    }
    proof {
        assert(kv.take(i as int) =~= kv);
    }
    out
}

/// The run's error is cleared on a retry only when no job outside the reset
/// set has failed.
pub fn should_clear_run_error(jobs: &[JobResult], reset_jobs: &Vec<String>) -> (r: bool)
    ensures
        r == !exists|i: int|
            0 <= i < jobs@.len() && (#[trigger] jobs@[i]).status == JobStatus::Failed && !(exists|
                k: int,
            | 0 <= k < reset_jobs@.len() && reset_jobs@[k]@ == jobs@[i].job_key@),
{
    let mut i: usize = 0;
    while i < jobs.len()
        invariant
            i <= jobs@.len(),
            forall|j: int|
                0 <= j < i ==> !((#[trigger] jobs@[j]).status == JobStatus::Failed && !(exists|k: int|
                    0 <= k < reset_jobs@.len() && reset_jobs@[k]@ == jobs@[j].job_key@)),
        decreases jobs.len() - i,
    {
        if jobs[i].status == JobStatus::Failed && !crate::workflow::needs_contains(
            reset_jobs,
            jobs[i].job_key.as_str(),
        ) {
            return false;
        }
        i = i + 1;
    }
    true
}

// =============================================================================
// Approving a step, cancelling a run
// =============================================================================

/// The identifier of the first job with key `key`, if any.
pub open spec fn job_id_for(jobs: Seq<JobResult>, key: Seq<char>) -> Option<Seq<char>> {
    if exists|j: int| job_index(jobs, key, j) {
        Some(jobs[choose|j: int| job_index(jobs, key, j)].id@)
    } else {
        None
    }
}

/// Step `s` is the step `name` of the job whose identifier is `job_id`.
pub open spec fn names_step(s: StepResult, job_id: Option<Seq<char>>, name: Seq<char>) -> bool {
    s.name@ == name && job_id == Some(s.job_id@)
}

/// Step `i` is the first step named `name` of the job `job_id`.
pub open spec fn first_named_step(steps: Seq<StepResult>, job_id: Option<Seq<char>>, name: Seq<char>, i: int) -> bool {
    0 <= i < steps.len() && names_step(steps[i], job_id, name) && forall|k: int|
        0 <= k < i ==> !names_step(#[trigger] steps[k], job_id, name)
}

proof fn lemma_job_index_unique(jobs: Seq<JobResult>, key: Seq<char>, a: int, b: int)
    requires
        job_index(jobs, key, a),
        job_index(jobs, key, b),
    ensures
        a == b,
{
    if a < b {
        assert(jobs[a].job_key@ != key);
    } else if b < a {
        assert(jobs[b].job_key@ != key);
    }
}

/// `r` answers an approval of step `step_name` of job `job_key`: the
/// index of that step when it awaits approval, `INVALID_STEP_STATUS` when it
/// does not, `STEP_NOT_FOUND` when the job has no such step.
pub open spec fn approval_answer(
    jobs: Seq<JobResult>,
    steps: Seq<StepResult>,
    job_key: Seq<char>,
    step_name: Seq<char>,
    r: Result<usize, (i32, String)>,
) -> bool {
    &&& forall|i: int|
        #[trigger] first_named_step(steps, job_id_for(jobs, job_key), step_name, i) ==> (if steps[i].status
            == StepStatus::AwaitingApproval {
            r == Ok::<usize, (i32, String)>(i as usize)
        } else {
            r matches Err(e) && e.0 == INVALID_STEP_STATUS && e.1@ == "Step '"@ + step_name
                + "' is not awaiting approval (status: "@ + crate::types::step_status_variant(steps[i].status)
                + ")"@
        })
    &&& (forall|k: int| 0 <= k < steps.len() ==> !names_step(#[trigger] steps[k], job_id_for(jobs, job_key), step_name))
        ==> (r matches Err(e) && e.0 == STEP_NOT_FOUND && e.1@ == "Step '"@ + step_name + "' not found in run"@)
    &&& r matches Ok(i) ==> first_named_step(steps, job_id_for(jobs, job_key), step_name, i as int)
        && steps[i as int].status == StepStatus::AwaitingApproval
}

/// Which step an approval names: the first step called `step_name` of the
/// (first) job with key `job_key`, which must await approval. Refused with
/// `STEP_NOT_FOUND` when that job has no such step (or there is no such
/// job), and with `INVALID_STEP_STATUS` when the step does not await
/// approval.
pub fn step_to_approve(jobs: &[JobResult], steps: &[StepResult], job_key: &str, step_name: &str) -> (r:
    Result<usize, (i32, String)>)
    ensures
        approval_answer(jobs@, steps@, job_key@, step_name@, r),
{
    let ghost jid = job_id_for(jobs@, job_key@);
    let job_id: Option<&str> = match find_job_result(jobs, job_key) {
        Some(j) => {
            proof {
                assert(job_index(jobs@, job_key@, j as int));
                let c = choose|c: int| job_index(jobs@, job_key@, c);
                lemma_job_index_unique(jobs@, job_key@, c, j as int);
            }
            Some(jobs[j].id.as_str())
        },
        None => {
            proof {
                assert(!exists|c: int| job_index(jobs@, job_key@, c));
            }
            None
        },
    };
    proof {
        assert(match job_id { Some(t) => jid == Some(t@), None => jid is None });
    }
    let mut i: usize = 0;
    while i < steps.len()
        invariant
            i <= steps@.len(),
            jid == job_id_for(jobs@, job_key@),
            match job_id { Some(t) => jid == Some(t@), None => jid is None },
            forall|k: int| 0 <= k < i ==> !names_step(#[trigger] steps@[k], jid, step_name@),
        decreases steps.len() - i,
    {
        let hit = match job_id {
            Some(t) => str_eq(steps[i].name.as_str(), step_name) && str_eq(steps[i].job_id.as_str(), t),
            None => false,
        };
        if hit {
            proof {
                assert(first_named_step(steps@, jid, step_name@, i as int));
                assert forall|x: int| #[trigger] first_named_step(steps@, jid, step_name@, x) implies x == i by {
                    if x < i {
                        assert(!names_step(steps@[x], jid, step_name@));
                    } else if x > i {
                        assert(!names_step(steps@[i as int], jid, step_name@));
                    }
                }
            }
            if steps[i].status != StepStatus::AwaitingApproval {
                let mut m = "Step '".to_string();
                push_str(&mut m, step_name);
                push_str(&mut m, "' is not awaiting approval (status: ");
                push_str(&mut m, crate::types::step_status_variant_name(steps[i].status));
                push_str(&mut m, ")");
                proof {
                    assert(names_step(steps@[i as int], jid, step_name@));
                    assert(m@ == "Step '"@ + step_name@ + "' is not awaiting approval (status: "@
                        + crate::types::step_status_variant(steps@[i as int].status) + ")"@);
                }
                return Err((INVALID_STEP_STATUS, m));
            }
            return Ok(i);
        }
        proof {
            assert(!names_step(steps@[i as int], jid, step_name@));
        }
        i = i + 1;
    }
    let mut m = "Step '".to_string();
    push_str(&mut m, step_name);
    push_str(&mut m, "' not found in run");
    Err((STEP_NOT_FOUND, m))
}

/// A step once approved: passed, completed at `now`.
pub open spec fn approved(s: StepResult, now: i64) -> StepResult {
    StepResult { status: StepStatus::Passed, completed_at: Some(now), ..s }
}

/// A job once its step has been approved: running again.
pub open spec fn resumed(j: JobResult) -> JobResult {
    JobResult { status: JobStatus::Running, ..j }
}

/// Approves step `step_name` of job `job_key`: refused as `step_to_approve`
/// says, changing nothing; otherwise the step becomes passed (completed at
/// `now`) and the job with that key running again. Gives the step's index.
pub fn approve_step(
    jobs: &mut Vec<JobResult>,
    steps: &mut Vec<StepResult>,
    job_key: &str,
    step_name: &str,
    now: i64,
) -> (r: Result<usize, (i32, String)>)
    ensures
        approval_answer(old(jobs)@, old(steps)@, job_key@, step_name@, r),
        r is Err ==> final(jobs)@ == old(jobs)@ && final(steps)@ == old(steps)@,
        r matches Ok(i) ==> final(steps)@ == old(steps)@.update(i as int, approved(old(steps)@[i as int], now)),
        r is Ok ==> forall|j: int|
            job_index(old(jobs)@, job_key@, j) ==> final(jobs)@ == old(jobs)@.update(j, resumed(old(jobs)@[j])),
{
    let r = step_to_approve(jobs.as_slice(), steps.as_slice(), job_key, step_name);
    match r {
        Err(e) => Err(e),
        Ok(i) => {
            let mut step = steps.remove(i);
            step.status = StepStatus::Passed;
            step.completed_at = Some(now);
            steps.insert(i, step);
            proof {
                assert(steps@ =~= old(steps)@.update(i as int, approved(old(steps)@[i as int], now)));
            }
            match find_job_result(jobs.as_slice(), job_key) {
                Some(j) => {
                    let mut job = jobs.remove(j);
                    job.status = JobStatus::Running;
                    jobs.insert(j, job);
                    proof {
                        assert(jobs@ =~= old(jobs)@.update(j as int, resumed(old(jobs)@[j as int])));
                        assert forall|x: int| job_index(old(jobs)@, job_key@, x) implies x == j by {
                            if x < j {
                                assert(old(jobs)@[x].job_key@ != job_key@);
                            } else if x > j {
                                assert(old(jobs)@[j as int].job_key@ != job_key@);
                            }
                        }
                    }
                },
                None => {},
            }
            Ok(i)
        },
    }
}

/// The workflow has a job with key `key`.
pub open spec fn has_job(wf: WorkflowConfig, key: Seq<char>) -> bool {
    exists|j: int| 0 <= j < wf.jobs@.len() && crate::workflow::key_of(wf.jobs@, j) == key
}

/// Index of the first workflow that has a job with key `job_key`: the
/// workflow a paused job resumes in.
pub fn workflow_with_job(workflows: &Vec<(String, WorkflowConfig)>, job_key: &str) -> (r: Option<usize>)
    ensures
        r matches Some(i) ==> i < workflows@.len() && has_job(workflows@[i as int].1, job_key@)
            && forall|k: int| 0 <= k < i ==> !has_job((#[trigger] workflows@[k]).1, job_key@),
        r is None ==> forall|k: int| 0 <= k < workflows@.len() ==> !has_job((#[trigger] workflows@[k]).1, job_key@),
{
    let mut i: usize = 0;
    while i < workflows.len()
        invariant
            i <= workflows@.len(),
            forall|k: int| 0 <= k < i ==> !has_job((#[trigger] workflows@[k]).1, job_key@),
        decreases workflows.len() - i,
    {
        match crate::workflow::find_job(&workflows[i].1.jobs, job_key) {
            Some(_) => {
                return Some(i);
            },
            None => {},
        }
        i = i + 1;
    }
    None
}

/// Index of the step after the approved one in the job's definition: the
/// steps from there on still have to run. `None` when the job has no step
/// with that name.
pub fn resume_index(job_config: &crate::workflow::JobConfig, step_name: &str) -> (r: Option<usize>)
    ensures
        r matches Some(i) ==> 1 <= i <= job_config.steps@.len() && job_config.steps@[i - 1].name@
            == step_name@ && forall|k: int|
            0 <= k < i - 1 ==> (#[trigger] job_config.steps@[k]).name@ != step_name@,
        r is None ==> forall|k: int|
            0 <= k < job_config.steps@.len() ==> (#[trigger] job_config.steps@[k]).name@ != step_name@,
{
    let mut i: usize = 0;
    while i < job_config.steps.len()
        invariant
            i <= job_config.steps@.len(),
            forall|k: int| 0 <= k < i ==> (#[trigger] job_config.steps@[k]).name@ != step_name@,
        decreases job_config.steps.len() - i,
    {
        if str_eq(job_config.steps[i].name.as_str(), step_name) {
            return Some(i + 1);
        }
        i = i + 1;
    }
    None
}

/// How a job resumes after one of its steps was approved.
#[derive(Debug, Clone, Copy, PartialEq, Eq, Structural)]
pub enum ResumePlan {
    /// No workflow of the run has the job: nothing resumes.
    JobNotFound,
    /// The job (in workflow `workflow`, as job `job`) has no step with the
    /// approved name: nothing resumes.
    StepNotFound { workflow: usize, job: usize },
    /// The approved step was the job's last: the job has passed, and the
    /// DAG moves on from it.
    JobDone { workflow: usize, job: usize },
    /// The job's steps from `first_step` on are to run, in its worktree.
    RunFrom { workflow: usize, job: usize, first_step: usize },
}

/// How job `job_key` resumes after its step `step_name` was approved: in
/// the first workflow that has the job, from the step after the first one
/// with that name.
pub fn plan_resume(workflows: &Vec<(String, WorkflowConfig)>, job_key: &str, step_name: &str) -> (r: ResumePlan)
    ensures
        r == ResumePlan::JobNotFound <==> forall|k: int|
            0 <= k < workflows@.len() ==> !has_job((#[trigger] workflows@[k]).1, job_key@),
        r matches ResumePlan::StepNotFound { workflow, job } ==> {
            &&& workflow < workflows@.len() && has_job(workflows@[workflow as int].1, job_key@)
            &&& forall|k: int| 0 <= k < workflow ==> !has_job((#[trigger] workflows@[k]).1, job_key@)
            &&& crate::pipeline::first_job(workflows@[workflow as int].1.jobs@, job_key@, job as int)
            &&& forall|k: int|
                0 <= k < workflows@[workflow as int].1.jobs@[job as int].1.steps@.len() ==> (
                #[trigger] workflows@[workflow as int].1.jobs@[job as int].1.steps@[k]).name@ != step_name@
        },
        r matches ResumePlan::JobDone { workflow, job } ==> {
            &&& workflow < workflows@.len() && has_job(workflows@[workflow as int].1, job_key@)
            &&& forall|k: int| 0 <= k < workflow ==> !has_job((#[trigger] workflows@[k]).1, job_key@)
            &&& crate::pipeline::first_job(workflows@[workflow as int].1.jobs@, job_key@, job as int)
            &&& {
                let steps = workflows@[workflow as int].1.jobs@[job as int].1.steps@;
                steps.len() >= 1 && steps[steps.len() - 1].name@ == step_name@ && forall|k: int|
                    0 <= k < steps.len() - 1 ==> (#[trigger] steps[k]).name@ != step_name@
            }
        },
        r matches ResumePlan::RunFrom { workflow, job, first_step } ==> {
            &&& workflow < workflows@.len() && has_job(workflows@[workflow as int].1, job_key@)
            &&& forall|k: int| 0 <= k < workflow ==> !has_job((#[trigger] workflows@[k]).1, job_key@)
            &&& crate::pipeline::first_job(workflows@[workflow as int].1.jobs@, job_key@, job as int)
            &&& {
                let steps = workflows@[workflow as int].1.jobs@[job as int].1.steps@;
                1 <= first_step < steps.len() && steps[first_step - 1].name@ == step_name@ && forall|k: int|
                    0 <= k < first_step - 1 ==> (#[trigger] steps[k]).name@ != step_name@
            }
        },
{
    match workflow_with_job(workflows, job_key) {
        None => ResumePlan::JobNotFound,
        Some(w) => {
            match crate::workflow::find_job(&workflows[w].1.jobs, job_key) {
                None => {
                    proof {
                        let j = choose|j: int|
                            0 <= j < workflows@[w as int].1.jobs@.len() && crate::workflow::key_of(
                                workflows@[w as int].1.jobs@,
                                j,
                            ) == job_key@;
                        assert(crate::workflow::key_of(workflows@[w as int].1.jobs@, j) != job_key@);
                    }
                    ResumePlan::JobNotFound
                },
                Some(j) => {
                    let cfg = &workflows[w].1.jobs[j].1;
                    match resume_index(cfg, step_name) {
                        None => ResumePlan::StepNotFound { workflow: w, job: j },
                        Some(i) => {
                            if i == cfg.steps.len() {
                                ResumePlan::JobDone { workflow: w, job: j }
                            } else {
                                ResumePlan::RunFrom { workflow: w, job: j, first_step: i }
                            }
                        },
                    }
                },
            }
        },
    }
}

/// A run can be reprocessed only when no job is pending, running or
/// awaiting approval; refused with
/// `INVALID_REPO_STATE` otherwise.
pub fn check_reprocess(run: &Run, jobs: &[JobResult]) -> (r: Result<(), (i32, String)>)
    ensures
        busy(jobs@) ==> (r matches Err(e) && e.0 == INVALID_REPO_STATE && e.1@
            == "Cannot reprocess a run that is still running"@),
        !busy(jobs@) ==> r is Ok,
{
    if run.is_running_from_jobs(jobs) {
        Err((INVALID_REPO_STATE, "Cannot reprocess a run that is still running".to_string()))
    } else {
        Ok(())
    }
}

/// A run can be cancelled only while some job is pending, running or
/// awaiting approval; refused with `INVALID_REPO_STATE` otherwise.
pub fn check_cancel(run: &Run, jobs: &[JobResult]) -> (r: Result<(), (i32, String)>)
    ensures
        !busy(jobs@) ==> (r matches Err(e) && e.0 == INVALID_REPO_STATE && e.1@
            == "Cannot cancel a run that is not running"@),
        busy(jobs@) ==> r is Ok,
{
    if run.is_running_from_jobs(jobs) {
        Ok(())
    } else {
        Err((INVALID_REPO_STATE, "Cannot cancel a run that is not running".to_string()))
    }
}

/// The refs whose runs a cancellation stops: the run's branch ref, or, for
/// a run without a branch, every run of the repository.
pub fn cancel_ref_names(branch: &str) -> (r: Option<Vec<String>>)
    ensures
        branch@.len() == 0 ==> r is None,
        branch@.len() != 0 ==> (r matches Some(v) && v@.len() == 1 && v@[0]@ == "refs/heads/"@
            + branch@),
{
    if branch.unicode_len() == 0 {
        None
    } else {
        let mut s = "refs/heads/".to_string();
        push_str(&mut s, branch);
        let mut v: Vec<String> = Vec::new();
        v.push(s);
        Some(v)
    }
}

/// Whether some job is running (then the pipeline itself reports the
/// cancellation; otherwise the handler does).
pub fn has_running_jobs(jobs: &[JobResult]) -> (r: bool)
    ensures
        r == exists|i: int| 0 <= i < jobs@.len() && (#[trigger] jobs@[i]).status == JobStatus::Running,
{
    let mut i: usize = 0;
    while i < jobs.len()
        invariant
            i <= jobs@.len(),
            forall|k: int| 0 <= k < i ==> (#[trigger] jobs@[k]).status != JobStatus::Running,
        decreases jobs.len() - i,
    {
        if jobs[i].status == JobStatus::Running {
            return true;
        }
        i = i + 1;
    }
    false
}

// =============================================================================
// Listing runs across repositories
// =============================================================================

/// Some run of `runs` has identifier `id`.
pub open spec fn lists_id(runs: Seq<RunInfo>, id: Seq<char>) -> bool {
    exists|i: int| 0 <= i < runs.len() && (#[trigger] runs[i]).id@ == id
}

/// The runs of `extra` added to the listing `main`: those not already
/// listed that are running or awaiting approval, in order.
pub open spec fn added_active(main: Seq<RunInfo>, extra: Seq<RunInfo>) -> Seq<RunInfo>
    decreases extra.len(),
{
    if extra.len() == 0 {
        Seq::empty()
    } else {
        let rest = added_active(main, extra.drop_last());
        let x = extra.last();
        if !lists_id(main, x.id@) && (x.status@ == "running"@ || x.status@ == "awaiting_approval"@) {
            rest.push(x)
        } else {
            rest
        }
    }
}

fn lists_run_id(runs: &Vec<RunInfo>, id: &str) -> (r: bool)
    ensures
        r == lists_id(runs@, id@),
{
    let mut i: usize = 0;
    while i < runs.len()
        invariant
            i <= runs@.len(),
            forall|k: int| 0 <= k < i ==> (#[trigger] runs@[k]).id@ != id@,
        decreases runs.len() - i,
    {
        if str_eq(runs[i].id.as_str(), id) {
            return true;
        }
        i = i + 1;
    }
    false
}

/// The listing of runs across repositories: the most recent runs, plus the
/// active runs outside that window (so that no running or paused run is
/// missing), newest first.
pub fn merge_active_runs(main: Vec<RunInfo>, extra: Vec<RunInfo>) -> (r: Vec<RunInfo>)
    ensures
        r@ == crate::artifacts::newest_first(main@ + added_active(main@, extra@)),
{
    let ghost m0 = main@;
    let ghost orig = extra@;
    let mut all = main;
    let mut rest = extra;
    let mut added: Vec<RunInfo> = Vec::new();
    let mut i: usize = 0;
    assert(orig.len() == rest.len());
    while rest.len() > 0
        invariant
            i <= orig.len(),
            orig.len() <= usize::MAX,
            rest@ == orig.skip(i as int),
            all@ == m0,
            added@ == added_active(m0, orig.take(i as int)),
        decreases rest.len(),
    {
        let x = rest.remove(0);
        proof {
            assert(orig.take(i + 1).drop_last() =~= orig.take(i as int));
            assert(orig.take(i + 1).last() == x);
            assert(rest@ =~= orig.skip(i + 1));
        }
        let listed = lists_run_id(&all, x.id.as_str());
        if !listed && (str_eq(x.status.as_str(), "running") || str_eq(x.status.as_str(), "awaiting_approval")) {
            added.push(x);
        }
        i = i + 1;
    }
    proof {
        assert(orig.take(i as int) =~= orig);
    }
    let ghost a = added@;
    all.append(&mut added);
    assert(all@ =~= m0 + a);
    crate::artifacts::sort_runs_newest_first(all)
}

} // verus!
