use airlock::ipc::{INVALID_REPO_STATE, INVALID_STEP_STATUS, JOB_NOT_RETRYABLE, STEP_NOT_FOUND};
use airlock::runs::{
    build_run_detail, build_run_info, cancel_ref_names, check_cancel, check_reprocess, check_retry,
    has_running_jobs,
    repo_name_from_url, resume_index, retry_reset_keys, run_completed_at,
    should_clear_run_error, step_to_approve, approve_step, jobs_to_reset, plan_resume, ResumePlan,
};
use airlock::types::{
    ApprovalMode, JobResult, JobStatus, RefUpdate, Run, RunState, StepDefinition, StepResult,
    StepStatus,
};
use airlock::workflow::{collect_downstream, job_keys_unique, JobConfig, WorkflowConfig};
use std::collections::BTreeMap;

fn job_config(needs: &[&str], steps: &[&str]) -> JobConfig {
    JobConfig {
        name: None,
        needs: needs.iter().map(|s| s.to_string()).collect(),
        steps: steps
            .iter()
            .map(|s| StepDefinition {
                name: s.to_string(),
                run: Some("true".to_string()),
                uses: None,
                shell: None,
                env: BTreeMap::new(),
                continue_on_error: false,
                require_approval: ApprovalMode::Never,
                timeout: None,
                apply_patch: false,
            })
            .collect(),
        keep_worktrees: false,
    }
}

fn make_workflow(jobs: &[(&str, &[&str])]) -> WorkflowConfig {
    WorkflowConfig {
        name: None,
        jobs: jobs.iter().map(|(k, needs)| (k.to_string(), job_config(needs, &[]))).collect(),
    }
}

fn run() -> Run {
    Run {
        id: "run-1".to_string(),
        repo_id: "repo-1".to_string(),
        ref_updates: vec![RefUpdate {
            ref_name: "refs/heads/main".to_string(),
            old_sha: "a".to_string(),
            new_sha: "b".to_string(),
        }],
        branch: "main".to_string(),
        base_sha: "a".to_string(),
        head_sha: "b".to_string(),
        current_step: None,
        error: Some("boom".to_string()),
        superseded: false,
        workflow_file: "main.yml".to_string(),
        workflow_name: Some("CI".to_string()),
        created_at: 100,
        updated_at: 200,
    }
}

fn job(key: &str, status: JobStatus, completed_at: Option<i64>) -> JobResult {
    JobResult {
        id: format!("id-{}", key),
        run_id: "run-1".to_string(),
        job_key: key.to_string(),
        name: None,
        status,
        job_order: 0,
        started_at: None,
        completed_at,
        error: None,
        worktree_path: None,
    }
}

fn step(name: &str, status: StepStatus) -> StepResult {
    step_of("a", name, status)
}

fn step_of(job_key: &str, name: &str, status: StepStatus) -> StepResult {
    StepResult {
        id: format!("s-{}-{}", job_key, name),
        run_id: "run-1".to_string(),
        job_id: format!("id-{}", job_key),
        name: name.to_string(),
        status,
        step_order: 0,
        exit_code: None,
        duration_ms: None,
        error: None,
        started_at: None,
        completed_at: None,
    }
}

#[test]
fn test_scp_ssh_with_dot_git() {
    assert_eq!(repo_name_from_url("git@github.com:user/repo.git"), "user/repo");
}

#[test]
fn test_scp_ssh_without_dot_git() {
    assert_eq!(repo_name_from_url("git@github.com:user/repo"), "user/repo");
}

#[test]
fn test_scp_ssh_nested_path() {
    assert_eq!(repo_name_from_url("git@gitlab.com:org/sub/repo.git"), "org/sub/repo");
}

#[test]
fn test_scp_ssh_custom_host() {
    assert_eq!(repo_name_from_url("deploy@internal.example.com:team/project.git"), "team/project");
}

#[test]
fn test_ssh_scheme_standard() {
    assert_eq!(repo_name_from_url("ssh://git@github.com/user/repo.git"), "user/repo");
}

#[test]
fn test_ssh_scheme_with_port() {
    assert_eq!(repo_name_from_url("ssh://git@host:22/user/repo.git"), "user/repo");
}

#[test]
fn test_ssh_scheme_custom_port() {
    assert_eq!(repo_name_from_url("ssh://git@host:2222/user/repo.git"), "user/repo");
}

#[test]
fn test_https_with_dot_git() {
    assert_eq!(repo_name_from_url("https://github.com/user/repo.git"), "user/repo");
}

#[test]
fn test_https_without_dot_git() {
    assert_eq!(repo_name_from_url("https://github.com/user/repo"), "user/repo");
}

#[test]
fn test_https_gitlab() {
    assert_eq!(repo_name_from_url("https://gitlab.com/org/project.git"), "org/project");
}

#[test]
fn test_https_self_hosted() {
    assert_eq!(repo_name_from_url("https://git.internal.corp/team/service.git"), "team/service");
}

#[test]
fn test_https_with_port() {
    assert_eq!(repo_name_from_url("https://git.example.com:8443/user/repo.git"), "user/repo");
}

#[test]
fn test_http_url() {
    assert_eq!(repo_name_from_url("http://github.com/user/repo.git"), "user/repo");
}

#[test]
fn test_local_path() {
    assert_eq!(repo_name_from_url("/home/user/repos/myproject.git"), "repos/myproject");
}

#[test]
fn test_file_scheme() {
    assert_eq!(repo_name_from_url("file:///home/user/repos/myproject.git"), "repos/myproject");
}

#[test]
fn test_trailing_slash() {
    let result = repo_name_from_url("https://github.com/user/repo/");
    assert_eq!(result, "repo/");
}

#[test]
fn test_bare_string_no_slashes() {
    assert_eq!(repo_name_from_url("repo"), "repo");
}

#[test]
fn test_single_segment_with_dot_git() {
    assert_eq!(repo_name_from_url("repo.git"), "repo.git");
}

#[test]
fn test_collect_downstream_linear() {
    let wf = make_workflow(&[("a", &[]), ("b", &["a"]), ("c", &["b"])]);
    let mut result = collect_downstream("a", &wf);
    result.sort();
    assert_eq!(result, vec!["b", "c"]);
}

#[test]
fn test_collect_downstream_diamond() {
    let wf = make_workflow(&[("a", &[]), ("b", &["a"]), ("c", &["a"]), ("d", &["b", "c"])]);
    let mut result = collect_downstream("a", &wf);
    result.sort();
    assert_eq!(result, vec!["b", "c", "d"]);
    let result = collect_downstream("b", &wf);
    assert_eq!(result, vec!["d"]);
}

#[test]
fn test_collect_downstream_no_deps() {
    let wf = make_workflow(&[("a", &[]), ("b", &["a"]), ("c", &[])]);
    let result = collect_downstream("c", &wf);
    assert!(result.is_empty());
}

#[test]
fn retry_checks() {
    let r = run();
    let busy = vec![job("a", JobStatus::Failed, None), job("b", JobStatus::Running, None)];
    let e = check_retry(&r, &busy, "a").unwrap_err();
    assert_eq!(e.0, INVALID_REPO_STATE);
    assert_eq!(e.1, "Cannot retry a job while the run is still running");

    let done = vec![job("a", JobStatus::Failed, Some(5)), job("b", JobStatus::Passed, Some(6))];
    assert_eq!(check_retry(&r, &done, "a"), Ok(0));
    let e = check_retry(&r, &done, "zz").unwrap_err();
    assert_eq!(e.0, STEP_NOT_FOUND);
    assert_eq!(e.1, "Job 'zz' not found in run run-1");
    let e = check_retry(&r, &done, "b").unwrap_err();
    assert_eq!(e.0, JOB_NOT_RETRYABLE);
    assert_eq!(e.1, "Job 'b' has status 'passed' \u{2014} only failed or skipped jobs can be retried");
}

#[test]
fn retry_resets_job_and_downstream() {
    let wf = make_workflow(&[("a", &[]), ("b", &["a"]), ("c", &["b"]), ("d", &[])]);
    let keys = retry_reset_keys("b", &wf);
    assert_eq!(keys, vec!["b", "c"]);
    let jobs = vec![job("b", JobStatus::Failed, None), job("c", JobStatus::Skipped, None)];
    assert!(should_clear_run_error(&jobs, &keys));
    let jobs = vec![job("b", JobStatus::Failed, None), job("d", JobStatus::Failed, None)];
    assert!(!should_clear_run_error(&jobs, &keys));
}

#[test]
fn approving_a_step() {
    let jobs = vec![job("a", JobStatus::AwaitingApproval, None)];
    let steps = vec![step("lint", StepStatus::Passed), step("review", StepStatus::AwaitingApproval)];
    assert_eq!(step_to_approve(&jobs, &steps, "a", "review"), Ok(1));
    let e = step_to_approve(&jobs, &steps, "a", "missing").unwrap_err();
    assert_eq!(e.0, STEP_NOT_FOUND);
    assert_eq!(e.1, "Step 'missing' not found in run");
    let e = step_to_approve(&jobs, &steps, "a", "lint").unwrap_err();
    assert_eq!(e.0, INVALID_STEP_STATUS);
    let e = step_to_approve(&jobs, &steps, "nope", "review").unwrap_err();
    assert_eq!(e.0, STEP_NOT_FOUND);

    let cfg = job_config(&[], &["lint", "review", "deploy"]);
    assert_eq!(resume_index(&cfg, "review"), Some(2));
    assert_eq!(resume_index(&cfg, "nope"), None);
}

#[test]
fn cancelling_a_run() {
    assert_eq!(cancel_ref_names("main"), Some(vec!["refs/heads/main".to_string()]));
    assert_eq!(cancel_ref_names(""), None);
    assert!(has_running_jobs(&[job("a", JobStatus::Passed, None), job("b", JobStatus::Running, None)]));
    assert!(!has_running_jobs(&[job("a", JobStatus::AwaitingApproval, None)]));
}

#[test]
fn run_summaries() {
    let r = run();
    let jobs = vec![job("a", JobStatus::Passed, Some(300)), job("b", JobStatus::Failed, Some(250))];
    assert_eq!(run_completed_at(RunState::Failed, &jobs), Some(300));
    assert_eq!(run_completed_at(RunState::Running, &jobs), None);

    let info = build_run_info(&r, &jobs, Some("user/repo".to_string()));
    assert_eq!(info.id, "run-1");
    assert_eq!(info.status, "failed");
    assert_eq!(info.branch, Some("main".to_string()));
    assert_eq!(info.completed_at, Some(300));
    assert_eq!(info.repo_name, Some("user/repo".to_string()));
    assert_eq!(info.error, Some("boom".to_string()));

    let running = vec![job("a", JobStatus::Running, None)];
    let mut clean = r.clone();
    clean.error = None;
    let detail = build_run_detail(&clean, &running);
    assert_eq!(detail.status, "running");
    assert_eq!(detail.completed_at, None);
    assert_eq!(detail.ref_updates.len(), 1);
    assert_eq!(detail.ref_updates[0].new_sha, "b");
    assert_eq!(detail.workflow_name, Some("CI".to_string()));
}

#[test]
fn reprocess_and_cancel_checks() {
    let r = run();
    let active = vec![job("a", JobStatus::AwaitingApproval, None)];
    let done = vec![job("a", JobStatus::Passed, Some(1))];
    let e = check_reprocess(&r, &active).unwrap_err();
    assert_eq!(e, (INVALID_REPO_STATE, "Cannot reprocess a run that is still running".to_string()));
    assert!(check_reprocess(&r, &done).is_ok());
    assert!(check_cancel(&r, &active).is_ok());
    let e = check_cancel(&r, &done).unwrap_err();
    assert_eq!(e, (INVALID_REPO_STATE, "Cannot cancel a run that is not running".to_string()));
}

#[test]
fn approving_a_step_that_is_not_waiting() {
    let jobs = vec![job("a", JobStatus::AwaitingApproval, None)];
    let steps = vec![step("lint", StepStatus::AwaitingApproval), step("review", StepStatus::Passed)];
    let e = step_to_approve(&jobs, &steps, "a", "review").unwrap_err();
    assert_eq!(e.1, "Step 'review' is not awaiting approval (status: Passed)");
}

#[test]
fn approving_the_named_jobs_step() {
    let jobs = vec![job("lint", JobStatus::Passed, Some(1)), job("deploy", JobStatus::AwaitingApproval, None)];
    let steps = vec![
        step_of("lint", "review", StepStatus::Passed),
        step_of("deploy", "review", StepStatus::AwaitingApproval),
    ];
    assert_eq!(step_to_approve(&jobs, &steps, "deploy", "review"), Ok(1));
    let e = step_to_approve(&jobs, &steps, "lint", "review").unwrap_err();
    assert_eq!(e.0, INVALID_STEP_STATUS);
}

#[test]
fn approving_changes_only_the_named_jobs_step_and_job() {
    let mut jobs = vec![job("lint", JobStatus::Passed, Some(1)), job("deploy", JobStatus::AwaitingApproval, None)];
    let mut steps = vec![
        step_of("lint", "review", StepStatus::Passed),
        step_of("deploy", "review", StepStatus::AwaitingApproval),
    ];
    assert_eq!(approve_step(&mut jobs, &mut steps, "deploy", "review", 42), Ok(1));
    assert_eq!(steps[1].status, StepStatus::Passed);
    assert_eq!(steps[1].completed_at, Some(42));
    assert_eq!(steps[0].status, StepStatus::Passed);
    assert_eq!(steps[0].completed_at, None);
    assert_eq!(jobs[1].status, JobStatus::Running);
    assert_eq!(jobs[0].status, JobStatus::Passed);

    let e = approve_step(&mut jobs, &mut steps, "deploy", "review", 43).unwrap_err();
    assert_eq!(e.0, INVALID_STEP_STATUS);
    assert_eq!(steps[1].completed_at, Some(42));
}

#[test]
fn a_retry_resets_only_the_job_and_its_downstream() {
    let wf = make_workflow(&[("a", &[]), ("b", &["a"]), ("c", &["b"]), ("d", &[])]);
    let jobs = vec![
        job("a", JobStatus::Passed, Some(1)),
        job("b", JobStatus::Failed, Some(2)),
        job("c", JobStatus::Skipped, None),
        job("d", JobStatus::Failed, Some(3)),
    ];
    let keys = retry_reset_keys("b", &wf);
    assert_eq!(jobs_to_reset(&jobs, &keys), vec![1, 2]);
    assert_eq!(jobs_to_reset(&jobs, &vec!["zz".to_string(), "d".to_string()]), vec![3]);
}

#[test]
fn resuming_after_an_approval() {
    let mut wf = make_workflow(&[("build", &[]), ("deploy", &["build"])]);
    wf.jobs[1].1 = job_config(&["build"], &["review", "ship"]);
    let other = make_workflow(&[("lint", &[])]);
    let workflows = vec![("a.yml".to_string(), other), ("b.yml".to_string(), wf)];
    assert_eq!(plan_resume(&workflows, "deploy", "review"), ResumePlan::RunFrom { workflow: 1, job: 1, first_step: 1 });
    assert_eq!(plan_resume(&workflows, "deploy", "ship"), ResumePlan::JobDone { workflow: 1, job: 1 });
    assert_eq!(plan_resume(&workflows, "deploy", "nope"), ResumePlan::StepNotFound { workflow: 1, job: 1 });
    assert_eq!(plan_resume(&workflows, "ghost", "review"), ResumePlan::JobNotFound);
}

#[test]
fn workflows_with_repeated_job_keys_are_told_apart() {
    assert!(job_keys_unique(&make_workflow(&[("a", &[]), ("b", &["a"])])));
    assert!(!job_keys_unique(&make_workflow(&[("a", &[]), ("b", &["a"]), ("a", &[])])));
}
