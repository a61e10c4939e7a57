use airlock::paths::AirlockPaths;
use airlock::pipeline::{
    choose_job_worktree, dag_run_outcome, deps_done, extract_branch_name, final_job_status,
    find_job_worktree, finished_step_status, is_separator_free, is_null_sha, job_completed_at, lookup_status,
    plan_job_records, prepare_run, run_announcement, scan_ready_jobs, set_job_status,
    should_continue_pipeline, should_pause_for_approval, should_skip_job, skip_pending_steps,
    step_outcome, worktrees_to_remove, JobProgress, JobStepEvent, RunAnnouncement, RunOutcome,
    StepOutcome, WorktreeChoice,
};
use airlock::types::{
    ApprovalMode, JobResult, JobStatus, RefUpdate, Run, StepDefinition, StepResult, StepStatus,
};
use airlock::workflow::{JobConfig, WorkflowConfig};
use std::collections::BTreeMap;

fn update(name: &str, old: &str, new: &str) -> RefUpdate {
    RefUpdate { ref_name: name.to_string(), old_sha: old.to_string(), new_sha: new.to_string() }
}

fn create_test_stage(name: &str, run: &str) -> StepDefinition {
    StepDefinition {
        name: name.to_string(),
        run: Some(run.to_string()),
        uses: None,
        shell: None,
        env: BTreeMap::new(),
        continue_on_error: false,
        require_approval: ApprovalMode::Never,
        timeout: None,
        apply_patch: false,
    }
}

fn step_result(name: &str, status: StepStatus, exit_code: Option<i32>, error: Option<&str>) -> StepResult {
    StepResult {
        id: "sr-1".to_string(),
        run_id: "run-1".to_string(),
        job_id: String::new(),
        name: name.to_string(),
        status,
        step_order: 0,
        exit_code,
        duration_ms: Some(100),
        error: error.map(|e| e.to_string()),
        started_at: None,
        completed_at: None,
    }
}

fn job(key: &str, needs: &[&str], steps: &[&str]) -> (String, JobConfig) {
    (
        key.to_string(),
        JobConfig {
            name: None,
            needs: needs.iter().map(|s| s.to_string()).collect(),
            steps: steps.iter().map(|s| create_test_stage(s, "true")).collect(),
            keep_worktrees: false,
        },
    )
}

fn statuses(list: &[(&str, JobStatus)]) -> Vec<(String, JobStatus)> {
    list.iter().map(|(k, s)| (k.to_string(), *s)).collect()
}

fn job_result(key: &str, status: JobStatus) -> JobResult {
    JobResult {
        id: format!("job-{}", key),
        run_id: "run-1".to_string(),
        job_key: key.to_string(),
        name: None,
        status,
        job_order: 0,
        started_at: None,
        completed_at: None,
        error: None,
        worktree_path: None,
    }
}

#[test]
fn test_extract_branch_name_simple() {
    let updates = vec![update("refs/heads/main", "abc123", "def456")];
    assert_eq!(extract_branch_name(&updates), Some("main".to_string()));
}

#[test]
fn test_extract_branch_name_feature_branch() {
    let updates = vec![update("refs/heads/feature/add-auth", "abc123", "def456")];
    assert_eq!(extract_branch_name(&updates), Some("feature/add-auth".to_string()));
}

#[test]
fn test_extract_branch_name_skips_deletion() {
    let updates = vec![
        update("refs/heads/old-branch", "abc123", "0000000000000000000000000000000000000000"),
        update("refs/heads/new-branch", "000000", "def456"),
    ];
    assert_eq!(extract_branch_name(&updates), Some("new-branch".to_string()));
}

#[test]
fn test_extract_branch_name_no_branches() {
    let updates: Vec<RefUpdate> = vec![];
    assert_eq!(extract_branch_name(&updates), None);
}

#[test]
fn test_extract_branch_name_only_deletions() {
    let updates =
        vec![update("refs/heads/deleted", "abc123", "0000000000000000000000000000000000000000")];
    assert_eq!(extract_branch_name(&updates), None);
}

#[test]
fn test_extract_branch_name_ignores_tags() {
    let updates = vec![update("refs/tags/v1.0.0", "abc123", "def456")];
    assert_eq!(extract_branch_name(&updates), None);
}

#[test]
fn null_sha_is_all_zeros() {
    assert!(is_null_sha("0000000000000000000000000000000000000000"));
    assert!(!is_null_sha("000000"));
    assert!(!is_null_sha("000a00"));
    assert!(!is_null_sha(""));
}

#[test]
fn test_should_continue_pipeline_passed() {
    let stage = create_test_stage("test", "true");
    let result = step_result("test", StepStatus::Passed, Some(0), None);
    assert!(should_continue_pipeline(&stage, &result));
}

#[test]
fn test_should_continue_pipeline_failed_no_continue() {
    let stage = create_test_stage("test", "false");
    let result = step_result("test", StepStatus::Failed, Some(1), Some("Failed"));
    assert!(!should_continue_pipeline(&stage, &result));
}

#[test]
fn test_should_continue_pipeline_failed_with_continue() {
    let mut stage = create_test_stage("test", "false");
    stage.continue_on_error = true;
    let result = step_result("test", StepStatus::Failed, Some(1), Some("Failed"));
    assert!(should_continue_pipeline(&stage, &result));
}

#[test]
fn test_should_continue_pipeline_awaiting_approval() {
    let stage = create_test_stage("review", "true");
    let result = step_result("review", StepStatus::AwaitingApproval, Some(0), None);
    assert!(!should_continue_pipeline(&stage, &result));
}

#[test]
fn test_should_pause_for_approval() {
    let result_awaiting = step_result("review", StepStatus::AwaitingApproval, Some(0), None);
    let result_passed = StepResult { status: StepStatus::Passed, ..result_awaiting.clone() };
    assert!(should_pause_for_approval(&result_awaiting));
    assert!(!should_pause_for_approval(&result_passed));
}

#[test]
fn step_outcomes() {
    let stage = create_test_stage("s", "true");
    assert_eq!(step_outcome(&stage, &step_result("s", StepStatus::Passed, Some(0), None)), StepOutcome::Continue);
    assert_eq!(
        step_outcome(&stage, &step_result("s", StepStatus::AwaitingApproval, Some(0), None)),
        StepOutcome::Pause
    );
    assert_eq!(step_outcome(&stage, &step_result("s", StepStatus::Failed, Some(1), None)), StepOutcome::Stop);
}

#[test]
fn finished_status_follows_approval_mode() {
    assert_eq!(finished_step_status(false, ApprovalMode::Always, true), StepStatus::Failed);
    assert_eq!(finished_step_status(true, ApprovalMode::Always, false), StepStatus::AwaitingApproval);
    assert_eq!(finished_step_status(true, ApprovalMode::IfPatches, true), StepStatus::AwaitingApproval);
    assert_eq!(finished_step_status(true, ApprovalMode::IfPatches, false), StepStatus::Passed);
    assert_eq!(finished_step_status(true, ApprovalMode::Never, true), StepStatus::Passed);
}

#[test]
fn skip_pending_marks_only_pending() {
    let mut steps = vec![
        step_result("a", StepStatus::Failed, Some(1), None),
        step_result("b", StepStatus::Pending, None, None),
        step_result("c", StepStatus::Passed, Some(0), None),
        step_result("d", StepStatus::Pending, None, None),
    ];
    let changed = skip_pending_steps(&mut steps);
    assert_eq!(changed, vec![1, 3]);
    assert_eq!(steps[0].status, StepStatus::Failed);
    assert_eq!(steps[1].status, StepStatus::Skipped);
    assert_eq!(steps[2].status, StepStatus::Passed);
    assert_eq!(steps[3].status, StepStatus::Skipped);
}

#[test]
fn job_progress_events() {
    let mut p = JobProgress::new();
    let stop = p.on_event(JobStepEvent::Executed {
        result: step_result("a", StepStatus::Passed, Some(0), None),
        continue_on_error: false,
    });
    assert!(!stop);
    let stop = p.on_event(JobStepEvent::Executed {
        result: step_result("b", StepStatus::Failed, Some(1), Some("boom")),
        continue_on_error: true,
    });
    assert!(!stop);
    assert!(p.success);
    let stop = p.on_event(JobStepEvent::Executed {
        result: step_result("c", StepStatus::Failed, Some(1), Some("boom")),
        continue_on_error: false,
    });
    assert!(stop);
    assert!(!p.success);
    assert_eq!(p.error, Some("boom".to_string()));
    assert_eq!(p.final_status(), JobStatus::Failed);

    let mut q = JobProgress::new();
    assert!(q.on_event(JobStepEvent::Executed {
        result: step_result("r", StepStatus::AwaitingApproval, Some(0), None),
        continue_on_error: false,
    }));
    assert_eq!(q.final_status(), JobStatus::AwaitingApproval);

    let mut c = JobProgress::new();
    assert!(c.on_event(JobStepEvent::Cancelled));
    assert_eq!(c.error, Some("Superseded by newer push".to_string()));

    let mut r = JobProgress::new();
    assert!(r.on_event(JobStepEvent::ResolveFailed {
        step_name: "lint".to_string(),
        error: "not found".to_string()
    }));
    assert_eq!(r.error, Some("Failed to resolve reusable action 'lint': not found".to_string()));

    let mut e = JobProgress::new();
    assert!(e.on_event(JobStepEvent::EnvironmentFailed { error: "x".to_string() }));
    assert_eq!(e.error, Some("Failed to build environment: x".to_string()));
}

#[test]
fn final_job_status_and_completion() {
    assert_eq!(final_job_status(true, false), JobStatus::AwaitingApproval);
    assert_eq!(final_job_status(false, true), JobStatus::Passed);
    assert_eq!(final_job_status(false, false), JobStatus::Failed);
    assert_eq!(job_completed_at(JobStatus::Passed, 42), Some(42));
    assert_eq!(job_completed_at(JobStatus::AwaitingApproval, 42), None);
}

#[test]
fn status_table_lookup_and_update() {
    let mut st = statuses(&[("a", JobStatus::Pending), ("b", JobStatus::Passed)]);
    assert_eq!(lookup_status(&st, "b"), Some(JobStatus::Passed));
    assert_eq!(lookup_status(&st, "z"), None);
    set_job_status(&mut st, "a", JobStatus::Running);
    assert_eq!(lookup_status(&st, "a"), Some(JobStatus::Running));
    set_job_status(&mut st, "c", JobStatus::Failed);
    assert_eq!(lookup_status(&st, "c"), Some(JobStatus::Failed));
    assert_eq!(lookup_status(&st, "b"), Some(JobStatus::Passed));
}

#[test]
fn skip_and_deps_done() {
    let (_, cfg) = job("c", &["a", "b"], &["x"]);
    let st = statuses(&[("a", JobStatus::Passed), ("b", JobStatus::Failed)]);
    assert!(should_skip_job("c", &cfg, &st));
    assert!(deps_done(&cfg, &st));
    let st = statuses(&[("a", JobStatus::Passed), ("b", JobStatus::Running)]);
    assert!(!should_skip_job("c", &cfg, &st));
    assert!(!deps_done(&cfg, &st));
}

#[test]
fn resumed_dag_scan() {
    let wf = WorkflowConfig {
        name: None,
        jobs: vec![job("a", &[], &["x"]), job("b", &["a"], &["x"]), job("c", &["b"], &["x"])],
    };
    // a passed: b becomes runnable, c waits.
    let mut st = statuses(&[("a", JobStatus::Passed), ("b", JobStatus::Pending), ("c", JobStatus::Pending)]);
    let (skipped, runnable) = scan_ready_jobs(&wf, &mut st);
    assert!(skipped.is_empty());
    assert_eq!(runnable, vec!["b".to_string()]);

    // a failed: b is skipped, and so is c in the same pass.
    let mut st = statuses(&[("a", JobStatus::Failed), ("b", JobStatus::Pending), ("c", JobStatus::Pending)]);
    let (skipped, runnable) = scan_ready_jobs(&wf, &mut st);
    assert_eq!(skipped, vec!["b".to_string(), "c".to_string()]);
    assert!(runnable.is_empty());
    assert_eq!(lookup_status(&st, "c"), Some(JobStatus::Skipped));
}

#[test]
fn worktree_choice() {
    let (_, first) = job("a", &[], &["x"]);
    let (_, second) = job("b", &["a"], &["x"]);
    let (_, join) = job("c", &["a", "b"], &["x"]);
    let none: Vec<(String, String)> = vec![];
    assert!(matches!(choose_job_worktree(&first, &none), WorktreeChoice::Persistent));
    let have = vec![("a".to_string(), "/wt/a".to_string())];
    match choose_job_worktree(&second, &have) {
        WorktreeChoice::Inherit(p) => assert_eq!(p, "/wt/a"),
        other => panic!("unexpected {:?}", other),
    }
    assert!(matches!(choose_job_worktree(&join, &have), WorktreeChoice::Ephemeral));
    assert!(matches!(choose_job_worktree(&first, &have), WorktreeChoice::Ephemeral));
}

#[test]
fn paused_job_worktree_lookup() {
    let paths = AirlockPaths::with_root("/r".to_string());
    assert_eq!(find_job_worktree(&paths, "repo", "run", "build", true, true), "/r/worktrees/repo/persistent");
    assert_eq!(find_job_worktree(&paths, "repo", "run", "build", false, true), "/r/worktrees/repo/run.build");
    assert_eq!(find_job_worktree(&paths, "repo", "run", "build", false, false), "/r/worktrees/repo/run");
}

#[test]
fn removable_worktrees() {
    let mut wf = WorkflowConfig { name: None, jobs: vec![job("a", &[], &["x"]), job("b", &["a"], &["x"])] };
    wf.jobs[1].1.keep_worktrees = true;
    let wts = vec![
        ("a".to_string(), "/wt/persistent".to_string()),
        ("b".to_string(), "/wt/b".to_string()),
        ("c".to_string(), "/wt/c".to_string()),
    ];
    let st = statuses(&[("a", JobStatus::Passed), ("b", JobStatus::Passed), ("c", JobStatus::Running)]);
    // persistent and kept ones stay; c is not finished.
    assert_eq!(worktrees_to_remove(&wf, &wts, &st, "/wt/persistent", true), Vec::<String>::new());
    assert_eq!(worktrees_to_remove(&wf, &wts, &st, "/wt/persistent", false), vec!["/wt/c".to_string()]);
}

#[test]
fn run_outcome_and_announcement() {
    let st = statuses(&[("a", JobStatus::Passed), ("b", JobStatus::AwaitingApproval)]);
    assert_eq!(dag_run_outcome(&st, true), RunOutcome::AwaitingApproval);
    let st = statuses(&[("a", JobStatus::Passed)]);
    assert_eq!(dag_run_outcome(&st, false), RunOutcome::Completed { success: true });
    assert_eq!(dag_run_outcome(&st, true), RunOutcome::Completed { success: false });

    let all_passed = vec![job_result("a", JobStatus::Passed), job_result("b", JobStatus::Passed)];
    assert_eq!(run_announcement(&all_passed), RunAnnouncement::Succeeded);
    let some_failed = vec![job_result("a", JobStatus::Passed), job_result("b", JobStatus::Failed)];
    assert_eq!(run_announcement(&some_failed), RunAnnouncement::Failed);
    let some_paused = vec![job_result("a", JobStatus::Passed), job_result("b", JobStatus::AwaitingApproval)];
    assert_eq!(run_announcement(&some_paused), RunAnnouncement::AwaitingApproval);
    let skipped = vec![job_result("a", JobStatus::Passed), job_result("b", JobStatus::Skipped)];
    assert_eq!(run_announcement(&skipped), RunAnnouncement::Ended);
    let running = vec![job_result("a", JobStatus::Running)];
    assert_eq!(run_announcement(&running), RunAnnouncement::Nothing);
}

#[test]
fn job_records_follow_waves() {
    let wf = WorkflowConfig {
        name: None,
        jobs: vec![job("lint", &[], &["fmt", "clippy"]), job("test", &["lint"], &["unit"])],
    };
    let waves = vec![vec!["lint".to_string()], vec!["test".to_string()]];
    let records = plan_job_records("run-9", &wf, &waves);
    assert_eq!(records.len(), 2);
    assert_eq!(records[0].0.job_key, "lint");
    assert_eq!(records[0].0.job_order, 0);
    assert_eq!(records[0].0.status, JobStatus::Pending);
    assert_eq!(records[0].1.len(), 2);
    assert_eq!(records[0].1[1].name, "clippy");
    assert_eq!(records[0].1[1].step_order, 1);
    assert_eq!(records[0].1[1].job_id, records[0].0.id);
    assert_eq!(records[1].0.job_key, "test");
    assert_eq!(records[1].0.job_order, 1);
    assert_eq!(records[1].1[0].run_id, "run-9");
    assert_ne!(records[0].0.id, records[1].0.id);
}

#[test]
fn prepare_run_fills_branch_and_head() {
    let mut run = Run {
        id: "r".to_string(),
        repo_id: "repo".to_string(),
        ref_updates: vec![
            update("refs/heads/gone", "a1", "0000000000000000000000000000000000000000"),
            update("refs/heads/feature/x", "b1", "b2"),
        ],
        branch: String::new(),
        base_sha: String::new(),
        head_sha: String::new(),
        current_step: None,
        error: None,
        superseded: false,
        workflow_file: "main.yml".to_string(),
        workflow_name: None,
        created_at: 1,
        updated_at: 1,
    };
    prepare_run(&mut run);
    assert_eq!(run.branch, "refs/heads/feature/x");
    assert_eq!(run.head_sha, "b2");
    assert_eq!(run.base_sha, "b1");
}

#[test]
fn job_keys_with_a_slash_cannot_name_a_worktree() {
    assert!(is_separator_free("build"));
    assert!(!is_separator_free("a/b"));
    assert!(is_separator_free(""));
}
