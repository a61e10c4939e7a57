use airlock::types::{
    approval_mode_from_value, approval_mode_to_value, ApprovalMode, ApprovalValue, JobResult, JobStatus, Run, StepDefinition, StepResult, StepStatus,
};
use std::collections::BTreeMap;

fn create_test_run() -> Run {
    Run {
        id: "run-1".to_string(),
        repo_id: "repo-1".to_string(),
        ref_updates: vec![],
        branch: "feature/test".to_string(),
        base_sha: "abc123".to_string(),
        head_sha: "def456".to_string(),
        current_step: None,
        error: None,
        superseded: false,
        workflow_file: String::new(),
        workflow_name: None,
        created_at: 1704067200,
        updated_at: 1704067200,
    }
}

fn create_step_result(name: &str, status: StepStatus) -> StepResult {
    StepResult {
        id: format!("sr-{}", name),
        run_id: "run-1".to_string(),
        job_id: String::new(),
        name: name.to_string(),
        status,
        step_order: 0,
        exit_code: None,
        duration_ms: None,
        error: None,
        started_at: None,
        completed_at: None,
    }
}

fn create_job_result(key: &str, status: JobStatus) -> JobResult {
    JobResult {
        id: format!("jr-{}", key),
        run_id: "run-1".to_string(),
        job_key: key.to_string(),
        name: None,
        status,
        job_order: 0,
        started_at: None,
        completed_at: None,
        error: None,
        worktree_path: None,
    }
}

fn step(name: &str, run: Option<&str>, uses: Option<&str>) -> StepDefinition {
    StepDefinition {
        name: name.to_string(),
        run: run.map(|s| s.to_string()),
        uses: uses.map(|s| s.to_string()),
        shell: None,
        env: BTreeMap::new(),
        continue_on_error: false,
        require_approval: ApprovalMode::Never,
        timeout: None,
        apply_patch: false,
    }
}

#[test]
fn test_step_status_is_final() {
    assert!(!StepStatus::Pending.is_final());
    assert!(!StepStatus::Running.is_final());
    assert!(StepStatus::Passed.is_final());
    assert!(StepStatus::Failed.is_final());
    assert!(StepStatus::Skipped.is_final());
    assert!(!StepStatus::AwaitingApproval.is_final());
}

#[test]
fn test_step_definition_effective_run() {
    let s = step("test", Some("npm test"), None);
    assert_eq!(s.effective_run(), Some("npm test"));

    let s = step("lint", None, Some("owner/repo/lint@v1"));
    assert_eq!(s.effective_run(), None);
    assert!(s.is_reusable());
}

#[test]
fn test_run_is_running() {
    let run = create_test_run();
    assert!(!run.is_running(&[]));
    let steps = vec![create_step_result("test", StepStatus::Pending)];
    assert!(run.is_running(&steps));
    let steps = vec![
        create_step_result("build", StepStatus::Passed),
        create_step_result("test", StepStatus::Running),
    ];
    assert!(run.is_running(&steps));
    let steps = vec![create_step_result("review", StepStatus::AwaitingApproval)];
    assert!(run.is_running(&steps));
    let steps = vec![
        create_step_result("build", StepStatus::Passed),
        create_step_result("test", StepStatus::Passed),
    ];
    assert!(!run.is_running(&steps));
}

#[test]
fn test_run_is_completed() {
    let run = create_test_run();
    assert!(!run.is_completed(&[]));
    let steps = vec![
        create_step_result("build", StepStatus::Passed),
        create_step_result("test", StepStatus::Pending),
    ];
    assert!(!run.is_completed(&steps));
    let steps = vec![create_step_result("review", StepStatus::AwaitingApproval)];
    assert!(!run.is_completed(&steps));
    let steps = vec![
        create_step_result("build", StepStatus::Passed),
        create_step_result("test", StepStatus::Failed),
    ];
    assert!(run.is_completed(&steps));
}

#[test]
fn test_run_is_failed() {
    let run = create_test_run();
    let steps = vec![
        create_step_result("build", StepStatus::Passed),
        create_step_result("test", StepStatus::Passed),
    ];
    assert!(!run.is_failed(&steps));
    let steps = vec![
        create_step_result("build", StepStatus::Passed),
        create_step_result("test", StepStatus::Failed),
    ];
    assert!(run.is_failed(&steps));
}

#[test]
fn test_run_is_successful() {
    let run = create_test_run();
    assert!(!run.is_successful(&[]));
    let steps = vec![
        create_step_result("build", StepStatus::Passed),
        create_step_result("test", StepStatus::Passed),
    ];
    assert!(run.is_successful(&steps));
    let steps = vec![
        create_step_result("build", StepStatus::Passed),
        create_step_result("test", StepStatus::Skipped),
    ];
    assert!(run.is_successful(&steps));
    let steps = vec![
        create_step_result("build", StepStatus::Passed),
        create_step_result("test", StepStatus::Failed),
    ];
    assert!(!run.is_successful(&steps));
}

#[test]
fn test_run_is_awaiting_approval() {
    let run = create_test_run();
    let steps = vec![create_step_result("test", StepStatus::Passed)];
    assert!(!run.is_awaiting_approval(&steps));
    let steps = vec![
        create_step_result("test", StepStatus::Passed),
        create_step_result("review", StepStatus::AwaitingApproval),
    ];
    assert!(run.is_awaiting_approval(&steps));
}

#[test]
fn test_run_derived_status() {
    let run = create_test_run();
    assert_eq!(run.derived_status(&[]), "pending");
    let steps = vec![create_step_result("test", StepStatus::Running)];
    assert_eq!(run.derived_status(&steps), "running");
    let steps = vec![
        create_step_result("test", StepStatus::Passed),
        create_step_result("review", StepStatus::AwaitingApproval),
    ];
    assert_eq!(run.derived_status(&steps), "awaiting_approval");
    let steps = vec![
        create_step_result("build", StepStatus::Passed),
        create_step_result("test", StepStatus::Failed),
    ];
    assert_eq!(run.derived_status(&steps), "failed");
    let steps = vec![
        create_step_result("build", StepStatus::Passed),
        create_step_result("test", StepStatus::Passed),
    ];
    assert_eq!(run.derived_status(&steps), "completed");
}

#[test]
fn test_is_superseded() {
    let mut run = create_test_run();
    assert!(!run.is_superseded());
    run.error = Some("Some other error".to_string());
    assert!(!run.is_superseded());
    run.superseded = true;
    assert!(run.is_superseded());
}

#[test]
fn test_derived_status_superseded_overrides_running() {
    let mut run = create_test_run();
    run.superseded = true;
    let steps = vec![
        create_step_result("build", StepStatus::Passed),
        create_step_result("test", StepStatus::Running),
        create_step_result("review", StepStatus::Pending),
    ];
    assert_eq!(run.derived_status(&steps), "superseded");
}

#[test]
fn test_derived_status_superseded_overrides_awaiting() {
    let mut run = create_test_run();
    run.superseded = true;
    let steps = vec![
        create_step_result("build", StepStatus::Passed),
        create_step_result("review", StepStatus::AwaitingApproval),
    ];
    assert_eq!(run.derived_status(&steps), "superseded");
}

#[test]
fn test_derived_status_superseded_overrides_pending() {
    let mut run = create_test_run();
    run.superseded = true;
    assert_eq!(run.derived_status(&[]), "superseded");
}

#[test]
fn test_derived_status_from_jobs_empty() {
    let run = create_test_run();
    assert_eq!(run.derived_status_from_jobs(&[]), "pending");
}

#[test]
fn test_derived_status_from_jobs_error_no_jobs() {
    let mut run = create_test_run();
    run.error = Some("workflow loading failed".to_string());
    assert_eq!(run.derived_status_from_jobs(&[]), "failed");
}

#[test]
fn test_derived_status_from_jobs_running() {
    let run = create_test_run();
    let jobs = vec![
        create_job_result("lint", JobStatus::Passed),
        create_job_result("test", JobStatus::Running),
    ];
    assert_eq!(run.derived_status_from_jobs(&jobs), "running");
}

#[test]
fn test_derived_status_from_jobs_awaiting_approval() {
    let run = create_test_run();
    let jobs = vec![
        create_job_result("lint", JobStatus::Passed),
        create_job_result("deploy", JobStatus::AwaitingApproval),
    ];
    assert_eq!(run.derived_status_from_jobs(&jobs), "awaiting_approval");
}

#[test]
fn test_derived_status_from_jobs_running_overrides_awaiting() {
    let run = create_test_run();
    let jobs = vec![
        create_job_result("lint", JobStatus::Running),
        create_job_result("deploy", JobStatus::AwaitingApproval),
    ];
    assert_eq!(run.derived_status_from_jobs(&jobs), "running");
}

#[test]
fn test_derived_status_from_jobs_failed() {
    let run = create_test_run();
    let jobs = vec![
        create_job_result("lint", JobStatus::Passed),
        create_job_result("test", JobStatus::Failed),
    ];
    assert_eq!(run.derived_status_from_jobs(&jobs), "failed");
}

#[test]
fn test_derived_status_from_jobs_completed() {
    let run = create_test_run();
    let jobs = vec![
        create_job_result("lint", JobStatus::Passed),
        create_job_result("test", JobStatus::Passed),
    ];
    assert_eq!(run.derived_status_from_jobs(&jobs), "completed");
}

#[test]
fn test_derived_status_from_jobs_completed_with_skipped() {
    let run = create_test_run();
    let jobs = vec![
        create_job_result("lint", JobStatus::Passed),
        create_job_result("test", JobStatus::Skipped),
    ];
    assert_eq!(run.derived_status_from_jobs(&jobs), "completed");
}

#[test]
fn test_derived_status_from_jobs_pending() {
    let run = create_test_run();
    let jobs = vec![
        create_job_result("lint", JobStatus::Passed),
        create_job_result("test", JobStatus::Pending),
    ];
    assert_eq!(run.derived_status_from_jobs(&jobs), "running");
}

#[test]
fn test_derived_status_from_jobs_superseded() {
    let mut run = create_test_run();
    run.superseded = true;
    let jobs = vec![create_job_result("lint", JobStatus::Running)];
    assert_eq!(run.derived_status_from_jobs(&jobs), "superseded");
}

#[test]
fn test_is_running_from_jobs() {
    let run = create_test_run();
    assert!(!run.is_running_from_jobs(&[]));
    assert!(run.is_running_from_jobs(&[create_job_result("a", JobStatus::Pending)]));
    assert!(run.is_running_from_jobs(&[create_job_result("a", JobStatus::Running)]));
    assert!(run.is_running_from_jobs(&[create_job_result("a", JobStatus::AwaitingApproval)]));
    assert!(!run.is_running_from_jobs(&[create_job_result("a", JobStatus::Passed)]));
    assert!(!run.is_running_from_jobs(&[create_job_result("a", JobStatus::Failed)]));
}

#[test]
fn test_is_completed_from_jobs() {
    let run = create_test_run();
    assert!(!run.is_completed_from_jobs(&[]));
    assert!(!run.is_completed_from_jobs(&[create_job_result("a", JobStatus::Pending)]));
    assert!(run.is_completed_from_jobs(&[create_job_result("a", JobStatus::Passed)]));
    assert!(run.is_completed_from_jobs(&[
        create_job_result("a", JobStatus::Passed),
        create_job_result("b", JobStatus::Failed),
    ]));
}

#[test]
fn test_is_failed_from_jobs() {
    let run = create_test_run();
    assert!(!run.is_failed_from_jobs(&[create_job_result("a", JobStatus::Passed)]));
    assert!(run.is_failed_from_jobs(&[create_job_result("a", JobStatus::Failed)]));
}

#[test]
fn test_is_successful_from_jobs() {
    let run = create_test_run();
    assert!(!run.is_successful_from_jobs(&[]));
    assert!(run.is_successful_from_jobs(&[create_job_result("a", JobStatus::Passed)]));
    assert!(run.is_successful_from_jobs(&[
        create_job_result("a", JobStatus::Passed),
        create_job_result("b", JobStatus::Skipped),
    ]));
    assert!(!run.is_successful_from_jobs(&[
        create_job_result("a", JobStatus::Passed),
        create_job_result("b", JobStatus::Failed),
    ]));
}

#[test]
fn test_job_status_is_final() {
    assert!(!JobStatus::Pending.is_final());
    assert!(!JobStatus::Running.is_final());
    assert!(JobStatus::Passed.is_final());
    assert!(JobStatus::Failed.is_final());
    assert!(JobStatus::Skipped.is_final());
    assert!(!JobStatus::AwaitingApproval.is_final());
}

#[test]
fn approval_modes_from_settings() {
    assert_eq!(airlock::types::approval_mode_from_bool(true), ApprovalMode::Always);
    assert_eq!(airlock::types::approval_mode_from_bool(false), ApprovalMode::Never);
    assert_eq!(airlock::types::approval_mode_from_str("if_patches"), Some(ApprovalMode::IfPatches));
    assert_eq!(airlock::types::approval_mode_from_str("true"), Some(ApprovalMode::Always));
    assert_eq!(airlock::types::approval_mode_from_str("false"), Some(ApprovalMode::Never));
    assert_eq!(airlock::types::approval_mode_from_str("sometimes"), None);
    assert_eq!(ApprovalMode::default(), ApprovalMode::Never);
}

#[test]
fn status_names() {
    assert_eq!(airlock::types::step_status_to_string(StepStatus::AwaitingApproval), "awaiting_approval");
    assert_eq!(airlock::types::job_status_to_string(JobStatus::Skipped), "skipped");
}

#[test]
fn approval_modes_round_trip_through_their_stored_form() {
    for mode in [ApprovalMode::Never, ApprovalMode::Always, ApprovalMode::IfPatches] {
        let v = approval_mode_to_value(mode);
        assert_eq!(approval_mode_from_value(&v), Some(mode));
    }
    assert_eq!(approval_mode_to_value(ApprovalMode::Never), ApprovalValue::Flag(false));
    assert_eq!(approval_mode_to_value(ApprovalMode::Always), ApprovalValue::Flag(true));
    assert_eq!(approval_mode_to_value(ApprovalMode::IfPatches), ApprovalValue::Text("if_patches".to_string()));
    assert_eq!(approval_mode_from_value(&ApprovalValue::Text("true".to_string())), Some(ApprovalMode::Always));
    assert_eq!(approval_mode_from_value(&ApprovalValue::Text("sometimes".to_string())), None);
}
