use airlock::ipc::{
    GlobalConfigUpdate, RunInfo, StorageConfigInfo, StorageConfigUpdate, SyncConfigInfo,
    SyncConfigUpdate,
};
use airlock::pipeline::load_workflows_for_run;
use airlock::push::forwarded_tracking_ref;
use airlock::push_coalescer::supersede_overlapping_runs;
use airlock::runs::{merge_active_runs, workflow_with_job};
use airlock::status::{count_pending_runs, status_run_info};
use airlock::sync::{
    fetch_notification_outcome, record_sync_all, sync_all_start, sync_outcome,
    unknown_gate_reply, StaleSync,
};
use airlock::types::{RefUpdate, Run, StepResult, StepStatus};
use airlock::workflow::{JobConfig, WorkflowConfig};

fn run(id: &str, refs: &[&str], error: Option<&str>) -> Run {
    Run {
        id: id.to_string(),
        repo_id: "repo".to_string(),
        ref_updates: refs
            .iter()
            .map(|r| RefUpdate { ref_name: r.to_string(), old_sha: "a".to_string(), new_sha: "b".to_string() })
            .collect(),
        branch: "main".to_string(),
        base_sha: format!("base-{}", id),
        head_sha: "b".to_string(),
        current_step: None,
        error: error.map(|e| e.to_string()),
        superseded: false,
        workflow_file: String::new(),
        workflow_name: None,
        created_at: 10,
        updated_at: 20,
    }
}

fn step(status: StepStatus, completed_at: Option<i64>) -> StepResult {
    StepResult {
        id: "s".to_string(),
        run_id: "r".to_string(),
        job_id: "j".to_string(),
        name: "s".to_string(),
        status,
        step_order: 0,
        exit_code: None,
        duration_ms: None,
        error: None,
        started_at: None,
        completed_at,
    }
}

fn info(id: &str, status: &str, created_at: i64) -> RunInfo {
    RunInfo {
        id: id.to_string(),
        repo_id: None,
        repo_name: None,
        status: status.to_string(),
        branch: None,
        base_sha: None,
        head_sha: None,
        current_step: None,
        created_at,
        updated_at: None,
        completed_at: None,
        error: None,
    }
}

fn workflow(name: &str, jobs: &[&str]) -> (String, WorkflowConfig) {
    (
        format!("{}.yml", name),
        WorkflowConfig {
            name: Some(name.to_string()),
            jobs: jobs
                .iter()
                .map(|k| (k.to_string(), JobConfig { name: None, needs: vec![], steps: vec![], keep_worktrees: false }))
                .collect(),
        },
    )
}

#[test]
fn status_counts_and_latest_run() {
    let runs = vec![
        (run("r1", &[], None), vec![step(StepStatus::Running, None)]),
        (run("r2", &[], None), vec![step(StepStatus::Passed, Some(5))]),
        (run("r3", &[], None), vec![]),
        (run("r4", &[], Some("boom")), vec![step(StepStatus::Failed, Some(9))]),
    ];
    assert_eq!(count_pending_runs(&runs), 2);

    let done = status_run_info(&runs[1].0, &[step(StepStatus::Passed, Some(5)), step(StepStatus::Passed, Some(7))]);
    assert_eq!(done.status, "completed");
    assert_eq!(done.completed_at, Some(7));
    assert_eq!(done.branch, Some("main".to_string()));
    assert_eq!(done.repo_id, None);
    let failed = status_run_info(&runs[3].0, &runs[3].1);
    assert_eq!(failed.status, "failed");
    assert_eq!(failed.completed_at, Some(9));
    let running = status_run_info(&runs[0].0, &runs[0].1);
    assert_eq!(running.status, "running");
    assert_eq!(running.completed_at, None);
}

#[test]
fn all_runs_listing_keeps_active_runs() {
    let main = vec![info("a", "completed", 30), info("b", "running", 20)];
    let extra = vec![info("b", "running", 20), info("c", "awaiting_approval", 5), info("d", "failed", 1), info("e", "running", 40)];
    let merged = merge_active_runs(main, extra);
    let ids: Vec<&str> = merged.iter().map(|r| r.id.as_str()).collect();
    assert_eq!(ids, vec!["e", "a", "b", "c"]);
}

#[test]
fn sync_replies_and_logs() {
    let (log, moved, reply) = sync_outcome("repo", Ok(()), 100);
    assert!(log.success && moved && reply.success);
    assert_eq!(log.error, None);
    assert_eq!(reply.synced_at, 100);
    assert_eq!(log.id.len(), 36);
    let (log, moved, reply) = sync_outcome("repo", Err("conflict".to_string()), 100);
    assert!(!log.success && !moved && !reply.success);
    assert_eq!(reply.error, Some("conflict".to_string()));

    let mut tally = sync_all_start();
    let l1 = record_sync_all(&mut tally, "r1", Ok(()), 1);
    let l2 = record_sync_all(&mut tally, "r2", Err("down".to_string()), 2);
    assert!(l1.success && !l2.success);
    assert_eq!(tally.synced_count, 1);
    assert_eq!(tally.failed_count, 1);
    assert_eq!(tally.errors.len(), 1);
    assert_eq!(tally.errors[0].repo_id, "r2");
    assert_eq!(tally.errors[0].error, "down");
}

#[test]
fn fetch_notification_replies() {
    let r = unknown_gate_reply();
    assert!(!r.synced && r.success && r.repo_id.is_none());
    let ok = StaleSync { synced: true, success: true, error: None, skipped_not_stale: false, timestamp: 7 };
    let (log, moved, reply) = fetch_notification_outcome("repo", &ok);
    assert!(moved);
    assert_eq!(log.unwrap().synced_at, 7);
    assert_eq!(reply.repo_id, Some("repo".to_string()));
    let failed = StaleSync { synced: true, success: false, error: Some("x".to_string()), skipped_not_stale: false, timestamp: 8 };
    let (log, moved, reply) = fetch_notification_outcome("repo", &failed);
    assert!(!moved);
    assert_eq!(log.unwrap().error, Some("x".to_string()));
    assert_eq!(reply.error, Some("x".to_string()));
    let fresh = StaleSync { synced: false, success: true, error: None, skipped_not_stale: true, timestamp: 9 };
    let (log, moved, reply) = fetch_notification_outcome("repo", &fresh);
    assert!(log.is_none() && !moved && reply.skipped_not_stale);
}

#[test]
fn forwarding_moves_tracking_ref() {
    assert_eq!(forwarded_tracking_ref("refs/heads/main"), Some("refs/remotes/origin/main".to_string()));
    assert_eq!(forwarded_tracking_ref("refs/tags/v1"), None);
}

#[test]
fn global_config_updates() {
    let mut sync = SyncConfigInfo { on_fetch: false };
    let mut storage = StorageConfigInfo { max_artifact_age_days: 30 };
    let update = GlobalConfigUpdate {
        sync: Some(SyncConfigUpdate { on_fetch: Some(true) }),
        storage: Some(StorageConfigUpdate { max_artifact_age_days: None }),
    };
    update.apply(&mut sync, &mut storage);
    assert!(sync.on_fetch);
    assert_eq!(storage.max_artifact_age_days, 30);
    let update = GlobalConfigUpdate { sync: None, storage: Some(StorageConfigUpdate { max_artifact_age_days: Some(7) }) };
    update.apply(&mut sync, &mut storage);
    assert!(sync.on_fetch);
    assert_eq!(storage.max_artifact_age_days, 7);
}

#[test]
fn workflows_for_a_run() {
    let sha = "abcdef1234567890";
    let e = load_workflows_for_run(sha, Err("bad tree".to_string()), None).unwrap_err();
    assert_eq!(e, "Failed to load workflows from commit abcdef12 in gate: bad tree. Run 'airlock init' to create them.");
    let e = load_workflows_for_run("abc", Ok(vec![]), None).unwrap_err();
    assert_eq!(e, ".airlock/workflows/ not found or empty at commit abc in gate. Run 'airlock init' to create it.");
    let all = vec![workflow("ci", &["build"]), workflow("lint", &["lint"])];
    let e = load_workflows_for_run(sha, Ok(all.clone()), Some(("dev", vec![]))).unwrap_err();
    assert_eq!(e, "No workflow matched branch 'dev'. Check your .airlock/workflows/*.yml trigger filters.");
    let ok = load_workflows_for_run(sha, Ok(all.clone()), Some(("main", vec![all[1].clone()]))).unwrap();
    assert_eq!(ok.len(), 1);
    assert_eq!(ok[0].0, "lint.yml");
    let ok = load_workflows_for_run(sha, Ok(all.clone()), None).unwrap();
    assert_eq!(ok.len(), 2);
    assert_eq!(workflow_with_job(&all, "lint"), Some(1));
    assert_eq!(workflow_with_job(&all, "deploy"), None);
}

#[test]
fn superseded_runs_are_copied() {
    let active = vec![run("r1", &["refs/heads/main"], None), run("r2", &["refs/heads/dev"], None), run("r3", &["refs/heads/x", "refs/heads/main"], None)];
    let new_refs = vec![RefUpdate { ref_name: "refs/heads/main".to_string(), old_sha: "b".to_string(), new_sha: "c".to_string() }];
    let sup = supersede_overlapping_runs(&new_refs, &active);
    let ids: Vec<&str> = sup.iter().map(|r| r.id.as_str()).collect();
    assert_eq!(ids, vec!["r1", "r3"]);
    assert_eq!(sup[1].base_sha, "base-r3");
    assert_eq!(sup[1].ref_updates.len(), 2);
}
