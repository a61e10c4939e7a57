use airlock::dag::{DagRun, WaveStep};
use airlock::pipeline::{RunOutcome, WorktreeChoice};
use airlock::types::{ApprovalMode, JobStatus, StepDefinition};
use airlock::workflow::{JobConfig, WorkflowConfig};
use std::collections::BTreeMap;

fn job(needs: &[&str]) -> JobConfig {
    JobConfig {
        name: None,
        needs: needs.iter().map(|s| s.to_string()).collect(),
        steps: vec![StepDefinition {
            name: "s".to_string(),
            run: Some("true".to_string()),
            uses: None,
            shell: None,
            env: BTreeMap::new(),
            continue_on_error: false,
            require_approval: ApprovalMode::Never,
            timeout: None,
            apply_patch: false,
        }],
        keep_worktrees: false,
    }
}

fn workflow() -> WorkflowConfig {
    WorkflowConfig {
        name: None,
        jobs: vec![
            ("build".to_string(), job(&[])),
            ("lint".to_string(), job(&["build"])),
            ("test".to_string(), job(&["build"])),
            ("deploy".to_string(), job(&["lint", "test"])),
        ],
    }
}

fn waves() -> Vec<Vec<String>> {
    vec![
        vec!["build".to_string()],
        vec!["lint".to_string(), "test".to_string()],
        vec!["deploy".to_string()],
    ]
}

#[test]
fn a_dag_runs_wave_by_wave_and_skips_after_a_failure() {
    let wf = workflow();
    let mut dag = DagRun::new(waves());
    match dag.start_wave(&wf, false) {
        WaveStep::Launch { skipped, launch } => {
            assert!(skipped.is_empty());
            assert_eq!(launch.len(), 1);
            assert_eq!(launch[0].0, "build");
            assert!(matches!(launch[0].1, WorktreeChoice::Persistent));
        }
        other => panic!("unexpected {:?}", other),
    }
    dag.job_finished("build", "/w/persistent".to_string(), Some(JobStatus::Passed));
    match dag.start_wave(&wf, false) {
        WaveStep::Launch { skipped, launch } => {
            assert!(skipped.is_empty());
            assert_eq!(launch.len(), 2);
            match &launch[0].1 {
                WorktreeChoice::Inherit(p) => assert_eq!(p, "/w/persistent"),
                other => panic!("unexpected {:?}", other),
            }
        }
        other => panic!("unexpected {:?}", other),
    }
    dag.job_finished("lint", "/w/persistent".to_string(), Some(JobStatus::Failed));
    dag.job_finished("test", "/w/run.test".to_string(), Some(JobStatus::Passed));
    match dag.start_wave(&wf, false) {
        WaveStep::Launch { skipped, launch } => {
            assert_eq!(skipped, vec!["deploy".to_string()]);
            assert!(launch.is_empty());
        }
        other => panic!("unexpected {:?}", other),
    }
    assert!(matches!(dag.start_wave(&wf, false), WaveStep::Done));
    let (remove, outcome) = dag.finish(&wf, "/w/persistent");
    assert_eq!(remove, vec!["/w/run.test".to_string()]);
    assert_eq!(outcome, RunOutcome::Completed { success: false });
}

#[test]
fn a_cancelled_dag_skips_every_job_not_started() {
    let wf = workflow();
    let mut dag = DagRun::new(waves());
    let _ = dag.start_wave(&wf, false);
    dag.job_finished("build", "/w/persistent".to_string(), Some(JobStatus::Passed));
    match dag.start_wave(&wf, true) {
        WaveStep::Cancelled(keys) => assert_eq!(keys, vec!["lint", "test", "deploy"]),
        other => panic!("unexpected {:?}", other),
    }
    assert!(matches!(dag.start_wave(&wf, false), WaveStep::Done));
    assert_eq!(dag.statuses.len(), 4);
    assert!(dag.statuses.iter().skip(1).all(|(_, s)| *s == JobStatus::Skipped));
}
