use airlock::executor::{
    base_sha_fallback_reason, build_stage_environment, cancelled_result,
    default_branch_from_probes, exited_result, failure_message, fallback_shell,
    finish_step_result, log_append_action, merge_base_fallback, process_error_result, resolve_effective_base_sha,
    stage_logs_dir, stage_shell, step_timeout_secs, timed_out_result, CappedLog, LogAppend, LOG_MARKER_LEN,
    StageEnvironment, StageEnvironmentParams, LOG_TRUNCATED_MARKER, MAX_LOG_FILE_SIZE,
};
use airlock::paths::AirlockPaths;
use airlock::types::{ApprovalMode, StepDefinition, StepStatus};
use std::collections::{BTreeMap, HashMap};

fn create_test_stage(name: &str, run: &str) -> StepDefinition {
    StepDefinition {
        name: name.to_string(),
        run: Some(run.to_string()),
        uses: None,
        shell: None,
        env: BTreeMap::new(),
        continue_on_error: false,
        require_approval: ApprovalMode::Never,
        timeout: None,
        apply_patch: false,
    }
}

fn create_test_env() -> StageEnvironment {
    let root = "/tmp/stage-test";
    StageEnvironment {
        run_id: "run-123".to_string(),
        branch: "refs/heads/feature/test".to_string(),
        base_sha: "abc123".to_string(),
        head_sha: "def456".to_string(),
        worktree: format!("{}/worktree", root),
        artifacts: format!("{}/artifacts", root),
        logs_dir: format!("{}/logs", root),
        stage_result_path: format!("{}/logs/result.json", root),
        repo_root: format!("{}/repo", root),
        upstream_url: "git@github.com:user/repo.git".to_string(),
        gate_path: format!("{}/gate.git", root),
        default_branch: "main".to_string(),
        job_key: None,
        job_name: None,
        git_author_name: Some("Test User".to_string()),
        git_author_email: Some("test@example.com".to_string()),
    }
}

fn as_map(vars: Vec<(String, String)>) -> HashMap<String, String> {
    vars.into_iter().collect()
}

#[test]
fn test_stage_environment_to_env_vars() {
    let env = create_test_env();
    let vars = as_map(env.to_env_vars(None, ""));
    assert_eq!(vars.get("AIRLOCK_RUN_ID"), Some(&"run-123".to_string()));
    assert_eq!(vars.get("AIRLOCK_BRANCH"), Some(&"refs/heads/feature/test".to_string()));
    assert_eq!(vars.get("AIRLOCK_BASE_SHA"), Some(&"abc123".to_string()));
    assert_eq!(vars.get("AIRLOCK_HEAD_SHA"), Some(&"def456".to_string()));
    assert!(vars.contains_key("AIRLOCK_WORKTREE"));
    assert!(vars.contains_key("AIRLOCK_ARTIFACTS"));
    assert!(vars.contains_key("AIRLOCK_STAGE_RESULT"));
    assert!(vars.contains_key("AIRLOCK_REPO_ROOT"));
    assert_eq!(vars.get("AIRLOCK_UPSTREAM_URL"), Some(&"git@github.com:user/repo.git".to_string()));
    assert!(vars.contains_key("AIRLOCK_GATE_PATH"));
    assert_eq!(vars.get("AIRLOCK_DEFAULT_BRANCH"), Some(&"main".to_string()));
    assert!(!vars.contains_key("AIRLOCK_RUN_ARTIFACTS"));
}

#[test]
fn test_stage_environment_sets_git_identity_env_vars() {
    let env = create_test_env();
    let vars = as_map(env.to_env_vars(None, ""));
    assert_eq!(vars.get("GIT_AUTHOR_NAME"), Some(&"Test User".to_string()));
    assert_eq!(vars.get("GIT_AUTHOR_EMAIL"), Some(&"test@example.com".to_string()));
    assert_eq!(vars.get("GIT_COMMITTER_NAME"), Some(&"Airlock".to_string()));
    assert_eq!(vars.get("GIT_COMMITTER_EMAIL"), Some(&"airlock@airlockhq.com".to_string()));
}

#[test]
fn test_stage_environment_omits_author_when_none() {
    let mut env = create_test_env();
    env.git_author_name = None;
    env.git_author_email = None;
    let vars = as_map(env.to_env_vars(None, ""));
    assert!(!vars.contains_key("GIT_AUTHOR_NAME"));
    assert!(!vars.contains_key("GIT_AUTHOR_EMAIL"));
    assert_eq!(vars.get("GIT_COMMITTER_NAME"), Some(&"Airlock".to_string()));
    assert_eq!(vars.get("GIT_COMMITTER_EMAIL"), Some(&"airlock@airlockhq.com".to_string()));
}

#[test]
fn stage_environment_path_and_job() {
    let mut env = create_test_env();
    env.job_key = Some("lint".to_string());
    let vars = as_map(env.to_env_vars(Some("/opt/airlock/bin"), "/usr/bin:/bin"));
    assert_eq!(vars.get("PATH"), Some(&"/opt/airlock/bin:/usr/bin:/bin".to_string()));
    assert_eq!(vars.get("AIRLOCK_JOB_KEY"), Some(&"lint".to_string()));
    assert!(!vars.contains_key("AIRLOCK_JOB_NAME"));
}

#[test]
fn test_create_stage_logs_dir() {
    let paths = AirlockPaths::with_root("/tmp/airlock-test".to_string());
    let with_job = stage_logs_dir(&paths, "repo-1", "run-1", "test", Some("lint"));
    assert!(with_job.ends_with("logs/lint/test"));
    let without = stage_logs_dir(&paths, "repo-1", "run-1", "test", None);
    assert!(without.ends_with("logs/test"));
    assert_eq!(without, "/tmp/airlock-test/artifacts/repo-1/run-1/logs/test");
}

#[test]
fn building_the_stage_environment() {
    let paths = AirlockPaths::with_root("/r".to_string());
    let params = StageEnvironmentParams {
        paths: &paths,
        repo_id: "repo-1",
        run_id: "run-1",
        stage_name: "test",
        branch: "refs/heads/main",
        base_sha: "a",
        head_sha: "b",
        worktree_path: "/wt",
        repo_root: "/src",
        upstream_url: "u",
        gate_path: "/g",
        job_key: Some("lint"),
    };
    let env = build_stage_environment(&params, "main".to_string(), None, Some("e@x".to_string()));
    assert_eq!(env.artifacts, "/r/artifacts/repo-1/run-1");
    assert_eq!(env.logs_dir, "/r/artifacts/repo-1/run-1/logs/lint/test");
    assert_eq!(env.stage_result_path, "/r/artifacts/repo-1/run-1/logs/lint/test/result.json");
    assert_eq!(env.job_key, Some("lint".to_string()));
    assert_eq!(env.job_name, None);
    assert_eq!(env.git_author_email, Some("e@x".to_string()));
}

#[test]
fn log_cap_decisions() {
    assert_eq!(log_append_action(0, 10, false), LogAppend::Write);
    assert_eq!(log_append_action(MAX_LOG_FILE_SIZE - 10, 10, false), LogAppend::Write);
    assert_eq!(log_append_action(MAX_LOG_FILE_SIZE - 10, 11, false), LogAppend::WriteMarker);
    assert_eq!(log_append_action(MAX_LOG_FILE_SIZE, 1, false), LogAppend::Drop);
    assert_eq!(log_append_action(26, 5, true), LogAppend::Drop);
    assert_eq!(LOG_TRUNCATED_MARKER, "\n[log truncated at 50 MB]\n");
    assert_eq!(MAX_LOG_FILE_SIZE, 50 * 1024 * 1024);
}

#[test]
fn shells() {
    let stage = create_test_stage("s", "true");
    let (shell, args) = stage_shell(&stage, "/bin/zsh");
    assert_eq!(shell, "/bin/zsh");
    assert_eq!(args, vec!["-l", "-c"]);
    let fb = fallback_shell(&stage).unwrap();
    assert_eq!(fb.0, "sh");
    assert_eq!(fb.1, vec!["-c"]);
    let mut bash = stage.clone();
    bash.shell = Some("bash".to_string());
    assert_eq!(stage_shell(&bash, "/bin/zsh").0, "bash");
    assert!(fallback_shell(&bash).is_none());
}

#[test]
fn stage_results() {
    let r = exited_result(Some(0), "out".to_string(), String::new(), 5);
    assert!(r.passed);
    let r = exited_result(Some(42), String::new(), "err".to_string(), 5);
    assert!(!r.passed);
    assert_eq!(r.exit_code, 42);
    let r = exited_result(None, String::new(), String::new(), 5);
    assert_eq!(r.exit_code, -1);
    assert!(!r.passed);
    assert_eq!(cancelled_result(3).stderr, "Cancelled: superseded by newer push");
    assert_eq!(timed_out_result(10_000, 10000).stderr, "Stage timed out after 10s");
    assert_eq!(process_error_result("boom", 1).stderr, "Process error: boom");
    let mut s = create_test_stage("s", "true");
    assert_eq!(step_timeout_secs(&s), 3600);
    s.timeout = Some(5);
    assert_eq!(step_timeout_secs(&s), 5);
}

#[test]
fn failure_messages() {
    assert_eq!(failure_message(1, ""), "Exit code: 1. No error output");
    assert_eq!(failure_message(-1, "a\nb"), "Exit code: -1. a\nb");
    let many: String = (0..15).map(|i| format!("line{}\n", i)).collect();
    let expected: Vec<String> = (0..10).map(|i| format!("line{}", i)).collect();
    assert_eq!(failure_message(2, &many), format!("Exit code: 2. {}", expected.join("\n")));
}

#[test]
fn finished_step_results() {
    let mut stage = create_test_stage("review", "true");
    stage.require_approval = ApprovalMode::Always;
    let passed = exited_result(Some(0), String::new(), String::new(), 7);
    let r = finish_step_result("sr-1", "run-1", &stage, 10, 20, &passed, false);
    assert_eq!(r.status, StepStatus::AwaitingApproval);
    assert_eq!(r.exit_code, Some(0));
    assert_eq!(r.duration_ms, Some(7));
    assert!(r.error.is_none());

    let failed = exited_result(Some(42), String::new(), String::new(), 7);
    let r = finish_step_result("sr-1", "run-1", &create_test_stage("t", "exit 42"), 10, 20, &failed, false);
    assert_eq!(r.status, StepStatus::Failed);
    assert_eq!(r.exit_code, Some(42));
    assert_eq!(r.error, Some("Exit code: 42. No error output".to_string()));
}

#[test]
fn base_sha_resolution() {
    assert_eq!(base_sha_fallback_reason("0000000000000000000000000000000000000000", false), Some("new branch"));
    assert_eq!(base_sha_fallback_reason("abc", false), Some("force push"));
    assert_eq!(base_sha_fallback_reason("abc", true), None);

    assert_eq!(
        merge_base_fallback(None, Some(" m1 \n".to_string()), Some("h".to_string()), Some(String::new())),
        Ok("m1".to_string())
    );
    assert_eq!(
        merge_base_fallback(Some("  ".to_string()), None, None, Some("r1\nr2\n".to_string())),
        Ok("r2".to_string())
    );
    assert_eq!(
        merge_base_fallback(None, None, None, None),
        Err("Failed to find root commit".to_string())
    );
    assert_eq!(
        merge_base_fallback(None, None, None, Some(String::new())),
        Err("Could not resolve effective base SHA: no commits found".to_string())
    );
}

#[test]
fn default_branch_detection() {
    assert_eq!(default_branch_from_probes(Some("refs/remotes/origin/develop\n"), true, true), "develop");
    assert_eq!(default_branch_from_probes(None, false, true), "master");
    assert_eq!(default_branch_from_probes(Some("garbage"), true, true), "main");
    assert_eq!(default_branch_from_probes(None, false, false), "main");
}

#[test]
fn test_resolve_effective_base_sha_normal_push() {
    let r = resolve_effective_base_sha("abc123", true, None, None, None, None);
    assert_eq!(r, Ok("abc123".to_string()), "Normal push should use the provided base_sha");
}

#[test]
fn effective_base_for_new_branch_and_force_push() {
    let zero = "0000000000000000000000000000000000000000";
    let r = resolve_effective_base_sha(zero, true, Some("mb\n".to_string()), None, None, None);
    assert_eq!(r, Ok("mb".to_string()));
    let r = resolve_effective_base_sha("old", false, None, None, Some("h20".to_string()), None);
    assert_eq!(r, Ok("h20".to_string()));
    let r = resolve_effective_base_sha("old", false, None, None, None, Some("root\n".to_string()));
    assert_eq!(r, Ok("root".to_string()));
}

#[test]
fn a_marked_log_drops_every_later_write() {
    let mut log = CappedLog { size: 0, marked: false };
    assert_eq!(log.append(MAX_LOG_FILE_SIZE + 1), LogAppend::WriteMarker);
    assert_eq!(log, CappedLog { size: LOG_MARKER_LEN, marked: true });
    assert_eq!(log.append(5), LogAppend::Drop);
    assert_eq!(log, CappedLog { size: LOG_MARKER_LEN, marked: true });
    assert_eq!(LOG_TRUNCATED_MARKER.len() as u64, LOG_MARKER_LEN);
    let mut fresh = CappedLog { size: 0, marked: false };
    assert_eq!(fresh.append(6), LogAppend::Write);
    assert_eq!(fresh.append(5), LogAppend::Write);
    assert_eq!(fresh.size, 11);
}

#[test]
fn a_timed_out_stage_names_its_timeout_as_a_duration_prints() {
    let r = timed_out_result(100, 100);
    assert_eq!(r.exit_code, -1);
    assert!(!r.passed);
    assert_eq!(r.stdout, "");
    assert_eq!(r.stderr, "Stage timed out after 100ms");
    assert_eq!(timed_out_result(3_600_000, 1).stderr, "Stage timed out after 3600s");
    assert_eq!(timed_out_result(1_500, 1).stderr, "Stage timed out after 1.5s");
    assert_eq!(timed_out_result(1_050, 1).stderr, "Stage timed out after 1.05s");
    assert_eq!(timed_out_result(2_007, 1).stderr, "Stage timed out after 2.007s");
    assert_eq!(timed_out_result(0, 1).stderr, "Stage timed out after 0ns");
    assert_eq!(format!("Stage timed out after {:?}", std::time::Duration::from_millis(1_050)), "Stage timed out after 1.05s");
}
