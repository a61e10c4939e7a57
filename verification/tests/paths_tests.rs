use airlock::paths::AirlockPaths;

#[test]
fn test_intent_branch_name() {
    assert_eq!(
        AirlockPaths::intent_branch_name("run-123", "intent-456"),
        "airlock/run-123/intent-456"
    );
}

#[test]
fn test_worktree_path_format() {
    let paths = AirlockPaths::with_root("/tmp/airlock".to_string());
    let worktree_path = paths.run_worktree("repo-123", "run-456");
    assert_eq!(worktree_path, "/tmp/airlock/worktrees/repo-123/run-456");
}

#[test]
fn layout_under_root() {
    let paths = AirlockPaths::with_root("/tmp/airlock-test".to_string());
    assert_eq!(paths.repo_worktree("repo-1"), "/tmp/airlock-test/worktrees/repo-1/persistent");
    assert_eq!(paths.run_artifacts("r", "x"), "/tmp/airlock-test/artifacts/r/x");
    assert_eq!(
        paths.intent_worktree("repo-abc", "run-123", "intent-456"),
        "/tmp/airlock-test/worktrees/repo-abc/run-123/intent-456"
    );
    // Distinct runs never share a worktree.
    assert_ne!(paths.run_worktree("r", "a"), paths.run_worktree("r", "b"));
}

#[test]
fn root_from_environment() {
    let p = AirlockPaths::from_environment(Some("/custom".to_string()), Some("/home/u".to_string()))
        .unwrap();
    assert_eq!(p.root(), "/custom");
    let p = AirlockPaths::from_environment(None, Some("/home/u".to_string())).unwrap();
    assert_eq!(p.root(), "/home/u/.airlock");
    assert!(AirlockPaths::from_environment(None, None).is_err());
}

#[test]
fn test_paths_with_custom_root() {
    let paths = AirlockPaths::with_root("/tmp/airlock-test".to_string());
    assert_eq!(paths.root(), "/tmp/airlock-test");
    assert_eq!(paths.database(), "/tmp/airlock-test/state.sqlite");
    assert_eq!(paths.repos_dir(), "/tmp/airlock-test/repos");
    assert_eq!(paths.repo_gate("abc123"), "/tmp/airlock-test/repos/abc123.git");
    assert_eq!(paths.socket(), "/tmp/airlock-test/socket");
}

#[test]
fn test_run_artifacts_path() {
    let paths = AirlockPaths::with_root("/tmp/airlock-test".to_string());
    assert_eq!(paths.run_artifacts("repo1", "run1"), "/tmp/airlock-test/artifacts/repo1/run1");
}

#[test]
fn test_repo_lock_path() {
    let paths = AirlockPaths::with_root("/tmp/airlock-test".to_string());
    assert_eq!(paths.repo_lock("abc123"), "/tmp/airlock-test/locks/abc123.lock");
}

#[test]
fn test_worktrees_dir() {
    let paths = AirlockPaths::with_root("/tmp/airlock-test".to_string());
    assert_eq!(paths.worktrees_dir(), "/tmp/airlock-test/worktrees");
}

#[test]
fn test_run_worktree_path() {
    let paths = AirlockPaths::with_root("/tmp/airlock-test".to_string());
    assert_eq!(
        paths.run_worktree("repo-abc", "run-123"),
        "/tmp/airlock-test/worktrees/repo-abc/run-123"
    );
}

#[test]
fn test_intent_worktree_path() {
    let paths = AirlockPaths::with_root("/tmp/airlock-test".to_string());
    assert_eq!(
        paths.intent_worktree("repo-abc", "run-123", "intent-456"),
        "/tmp/airlock-test/worktrees/repo-abc/run-123/intent-456"
    );
}

#[test]
fn test_airlock_home_env_var() {
    let paths = AirlockPaths::from_environment(Some("/custom/airlock/path".to_string()), None)
        .expect("Should create paths with env var");
    assert_eq!(paths.root(), "/custom/airlock/path");
}

#[test]
fn required_dirs_cover_layout() {
    let paths = AirlockPaths::with_root("/r".to_string());
    let dirs = paths.required_dirs();
    assert!(dirs.contains(&"/r".to_string()));
    assert!(dirs.contains(&"/r/repos".to_string()));
    assert!(dirs.contains(&"/r/worktrees".to_string()));
    assert!(dirs.contains(&"/r/locks".to_string()));
    assert_eq!(paths.sync_worktree_dir("x"), "/r/worktrees/x/sync");
}
